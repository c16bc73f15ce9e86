pub mod control;
pub mod font;
pub mod keyboard;
pub mod keys;
pub mod pad;
pub mod render;
pub mod typing;
