//! The evdev codes the library uses match those of the input-linux crate.

use gpkbd::keys::Key;
use gpkbd::pad::{
    ABS_HAT0X, ABS_HAT0Y, BTN_DPAD_DOWN, BTN_DPAD_LEFT, BTN_DPAD_RIGHT, BTN_DPAD_UP, BTN_EAST, BTN_NORTH,
    BTN_SELECT, BTN_SOUTH, BTN_START, BTN_TL, BTN_TL2, BTN_TR, BTN_WEST, EV_ABS, EV_KEY, EV_SYN,
};
use input_linux::sys;

#[test]
fn key_codes_match_input_linux() {
    assert_eq!(Key::Esc.code(), input_linux::Key::Esc as u16, "Esc");
    assert_eq!(input_linux::Key::from_code(Key::Esc.code()).unwrap(), input_linux::Key::Esc);
    assert_eq!(Key::Num1.code(), input_linux::Key::Num1 as u16, "Num1");
    assert_eq!(input_linux::Key::from_code(Key::Num1.code()).unwrap(), input_linux::Key::Num1);
    assert_eq!(Key::Num2.code(), input_linux::Key::Num2 as u16, "Num2");
    assert_eq!(input_linux::Key::from_code(Key::Num2.code()).unwrap(), input_linux::Key::Num2);
    assert_eq!(Key::Num3.code(), input_linux::Key::Num3 as u16, "Num3");
    assert_eq!(input_linux::Key::from_code(Key::Num3.code()).unwrap(), input_linux::Key::Num3);
    assert_eq!(Key::Num4.code(), input_linux::Key::Num4 as u16, "Num4");
    assert_eq!(input_linux::Key::from_code(Key::Num4.code()).unwrap(), input_linux::Key::Num4);
    assert_eq!(Key::Num5.code(), input_linux::Key::Num5 as u16, "Num5");
    assert_eq!(input_linux::Key::from_code(Key::Num5.code()).unwrap(), input_linux::Key::Num5);
    assert_eq!(Key::Num6.code(), input_linux::Key::Num6 as u16, "Num6");
    assert_eq!(input_linux::Key::from_code(Key::Num6.code()).unwrap(), input_linux::Key::Num6);
    assert_eq!(Key::Num7.code(), input_linux::Key::Num7 as u16, "Num7");
    assert_eq!(input_linux::Key::from_code(Key::Num7.code()).unwrap(), input_linux::Key::Num7);
    assert_eq!(Key::Num8.code(), input_linux::Key::Num8 as u16, "Num8");
    assert_eq!(input_linux::Key::from_code(Key::Num8.code()).unwrap(), input_linux::Key::Num8);
    assert_eq!(Key::Num9.code(), input_linux::Key::Num9 as u16, "Num9");
    assert_eq!(input_linux::Key::from_code(Key::Num9.code()).unwrap(), input_linux::Key::Num9);
    assert_eq!(Key::Num0.code(), input_linux::Key::Num0 as u16, "Num0");
    assert_eq!(input_linux::Key::from_code(Key::Num0.code()).unwrap(), input_linux::Key::Num0);
    assert_eq!(Key::Minus.code(), input_linux::Key::Minus as u16, "Minus");
    assert_eq!(input_linux::Key::from_code(Key::Minus.code()).unwrap(), input_linux::Key::Minus);
    assert_eq!(Key::Equal.code(), input_linux::Key::Equal as u16, "Equal");
    assert_eq!(input_linux::Key::from_code(Key::Equal.code()).unwrap(), input_linux::Key::Equal);
    assert_eq!(Key::Backspace.code(), input_linux::Key::Backspace as u16, "Backspace");
    assert_eq!(input_linux::Key::from_code(Key::Backspace.code()).unwrap(), input_linux::Key::Backspace);
    assert_eq!(Key::Tab.code(), input_linux::Key::Tab as u16, "Tab");
    assert_eq!(input_linux::Key::from_code(Key::Tab.code()).unwrap(), input_linux::Key::Tab);
    assert_eq!(Key::Q.code(), input_linux::Key::Q as u16, "Q");
    assert_eq!(input_linux::Key::from_code(Key::Q.code()).unwrap(), input_linux::Key::Q);
    assert_eq!(Key::W.code(), input_linux::Key::W as u16, "W");
    assert_eq!(input_linux::Key::from_code(Key::W.code()).unwrap(), input_linux::Key::W);
    assert_eq!(Key::E.code(), input_linux::Key::E as u16, "E");
    assert_eq!(input_linux::Key::from_code(Key::E.code()).unwrap(), input_linux::Key::E);
    assert_eq!(Key::R.code(), input_linux::Key::R as u16, "R");
    assert_eq!(input_linux::Key::from_code(Key::R.code()).unwrap(), input_linux::Key::R);
    assert_eq!(Key::T.code(), input_linux::Key::T as u16, "T");
    assert_eq!(input_linux::Key::from_code(Key::T.code()).unwrap(), input_linux::Key::T);
    assert_eq!(Key::Y.code(), input_linux::Key::Y as u16, "Y");
    assert_eq!(input_linux::Key::from_code(Key::Y.code()).unwrap(), input_linux::Key::Y);
    assert_eq!(Key::U.code(), input_linux::Key::U as u16, "U");
    assert_eq!(input_linux::Key::from_code(Key::U.code()).unwrap(), input_linux::Key::U);
    assert_eq!(Key::I.code(), input_linux::Key::I as u16, "I");
    assert_eq!(input_linux::Key::from_code(Key::I.code()).unwrap(), input_linux::Key::I);
    assert_eq!(Key::O.code(), input_linux::Key::O as u16, "O");
    assert_eq!(input_linux::Key::from_code(Key::O.code()).unwrap(), input_linux::Key::O);
    assert_eq!(Key::P.code(), input_linux::Key::P as u16, "P");
    assert_eq!(input_linux::Key::from_code(Key::P.code()).unwrap(), input_linux::Key::P);
    assert_eq!(Key::LeftBrace.code(), input_linux::Key::LeftBrace as u16, "LeftBrace");
    assert_eq!(input_linux::Key::from_code(Key::LeftBrace.code()).unwrap(), input_linux::Key::LeftBrace);
    assert_eq!(Key::RightBrace.code(), input_linux::Key::RightBrace as u16, "RightBrace");
    assert_eq!(input_linux::Key::from_code(Key::RightBrace.code()).unwrap(), input_linux::Key::RightBrace);
    assert_eq!(Key::Enter.code(), input_linux::Key::Enter as u16, "Enter");
    assert_eq!(input_linux::Key::from_code(Key::Enter.code()).unwrap(), input_linux::Key::Enter);
    assert_eq!(Key::LeftCtrl.code(), input_linux::Key::LeftCtrl as u16, "LeftCtrl");
    assert_eq!(input_linux::Key::from_code(Key::LeftCtrl.code()).unwrap(), input_linux::Key::LeftCtrl);
    assert_eq!(Key::A.code(), input_linux::Key::A as u16, "A");
    assert_eq!(input_linux::Key::from_code(Key::A.code()).unwrap(), input_linux::Key::A);
    assert_eq!(Key::S.code(), input_linux::Key::S as u16, "S");
    assert_eq!(input_linux::Key::from_code(Key::S.code()).unwrap(), input_linux::Key::S);
    assert_eq!(Key::D.code(), input_linux::Key::D as u16, "D");
    assert_eq!(input_linux::Key::from_code(Key::D.code()).unwrap(), input_linux::Key::D);
    assert_eq!(Key::F.code(), input_linux::Key::F as u16, "F");
    assert_eq!(input_linux::Key::from_code(Key::F.code()).unwrap(), input_linux::Key::F);
    assert_eq!(Key::G.code(), input_linux::Key::G as u16, "G");
    assert_eq!(input_linux::Key::from_code(Key::G.code()).unwrap(), input_linux::Key::G);
    assert_eq!(Key::H.code(), input_linux::Key::H as u16, "H");
    assert_eq!(input_linux::Key::from_code(Key::H.code()).unwrap(), input_linux::Key::H);
    assert_eq!(Key::J.code(), input_linux::Key::J as u16, "J");
    assert_eq!(input_linux::Key::from_code(Key::J.code()).unwrap(), input_linux::Key::J);
    assert_eq!(Key::K.code(), input_linux::Key::K as u16, "K");
    assert_eq!(input_linux::Key::from_code(Key::K.code()).unwrap(), input_linux::Key::K);
    assert_eq!(Key::L.code(), input_linux::Key::L as u16, "L");
    assert_eq!(input_linux::Key::from_code(Key::L.code()).unwrap(), input_linux::Key::L);
    assert_eq!(Key::Semicolon.code(), input_linux::Key::Semicolon as u16, "Semicolon");
    assert_eq!(input_linux::Key::from_code(Key::Semicolon.code()).unwrap(), input_linux::Key::Semicolon);
    assert_eq!(Key::Apostrophe.code(), input_linux::Key::Apostrophe as u16, "Apostrophe");
    assert_eq!(input_linux::Key::from_code(Key::Apostrophe.code()).unwrap(), input_linux::Key::Apostrophe);
    assert_eq!(Key::Grave.code(), input_linux::Key::Grave as u16, "Grave");
    assert_eq!(input_linux::Key::from_code(Key::Grave.code()).unwrap(), input_linux::Key::Grave);
    assert_eq!(Key::LeftShift.code(), input_linux::Key::LeftShift as u16, "LeftShift");
    assert_eq!(input_linux::Key::from_code(Key::LeftShift.code()).unwrap(), input_linux::Key::LeftShift);
    assert_eq!(Key::Backslash.code(), input_linux::Key::Backslash as u16, "Backslash");
    assert_eq!(input_linux::Key::from_code(Key::Backslash.code()).unwrap(), input_linux::Key::Backslash);
    assert_eq!(Key::Z.code(), input_linux::Key::Z as u16, "Z");
    assert_eq!(input_linux::Key::from_code(Key::Z.code()).unwrap(), input_linux::Key::Z);
    assert_eq!(Key::X.code(), input_linux::Key::X as u16, "X");
    assert_eq!(input_linux::Key::from_code(Key::X.code()).unwrap(), input_linux::Key::X);
    assert_eq!(Key::C.code(), input_linux::Key::C as u16, "C");
    assert_eq!(input_linux::Key::from_code(Key::C.code()).unwrap(), input_linux::Key::C);
    assert_eq!(Key::V.code(), input_linux::Key::V as u16, "V");
    assert_eq!(input_linux::Key::from_code(Key::V.code()).unwrap(), input_linux::Key::V);
    assert_eq!(Key::B.code(), input_linux::Key::B as u16, "B");
    assert_eq!(input_linux::Key::from_code(Key::B.code()).unwrap(), input_linux::Key::B);
    assert_eq!(Key::N.code(), input_linux::Key::N as u16, "N");
    assert_eq!(input_linux::Key::from_code(Key::N.code()).unwrap(), input_linux::Key::N);
    assert_eq!(Key::M.code(), input_linux::Key::M as u16, "M");
    assert_eq!(input_linux::Key::from_code(Key::M.code()).unwrap(), input_linux::Key::M);
    assert_eq!(Key::Comma.code(), input_linux::Key::Comma as u16, "Comma");
    assert_eq!(input_linux::Key::from_code(Key::Comma.code()).unwrap(), input_linux::Key::Comma);
    assert_eq!(Key::Dot.code(), input_linux::Key::Dot as u16, "Dot");
    assert_eq!(input_linux::Key::from_code(Key::Dot.code()).unwrap(), input_linux::Key::Dot);
    assert_eq!(Key::Slash.code(), input_linux::Key::Slash as u16, "Slash");
    assert_eq!(input_linux::Key::from_code(Key::Slash.code()).unwrap(), input_linux::Key::Slash);
    assert_eq!(Key::Space.code(), input_linux::Key::Space as u16, "Space");
    assert_eq!(input_linux::Key::from_code(Key::Space.code()).unwrap(), input_linux::Key::Space);
    assert_eq!(Key::Up.code(), input_linux::Key::Up as u16, "Up");
    assert_eq!(input_linux::Key::from_code(Key::Up.code()).unwrap(), input_linux::Key::Up);
    assert_eq!(Key::PageUp.code(), input_linux::Key::PageUp as u16, "PageUp");
    assert_eq!(input_linux::Key::from_code(Key::PageUp.code()).unwrap(), input_linux::Key::PageUp);
    assert_eq!(Key::Left.code(), input_linux::Key::Left as u16, "Left");
    assert_eq!(input_linux::Key::from_code(Key::Left.code()).unwrap(), input_linux::Key::Left);
    assert_eq!(Key::Right.code(), input_linux::Key::Right as u16, "Right");
    assert_eq!(input_linux::Key::from_code(Key::Right.code()).unwrap(), input_linux::Key::Right);
    assert_eq!(Key::Down.code(), input_linux::Key::Down as u16, "Down");
    assert_eq!(input_linux::Key::from_code(Key::Down.code()).unwrap(), input_linux::Key::Down);
    assert_eq!(Key::PageDown.code(), input_linux::Key::PageDown as u16, "PageDown");
    assert_eq!(input_linux::Key::from_code(Key::PageDown.code()).unwrap(), input_linux::Key::PageDown);
}

#[test]
fn event_codes_match_input_linux() {
    assert_eq!(EV_SYN as i32, sys::EV_SYN);
    assert_eq!(EV_KEY as i32, sys::EV_KEY);
    assert_eq!(EV_ABS as i32, sys::EV_ABS);
    assert_eq!(ABS_HAT0X as i32, sys::ABS_HAT0X);
    assert_eq!(ABS_HAT0Y as i32, sys::ABS_HAT0Y);
    assert_eq!(BTN_SOUTH as i32, sys::BTN_SOUTH);
    assert_eq!(BTN_EAST as i32, sys::BTN_EAST);
    assert_eq!(BTN_NORTH as i32, sys::BTN_NORTH);
    assert_eq!(BTN_WEST as i32, sys::BTN_WEST);
    assert_eq!(BTN_TL as i32, sys::BTN_TL);
    assert_eq!(BTN_TR as i32, sys::BTN_TR);
    assert_eq!(BTN_TL2 as i32, sys::BTN_TL2);
    assert_eq!(BTN_SELECT as i32, sys::BTN_SELECT);
    assert_eq!(BTN_START as i32, sys::BTN_START);
    assert_eq!(BTN_DPAD_UP as i32, sys::BTN_DPAD_UP);
    assert_eq!(BTN_DPAD_DOWN as i32, sys::BTN_DPAD_DOWN);
    assert_eq!(BTN_DPAD_LEFT as i32, sys::BTN_DPAD_LEFT);
    assert_eq!(BTN_DPAD_RIGHT as i32, sys::BTN_DPAD_RIGHT);
}
