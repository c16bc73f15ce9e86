//! The overlay's layout: what gets painted where for a given keyboard
//! state, as a list of drawing operations, and the rectangle fills.

use vstd::prelude::*;

use vstd::arithmetic::div_mod::{lemma_fundamental_div_mod, lemma_fundamental_div_mod_converse};
use vstd::arithmetic::mul::lemma_mul_inequality;

use crate::font::{
    in_box, filled, lemma_box_index_bound, lemma_coords_index, lemma_index_coords, max_int,
    min_int, rect_fits, Canvas, Point, Size,
};
use crate::keys::{cell_view, key_cell, keys, COLS, LEGEND, LEGEND_R1, ROWS};

verus! {

/// Height of the legend strip above the grid.
pub const LEGEND_H: i32 = 14;
/// The surface height used unless one is asked for.
pub const DEFAULT_HEIGHT: i32 = 126;

// Grayscale throughout, with exactly two accents: blue marks the
// selected key, red marks a held modifier.
pub const COLOR_BG: u32 = 0xff121212;
pub const COLOR_KEY: u32 = 0xff232323;
pub const COLOR_SELECTED: u32 = 0xff4f8cff;
pub const COLOR_SELECTED_TEXT: u32 = 0xff121212;
pub const COLOR_TEXT: u32 = 0xffececec;
pub const COLOR_LEGEND: u32 = 0xff8a8a8a;
/// Idle background for indicator cells, distinct from a regular key.
pub const COLOR_IND: u32 = 0xff1a1a1a;
pub const COLOR_IND_BORDER: u32 = 0xff3a3a3a;
pub const COLOR_IND_TEXT: u32 = 0xff8a8a8a;
/// The held-modifier tint.
pub const COLOR_LATCHED: u32 = 0xffe5484d;
pub const COLOR_LATCHED_TEXT: u32 = 0xff121212;

/// Paints the rectangle at `pos` of size `size`, clipped to the canvas,
/// with `color`.
pub fn fill(canvas: &mut Canvas, pos: Point, size: Size, color: u32)
    requires
        rect_fits(old(canvas).pixels@.len() as int, old(canvas).width as int, old(canvas).height as int, pos, size),
    ensures
        final(canvas).width == old(canvas).width,
        final(canvas).height == old(canvas).height,
        final(canvas).pixels@ == filled(
            old(canvas).pixels@,
            old(canvas).width as int,
            old(canvas).height as int,
            pos,
            size,
            color,
        ),
{
    let ghost start = canvas.pixels@;
    let w = canvas.width;
    let h = canvas.height;
    let x0: i64 = if pos.x < 0 { 0 } else { pos.x as i64 };
    let y0: i64 = if pos.y < 0 { 0 } else { pos.y as i64 };
    let x_end: i64 = pos.x as i64 + size.width as i64;
    let y_end: i64 = pos.y as i64 + size.height as i64;
    let x1: i64 = if x_end < w as i64 { x_end } else { w as i64 };
    let y1: i64 = if y_end < h as i64 { y_end } else { h as i64 };
    if w <= 0 || x0 >= x1 {
        assert(canvas.pixels@ =~= filled(start, w as int, h as int, pos, size, color));
        return;
    }
    let mut py: i64 = y0;
    while py < y1
        invariant
            canvas.width == w,
            canvas.height == h,
            w > 0,
            0 <= x0 < x1 <= w,
            0 <= y0,
            y1 <= h,
            y0 <= py,
            py <= y1 || py == y0,
            x0 == max_int(pos.x as int, 0),
            x1 == min_int(pos.x + size.width, w as int),
            y0 == max_int(pos.y as int, 0),
            y1 == min_int(pos.y + size.height, h as int),
            rect_fits(start.len() as int, w as int, h as int, pos, size),
            canvas.pixels@.len() == start.len(),
            forall|i: int|
                0 <= i < start.len() ==> #[trigger] canvas.pixels@[i] == if in_box(
                    w as int,
                    i,
                    x0 as int,
                    x1 as int,
                    y0 as int,
                    py as int,
                ) {
                    color
                } else {
                    start[i]
                },
        decreases y1 - py,
    {
        let mut px: i64 = x0;
        while px < x1
            invariant
                canvas.width == w,
                canvas.height == h,
                w > 0,
                0 <= x0 < x1 <= w,
                0 <= y0 <= py < y1 <= h,
                x0 <= px <= x1,
                x0 == max_int(pos.x as int, 0),
                x1 == min_int(pos.x + size.width, w as int),
                y0 == max_int(pos.y as int, 0),
                y1 == min_int(pos.y + size.height, h as int),
                rect_fits(start.len() as int, w as int, h as int, pos, size),
                canvas.pixels@.len() == start.len(),
                forall|i: int|
                    0 <= i < start.len() ==> #[trigger] canvas.pixels@[i] == if in_box(
                        w as int,
                        i,
                        x0 as int,
                        x1 as int,
                        y0 as int,
                        py as int,
                    ) || in_box(w as int, i, x0 as int, px as int, py as int, py + 1) {
                        color
                    } else {
                        start[i]
                    },
            decreases x1 - px,
        {
            proof {
                lemma_box_index_bound(w as int, px as int, py as int, x1 as int, y1 as int);
                assert(py * w <= (y1 - 1) * w) by {
                    lemma_mul_inequality(py as int, y1 - 1, w as int);
                }
                assert((y1 - 1) * w <= h * w) by {
                    lemma_mul_inequality(y1 - 1, h as int, w as int);
                }
                assert(h * w <= 0x7fff_ffff * 0x7fff_ffff) by (nonlinear_arith)
                    requires
                        0 <= h <= 0x7fff_ffff,
                        0 < w <= 0x7fff_ffff,
                ;
            }
            let idx = (py * (w as i64) + px) as usize;
            let ghost before = canvas.pixels@;
            canvas.pixels[idx] = color;
            proof {
                lemma_index_coords(idx as int, w as int, px as int, py as int);
                assert forall|i: int| 0 <= i < start.len() implies #[trigger] canvas.pixels@[i] == if in_box(
                    w as int,
                    i,
                    x0 as int,
                    x1 as int,
                    y0 as int,
                    py as int,
                ) || in_box(w as int, i, x0 as int, px + 1, py as int, py + 1) {
                    color
                } else {
                    start[i]
                } by {
                    if i != idx as int {
                        assert(before[i] == canvas.pixels@[i]);
                        if i / (w as int) == py && i % (w as int) == px {
                            lemma_coords_index(i, w as int);
                        }
                    }
                }
            }
            px = px + 1;
        }
        proof {
            assert forall|i: int| 0 <= i < start.len() implies #[trigger] canvas.pixels@[i] == if in_box(
                w as int,
                i,
                x0 as int,
                x1 as int,
                y0 as int,
                py + 1,
            ) {
                color
            } else {
                start[i]
            } by {
                let _ = canvas.pixels@[i];
            }
        }
        py = py + 1;
    }
    assert(canvas.pixels@ =~= filled(start, w as int, h as int, pos, size, color)) by {
        assert forall|i: int| 0 <= i < start.len() implies canvas.pixels@[i] == filled(
            start,
            w as int,
            h as int,
            pos,
            size,
            color,
        )[i] by {
            let _ = canvas.pixels@[i];
            if y0 <= y1 {
                assert(py == y1);
            }
        }
    }
}


/// Fills a rectangle with a 1px border ring around a (possibly different)
/// fill color.
pub fn fill_bordered(canvas: &mut Canvas, pos: Point, size: Size, border: u32, fill_color: u32)
    requires
        pos.x < i32::MAX,
        pos.y < i32::MAX,
        size.width >= i32::MIN + 2,
        size.height >= i32::MIN + 2,
        rect_fits(old(canvas).pixels@.len() as int, old(canvas).width as int, old(canvas).height as int, pos, size),
        rect_fits(
            old(canvas).pixels@.len() as int,
            old(canvas).width as int,
            old(canvas).height as int,
            Point { x: (pos.x + 1) as i32, y: (pos.y + 1) as i32 },
            Size { width: (size.width - 2) as i32, height: (size.height - 2) as i32 },
        ),
    ensures
        final(canvas).width == old(canvas).width,
        final(canvas).height == old(canvas).height,
        final(canvas).pixels@ == filled(
            filled(old(canvas).pixels@, old(canvas).width as int, old(canvas).height as int, pos, size, border),
            old(canvas).width as int,
            old(canvas).height as int,
            Point { x: (pos.x + 1) as i32, y: (pos.y + 1) as i32 },
            Size { width: (size.width - 2) as i32, height: (size.height - 2) as i32 },
            fill_color,
        ),
{
    fill(canvas, pos, size, border);
    fill(canvas, Point::new(pos.x + 1, pos.y + 1), Size::new(size.width - 2, size.height - 2), fill_color);
}

/// Whether a fill of the rectangle at `pos` of size `size` stays within a
/// buffer of `len` pixels holding a `width` by `height` canvas.
pub fn fill_fits(len: usize, width: i32, height: i32, pos: Point, size: Size) -> (b: bool)
    ensures
        b == rect_fits(len as int, width as int, height as int, pos, size),
{
    let w = width as i64;
    let h = height as i64;
    let x0: i64 = if pos.x < 0 { 0 } else { pos.x as i64 };
    let y0: i64 = if pos.y < 0 { 0 } else { pos.y as i64 };
    let x_end: i64 = pos.x as i64 + size.width as i64;
    let y_end: i64 = pos.y as i64 + size.height as i64;
    let x1: i64 = if x_end < w { x_end } else { w };
    let y1: i64 = if y_end < h { y_end } else { h };
    if x0 < x1 && y0 < y1 {
        assert(0 <= (y1 - 1) * w <= 0x7fff_ffff * 0x7fff_ffff) by (nonlinear_arith)
            requires
                0 <= y1 - 1 < h <= 0x7fff_ffff,
                0 < w <= 0x7fff_ffff,
        ;
        let last = (y1 - 1) * w + (x1 - 1);
        (last as u64) < (len as u64)
    } else {
        true
    }
}

/// How large a piece of text is drawn; the renderer turns this into a
/// font size for the surface it draws on.
#[derive(Clone, Copy, PartialEq, Eq, Structural, Debug)]
pub enum TextSize {
    /// The legend line above the grid.
    Legend,
    /// A key's label.
    Key,
    /// A nav tile's label, smaller than a key's: tiles carry words.
    Nav,
}

/// One step of drawing a frame, in painting order.
#[derive(Clone, Copy, Debug)]
pub enum DrawOp {
    /// Paint a rectangle, clipped to the canvas.
    Fill { pos: Point, size: Size, color: u32 },
    /// Draw text with its top-left corner at `pos`.
    Text { pos: Point, text: &'static str, text_size: TextSize, color: u32 },
    /// Draw text centered in the cell at `pos` of size `size`; `bold`
    /// draws each glyph twice, a pixel apart.
    Label { pos: Point, size: Size, text: &'static str, text_size: TextSize, color: u32, bold: bool },
}

/// A drawing step with its text as characters.
pub enum DrawOpModel {
    Fill { pos: Point, size: Size, color: u32 },
    Text { pos: Point, text: Seq<char>, text_size: TextSize, color: u32 },
    Label { pos: Point, size: Size, text: Seq<char>, text_size: TextSize, color: u32, bold: bool },
}

impl View for DrawOp {
    type V = DrawOpModel;

    open spec fn view(&self) -> DrawOpModel {
        match *self {
            DrawOp::Fill { pos, size, color } => DrawOpModel::Fill { pos, size, color },
            DrawOp::Text { pos, text, text_size, color } => DrawOpModel::Text { pos, text: text@, text_size, color },
            DrawOp::Label { pos, size, text, text_size, color, bold } => DrawOpModel::Label {
                pos,
                size,
                text: text@,
                text_size,
                color,
                bold,
            },
        }
    }
}

/// A list of drawing steps, each as a model.
pub open spec fn ops_view(ops: Seq<DrawOp>) -> Seq<DrawOpModel> {
    ops.map_values(|op: DrawOp| op@)
}

/// Integer division rounding toward zero, as Rust's `/` does.
pub open spec fn div_toward_zero(x: int, d: int) -> int {
    if x >= 0 {
        x / d
    } else {
        -((-x) / d)
    }
}

/// Width of a grid cell on a surface `width` pixels wide.
pub open spec fn cell_width(width: i32) -> int {
    div_toward_zero(width as int, COLS as int)
}

/// Height of a grid cell on a surface `height` pixels tall.
pub open spec fn cell_height(height: i32) -> int {
    div_toward_zero(height - LEGEND_H, ROWS as int)
}

/// Top-left corner of the cell in row `r`, column `c`.
pub open spec fn cell_pos(r: int, c: int, cw: int, ch: int) -> Point {
    Point { x: (c * cw) as i32, y: (LEGEND_H + r * ch) as i32 }
}

/// A cell's fill, a pixel inside its edges so neighbours stay apart.
pub open spec fn cell_fill(pos: Point, cw: int, ch: int, color: u32) -> DrawOpModel {
    DrawOpModel::Fill {
        pos: Point { x: (pos.x + 1) as i32, y: (pos.y + 1) as i32 },
        size: Size { width: (cw - 2) as i32, height: (ch - 2) as i32 },
        color,
    }
}

/// What is drawn for grid cell `(r, c)`. The selected cell is blue, and
/// only while R1's nav overlay is down, since the grid is not being typed
/// into while it is up. An empty cell is a gap unless selected. A key shows
/// its shifted label while shift is held, and is dimmed to the background
/// while the nav overlay is up.
pub open spec fn cell_ops(r: int, c: int, sel_row: usize, sel_col: usize, shift: bool, r1: bool, cw: int, ch: int) -> Seq<
    DrawOpModel,
> {
    let pos = cell_pos(r, c, cw, ch);
    let selected = !r1 && r == sel_row && c == sel_col;
    match key_cell(r, c) {
        None => if selected {
            seq![cell_fill(pos, cw, ch, COLOR_SELECTED)]
        } else {
            seq![]
        },
        Some(k) => if r1 {
            seq![]
        } else {
            seq![
                cell_fill(pos, cw, ch, if selected { COLOR_SELECTED } else { COLOR_KEY }),
                DrawOpModel::Label {
                    pos,
                    size: Size { width: cw as i32, height: ch as i32 },
                    text: if shift { k.shifted } else { k.label },
                    text_size: TextSize::Key,
                    color: if selected { COLOR_SELECTED_TEXT } else { COLOR_TEXT },
                    bold: selected,
                },
            ]
        },
    }
}

/// What is drawn for the grid's first `n` cells, row by row.
pub open spec fn grid_ops_upto(n: int, sel_row: usize, sel_col: usize, shift: bool, r1: bool, cw: int, ch: int) -> Seq<
    DrawOpModel,
>
    decreases n,
{
    if n <= 0 {
        seq![]
    } else {
        grid_ops_upto(n - 1, sel_row, sel_col, shift, r1, cw, ch) + cell_ops(
            (n - 1) / (COLS as int),
            (n - 1) % (COLS as int),
            sel_row,
            sel_col,
            shift,
            r1,
            cw,
            ch,
        )
    }
}

/// The tiles of the D-pad/face-button overlay shown while R1 is held:
/// cell row, cell column and label. The left diamond mirrors the D-pad,
/// the right one X/Y/A/B.
pub open spec fn nav_tile(i: int) -> (int, int, Seq<char>) {
    if i == 0 {
        (0, 2, "Up"@)
    } else if i == 1 {
        (1, 1, "Left"@)
    } else if i == 2 {
        (1, 3, "Right"@)
    } else if i == 3 {
        (2, 2, "Down"@)
    } else if i == 4 {
        (0, 11, "PgUp"@)
    } else if i == 5 {
        (1, 10, "Tab"@)
    } else if i == 6 {
        (1, 12, "Esc"@)
    } else {
        (2, 11, "PgDn"@)
    }
}

/// Number of nav overlay tiles.
pub const NAV_TILE_COUNT: usize = 8;

/// What is drawn for the first `n` nav tiles: each a plain key-colored
/// cell with its label.
pub open spec fn nav_ops_upto(n: int, cw: int, ch: int) -> Seq<DrawOpModel>
    decreases n,
{
    if n <= 0 {
        seq![]
    } else {
        let (r, c, label) = nav_tile(n - 1);
        let pos = cell_pos(r, c, cw, ch);
        nav_ops_upto(n - 1, cw, ch) + seq![
            cell_fill(pos, cw, ch, COLOR_KEY),
            DrawOpModel::Label {
                pos,
                size: Size { width: cw as i32, height: ch as i32 },
                text: label,
                text_size: TextSize::Nav,
                color: COLOR_TEXT,
                bold: false,
            },
        ]
    }
}

/// Everything drawn for a frame, in order: the background, the legend line
/// (the nav chord's while R1 is held), the grid, the nav overlay while R1
/// is held, and the held-modifier tint in the grid's top-left corner.
pub open spec fn frame_ops(width: i32, height: i32, sel_row: usize, sel_col: usize, shift: bool, r1: bool, latched: bool) -> Seq<
    DrawOpModel,
> {
    let cw = cell_width(width);
    let ch = cell_height(height);
    seq![
        DrawOpModel::Fill {
            pos: Point { x: 0, y: 0 },
            size: Size { width, height },
            color: COLOR_BG,
        },
        DrawOpModel::Text {
            pos: Point { x: 4, y: 1 },
            text: if r1 { LEGEND_R1@ } else { LEGEND@ },
            text_size: TextSize::Legend,
            color: COLOR_LEGEND,
        },
    ] + grid_ops_upto((ROWS * COLS) as int, sel_row, sel_col, shift, r1, cw, ch) + (if r1 {
        nav_ops_upto(NAV_TILE_COUNT as int, cw, ch)
    } else {
        seq![]
    }) + (if latched {
        seq![
            DrawOpModel::Fill {
                pos: Point { x: 0, y: LEGEND_H },
                size: Size { width: div_toward_zero(cw, 4) as i32, height: div_toward_zero(ch, 4) as i32 },
                color: COLOR_LATCHED,
            },
        ]
    } else {
        seq![]
    })
}

/// How many of `ops` paint a rectangle in the selection color.
pub open spec fn selection_fills(ops: Seq<DrawOpModel>) -> nat
    decreases ops.len(),
{
    if ops.len() == 0 {
        0
    } else {
        selection_fills(ops.drop_last()) + match ops.last() {
            DrawOpModel::Fill { color, .. } => if color == COLOR_SELECTED {
                1nat
            } else {
                0nat
            },
            _ => 0nat,
        }
    }
}

/// Counting selection fills distributes over concatenation.
proof fn lemma_selection_fills_add(a: Seq<DrawOpModel>, b: Seq<DrawOpModel>)
    ensures
        selection_fills(a + b) == selection_fills(a) + selection_fills(b),
    decreases b.len(),
{
    if b.len() == 0 {
        assert(a + b =~= a);
    } else {
        assert((a + b).drop_last() =~= a + b.drop_last());
        lemma_selection_fills_add(a, b.drop_last());
    }
}

/// The grid's first `n` cells paint the selection color once if the
/// selected cell is among them and the nav overlay is down, otherwise not
/// at all.
proof fn lemma_grid_selection_fills(n: int, sel_row: usize, sel_col: usize, shift: bool, r1: bool, cw: int, ch: int)
    requires
        0 <= n <= ROWS * COLS,
    ensures
        selection_fills(grid_ops_upto(n, sel_row, sel_col, shift, r1, cw, ch)) == (if !r1 && sel_row < ROWS
            && sel_col < COLS && sel_row * COLS + sel_col < n {
            1nat
        } else {
            0nat
        }),
    decreases n,
{
    if n > 0 {
        let i = n - 1;
        let r = i / (COLS as int);
        let c = i % (COLS as int);
        lemma_grid_selection_fills(i, sel_row, sel_col, shift, r1, cw, ch);
        lemma_selection_fills_add(
            grid_ops_upto(i, sel_row, sel_col, shift, r1, cw, ch),
            cell_ops(r, c, sel_row, sel_col, shift, r1, cw, ch),
        );
        lemma_fundamental_div_mod(i, COLS as int);
        assert(r < ROWS);
        if sel_col < COLS {
            if r == sel_row && c == sel_col {
                assert(i == sel_row * COLS + sel_col);
            }
            if i == sel_row * COLS + sel_col {
                lemma_fundamental_div_mod_converse(i, COLS as int, sel_row as int, sel_col as int);
            }
        }
        let ops = cell_ops(r, c, sel_row, sel_col, shift, r1, cw, ch);
        reveal_with_fuel(selection_fills, 3);
        assert(selection_fills(ops) == (if !r1 && r == sel_row && c == sel_col {
            1nat
        } else {
            0nat
        }));
    }
}

/// The nav overlay paints nothing in the selection color.
proof fn lemma_nav_selection_fills(n: int, cw: int, ch: int)
    requires
        0 <= n,
    ensures
        selection_fills(nav_ops_upto(n, cw, ch)) == 0,
    decreases n,
{
    if n > 0 {
        let (r, c, label) = nav_tile(n - 1);
        let pos = cell_pos(r, c, cw, ch);
        let tail = seq![
            cell_fill(pos, cw, ch, COLOR_KEY),
            DrawOpModel::Label {
                pos,
                size: Size { width: cw as i32, height: ch as i32 },
                text: label,
                text_size: TextSize::Nav,
                color: COLOR_TEXT,
                bold: false,
            },
        ];
        lemma_nav_selection_fills(n - 1, cw, ch);
        lemma_selection_fills_add(nav_ops_upto(n - 1, cw, ch), tail);
        reveal_with_fuel(selection_fills, 3);
    }
}

/// Exactly one cell of a frame is painted in the selection color while the
/// nav overlay is down and the selection is on the grid; none while the
/// overlay is up, since the grid is not being typed into then.
pub proof fn lemma_one_cell_selected(
    width: i32,
    height: i32,
    sel_row: usize,
    sel_col: usize,
    shift: bool,
    r1: bool,
    latched: bool,
)
    ensures
        selection_fills(frame_ops(width, height, sel_row, sel_col, shift, r1, latched)) == (if !r1 && sel_row
            < ROWS && sel_col < COLS {
            1nat
        } else {
            0nat
        }),
{
    let cw = cell_width(width);
    let ch = cell_height(height);
    let head = seq![
        DrawOpModel::Fill { pos: Point { x: 0, y: 0 }, size: Size { width, height }, color: COLOR_BG },
        DrawOpModel::Text {
            pos: Point { x: 4, y: 1 },
            text: if r1 { LEGEND_R1@ } else { LEGEND@ },
            text_size: TextSize::Legend,
            color: COLOR_LEGEND,
        },
    ];
    let grid = grid_ops_upto((ROWS * COLS) as int, sel_row, sel_col, shift, r1, cw, ch);
    let nav = if r1 {
        nav_ops_upto(NAV_TILE_COUNT as int, cw, ch)
    } else {
        seq![]
    };
    let tint = if latched {
        seq![
            DrawOpModel::Fill {
                pos: Point { x: 0, y: LEGEND_H },
                size: Size { width: div_toward_zero(cw, 4) as i32, height: div_toward_zero(ch, 4) as i32 },
                color: COLOR_LATCHED,
            },
        ]
    } else {
        seq![]
    };
    assert(frame_ops(width, height, sel_row, sel_col, shift, r1, latched) == head + grid + nav + tint);
    reveal_with_fuel(selection_fills, 3);
    lemma_grid_selection_fills((ROWS * COLS) as int, sel_row, sel_col, shift, r1, cw, ch);
    lemma_nav_selection_fills(NAV_TILE_COUNT as int, cw, ch);
    lemma_selection_fills_add(head, grid);
    lemma_selection_fills_add(head + grid, nav);
    lemma_selection_fills_add(head + grid + nav, tint);
    if sel_row < ROWS && sel_col < COLS {
        assert(sel_row * COLS + sel_col < ROWS * COLS) by (nonlinear_arith)
            requires
                sel_row < ROWS,
                sel_col < COLS,
        ;
    }
}

/// The grid's first `n` cells draw every step of each cell before the
/// `n`th.
proof fn lemma_grid_ops_contains(
    n: int,
    i: int,
    j: int,
    sel_row: usize,
    sel_col: usize,
    shift: bool,
    r1: bool,
    cw: int,
    ch: int,
)
    requires
        0 <= i < n,
        0 <= j < cell_ops(i / (COLS as int), i % (COLS as int), sel_row, sel_col, shift, r1, cw, ch).len(),
    ensures
        grid_ops_upto(n, sel_row, sel_col, shift, r1, cw, ch).contains(
            cell_ops(i / (COLS as int), i % (COLS as int), sel_row, sel_col, shift, r1, cw, ch)[j],
        ),
    decreases n,
{
    let before = grid_ops_upto(n - 1, sel_row, sel_col, shift, r1, cw, ch);
    let all = grid_ops_upto(n, sel_row, sel_col, shift, r1, cw, ch);
    let op = cell_ops(i / (COLS as int), i % (COLS as int), sel_row, sel_col, shift, r1, cw, ch)[j];
    if i == n - 1 {
        assert(all[before.len() + j] == op);
    } else {
        lemma_grid_ops_contains(n - 1, i, j, sel_row, sel_col, shift, r1, cw, ch);
        let k = choose|k: int| 0 <= k < before.len() && before[k] == op;
        assert(all[k] == op);
    }
}

/// While the nav overlay is down, every key cell is drawn with its label,
/// the shifted one while shift is held, in the selected colors on the
/// selected cell.
pub proof fn lemma_key_labels_follow_shift(
    width: i32,
    height: i32,
    sel_row: usize,
    sel_col: usize,
    shift: bool,
    latched: bool,
    r: int,
    c: int,
)
    requires
        0 <= r < ROWS,
        0 <= c < COLS,
        key_cell(r, c) is Some,
    ensures
        frame_ops(width, height, sel_row, sel_col, shift, false, latched).contains(
            DrawOpModel::Label {
                pos: cell_pos(r, c, cell_width(width), cell_height(height)),
                size: Size { width: cell_width(width) as i32, height: cell_height(height) as i32 },
                text: if shift {
                    key_cell(r, c).unwrap().shifted
                } else {
                    key_cell(r, c).unwrap().label
                },
                text_size: TextSize::Key,
                color: if r == sel_row && c == sel_col {
                    COLOR_SELECTED_TEXT
                } else {
                    COLOR_TEXT
                },
                bold: r == sel_row && c == sel_col,
            },
        ),
{
    let cw = cell_width(width);
    let ch = cell_height(height);
    let i = r * (COLS as int) + c;
    lemma_fundamental_div_mod_converse(i, COLS as int, r, c);
    assert(i < ROWS * COLS) by (nonlinear_arith)
        requires
            0 <= r < ROWS,
            0 <= c < COLS,
            i == r * (COLS as int) + c,
    ;
    lemma_grid_ops_contains((ROWS * COLS) as int, i, 1, sel_row, sel_col, shift, false, cw, ch);
    let grid = grid_ops_upto((ROWS * COLS) as int, sel_row, sel_col, shift, false, cw, ch);
    let op = cell_ops(r, c, sel_row, sel_col, shift, false, cw, ch)[1];
    let frame = frame_ops(width, height, sel_row, sel_col, shift, false, latched);
    let k = choose|k: int| 0 <= k < grid.len() && grid[k] == op;
    assert(frame[2 + k] == op);
}

/// A nav tile's label step: `text`, not bold, in the plain text color,
/// centered in the cell at row `r`, column `c`.
pub open spec fn nav_label(r: int, c: int, text: Seq<char>, cw: int, ch: int) -> DrawOpModel {
    DrawOpModel::Label {
        pos: cell_pos(r, c, cw, ch),
        size: Size { width: cw as i32, height: ch as i32 },
        text,
        text_size: TextSize::Nav,
        color: COLOR_TEXT,
        bold: false,
    }
}

/// The first `n` nav tiles draw the label of every tile before the `n`th.
proof fn lemma_nav_ops_contains(n: int, i: int, cw: int, ch: int)
    requires
        0 <= i < n,
    ensures
        nav_ops_upto(n, cw, ch).contains(nav_label(nav_tile(i).0, nav_tile(i).1, nav_tile(i).2, cw, ch)),
    decreases n,
{
    let before = nav_ops_upto(n - 1, cw, ch);
    let all = nav_ops_upto(n, cw, ch);
    let op = nav_label(nav_tile(i).0, nav_tile(i).1, nav_tile(i).2, cw, ch);
    if i == n - 1 {
        assert(all[before.len() as int + 1] == op);
    } else {
        lemma_nav_ops_contains(n - 1, i, cw, ch);
        let k = choose|k: int| 0 <= k < before.len() && before[k] == op;
        assert(all[k] == op);
    }
}

/// While R1 is held the nav overlay mirrors the pad: a diamond of Up (top),
/// Left, Right and Down (bottom) over the D-pad's side of the grid, and one
/// of PgUp (top), Tab, Esc and PgDn (bottom) over the face buttons' side,
/// each tile labelled in its cell.
pub proof fn lemma_nav_tiles_mirror_the_pad(
    width: i32,
    height: i32,
    sel_row: usize,
    sel_col: usize,
    shift: bool,
    latched: bool,
)
    ensures
        ({
            let ops = frame_ops(width, height, sel_row, sel_col, shift, true, latched);
            let cw = cell_width(width);
            let ch = cell_height(height);
            &&& ops.contains(nav_label(0, 2, "Up"@, cw, ch))
            &&& ops.contains(nav_label(1, 1, "Left"@, cw, ch))
            &&& ops.contains(nav_label(1, 3, "Right"@, cw, ch))
            &&& ops.contains(nav_label(2, 2, "Down"@, cw, ch))
            &&& ops.contains(nav_label(0, 11, "PgUp"@, cw, ch))
            &&& ops.contains(nav_label(1, 10, "Tab"@, cw, ch))
            &&& ops.contains(nav_label(1, 12, "Esc"@, cw, ch))
            &&& ops.contains(nav_label(2, 11, "PgDn"@, cw, ch))
        }),
{
    let cw = cell_width(width);
    let ch = cell_height(height);
    let ops = frame_ops(width, height, sel_row, sel_col, shift, true, latched);
    let grid = grid_ops_upto((ROWS * COLS) as int, sel_row, sel_col, shift, true, cw, ch);
    let nav = nav_ops_upto(NAV_TILE_COUNT as int, cw, ch);
    assert forall|i: int| 0 <= i < NAV_TILE_COUNT implies ops.contains(
        nav_label(nav_tile(i).0, nav_tile(i).1, nav_tile(i).2, cw, ch),
    ) by {
        lemma_nav_ops_contains(NAV_TILE_COUNT as int, i, cw, ch);
        let op = nav_label(nav_tile(i).0, nav_tile(i).1, nav_tile(i).2, cw, ch);
        let k = choose|k: int| 0 <= k < nav.len() && nav[k] == op;
        assert(ops[2 + grid.len() + k] == op);
    }
    assert(ops.contains(nav_label(nav_tile(0).0, nav_tile(0).1, nav_tile(0).2, cw, ch)));
    assert(ops.contains(nav_label(nav_tile(1).0, nav_tile(1).1, nav_tile(1).2, cw, ch)));
    assert(ops.contains(nav_label(nav_tile(2).0, nav_tile(2).1, nav_tile(2).2, cw, ch)));
    assert(ops.contains(nav_label(nav_tile(3).0, nav_tile(3).1, nav_tile(3).2, cw, ch)));
    assert(ops.contains(nav_label(nav_tile(4).0, nav_tile(4).1, nav_tile(4).2, cw, ch)));
    assert(ops.contains(nav_label(nav_tile(5).0, nav_tile(5).1, nav_tile(5).2, cw, ch)));
    assert(ops.contains(nav_label(nav_tile(6).0, nav_tile(6).1, nav_tile(6).2, cw, ch)));
    assert(ops.contains(nav_label(nav_tile(7).0, nav_tile(7).1, nav_tile(7).2, cw, ch)));
}

fn push_op(ops: &mut Vec<DrawOp>, op: DrawOp)
    ensures
        ops_view(final(ops)@) == ops_view(old(ops)@).push(op@),
{
    ops.push(op);
    assert(ops_view(ops@) =~= ops_view(old(ops)@).push(op@));
}

fn nav_tiles() -> (tiles: [(usize, usize, &'static str); NAV_TILE_COUNT])
    ensures
        forall|i: int|
            0 <= i < NAV_TILE_COUNT ==> (#[trigger] tiles[i].0 as int, tiles[i].1 as int, tiles[i].2@) == nav_tile(i),
{
    let tiles = [
        (0, 2, "Up"),
        (1, 1, "Left"),
        (1, 3, "Right"),
        (2, 2, "Down"),
        (0, 11, "PgUp"),
        (1, 10, "Tab"),
        (1, 12, "Esc"),
        (2, 11, "PgDn"),
    ];
    assert forall|i: int| 0 <= i < NAV_TILE_COUNT implies (#[trigger] tiles[i].0 as int, tiles[i].1 as int, tiles[i].2@)
        == nav_tile(i) by {
        assert(i == 0 || i == 1 || i == 2 || i == 3 || i == 4 || i == 5 || i == 6 || i == 7);
    }
    tiles
}

/// The cell position and size arithmetic of a frame stays within `i32`.
proof fn lemma_cell_geometry_fits(width: i32, height: i32, r: int, c: int)
    requires
        0 <= r < ROWS,
        0 <= c < COLS,
        height >= i32::MIN + LEGEND_H,
    ensures
        i32::MIN + 2 <= cell_width(width) <= i32::MAX / 14,
        i32::MIN + 2 <= cell_height(height) <= i32::MAX / 4,
        i32::MIN < c * cell_width(width) < i32::MAX,
        i32::MIN < LEGEND_H + r * cell_height(height) < i32::MAX,
        i32::MIN < r * cell_height(height) < i32::MAX - LEGEND_H,
{
    let cw = cell_width(width);
    let ch = cell_height(height);
    assert(-153391689 <= cw <= 153391689);
    assert(-536870912 <= ch <= 536870908);
    assert(-1994091957 <= c * cw <= 1994091957) by (nonlinear_arith)
        requires
            0 <= c <= 13,
            -153391689 <= cw <= 153391689,
    ;
    assert(-1610612736 <= r * ch <= 1610612724) by (nonlinear_arith)
        requires
            0 <= r <= 3,
            -536870912 <= ch <= 536870908,
    ;
}

/// Lays out a frame of the overlay: the drawing steps for a `width` by
/// `height` surface showing the selection at `(sel_row, sel_col)`, shifted
/// labels if `shift`, R1's nav overlay if `r1`, and the held-modifier tint
/// if `latched`; see `frame_ops`.
pub fn frame(width: i32, height: i32, sel_row: usize, sel_col: usize, shift: bool, r1: bool, latched: bool) -> (ops: Vec<
    DrawOp,
>)
    requires
        height >= i32::MIN + LEGEND_H,
    ensures
        ops_view(ops@) == frame_ops(width, height, sel_row, sel_col, shift, r1, latched),
{
    let grid_y0 = LEGEND_H;
    let grid_h = height - LEGEND_H;
    let cw = width / COLS as i32;
    let ch = grid_h / ROWS as i32;
    let mut ops: Vec<DrawOp> = Vec::new();
    push_op(&mut ops, DrawOp::Fill { pos: Point::new(0, 0), size: Size::new(width, height), color: COLOR_BG });
    let legend = if r1 { LEGEND_R1 } else { LEGEND };
    push_op(
        &mut ops,
        DrawOp::Text { pos: Point::new(4, 1), text: legend, text_size: TextSize::Legend, color: COLOR_LEGEND },
    );
    let ghost head = ops_view(ops@);
    let grid = keys();
    let mut i: usize = 0;
    while i < ROWS * COLS
        invariant
            i <= ROWS * COLS,
            height >= i32::MIN + LEGEND_H,
            cw == cell_width(width),
            ch == cell_height(height),
            grid_y0 == LEGEND_H,
            ops_view(ops@) == head + grid_ops_upto(i as int, sel_row, sel_col, shift, r1, cw as int, ch as int),
            forall|r: int, c: int|
                0 <= r < ROWS && 0 <= c < COLS ==> #[trigger] cell_view(grid[r][c]) == key_cell(r, c),
        decreases ROWS * COLS - i,
    {
        let r = i / COLS;
        let c = i % COLS;
        proof {
            lemma_cell_geometry_fits(width, height, r as int, c as int);
            let _ = cell_view(grid[r as int][c as int]);
        }
        let pos = Point::new(c as i32 * cw, grid_y0 + r as i32 * ch);
        let inner_pos = Point::new(pos.x + 1, pos.y + 1);
        let inner = Size::new(cw - 2, ch - 2);
        let selected = !r1 && r == sel_row && c == sel_col;
        let ghost before = ops_view(ops@);
        match grid[r][c] {
            None => {
                if selected {
                    push_op(&mut ops, DrawOp::Fill { pos: inner_pos, size: inner, color: COLOR_SELECTED });
                }
            },
            Some(key) => {
                if !r1 {
                    let label = if shift { key.shifted } else { key.label };
                    let bg = if selected { COLOR_SELECTED } else { COLOR_KEY };
                    let text_color = if selected { COLOR_SELECTED_TEXT } else { COLOR_TEXT };
                    push_op(&mut ops, DrawOp::Fill { pos: inner_pos, size: inner, color: bg });
                    push_op(
                        &mut ops,
                        DrawOp::Label {
                            pos,
                            size: Size::new(cw, ch),
                            text: label,
                            text_size: TextSize::Key,
                            color: text_color,
                            bold: selected,
                        },
                    );
                }
            },
        }
        proof {
            assert(ops_view(ops@) =~= before + cell_ops(
                r as int,
                c as int,
                sel_row,
                sel_col,
                shift,
                r1,
                cw as int,
                ch as int,
            ));
            assert(grid_ops_upto(i + 1, sel_row, sel_col, shift, r1, cw as int, ch as int) == grid_ops_upto(
                i as int,
                sel_row,
                sel_col,
                shift,
                r1,
                cw as int,
                ch as int,
            ) + cell_ops(r as int, c as int, sel_row, sel_col, shift, r1, cw as int, ch as int));
            assert(ops_view(ops@) =~= head + grid_ops_upto(i + 1, sel_row, sel_col, shift, r1, cw as int, ch as int));
        }
        i = i + 1;
    }
    let ghost after_grid = ops_view(ops@);
    if r1 {
        let tiles = nav_tiles();
        let mut j: usize = 0;
        while j < NAV_TILE_COUNT
            invariant
                j <= NAV_TILE_COUNT,
                height >= i32::MIN + LEGEND_H,
                cw == cell_width(width),
                ch == cell_height(height),
                grid_y0 == LEGEND_H,
                ops_view(ops@) == after_grid + nav_ops_upto(j as int, cw as int, ch as int),
                forall|k: int|
                    0 <= k < NAV_TILE_COUNT ==> (#[trigger] tiles[k].0 as int, tiles[k].1 as int, tiles[k].2@)
                        == nav_tile(k),
            decreases NAV_TILE_COUNT - j,
        {
            let (row, col, label) = tiles[j];
            proof {
                let _ = tiles[j as int].0;
                assert(row < ROWS && col < COLS);
                lemma_cell_geometry_fits(width, height, row as int, col as int);
            }
            let pos = Point::new(col as i32 * cw, grid_y0 + row as i32 * ch);
            let ghost before = ops_view(ops@);
            push_op(
                &mut ops,
                DrawOp::Fill {
                    pos: Point::new(pos.x + 1, pos.y + 1),
                    size: Size::new(cw - 2, ch - 2),
                    color: COLOR_KEY,
                },
            );
            push_op(
                &mut ops,
                DrawOp::Label {
                    pos,
                    size: Size::new(cw, ch),
                    text: label,
                    text_size: TextSize::Nav,
                    color: COLOR_TEXT,
                    bold: false,
                },
            );
            proof {
                assert(ops_view(ops@) =~= after_grid + nav_ops_upto(j + 1, cw as int, ch as int));
            }
            j = j + 1;
        }
    }
    let ghost after_nav = ops_view(ops@);
    if latched {
        push_op(
            &mut ops,
            DrawOp::Fill { pos: Point::new(0, grid_y0), size: Size::new(cw / 4, ch / 4), color: COLOR_LATCHED },
        );
    }
    proof {
        assert(ops_view(ops@) =~= frame_ops(width, height, sel_row, sel_col, shift, r1, latched));
    }
    ops
}

} // verus!
