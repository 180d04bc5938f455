//! Colours and cell styles for drawing the terminal grid, and the batching
//! of grid cells into text runs and background rectangles.

use vstd::prelude::*;
use crate::decorative::{is_decorative_character, is_decorative_code};

verus! {

/// An RGBA colour.
#[derive(Debug, Clone, Copy, PartialEq, Eq, Structural)]
pub struct Rgba {
    pub r: u8,
    pub g: u8,
    pub b: u8,
    pub a: u8,
}

/// The opaque colour with these components.
pub open spec fn rgb(r: u8, g: u8, b: u8) -> Rgba {
    Rgba { r, g, b, a: 255 }
}

impl Rgba {
    /// The colour with these four components.
    pub fn new(r: u8, g: u8, b: u8, a: u8) -> (c: Self)
        ensures
            c == (Rgba { r, g, b, a }),
    {
        Rgba { r, g, b, a }
    }

    /// The opaque colour with these components.
    pub fn from_rgb(r: u8, g: u8, b: u8) -> (c: Self)
        ensures
            c == rgb(r, g, b),
    {
        Rgba { r, g, b, a: 255 }
    }

    /// The colour packed as 0xRRGGBB; alpha is dropped.
    pub fn to_u32(&self) -> (v: u32)
        ensures
            v == self.r as u32 * 0x10000 + self.g as u32 * 0x100 + self.b as u32,
    {
        let r = self.r as u32;
        let g = self.g as u32;
        let b = self.b as u32;
        let v = (r << 16u32) | (g << 8u32) | b;
        assert(v == r * 0x10000 + g * 0x100 + b) by (bit_vector)
            requires
                r < 256,
                g < 256,
                b < 256,
                v == (r << 16u32) | (g << 8u32) | b,
        ;
        v
    }
}

/// Style attributes of a cell or a text run.
#[derive(Debug, Clone, Copy, PartialEq, Eq, Structural)]
pub struct CellStyle {
    pub fg: Rgba,
    pub bg: Rgba,
    pub bold: bool,
    pub italic: bool,
    pub underline: bool,
    pub strikethrough: bool,
    /// Whether the character is decorative (Powerline, box drawing, ...).
    pub is_decorative: bool,
}

impl Default for CellStyle {
    /// White on black, no attributes.
    fn default() -> (s: Self)
        ensures
            s == (CellStyle {
                fg: rgb(255, 255, 255),
                bg: rgb(0, 0, 0),
                bold: false,
                italic: false,
                underline: false,
                strikethrough: false,
                is_decorative: false,
            }),
    {
        CellStyle {
            fg: Rgba::from_rgb(255, 255, 255),
            bg: Rgba::from_rgb(0, 0, 0),
            bold: false,
            italic: false,
            underline: false,
            strikethrough: false,
            is_decorative: false,
        }
    }
}

/// Adjacent cells of one row with the same text style, drawn at once.
#[derive(Debug, Clone)]
pub struct BatchedTextRun {
    pub row: u16,
    pub start_col: u16,
    /// The characters of the cells, in order.
    pub text: String,
    /// The style of the first cell of the run.
    pub style: CellStyle,
    /// The number of cells the run spans.
    pub cell_count: usize,
}

/// Adjacent cells of one row with the same non-default background.
#[derive(Debug, Clone)]
pub struct BackgroundRect {
    pub row: u16,
    pub start_col: u16,
    /// One past the last column covered.
    pub end_col: u16,
    pub color: Rgba,
}

/// Everything needed to draw one frame of the terminal.
#[derive(Debug)]
pub struct RenderableContent {
    pub text_runs: Vec<BatchedTextRun>,
    pub backgrounds: Vec<BackgroundRect>,
    /// Cursor position, (row, col).
    pub cursor: (u16, u16),
    /// Grid dimensions, (rows, cols).
    pub size: (u16, u16),
}

/// The named colours of a terminal palette.
#[derive(Debug, Clone, Copy, PartialEq, Eq, Structural)]
pub enum NamedColor {
    Black,
    Red,
    Green,
    Yellow,
    Blue,
    Magenta,
    Cyan,
    White,
    BrightBlack,
    BrightRed,
    BrightGreen,
    BrightYellow,
    BrightBlue,
    BrightMagenta,
    BrightCyan,
    BrightWhite,
    Foreground,
    Background,
    Cursor,
    DimBlack,
    DimRed,
    DimGreen,
    DimYellow,
    DimBlue,
    DimMagenta,
    DimCyan,
    DimWhite,
    BrightForeground,
    DimForeground,
}

/// The colour of a cell as the emulation engine gives it.
#[derive(Debug, Clone, Copy, PartialEq, Eq, Structural)]
pub enum CellColor {
    Named(NamedColor),
    Spec { r: u8, g: u8, b: u8 },
    Indexed(u8),
}

/// The palette entry of each named colour.
pub open spec fn named_rgba(color: NamedColor) -> Rgba {
    match color {
        NamedColor::Black => rgb(0, 0, 0),
        NamedColor::Red => rgb(205, 49, 49),
        NamedColor::Green => rgb(13, 188, 121),
        NamedColor::Yellow => rgb(229, 229, 16),
        NamedColor::Blue => rgb(36, 114, 200),
        NamedColor::Magenta => rgb(188, 63, 188),
        NamedColor::Cyan => rgb(17, 168, 205),
        NamedColor::White => rgb(229, 229, 229),
        NamedColor::BrightBlack => rgb(102, 102, 102),
        NamedColor::BrightRed => rgb(241, 76, 76),
        NamedColor::BrightGreen => rgb(35, 209, 139),
        NamedColor::BrightYellow => rgb(245, 245, 67),
        NamedColor::BrightBlue => rgb(59, 142, 234),
        NamedColor::BrightMagenta => rgb(214, 112, 214),
        NamedColor::BrightCyan => rgb(41, 184, 219),
        NamedColor::BrightWhite => rgb(255, 255, 255),
        NamedColor::Background => rgb(0, 0, 0),
        _ => rgb(255, 255, 255),
    }
}

/// The named colour at position `idx` (below 16) of the standard palette.
pub open spec fn standard_color(idx: u8) -> NamedColor {
    if idx == 0 {
        NamedColor::Black
    } else if idx == 1 {
        NamedColor::Red
    } else if idx == 2 {
        NamedColor::Green
    } else if idx == 3 {
        NamedColor::Yellow
    } else if idx == 4 {
        NamedColor::Blue
    } else if idx == 5 {
        NamedColor::Magenta
    } else if idx == 6 {
        NamedColor::Cyan
    } else if idx == 7 {
        NamedColor::White
    } else if idx == 8 {
        NamedColor::BrightBlack
    } else if idx == 9 {
        NamedColor::BrightRed
    } else if idx == 10 {
        NamedColor::BrightGreen
    } else if idx == 11 {
        NamedColor::BrightYellow
    } else if idx == 12 {
        NamedColor::BrightBlue
    } else if idx == 13 {
        NamedColor::BrightMagenta
    } else if idx == 14 {
        NamedColor::BrightCyan
    } else {
        NamedColor::BrightWhite
    }
}

/// One axis of the 6x6x6 colour cube: 0, else 55 + 40 per step.
pub open spec fn cube_level(step: int) -> int {
    if step == 0 {
        0
    } else {
        step * 40 + 55
    }
}

/// The colour of entry `idx` of the 256-colour palette: the 16 standard
/// colours, the 6x6x6 cube, then 24 shades of grey.
pub open spec fn indexed_rgba(idx: u8) -> Rgba {
    if idx < 16 {
        named_rgba(standard_color(idx))
    } else if idx < 232 {
        let i = idx - 16;
        Rgba {
            r: cube_level((i / 36) % 6) as u8,
            g: cube_level((i / 6) % 6) as u8,
            b: cube_level(i % 6) as u8,
            a: 255,
        }
    } else {
        let gray = ((idx - 232) * 10 + 8) as u8;
        rgb(gray, gray, gray)
    }
}

/// The colour a cell colour is drawn in.
pub open spec fn color_rgba(color: CellColor) -> Rgba {
    match color {
        CellColor::Named(n) => named_rgba(n),
        CellColor::Spec { r, g, b } => rgb(r, g, b),
        CellColor::Indexed(idx) => indexed_rgba(idx),
    }
}

/// The palette entry of a named colour.
pub fn named_color_to_rgba(color: NamedColor) -> (c: Rgba)
    ensures
        c == named_rgba(color),
{
    match color {
        NamedColor::Black => Rgba::from_rgb(0, 0, 0),
        NamedColor::Red => Rgba::from_rgb(205, 49, 49),
        NamedColor::Green => Rgba::from_rgb(13, 188, 121),
        NamedColor::Yellow => Rgba::from_rgb(229, 229, 16),
        NamedColor::Blue => Rgba::from_rgb(36, 114, 200),
        NamedColor::Magenta => Rgba::from_rgb(188, 63, 188),
        NamedColor::Cyan => Rgba::from_rgb(17, 168, 205),
        NamedColor::White => Rgba::from_rgb(229, 229, 229),
        NamedColor::BrightBlack => Rgba::from_rgb(102, 102, 102),
        NamedColor::BrightRed => Rgba::from_rgb(241, 76, 76),
        NamedColor::BrightGreen => Rgba::from_rgb(35, 209, 139),
        NamedColor::BrightYellow => Rgba::from_rgb(245, 245, 67),
        NamedColor::BrightBlue => Rgba::from_rgb(59, 142, 234),
        NamedColor::BrightMagenta => Rgba::from_rgb(214, 112, 214),
        NamedColor::BrightCyan => Rgba::from_rgb(41, 184, 219),
        NamedColor::BrightWhite => Rgba::from_rgb(255, 255, 255),
        NamedColor::Foreground => Rgba::from_rgb(255, 255, 255),
        NamedColor::Background => Rgba::from_rgb(0, 0, 0),
        NamedColor::Cursor => Rgba::from_rgb(255, 255, 255),
        _ => Rgba::from_rgb(255, 255, 255),
    }
}

fn standard_named_color(idx: u8) -> (n: NamedColor)
    requires
        idx < 16,
    ensures
        n == standard_color(idx),
{
    match idx {
        0 => NamedColor::Black,
        1 => NamedColor::Red,
        2 => NamedColor::Green,
        3 => NamedColor::Yellow,
        4 => NamedColor::Blue,
        5 => NamedColor::Magenta,
        6 => NamedColor::Cyan,
        7 => NamedColor::White,
        8 => NamedColor::BrightBlack,
        9 => NamedColor::BrightRed,
        10 => NamedColor::BrightGreen,
        11 => NamedColor::BrightYellow,
        12 => NamedColor::BrightBlue,
        13 => NamedColor::BrightMagenta,
        14 => NamedColor::BrightCyan,
        _ => NamedColor::BrightWhite,
    }
}

fn cube_component(step: u8) -> (v: u8)
    requires
        step < 6,
    ensures
        v as int == cube_level(step as int),
{
    if step == 0 {
        0
    } else {
        step * 40 + 55
    }
}

/// The colour a cell colour is drawn in: named colours from the palette,
/// explicit colours as given, indexed colours from the 256-colour palette.
pub fn color_to_rgba(color: CellColor) -> (c: Rgba)
    ensures
        c == color_rgba(color),
{
    match color {
        CellColor::Named(n) => named_color_to_rgba(n),
        CellColor::Spec { r, g, b } => Rgba::from_rgb(r, g, b),
        CellColor::Indexed(idx) => {
            if idx < 16 {
                named_color_to_rgba(standard_named_color(idx))
            } else if idx < 232 {
                let i = idx - 16;
                Rgba::from_rgb(
                    cube_component((i / 36) % 6),
                    cube_component((i / 6) % 6),
                    cube_component(i % 6),
                )
            } else {
                let gray = (idx - 232) * 10 + 8;
                Rgba::from_rgb(gray, gray, gray)
            }
        },
    }
}

/// One cell of the emulation engine's grid: its character, colours and
/// attributes.
#[derive(Debug, Clone, Copy, PartialEq, Eq, Structural)]
pub struct GridCell {
    pub c: char,
    pub fg: CellColor,
    pub bg: CellColor,
    pub bold: bool,
    pub italic: bool,
    pub underline: bool,
    pub strikethrough: bool,
}

/// The background drawn by default, which needs no rectangle.
pub open spec fn default_bg() -> Rgba {
    rgb(0, 0, 0)
}

/// The style a cell is drawn in.
pub open spec fn cell_style(cell: GridCell) -> CellStyle {
    CellStyle {
        fg: color_rgba(cell.fg),
        bg: color_rgba(cell.bg),
        bold: cell.bold,
        italic: cell.italic,
        underline: cell.underline,
        strikethrough: cell.strikethrough,
        is_decorative: is_decorative_code(cell.c as u32),
    }
}

/// The style of a cell as far as its text goes: its background set aside.
pub open spec fn text_key(cell: GridCell) -> CellStyle {
    CellStyle { bg: default_bg(), ..cell_style(cell) }
}

/// The background colour of a cell.
pub open spec fn bg_of(cell: GridCell) -> Rgba {
    color_rgba(cell.bg)
}

/// `run` covers a maximal stretch of cells of its row, all with the text
/// style of its first cell; its text is their characters and its style that
/// of its first cell.
pub open spec fn is_text_run(grid: Seq<Vec<GridCell>>, cols: int, run: BatchedTextRun) -> bool {
    let row = grid[run.row as int]@;
    let s = run.start_col as int;
    let e = s + run.cell_count;
    &&& 0 <= s < e <= cols
    &&& forall|c: int| s <= c < e ==> text_key(#[trigger] row[c]) == text_key(row[s])
    &&& (s == 0 || text_key(row[s - 1]) != text_key(row[s]))
    &&& (e == cols || text_key(row[e]) != text_key(row[s]))
    &&& run.text@ == Seq::new((e - s) as nat, |i: int| row[s + i].c)
    &&& run.style == cell_style(row[s])
}

/// Where the run after `run` starts, (row, col).
pub open spec fn next_start(run: BatchedTextRun, cols: int) -> (int, int) {
    if run.start_col as int + run.cell_count == cols {
        (run.row as int + 1, 0)
    } else {
        (run.row as int, run.start_col as int + run.cell_count)
    }
}

/// The runs follow one another through the grid row by row, from the first
/// cell to the last, each starting where the one before ended.
pub open spec fn runs_tile(runs: Seq<BatchedTextRun>, rows: int, cols: int) -> bool {
    if rows == 0 || cols == 0 {
        runs.len() == 0
    } else {
        &&& runs.len() > 0
        &&& runs[0].row == 0 && runs[0].start_col == 0
        &&& forall|k: int|
            0 <= k < runs.len() - 1 ==> next_start(#[trigger] runs[k], cols) == (
                runs[k + 1].row as int,
                runs[k + 1].start_col as int,
            )
        &&& next_start(runs.last(), cols) == (rows, 0int)
    }
}

/// `rect` covers a maximal stretch of cells of its row with the same
/// background, which is not the default one.
pub open spec fn is_background_rect(grid: Seq<Vec<GridCell>>, cols: int, rect: BackgroundRect) -> bool {
    let row = grid[rect.row as int]@;
    let s = rect.start_col as int;
    let e = rect.end_col as int;
    &&& 0 <= s < e <= cols
    &&& rect.color != default_bg()
    &&& forall|c: int| s <= c < e ==> bg_of(#[trigger] row[c]) == rect.color
    &&& (s == 0 || bg_of(row[s - 1]) != rect.color)
    &&& (e == cols || bg_of(row[e]) != rect.color)
}

/// Some rectangle of `rects` covers cell (`r`, `c`).
pub open spec fn covered(rects: Seq<BackgroundRect>, r: int, c: int) -> bool {
    exists|k: int|
        0 <= k < rects.len() && (#[trigger] rects[k]).row == r && rects[k].start_col <= c
            < rects[k].end_col
}

/// Each rectangle ends before the next one starts, row by row.
pub open spec fn rects_ordered(rects: Seq<BackgroundRect>) -> bool {
    forall|k: int|
        0 <= k < rects.len() - 1 ==> (#[trigger] rects[k]).row < rects[k + 1].row || (
        rects[k].row == rects[k + 1].row && rects[k].end_col <= rects[k + 1].start_col)
}

/// Relies on String::push: the character is appended.
#[verifier::external_body]
fn push_char(s: &mut String, c: char)
    ensures
        final(s)@ == old(s)@.push(c),
{
    s.push(c)
}

fn style_of(cell: &GridCell) -> (s: CellStyle)
    ensures
        s == cell_style(*cell),
{
    CellStyle {
        fg: color_to_rgba(cell.fg),
        bg: color_to_rgba(cell.bg),
        bold: cell.bold,
        italic: cell.italic,
        underline: cell.underline,
        strikethrough: cell.strikethrough,
        is_decorative: is_decorative_character(cell.c),
    }
}

fn text_key_of(cell: &GridCell) -> (k: CellStyle)
    ensures
        k == text_key(*cell),
{
    CellStyle { bg: Rgba::from_rgb(0, 0, 0), ..style_of(cell) }
}

/// The end of the text run that starts at `start`.
fn text_run_end(row: &Vec<GridCell>, start: usize, cols: usize) -> (e: usize)
    requires
        start < cols <= row@.len(),
    ensures
        start < e <= cols,
        forall|c: int| start <= c < e ==> text_key(#[trigger] row@[c]) == text_key(row@[start as int]),
        e == cols || text_key(row@[e as int]) != text_key(row@[start as int]),
{
    let key = text_key_of(&row[start]);
    let mut e = start + 1;
    while e < cols && text_key_of(&row[e]) == key
        invariant
            start < e <= cols <= row@.len(),
            key == text_key(row@[start as int]),
            forall|c: int| start <= c < e ==> text_key(#[trigger] row@[c]) == key,
        decreases cols - e,
    {
        e = e + 1;
    }
    e
}

/// The end of the background rectangle of colour `color` that starts at
/// `start`.
fn background_end(row: &Vec<GridCell>, start: usize, cols: usize, color: Rgba) -> (e: usize)
    requires
        start < cols <= row@.len(),
        bg_of(row@[start as int]) == color,
    ensures
        start < e <= cols,
        forall|c: int| start <= c < e ==> bg_of(#[trigger] row@[c]) == color,
        e == cols || bg_of(row@[e as int]) != color,
{
    let mut e = start + 1;
    while e < cols && color_to_rgba(row[e].bg) == color
        invariant
            start < e <= cols <= row@.len(),
            forall|c: int| start <= c < e ==> bg_of(#[trigger] row@[c]) == color,
        decreases cols - e,
    {
        e = e + 1;
    }
    e
}

/// Batches the first `rows` rows and `cols` columns of `grid` for drawing:
/// text runs are maximal stretches of a row whose cells share their text
/// style (the background set aside), and background rectangles maximal
/// stretches that share a background other than the default one.
pub fn batch_cells(grid: &Vec<Vec<GridCell>>, rows: u16, cols: u16, cursor: (u16, u16)) -> (r:
    RenderableContent)
    requires
        grid@.len() >= rows,
        forall|i: int| 0 <= i < rows ==> (#[trigger] grid@[i])@.len() >= cols,
    ensures
        r.cursor == cursor,
        r.size == (rows, cols),
        forall|k: int|
            0 <= k < r.text_runs@.len() ==> (#[trigger] r.text_runs@[k]).row < rows && is_text_run(
                grid@,
                cols as int,
                r.text_runs@[k],
            ),
        runs_tile(r.text_runs@, rows as int, cols as int),
        forall|k: int|
            0 <= k < r.backgrounds@.len() ==> (#[trigger] r.backgrounds@[k]).row < rows
                && is_background_rect(grid@, cols as int, r.backgrounds@[k]),
        rects_ordered(r.backgrounds@),
        forall|i: int, c: int|
            0 <= i < rows && 0 <= c < cols && bg_of(#[trigger] grid@[i]@[c]) != default_bg()
                ==> covered(r.backgrounds@, i, c),
{
    let mut text_runs: Vec<BatchedTextRun> = Vec::new();
    let mut backgrounds: Vec<BackgroundRect> = Vec::new();
    let ncols = cols as usize;
    let mut r: u16 = 0;
    while r < rows
        invariant
            0 <= r <= rows,
            grid@.len() >= rows,
            forall|i: int| 0 <= i < rows ==> (#[trigger] grid@[i])@.len() >= cols,
            ncols == cols,
            forall|k: int|
                0 <= k < text_runs@.len() ==> (#[trigger] text_runs@[k]).row < r && is_text_run(
                    grid@,
                    cols as int,
                    text_runs@[k],
                ),
            ncols == 0 ==> text_runs@.len() == 0,
            ncols > 0 ==> (text_runs@.len() == 0 <==> r == 0),
            ncols > 0 && r > 0 ==> next_start(text_runs@.last(), cols as int) == (r as int, 0int),
            ncols > 0 && text_runs@.len() > 0 ==> text_runs@[0].row == 0 && text_runs@[0].start_col == 0,
            forall|k: int|
                0 <= k < text_runs@.len() - 1 ==> next_start(#[trigger] text_runs@[k], cols as int) == (
                    text_runs@[k + 1].row as int,
                    text_runs@[k + 1].start_col as int,
                ),
            forall|k: int|
                0 <= k < backgrounds@.len() ==> (#[trigger] backgrounds@[k]).row < r
                    && is_background_rect(grid@, cols as int, backgrounds@[k]),
            rects_ordered(backgrounds@),
            forall|i: int, c: int|
                0 <= i < r && 0 <= c < cols && bg_of(#[trigger] grid@[i]@[c]) != default_bg()
                    ==> covered(backgrounds@, i, c),
        decreases rows - r,
    {
        let row = &grid[r as usize];
        let ghost runs0 = text_runs@;
        let mut s: usize = 0;
        while s < ncols
            invariant
                0 <= s <= ncols,
                ncols == cols,
                r < rows,
                row@.len() >= cols,
                *row == grid@[r as int],
                forall|k: int|
                    0 <= k < text_runs@.len() ==> (#[trigger] text_runs@[k]).row <= r
                        && is_text_run(grid@, cols as int, text_runs@[k]),
                forall|k: int| 0 <= k < runs0.len() ==> text_runs@[k] == runs0[k],
                text_runs@.len() >= runs0.len(),
                s == 0 ==> text_runs@.len() == runs0.len(),
                s > 0 ==> text_runs@.len() > 0 && text_runs@.last().row == r && text_runs@.last().start_col
                    + text_runs@.last().cell_count == s,
                0 < s < ncols ==> text_key(row@[s - 1]) != text_key(row@[s as int]),
                text_runs@.len() > 0 ==> text_runs@[0].row == 0 && text_runs@[0].start_col == 0,
                runs0.len() == 0 && ncols > 0 ==> r == 0,
                runs0.len() > 0 ==> next_start(runs0.last(), cols as int) == (r as int, 0int),
                forall|k: int|
                    0 <= k < text_runs@.len() - 1 ==> next_start(#[trigger] text_runs@[k], cols as int) == (
                        text_runs@[k + 1].row as int,
                        text_runs@[k + 1].start_col as int,
                    ),
            decreases ncols - s,
        {
            let e = text_run_end(row, s, ncols);
            let mut text = String::new();
            let mut i = s;
            while i < e
                invariant
                    s <= i <= e <= row@.len(),
                    text@ == Seq::new((i - s) as nat, |j: int| row@[s + j].c),
                decreases e - i,
            {
                push_char(&mut text, row[i].c);
                proof {
                    assert(text@ =~= Seq::new((i + 1 - s) as nat, |j: int| row@[s + j].c));
                }
                i = i + 1;
            }
            let run = BatchedTextRun {
                row: r,
                start_col: s as u16,
                text,
                style: style_of(&row[s]),
                cell_count: e - s,
            };
            let ghost before = text_runs@;
            text_runs.push(run);
            proof {
                if before.len() > 0 {
                    if s == 0 {
                        assert(before.len() == runs0.len());
                        assert(before.last() == runs0.last());
                    }
                }
            }
            s = e;
        }
        let mut c: usize = 0;
        let ghost rects0 = backgrounds@;
        while c < ncols
            invariant
                0 <= c <= ncols,
                ncols == cols,
                r < rows,
                row@.len() >= cols,
                *row == grid@[r as int],
                forall|k: int|
                    0 <= k < backgrounds@.len() ==> (#[trigger] backgrounds@[k]).row <= r
                        && is_background_rect(grid@, cols as int, backgrounds@[k]),
                forall|k: int| 0 <= k < rects0.len() ==> backgrounds@[k] == rects0[k],
                backgrounds@.len() >= rects0.len(),
                forall|k: int| 0 <= k < rects0.len() ==> (#[trigger] rects0[k]).row < r,
                rects_ordered(backgrounds@),
                backgrounds@.len() > rects0.len() ==> backgrounds@.last().row == r
                    && backgrounds@.last().end_col <= c,
                0 < c < ncols && bg_of(row@[c as int]) != default_bg() ==> bg_of(row@[c - 1])
                    != bg_of(row@[c as int]),
                forall|i: int, cc: int|
                    0 <= i < r && 0 <= cc < cols && bg_of(#[trigger] grid@[i]@[cc]) != default_bg()
                        ==> covered(rects0, i, cc),
                forall|cc: int|
                    0 <= cc < c && bg_of(#[trigger] row@[cc]) != default_bg() ==> covered(
                        backgrounds@,
                        r as int,
                        cc,
                    ),
            decreases ncols - c,
        {
            let color = color_to_rgba(row[c].bg);
            if color == Rgba::from_rgb(0, 0, 0) {
                c = c + 1;
            } else {
                let e = background_end(row, c, ncols, color);
                let ghost before = backgrounds@;
                backgrounds.push(BackgroundRect { row: r, start_col: c as u16, end_col: e as u16, color });
                proof {
                    let k = before.len() as int;
                    assert(backgrounds@[k].row == r && backgrounds@[k].start_col <= c);
                    if k > 0 && k - 1 < rects0.len() {
                        assert(before[k - 1] == rects0[k - 1]);
                    }
                    assert forall|m: int| 0 <= m < backgrounds@.len() - 1 implies (
                    #[trigger] backgrounds@[m]).row < backgrounds@[m + 1].row || (
                    backgrounds@[m].row == backgrounds@[m + 1].row && backgrounds@[m].end_col
                        <= backgrounds@[m + 1].start_col) by {
                        if m < k - 1 {
                            assert(backgrounds@[m] == before[m]);
                            assert(backgrounds@[m + 1] == before[m + 1]);
                        }
                    }
                    assert forall|cc: int|
                        0 <= cc < e && bg_of(#[trigger] row@[cc]) != default_bg() implies covered(
                            backgrounds@,
                            r as int,
                            cc,
                        ) by {
                        if cc >= c {
                            assert(backgrounds@[k].row == r && backgrounds@[k].start_col <= cc < backgrounds@[k].end_col);
                        } else {
                            let j = choose|j: int|
                                0 <= j < before.len() && (#[trigger] before[j]).row == r
                                    && before[j].start_col <= cc < before[j].end_col;
                            assert(backgrounds@[j] == before[j]);
                        }
                    }
                }
                c = e;
            }
        }
        proof {
            assert forall|i: int, cc: int|
                0 <= i < r + 1 && 0 <= cc < cols && bg_of(#[trigger] grid@[i]@[cc]) != default_bg()
                    implies covered(backgrounds@, i, cc) by {
                if i < r {
                    let j = choose|j: int|
                        0 <= j < rects0.len() && (#[trigger] rects0[j]).row == i
                            && rects0[j].start_col <= cc < rects0[j].end_col;
                    assert(backgrounds@[j] == rects0[j]);
                } else {
                    assert(grid@[i]@[cc] == row@[cc]);
                }
            }
        }
        r = r + 1;
    }
    RenderableContent { text_runs, backgrounds, cursor, size: (rows, cols) }
}

} // verus!
