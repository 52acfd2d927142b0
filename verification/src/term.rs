//! Terminal rendering: a tokei-style table (language rows, a `|- 测试`
//! sub-row, a files column) with coloured numbers and solid ratio bars.
//!
//! Colours: added / deleted / modified = green / light red / blue. Bar
//! segments are solid blocks on a dim track, in a fixed order, and every
//! number is printed, so the table reads without colour as well. Colour
//! depth: truecolor when `COLORTERM` says so, 256 colours when `TERM`
//! mentions `256color`, otherwise 8 colours.
use vstd::prelude::*;

use crate::collect::{
    Dim, LangStat, LangTable, Report, ReportView, RowView, dim_is_empty, is_top_order, row_total,
    rows_fit, top_order_of,
};
use crate::text::{
    chars_to_string, contains, contains_lit, dec, push_chars, push_dec, push_repeat, push_str, repeat, rsplit_once,
    rsplit_once_lit, str_chars, sub_chars, trim_end, trim_end_in_place,
};

verus! {

/// Width of the language column.
pub const LABEL_W: usize = 14;

/// Width of the file-count column.
pub const FILE_W: usize = 6;

/// Width of each of the added / deleted / modified columns.
pub const NUM_W: usize = 10;

/// Width of the ratio bar.
pub const BAR_W: usize = 18;

/// Width of the whole table.
pub const WIDTH: usize = 71;

/// What a piece of text is painted as.
#[derive(Debug, Clone, Copy, PartialEq, Eq, Structural)]
pub enum Ink {
    Plain,
    /// Bold.
    Head,
    /// Dimmed (rules, sub-rows, sums).
    Faint,
    /// The bar track, dimmer than `Faint`.
    Track,
    /// Title accent.
    Title,
    Add,
    Del,
    Mod,
}

/// Colour depth of the terminal.
#[derive(Debug, Clone, Copy, PartialEq, Eq, Structural)]
pub enum ColorMode {
    Off,
    Ansi8,
    Ansi256,
    True,
}

/// Colour mode for a run: off unless colour is on; truecolor when
/// `COLORTERM` mentions `truecolor` or `24bit`; 256 colours when `TERM`
/// mentions `256color`; else 8 colours. An unset (or unreadable) variable
/// counts as not matching.
pub open spec fn mode_for(on: bool, colorterm: Option<Seq<char>>, term: Option<Seq<char>>) -> ColorMode {
    if !on {
        ColorMode::Off
    } else if match colorterm {
        Some(v) => contains(v, "truecolor"@) || contains(v, "24bit"@),
        None => false,
    } {
        ColorMode::True
    } else if match term {
        Some(v) => contains(v, "256color"@),
        None => false,
    } {
        ColorMode::Ansi256
    } else {
        ColorMode::Ansi8
    }
}

/// Escape-sequence parameters for `ink` in `mode`; `None` means unpainted.
pub open spec fn ink_code(mode: ColorMode, ink: Ink) -> Option<Seq<char>> {
    match (mode, ink) {
        (ColorMode::Off, _) | (_, Ink::Plain) => None,
        (_, Ink::Head) => Some("1"@),
        (ColorMode::True, Ink::Faint) => Some("38;2;110;118;129"@),
        (ColorMode::True, Ink::Track) => Some("38;2;48;54;61"@),
        (ColorMode::Ansi256, Ink::Faint) => Some("38;5;243"@),
        (ColorMode::Ansi256, Ink::Track) => Some("38;5;236"@),
        (ColorMode::Ansi256, Ink::Title) => Some("1;38;5;80"@),
        (ColorMode::Ansi256, Ink::Add) => Some("38;5;77"@),
        (ColorMode::Ansi256, Ink::Del) => Some("38;5;210"@),
        (ColorMode::Ansi256, Ink::Mod) => Some("38;5;75"@),
        (ColorMode::Ansi8, Ink::Track) => Some("2"@),
        (ColorMode::True, Ink::Title) => Some("1;38;2;86;212;221"@),
        (ColorMode::True, Ink::Add) => Some("38;2;63;185;80"@),
        (ColorMode::True, Ink::Del) => Some("38;2;255;148;146"@),
        (ColorMode::True, Ink::Mod) => Some("38;2;88;166;255"@),
        (ColorMode::Ansi8, Ink::Faint) => Some("2"@),
        (ColorMode::Ansi8, Ink::Title) => Some("1;36"@),
        (ColorMode::Ansi8, Ink::Add) => Some("32"@),
        (ColorMode::Ansi8, Ink::Del) => Some("31"@),
        (ColorMode::Ansi8, Ink::Mod) => Some("34"@),
    }
}

/// `s` painted with `ink`: wrapped in an SGR sequence and a reset, or left
/// as is when unpainted.
#[verifier::opaque]
pub open spec fn spec_paint(mode: ColorMode, ink: Ink, s: Seq<char>) -> Seq<char> {
    match ink_code(mode, ink) {
        None => s,
        Some(code) => "\x1b["@ + code + "m"@ + s + "\x1b[0m"@,
    }
}

/// Colour choice of a run.
pub struct Palette {
    mode: ColorMode,
}

impl Palette {
    /// The colour mode.
    pub closed spec fn spec_mode(&self) -> ColorMode {
        self.mode
    }

    /// The palette for a run, given whether colour is on and the values of
    /// `COLORTERM` and `TERM` (`None` when unset or unreadable).
    pub fn new(on: bool, colorterm: Option<&str>, term: Option<&str>) -> (r: Palette)
        ensures
            r.spec_mode() == mode_for(
                on,
                match colorterm {
                    Some(v) => Some(v@),
                    None => None,
                },
                match term {
                    Some(v) => Some(v@),
                    None => None,
                },
            ),
    {
        let mode = if !on {
            ColorMode::Off
        } else if match colorterm {
            Some(v) => {
                let c = str_chars(v);
                contains_lit(c.as_slice(), "truecolor") || contains_lit(c.as_slice(), "24bit")
            },
            None => false,
        } {
            ColorMode::True
        } else if match term {
            Some(v) => {
                let c = str_chars(v);
                contains_lit(c.as_slice(), "256color")
            },
            None => false,
        } {
            ColorMode::Ansi256
        } else {
            ColorMode::Ansi8
        };
        Palette { mode }
    }

    /// The palette with a given colour mode.
    pub fn with_mode(mode: ColorMode) -> (r: Palette)
        ensures
            r.spec_mode() == mode,
    {
        Palette { mode }
    }

    /// `s` painted with `ink`.
    pub fn paint(&self, ink: Ink, s: &[char]) -> (r: Vec<char>)
        ensures
            r@ == spec_paint(self.spec_mode(), ink, s@),
    {
        reveal(spec_paint);
        let code: &str = match (self.mode, ink) {
            (ColorMode::Off, _) | (_, Ink::Plain) => {
                let r = sub_chars(s, 0, s.len());
                assert(r@ =~= s@);
                return r;
            },
            (_, Ink::Head) => "1",
            (ColorMode::True, Ink::Faint) => "38;2;110;118;129",
            (ColorMode::True, Ink::Track) => "38;2;48;54;61",
            (ColorMode::Ansi256, Ink::Faint) => "38;5;243",
            (ColorMode::Ansi256, Ink::Track) => "38;5;236",
            (ColorMode::Ansi256, Ink::Title) => "1;38;5;80",
            (ColorMode::Ansi256, Ink::Add) => "38;5;77",
            (ColorMode::Ansi256, Ink::Del) => "38;5;210",
            (ColorMode::Ansi256, Ink::Mod) => "38;5;75",
            (ColorMode::Ansi8, Ink::Track) => "2",
            (ColorMode::True, Ink::Title) => "1;38;2;86;212;221",
            (ColorMode::True, Ink::Add) => "38;2;63;185;80",
            (ColorMode::True, Ink::Del) => "38;2;255;148;146",
            (ColorMode::True, Ink::Mod) => "38;2;88;166;255",
            (ColorMode::Ansi8, Ink::Faint) => "2",
            (ColorMode::Ansi8, Ink::Title) => "1;36",
            (ColorMode::Ansi8, Ink::Add) => "32",
            (ColorMode::Ansi8, Ink::Del) => "31",
            (ColorMode::Ansi8, Ink::Mod) => "34",
        };
        let mut out: Vec<char> = Vec::new();
        push_str(&mut out, "\x1b[");
        push_str(&mut out, code);
        push_str(&mut out, "m");
        push_chars(&mut out, s);
        push_str(&mut out, "\x1b[0m");
        assert(out@ =~= spec_paint(self.spec_mode(), ink, s@));
        out
    }
}

/// Whether colour is used: `always` and `never` decide; otherwise only on a
/// terminal and when `NO_COLOR` is not set.
pub open spec fn spec_color_enabled(mode: Seq<char>, is_tty: bool, no_color_set: bool) -> bool {
    if mode == "always"@ {
        true
    } else if mode == "never"@ {
        false
    } else {
        is_tty && !no_color_set
    }
}

/// Whether colour is used for `--color <mode>`, given whether stdout is a
/// terminal and whether `NO_COLOR` is set.
pub fn color_enabled(mode: &str, is_tty: bool, no_color_set: bool) -> (r: bool)
    ensures
        r == spec_color_enabled(mode@, is_tty, no_color_set),
{
    let m = str_chars(mode);
    if crate::text::eq_lit(m.as_slice(), "always") {
        true
    } else if crate::text::eq_lit(m.as_slice(), "never") {
        false
    } else {
        is_tty && !no_color_set
    }
}

// ---------------------------------------------------------------------------
// Widths and padding
// ---------------------------------------------------------------------------

/// Terminal columns of a character: 2 above U+2E7F (CJK and beyond), else 1.
pub open spec fn char_cols(c: char) -> nat {
    if (c as u32) > 0x2e7f {
        2
    } else {
        1
    }
}

/// Terminal columns of a string.
pub open spec fn disp(s: Seq<char>) -> nat
    decreases s.len(),
{
    if s.len() == 0 {
        0
    } else {
        disp(s.drop_last()) + char_cols(s.last())
    }
}

/// Display width of `s` (capped at `usize::MAX`).
pub fn disp_len(s: &[char]) -> (r: usize)
    ensures
        r == (if disp(s@) <= usize::MAX {
            disp(s@)
        } else {
            usize::MAX as nat
        }),
{
    let mut acc: usize = 0;
    let mut i: usize = 0;
    let n = s.len();
    assert(s@.take(0) =~= Seq::<char>::empty());
    while i < n
        invariant
            n == s@.len(),
            i <= n,
            acc == (if disp(s@.take(i as int)) <= usize::MAX {
                disp(s@.take(i as int))
            } else {
                usize::MAX as nat
            }),
        decreases n - i,
    {
        let w: usize = if (s[i] as u32) > 0x2e7f {
            2
        } else {
            1
        };
        assert(s@.take(i + 1).drop_last() =~= s@.take(i as int));
        if acc > usize::MAX - w {
            acc = usize::MAX;
        } else {
            acc = acc + w;
        }
        i = i + 1;
    }
    assert(s@.take(n as int) =~= s@);
    acc
}

/// Spaces to fill `s` up to `w` columns.
pub open spec fn fill(s: Seq<char>, w: nat) -> Seq<char> {
    repeat(' ', if disp(s) < w {
        (w - disp(s)) as nat
    } else {
        0
    })
}

/// `s` padded on the right to `w` columns.
pub open spec fn spec_pad_right(s: Seq<char>, w: nat) -> Seq<char> {
    s + fill(s, w)
}

/// `s` padded on the left to `w` columns.
pub open spec fn spec_pad_left(s: Seq<char>, w: nat) -> Seq<char> {
    fill(s, w) + s
}

fn fill_count(s: &[char], w: usize) -> (r: usize)
    ensures
        r == (if disp(s@) < w {
            (w - disp(s@)) as nat
        } else {
            0
        }),
{
    let d = disp_len(s);
    if d < w {
        w - d
    } else {
        0
    }
}

/// `s` padded on the right to `w` columns.
pub fn pad_right(s: &[char], w: usize) -> (r: Vec<char>)
    ensures
        r@ == spec_pad_right(s@, w as nat),
{
    let n = fill_count(s, w);
    let mut out = sub_chars(s, 0, s.len());
    assert(out@ =~= s@);
    push_repeat(&mut out, ' ', n);
    out
}

/// `s` padded on the left to `w` columns.
pub fn pad_left(s: &[char], w: usize) -> (r: Vec<char>)
    ensures
        r@ == spec_pad_left(s@, w as nat),
{
    let n = fill_count(s, w);
    let mut out: Vec<char> = Vec::new();
    push_repeat(&mut out, ' ', n);
    push_chars(&mut out, s);
    out
}

// ---------------------------------------------------------------------------
// Cells and lines
// ---------------------------------------------------------------------------

/// A line under construction: texts with their inks.
pub type Cells = Vec<(Vec<char>, Ink)>;

/// Contents of cells.
pub open spec fn cells_view(c: Seq<(Vec<char>, Ink)>) -> Seq<(Seq<char>, Ink)> {
    c.map_values(|p: (Vec<char>, Ink)| (p.0@, p.1))
}

/// The cells painted and joined.
pub open spec fn painted(mode: ColorMode, cells: Seq<(Seq<char>, Ink)>) -> Seq<char>
    decreases cells.len(),
{
    if cells.len() == 0 {
        Seq::empty()
    } else {
        painted(mode, cells.drop_last()) + spec_paint(mode, cells.last().1, cells.last().0)
    }
}

/// One output line: the painted cells without trailing whitespace, then a
/// newline.
pub open spec fn spec_emit(mode: ColorMode, cells: Seq<(Seq<char>, Ink)>) -> Seq<char> {
    trim_end(painted(mode, cells)) + seq!['\n']
}

/// Writes one line of cells.
pub fn emit(b: &mut Vec<char>, c: &Palette, cells: &Cells)
    ensures
        final(b)@ == old(b)@ + spec_emit(c.spec_mode(), cells_view(cells@)),
{
    let ghost cv = cells_view(cells@);
    let mut body: Vec<char> = Vec::new();
    let mut i: usize = 0;
    assert(cv.take(0) =~= Seq::<(Seq<char>, Ink)>::empty());
    while i < cells.len()
        invariant
            cv == cells_view(cells@),
            i <= cells@.len(),
            body@ == painted(c.spec_mode(), cv.take(i as int)),
        decreases cells@.len() - i,
    {
        let p = c.paint(cells[i].1, cells[i].0.as_slice());
        assert(cv.take(i + 1).drop_last() =~= cv.take(i as int));
        push_chars(&mut body, p.as_slice());
        i = i + 1;
    }
    assert(cv.take(i as int) =~= cv);
    trim_end_in_place(&mut body);
    push_chars(b, body.as_slice());
    b.push('\n');
    assert(b@ =~= old(b)@ + spec_emit(c.spec_mode(), cv));
}

/// A full-width rule of `ch`, dimmed.
pub open spec fn spec_rule(mode: ColorMode, ch: char) -> Seq<char> {
    spec_paint(mode, Ink::Faint, repeat(ch, WIDTH as nat)) + seq!['\n']
}

fn rule(b: &mut Vec<char>, c: &Palette, ch: char)
    ensures
        final(b)@ == old(b)@ + spec_rule(c.spec_mode(), ch),
{
    let mut line: Vec<char> = Vec::new();
    push_repeat(&mut line, ch, WIDTH);
    let p = c.paint(Ink::Faint, line.as_slice());
    push_chars(b, p.as_slice());
    b.push('\n');
    assert(b@ =~= old(b)@ + spec_rule(c.spec_mode(), ch));
}

/// Writes a heavy rule.
pub fn heavy(b: &mut Vec<char>, c: &Palette)
    ensures
        final(b)@ == old(b)@ + spec_rule(c.spec_mode(), '━'),
{
    rule(b, c, '━');
}

/// Writes a light rule.
pub fn light(b: &mut Vec<char>, c: &Palette)
    ensures
        final(b)@ == old(b)@ + spec_rule(c.spec_mode(), '─'),
{
    rule(b, c, '─');
}

// ---------------------------------------------------------------------------
// Number cells and bars
// ---------------------------------------------------------------------------

/// A number cell: blank for 0, else the prefixed number right-aligned.
pub open spec fn num_cell(val: usize, pre: Seq<char>, ink: Ink) -> (Seq<char>, Ink) {
    if val == 0 {
        (repeat(' ', NUM_W as nat), Ink::Plain)
    } else {
        (spec_pad_left(pre + dec(val as nat), NUM_W as nat), ink)
    }
}

/// The added / deleted / modified cells; line counts carry `+ - ~`, file
/// counts no prefix.
pub open spec fn spec_num_cells(d: Dim, prefixed: bool) -> Seq<(Seq<char>, Ink)> {
    seq![
        num_cell(d.added, if prefixed { seq!['+'] } else { Seq::empty() }, Ink::Add),
        num_cell(d.deleted, if prefixed { seq!['-'] } else { Seq::empty() }, Ink::Del),
        num_cell(d.modified, if prefixed { seq!['~'] } else { Seq::empty() }, Ink::Mod),
    ]
}

fn num_cell_of(val: usize, pre: char, prefixed: bool, ink: Ink) -> (r: (Vec<char>, Ink))
    ensures
        (r.0@, r.1) == num_cell(val, if prefixed { seq![pre] } else { Seq::empty() }, ink),
{
    if val == 0 {
        let mut sp: Vec<char> = Vec::new();
        push_repeat(&mut sp, ' ', NUM_W);
        (sp, Ink::Plain)
    } else {
        let mut t: Vec<char> = Vec::new();
        if prefixed {
            t.push(pre);
        }
        push_dec(&mut t, val);
        assert(t@ =~= (if prefixed { seq![pre] } else { Seq::<char>::empty() }) + dec(val as nat));
        (pad_left(t.as_slice(), NUM_W), ink)
    }
}

/// Number cells: zero counts are left blank.
pub fn num_cells(d: &Dim, prefixed: bool) -> (r: Cells)
    ensures
        cells_view(r@) == spec_num_cells(*d, prefixed),
{
    let mut out: Cells = Vec::new();
    out.push(num_cell_of(d.added, '+', prefixed, Ink::Add));
    out.push(num_cell_of(d.deleted, '-', prefixed, Ink::Del));
    out.push(num_cell_of(d.modified, '~', prefixed, Ink::Mod));
    assert(cells_view(out@) =~= spec_num_cells(*d, prefixed));
    out
}

/// Count of nonzero fields of a dimension.
pub open spec fn nonzero(d: Dim) -> int {
    (if d.added > 0 { 1int } else { 0 }) + (if d.deleted > 0 { 1int } else { 0 }) + (if d.modified
        > 0 { 1int } else { 0 })
}

/// Sum of a dimension's fields.
pub open spec fn dim_total(d: Dim) -> int {
    d.added + d.deleted + d.modified
}

/// Bar length: `BAR_W * total / max_total` rounded half up, clamped to at
/// least one cell per nonzero field and at most `BAR_W`.
pub open spec fn bar_len(d: Dim, max_total: int) -> int {
    let raw = (36 * dim_total(d) + max_total) / (2 * max_total);
    if raw < nonzero(d) {
        nonzero(d)
    } else if raw > BAR_W {
        BAR_W as int
    } else {
        raw
    }
}

/// Index of the last largest of three keys.
pub open spec fn last_max3(a: int, b: int, c: int) -> int {
    if c >= a && c >= b {
        2
    } else if b >= a {
        1
    } else {
        0
    }
}

/// Field `i` of a triple.
pub open spec fn get3(s: (int, int, int), i: int) -> int {
    if i == 0 {
        s.0
    } else if i == 1 {
        s.1
    } else {
        s.2
    }
}

/// A triple with field `i` replaced.
pub open spec fn set3(s: (int, int, int), i: int, x: int) -> (int, int, int) {
    if i == 0 {
        (x, s.1, s.2)
    } else if i == 1 {
        (s.0, x, s.2)
    } else {
        (s.0, s.1, x)
    }
}

/// Sum of a triple.
pub open spec fn sum3(s: (int, int, int)) -> int {
    s.0 + s.1 + s.2
}

/// Initial segment of a field: its proportional share of `len`, rounded
/// down, at least 1 when the field is nonzero.
pub open spec fn init_seg(v: int, total: int, len: int) -> int {
    if v > 0 {
        let f = (v * len) / total;
        if f < 1 {
            1
        } else {
            f
        }
    } else {
        0
    }
}

/// Takes one cell at a time from the longest segment (the last of equals)
/// while the segments are longer than `len` and that segment is longer
/// than 1.
pub open spec fn shrink(s: (int, int, int), len: int) -> (int, int, int)
    decreases sum3(s) - len,
{
    if sum3(s) <= len {
        s
    } else {
        let i = last_max3(s.0, s.1, s.2);
        if get3(s, i) <= 1 {
            s
        } else {
            shrink(set3(s, i, get3(s, i) - 1), len)
        }
    }
}

/// Sort key for growing: the field's value, or -1 for a zero field.
pub open spec fn grow_key(v: int) -> int {
    if v > 0 {
        v
    } else {
        -1
    }
}

/// Adds one cell at a time to the segment of the largest field (the last
/// of equals, nonzero fields only) until the segments fill `len`.
pub open spec fn grow(s: (int, int, int), len: int, v: (int, int, int)) -> (int, int, int)
    decreases len - sum3(s),
{
    if sum3(s) >= len {
        s
    } else {
        let i = last_max3(grow_key(v.0), grow_key(v.1), grow_key(v.2));
        grow(set3(s, i, get3(s, i) + 1), len, v)
    }
}

/// Segment lengths of the bar for `d`.
pub open spec fn bar_segs(d: Dim, max_total: int) -> (int, int, int) {
    let len = bar_len(d, max_total);
    let t = dim_total(d);
    let init = (init_seg(d.added as int, t, len), init_seg(d.deleted as int, t, len), init_seg(
        d.modified as int,
        t,
        len,
    ));
    grow(shrink(init, len), len, (d.added as int, d.deleted as int, d.modified as int))
}

/// The ratio bar: solid added / deleted / modified segments, then the dim
/// track up to `BAR_W`; one empty cell when there is nothing to scale.
pub open spec fn spec_bar_cells(d: Dim, max_total: int) -> Seq<(Seq<char>, Ink)> {
    if dim_total(d) == 0 || max_total == 0 {
        seq![(Seq::<char>::empty(), Ink::Plain)]
    } else {
        let s = bar_segs(d, max_total);
        seq![
            (repeat('█', s.0 as nat), Ink::Add),
            (repeat('█', s.1 as nat), Ink::Del),
            (repeat('█', s.2 as nat), Ink::Mod),
            (repeat('░', (BAR_W - bar_len(d, max_total)) as nat), Ink::Track),
        ]
    }
}

/// Segments of zero fields are empty and segments of nonzero fields are not.
pub open spec fn segs_match(s: (int, int, int), v: (int, int, int)) -> bool {
    &&& (v.0 > 0 ==> s.0 >= 1) && (v.0 == 0 ==> s.0 == 0)
    &&& (v.1 > 0 ==> s.1 >= 1) && (v.1 == 0 ==> s.1 == 0)
    &&& (v.2 > 0 ==> s.2 >= 1) && (v.2 == 0 ==> s.2 == 0)
}

/// Number of positive fields of a triple.
pub open spec fn positives(v: (int, int, int)) -> int {
    (if v.0 > 0 { 1int } else { 0 }) + (if v.1 > 0 { 1int } else { 0 }) + (if v.2 > 0 { 1int } else { 0 })
}

proof fn lemma_shrink(s: (int, int, int), len: int, v: (int, int, int))
    requires
        segs_match(s, v),
        v.0 >= 0 && v.1 >= 0 && v.2 >= 0,
        positives(v) <= len,
    ensures
        segs_match(shrink(s, len), v),
        sum3(shrink(s, len)) <= len,
        sum3(s) >= len ==> sum3(shrink(s, len)) == len,
    decreases sum3(s) - len,
{
    if sum3(s) > len {
        let i = last_max3(s.0, s.1, s.2);
        if get3(s, i) > 1 {
            lemma_shrink(set3(s, i, get3(s, i) - 1), len, v);
        }
    }
}

proof fn lemma_grow(s: (int, int, int), len: int, v: (int, int, int))
    requires
        segs_match(s, v),
        v.0 >= 0 && v.1 >= 0 && v.2 >= 0,
        positives(v) >= 1,
        sum3(s) <= len,
    ensures
        segs_match(grow(s, len, v), v),
        sum3(grow(s, len, v)) == len,
    decreases len - sum3(s),
{
    if sum3(s) < len {
        let i = last_max3(grow_key(v.0), grow_key(v.1), grow_key(v.2));
        assert(get3(v, i) > 0);
        lemma_grow(set3(s, i, get3(s, i) + 1), len, v);
    }
}

/// Bar segments: every nonzero field gets at least one cell, a zero field
/// none, and together they fill exactly the bar length, which lies between
/// the number of nonzero fields and `BAR_W`.
pub proof fn law_bar_segments(d: Dim, max_total: int)
    requires
        dim_total(d) > 0,
        max_total > 0,
    ensures
        nonzero(d) <= bar_len(d, max_total) <= BAR_W,
        sum3(bar_segs(d, max_total)) == bar_len(d, max_total),
        segs_match(bar_segs(d, max_total), (d.added as int, d.deleted as int, d.modified as int)),
{
    let len = bar_len(d, max_total);
    let t = dim_total(d);
    let v = (d.added as int, d.deleted as int, d.modified as int);
    assert((36 * t + max_total) / (2 * max_total) >= 0) by (nonlinear_arith)
        requires
            t > 0,
            max_total > 0,
    ;
    let init = (init_seg(v.0, t, len), init_seg(v.1, t, len), init_seg(v.2, t, len));
    assert(init_seg(v.0, t, len) >= 0 && init_seg(v.1, t, len) >= 0 && init_seg(v.2, t, len) >= 0) by {
        assert((v.0 * len) / t >= 0) by (nonlinear_arith)
            requires
                v.0 >= 0,
                len >= 0,
                t > 0,
        ;
        assert((v.1 * len) / t >= 0) by (nonlinear_arith)
            requires
                v.1 >= 0,
                len >= 0,
                t > 0,
        ;
        assert((v.2 * len) / t >= 0) by (nonlinear_arith)
            requires
                v.2 >= 0,
                len >= 0,
                t > 0,
        ;
    }
    assert(segs_match(init, v));
    assert(positives(v) == nonzero(d));
    lemma_shrink(init, len, v);
    lemma_grow(shrink(init, len), len, v);
}

fn last_max3_of(a: usize, b: usize, c: usize) -> (r: usize)
    ensures
        r == last_max3(a as int, b as int, c as int),
{
    if c >= a && c >= b {
        2
    } else if b >= a {
        1
    } else {
        0
    }
}

fn init_seg_of(v: usize, total: usize, len: usize) -> (r: usize)
    requires
        v <= total,
        total > 0,
        len <= BAR_W,
    ensures
        r == init_seg(v as int, total as int, len as int),
        r <= BAR_W,
{
    if v > 0 {
        assert((v as int) * (len as int) <= 18 * (usize::MAX as int)) by (nonlinear_arith)
            requires
                v <= usize::MAX,
                len <= 18,
        ;
        let q: u128 = (v as u128) * (len as u128) / (total as u128);
        assert(q <= len) by (nonlinear_arith)
            requires
                q == (v as int) * (len as int) / (total as int),
                v <= total,
                total > 0,
        ;
        let f = q as usize;
        if f < 1 {
            1
        } else {
            f
        }
    } else {
        0
    }
}

/// Stacked ratio bar: solid added / deleted / modified segments, then the
/// dim track up to a fixed width; segment lengths follow the counts, so
/// bars compare across rows.
pub fn bar_cells(d: &Dim, max_total: usize) -> (r: Cells)
    requires
        dim_total(*d) <= usize::MAX,
    ensures
        cells_view(r@) == spec_bar_cells(*d, max_total as int),
{
    let total = d.added + d.deleted + d.modified;
    if total == 0 || max_total == 0 {
        let mut out: Cells = Vec::new();
        out.push((Vec::new(), Ink::Plain));
        assert(cells_view(out@) =~= spec_bar_cells(*d, max_total as int));
        return out;
    }
    let nz: usize = (if d.added > 0 { 1 } else { 0 }) + (if d.deleted > 0 { 1 } else { 0 }) + (
    if d.modified > 0 { 1 } else { 0 });
    let raw: u128 = (36 * (total as u128) + (max_total as u128)) / (2 * (max_total as u128));
    let len: usize = if raw < nz as u128 {
        nz
    } else if raw > 18 {
        BAR_W
    } else {
        raw as usize
    };
    assert(len == bar_len(*d, max_total as int));
    let ghost v = (d.added as int, d.deleted as int, d.modified as int);
    let mut s0 = init_seg_of(d.added, total, len);
    let mut s1 = init_seg_of(d.deleted, total, len);
    let mut s2 = init_seg_of(d.modified, total, len);
    let ghost init = (s0 as int, s1 as int, s2 as int);
    // shrink
    loop
        invariant
            s0 <= BAR_W && s1 <= BAR_W && s2 <= BAR_W,
            shrink((s0 as int, s1 as int, s2 as int), len as int) == shrink(init, len as int),
        ensures
            s0 <= BAR_W && s1 <= BAR_W && s2 <= BAR_W,
            (s0 as int, s1 as int, s2 as int) == shrink(init, len as int),
        decreases s0 + s1 + s2,
    {
        if s0 + s1 + s2 <= len {
            break;
        }
        let i = last_max3_of(s0, s1, s2);
        if i == 0 {
            if s0 <= 1 {
                break;
            }
            s0 = s0 - 1;
        } else if i == 1 {
            if s1 <= 1 {
                break;
            }
            s1 = s1 - 1;
        } else {
            if s2 <= 1 {
                break;
            }
            s2 = s2 - 1;
        }
    }
    let ghost shrunk = (s0 as int, s1 as int, s2 as int);
    // grow
    loop
        invariant
            s0 <= BAR_W && s1 <= BAR_W && s2 <= BAR_W,
            len <= BAR_W,
            grow((s0 as int, s1 as int, s2 as int), len as int, v) == grow(shrunk, len as int, v),
            v == (d.added as int, d.deleted as int, d.modified as int),
        ensures
            (s0 as int, s1 as int, s2 as int) == grow(shrunk, len as int, v),
        decreases len - (s0 + s1 + s2),
    {
        if s0 + s1 + s2 >= len {
            break;
        }
        // the last largest nonzero field
        let g0: i128 = if d.added > 0 { d.added as i128 } else { -1 };
        let g1: i128 = if d.deleted > 0 { d.deleted as i128 } else { -1 };
        let g2: i128 = if d.modified > 0 { d.modified as i128 } else { -1 };
        let i: usize = if g2 >= g0 && g2 >= g1 {
            2
        } else if g1 >= g0 {
            1
        } else {
            0
        };
        assert(i == last_max3(grow_key(v.0), grow_key(v.1), grow_key(v.2)));
        if i == 0 {
            s0 = s0 + 1;
        } else if i == 1 {
            s1 = s1 + 1;
        } else {
            s2 = s2 + 1;
        }
    }
    assert((s0 as int, s1 as int, s2 as int) == bar_segs(*d, max_total as int));
    let mut out: Cells = Vec::new();
    let mut a: Vec<char> = Vec::new();
    push_repeat(&mut a, '█', s0);
    out.push((a, Ink::Add));
    let mut b: Vec<char> = Vec::new();
    push_repeat(&mut b, '█', s1);
    out.push((b, Ink::Del));
    let mut c: Vec<char> = Vec::new();
    push_repeat(&mut c, '█', s2);
    out.push((c, Ink::Mod));
    let mut t: Vec<char> = Vec::new();
    push_repeat(&mut t, '░', BAR_W - len);
    out.push((t, Ink::Track));
    assert(cells_view(out@) =~= spec_bar_cells(*d, max_total as int));
    out
}

// ---------------------------------------------------------------------------
// Rows
// ---------------------------------------------------------------------------

/// The files cell: the count right-aligned, blank for none or 0.
pub open spec fn files_cell(files: Option<usize>) -> (Seq<char>, Ink) {
    match files {
        Some(n) => if n > 0 {
            (spec_pad_left(dec(n as nat), FILE_W as nat), Ink::Plain)
        } else {
            (repeat(' ', FILE_W as nat), Ink::Plain)
        },
        None => (repeat(' ', FILE_W as nat), Ink::Plain),
    }
}

/// A table row: label, files, numbers and, when scaled (`max_total > 0`),
/// two spaces and the bar.
pub open spec fn spec_row(
    label: Seq<char>,
    ink: Ink,
    files: Option<usize>,
    d: Dim,
    max_total: int,
    prefixed: bool,
) -> Seq<(Seq<char>, Ink)> {
    let head = seq![(seq![' '] + spec_pad_right(label, LABEL_W as nat), ink), files_cell(files)]
        + spec_num_cells(d, prefixed);
    if max_total > 0 {
        head + seq![(seq![' ', ' '], Ink::Plain)] + spec_bar_cells(d, max_total)
    } else {
        head
    }
}

/// Appends cells to cells.
fn extend_cells(out: &mut Cells, more: Cells)
    ensures
        cells_view(final(out)@) == cells_view(old(out)@) + cells_view(more@),
{
    let ghost start = cells_view(out@);
    let n = more.len();
    let mut i: usize = 0;
    let ghost mv = cells_view(more@);
    while i < n
        invariant
            n == more@.len(),
            mv == cells_view(more@),
            i <= n,
            cells_view(out@) == start + mv.take(i as int),
        decreases n - i,
    {
        let cell = (sub_chars(more[i].0.as_slice(), 0, more[i].0.len()), more[i].1);
        assert(cell.0@ =~= more@[i as int].0@);
        let ghost before = cells_view(out@);
        out.push(cell);
        assert(cells_view(out@) =~= before.push(mv[i as int]));
        assert(mv.take(i + 1) =~= mv.take(i as int).push(mv[i as int]));
        i = i + 1;
    }
    assert(mv.take(n as int) =~= mv);
}

/// One table row.
pub fn row(label: &[char], ink: Ink, files: Option<usize>, d: &Dim, max_total: usize, prefixed: bool) -> (r: Cells)
    requires
        max_total > 0 ==> dim_total(*d) <= usize::MAX,
    ensures
        cells_view(r@) == spec_row(label@, ink, files, *d, max_total as int, prefixed),
{
    let mut first: Vec<char> = Vec::new();
    first.push(' ');
    let padded = pad_right(label, LABEL_W);
    push_chars(&mut first, padded.as_slice());
    let mut cells: Cells = Vec::new();
    cells.push((first, ink));
    let fc: Vec<char> = match files {
        Some(n) => if n > 0 {
            let mut t: Vec<char> = Vec::new();
            push_dec(&mut t, n);
            pad_left(t.as_slice(), FILE_W)
        } else {
            let mut t: Vec<char> = Vec::new();
            push_repeat(&mut t, ' ', FILE_W);
            t
        },
        None => {
            let mut t: Vec<char> = Vec::new();
            push_repeat(&mut t, ' ', FILE_W);
            t
        },
    };
    cells.push((fc, Ink::Plain));
    assert(cells_view(cells@) =~= seq![(seq![' '] + spec_pad_right(label@, LABEL_W as nat), ink), files_cell(files)]);
    extend_cells(&mut cells, num_cells(d, prefixed));
    if max_total > 0 {
        let mut two: Vec<char> = Vec::new();
        two.push(' ');
        two.push(' ');
        assert(two@ =~= seq![' ', ' ']);
        let mut sep: Cells = Vec::new();
        sep.push((two, Ink::Plain));
        assert(cells_view(sep@) =~= seq![(seq![' ', ' '], Ink::Plain)]);
        extend_cells(&mut cells, sep);
        extend_cells(&mut cells, bar_cells(d, max_total));
    }
    cells
}

/// Field-wise sum of two dimensions.
pub open spec fn spec_sum_dim(a: Dim, b: Dim) -> Dim {
    Dim {
        added: (a.added + b.added) as usize,
        deleted: (a.deleted + b.deleted) as usize,
        modified: (a.modified + b.modified) as usize,
    }
}

/// The field-wise sum stays in `usize`.
pub open spec fn sum_fits(a: Dim, b: Dim) -> bool {
    a.added + b.added <= usize::MAX && a.deleted + b.deleted <= usize::MAX && a.modified
        + b.modified <= usize::MAX
}

/// Field-wise sum of two dimensions.
pub fn sum_dim(a: &Dim, b: &Dim) -> (r: Dim)
    requires
        sum_fits(*a, *b),
    ensures
        r == spec_sum_dim(*a, *b),
{
    Dim {
        added: a.added + b.added,
        deleted: a.deleted + b.deleted,
        modified: a.modified + b.modified,
    }
}

// ---------------------------------------------------------------------------
// The report
// ---------------------------------------------------------------------------

/// A rendered row, as cells.
pub type RowCells = Seq<(Seq<char>, Ink)>;

/// Number of changed files.
pub open spec fn file_count(rep: ReportView) -> int {
    rep.files.added + rep.files.deleted + rep.files.modified
}

/// The title's right-hand side: commit count (when known) and file count.
pub open spec fn spec_meta(rep: ReportView) -> Seq<char> {
    let files_part = dec(file_count(rep) as nat) + " 个文件变更"@;
    if rep.commits > 0 {
        dec(rep.commits as nat) + " 个提交"@ + " · "@ + files_part
    } else {
        files_part
    }
}

/// The title's left-hand side.
pub open spec fn spec_title(rep: ReportView) -> Seq<char> {
    " Numeria · "@ + rep.range_spec
}

/// Spaces between title and meta so that the line spans `WIDTH` columns.
pub open spec fn title_gap(rep: ReportView) -> nat {
    let used = disp(spec_title(rep)) + disp(spec_meta(rep));
    if used < WIDTH {
        (WIDTH - used) as nat
    } else {
        0
    }
}

/// The title line.
pub open spec fn spec_title_line(mode: ColorMode, rep: ReportView) -> Seq<char> {
    spec_emit(
        mode,
        seq![
            (spec_title(rep), Ink::Title),
            (repeat(' ', title_gap(rep)), Ink::Plain),
            (spec_meta(rep), Ink::Faint),
        ],
    )
}

/// The column header line.
pub open spec fn spec_header_line(mode: ColorMode) -> Seq<char> {
    spec_emit(
        mode,
        seq![
            (seq![' '] + spec_pad_right("语言"@, LABEL_W as nat), Ink::Head),
            (spec_pad_left("文件"@, FILE_W as nat), Ink::Head),
            (spec_pad_left("新增"@, NUM_W as nat), Ink::Head),
            (spec_pad_left("删除"@, NUM_W as nat), Ink::Head),
            (spec_pad_left("修改"@, NUM_W as nat), Ink::Head),
        ],
    )
}

/// Largest of two.
pub open spec fn max2(a: int, b: int) -> int {
    if a >= b {
        a
    } else {
        b
    }
}

/// The bar scale: the largest change count among the language rows.
pub open spec fn scale_max(langs: LangTable) -> int {
    max2(
        max2(
            max2(
                max2(dim_total(langs.go_code.lines), dim_total(langs.go_test.lines)),
                dim_total(langs.py_code.lines),
            ),
            dim_total(langs.py_test.lines),
        ),
        dim_total(langs.other.lines),
    )
}

/// A category with files or changed lines.
pub open spec fn lang_has(l: LangStat) -> bool {
    l.files > 0 || !dim_is_empty(l.lines)
}

/// Rows of a language: the code row; with tests also a `|- 测试` row and
/// a `(合计)` sum row (unscaled); tests alone get one `<name> 测试` row.
pub open spec fn spec_pair_group(name: Seq<char>, code: LangStat, test: LangStat, max_total: int) -> Seq<
    RowCells,
> {
    if lang_has(code) && !lang_has(test) {
        seq![spec_row(name, Ink::Plain, Some(code.files), code.lines, max_total, true)]
    } else if lang_has(code) && lang_has(test) {
        seq![
            spec_row(name, Ink::Plain, Some(code.files), code.lines, max_total, true),
            spec_row("|- 测试"@, Ink::Faint, Some(test.files), test.lines, max_total, true),
            spec_row(
                "(合计)"@,
                Ink::Faint,
                Some((code.files + test.files) as usize),
                spec_sum_dim(code.lines, test.lines),
                0,
                true,
            ),
        ]
    } else if !lang_has(code) && lang_has(test) {
        seq![spec_row(name + " 测试"@, Ink::Plain, Some(test.files), test.lines, max_total, true)]
    } else {
        Seq::empty()
    }
}

/// The row of everything else, when there is any.
pub open spec fn spec_other_group(other: LangStat, max_total: int) -> Seq<RowCells> {
    if lang_has(other) {
        seq![spec_row("其他非代码"@, Ink::Plain, Some(other.files), other.lines, max_total, true)]
    } else {
        Seq::empty()
    }
}

/// Emitted rows.
pub open spec fn emit_all(mode: ColorMode, rows: Seq<RowCells>) -> Seq<char>
    decreases rows.len(),
{
    if rows.len() == 0 {
        Seq::empty()
    } else {
        emit_all(mode, rows.drop_last()) + spec_emit(mode, rows.last())
    }
}

/// A group's text: a light rule before every group but the first.
pub open spec fn group_text(mode: ColorMode, g: Seq<RowCells>, first: bool) -> Seq<char> {
    if g.len() == 0 {
        Seq::empty()
    } else if first {
        emit_all(mode, g)
    } else {
        spec_rule(mode, '─') + emit_all(mode, g)
    }
}

/// The language section: Go, Python and other groups separated by light
/// rules, or a `(无变更)` line when all are empty; bars are scaled to the
/// largest change count of all the rows (see `scale_max`).
pub open spec fn spec_groups_text(mode: ColorMode, langs: LangTable) -> Seq<char> {
    groups_text_at(mode, langs, scale_max(langs))
}

/// The language section with bars scaled to `m` changed lines.
pub open spec fn groups_text_at(mode: ColorMode, langs: LangTable, m: int) -> Seq<char> {
    let go = spec_pair_group("Go"@, langs.go_code, langs.go_test, m);
    let py = spec_pair_group("Python"@, langs.py_code, langs.py_test, m);
    let other = spec_other_group(langs.other, m);
    if go.len() == 0 && py.len() == 0 && other.len() == 0 {
        spec_emit(mode, seq![(" (无变更)"@, Ink::Faint)])
    } else {
        group_text(mode, go, true) + group_text(mode, py, go.len() == 0) + group_text(
            mode,
            other,
            go.len() == 0 && py.len() == 0,
        )
    }
}

/// Sum of the three line dimensions.
pub open spec fn line_total(rep: ReportView) -> Dim {
    spec_sum_dim(spec_sum_dim(rep.code, rep.test), rep.other)
}

/// The two total lines: lines (with the file count) and files.
pub open spec fn spec_totals_text(mode: ColorMode, rep: ReportView) -> Seq<char> {
    spec_emit(
        mode,
        spec_row("总计(行)"@, Ink::Head, Some(file_count(rep) as usize), line_total(rep), 0, true),
    ) + spec_emit(mode, spec_row("文件(个)"@, Ink::Head, None, rep.files, 0, false))
}

/// Change cells of a file: `+added -deleted ~modified` (zero counts left out)
/// and `二进制` for binary files.
pub open spec fn file_parts(mode: ColorMode, r: RowView) -> Seq<Seq<char>> {
    let a = if r.stat.added > 0 {
        seq![spec_paint(mode, Ink::Add, seq!['+'] + dec(r.stat.added as nat))]
    } else {
        Seq::empty()
    };
    let d = if r.stat.deleted > 0 {
        seq![spec_paint(mode, Ink::Del, seq!['-'] + dec(r.stat.deleted as nat))]
    } else {
        Seq::empty()
    };
    let m = if r.stat.modified > 0 {
        seq![spec_paint(mode, Ink::Mod, seq!['~'] + dec(r.stat.modified as nat))]
    } else {
        Seq::empty()
    };
    let b = if r.stat.binary {
        seq![spec_paint(mode, Ink::Faint, "二进制"@)]
    } else {
        Seq::empty()
    };
    a + d + m + b
}

/// Pieces joined by a separator.
pub open spec fn join(parts: Seq<Seq<char>>, sep: Seq<char>) -> Seq<char>
    decreases parts.len(),
{
    if parts.len() == 0 {
        Seq::empty()
    } else if parts.len() == 1 {
        parts[0]
    } else {
        join(parts.drop_last(), sep) + sep + parts.last()
    }
}

/// Directory part (with its `/`) and file name of a path.
pub open spec fn dir_base(path: Seq<char>) -> (Seq<char>, Seq<char>) {
    match rsplit_once(path, "/"@) {
        Some((d, f)) => (d + seq!['/'], f),
        None => (Seq::empty(), path),
    }
}

/// One line of the top-files list: status, dimmed directory, file name,
/// then the change cells.
pub open spec fn file_line(mode: ColorMode, r: RowView) -> Seq<char> {
    seq![' ', ' ', ' '] + spec_paint(mode, Ink::Title, r.status) + seq![' '] + spec_paint(
        mode,
        Ink::Faint,
        dir_base(r.path).0,
    ) + dir_base(r.path).1 + seq![' ', ' '] + join(file_parts(mode, r), seq![' ']) + seq!['\n']
}

/// Lines of the first `n` files in the order `idx`.
pub open spec fn file_lines(mode: ColorMode, rows: Seq<RowView>, idx: Seq<usize>, n: int) -> Seq<char>
    decreases n,
{
    if n <= 0 {
        Seq::empty()
    } else {
        file_lines(mode, rows, idx, n - 1) + file_line(mode, rows[idx[n - 1] as int])
    }
}

/// The top-files section: a heading and the (at most) ten files with the
/// most changed lines.
pub open spec fn spec_files_text(mode: ColorMode, rep: ReportView, idx: Seq<usize>) -> Seq<char> {
    seq![' '] + spec_paint(mode, Ink::Faint, "变更最大的文件:"@) + seq!['\n'] + file_lines(
        mode,
        rep.rows,
        idx,
        if rep.rows.len() < 10 {
            rep.rows.len() as int
        } else {
            10
        },
    )
}

/// The terminal report, with the top files in the order `idx` when verbose.
pub open spec fn spec_render(rep: ReportView, mode: ColorMode, verbose: bool, idx: Seq<usize>) -> Seq<char> {
    spec_title_line(mode, rep) + spec_rule(mode, '━') + spec_header_line(mode) + spec_rule(mode, '━')
        + spec_groups_text(mode, rep.by_lang) + spec_rule(mode, '━') + spec_totals_text(mode, rep)
        + spec_rule(mode, '━') + if verbose {
        spec_files_text(mode, rep, idx)
    } else {
        Seq::empty()
    }
}

/// A language pair's sums stay in `usize` where both rows are shown.
pub open spec fn pair_fits(code: LangStat, test: LangStat) -> bool {
    lang_has(code) && lang_has(test) ==> code.files + test.files <= usize::MAX && sum_fits(
        code.lines,
        test.lines,
    )
}

/// Every sum the terminal report takes stays in `usize`.
pub open spec fn render_fits(rep: ReportView, verbose: bool) -> bool {
    &&& file_count(rep) <= usize::MAX
    &&& dim_total(rep.by_lang.go_code.lines) <= usize::MAX
    &&& dim_total(rep.by_lang.go_test.lines) <= usize::MAX
    &&& dim_total(rep.by_lang.py_code.lines) <= usize::MAX
    &&& dim_total(rep.by_lang.py_test.lines) <= usize::MAX
    &&& dim_total(rep.by_lang.other.lines) <= usize::MAX
    &&& pair_fits(rep.by_lang.go_code, rep.by_lang.go_test)
    &&& pair_fits(rep.by_lang.py_code, rep.by_lang.py_test)
    &&& sum_fits(rep.code, rep.test)
    &&& sum_fits(spec_sum_dim(rep.code, rep.test), rep.other)
    &&& (verbose ==> rows_fit(rep.rows))
}

/// Contents of rendered rows.
pub open spec fn group_view(g: Seq<Cells>) -> Seq<RowCells> {
    g.map_values(|c: Cells| cells_view(c@))
}

fn lit_cell(lit: &str, ink: Ink) -> (r: (Vec<char>, Ink))
    ensures
        r.0@ == lit@,
        r.1 == ink,
{
    (str_chars(lit), ink)
}

fn title_line(b: &mut Vec<char>, c: &Palette, rep: &Report)
    requires
        file_count(rep@) <= usize::MAX,
    ensures
        final(b)@ == old(b)@ + spec_title_line(c.spec_mode(), rep@),
{
    let mut meta: Vec<char> = Vec::new();
    if rep.commits > 0 {
        push_dec(&mut meta, rep.commits);
        push_str(&mut meta, " 个提交");
        push_str(&mut meta, " · ");
    }
    let n_files = rep.files.added + rep.files.deleted + rep.files.modified;
    push_dec(&mut meta, n_files);
    push_str(&mut meta, " 个文件变更");
    assert(meta@ =~= spec_meta(rep@));
    let mut title: Vec<char> = Vec::new();
    push_str(&mut title, " Numeria · ");
    push_str(&mut title, rep.range_spec.as_str());
    assert(title@ =~= spec_title(rep@));
    let d1 = disp_len(title.as_slice());
    let gap: usize = if d1 >= WIDTH {
        0
    } else {
        let d2 = disp_len(meta.as_slice());
        if d2 >= WIDTH - d1 {
            0
        } else {
            WIDTH - d1 - d2
        }
    };
    assert(gap == title_gap(rep@));
    let mut sp: Vec<char> = Vec::new();
    push_repeat(&mut sp, ' ', gap);
    let mut cells: Cells = Vec::new();
    cells.push((title, Ink::Title));
    cells.push((sp, Ink::Plain));
    cells.push((meta, Ink::Faint));
    assert(cells_view(cells@) =~= seq![
        (spec_title(rep@), Ink::Title),
        (repeat(' ', title_gap(rep@)), Ink::Plain),
        (spec_meta(rep@), Ink::Faint),
    ]);
    emit(b, c, &cells);
}

fn header_line(b: &mut Vec<char>, c: &Palette)
    ensures
        final(b)@ == old(b)@ + spec_header_line(c.spec_mode()),
{
    let mut first: Vec<char> = Vec::new();
    first.push(' ');
    let lang = str_chars("语言");
    let p = pad_right(lang.as_slice(), LABEL_W);
    push_chars(&mut first, p.as_slice());
    let mut cells: Cells = Vec::new();
    cells.push((first, Ink::Head));
    let f = str_chars("文件");
    cells.push((pad_left(f.as_slice(), FILE_W), Ink::Head));
    let a = str_chars("新增");
    cells.push((pad_left(a.as_slice(), NUM_W), Ink::Head));
    let d = str_chars("删除");
    cells.push((pad_left(d.as_slice(), NUM_W), Ink::Head));
    let m = str_chars("修改");
    cells.push((pad_left(m.as_slice(), NUM_W), Ink::Head));
    assert(cells_view(cells@) =~= seq![
        (seq![' '] + spec_pad_right("语言"@, LABEL_W as nat), Ink::Head),
        (spec_pad_left("文件"@, FILE_W as nat), Ink::Head),
        (spec_pad_left("新增"@, NUM_W as nat), Ink::Head),
        (spec_pad_left("删除"@, NUM_W as nat), Ink::Head),
        (spec_pad_left("修改"@, NUM_W as nat), Ink::Head),
    ]);
    emit(b, c, &cells);
}

fn lang_total(l: &LangStat) -> (r: usize)
    requires
        dim_total(l.lines) <= usize::MAX,
    ensures
        r == dim_total(l.lines),
{
    l.lines.added + l.lines.deleted + l.lines.modified
}

fn max_of(a: usize, b: usize) -> (r: usize)
    ensures
        r == max2(a as int, b as int),
{
    if a >= b {
        a
    } else {
        b
    }
}

fn has_changes(l: &LangStat) -> (r: bool)
    ensures
        r == lang_has(*l),
{
    l.files > 0 || !l.lines.is_empty()
}

fn one_row(g: &mut Vec<Cells>, r: Cells)
    ensures
        group_view(final(g)@) == group_view(old(g)@).push(cells_view(r@)),
{
    let ghost before = g@;
    g.push(r);
    assert(group_view(g@) =~= group_view(before).push(cells_view(r@)));
}

fn pair_group(name: &str, code: &LangStat, test: &LangStat, max_total: usize) -> (g: Vec<Cells>)
    requires
        max_total > 0 ==> dim_total(code.lines) <= usize::MAX,
        max_total > 0 ==> dim_total(test.lines) <= usize::MAX,
        pair_fits(*code, *test),
    ensures
        group_view(g@) == spec_pair_group(name@, *code, *test, max_total as int),
{
    let nc = str_chars(name);
    let hc = has_changes(code);
    let ht = has_changes(test);
    let mut g: Vec<Cells> = Vec::new();
    if hc && !ht {
        one_row(&mut g, row(nc.as_slice(), Ink::Plain, Some(code.files), &code.lines, max_total, true));
    } else if hc && ht {
        one_row(&mut g, row(nc.as_slice(), Ink::Plain, Some(code.files), &code.lines, max_total, true));
        let sub = str_chars("|- 测试");
        one_row(&mut g, row(sub.as_slice(), Ink::Faint, Some(test.files), &test.lines, max_total, true));
        let sum = str_chars("(合计)");
        let both = sum_dim(&code.lines, &test.lines);
        one_row(&mut g, row(sum.as_slice(), Ink::Faint, Some(code.files + test.files), &both, 0, true));
    } else if !hc && ht {
        let mut label = sub_chars(nc.as_slice(), 0, nc.len());
        push_str(&mut label, " 测试");
        assert(label@ =~= name@ + " 测试"@);
        one_row(&mut g, row(label.as_slice(), Ink::Plain, Some(test.files), &test.lines, max_total, true));
    }
    assert(group_view(g@) =~= spec_pair_group(name@, *code, *test, max_total as int));
    g
}

fn other_group(other: &LangStat, max_total: usize) -> (g: Vec<Cells>)
    requires
        max_total > 0 ==> dim_total(other.lines) <= usize::MAX,
    ensures
        group_view(g@) == spec_other_group(*other, max_total as int),
{
    let mut g: Vec<Cells> = Vec::new();
    if has_changes(other) {
        let label = str_chars("其他非代码");
        one_row(&mut g, row(label.as_slice(), Ink::Plain, Some(other.files), &other.lines, max_total, true));
    }
    assert(group_view(g@) =~= spec_other_group(*other, max_total as int));
    g
}

fn emit_group(b: &mut Vec<char>, c: &Palette, g: &Vec<Cells>, first: bool)
    ensures
        final(b)@ == old(b)@ + group_text(c.spec_mode(), group_view(g@), first),
{
    let ghost gv = group_view(g@);
    if g.len() == 0 {
        return;
    }
    if !first {
        light(b, c);
    }
    let ghost start = b@;
    let mut i: usize = 0;
    assert(gv.take(0) =~= Seq::<RowCells>::empty());
    while i < g.len()
        invariant
            gv == group_view(g@),
            i <= g@.len(),
            b@ == start + emit_all(c.spec_mode(), gv.take(i as int)),
        decreases g@.len() - i,
    {
        assert(gv.take(i + 1).drop_last() =~= gv.take(i as int));
        emit(b, c, &g[i]);
        i = i + 1;
        assert(b@ =~= start + emit_all(c.spec_mode(), gv.take(i as int)));
    }
    assert(gv.take(i as int) =~= gv);
}

fn groups_text(b: &mut Vec<char>, c: &Palette, langs: &LangTable)
    requires
        dim_total(langs.go_code.lines) <= usize::MAX,
        dim_total(langs.go_test.lines) <= usize::MAX,
        dim_total(langs.py_code.lines) <= usize::MAX,
        dim_total(langs.py_test.lines) <= usize::MAX,
        dim_total(langs.other.lines) <= usize::MAX,
        pair_fits(langs.go_code, langs.go_test),
        pair_fits(langs.py_code, langs.py_test),
    ensures
        final(b)@ == old(b)@ + spec_groups_text(c.spec_mode(), *langs),
{
    let m = max_of(
        max_of(
            max_of(
                max_of(lang_total(&langs.go_code), lang_total(&langs.go_test)),
                lang_total(&langs.py_code),
            ),
            lang_total(&langs.py_test),
        ),
        lang_total(&langs.other),
    );
    assert(m == scale_max(*langs));
    let go = pair_group("Go", &langs.go_code, &langs.go_test, m);
    let py = pair_group("Python", &langs.py_code, &langs.py_test, m);
    let other = other_group(&langs.other, m);
    if go.len() == 0 && py.len() == 0 && other.len() == 0 {
        let mut cells: Cells = Vec::new();
        cells.push(lit_cell(" (无变更)", Ink::Faint));
        assert(cells_view(cells@) =~= seq![(" (无变更)"@, Ink::Faint)]);
        emit(b, c, &cells);
    } else {
        emit_group(b, c, &go, true);
        emit_group(b, c, &py, go.len() == 0);
        emit_group(b, c, &other, go.len() == 0 && py.len() == 0);
        assert(b@ =~= old(b)@ + spec_groups_text(c.spec_mode(), *langs));
    }
}

fn totals_text(b: &mut Vec<char>, c: &Palette, rep: &Report)
    requires
        file_count(rep@) <= usize::MAX,
        sum_fits(rep.code, rep.test),
        sum_fits(spec_sum_dim(rep.code, rep.test), rep.other),
    ensures
        final(b)@ == old(b)@ + spec_totals_text(c.spec_mode(), rep@),
{
    let n_files = rep.files.added + rep.files.deleted + rep.files.modified;
    let ct = sum_dim(&rep.code, &rep.test);
    let total = sum_dim(&ct, &rep.other);
    let l1 = str_chars("总计(行)");
    emit(b, c, &row(l1.as_slice(), Ink::Head, Some(n_files), &total, 0, true));
    let l2 = str_chars("文件(个)");
    emit(b, c, &row(l2.as_slice(), Ink::Head, None, &rep.files, 0, false));
    assert(b@ =~= old(b)@ + spec_totals_text(c.spec_mode(), rep@));
}

/// Contents of a list of character vectors.
pub open spec fn parts_view(v: Seq<Vec<char>>) -> Seq<Seq<char>> {
    v.map_values(|x: Vec<char>| x@)
}

/// Appends the parts joined by `sep`.
pub fn push_joined(b: &mut Vec<char>, parts: &Vec<Vec<char>>, sep: char)
    ensures
        final(b)@ == old(b)@ + join(parts_view(parts@), seq![sep]),
{
    let ghost pv = parts_view(parts@);
    let ghost start = b@;
    let mut i: usize = 0;
    assert(pv.take(0) =~= Seq::<Seq<char>>::empty());
    while i < parts.len()
        invariant
            pv == parts_view(parts@),
            i <= parts@.len(),
            b@ == start + join(pv.take(i as int), seq![sep]),
        decreases parts@.len() - i,
    {
        assert(pv.take(i + 1).drop_last() =~= pv.take(i as int));
        if i > 0 {
            b.push(sep);
        }
        push_chars(b, parts[i].as_slice());
        i = i + 1;
        if i == 1 {
            assert(b@ =~= start + join(pv.take(i as int), seq![sep]));
        } else {
            assert(b@ =~= start + join(pv.take(i as int), seq![sep]));
        }
    }
    assert(pv.take(i as int) =~= pv);
}

fn push_part(parts: &mut Vec<Vec<char>>, p: Vec<char>)
    ensures
        parts_view(final(parts)@) == parts_view(old(parts)@).push(p@),
{
    let ghost before = parts@;
    parts.push(p);
    assert(parts_view(parts@) =~= parts_view(before).push(p@));
}

fn signed_count(c: &Palette, ink: Ink, sign: char, n: usize) -> (r: Vec<char>)
    ensures
        r@ == spec_paint(c.spec_mode(), ink, seq![sign] + dec(n as nat)),
{
    let mut t: Vec<char> = Vec::new();
    t.push(sign);
    push_dec(&mut t, n);
    assert(t@ =~= seq![sign] + dec(n as nat));
    c.paint(ink, t.as_slice())
}

fn file_line_of(b: &mut Vec<char>, c: &Palette, r: &crate::collect::FileRow)
    ensures
        final(b)@ == old(b)@ + file_line(c.spec_mode(), r@),
{
    let ghost mode = c.spec_mode();
    let status = str_chars(r.status.as_str());
    let path = str_chars(r.path.as_str());
    let (dir, base): (Vec<char>, Vec<char>) = match rsplit_once_lit(path.as_slice(), "/") {
        Some((d, f)) => {
            let mut dd = d;
            dd.push('/');
            (dd, f)
        },
        None => (Vec::new(), path),
    };
    assert(dir@ =~= dir_base(r@.path).0);
    assert(base@ =~= dir_base(r@.path).1);
    let parts = file_parts_of(c, r);
    let ghost start = b@;
    b.push(' ');
    b.push(' ');
    b.push(' ');
    let ps = c.paint(Ink::Title, status.as_slice());
    push_chars(b, ps.as_slice());
    b.push(' ');
    assert(b@ =~= start + seq![' ', ' ', ' '] + spec_paint(mode, Ink::Title, r@.status) + seq![' ']);
    let ghost s1 = b@;
    let pd = c.paint(Ink::Faint, dir.as_slice());
    push_chars(b, pd.as_slice());
    push_chars(b, base.as_slice());
    b.push(' ');
    b.push(' ');
    assert(b@ =~= s1 + spec_paint(mode, Ink::Faint, dir_base(r@.path).0) + dir_base(r@.path).1
        + seq![' ', ' ']);
    let ghost s2 = b@;
    push_joined(b, &parts, ' ');
    b.push('\n');
    assert(b@ =~= s2 + join(file_parts(mode, r@), seq![' ']) + seq!['\n']);
    assert(b@ =~= start + file_line(mode, r@));
}

fn file_parts_of(c: &Palette, r: &crate::collect::FileRow) -> (parts: Vec<Vec<char>>)
    ensures
        parts_view(parts@) == file_parts(c.spec_mode(), r@),
{
    let ghost mode = c.spec_mode();
    let mut parts: Vec<Vec<char>> = Vec::new();
    assert(parts_view(parts@) =~= Seq::<Seq<char>>::empty());
    let ghost ga = if r.stat.added > 0 {
        seq![spec_paint(mode, Ink::Add, seq!['+'] + dec(r.stat.added as nat))]
    } else {
        Seq::empty()
    };
    let ghost gd = if r.stat.deleted > 0 {
        seq![spec_paint(mode, Ink::Del, seq!['-'] + dec(r.stat.deleted as nat))]
    } else {
        Seq::empty()
    };
    let ghost gm = if r.stat.modified > 0 {
        seq![spec_paint(mode, Ink::Mod, seq!['~'] + dec(r.stat.modified as nat))]
    } else {
        Seq::empty()
    };
    let ghost gb = if r.stat.binary {
        seq![spec_paint(mode, Ink::Faint, "二进制"@)]
    } else {
        Seq::empty()
    };
    if r.stat.added > 0 {
        push_part(&mut parts, signed_count(c, Ink::Add, '+', r.stat.added));
    }
    assert(parts_view(parts@) =~= ga);
    if r.stat.deleted > 0 {
        push_part(&mut parts, signed_count(c, Ink::Del, '-', r.stat.deleted));
    }
    assert(parts_view(parts@) =~= ga + gd);
    if r.stat.modified > 0 {
        push_part(&mut parts, signed_count(c, Ink::Mod, '~', r.stat.modified));
    }
    assert(parts_view(parts@) =~= ga + gd + gm);
    if r.stat.binary {
        let bin = str_chars("二进制");
        push_part(&mut parts, c.paint(Ink::Faint, bin.as_slice()));
    }
    assert(parts_view(parts@) =~= ga + gd + gm + gb);
    parts
}

/// Appends the top-files section (the ten files with the most changed
/// lines).
pub fn render_files(b: &mut Vec<char>, rep: &Report, c: &Palette)
    requires
        rows_fit(rep@.rows),
    ensures
        final(b)@ == old(b)@ + spec_files_text(c.spec_mode(), rep@, top_order_of(rep@.rows)),
{
    let ghost mode = c.spec_mode();
    let top = rep.top_files();
    let ghost idx = top_order_of(rep@.rows);
    let ghost start = b@;
    b.push(' ');
    let h = str_chars("变更最大的文件:");
    let ph = c.paint(Ink::Faint, h.as_slice());
    push_chars(b, ph.as_slice());
    b.push('\n');
    assert(b@ =~= start + seq![' '] + spec_paint(mode, Ink::Faint, "变更最大的文件:"@) + seq!['\n']);
    let ghost head = b@;
    let n: usize = if top.len() < 10 {
        top.len()
    } else {
        10
    };
    let mut k: usize = 0;
    while k < n
        invariant
            is_top_order(rep@.rows, idx),
            top@.len() == idx.len(),
            forall|m: int| 0 <= m < idx.len() ==> (#[trigger] top@[m])@ == rep@.rows[idx[m] as int],
            n <= top@.len(),
            k <= n,
            mode == c.spec_mode(),
            b@ == head + file_lines(mode, rep@.rows, idx, k as int),
        decreases n - k,
    {
        let r: &crate::collect::FileRow = top[k];
        assert(r@ == rep@.rows[idx[k as int] as int]);
        file_line_of(b, c, r);
        k = k + 1;
        assert(b@ =~= head + file_lines(mode, rep@.rows, idx, k as int));
    }
    assert(top@.len() == rep@.rows.len());
    assert(b@ =~= start + spec_files_text(mode, rep@, idx));
}

/// Renders the terminal report.
pub fn render(rep: &Report, c: &Palette, verbose: bool) -> (res: String)
    requires
        render_fits(rep@, verbose),
    ensures
        res@ == spec_render(rep@, c.spec_mode(), verbose, top_order_of(rep@.rows)),
{
    let ghost mode = c.spec_mode();
    let mut b: Vec<char> = Vec::new();
    title_line(&mut b, c, rep);
    heavy(&mut b, c);
    header_line(&mut b, c);
    heavy(&mut b, c);
    groups_text(&mut b, c, &rep.by_lang);
    heavy(&mut b, c);
    totals_text(&mut b, c, rep);
    heavy(&mut b, c);
    if verbose {
        render_files(&mut b, rep, c);
    }
    assert(b@ =~= spec_render(rep@, mode, verbose, top_order_of(rep@.rows)));
    chars_to_string(b.as_slice())
}

/// Whether every sum the terminal report takes stays in `usize`.
pub fn render_ok(rep: &Report, verbose: bool) -> (r: bool)
    ensures
        r == render_fits(rep@, verbose),
{
    let m = usize::MAX;
    let f = &rep.files;
    if f.added > m - f.deleted || f.added + f.deleted > m - f.modified {
        return false;
    }
    let langs = [
        rep.by_lang.go_code,
        rep.by_lang.go_test,
        rep.by_lang.py_code,
        rep.by_lang.py_test,
        rep.by_lang.other,
    ];
    let mut i: usize = 0;
    while i < 5
        invariant
            i <= 5,
            langs@ == seq![
                rep.by_lang.go_code,
                rep.by_lang.go_test,
                rep.by_lang.py_code,
                rep.by_lang.py_test,
                rep.by_lang.other,
            ],
            forall|j: int| 0 <= j < i ==> dim_total(#[trigger] langs@[j].lines) <= usize::MAX,
        decreases 5 - i,
    {
        let d = langs[i].lines;
        if d.added > usize::MAX - d.deleted || d.added + d.deleted > usize::MAX - d.modified {
            return false;
        }
        i = i + 1;
    }
    assert(dim_total(langs@[0].lines) <= usize::MAX);
    assert(dim_total(langs@[1].lines) <= usize::MAX);
    assert(dim_total(langs@[2].lines) <= usize::MAX);
    assert(dim_total(langs@[3].lines) <= usize::MAX);
    assert(dim_total(langs@[4].lines) <= usize::MAX);
    if !pair_ok(&rep.by_lang.go_code, &rep.by_lang.go_test) || !pair_ok(
        &rep.by_lang.py_code,
        &rep.by_lang.py_test,
    ) {
        return false;
    }
    if !sum_ok(&rep.code, &rep.test) {
        return false;
    }
    let ct = sum_dim(&rep.code, &rep.test);
    if !sum_ok(&ct, &rep.other) {
        return false;
    }
    if verbose {
        rows_ok(rep)
    } else {
        true
    }
}

fn sum_ok(a: &Dim, b: &Dim) -> (r: bool)
    ensures
        r == sum_fits(*a, *b),
{
    a.added <= usize::MAX - b.added && a.deleted <= usize::MAX - b.deleted && a.modified
        <= usize::MAX - b.modified
}

fn pair_ok(code: &LangStat, test: &LangStat) -> (r: bool)
    ensures
        r == pair_fits(*code, *test),
{
    if has_changes(code) && has_changes(test) {
        code.files <= usize::MAX - test.files && sum_ok(&code.lines, &test.lines)
    } else {
        true
    }
}

/// Whether every file row's changed-line total fits in `usize`.
pub fn rows_ok(rep: &Report) -> (r: bool)
    ensures
        r == rows_fit(rep@.rows),
{
    let mut i: usize = 0;
    while i < rep.file_rows.len()
        invariant
            i <= rep.file_rows@.len(),
            forall|j: int| 0 <= j < i ==> row_total(#[trigger] rep@.rows[j]) <= usize::MAX,
        decreases rep.file_rows@.len() - i,
    {
        let s = &rep.file_rows[i].stat;
        assert(rep@.rows[i as int] == rep.file_rows@[i as int]@);
        if s.added > usize::MAX - s.deleted || s.added + s.deleted > usize::MAX - s.modified {
            return false;
        }
        i = i + 1;
    }
    true
}

} // verus!
