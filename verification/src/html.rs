//! Self-contained HTML report (no external resources, light and dark
//! themes).
//!
//! Bar segments are separated by gaps and every number is printed next to
//! them, with a table view as well, so colour is never the only cue.
use vstd::prelude::*;

use crate::classify::{Cat, cat_name};
use crate::collect::{
    Dim, LangTable, Report, ReportView, RowView, dim_is_empty, is_top_order, rows_fit, top_order_of,
};
use crate::term::{dim_total, spec_meta, file_count, join, parts_view};
use crate::text::{chars_to_string, dec, push_chars, push_dec, push_str, str_chars};

verus! {

/// The report's stylesheet: light and dark themes, no external resources.
pub const CSS: &'static str = r#"
:root {
  --bg: #fcfcfb; --card: #ffffff; --ink: #1f2328; --ink2: #59636e; --ink3: #818b98;
  --line: #d9dee3; --add: #116329; --del: #f05252; --mod: #0969da;
  --add-soft: #dcefe1; --del-soft: #fde3e1; --mod-soft: #dceafb;
}
@media (prefers-color-scheme: dark) { :root {
  --bg: #1a1a19; --card: #22232a; --ink: #e6e9ec; --ink2: #9aa4af; --ink3: #6e7681;
  --line: #3a3f45; --add: #1c7833; --del: #e5665c; --mod: #4493f8;
  --add-soft: #20301f; --del-soft: #3a2523; --mod-soft: #1e2c42;
} }
:root[data-theme="dark"] {
  --bg: #1a1a19; --card: #22232a; --ink: #e6e9ec; --ink2: #9aa4af; --ink3: #6e7681;
  --line: #3a3f45; --add: #1c7833; --del: #e5665c; --mod: #4493f8;
  --add-soft: #20301f; --del-soft: #3a2523; --mod-soft: #1e2c42;
}
:root[data-theme="light"] {
  --bg: #fcfcfb; --card: #ffffff; --ink: #1f2328; --ink2: #59636e; --ink3: #818b98;
  --line: #d9dee3; --add: #116329; --del: #f05252; --mod: #0969da;
  --add-soft: #dcefe1; --del-soft: #fde3e1; --mod-soft: #dceafb;
}
* { box-sizing: border-box; }
body {
  margin: 0; background: var(--bg); color: var(--ink);
  font: 15px/1.6 -apple-system, "Segoe UI", "PingFang SC", "Noto Sans CJK SC",
        "Microsoft YaHei", Roboto, sans-serif;
}
main { max-width: 880px; margin: 0 auto; padding: 40px 24px 64px; }
h1 { font-size: 21px; margin: 0 0 4px; letter-spacing: .2px; }
h1 code { font: 600 18px/1 ui-monospace, "SFMono-Regular", Consolas, monospace;
  background: var(--card); border: 1px solid var(--line); border-radius: 6px; padding: 2px 8px; }
.meta { color: var(--ink2); font-size: 13px; margin-bottom: 28px; }
.tiles { display: flex; gap: 14px; flex-wrap: wrap; margin-bottom: 30px; }
.tile { flex: 1 1 140px; background: var(--card); border: 1px solid var(--line);
  border-radius: 10px; padding: 14px 18px 12px; }
.tile .num { font-size: 30px; font-weight: 650; font-variant-numeric: tabular-nums; }
.tile .lbl { font-size: 13px; color: var(--ink2); display: flex; align-items: center; gap: 7px; }
.dot { width: 10px; height: 10px; border-radius: 3px; display: inline-block; }
.dot.add { background: var(--add); } .dot.del { background: var(--del); } .dot.mod { background: var(--mod); }
section { background: var(--card); border: 1px solid var(--line); border-radius: 12px;
  padding: 22px 24px; margin-bottom: 22px; }
h2 { font-size: 15px; margin: 0 0 16px; color: var(--ink); font-weight: 650; }
.legend { display: flex; gap: 18px; font-size: 12.5px; color: var(--ink2);
  margin: 0 0 18px; align-items: center; }
.legend span { display: inline-flex; align-items: center; gap: 6px; }
.dimrow { display: grid; grid-template-columns: 120px 1fr; gap: 8px 16px;
  align-items: center; padding: 9px 0; }
.dimrow + .dimrow { border-top: 1px solid var(--line); }
.dimrow .name { font-weight: 600; font-size: 14px; }
.barline { display: flex; align-items: center; gap: 12px; min-width: 0; }
.bar { display: flex; height: 12px; border-radius: 4px; overflow: hidden;
  gap: 2px; flex: 0 0 auto; }
.seg { height: 100%; min-width: 4px; }
.seg.add { background: var(--add); } .seg.del { background: var(--del); } .seg.mod { background: var(--mod); }
.seg:hover { filter: brightness(1.18); }
.nums { font-size: 13px; color: var(--ink2); white-space: nowrap;
  font-variant-numeric: tabular-nums; display: flex; gap: 10px; }
.nums b { color: var(--ink); font-weight: 600; }
.chip { display: inline-flex; align-items: center; gap: 6px; border-radius: 6px;
  padding: 2px 10px; font-size: 13px; font-variant-numeric: tabular-nums; }
.chip.add { background: var(--add-soft); } .chip.del { background: var(--del-soft); }
.chip.mod { background: var(--mod-soft); }
.tablewrap { overflow-x: auto; }
table { border-collapse: collapse; width: 100%; font-size: 13.5px; }
th { text-align: left; color: var(--ink2); font-weight: 600; font-size: 12.5px;
  padding: 6px 10px; border-bottom: 1px solid var(--line); white-space: nowrap; }
td { padding: 6px 10px; border-bottom: 1px solid var(--line);
  font-variant-numeric: tabular-nums; }
tr:last-child td { border-bottom: none; }
tr:hover td { background: color-mix(in srgb, var(--line) 26%, transparent); }
td.path { font-family: ui-monospace, "SFMono-Regular", Consolas, monospace; font-size: 12.5px;
  word-break: break-all; }
td.n { text-align: right; white-space: nowrap; }
.st { font: 600 11px/1 ui-monospace, monospace; border: 1px solid var(--line);
  border-radius: 4px; padding: 2px 5px; color: var(--ink2); }
.cat { color: var(--ink3); font-size: 12px; white-space: nowrap; }
.minibar { display: flex; height: 6px; border-radius: 3px; overflow: hidden; gap: 2px;
  min-width: 60px; max-width: 140px; }
footer { color: var(--ink3); font-size: 12px; margin-top: 26px; }
"#;

/// Colour legend of the bars.
pub const LEGEND: &'static str = r#"<div class="legend"><span><i class="dot add"></i>新增</span><span><i class="dot del"></i>删除</span><span><i class="dot mod"></i>修改</span></div>"#;

// Fragments of the markup.
pub const SEG_OPEN: &'static str = r#"<i class="seg "#;
pub const SEG_STYLE: &'static str = r#"" style="width:"#;
pub const SEG_TITLE: &'static str = r#"px" title=""#;
pub const SEG_CLOSE: &'static str = r#""></i>"#;
pub const MINI_SEG_CLOSE: &'static str = r#"px"></i>"#;
pub const NUM_OPEN: &'static str = r#"<span>"#;
pub const NUM_B: &'static str = r#" <b>"#;
pub const NUM_B_CLOSE: &'static str = r#"</b> "#;
pub const SPAN_CLOSE: &'static str = r#"</span>"#;
pub const BAR_OPEN: &'static str = r#"<div class="barline"><div class="bar">"#;
pub const BAR_MID: &'static str = r#"</div><div class="nums">"#;
pub const BAR_CLOSE: &'static str = r#"</div></div>"#;
pub const CHIP_OPEN: &'static str = r#"<span class="chip "#;
pub const CHIP_DOT: &'static str = r#""><i class="dot "#;
pub const CHIP_LABEL: &'static str = r#""></i>"#;
pub const CHIP_VAL: &'static str = r#" <b>&nbsp;"#;
pub const CHIP_UNIT: &'static str = r#"</b>&nbsp;"#;
pub const CHIPS_OPEN: &'static str = r#"<div class="barline" style="gap:8px;flex-wrap:wrap">"#;
pub const DIV_CLOSE: &'static str = r#"</div>"#;
pub const TILE_OPEN: &'static str = r#"<div class="tile"><div class="num">"#;
pub const TILE_DOT: &'static str = r#"</div><div class="lbl"><i class="dot "#;
pub const TILE_LABEL: &'static str = r#""></i>"#;
pub const TILE_CLOSE: &'static str = r#"(行)</div></div>"#;
pub const DIMROW_OPEN: &'static str = r#"<div class="dimrow"><div class="name">"#;
pub const LANG_OPEN: &'static str = r#"<section><h2>按语言</h2>"#;
pub const SECTION_CLOSE: &'static str = r#"</section>"#;
pub const TR_OPEN: &'static str = r#"<tr><td><span class="st">"#;
pub const TD_PATH: &'static str = r#"</span></td><td class="path">"#;
pub const TD_CAT: &'static str = r#"</td><td class="cat">"#;
pub const TD_N: &'static str = r#"</td><td class="n">"#;
pub const TD_MINI: &'static str = r#"</td><td>"#;
pub const TR_CLOSE: &'static str = r#"</td></tr>"#;
pub const MINI_OPEN: &'static str = r#"<div class="minibar">"#;
pub const BINARY_CELL: &'static str = r#"<span class="cat">二进制</span>"#;
pub const DOC_HEAD: &'static str = r#"<meta charset="utf-8">
<meta name="viewport" content="width=device-width, initial-scale=1">
<title>Numeria · "#;
pub const DOC_STYLE: &'static str = r#"</title>
<style>"#;
pub const DOC_MAIN: &'static str = r#"</style>
<main>
<h1>变更统计 <code>"#;
pub const DOC_META: &'static str = r#"</code></h1>
<div class="meta">"#;
pub const DOC_TILES: &'static str = r#"</div>
<div class="tiles">"#;
pub const DOC_DIMS: &'static str = r#"</div>
<section><h2>维度总览</h2>"#;
pub const DOC_AFTER_DIMS: &'static str = r#"</section>
"#;
pub const DOC_FILES: &'static str = r#"
<section><h2>文件明细</h2><div class="tablewrap">
<table><thead><tr><th></th><th>路径</th><th>类别</th><th>行数</th><th></th></tr></thead>
<tbody>"#;
pub const DOC_END: &'static str = r#"</tbody></table>
</div></section>
<footer>Numeria · 修改行 = 同一 hunk 内成对的删除/新增(min 配对),余量计为纯增/纯删</footer>
</main>"#;

/// `s` if `b`, else nothing.
pub open spec fn when(b: bool, s: Seq<char>) -> Seq<char> {
    if b {
        s
    } else {
        Seq::empty()
    }
}

/// HTML escape of one character.
pub open spec fn esc_char(c: char) -> Seq<char> {
    if c == '&' {
        "&amp;"@
    } else if c == '<' {
        "&lt;"@
    } else if c == '>' {
        "&gt;"@
    } else if c == '"' {
        "&quot;"@
    } else {
        seq![c]
    }
}

/// `s` with `& < > "` escaped.
pub open spec fn spec_escape(s: Seq<char>) -> Seq<char>
    decreases s.len(),
{
    if s.len() == 0 {
        Seq::empty()
    } else {
        spec_escape(s.drop_last()) + esc_char(s.last())
    }
}

/// Appends `s` with `& < > "` escaped.
pub fn push_escaped(b: &mut Vec<char>, s: &[char])
    ensures
        final(b)@ == old(b)@ + spec_escape(s@),
{
    let ghost start = b@;
    let mut i: usize = 0;
    assert(s@.take(0) =~= Seq::<char>::empty());
    while i < s.len()
        invariant
            i <= s@.len(),
            b@ == start + spec_escape(s@.take(i as int)),
        decreases s@.len() - i,
    {
        let c = s[i];
        if c == '&' {
            push_str(b, "&amp;");
        } else if c == '<' {
            push_str(b, "&lt;");
        } else if c == '>' {
            push_str(b, "&gt;");
        } else if c == '"' {
            push_str(b, "&quot;");
        } else {
            b.push(c);
        }
        assert(s@.take(i + 1).drop_last() =~= s@.take(i as int));
        i = i + 1;
        assert(b@ =~= start + spec_escape(s@.take(i as int)));
    }
    assert(s@.take(i as int) =~= s@);
}

/// HTML-escapes `& < > "`.
pub fn escape(s: &str) -> (r: String)
    ensures
        r@ == spec_escape(s@),
{
    let c = str_chars(s);
    let mut b: Vec<char> = Vec::new();
    push_escaped(&mut b, c.as_slice());
    chars_to_string(b.as_slice())
}

/// Class, label and value of the three segments of a dimension.
pub open spec fn spec_seg_vals(d: Dim) -> Seq<(Seq<char>, Seq<char>, usize)> {
    seq![("add"@, "新增"@, d.added), ("del"@, "删除"@, d.deleted), ("mod"@, "修改"@, d.modified)]
}

/// Class, label and value of the three segments of a dimension.
pub fn seg_vals(d: &Dim) -> (r: [(&'static str, &'static str, usize); 3])
    ensures
        r@.len() == 3,
        forall|i: int| 0 <= i < 3 ==> (r@[i].0@, r@[i].1@, r@[i].2) == spec_seg_vals(*d)[i],
{
    [("add", "新增", d.added), ("del", "删除", d.deleted), ("mod", "修改", d.modified)]
}

/// Pixel widths of the three bar segments.
#[derive(Debug, Clone, Copy, PartialEq, Eq, Structural)]
pub struct SegWidths {
    pub add: usize,
    pub del: usize,
    pub md: usize,
}

/// Pixel widths of every bar of the report: computed outside the library
/// from the scales `scale_bases` gives.
pub struct HtmlWidths {
    pub code: SegWidths,
    pub test: SegWidths,
    pub other: SegWidths,
    pub go_code: SegWidths,
    pub py_code: SegWidths,
    pub go_test: SegWidths,
    pub py_test: SegWidths,
    /// One per file row, in the report's row order.
    pub files: Vec<SegWidths>,
}

/// Contents of the bar widths.
pub struct WidthsView {
    pub code: SegWidths,
    pub test: SegWidths,
    pub other: SegWidths,
    pub go_code: SegWidths,
    pub py_code: SegWidths,
    pub go_test: SegWidths,
    pub py_test: SegWidths,
    pub files: Seq<SegWidths>,
}

impl View for HtmlWidths {
    type V = WidthsView;

    open spec fn view(&self) -> WidthsView {
        WidthsView {
            code: self.code,
            test: self.test,
            other: self.other,
            go_code: self.go_code,
            py_code: self.py_code,
            go_test: self.go_test,
            py_test: self.py_test,
            files: self.files@,
        }
    }
}

/// One bar segment with its tooltip.
pub open spec fn bar_seg(class: Seq<char>, label: Seq<char>, val: usize, w: usize, unit: Seq<char>) -> Seq<char> {
    SEG_OPEN@ + class + SEG_STYLE@ + dec(w as nat) + SEG_TITLE@ + label + seq![' '] + dec(val as nat)
        + seq![' '] + unit + SEG_CLOSE@
}

/// One printed number of a bar.
pub open spec fn bar_num(label: Seq<char>, val: usize, unit: Seq<char>) -> Seq<char> {
    NUM_OPEN@ + label + NUM_B@ + dec(val as nat) + NUM_B_CLOSE@ + unit + SPAN_CLOSE@
}

/// A ratio bar with the numbers beside it; zero segments are left out.
#[verifier::opaque]
pub open spec fn spec_bar(d: Dim, w: SegWidths, unit: Seq<char>) -> Seq<char> {
    let v = spec_seg_vals(d);
    let segs = when(v[0].2 != 0, bar_seg(v[0].0, v[0].1, v[0].2, w.add, unit)) + when(
        v[1].2 != 0,
        bar_seg(v[1].0, v[1].1, v[1].2, w.del, unit),
    ) + when(v[2].2 != 0, bar_seg(v[2].0, v[2].1, v[2].2, w.md, unit));
    let nums = when(v[0].2 != 0, bar_num(v[0].1, v[0].2, unit)) + when(
        v[1].2 != 0,
        bar_num(v[1].1, v[1].2, unit),
    ) + when(v[2].2 != 0, bar_num(v[2].1, v[2].2, unit));
    BAR_OPEN@ + segs + BAR_MID@ + nums + BAR_CLOSE@
}

fn push_bar_seg(
    segs: &mut Vec<char>,
    nums: &mut Vec<char>,
    class: &str,
    label: &str,
    val: usize,
    w: usize,
    unit: &str,
)
    ensures
        final(segs)@ == old(segs)@ + when(val != 0, bar_seg(class@, label@, val, w, unit@)),
        final(nums)@ == old(nums)@ + when(val != 0, bar_num(label@, val, unit@)),
{
    if val != 0 {
        push_str(segs, SEG_OPEN);
        push_str(segs, class);
        push_str(segs, SEG_STYLE);
        push_dec(segs, w);
        push_str(segs, SEG_TITLE);
        push_str(segs, label);
        segs.push(' ');
        push_dec(segs, val);
        segs.push(' ');
        push_str(segs, unit);
        push_str(segs, SEG_CLOSE);
        push_str(nums, NUM_OPEN);
        push_str(nums, label);
        push_str(nums, NUM_B);
        push_dec(nums, val);
        push_str(nums, NUM_B_CLOSE);
        push_str(nums, unit);
        push_str(nums, SPAN_CLOSE);
        assert(segs@ =~= old(segs)@ + bar_seg(class@, label@, val, w, unit@));
        assert(nums@ =~= old(nums)@ + bar_num(label@, val, unit@));
    } else {
        assert(segs@ =~= old(segs)@ + Seq::<char>::empty());
        assert(nums@ =~= old(nums)@ + Seq::<char>::empty());
    }
}

/// Ratio bar with printed numbers; segment widths are given in pixels.
pub fn bar(d: &Dim, w: &SegWidths, unit: &str) -> (r: Vec<char>)
    ensures
        r@ == spec_bar(*d, *w, unit@),
{
    reveal(spec_bar);
    let vals = seg_vals(d);
    let mut segs: Vec<char> = Vec::new();
    let mut nums: Vec<char> = Vec::new();
    push_bar_seg(&mut segs, &mut nums, vals[0].0, vals[0].1, vals[0].2, w.add, unit);
    push_bar_seg(&mut segs, &mut nums, vals[1].0, vals[1].1, vals[1].2, w.del, unit);
    push_bar_seg(&mut segs, &mut nums, vals[2].0, vals[2].1, vals[2].2, w.md, unit);
    let mut out: Vec<char> = Vec::new();
    push_str(&mut out, BAR_OPEN);
    push_chars(&mut out, segs.as_slice());
    push_str(&mut out, BAR_MID);
    push_chars(&mut out, nums.as_slice());
    push_str(&mut out, BAR_CLOSE);
    assert(out@ =~= spec_bar(*d, *w, unit@));
    out
}

/// One chip of a count.
pub open spec fn chip(class: Seq<char>, label: Seq<char>, val: usize, unit: Seq<char>) -> Seq<char> {
    CHIP_OPEN@ + class + CHIP_DOT@ + class + CHIP_LABEL@ + label + CHIP_VAL@ + dec(val as nat)
        + CHIP_UNIT@ + unit + SPAN_CLOSE@
}

/// Count chips (no bar); zero counts are left out.
#[verifier::opaque]
pub open spec fn spec_chips(d: Dim, unit: Seq<char>) -> Seq<char> {
    let v = spec_seg_vals(d);
    CHIPS_OPEN@ + when(v[0].2 != 0, chip(v[0].0, v[0].1, v[0].2, unit)) + when(
        v[1].2 != 0,
        chip(v[1].0, v[1].1, v[1].2, unit),
    ) + when(v[2].2 != 0, chip(v[2].0, v[2].1, v[2].2, unit)) + DIV_CLOSE@
}

fn push_chip(out: &mut Vec<char>, class: &str, label: &str, val: usize, unit: &str)
    ensures
        final(out)@ == old(out)@ + when(val != 0, chip(class@, label@, val, unit@)),
{
    if val != 0 {
        push_str(out, CHIP_OPEN);
        push_str(out, class);
        push_str(out, CHIP_DOT);
        push_str(out, class);
        push_str(out, CHIP_LABEL);
        push_str(out, label);
        push_str(out, CHIP_VAL);
        push_dec(out, val);
        push_str(out, CHIP_UNIT);
        push_str(out, unit);
        push_str(out, SPAN_CLOSE);
        assert(out@ =~= old(out)@ + chip(class@, label@, val, unit@));
    } else {
        assert(out@ =~= old(out)@ + Seq::<char>::empty());
    }
}

/// Count chips; zero counts are left out.
pub fn chips(d: &Dim, unit: &str) -> (r: Vec<char>)
    ensures
        r@ == spec_chips(*d, unit@),
{
    reveal(spec_chips);
    let vals = seg_vals(d);
    let mut out: Vec<char> = Vec::new();
    push_str(&mut out, CHIPS_OPEN);
    push_chip(&mut out, vals[0].0, vals[0].1, vals[0].2, unit);
    push_chip(&mut out, vals[1].0, vals[1].1, vals[1].2, unit);
    push_chip(&mut out, vals[2].0, vals[2].1, vals[2].2, unit);
    push_str(&mut out, DIV_CLOSE);
    assert(out@ =~= spec_chips(*d, unit@));
    out
}

/// A summary tile.
pub open spec fn tile(class: Seq<char>, label: Seq<char>, val: int) -> Seq<char> {
    TILE_OPEN@ + dec(val as nat) + TILE_DOT@ + class + TILE_LABEL@ + label + TILE_CLOSE@
}

/// Total of a field over the three line dimensions.
pub open spec fn total_added(rep: ReportView) -> int {
    rep.code.added + rep.test.added + rep.other.added
}

/// Total deleted lines.
pub open spec fn total_deleted(rep: ReportView) -> int {
    rep.code.deleted + rep.test.deleted + rep.other.deleted
}

/// Total modified lines.
pub open spec fn total_modified(rep: ReportView) -> int {
    rep.code.modified + rep.test.modified + rep.other.modified
}

/// Tiles of the nonzero totals.
pub open spec fn spec_tiles(rep: ReportView) -> Seq<char> {
    when(total_added(rep) != 0, tile("add"@, "总新增"@, total_added(rep))) + when(
        total_deleted(rep) != 0,
        tile("del"@, "总删除"@, total_deleted(rep)),
    ) + when(total_modified(rep) != 0, tile("mod"@, "总修改"@, total_modified(rep)))
}

/// A named row of the overview.
#[verifier::opaque]
pub open spec fn dimrow(name: Seq<char>, inner: Seq<char>) -> Seq<char> {
    DIMROW_OPEN@ + name + DIV_CLOSE@ + inner + DIV_CLOSE@
}

/// Overview rows: code, test and other lines (when nonzero) and the files.
pub open spec fn spec_dim_rows(rep: ReportView, w: WidthsView) -> Seq<char> {
    when(!dim_is_empty(rep.code), dimrow("代码"@, spec_bar(rep.code, w.code, "行"@))) + when(
        !dim_is_empty(rep.test),
        dimrow("测试代码"@, spec_bar(rep.test, w.test, "行"@)),
    ) + when(!dim_is_empty(rep.other), dimrow("其他非代码"@, spec_bar(rep.other, w.other, "行"@)))
        + when(!dim_is_empty(rep.files), dimrow("文件"@, spec_chips(rep.files, "个"@)))
}

/// One language row, when it has changed lines.
pub open spec fn lang_row(c: Cat, langs: LangTable, w: SegWidths) -> Seq<char> {
    when(
        !dim_is_empty(langs.at(c).lines),
        dimrow(spec_escape(cat_name(c)), spec_bar(langs.at(c).lines, w, "行"@)),
    )
}

/// The per-language section: Go, Python, Go tests, Python tests; left out
/// when none has changed lines.
pub open spec fn spec_lang_section(rep: ReportView, w: WidthsView) -> Seq<char> {
    let rows = lang_row(Cat::GoCode, rep.by_lang, w.go_code) + lang_row(
        Cat::PyCode,
        rep.by_lang,
        w.py_code,
    ) + lang_row(Cat::GoTest, rep.by_lang, w.go_test) + lang_row(Cat::PyTest, rep.by_lang, w.py_test);
    if rows.len() == 0 {
        Seq::empty()
    } else {
        LANG_OPEN@ + LEGEND@ + rows + SECTION_CLOSE@
    }
}

/// A segment of a file's mini bar.
pub open spec fn mini_seg(class: Seq<char>, w: usize) -> Seq<char> {
    SEG_OPEN@ + class + SEG_STYLE@ + dec(w as nat) + MINI_SEG_CLOSE@
}

/// A file's mini bar; a binary file without line counts says so instead.
#[verifier::opaque]
pub open spec fn spec_mini(r: RowView, w: SegWidths) -> Seq<char> {
    if r.stat.added != 0 || r.stat.deleted != 0 || r.stat.modified != 0 {
        MINI_OPEN@ + when(r.stat.added != 0, mini_seg("add"@, w.add)) + when(
            r.stat.deleted != 0,
            mini_seg("del"@, w.del),
        ) + when(r.stat.modified != 0, mini_seg("mod"@, w.md)) + DIV_CLOSE@
    } else if r.stat.binary {
        BINARY_CELL@
    } else {
        Seq::empty()
    }
}

/// A file's counts: `+added −deleted ~modified`, zero counts left out.
pub open spec fn file_nums(r: RowView) -> Seq<Seq<char>> {
    (if r.stat.added > 0 { seq![seq!['+'] + dec(r.stat.added as nat)] } else { Seq::empty() })
        + (if r.stat.deleted > 0 { seq![seq!['−'] + dec(r.stat.deleted as nat)] } else { Seq::empty() })
        + (if r.stat.modified > 0 { seq![seq!['~'] + dec(r.stat.modified as nat)] } else { Seq::empty() })
}

/// A row of the file table.
pub open spec fn file_row(r: RowView, w: SegWidths) -> Seq<char> {
    TR_OPEN@ + spec_escape(r.status) + TD_PATH@ + spec_escape(r.path) + TD_CAT@ + spec_escape(
        cat_name(r.cat),
    ) + TD_N@ + join(file_nums(r), seq![' ']) + TD_MINI@ + spec_mini(r, w) + TR_CLOSE@
}

/// Rows of the first `n` files in the order `idx`.
pub open spec fn file_rows(rows: Seq<RowView>, ws: Seq<SegWidths>, idx: Seq<usize>, n: int) -> Seq<char>
    decreases n,
{
    if n <= 0 {
        Seq::empty()
    } else {
        file_rows(rows, ws, idx, n - 1) + file_row(rows[idx[n - 1] as int], ws[idx[n - 1] as int])
    }
}

/// The HTML report with the given bar widths, files in the order `idx`.
pub open spec fn spec_render(rep: ReportView, w: WidthsView, idx: Seq<usize>) -> Seq<char> {
    DOC_HEAD@ + spec_escape(rep.range_spec) + DOC_STYLE@ + CSS@ + DOC_MAIN@ + spec_escape(
        rep.range_spec,
    ) + DOC_META@ + spec_meta(rep) + DOC_TILES@ + spec_tiles(rep) + DOC_DIMS@ + LEGEND@
        + spec_dim_rows(rep, w) + DOC_AFTER_DIMS@ + spec_lang_section(rep, w) + DOC_FILES@
        + file_rows(rep.rows, w.files, idx, rep.rows.len() as int) + DOC_END@
}

/// Every sum the HTML report takes stays in `usize`, and there is one set of
/// widths per file.
pub open spec fn html_fits(rep: ReportView, w: WidthsView) -> bool {
    html_sums_fit(rep) && w.files.len() == rep.rows.len()
}

/// Every sum the HTML report takes stays in `usize`.
pub open spec fn html_sums_fit(rep: ReportView) -> bool {
    &&& total_added(rep) <= usize::MAX
    &&& total_deleted(rep) <= usize::MAX
    &&& total_modified(rep) <= usize::MAX
    &&& file_count(rep) <= usize::MAX
    &&& dim_total(rep.code) <= usize::MAX
    &&& dim_total(rep.test) <= usize::MAX
    &&& dim_total(rep.other) <= usize::MAX
    &&& rows_fit(rep.rows)
}

fn push_tile(out: &mut Vec<char>, class: &str, label: &str, val: usize)
    ensures
        final(out)@ == old(out)@ + when(val != 0, tile(class@, label@, val as int)),
{
    if val != 0 {
        push_str(out, TILE_OPEN);
        push_dec(out, val);
        push_str(out, TILE_DOT);
        push_str(out, class);
        push_str(out, TILE_LABEL);
        push_str(out, label);
        push_str(out, TILE_CLOSE);
        assert(out@ =~= old(out)@ + tile(class@, label@, val as int));
    } else {
        assert(out@ =~= old(out)@ + Seq::<char>::empty());
    }
}

fn push_dimrow(out: &mut Vec<char>, show: bool, name: &[char], inner: &[char])
    ensures
        final(out)@ == old(out)@ + when(show, dimrow(name@, inner@)),
{
    reveal(dimrow);
    if show {
        push_str(out, DIMROW_OPEN);
        push_chars(out, name);
        push_str(out, DIV_CLOSE);
        push_chars(out, inner);
        push_str(out, DIV_CLOSE);
        assert(out@ =~= old(out)@ + dimrow(name@, inner@));
    } else {
        assert(out@ =~= old(out)@ + Seq::<char>::empty());
    }
}

fn push_line_dim(out: &mut Vec<char>, name: &str, d: &Dim, w: &SegWidths)
    ensures
        final(out)@ == old(out)@ + when(!dim_is_empty(*d), dimrow(name@, spec_bar(*d, *w, "行"@))),
{
    let n = str_chars(name);
    let b = bar(d, w, "行");
    push_dimrow(out, !d.is_empty(), n.as_slice(), b.as_slice());
}

fn push_lang_row(out: &mut Vec<char>, c: Cat, langs: &LangTable, w: &SegWidths)
    ensures
        final(out)@ == old(out)@ + lang_row(c, *langs, *w),
{
    let l = langs.get(c);
    let name = str_chars(c.name());
    let mut esc: Vec<char> = Vec::new();
    push_escaped(&mut esc, name.as_slice());
    let b = bar(&l.lines, w, "行");
    push_dimrow(out, !l.lines.is_empty(), esc.as_slice(), b.as_slice());
}

fn push_mini_seg(out: &mut Vec<char>, class: &str, val: usize, w: usize)
    ensures
        final(out)@ == old(out)@ + when(val != 0, mini_seg(class@, w)),
{
    if val != 0 {
        push_str(out, SEG_OPEN);
        push_str(out, class);
        push_str(out, SEG_STYLE);
        push_dec(out, w);
        push_str(out, MINI_SEG_CLOSE);
        assert(out@ =~= old(out)@ + mini_seg(class@, w));
    } else {
        assert(out@ =~= old(out)@ + Seq::<char>::empty());
    }
}

fn push_num(nums: &mut Vec<Vec<char>>, sign: char, n: usize)
    ensures
        parts_view(final(nums)@) == parts_view(old(nums)@) + (if n > 0 {
            seq![seq![sign] + dec(n as nat)]
        } else {
            Seq::empty()
        }),
{
    let ghost before = nums@;
    if n > 0 {
        let mut t: Vec<char> = Vec::new();
        t.push(sign);
        push_dec(&mut t, n);
        nums.push(t);
    }
    assert(parts_view(nums@) =~= parts_view(before) + (if n > 0 {
        seq![seq![sign] + dec(n as nat)]
    } else {
        Seq::empty()
    }));
}

fn push_mini(out: &mut Vec<char>, r: &crate::collect::FileRow, w: &SegWidths)
    ensures
        final(out)@ == old(out)@ + spec_mini(r@, *w),
{
    reveal(spec_mini);
    if r.stat.added != 0 || r.stat.deleted != 0 || r.stat.modified != 0 {
        push_str(out, MINI_OPEN);
        push_mini_seg(out, "add", r.stat.added, w.add);
        push_mini_seg(out, "del", r.stat.deleted, w.del);
        push_mini_seg(out, "mod", r.stat.modified, w.md);
        push_str(out, DIV_CLOSE);
    } else if r.stat.binary {
        push_str(out, BINARY_CELL);
    }
    assert(out@ =~= old(out)@ + spec_mini(r@, *w));
}

fn push_file_row(out: &mut Vec<char>, r: &crate::collect::FileRow, w: &SegWidths)
    ensures
        final(out)@ == old(out)@ + file_row(r@, *w),
{
    let ghost start = out@;
    push_str(out, TR_OPEN);
    let st = str_chars(r.status.as_str());
    push_escaped(out, st.as_slice());
    push_str(out, TD_PATH);
    let p = str_chars(r.path.as_str());
    push_escaped(out, p.as_slice());
    push_str(out, TD_CAT);
    let cn = str_chars(r.cat.name());
    push_escaped(out, cn.as_slice());
    push_str(out, TD_N);
    assert(out@ =~= start + TR_OPEN@ + spec_escape(r@.status) + TD_PATH@ + spec_escape(r@.path)
        + TD_CAT@ + spec_escape(cat_name(r@.cat)) + TD_N@);
    let ghost s1 = out@;
    let mut nums: Vec<Vec<char>> = Vec::new();
    assert(parts_view(nums@) =~= Seq::<Seq<char>>::empty());
    push_num(&mut nums, '+', r.stat.added);
    push_num(&mut nums, '−', r.stat.deleted);
    push_num(&mut nums, '~', r.stat.modified);
    assert(parts_view(nums@) =~= file_nums(r@));
    crate::term::push_joined(out, &nums, ' ');
    push_str(out, TD_MINI);
    assert(out@ =~= s1 + join(file_nums(r@), seq![' ']) + TD_MINI@);
    push_mini(out, r, w);
    push_str(out, TR_CLOSE);
    assert(out@ =~= start + file_row(r@, *w));
}

/// The document up to the summary tiles.
pub open spec fn doc_head(rep: ReportView) -> Seq<char> {
    DOC_HEAD@ + spec_escape(rep.range_spec) + DOC_STYLE@ + CSS@ + DOC_MAIN@ + spec_escape(
        rep.range_spec,
    ) + DOC_META@ + spec_meta(rep) + DOC_TILES@
}

fn push_head(b: &mut Vec<char>, rep: &Report)
    requires
        file_count(rep@) <= usize::MAX,
    ensures
        final(b)@ == old(b)@ + doc_head(rep@),
{
    let ghost s0 = b@;
    let range = str_chars(rep.range_spec.as_str());
    push_str(b, DOC_HEAD);
    push_escaped(b, range.as_slice());
    push_str(b, DOC_STYLE);
    push_str(b, CSS);
    push_str(b, DOC_MAIN);
    push_escaped(b, range.as_slice());
    push_str(b, DOC_META);
    let ghost s1 = b@;
    assert(s1 =~= s0 + DOC_HEAD@ + spec_escape(rep@.range_spec) + DOC_STYLE@ + CSS@ + DOC_MAIN@
        + spec_escape(rep@.range_spec) + DOC_META@);
    if rep.commits > 0 {
        push_dec(b, rep.commits);
        push_str(b, " 个提交");
        push_str(b, " · ");
    }
    let n_files = rep.files.added + rep.files.deleted + rep.files.modified;
    push_dec(b, n_files);
    push_str(b, " 个文件变更");
    assert(b@ =~= s1 + spec_meta(rep@));
    push_str(b, DOC_TILES);
    assert(b@ =~= s0 + doc_head(rep@));
}

fn push_tiles(b: &mut Vec<char>, rep: &Report)
    requires
        total_added(rep@) <= usize::MAX,
        total_deleted(rep@) <= usize::MAX,
        total_modified(rep@) <= usize::MAX,
    ensures
        final(b)@ == old(b)@ + spec_tiles(rep@) + DOC_DIMS@ + LEGEND@,
{
    let ta = rep.code.added + rep.test.added + rep.other.added;
    let td = rep.code.deleted + rep.test.deleted + rep.other.deleted;
    let tm = rep.code.modified + rep.test.modified + rep.other.modified;
    push_tile(b, "add", "总新增", ta);
    push_tile(b, "del", "总删除", td);
    push_tile(b, "mod", "总修改", tm);
    push_str(b, DOC_DIMS);
    push_str(b, LEGEND);
    assert(b@ =~= old(b)@ + spec_tiles(rep@) + DOC_DIMS@ + LEGEND@);
}

fn push_dims(b: &mut Vec<char>, rep: &Report, widths: &HtmlWidths)
    ensures
        final(b)@ == old(b)@ + spec_dim_rows(rep@, widths@) + DOC_AFTER_DIMS@,
{
    push_line_dim(b, "代码", &rep.code, &widths.code);
    push_line_dim(b, "测试代码", &rep.test, &widths.test);
    push_line_dim(b, "其他非代码", &rep.other, &widths.other);
    let fname = str_chars("文件");
    let ch = chips(&rep.files, "个");
    push_dimrow(b, !rep.files.is_empty(), fname.as_slice(), ch.as_slice());
    push_str(b, DOC_AFTER_DIMS);
    assert(b@ =~= old(b)@ + spec_dim_rows(rep@, widths@) + DOC_AFTER_DIMS@);
}

fn push_langs(b: &mut Vec<char>, rep: &Report, widths: &HtmlWidths)
    ensures
        final(b)@ == old(b)@ + spec_lang_section(rep@, widths@) + DOC_FILES@,
{
    let mut langs: Vec<char> = Vec::new();
    push_lang_row(&mut langs, Cat::GoCode, &rep.by_lang, &widths.go_code);
    push_lang_row(&mut langs, Cat::PyCode, &rep.by_lang, &widths.py_code);
    push_lang_row(&mut langs, Cat::GoTest, &rep.by_lang, &widths.go_test);
    push_lang_row(&mut langs, Cat::PyTest, &rep.by_lang, &widths.py_test);
    if langs.len() > 0 {
        push_str(b, LANG_OPEN);
        push_str(b, LEGEND);
        push_chars(b, langs.as_slice());
        push_str(b, SECTION_CLOSE);
    }
    push_str(b, DOC_FILES);
    assert(b@ =~= old(b)@ + spec_lang_section(rep@, widths@) + DOC_FILES@);
}

fn push_files(b: &mut Vec<char>, rep: &Report, widths: &HtmlWidths)
    requires
        rows_fit(rep@.rows),
        widths@.files.len() == rep@.rows.len(),
    ensures
        final(b)@ == old(b)@ + file_rows(
            rep@.rows,
            widths@.files,
            top_order_of(rep@.rows),
            rep@.rows.len() as int,
        ),
{
    let ghost r = rep@;
    let ghost s4 = b@;
    let idx = rep.top_order();
    let n = idx.len();
    let mut k: usize = 0;
    while k < n
        invariant
            is_top_order(r.rows, idx@),
            r == rep@,
            n == idx@.len(),
            widths@.files.len() == r.rows.len(),
            k <= n,
            b@ == s4 + file_rows(r.rows, widths@.files, idx@, k as int),
        decreases n - k,
    {
        let i = idx[k];
        assert(r.rows[i as int] == rep.file_rows@[i as int]@);
        push_file_row(b, &rep.file_rows[i], &widths.files[i]);
        k = k + 1;
        assert(b@ =~= s4 + file_rows(r.rows, widths@.files, idx@, k as int));
    }
}

/// Renders the self-contained HTML report; `widths` holds the bar widths in
/// pixels (one set per file row, in row order).
pub fn render(rep: &Report, widths: &HtmlWidths) -> (res: String)
    requires
        html_fits(rep@, widths@),
    ensures
        res@ == spec_render(rep@, widths@, top_order_of(rep@.rows)),
{
    let ghost r = rep@;
    let mut b: Vec<char> = Vec::new();
    push_head(&mut b, rep);
    push_tiles(&mut b, rep);
    push_dims(&mut b, rep, widths);
    push_langs(&mut b, rep, widths);
    push_files(&mut b, rep, widths);
    push_str(&mut b, DOC_END);
    assert(b@ =~= spec_render(r, widths@, top_order_of(r.rows)));
    chars_to_string(b.as_slice())
}

/// The two bar scales: the largest line-dimension total (at least 1), for
/// bars of 320 px at most, and the largest file total (at least 1), for
/// mini bars of 140 px at most.
pub open spec fn spec_scale_bases(rep: ReportView) -> (int, int) {
    let m = crate::term::max2(crate::term::max2(dim_total(rep.code), dim_total(rep.test)), dim_total(rep.other));
    (crate::term::max2(m, 1), crate::term::max2(max_row_total(rep.rows, rep.rows.len() as int), 1))
}

/// Largest changed-line total among the first `n` rows (0 for none).
pub open spec fn max_row_total(rows: Seq<RowView>, n: int) -> int
    decreases n,
{
    if n <= 0 {
        0
    } else {
        crate::term::max2(max_row_total(rows, n - 1), crate::collect::row_total(rows[n - 1]))
    }
}

/// The divisors of the bar scales (see `spec_scale_bases`).
pub fn scale_bases(rep: &Report) -> (r: (usize, usize))
    requires
        html_sums_fit(rep@),
    ensures
        (r.0 as int, r.1 as int) == spec_scale_bases(rep@),
{
    let c = rep.code.added + rep.code.deleted + rep.code.modified;
    let t = rep.test.added + rep.test.deleted + rep.test.modified;
    let o = rep.other.added + rep.other.deleted + rep.other.modified;
    let mut m = if c >= t { c } else { t };
    if o > m {
        m = o;
    }
    if m < 1 {
        m = 1;
    }
    let mut f: usize = 0;
    let mut i: usize = 0;
    while i < rep.file_rows.len()
        invariant
            i <= rep.file_rows@.len(),
            rows_fit(rep@.rows),
            f == max_row_total(rep@.rows, i as int),
        decreases rep.file_rows@.len() - i,
    {
        assert(rep@.rows[i as int] == rep.file_rows@[i as int]@);
        let t = rep.file_rows[i].stat.total();
        if t > f {
            f = t;
        }
        i = i + 1;
    }
    if f < 1 {
        f = 1;
    }
    (m, f)
}

/// Whether three counts sum within `usize`.
fn sum3_ok(a: usize, b: usize, c: usize) -> (r: bool)
    ensures
        r == (a + b + c <= usize::MAX),
{
    a <= usize::MAX - b && a + b <= usize::MAX - c
}

/// Whether every sum the HTML report takes stays in `usize`.
pub fn html_ok(rep: &Report) -> (r: bool)
    ensures
        r == html_sums_fit(rep@),
{
    sum3_ok(rep.code.added, rep.test.added, rep.other.added) && sum3_ok(
        rep.code.deleted,
        rep.test.deleted,
        rep.other.deleted,
    ) && sum3_ok(rep.code.modified, rep.test.modified, rep.other.modified) && sum3_ok(
        rep.files.added,
        rep.files.deleted,
        rep.files.modified,
    ) && sum3_ok(rep.code.added, rep.code.deleted, rep.code.modified) && sum3_ok(
        rep.test.added,
        rep.test.deleted,
        rep.test.modified,
    ) && sum3_ok(rep.other.added, rep.other.deleted, rep.other.modified)
        && crate::term::rows_ok(rep)
}

} // verus!
