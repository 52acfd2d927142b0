//! Aggregation of git's outputs into per-dimension statistics.
//!
//! Totals of added and deleted lines follow `--numstat` (git's canonical
//! count); the `-U0` hunk pairing only decides the "modified" share, capped
//! to the numstat counts, so the totals agree with `git diff --numstat`.
use vstd::prelude::*;

use crate::classify::{Cat, classify_chars, spec_classify};
use crate::diff::{
    FileStat, parse_diff_checked, parse_diff_fits, spec_parse_diff, zero_stat,
};
use crate::pathmap::PathMap;
use crate::text::{
    chars_to_string, contains, contains_lit, eq_lit, lines, parse_usize, parse_usize_chars,
    split_char, split_chars, split_lines, split_once, split_once_char, str_chars, sub_chars, trim,
    trim_chars, views, lemma_split_nonempty,
};

verus! {

/// Added / deleted / modified counts of one dimension (lines or files).
#[derive(Debug, Clone, Copy, PartialEq, Eq, Structural)]
pub struct Dim {
    pub added: usize,
    pub deleted: usize,
    pub modified: usize,
}

/// The all-zero dimension.
pub open spec fn zero_dim() -> Dim {
    Dim { added: 0, deleted: 0, modified: 0 }
}

impl Default for Dim {
    fn default() -> (r: Self)
        ensures
            r == zero_dim(),
    {
        Dim { added: 0, deleted: 0, modified: 0 }
    }
}

/// Adding a file's counts keeps every field in `usize`.
pub open spec fn dim_add_fits(d: Dim, s: FileStat) -> bool {
    d.added + s.added <= usize::MAX && d.deleted + s.deleted <= usize::MAX && d.modified
        + s.modified <= usize::MAX
}

/// A dimension with a file's counts added.
pub open spec fn dim_add(d: Dim, s: FileStat) -> Dim {
    Dim {
        added: (d.added + s.added) as usize,
        deleted: (d.deleted + s.deleted) as usize,
        modified: (d.modified + s.modified) as usize,
    }
}

/// All three counts are zero.
pub open spec fn dim_is_empty(d: Dim) -> bool {
    d.added == 0 && d.deleted == 0 && d.modified == 0
}

impl Dim {
    /// Whether all three counts are zero.
    pub fn is_empty(&self) -> (r: bool)
        ensures
            r == dim_is_empty(*self),
    {
        self.added == 0 && self.deleted == 0 && self.modified == 0
    }

    /// Adds a file's line counts.
    pub fn add(&mut self, s: &FileStat)
        requires
            dim_add_fits(*old(self), *s),
        ensures
            *final(self) == dim_add(*old(self), *s),
    {
        self.added = self.added + s.added;
        self.deleted = self.deleted + s.deleted;
        self.modified = self.modified + s.modified;
    }
}

/// Aggregate of one language category: line counts and changed files.
#[derive(Debug, Clone, Copy, PartialEq, Eq, Structural)]
pub struct LangStat {
    pub lines: Dim,
    pub files: usize,
}

/// The empty language aggregate.
pub open spec fn zero_lang() -> LangStat {
    LangStat { lines: zero_dim(), files: 0 }
}

impl Default for LangStat {
    fn default() -> (r: Self)
        ensures
            r == zero_lang(),
    {
        LangStat { lines: Dim::default(), files: 0 }
    }
}

/// Per-category aggregates; a category with no files has the empty aggregate.
#[derive(Debug, Clone, Copy, PartialEq, Eq, Structural)]
pub struct LangTable {
    pub go_code: LangStat,
    pub py_code: LangStat,
    pub go_test: LangStat,
    pub py_test: LangStat,
    pub other: LangStat,
}

/// The table with every aggregate empty.
pub open spec fn empty_langs() -> LangTable {
    LangTable {
        go_code: zero_lang(),
        py_code: zero_lang(),
        go_test: zero_lang(),
        py_test: zero_lang(),
        other: zero_lang(),
    }
}

impl LangTable {
    /// The aggregate of category `c`.
    pub open spec fn at(self, c: Cat) -> LangStat {
        match c {
            Cat::GoCode => self.go_code,
            Cat::PyCode => self.py_code,
            Cat::GoTest => self.go_test,
            Cat::PyTest => self.py_test,
            Cat::Other => self.other,
        }
    }

    /// The table with the aggregate of `c` replaced.
    pub open spec fn with(self, c: Cat, v: LangStat) -> LangTable {
        LangTable {
            go_code: if c == Cat::GoCode { v } else { self.go_code },
            py_code: if c == Cat::PyCode { v } else { self.py_code },
            go_test: if c == Cat::GoTest { v } else { self.go_test },
            py_test: if c == Cat::PyTest { v } else { self.py_test },
            other: if c == Cat::Other { v } else { self.other },
        }
    }

    /// An empty table.
    pub fn new() -> (r: LangTable)
        ensures
            r == empty_langs(),
    {
        LangTable {
            go_code: LangStat::default(),
            py_code: LangStat::default(),
            go_test: LangStat::default(),
            py_test: LangStat::default(),
            other: LangStat::default(),
        }
    }

    /// The aggregate of category `c` (empty when it has no files).
    pub fn get(&self, c: Cat) -> (r: LangStat)
        ensures
            r == self.at(c),
    {
        match c {
            Cat::GoCode => self.go_code,
            Cat::PyCode => self.py_code,
            Cat::GoTest => self.go_test,
            Cat::PyTest => self.py_test,
            Cat::Other => self.other,
        }
    }

    /// Replaces the aggregate of `c`.
    pub fn set(&mut self, c: Cat, v: LangStat)
        ensures
            *final(self) == old(self).with(c, v),
    {
        match c {
            Cat::GoCode => self.go_code = v,
            Cat::PyCode => self.py_code = v,
            Cat::GoTest => self.go_test = v,
            Cat::PyTest => self.py_test = v,
            Cat::Other => self.other = v,
        }
    }
}

/// One row of the file table.
pub struct FileRow {
    /// First letter of git's status (A/D/M/R/T/C).
    pub status: String,
    pub path: String,
    pub cat: Cat,
    pub stat: FileStat,
}

/// Contents of a file row.
pub struct RowView {
    pub status: Seq<char>,
    pub path: Seq<char>,
    pub cat: Cat,
    pub stat: FileStat,
}

impl View for FileRow {
    type V = RowView;

    open spec fn view(&self) -> RowView {
        RowView { status: self.status@, path: self.path@, cat: self.cat, stat: self.stat }
    }
}

/// The complete result of one run.
pub struct Report {
    pub range_spec: String,
    /// 0 = not applicable (working tree comparison).
    pub commits: usize,
    /// Go and Python, excluding tests.
    pub code: Dim,
    pub test: Dim,
    pub other: Dim,
    /// File counts: added / deleted / modified.
    pub files: Dim,
    pub by_lang: LangTable,
    pub file_rows: Vec<FileRow>,
}

/// Contents of a report.
pub struct ReportView {
    pub range_spec: Seq<char>,
    pub commits: usize,
    pub code: Dim,
    pub test: Dim,
    pub other: Dim,
    pub files: Dim,
    pub by_lang: LangTable,
    pub rows: Seq<RowView>,
}

/// The views of file rows.
pub open spec fn row_views(rows: Seq<FileRow>) -> Seq<RowView> {
    rows.map_values(|r: FileRow| r@)
}

impl View for Report {
    type V = ReportView;

    open spec fn view(&self) -> ReportView {
        ReportView {
            range_spec: self.range_spec@,
            commits: self.commits,
            code: self.code,
            test: self.test,
            other: self.other,
            files: self.files,
            by_lang: self.by_lang,
            rows: row_views(self.file_rows@),
        }
    }
}

// ---------------------------------------------------------------------------
// numstat
// ---------------------------------------------------------------------------

/// Added, deleted, binary.
pub type NumStat = (usize, usize, bool);

/// A count as numstat gives it; anything that does not parse (`-`) is 0.
pub open spec fn count_or_zero(s: Seq<char>) -> usize {
    match parse_usize(s) {
        Some(n) => n,
        None => 0,
    }
}

/// The entry of a record with fields `a` and `d`.
pub open spec fn numstat_entry(a: Seq<char>, d: Seq<char>) -> NumStat {
    (count_or_zero(a), count_or_zero(d), a == "-"@)
}

/// Reads numstat records from token `i` on: `A\tD\tpath`, or `A\tD\t`
/// followed by the old and the new path as two more tokens (a rename, keyed
/// by the new path). Empty tokens and tokens without a tab are skipped.
pub open spec fn numstat_from(toks: Seq<Seq<char>>, i: int, m: Map<Seq<char>, NumStat>) -> Map<
    Seq<char>,
    NumStat,
>
    decreases toks.len() - i,
{
    if i < 0 || i >= toks.len() {
        m
    } else {
        let tok = toks[i];
        if tok.len() == 0 {
            numstat_from(toks, i + 1, m)
        } else {
            match split_once(tok, '\t') {
                None => numstat_from(toks, i + 1, m),
                Some((a, rest)) => {
                    let d = match split_once(rest, '\t') {
                        Some((d, _)) => d,
                        None => rest,
                    };
                    let entry = numstat_entry(a, d);
                    match split_once(rest, '\t') {
                        Some((_, p)) if p.len() > 0 => numstat_from(toks, i + 1, m.insert(p, entry)),
                        _ => if i + 2 < toks.len() {
                            numstat_from(toks, i + 3, m.insert(toks[i + 2], entry))
                        } else {
                            m
                        },
                    }
                },
            }
        }
    }
}

/// Path to numstat entry for `git diff --numstat -z -M` output.
pub open spec fn spec_parse_numstat(text: Seq<char>) -> Map<Seq<char>, NumStat> {
    numstat_from(split_char(text, '\0'), 0, Map::empty())
}

/// A numstat count field.
fn count_or_zero_of(s: &[char]) -> (r: usize)
    ensures
        r == count_or_zero(s@),
{
    match parse_usize_chars(s) {
        Some(n) => n,
        None => 0,
    }
}

/// Parses `git diff --numstat -z -M` output. Plain records are `A\tD\tpath\0`;
/// renames are `A\tD\t\0old\0new\0` and are keyed by the new path.
pub fn parse_numstat(text: &str) -> (res: PathMap<NumStat>)
    ensures
        res.wf(),
        res.view() == spec_parse_numstat(text@),
{
    let chars = str_chars(text);
    let toks = split_chars(chars.as_slice(), '\0');
    let ghost tv = split_char(text@, '\0');
    let mut out: PathMap<NumStat> = PathMap::new();
    let mut i: usize = 0;
    while i < toks.len()
        invariant
            views(toks@) == tv,
            tv == split_char(text@, '\0'),
            i <= toks@.len(),
            out.wf(),
            numstat_from(tv, i as int, out.view()) == spec_parse_numstat(text@),
        decreases toks@.len() - i,
    {
        let tok = toks[i].as_slice();
        assert(tok@ == tv[i as int]);
        if tok.len() == 0 {
            i = i + 1;
            continue;
        }
        let (a, rest) = match split_once_char(tok, '\t') {
            Some(p) => p,
            None => {
                i = i + 1;
                continue;
            },
        };
        let second = split_once_char(rest.as_slice(), '\t');
        let d: Vec<char> = match &second {
            Some((d, _)) => sub_chars(d.as_slice(), 0, d.len()),
            None => sub_chars(rest.as_slice(), 0, rest.len()),
        };
        assert(d@ =~= (match split_once(rest@, '\t') {
            Some((d, _)) => d,
            None => rest@,
        }));
        let entry: NumStat = (
            count_or_zero_of(a.as_slice()),
            count_or_zero_of(d.as_slice()),
            eq_lit(a.as_slice(), "-"),
        );
        let third: Option<Vec<char>> = match second {
            Some((_, p)) => if p.len() > 0 {
                Some(p)
            } else {
                None
            },
            None => None,
        };
        match third {
            Some(p) => {
                out.insert(p, entry);
                i = i + 1;
            },
            None => {
                if toks.len() - i > 2 {
                    let p = sub_chars(toks[i + 2].as_slice(), 0, toks[i + 2].len());
                    assert(p@ =~= tv[i + 2]);
                    out.insert(p, entry);
                    i = i + 3;
                } else {
                    return out;
                }
            },
        }
    }
    out
}

// ---------------------------------------------------------------------------
// Aggregation
// ---------------------------------------------------------------------------

/// Status and path of a `--name-status` line: the first character of the
/// first field, and the last field (the new path of a rename); `None` for a
/// line with fewer than two fields.
pub open spec fn ns_fields(line: Seq<char>) -> Option<(Seq<char>, Seq<char>)> {
    let parts = split_char(line, '\t');
    if parts.len() < 2 {
        None
    } else {
        Some((parts[0].take(1), parts.last()))
    }
}

/// A line whose status can be read: fewer than two fields, or a first field
/// that starts with a one-byte (ASCII) character.
pub open spec fn ns_line_ok(line: Seq<char>) -> bool {
    let parts = split_char(line, '\t');
    parts.len() < 2 || (parts[0].len() > 0 && (parts[0][0] as u32) < 128)
}

/// Statistics after numstat: the modified share from hunk pairing, capped to
/// numstat's counts; added and deleted are numstat's counts minus it.
pub open spec fn adjust(stat: FileStat, ns: Option<NumStat>) -> FileStat {
    match ns {
        Some((a, d, bin)) => {
            let m1 = if stat.modified <= a {
                stat.modified
            } else {
                a
            };
            let m = if m1 <= d {
                m1
            } else {
                d
            };
            FileStat {
                added: (a - m) as usize,
                deleted: (d - m) as usize,
                modified: m,
                binary: stat.binary || bin,
            }
        },
        None => stat,
    }
}

/// Go or Python code (not tests).
pub open spec fn is_code(c: Cat) -> bool {
    c == Cat::GoCode || c == Cat::PyCode
}

/// Go or Python tests.
pub open spec fn is_test(c: Cat) -> bool {
    c == Cat::GoTest || c == Cat::PyTest
}

/// File counts after one more file with `status`: `A` added, `D` deleted,
/// anything else (M/R/T/C) modified.
pub open spec fn count_file(files: Dim, status: Seq<char>) -> Dim {
    if status == "A"@ {
        Dim { added: (files.added + 1) as usize, deleted: files.deleted, modified: files.modified }
    } else if status == "D"@ {
        Dim { added: files.added, deleted: (files.deleted + 1) as usize, modified: files.modified }
    } else {
        Dim { added: files.added, deleted: files.deleted, modified: (files.modified + 1) as usize }
    }
}

/// Counting one more file stays in `usize`.
pub open spec fn count_file_fits(files: Dim, status: Seq<char>) -> bool {
    if status == "A"@ {
        files.added + 1 <= usize::MAX
    } else if status == "D"@ {
        files.deleted + 1 <= usize::MAX
    } else {
        files.modified + 1 <= usize::MAX
    }
}

/// Aggregation state over the `--name-status` lines.
pub struct Acc {
    /// Diff statistics not yet claimed by a file.
    pub stats: Map<Seq<char>, FileStat>,
    pub code: Dim,
    pub test: Dim,
    pub other: Dim,
    pub files: Dim,
    pub by_lang: LangTable,
    pub rows: Seq<RowView>,
}

/// The state before any line.
pub open spec fn init_acc(stats: Map<Seq<char>, FileStat>) -> Acc {
    Acc {
        stats,
        code: zero_dim(),
        test: zero_dim(),
        other: zero_dim(),
        files: zero_dim(),
        by_lang: empty_langs(),
        rows: Seq::empty(),
    }
}

/// A path's statistics: its diff statistics (taken out of the pool; zero
/// when absent), adjusted to its numstat entry.
pub open spec fn file_stat(
    stats: Map<Seq<char>, FileStat>,
    numstat: Map<Seq<char>, NumStat>,
    path: Seq<char>,
) -> FileStat {
    let stat0 = if stats.contains_key(path) {
        stats[path]
    } else {
        zero_stat()
    };
    adjust(
        stat0,
        if numstat.contains_key(path) {
            Some(numstat[path])
        } else {
            None
        },
    )
}

/// One `--name-status` line.
pub open spec fn collect_step(acc: Acc, line: Seq<char>, numstat: Map<Seq<char>, NumStat>) -> Acc {
    match ns_fields(line) {
        None => acc,
        Some((status, path)) => {
            let cat = spec_classify(path);
            let stat = file_stat(acc.stats, numstat, path);
            let ls = acc.by_lang.at(cat);
            Acc {
                stats: acc.stats.remove(path),
                code: if is_code(cat) {
                    dim_add(acc.code, stat)
                } else {
                    acc.code
                },
                test: if is_test(cat) {
                    dim_add(acc.test, stat)
                } else {
                    acc.test
                },
                other: if cat == Cat::Other {
                    dim_add(acc.other, stat)
                } else {
                    acc.other
                },
                files: count_file(acc.files, status),
                by_lang: acc.by_lang.with(
                    cat,
                    LangStat { lines: dim_add(ls.lines, stat), files: (ls.files + 1) as usize },
                ),
                rows: acc.rows.push(RowView { status, path, cat, stat }),
            }
        },
    }
}

/// The step reads its status and keeps every count in `usize`.
pub open spec fn collect_step_ok(acc: Acc, line: Seq<char>, numstat: Map<Seq<char>, NumStat>) -> bool {
    ns_line_ok(line) && match ns_fields(line) {
        None => true,
        Some((status, path)) => {
            let cat = spec_classify(path);
            let stat = file_stat(acc.stats, numstat, path);
            let ls = acc.by_lang.at(cat);
            &&& (is_code(cat) ==> dim_add_fits(acc.code, stat))
            &&& (is_test(cat) ==> dim_add_fits(acc.test, stat))
            &&& (cat == Cat::Other ==> dim_add_fits(acc.other, stat))
            &&& count_file_fits(acc.files, status)
            &&& dim_add_fits(ls.lines, stat)
            &&& ls.files + 1 <= usize::MAX
        },
    }
}

/// State after the lines `ls`.
pub open spec fn collect_fold(ls: Seq<Seq<char>>, init: Acc, numstat: Map<Seq<char>, NumStat>) -> Acc
    decreases ls.len(),
{
    if ls.len() == 0 {
        init
    } else {
        collect_step(collect_fold(ls.drop_last(), init, numstat), ls.last(), numstat)
    }
}

/// Every step over `ls` is fine.
pub open spec fn collect_fold_ok(
    ls: Seq<Seq<char>>,
    init: Acc,
    numstat: Map<Seq<char>, NumStat>,
) -> bool
    decreases ls.len(),
{
    if ls.len() == 0 {
        true
    } else {
        collect_fold_ok(ls.drop_last(), init, numstat) && collect_step_ok(
            collect_fold(ls.drop_last(), init, numstat),
            ls.last(),
            numstat,
        )
    }
}

/// The commit count: `rev-list --count` output (trimmed, parsed; 0 when it
/// does not parse) for a range with `..`; otherwise 0.
pub open spec fn spec_commits(range_spec: Seq<char>, rev_count: Option<Seq<char>>) -> usize {
    if contains(range_spec, ".."@) {
        match rev_count {
            Some(t) => match parse_usize(trim(t)) {
                Some(n) => n,
                None => 0,
            },
            None => 0,
        }
    } else {
        0
    }
}

/// The optional text's characters.
pub open spec fn opt_str_view(o: Option<&str>) -> Option<Seq<char>> {
    match o {
        Some(s) => Some(s@),
        None => None,
    }
}

/// The aggregation state after every `--name-status` line.
pub open spec fn final_acc(diff_text: Seq<char>, ns_text: Seq<char>, numstat_text: Seq<char>) -> Acc {
    collect_fold(
        lines(ns_text),
        init_acc(spec_parse_diff(diff_text)),
        spec_parse_numstat(numstat_text),
    )
}

/// Aggregating these outputs reads every status and keeps every count in
/// `usize`.
pub open spec fn collect_ok(diff_text: Seq<char>, ns_text: Seq<char>, numstat_text: Seq<char>) -> bool {
    parse_diff_fits(diff_text) && collect_fold_ok(
        lines(ns_text),
        init_acc(spec_parse_diff(diff_text)),
        spec_parse_numstat(numstat_text),
    )
}

/// The report for git's outputs on `range_spec`: `-U0` diff text,
/// `--name-status` text, `--numstat -z` text and, where run, the
/// `rev-list --count` output.
pub open spec fn spec_collect(
    range_spec: Seq<char>,
    diff_text: Seq<char>,
    ns_text: Seq<char>,
    numstat_text: Seq<char>,
    rev_count: Option<Seq<char>>,
) -> ReportView {
    let acc = final_acc(diff_text, ns_text, numstat_text);
    ReportView {
        range_spec,
        commits: spec_commits(range_spec, rev_count),
        code: acc.code,
        test: acc.test,
        other: acc.other,
        files: acc.files,
        by_lang: acc.by_lang,
        rows: acc.rows,
    }
}

/// Whether the commit count is asked of git (`rev-list --count`): only for a
/// range with `..`.
pub fn counts_commits(range_spec: &str) -> (r: bool)
    ensures
        r == contains(range_spec@, ".."@),
{
    let c = str_chars(range_spec);
    contains_lit(c.as_slice(), "..")
}

/// Whether adding `s` to `d` stays in `usize`.
fn dim_fits(d: &Dim, s: &FileStat) -> (r: bool)
    ensures
        r == dim_add_fits(*d, *s),
{
    d.added <= usize::MAX - s.added && d.deleted <= usize::MAX - s.deleted && d.modified
        <= usize::MAX - s.modified
}

/// The running aggregation.
struct Tally {
    stats: PathMap<FileStat>,
    code: Dim,
    test: Dim,
    other: Dim,
    files: Dim,
    by_lang: LangTable,
    rows: Vec<FileRow>,
}

impl Tally {
    spec fn view(&self) -> Acc {
        Acc {
            stats: self.stats.view(),
            code: self.code,
            test: self.test,
            other: self.other,
            files: self.files,
            by_lang: self.by_lang,
            rows: row_views(self.rows@),
        }
    }

    /// Takes one `--name-status` line; false when its status cannot be read
    /// or a count would leave `usize`.
    fn take_line(&mut self, line: &[char], numstat: &PathMap<NumStat>) -> (ok: bool)
        requires
            old(self).stats.wf(),
            numstat.wf(),
        ensures
            final(self).stats.wf(),
            ok == collect_step_ok(old(self).view(), line@, numstat.view()),
            ok ==> final(self).view() == collect_step(old(self).view(), line@, numstat.view()),
    {
        let ghost acc = self.view();
        let parts = split_chars(line, '\t');
        proof {
            lemma_split_nonempty(line@, '\t');
        }
        let ghost pv = split_char(line@, '\t');
        if parts.len() < 2 {
            return true;
        }
        let first = parts[0].as_slice();
        assert(first@ == pv[0]);
        if first.len() == 0 || (first[0] as u32) >= 128 {
            return false;
        }
        let status = sub_chars(first, 0, 1);
        assert(status@ =~= pv[0].take(1));
        let last = parts.len() - 1;
        let path = parts[last].as_slice();
        assert(path@ == pv.last());
        let cat = classify_chars(path);
        let stat0 = match self.stats.remove_chars(path) {
            Some(s) => s,
            None => FileStat::default(),
        };
        let stat = match numstat.get_chars(path) {
            Some((a, d, bin)) => {
                let m1 = if stat0.modified <= a {
                    stat0.modified
                } else {
                    a
                };
                let m = if m1 <= d {
                    m1
                } else {
                    d
                };
                FileStat { added: a - m, deleted: d - m, modified: m, binary: stat0.binary || bin }
            },
            None => stat0,
        };
        assert(stat == file_stat(acc.stats, numstat.view(), path@));
        let ls = self.by_lang.get(cat);
        let dim_ok = match cat {
            Cat::GoCode | Cat::PyCode => dim_fits(&self.code, &stat),
            Cat::GoTest | Cat::PyTest => dim_fits(&self.test, &stat),
            Cat::Other => dim_fits(&self.other, &stat),
        };
        let is_a = eq_lit(status.as_slice(), "A");
        let is_d = eq_lit(status.as_slice(), "D");
        let count_ok = if is_a {
            self.files.added < usize::MAX
        } else if is_d {
            self.files.deleted < usize::MAX
        } else {
            self.files.modified < usize::MAX
        };
        if !dim_ok || !count_ok || !dim_fits(&ls.lines, &stat) || ls.files >= usize::MAX {
            return false;
        }
        match cat {
            Cat::GoCode | Cat::PyCode => self.code.add(&stat),
            Cat::GoTest | Cat::PyTest => self.test.add(&stat),
            Cat::Other => self.other.add(&stat),
        }
        let mut nl = ls;
        nl.lines.add(&stat);
        nl.files = nl.files + 1;
        self.by_lang.set(cat, nl);
        if is_a {
            self.files.added = self.files.added + 1;
        } else if is_d {
            self.files.deleted = self.files.deleted + 1;
        } else {
            self.files.modified = self.files.modified + 1;
        }
        let row = FileRow {
            status: chars_to_string(status.as_slice()),
            path: chars_to_string(path),
            cat,
            stat,
        };
        let ghost before = self.rows@;
        self.rows.push(row);
        assert(row_views(self.rows@) =~= row_views(before).push(row@));
        assert(self.view() =~= collect_step(acc, line@, numstat.view()));
        true
    }
}

proof fn lemma_collect_step(ls: Seq<Seq<char>>, init: Acc, numstat: Map<Seq<char>, NumStat>, i: int)
    requires
        0 <= i < ls.len(),
    ensures
        collect_fold(ls.take(i + 1), init, numstat) == collect_step(
            collect_fold(ls.take(i), init, numstat),
            ls[i],
            numstat,
        ),
        collect_fold_ok(ls.take(i + 1), init, numstat) == (collect_fold_ok(ls.take(i), init, numstat)
            && collect_step_ok(collect_fold(ls.take(i), init, numstat), ls[i], numstat)),
{
    assert(ls.take(i + 1).drop_last() =~= ls.take(i));
}

proof fn lemma_collect_ok_prefix(ls: Seq<Seq<char>>, init: Acc, numstat: Map<Seq<char>, NumStat>, k: int)
    requires
        0 <= k <= ls.len(),
        collect_fold_ok(ls, init, numstat),
    ensures
        collect_fold_ok(ls.take(k), init, numstat),
    decreases ls.len() - k,
{
    if k < ls.len() {
        assert(ls.take(k + 1).drop_last() =~= ls.take(k));
        lemma_collect_ok_prefix(ls, init, numstat, k + 1);
    } else {
        assert(ls.take(k) =~= ls);
    }
}

/// Aggregates git's outputs into a report, or `None` where a `--name-status`
/// line has an unreadable status or a count would leave `usize` (where the
/// unchecked aggregation fails).
pub fn collect_checked(
    range_spec: &str,
    diff_text: &str,
    ns_text: &str,
    numstat_text: &str,
    rev_count: Option<&str>,
) -> (res: Option<Report>)
    ensures
        match res {
            Some(r) => collect_ok(diff_text@, ns_text@, numstat_text@) && r@ == spec_collect(
                range_spec@,
                diff_text@,
                ns_text@,
                numstat_text@,
                opt_str_view(rev_count),
            ),
            None => !collect_ok(diff_text@, ns_text@, numstat_text@),
        },
{
    let stats = match parse_diff_checked(diff_text) {
        Some(m) => m,
        None => return None,
    };
    let numstat = parse_numstat(numstat_text);
    let range_chars = str_chars(range_spec);
    let commits: usize = if contains_lit(range_chars.as_slice(), "..") {
        match rev_count {
            Some(t) => {
                let tc = str_chars(t);
                let tt = trim_chars(tc.as_slice());
                match parse_usize_chars(tt.as_slice()) {
                    Some(n) => n,
                    None => 0,
                }
            },
            None => 0,
        }
    } else {
        0
    };
    let mut tally = Tally {
        stats,
        code: Dim::default(),
        test: Dim::default(),
        other: Dim::default(),
        files: Dim::default(),
        by_lang: LangTable::new(),
        rows: Vec::new(),
    };
    let ghost init = init_acc(spec_parse_diff(diff_text@));
    let ghost nsm = spec_parse_numstat(numstat_text@);
    assert(row_views(tally.rows@) =~= Seq::<RowView>::empty());
    assert(tally.view() =~= init);
    let ns_chars = str_chars(ns_text);
    let ls = split_lines(ns_chars.as_slice());
    let ghost lv = lines(ns_text@);
    let mut i: usize = 0;
    assert(lv.take(0) =~= Seq::<Seq<char>>::empty());
    while i < ls.len()
        invariant
            lv == lines(ns_text@),
            views(ls@) == lv,
            init == init_acc(spec_parse_diff(diff_text@)),
            nsm == spec_parse_numstat(numstat_text@),
            numstat.wf(),
            numstat.view() == nsm,
            tally.stats.wf(),
            i <= ls@.len(),
            tally.view() == collect_fold(lv.take(i as int), init, nsm),
            collect_fold_ok(lv.take(i as int), init, nsm),
            parse_diff_fits(diff_text@),
        decreases ls@.len() - i,
    {
        let line = ls[i].as_slice();
        assert(line@ == lv[i as int]);
        proof {
            lemma_collect_step(lv, init, nsm, i as int);
        }
        let ok = tally.take_line(line, &numstat);
        if !ok {
            proof {
                if collect_fold_ok(lv, init, nsm) {
                    lemma_collect_ok_prefix(lv, init, nsm, i + 1);
                }
            }
            return None;
        }
        i = i + 1;
    }
    assert(lv.take(i as int) =~= lv);
    Some(
        Report {
            range_spec: chars_to_string(range_chars.as_slice()),
            commits,
            code: tally.code,
            test: tally.test,
            other: tally.other,
            files: tally.files,
            by_lang: tally.by_lang,
            file_rows: tally.rows,
        },
    )
}

/// Aggregates git's outputs for `range_spec` into a report: the `-U0` diff
/// text, the `--name-status` text, the `--numstat -z` text and, where run
/// (see `counts_commits`), the `rev-list --count` output.
pub fn collect(
    range_spec: &str,
    diff_text: &str,
    ns_text: &str,
    numstat_text: &str,
    rev_count: Option<&str>,
) -> (res: Report)
    requires
        collect_ok(diff_text@, ns_text@, numstat_text@),
    ensures
        res@ == spec_collect(
            range_spec@,
            diff_text@,
            ns_text@,
            numstat_text@,
            opt_str_view(rev_count),
        ),
{
    match collect_checked(range_spec, diff_text, ns_text, numstat_text, rev_count) {
        Some(r) => r,
        None => vstd::pervasive::unreached(),
    }
}

// ---------------------------------------------------------------------------
// File ranking
// ---------------------------------------------------------------------------

/// Changed lines of a row.
pub open spec fn row_total(r: RowView) -> int {
    r.stat.added + r.stat.deleted + r.stat.modified
}

/// Every row's changed-line total fits in `usize`.
pub open spec fn rows_fit(rows: Seq<RowView>) -> bool {
    forall|i: int| 0 <= i < rows.len() ==> row_total(#[trigger] rows[i]) <= usize::MAX
}

/// Row `a` ranks before row `b`: more changed lines, or as many and earlier
/// in git's order.
pub open spec fn ranks_before(rows: Seq<RowView>, a: int, b: int) -> bool {
    row_total(rows[a]) > row_total(rows[b]) || (row_total(rows[a]) == row_total(rows[b]) && a < b)
}

/// `idx` lists every row once, by changed lines descending, ties in git's
/// order (a stable sort).
pub open spec fn is_top_order(rows: Seq<RowView>, idx: Seq<usize>) -> bool {
    &&& idx.len() == rows.len()
    &&& forall|k: int| 0 <= k < idx.len() ==> idx[k] < rows.len()
    &&& forall|k: int, l: int|
        0 <= k < l < idx.len() ==> ranks_before(rows, #[trigger] idx[k] as int, #[trigger] idx[l] as int)
}

/// The ranking of the rows: every index once, by changed lines
/// descending, ties in git's order (`law_top_order_unique` shows that no
/// other sequence meets `is_top_order`).
pub open spec fn top_order_of(rows: Seq<RowView>) -> Seq<usize> {
    choose|idx: Seq<usize>| is_top_order(rows, idx)
}

impl Report {
    /// Indices of the rows, by changed lines descending, ties in git's order.
    pub fn top_order(&self) -> (idx: Vec<usize>)
        requires
            rows_fit(self@.rows),
        ensures
            is_top_order(self@.rows, idx@),
            idx@ == top_order_of(self@.rows),
    {
        let ghost rows = self@.rows;
        let n = self.file_rows.len();
        let mut idx: Vec<usize> = Vec::new();
        let mut j: usize = 0;
        while j < n
            invariant
                n == rows.len(),
                rows == self@.rows,
                rows_fit(rows),
                j <= n,
                idx@.len() == j,
                forall|k: int| 0 <= k < idx@.len() ==> idx@[k] < j,
                forall|k: int, l: int|
                    0 <= k < l < idx@.len() ==> ranks_before(rows, #[trigger] idx@[k] as int, #[trigger] idx@[l] as int),
            decreases n - j,
        {
            assert(rows[j as int] == self.file_rows@[j as int]@);
            assert(row_total(rows[j as int]) <= usize::MAX);
            let tj = self.file_rows[j].stat.total();
            let mut p: usize = 0;
            while p < idx.len()
                invariant
                    n == rows.len(),
                    rows == self@.rows,
                    rows_fit(rows),
                    j < n,
                    idx@.len() == j,
                    tj == row_total(rows[j as int]),
                    forall|k: int| 0 <= k < idx@.len() ==> idx@[k] < j,
                    p <= idx@.len(),
                    forall|k: int| 0 <= k < p ==> row_total(rows[idx@[k] as int]) >= tj,
                ensures
                    p <= idx@.len(),
                    forall|k: int| 0 <= k < p ==> row_total(rows[idx@[k] as int]) >= tj,
                    p < idx@.len() ==> row_total(rows[idx@[p as int] as int]) < tj,
                decreases idx@.len() - p,
            {
                let r = idx[p];
                assert(rows[r as int] == self.file_rows@[r as int]@);
                assert(row_total(rows[r as int]) <= usize::MAX);
                if self.file_rows[r].stat.total() < tj {
                    break;
                }
                p = p + 1;
            }
            let ghost before = idx@;
            proof {
                // rows after `p` have fewer changed lines than row `j`
                assert forall|k: int| p <= k < before.len() implies row_total(rows[before[k] as int]) < tj by {
                    if p < before.len() {
                        assert(row_total(rows[before[p as int] as int]) < tj);
                        if k > p {
                            assert(ranks_before(rows, before[p as int] as int, before[k] as int));
                        }
                    }
                }
            }
            idx.insert(p, j);
            proof {
                assert forall|k: int, l: int|
                    0 <= k < l < idx@.len() implies ranks_before(rows, #[trigger] idx@[k] as int, #[trigger] idx@[l] as int) by {
                    if l < p {
                        assert(ranks_before(rows, before[k] as int, before[l] as int));
                    } else if l == p {
                        assert(idx@[k] == before[k]);
                    } else if k < p {
                        assert(ranks_before(rows, before[k] as int, before[l - 1] as int));
                    } else if k == p {
                        assert(idx@[l] == before[l - 1]);
                    } else {
                        assert(ranks_before(rows, before[k - 1] as int, before[l - 1] as int));
                    }
                }
            }
            j = j + 1;
        }
        proof {
            assert(is_top_order(rows, idx@));
            crate::laws::law_top_order_unique(rows, idx@, top_order_of(rows));
        }
        idx
    }

    /// The file rows by changed lines descending (stable: rows with equal
    /// counts keep git's path order).
    pub fn top_files(&self) -> (res: Vec<&FileRow>)
        requires
            rows_fit(self@.rows),
        ensures
            is_top_order(self@.rows, top_order_of(self@.rows)),
            res@.len() == self@.rows.len(),
            forall|k: int|
                0 <= k < res@.len() ==> (#[trigger] res@[k])@ == self@.rows[top_order_of(
                    self@.rows,
                )[k] as int],
    {
        let idx = self.top_order();
        let mut res: Vec<&FileRow> = Vec::new();
        let mut k: usize = 0;
        while k < idx.len()
            invariant
                is_top_order(self@.rows, idx@),
                k <= idx@.len(),
                res@.len() == k,
                forall|m: int| 0 <= m < k ==> (#[trigger] res@[m])@ == self@.rows[idx@[m] as int],
            decreases idx@.len() - k,
        {
            let r = &self.file_rows[idx[k]];
            res.push(r);
            k = k + 1;
        }
        res
    }
}

} // verus!
