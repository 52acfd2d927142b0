//! Unified diff parsing and range semantics.
//!
//! A "modified" line: git itself only knows additions and deletions; within
//! one hunk, min(deleted, added) lines count as modified and the remainder
//! as pure additions or pure deletions (exact with `git diff -U0`).
use vstd::prelude::*;
use vstd::utf8::{decode_utf8, encode_utf8, valid_utf8};

use crate::pathmap::PathMap;
use crate::text::{
    chars_to_string, contains, dec, lines, parse_usize, parse_usize_chars, push_str, rsplit_once,
    rsplit_once_lit, split_lines, split_once, split_once_char, starts_with, starts_with_lit,
    str_chars, strip_prefix, strip_prefix_lit, strip_suffix, strip_suffix_lit, sub_chars, views,
    contains_lit, eq_lit, push_dec,
};

verus! {

/// Line statistics of one file.
#[derive(Debug, Clone, Copy, PartialEq, Eq, Structural)]
pub struct FileStat {
    pub added: usize,
    pub deleted: usize,
    pub modified: usize,
    pub binary: bool,
}

/// The all-zero statistics.
pub open spec fn zero_stat() -> FileStat {
    FileStat { added: 0, deleted: 0, modified: 0, binary: false }
}

impl Default for FileStat {
    fn default() -> (r: Self)
        ensures
            r == zero_stat(),
    {
        FileStat { added: 0, deleted: 0, modified: 0, binary: false }
    }
}

impl FileStat {
    /// Number of changed lines: added + deleted + modified.
    pub fn total(&self) -> (r: usize)
        requires
            self.added + self.deleted + self.modified <= usize::MAX,
        ensures
            r == self.added + self.deleted + self.modified,
    {
        self.added + self.deleted + self.modified
    }
}

// ---------------------------------------------------------------------------
// Paths
// ---------------------------------------------------------------------------

/// What `String::from_utf8_lossy` makes of a byte sequence.
pub uninterp spec fn utf8_lossy(bytes: Seq<u8>) -> Seq<char>;

/// `String::from_utf8_lossy`: the claim is that the result is the lossy
/// decoding of the bytes, a function of the bytes alone, and that valid
/// UTF-8 decodes to exactly the characters it encodes. How invalid
/// sequences are replaced is not stated.
#[verifier::external_body]
fn from_utf8_lossy(bytes: &[u8]) -> (res: String)
    ensures
        res@ == utf8_lossy(bytes@),
        valid_utf8(bytes@) ==> res@ == decode_utf8(bytes@),
{
    String::from_utf8_lossy(bytes).into_owned()
}

/// An ASCII octal digit.
pub open spec fn is_octal(b: u8) -> bool {
    48 <= b <= 55
}

/// Number of octal digits (1 to 3) of an escape whose first digit is `bs[0]`.
pub open spec fn octal_len(bs: Seq<u8>) -> int {
    if bs.len() > 1 && is_octal(bs[1]) {
        if bs.len() > 2 && is_octal(bs[2]) {
            3
        } else {
            2
        }
    } else {
        1
    }
}

/// Value of the first `k` octal digits of `bs`.
pub open spec fn octal_value(bs: Seq<u8>, k: int) -> int {
    if k == 1 {
        bs[0] - 48
    } else if k == 2 {
        (bs[0] - 48) * 8 + (bs[1] - 48)
    } else {
        ((bs[0] - 48) * 8 + (bs[1] - 48)) * 8 + (bs[2] - 48)
    }
}

/// Undoes git's C-style escapes: `\t`, `\n`, up to three octal digits (the
/// value taken modulo 256), and `\` before any other byte; a trailing lone
/// `\` is dropped.
pub open spec fn unescape(bs: Seq<u8>) -> Seq<u8>
    decreases bs.len(),
{
    if bs.len() == 0 {
        seq![]
    } else if bs[0] != 92 {
        seq![bs[0]] + unescape(bs.skip(1))
    } else if bs.len() == 1 {
        seq![]
    } else if bs[1] == 116 {
        seq![9u8] + unescape(bs.skip(2))
    } else if bs[1] == 110 {
        seq![10u8] + unescape(bs.skip(2))
    } else if is_octal(bs[1]) {
        seq![(octal_value(bs.skip(1), octal_len(bs.skip(1))) % 256) as u8] + unescape(
            bs.skip(1 + octal_len(bs.skip(1))),
        )
    } else {
        seq![bs[1]] + unescape(bs.skip(2))
    }
}

/// The bytes of a quoted path once its escapes are undone.
pub open spec fn unquoted_bytes(p: Seq<char>) -> Seq<u8> {
    unescape(encode_utf8(p.subrange(1, p.len() - 1)))
}

/// A path as git prints it, with C-style quoting undone: a path wrapped in
/// double quotes is unescaped byte-wise and decoded as UTF-8 (exactly when
/// the bytes are valid UTF-8, lossily otherwise); any other path is taken
/// as is.
pub open spec fn unquote(p: Seq<char>) -> Seq<char> {
    if p.len() >= 2 && p[0] == '"' && p.last() == '"' {
        if valid_utf8(unquoted_bytes(p)) {
            decode_utf8(unquoted_bytes(p))
        } else {
            utf8_lossy(unquoted_bytes(p))
        }
    } else {
        p
    }
}

fn unescape_bytes(bs: &[u8]) -> (out: Vec<u8>)
    ensures
        out@ == unescape(bs@),
{
    let n = bs.len();
    let mut out: Vec<u8> = Vec::new();
    let mut i: usize = 0;
    assert(bs@.skip(0) =~= bs@);
    while i < n
        invariant
            n == bs@.len(),
            i <= n,
            out@ + unescape(bs@.skip(i as int)) == unescape(bs@),
        decreases n - i,
    {
        let ghost s = bs@.skip(i as int);
        let ghost before = out@;
        let c = bs[i];
        assert(s[0] == c);
        if c != 92 {
            out.push(c);
            assert(s.skip(1) =~= bs@.skip(i + 1));
            assert(out@ + unescape(bs@.skip(i + 1)) =~= before + unescape(s));
            i = i + 1;
        } else if i + 1 == n {
            assert(unescape(s) =~= Seq::<u8>::empty());
            assert(out@ + unescape(bs@.skip(n as int)) =~= before + unescape(s));
            i = n;
        } else {
            let e = bs[i + 1];
            assert(s[1] == e);
            if e == 116 {
                out.push(9u8);
                assert(s.skip(2) =~= bs@.skip(i + 2));
                assert(out@ + unescape(bs@.skip(i + 2)) =~= before + unescape(s));
                i = i + 2;
            } else if e == 110 {
                out.push(10u8);
                assert(s.skip(2) =~= bs@.skip(i + 2));
                assert(out@ + unescape(bs@.skip(i + 2)) =~= before + unescape(s));
                i = i + 2;
            } else if 48 <= e && e <= 55 {
                let ghost t = s.skip(1);
                let mut v: u32 = (e - 48) as u32;
                let mut k: usize = 1;
                if i + 2 < n && 48 <= bs[i + 2] && bs[i + 2] <= 55 {
                    v = v * 8 + (bs[i + 2] - 48) as u32;
                    k = 2;
                    if i + 3 < n && 48 <= bs[i + 3] && bs[i + 3] <= 55 {
                        v = v * 8 + (bs[i + 3] - 48) as u32;
                        k = 3;
                    }
                }
                assert(k == octal_len(t));
                assert(v == octal_value(t, k as int));
                out.push((v % 256) as u8);
                assert(s.skip(1 + k) =~= bs@.skip(i + 1 + k));
                assert(out@ + unescape(bs@.skip(i + 1 + k)) =~= before + unescape(s));
                i = i + 1 + k;
            } else {
                out.push(e);
                assert(s.skip(2) =~= bs@.skip(i + 2));
                assert(out@ + unescape(bs@.skip(i + 2)) =~= before + unescape(s));
                i = i + 2;
            }
        }
    }
    assert(unescape(bs@.skip(n as int)) =~= Seq::<u8>::empty());
    assert(out@ =~= out@ + Seq::<u8>::empty());
    out
}

/// Undoes git's quoting of a path given as characters.
pub fn unquote_chars(p: &[char]) -> (res: Vec<char>)
    ensures
        res@ == unquote(p@),
{
    let n = p.len();
    if n >= 2 && p[0] == '"' && p[n - 1] == '"' {
        let inner = sub_chars(p, 1, n - 1);
        let st = chars_to_string(inner.as_slice());
        let bytes = st.as_str().as_bytes();
        let out = unescape_bytes(bytes);
        let s = from_utf8_lossy(out.as_slice());
        str_chars(s.as_str())
    } else {
        let r = sub_chars(p, 0, n);
        assert(r@ =~= p@);
        r
    }
}

/// Undoes the C-style quoting git applies to paths with special characters
/// (which can still occur with `core.quotepath=false`).
pub fn unquote_path(p: &str) -> (res: String)
    ensures
        res@ == unquote(p@),
{
    let c = str_chars(p);
    let r = unquote_chars(c.as_slice());
    chars_to_string(r.as_slice())
}

// ---------------------------------------------------------------------------
// Hunk headers and binary notices
// ---------------------------------------------------------------------------

/// `start` or `start,count` to the count (1 when absent); both numbers
/// must parse.
pub open spec fn range_count(spec: Seq<char>) -> Option<usize> {
    match split_once(spec, ',') {
        Some((start, count)) => if parse_usize(start) is Some {
            parse_usize(count)
        } else {
            None
        },
        None => if parse_usize(spec) is Some {
            Some(1)
        } else {
            None
        },
    }
}

/// Line counts `(old, new)` of a hunk header `@@ -a[,b] +c[,d] @@...`.
pub open spec fn spec_hunk(line: Seq<char>) -> Option<(usize, usize)> {
    match strip_prefix(line, "@@ -"@) {
        None => None,
        Some(rest) => match split_once(rest, ' ') {
            None => None,
            Some((old_spec, rest)) => match strip_prefix(rest, "+"@) {
                None => None,
                Some(rest) => match split_once(rest, ' ') {
                    None => None,
                    Some((new_spec, rest)) => if !starts_with(rest, "@@"@) {
                        None
                    } else {
                        match (range_count(old_spec), range_count(new_spec)) {
                            (Some(o), Some(n)) => Some((o, n)),
                            _ => None,
                        }
                    },
                },
            },
        },
    }
}

/// The line count of a hunk range spec (`start` or `start,count`).
pub fn spec_count(spec: &[char]) -> (res: Option<usize>)
    ensures
        res == range_count(spec@),
{
    match split_once_char(spec, ',') {
        Some((start, count)) => {
            if parse_usize_chars(start.as_slice()).is_some() {
                parse_usize_chars(count.as_slice())
            } else {
                None
            }
        },
        None => {
            if parse_usize_chars(spec).is_some() {
                Some(1)
            } else {
                None
            }
        },
    }
}

/// Parses a hunk header, returning (old line count, new line count).
pub fn parse_hunk_header(line: &[char]) -> (res: Option<(usize, usize)>)
    ensures
        res == spec_hunk(line@),
{
    let rest = match strip_prefix_lit(line, "@@ -") {
        Some(r) => r,
        None => return None,
    };
    let (old_spec, rest) = match split_once_char(rest.as_slice(), ' ') {
        Some(p) => p,
        None => return None,
    };
    let rest = match strip_prefix_lit(rest.as_slice(), "+") {
        Some(r) => r,
        None => return None,
    };
    let (new_spec, rest) = match split_once_char(rest.as_slice(), ' ') {
        Some(p) => p,
        None => return None,
    };
    if !starts_with_lit(rest.as_slice(), "@@") {
        return None;
    }
    let o = match spec_count(old_spec.as_slice()) {
        Some(o) => o,
        None => return None,
    };
    let n = match spec_count(new_spec.as_slice()) {
        Some(n) => n,
        None => return None,
    };
    Some((o, n))
}

/// `p` without `prefix` when it starts with it.
pub open spec fn strip_or_keep(p: Seq<char>, prefix: Seq<char>) -> Seq<char> {
    match strip_prefix(p, prefix) {
        Some(r) => r,
        None => p,
    }
}

/// The path of a `Binary files a/x and b/y differ` line: the new side unless
/// it is `/dev/null`, without its `a/` or `b/` prefix, unquoted.
pub open spec fn spec_binary_path(line: Seq<char>) -> Option<Seq<char>> {
    match strip_prefix(line, "Binary files "@) {
        None => None,
        Some(r) => match strip_suffix(r, " differ"@) {
            None => None,
            Some(rest) => match rsplit_once(rest, " and "@) {
                None => None,
                Some((a, b)) => {
                    let pick = if b != "/dev/null"@ {
                        b
                    } else {
                        a
                    };
                    let pick = match strip_prefix(pick, "b/"@) {
                        Some(x) => x,
                        None => strip_or_keep(pick, "a/"@),
                    };
                    Some(unquote(pick))
                },
            },
        },
    }
}

/// Strips `lit` from the front of `p` when present.
fn strip_or_keep_lit(p: Vec<char>, lit: &str) -> (res: Vec<char>)
    ensures
        res@ == strip_or_keep(p@, lit@),
{
    match strip_prefix_lit(p.as_slice(), lit) {
        Some(r) => r,
        None => p,
    }
}

/// Extracts the path of a binary-file notice (new side preferred).
pub fn binary_path(line: &[char]) -> (res: Option<Vec<char>>)
    ensures
        match res {
            Some(p) => spec_binary_path(line@) == Some(p@),
            None => spec_binary_path(line@) is None,
        },
{
    let r = match strip_prefix_lit(line, "Binary files ") {
        Some(r) => r,
        None => return None,
    };
    let rest = match strip_suffix_lit(r.as_slice(), " differ") {
        Some(r) => r,
        None => return None,
    };
    let (a, b) = match rsplit_once_lit(rest.as_slice(), " and ") {
        Some(p) => p,
        None => return None,
    };
    let pick = if !eq_lit(b.as_slice(), "/dev/null") {
        b
    } else {
        a
    };
    let pick = match strip_prefix_lit(pick.as_slice(), "b/") {
        Some(x) => x,
        None => strip_or_keep_lit(pick, "a/"),
    };
    Some(unquote_chars(pick.as_slice()))
}

// ---------------------------------------------------------------------------
// Per-file blocks
// ---------------------------------------------------------------------------

/// What is gathered about one file's diff block so far.
pub struct BlockView {
    pub old_path: Option<Seq<char>>,
    pub new_path: Option<Seq<char>>,
    pub stat: FileStat,
    /// A hunk header has been read: the header lines are over, and later
    /// lines are hunk bodies or further hunk headers.
    pub in_hunks: bool,
}

/// The state at the start of a block.
pub open spec fn empty_block() -> BlockView {
    BlockView { old_path: None, new_path: None, stat: zero_stat(), in_hunks: false }
}

/// A line that names a path or marks a binary file, when it stands in the
/// block's header.
pub open spec fn is_header_line(line: Seq<char>) -> bool {
    starts_with(line, "--- "@) || starts_with(line, "+++ "@) || starts_with(line, "rename to "@)
        || starts_with(line, "Binary files "@)
}

/// Lines paired in a hunk of `o` old and `n` new lines.
pub open spec fn paired(o: usize, n: usize) -> usize {
    if o <= n {
        o
    } else {
        n
    }
}

/// Adding a hunk of `o` old and `n` new lines keeps every count in `usize`.
pub open spec fn hunk_fits(st: FileStat, o: usize, n: usize) -> bool {
    &&& st.modified + paired(o, n) <= usize::MAX
    &&& st.added + (n - paired(o, n)) <= usize::MAX
    &&& st.deleted + (o - paired(o, n)) <= usize::MAX
}

/// Counts after a hunk of `o` old and `n` new lines: min(o, n) modified,
/// the rest added or deleted.
pub open spec fn add_hunk(st: FileStat, o: usize, n: usize) -> FileStat {
    FileStat {
        added: (st.added + (n - paired(o, n))) as usize,
        deleted: (st.deleted + (o - paired(o, n))) as usize,
        modified: (st.modified + paired(o, n)) as usize,
        binary: st.binary,
    }
}

/// Whether feeding `line` to `b` stays within `usize`.
#[verifier::opaque]
pub open spec fn feed_fits(b: BlockView, line: Seq<char>) -> bool {
    if !b.in_hunks && is_header_line(line) {
        true
    } else {
        match spec_hunk(line) {
            Some((o, n)) => hunk_fits(b.stat, o, n),
            None => true,
        }
    }
}

/// The counts after a hunk header line; any other line leaves the block as
/// it is.
pub open spec fn feed_hunk(b: BlockView, line: Seq<char>) -> BlockView {
    match spec_hunk(line) {
        Some((o, n)) => BlockView { stat: add_hunk(b.stat, o, n), in_hunks: true, ..b },
        None => b,
    }
}

/// The block after one more line of its diff. Before the first hunk
/// header, `--- ` and `+++ ` lines set the old and new path (not for
/// `/dev/null`), `rename to ` the new path, and a `Binary files ` notice
/// marks the file binary (and names it when no new path is known); from the
/// first hunk header on, only hunk headers count, so hunk bodies never set
/// a path.
#[verifier::opaque]
pub open spec fn spec_feed(b: BlockView, line: Seq<char>) -> BlockView {
    if b.in_hunks {
        feed_hunk(b, line)
    } else {
        feed_header(b, line)
    }
}

/// A line before the first hunk header (see `spec_feed`).
pub open spec fn feed_header(b: BlockView, line: Seq<char>) -> BlockView {
    match strip_prefix(line, "--- "@) {
        Some(p) => if p != "/dev/null"@ {
            BlockView { old_path: Some(unquote(strip_or_keep(p, "a/"@))), ..b }
        } else {
            b
        },
        None => match strip_prefix(line, "+++ "@) {
            Some(p) => if p != "/dev/null"@ {
                BlockView { new_path: Some(unquote(strip_or_keep(p, "b/"@))), ..b }
            } else {
                b
            },
            None => match strip_prefix(line, "rename to "@) {
                Some(p) => BlockView { new_path: Some(unquote(p)), ..b },
                None => if starts_with(line, "Binary files "@) {
                    BlockView {
                        old_path: b.old_path,
                        in_hunks: b.in_hunks,
                        new_path: if b.new_path is None && spec_binary_path(line) is Some {
                            spec_binary_path(line)
                        } else {
                            b.new_path
                        },
                        stat: FileStat {
                            added: b.stat.added,
                            deleted: b.stat.deleted,
                            modified: b.stat.modified,
                            binary: true,
                        },
                    }
                } else {
                    feed_hunk(b, line)
                },
            },
        },
    }
}

/// Records a finished block: deleted files under their old path, renamed
/// and added files under the new one; a block with no path is dropped.
pub open spec fn commit_block(stats: Map<Seq<char>, FileStat>, b: BlockView) -> Map<
    Seq<char>,
    FileStat,
> {
    match b.new_path {
        Some(p) => stats.insert(p, b.stat),
        None => match b.old_path {
            Some(p) => stats.insert(p, b.stat),
            None => stats,
        },
    }
}

/// Parser state: finished files and the block being read.
pub struct DiffState {
    pub stats: Map<Seq<char>, FileStat>,
    pub cur: Option<BlockView>,
}

/// One line of diff text: a `diff --git ` line closes the current block and
/// opens a new one; other lines feed the current block (none before the
/// first header).
pub open spec fn diff_step(st: DiffState, line: Seq<char>) -> DiffState {
    if starts_with(line, "diff --git "@) {
        DiffState {
            stats: match st.cur {
                Some(b) => commit_block(st.stats, b),
                None => st.stats,
            },
            cur: Some(empty_block()),
        }
    } else {
        match st.cur {
            Some(b) => DiffState { stats: st.stats, cur: Some(spec_feed(b, line)) },
            None => st,
        }
    }
}

/// Whether a step stays within `usize`.
pub open spec fn step_fits(st: DiffState, line: Seq<char>) -> bool {
    starts_with(line, "diff --git "@) || match st.cur {
        Some(b) => feed_fits(b, line),
        None => true,
    }
}

/// The state after the lines `ls`.
pub open spec fn diff_fold(ls: Seq<Seq<char>>) -> DiffState
    decreases ls.len(),
{
    if ls.len() == 0 {
        DiffState { stats: Map::empty(), cur: None }
    } else {
        diff_step(diff_fold(ls.drop_last()), ls.last())
    }
}

/// Every step over `ls` stays within `usize`.
pub open spec fn diff_fits(ls: Seq<Seq<char>>) -> bool
    decreases ls.len(),
{
    if ls.len() == 0 {
        true
    } else {
        diff_fits(ls.drop_last()) && step_fits(diff_fold(ls.drop_last()), ls.last())
    }
}

/// The statistics once all lines are read.
pub open spec fn finish(st: DiffState) -> Map<Seq<char>, FileStat> {
    match st.cur {
        Some(b) => commit_block(st.stats, b),
        None => st.stats,
    }
}

/// Path to statistics for `git diff -U0 -M` output.
pub open spec fn spec_parse_diff(text: Seq<char>) -> Map<Seq<char>, FileStat> {
    finish(diff_fold(lines(text)))
}

/// Parsing `text` keeps every count in `usize`.
pub open spec fn parse_diff_fits(text: Seq<char>) -> bool {
    diff_fits(lines(text))
}

proof fn lemma_fold_step(ls: Seq<Seq<char>>, i: int)
    requires
        0 <= i < ls.len(),
    ensures
        diff_fold(ls.take(i + 1)) == diff_step(diff_fold(ls.take(i)), ls[i]),
        diff_fits(ls.take(i + 1)) == (diff_fits(ls.take(i)) && step_fits(diff_fold(ls.take(i)), ls[i])),
{
    assert(ls.take(i + 1).drop_last() =~= ls.take(i));
}

proof fn lemma_fits_prefix(ls: Seq<Seq<char>>, k: int)
    requires
        0 <= k <= ls.len(),
        diff_fits(ls),
    ensures
        diff_fits(ls.take(k)),
    decreases ls.len() - k,
{
    if k < ls.len() {
        assert(ls.take(k + 1).drop_last() =~= ls.take(k));
        lemma_fits_prefix(ls, k + 1);
    } else {
        assert(ls.take(k) =~= ls);
    }
}

/// One file's diff block, filled line by line.
struct Block {
    old_path: Option<Vec<char>>,
    new_path: Option<Vec<char>>,
    stat: FileStat,
    in_hunks: bool,
}

/// The characters of an optional path.
pub open spec fn opt_view(o: Option<Vec<char>>) -> Option<Seq<char>> {
    match o {
        Some(v) => Some(v@),
        None => None,
    }
}

impl Block {
    spec fn view(&self) -> BlockView {
        BlockView {
            old_path: opt_view(self.old_path),
            new_path: opt_view(self.new_path),
            stat: self.stat,
            in_hunks: self.in_hunks,
        }
    }

    fn new() -> (b: Block)
        ensures
            b.view() == empty_block(),
    {
        Block { old_path: None, new_path: None, stat: FileStat::default(), in_hunks: false }
    }

    /// Takes one line of the block; false when a count would leave `usize`.
    fn feed(&mut self, line: &[char]) -> (ok: bool)
        ensures
            ok == feed_fits(old(self).view(), line@),
            ok ==> final(self).view() == spec_feed(old(self).view(), line@),
    {
        reveal(feed_fits);
        reveal(spec_feed);
        if self.in_hunks {
            return self.count_hunk(line);
        }
        if let Some(p) = strip_prefix_lit(line, "--- ") {
            if !eq_lit(p.as_slice(), "/dev/null") {
                let q = strip_or_keep_lit(p, "a/");
                self.old_path = Some(unquote_chars(q.as_slice()));
            }
            return true;
        }
        if let Some(p) = strip_prefix_lit(line, "+++ ") {
            if !eq_lit(p.as_slice(), "/dev/null") {
                let q = strip_or_keep_lit(p, "b/");
                self.new_path = Some(unquote_chars(q.as_slice()));
            }
            return true;
        }
        if let Some(p) = strip_prefix_lit(line, "rename to ") {
            self.new_path = Some(unquote_chars(p.as_slice()));
            return true;
        }
        if starts_with_lit(line, "Binary files ") {
            self.stat.binary = true;
            if self.new_path.is_none() {
                if let Some(p) = binary_path(line) {
                    self.new_path = Some(p);
                }
            }
            return true;
        }
        self.count_hunk(line)
    }

    /// Counts a hunk header line; false when a count would leave `usize`.
    fn count_hunk(&mut self, line: &[char]) -> (ok: bool)
        ensures
            ok == (match spec_hunk(line@) {
                Some((o, n)) => hunk_fits(old(self).view().stat, o, n),
                None => true,
            }),
            ok ==> final(self).view() == feed_hunk(old(self).view(), line@),
    {
        if let Some((o, n)) = parse_hunk_header(line) {
            let m = if o <= n {
                o
            } else {
                n
            };
            if self.stat.modified > usize::MAX - m || self.stat.added > usize::MAX - (n - m)
                || self.stat.deleted > usize::MAX - (o - m) {
                return false;
            }
            self.stat.modified = self.stat.modified + m;
            self.stat.added = self.stat.added + (n - m);
            self.stat.deleted = self.stat.deleted + (o - m);
            self.in_hunks = true;
        }
        true
    }

    /// Records the block under its path (see `commit_block`).
    fn commit(self, stats: &mut PathMap<FileStat>)
        requires
            old(stats).wf(),
        ensures
            final(stats).wf(),
            final(stats).view() == commit_block(old(stats).view(), self.view()),
    {
        match self.new_path {
            Some(p) => stats.insert(p, self.stat),
            None => match self.old_path {
                Some(p) => stats.insert(p, self.stat),
                None => {},
            },
        }
    }
}

/// The optional block's contents.
spec fn cur_view(cur: Option<Block>) -> Option<BlockView> {
    match cur {
        Some(b) => Some(b.view()),
        None => None,
    }
}

/// Parses `git diff -U0 -M` output into path to statistics, or `None` when a
/// count would leave `usize` (where the unchecked parse overflows).
pub fn parse_diff_checked(text: &str) -> (res: Option<PathMap<FileStat>>)
    ensures
        match res {
            Some(m) => parse_diff_fits(text@) && m.wf() && m.view() == spec_parse_diff(text@),
            None => !parse_diff_fits(text@),
        },
{
    let chars = str_chars(text);
    let ls = split_lines(chars.as_slice());
    let ghost lv = lines(text@);
    let mut stats: PathMap<FileStat> = PathMap::new();
    let mut cur: Option<Block> = None;
    let mut i: usize = 0;
    assert(lv.take(0) =~= Seq::<Seq<char>>::empty());
    while i < ls.len()
        invariant
            lv == lines(text@),
            views(ls@) == lv,
            i <= ls@.len(),
            stats.wf(),
            diff_fold(lv.take(i as int)) == (DiffState { stats: stats.view(), cur: cur_view(cur) }),
            diff_fits(lv.take(i as int)),
        decreases ls@.len() - i,
    {
        let line = ls[i].as_slice();
        assert(line@ == lv[i as int]);
        proof {
            lemma_fold_step(lv, i as int);
        }
        let ghost st = diff_fold(lv.take(i as int));
        if starts_with_lit(line, "diff --git ") {
            if let Some(b) = cur.take() {
                b.commit(&mut stats);
            }
            cur = Some(Block::new());
        } else {
            match cur.take() {
                Some(mut b) => {
                    assert(st.cur == Some(b.view()));
                    let ghost bv = b.view();
                    let ok = b.feed(line);
                    if !ok {
                        proof {
                            assert(!feed_fits(bv, line@));
                            assert(!step_fits(st, line@));
                            assert(!diff_fits(lv.take(i + 1)));
                            if diff_fits(lv) {
                                lemma_fits_prefix(lv, i + 1);
                            }
                            assert(!diff_fits(lv));
                            assert(!parse_diff_fits(text@));
                        }
                        return None;
                    }
                    cur = Some(b);
                },
                None => {},
            }
        }
        i = i + 1;
        assert(diff_fold(lv.take(i as int)) =~= (DiffState { stats: stats.view(), cur: cur_view(cur) }));
    }
    assert(lv.take(i as int) =~= lv);
    if let Some(b) = cur.take() {
        b.commit(&mut stats);
    }
    Some(stats)
}

/// Parses `git diff -U0 -M` output into path to statistics.
pub fn parse_diff(text: &str) -> (res: PathMap<FileStat>)
    requires
        parse_diff_fits(text@),
    ensures
        res.wf(),
        res.view() == spec_parse_diff(text@),
{
    match parse_diff_checked(text) {
        Some(m) => m,
        None => vstd::pervasive::unreached(),
    }
}

// ---------------------------------------------------------------------------
// Ranges
// ---------------------------------------------------------------------------

/// The git range for the positional arguments: two refs compare from their
/// merge base (`A...B`); a ref containing `..` is passed through; a single
/// ref means `ref..HEAD`; none means the working tree against `HEAD`.
pub open spec fn spec_resolve_range(refs: Seq<Seq<char>>) -> Seq<char> {
    if refs.len() == 0 {
        "HEAD"@
    } else if refs.len() == 2 {
        refs[0] + "..."@ + refs[1]
    } else if contains(refs[0], ".."@) {
        refs[0]
    } else {
        refs[0] + "..HEAD"@
    }
}

/// The views of a list of strings.
pub open spec fn string_views(v: Seq<String>) -> Seq<Seq<char>> {
    v.map_values(|s: String| s@)
}

/// Translates positional arguments into a git range.
pub fn resolve_range(refs: &[String]) -> (res: String)
    ensures
        res@ == spec_resolve_range(string_views(refs@)),
{
    let ghost rv = string_views(refs@);
    let mut out: Vec<char> = Vec::new();
    if refs.len() == 0 {
        push_str(&mut out, "HEAD");
    } else if refs.len() == 2 {
        push_str(&mut out, refs[0].as_str());
        push_str(&mut out, "...");
        push_str(&mut out, refs[1].as_str());
        assert(out@ =~= rv[0] + "..."@ + rv[1]);
    } else {
        let first = str_chars(refs[0].as_str());
        assert(first@ == rv[0]);
        push_str(&mut out, refs[0].as_str());
        if !contains_lit(first.as_slice(), "..") {
            push_str(&mut out, "..HEAD");
        }
    }
    assert(out@ =~= spec_resolve_range(rv));
    chars_to_string(out.as_slice())
}

/// The range for a run: with `-n N` (N > 0) the last N commits,
/// `HEAD~N..HEAD`, which takes no positional argument; otherwise the range
/// of the positional arguments (see `spec_resolve_range`).
pub open spec fn spec_range_for(n: usize, refs: Seq<Seq<char>>) -> Result<Seq<char>, Seq<char>> {
    if n > 0 {
        if refs.len() > 0 {
            Err("-n 与位置参数不能同时使用"@)
        } else {
            Ok("HEAD~"@ + dec(n as nat) + "..HEAD"@)
        }
    } else {
        Ok(spec_resolve_range(refs))
    }
}

/// Picks the git range from the `-n` count and the positional arguments;
/// the error is the message for `-n` given together with a range.
pub fn range_for(n: usize, refs: &[String]) -> (res: Result<String, String>)
    ensures
        match res {
            Ok(r) => spec_range_for(n, string_views(refs@)) == Ok::<Seq<char>, Seq<char>>(r@),
            Err(e) => spec_range_for(n, string_views(refs@)) == Err::<Seq<char>, Seq<char>>(e@),
        },
{
    if n > 0 {
        if refs.len() > 0 {
            let msg = str_chars("-n 与位置参数不能同时使用");
            return Err(chars_to_string(msg.as_slice()));
        }
        let mut out: Vec<char> = Vec::new();
        push_str(&mut out, "HEAD~");
        push_dec(&mut out, n);
        push_str(&mut out, "..HEAD");
        Ok(chars_to_string(out.as_slice()))
    } else {
        Ok(resolve_range(refs))
    }
}

} // verus!
