//! Character-sequence helpers shared by the parsers and renderers.
//!
//! Text is handled as sequences of `char`: the spec functions here describe
//! the std string operations the report logic relies on (`split`, `lines`,
//! `trim`, prefix and suffix tests, decimal parsing and printing), and the
//! executable functions compute them over `Vec<char>` buffers.
use vstd::prelude::*;

verus! {

// ---------------------------------------------------------------------------
// Conversions
// ---------------------------------------------------------------------------

/// The characters of `s`, in order.
pub fn str_chars(s: &str) -> (res: Vec<char>)
    ensures
        res@ == s@,
{
    let mut res: Vec<char> = Vec::new();
    for c in it: s.chars()
        invariant
            res@ == it.seq().take(it.index() as int),
            it.seq() == s@,
    {
        res.push(c);
    }
    res
}

/// Builds a `String` from characters (`FromIterator<char>` for `String`):
/// the claim is that the string holds exactly these characters, in order.
#[verifier::external_body]
pub(crate) fn chars_to_string(v: &[char]) -> (res: String)
    ensures
        res@ == v@,
{
    v.iter().collect()
}

/// Appends the characters of `s` to `buf`.
pub fn push_str(buf: &mut Vec<char>, s: &str)
    ensures
        final(buf)@ == old(buf)@ + s@,
{
    let ghost start = buf@;
    for c in it: s.chars()
        invariant
            buf@ == start + it.seq().take(it.index() as int),
            it.seq() == s@,
    {
        buf.push(c);
    }
    assert(s@.take(s@.len() as int) =~= s@);
}

/// Appends the characters of `s` to `buf`.
pub fn push_chars(buf: &mut Vec<char>, s: &[char])
    ensures
        final(buf)@ == old(buf)@ + s@,
{
    let ghost start = buf@;
    let mut i: usize = 0;
    while i < s.len()
        invariant
            i <= s@.len(),
            buf@ == start + s@.take(i as int),
        decreases s@.len() - i,
    {
        buf.push(s[i]);
        i = i + 1;
        assert(s@.take(i as int) =~= s@.take(i - 1).push(s@[i - 1]));
    }
    assert(s@.take(s@.len() as int) =~= s@);
}

/// `n` copies of `c`.
pub open spec fn repeat(c: char, n: nat) -> Seq<char> {
    Seq::new(n, |_i: int| c)
}

/// Appends `n` copies of `c` to `buf`.
pub fn push_repeat(buf: &mut Vec<char>, c: char, n: usize)
    ensures
        final(buf)@ == old(buf)@ + repeat(c, n as nat),
{
    let ghost start = buf@;
    let mut i: usize = 0;
    while i < n
        invariant
            i <= n,
            buf@ == start + repeat(c, i as nat),
        decreases n - i,
    {
        buf.push(c);
        i = i + 1;
        assert(repeat(c, i as nat) =~= repeat(c, (i - 1) as nat).push(c));
    }
}

/// The characters of `v` from `lo` up to `hi`, as a new vector.
pub fn sub_chars(v: &[char], lo: usize, hi: usize) -> (res: Vec<char>)
    requires
        lo <= hi <= v@.len(),
    ensures
        res@ == v@.subrange(lo as int, hi as int),
{
    let mut res: Vec<char> = Vec::new();
    let mut i: usize = lo;
    while i < hi
        invariant
            lo <= i <= hi <= v@.len(),
            res@ == v@.subrange(lo as int, i as int),
        decreases hi - i,
    {
        res.push(v[i]);
        i = i + 1;
        assert(v@.subrange(lo as int, i as int) =~= v@.subrange(lo as int, i - 1).push(v@[i - 1]));
    }
    res
}

/// Whether two character sequences are equal.
pub fn chars_eq(a: &[char], b: &[char]) -> (res: bool)
    ensures
        res == (a@ == b@),
{
    if a.len() != b.len() {
        return false;
    }
    let mut i: usize = 0;
    while i < a.len()
        invariant
            a@.len() == b@.len(),
            i <= a@.len(),
            forall|j: int| 0 <= j < i ==> a@[j] == b@[j],
        decreases a@.len() - i,
    {
        if a[i] != b[i] {
            return false;
        }
        i = i + 1;
    }
    assert(a@ =~= b@);
    true
}

/// Whether `s` equals the literal `lit`.
pub fn eq_lit(s: &[char], lit: &str) -> (res: bool)
    ensures
        res == (s@ == lit@),
{
    let l = str_chars(lit);
    chars_eq(s, l.as_slice())
}

// ---------------------------------------------------------------------------
// Prefixes, suffixes and occurrences
// ---------------------------------------------------------------------------

/// `s` begins with `p`.
pub open spec fn starts_with(s: Seq<char>, p: Seq<char>) -> bool {
    p.len() <= s.len() && s.take(p.len() as int) == p
}

/// `s` ends with `p`.
pub open spec fn ends_with(s: Seq<char>, p: Seq<char>) -> bool {
    p.len() <= s.len() && s.skip(s.len() - p.len()) == p
}

/// `str::strip_prefix`.
pub open spec fn strip_prefix(s: Seq<char>, p: Seq<char>) -> Option<Seq<char>> {
    if starts_with(s, p) {
        Some(s.skip(p.len() as int))
    } else {
        None
    }
}

/// `str::strip_suffix`.
pub open spec fn strip_suffix(s: Seq<char>, p: Seq<char>) -> Option<Seq<char>> {
    if ends_with(s, p) {
        Some(s.take(s.len() - p.len()))
    } else {
        None
    }
}

/// `p` occurs in `s` at position `i`.
pub open spec fn occurs_at(s: Seq<char>, p: Seq<char>, i: int) -> bool {
    0 <= i && i + p.len() <= s.len() && s.subrange(i, i + p.len()) == p
}

/// `str::contains` with a string pattern.
pub open spec fn contains(s: Seq<char>, p: Seq<char>) -> bool {
    exists|i: int| occurs_at(s, p, i)
}

/// Whether `p` occurs in `s` at `i`.
pub fn matches_at(s: &[char], p: &[char], i: usize) -> (res: bool)
    ensures
        res == occurs_at(s@, p@, i as int),
{
    if i > s.len() || p.len() > s.len() - i {
        return false;
    }
    let sl = s.len();
    let mut j: usize = 0;
    while j < p.len()
        invariant
            sl == s@.len(),
            i + p@.len() <= s@.len(),
            j <= p@.len(),
            forall|k: int| 0 <= k < j ==> s@[i + k] == p@[k],
        decreases p@.len() - j,
    {
        if s[i + j] != p[j] {
            assert(s@.subrange(i as int, i + p@.len())[j as int] != p@[j as int]);
            return false;
        }
        j = j + 1;
    }
    assert(s@.subrange(i as int, i + p@.len()) =~= p@);
    true
}

/// Whether `s` begins with the literal `lit`.
pub fn starts_with_lit(s: &[char], lit: &str) -> (res: bool)
    ensures
        res == starts_with(s@, lit@),
{
    let l = str_chars(lit);
    let r = matches_at(s, l.as_slice(), 0);
    proof {
        if starts_with(s@, lit@) {
            assert(s@.subrange(0, l@.len() as int) =~= s@.take(l@.len() as int));
        }
        if r {
            assert(s@.subrange(0, l@.len() as int) =~= s@.take(l@.len() as int));
        }
    }
    r
}

/// Whether `s` ends with the literal `lit`.
pub fn ends_with_lit(s: &[char], lit: &str) -> (res: bool)
    ensures
        res == ends_with(s@, lit@),
{
    let l = str_chars(lit);
    if l.len() > s.len() {
        return false;
    }
    let start = s.len() - l.len();
    let r = matches_at(s, l.as_slice(), start);
    proof {
        assert(s@.subrange(start as int, start + l@.len()) =~= s@.skip(s@.len() - l@.len()));
    }
    r
}

/// `str::strip_prefix` with a literal pattern.
pub fn strip_prefix_lit(s: &[char], lit: &str) -> (res: Option<Vec<char>>)
    ensures
        match res {
            Some(r) => strip_prefix(s@, lit@) == Some(r@),
            None => strip_prefix(s@, lit@) is None,
        },
{
    if starts_with_lit(s, lit) {
        let n = str_chars(lit).len();
        Some(sub_chars(s, n, s.len()))
    } else {
        None
    }
}

/// `str::strip_suffix` with a literal pattern.
pub fn strip_suffix_lit(s: &[char], lit: &str) -> (res: Option<Vec<char>>)
    ensures
        match res {
            Some(r) => strip_suffix(s@, lit@) == Some(r@),
            None => strip_suffix(s@, lit@) is None,
        },
{
    if ends_with_lit(s, lit) {
        let n = str_chars(lit).len();
        Some(sub_chars(s, 0, s.len() - n))
    } else {
        None
    }
}

/// Whether the literal `lit` occurs anywhere in `s`.
pub fn contains_lit(s: &[char], lit: &str) -> (res: bool)
    ensures
        res == contains(s@, lit@),
{
    let l = str_chars(lit);
    if l.len() > s.len() {
        return false;
    }
    let limit = s.len() - l.len();
    let mut i: usize = 0;
    loop
        invariant
            l@ == lit@,
            limit == s@.len() - lit@.len(),
            i <= limit,
            forall|k: int| 0 <= k < i ==> !occurs_at(s@, lit@, k),
        ensures
            i == limit,
            forall|k: int| 0 <= k <= i ==> !occurs_at(s@, lit@, k),
        decreases limit - i,
    {
        if matches_at(s, l.as_slice(), i) {
            return true;
        }
        if i == limit {
            break;
        }
        i = i + 1;
    }
    assert forall|k: int| !occurs_at(s@, lit@, k) by {
        if 0 <= k && k < i {
        } else if k == i {
        }
    }
    false
}

// ---------------------------------------------------------------------------
// Splitting
// ---------------------------------------------------------------------------

/// `str::split` on a single character: the pieces between separators,
/// always at least one.
pub open spec fn split_char(s: Seq<char>, sep: char) -> Seq<Seq<char>>
    decreases s.len(),
{
    if s.len() == 0 {
        seq![Seq::<char>::empty()]
    } else {
        let r = split_char(s.drop_last(), sep);
        if s.last() == sep {
            r.push(Seq::<char>::empty())
        } else {
            r.update(r.len() - 1, r.last().push(s.last()))
        }
    }
}

/// `split_char` never yields an empty list of pieces.
pub proof fn lemma_split_nonempty(s: Seq<char>, sep: char)
    ensures
        split_char(s, sep).len() >= 1,
    decreases s.len(),
{
    if s.len() > 0 {
        lemma_split_nonempty(s.drop_last(), sep);
    }
}

/// The views of a list of character vectors.
pub open spec fn views(vs: Seq<Vec<char>>) -> Seq<Seq<char>> {
    vs.map_values(|v: Vec<char>| v@)
}

/// Splits `s` at every `sep`.
pub fn split_chars(s: &[char], sep: char) -> (res: Vec<Vec<char>>)
    ensures
        views(res@) == split_char(s@, sep),
{
    let mut pieces: Vec<Vec<char>> = Vec::new();
    let mut cur: Vec<char> = Vec::new();
    let mut i: usize = 0;
    assert(s@.take(0) =~= Seq::<char>::empty());
    assert(views(pieces@).push(cur@) =~= split_char(s@.take(0), sep));
    while i < s.len()
        invariant
            i <= s@.len(),
            views(pieces@).push(cur@) == split_char(s@.take(i as int), sep),
        decreases s@.len() - i,
    {
        let c = s[i];
        let ghost prev = s@.take(i as int);
        assert(s@.take(i + 1).drop_last() =~= prev);
        proof {
            lemma_split_nonempty(prev, sep);
        }
        if c == sep {
            let mut old_cur: Vec<char> = Vec::new();
            std::mem::swap(&mut old_cur, &mut cur);
            pieces.push(old_cur);
            assert(views(pieces@) =~= views(pieces@.drop_last()).push(old_cur@));
        } else {
            cur.push(c);
        }
        i = i + 1;
        assert(views(pieces@).push(cur@) =~= split_char(s@.take(i as int), sep));
    }
    pieces.push(cur);
    assert(s@.take(s@.len() as int) =~= s@);
    assert(views(pieces@) =~= views(pieces@.drop_last()).push(pieces@.last()@));
    pieces
}

/// A line without the `\r` of a `\r\n` ending.
pub open spec fn strip_cr(s: Seq<char>) -> Seq<char> {
    if s.len() > 0 && s.last() == '\r' {
        s.drop_last()
    } else {
        s
    }
}

/// `str::lines`: split at `\n`, drop a `\r` that precedes a `\n`, and drop
/// the empty piece after a final line ending.
pub open spec fn lines(s: Seq<char>) -> Seq<Seq<char>> {
    let p = split_char(s, '\n');
    let body = p.drop_last().map_values(|x: Seq<char>| strip_cr(x));
    if p.last().len() == 0 {
        body
    } else {
        body.push(p.last())
    }
}

/// The lines of `s`.
pub fn split_lines(s: &[char]) -> (res: Vec<Vec<char>>)
    ensures
        views(res@) == lines(s@),
{
    let pieces = split_chars(s, '\n');
    proof {
        lemma_split_nonempty(s@, '\n');
    }
    let ghost p = split_char(s@, '\n');
    let n = pieces.len();
    let mut out: Vec<Vec<char>> = Vec::new();
    let mut i: usize = 0;
    while i + 1 < n
        invariant
            n == pieces@.len(),
            n >= 1,
            views(pieces@) == p,
            i + 1 <= n,
            views(out@) == p.take(i as int).map_values(|x: Seq<char>| strip_cr(x)),
        decreases n - i,
    {
        let piece = &pieces[i];
        assert(piece@ == p[i as int]);
        let mut line = sub_chars(piece.as_slice(), 0, piece.len());
        assert(line@ =~= piece@);
        if line.len() > 0 && line[line.len() - 1] == '\r' {
            line.pop();
            assert(line@ =~= piece@.drop_last());
        }
        assert(line@ == strip_cr(p[i as int]));
        let ghost old_out = out@;
        out.push(line);
        assert(views(out@) =~= views(old_out).push(strip_cr(p[i as int])));
        assert(p.take(i + 1) =~= p.take(i as int).push(p[i as int]));
        i = i + 1;
        assert(views(out@) =~= p.take(i as int).map_values(|x: Seq<char>| strip_cr(x)));
    }
    assert(p.take(i as int) =~= p.drop_last());
    let last = &pieces[n - 1];
    assert(last@ == p.last());
    if last.len() > 0 {
        let l = sub_chars(last.as_slice(), 0, last.len());
        assert(l@ =~= p.last());
        let ghost old_out = out@;
        out.push(l);
        assert(views(out@) =~= views(old_out).push(p.last()));
        assert(views(out@) =~= p.drop_last().map_values(|x: Seq<char>| strip_cr(x)).push(p.last()));
    }
    out
}

/// First position of `c` in `s`: `s[i] == c` and no earlier `c`.
pub open spec fn first_at(s: Seq<char>, c: char, i: int) -> bool {
    0 <= i < s.len() && s[i] == c && forall|j: int| 0 <= j < i ==> s[j] != c
}

/// `str::split_once` on a character.
pub open spec fn split_once(s: Seq<char>, c: char) -> Option<(Seq<char>, Seq<char>)> {
    if exists|i: int| first_at(s, c, i) {
        let i = choose|i: int| first_at(s, c, i);
        Some((s.take(i), s.skip(i + 1)))
    } else {
        None
    }
}

/// The first position is unique.
pub proof fn lemma_first_at_unique(s: Seq<char>, c: char, i: int, j: int)
    requires
        first_at(s, c, i),
        first_at(s, c, j),
    ensures
        i == j,
{
}

/// Position of the first `c` in `s`, if any.
pub fn find_char(s: &[char], c: char) -> (res: Option<usize>)
    ensures
        match res {
            Some(i) => first_at(s@, c, i as int),
            None => forall|i: int| 0 <= i < s@.len() ==> s@[i] != c,
        },
{
    let mut i: usize = 0;
    while i < s.len()
        invariant
            i <= s@.len(),
            forall|j: int| 0 <= j < i ==> s@[j] != c,
        decreases s@.len() - i,
    {
        if s[i] == c {
            return Some(i);
        }
        i = i + 1;
    }
    None
}

/// `str::split_once` on a character.
pub fn split_once_char(s: &[char], c: char) -> (res: Option<(Vec<char>, Vec<char>)>)
    ensures
        match res {
            Some((a, b)) => split_once(s@, c) == Some((a@, b@)),
            None => split_once(s@, c) is None,
        },
{
    let sl = s.len();
    match find_char(s, c) {
        Some(i) => {
            proof {
                let k = choose|k: int| first_at(s@, c, k);
                lemma_first_at_unique(s@, c, i as int, k);
            }
            let a = sub_chars(s, 0, i);
            let b = sub_chars(s, i + 1, sl);
            assert(a@ =~= s@.take(i as int));
            assert(b@ =~= s@.skip(i + 1));
            Some((a, b))
        },
        None => {
            assert(!exists|i: int| first_at(s@, c, i));
            None
        },
    }
}

/// Last occurrence of `p` in `s` is at `i`.
pub open spec fn last_at(s: Seq<char>, p: Seq<char>, i: int) -> bool {
    occurs_at(s, p, i) && forall|j: int| i < j ==> !occurs_at(s, p, j)
}

/// `str::rsplit_once` with a string pattern.
pub open spec fn rsplit_once(s: Seq<char>, p: Seq<char>) -> Option<(Seq<char>, Seq<char>)> {
    if exists|i: int| last_at(s, p, i) {
        let i = choose|i: int| last_at(s, p, i);
        Some((s.take(i), s.skip(i + p.len())))
    } else {
        None
    }
}

/// `str::rsplit_once` with a literal pattern.
pub fn rsplit_once_lit(s: &[char], lit: &str) -> (res: Option<(Vec<char>, Vec<char>)>)
    ensures
        match res {
            Some((a, b)) => rsplit_once(s@, lit@) == Some((a@, b@)),
            None => rsplit_once(s@, lit@) is None,
        },
{
    let l = str_chars(lit);
    if l.len() > s.len() {
        assert forall|i: int| !last_at(s@, lit@, i) by {}
        return None;
    }
    let sl = s.len();
    let mut i: usize = s.len() - l.len();
    loop
        invariant
            l@ == lit@,
            sl == s@.len(),
            l@.len() <= s@.len(),
            i <= s@.len() - l@.len(),
            forall|j: int| i < j ==> !occurs_at(s@, lit@, j),
        ensures
            forall|j: int| 0 <= j ==> !occurs_at(s@, lit@, j),
        decreases i,
    {
        if matches_at(s, l.as_slice(), i) {
            proof {
                assert(last_at(s@, lit@, i as int));
                let k = choose|k: int| last_at(s@, lit@, k);
                assert(k == i);
            }
            let a = sub_chars(s, 0, i);
            let b = sub_chars(s, i + l.len(), sl);
            assert(a@ =~= s@.take(i as int));
            assert(b@ =~= s@.skip(i + lit@.len()));
            return Some((a, b));
        }
        if i == 0 {
            break;
        }
        i = i - 1;
    }
    assert forall|k: int| !last_at(s@, lit@, k) by {
        if k < 0 {
        } else {
            assert(!occurs_at(s@, lit@, k));
        }
    }
    None
}

// ---------------------------------------------------------------------------
// Whitespace
// ---------------------------------------------------------------------------

/// `char::is_whitespace`: the Unicode `White_Space` property.
pub open spec fn is_ws(c: char) -> bool {
    let u = c as u32;
    (9 <= u <= 13) || u == 32 || u == 0x85 || u == 0xa0 || u == 0x1680 || (0x2000 <= u <= 0x200a)
        || u == 0x2028 || u == 0x2029 || u == 0x202f || u == 0x205f || u == 0x3000
}

/// Whether `c` is whitespace.
pub fn char_is_ws(c: char) -> (res: bool)
    ensures
        res == is_ws(c),
{
    let u = c as u32;
    (9 <= u && u <= 13) || u == 32 || u == 0x85 || u == 0xa0 || u == 0x1680 || (0x2000 <= u && u
        <= 0x200a) || u == 0x2028 || u == 0x2029 || u == 0x202f || u == 0x205f || u == 0x3000
}

/// `str::trim_end`.
pub open spec fn trim_end(s: Seq<char>) -> Seq<char>
    decreases s.len(),
{
    if s.len() > 0 && is_ws(s.last()) {
        trim_end(s.drop_last())
    } else {
        s
    }
}

/// `str::trim_start`.
pub open spec fn trim_start(s: Seq<char>) -> Seq<char>
    decreases s.len(),
{
    if s.len() > 0 && is_ws(s[0]) {
        trim_start(s.drop_first())
    } else {
        s
    }
}

/// `str::trim`.
pub open spec fn trim(s: Seq<char>) -> Seq<char> {
    trim_start(trim_end(s))
}

/// Drops trailing whitespace from `buf`.
pub fn trim_end_in_place(buf: &mut Vec<char>)
    ensures
        final(buf)@ == trim_end(old(buf)@),
{
    while buf.len() > 0 && char_is_ws(buf[buf.len() - 1])
        invariant
            trim_end(buf@) == trim_end(old(buf)@),
        decreases buf@.len(),
    {
        let ghost before = buf@;
        buf.pop();
        assert(buf@ =~= before.drop_last());
    }
}

/// The characters of `s` without surrounding whitespace.
pub fn trim_chars(s: &[char]) -> (res: Vec<char>)
    ensures
        res@ == trim(s@),
{
    let mut v = sub_chars(s, 0, s.len());
    assert(v@ =~= s@);
    trim_end_in_place(&mut v);
    let ghost e = v@;
    assert(e.skip(0) =~= e);
    let mut i: usize = 0;
    while i < v.len() && char_is_ws(v[i])
        invariant
            i <= v@.len(),
            v@ == e,
            trim_start(e.skip(i as int)) == trim_start(e),
        decreases v@.len() - i,
    {
        assert(e.skip(i as int).drop_first() =~= e.skip(i + 1));
        i = i + 1;
    }
    let r = sub_chars(v.as_slice(), i, v.len());
    assert(r@ =~= e.skip(i as int));
    r
}

// ---------------------------------------------------------------------------
// Decimal numbers
// ---------------------------------------------------------------------------

/// An ASCII decimal digit.
pub open spec fn is_digit(c: char) -> bool {
    48 <= (c as u32) <= 57
}

/// The value of a string of decimal digits.
pub open spec fn digits_value(s: Seq<char>) -> nat
    decreases s.len(),
{
    if s.len() == 0 {
        0
    } else {
        digits_value(s.drop_last()) * 10 + ((s.last() as u32) - 48) as nat
    }
}

/// The digits part of a number: `s` without one leading `+`.
pub open spec fn unsigned_digits(s: Seq<char>) -> Seq<char> {
    if s.len() > 0 && s[0] == '+' {
        s.drop_first()
    } else {
        s
    }
}

/// Every character of `d` is a decimal digit.
pub open spec fn all_digits(d: Seq<char>) -> bool {
    forall|i: int| 0 <= i < d.len() ==> is_digit(#[trigger] d[i])
}

/// `usize::from_str`: an optional `+` and at least one decimal digit, with a
/// value that fits in `usize`.
pub open spec fn parse_usize(s: Seq<char>) -> Option<usize> {
    let d = unsigned_digits(s);
    if d.len() > 0 && all_digits(d) && digits_value(d) <= usize::MAX {
        Some(digits_value(d) as usize)
    } else {
        None
    }
}

proof fn lemma_digits_prefix_le(s: Seq<char>, k: int)
    requires
        0 <= k <= s.len(),
        all_digits(s),
    ensures
        digits_value(s.take(k)) <= digits_value(s),
    decreases s.len() - k,
{
    if k < s.len() {
        lemma_digits_prefix_le(s, k + 1);
        assert(s.take(k + 1).drop_last() =~= s.take(k));
        assert(digits_value(s.take(k + 1)) == digits_value(s.take(k)) * 10 + ((s[k] as u32)
            - 48) as nat);
    } else {
        assert(s.take(k) =~= s);
    }
}

/// Parses `s` as `usize::from_str` does.
pub fn parse_usize_chars(s: &[char]) -> (res: Option<usize>)
    ensures
        res == parse_usize(s@),
{
    let start: usize = if s.len() > 0 && s[0] == '+' {
        1
    } else {
        0
    };
    let ghost d = s@.skip(start as int);
    assert(d =~= unsigned_digits(s@));
    if start >= s.len() {
        return None;
    }
    let mut v: usize = 0;
    let mut i: usize = start;
    while i < s.len()
        invariant
            start <= i <= s@.len(),
            start < s@.len(),
            d == s@.skip(start as int),
            d == unsigned_digits(s@),
            forall|j: int| 0 <= j < i - start ==> is_digit(#[trigger] d[j]),
            v == digits_value(d.take(i - start)),
        decreases s@.len() - i,
    {
        let c = s[i];
        let u = c as u32;
        assert(d[i - start] == s@[i as int]);
        if u < 48 || u > 57 {
            assert(!is_digit(d[i - start]));
            assert(!all_digits(d));
            return None;
        }
        let digit = (u - 48) as usize;
        assert(d.take(i - start + 1).drop_last() =~= d.take(i - start));
        if v > (usize::MAX - digit) / 10 {
            proof {
                assert(v * 10 + digit > usize::MAX) by (nonlinear_arith)
                    requires
                        v > (usize::MAX - digit) / 10,
                        digit <= 9,
                ;
                assert(digits_value(d.take(i - start + 1)) == v * 10 + digit);
                if all_digits(d) {
                    lemma_digits_prefix_le(d, i - start + 1);
                }
            }
            return None;
        }
        v = v * 10 + digit;
        i = i + 1;
    }
    assert(d.take(i - start) =~= d);
    Some(v)
}

/// The character of a decimal digit.
pub open spec fn digit_char(d: nat) -> char {
    (48 + d) as char
}

/// Decimal representation of `n` (as `usize::to_string`).
pub open spec fn dec(n: nat) -> Seq<char>
    decreases n,
{
    if n < 10 {
        seq![digit_char(n)]
    } else {
        dec(n / 10).push(digit_char(n % 10))
    }
}

/// Appends the decimal representation of `n` to `buf`.
pub fn push_dec(buf: &mut Vec<char>, n: usize)
    ensures
        final(buf)@ == old(buf)@ + dec(n as nat),
    decreases n,
{
    if n >= 10 {
        push_dec(buf, n / 10);
    }
    let d = (n % 10) as u8;
    let c = (48u8 + d) as char;
    buf.push(c);
    assert(c == digit_char((n % 10) as nat));
}

} // verus!
