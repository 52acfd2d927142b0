//! Properties of the statistics that hold across whole runs.
use vstd::prelude::*;
use vstd::set_lib::{lemma_int_range, lemma_subset_equality, set_int_range};

use crate::classify::Cat;
use crate::collect::{
    Acc, NumStat, RowView, collect_fold, collect_fold_ok, collect_ok, collect_step,
    collect_step_ok, count_file, init_acc, is_code, is_test, is_top_order, ns_fields,
    ranks_before, spec_collect, spec_parse_numstat, dim_add, file_stat, adjust, top_order_of,
};
use crate::classify::{some_dir_is, spec_classify};
use crate::collect::LangTable;
use crate::diff::{
    BlockView, FileStat, add_hunk, hunk_fits, spec_feed, spec_hunk, spec_range_for, unquote,
    unquoted_bytes,
};
use vstd::utf8::{encode_scalar, encode_utf8, encode_utf8_decode_utf8, encode_utf8_valid_utf8};
use crate::html::{esc_char, spec_escape, spec_tiles, tile};
use crate::term::{
    ColorMode, Ink, NUM_W, file_lines, spec_files_text, spec_num_cells, spec_paint, spec_render,
    spec_title_line, spec_rule, spec_header_line, spec_groups_text, spec_totals_text,
    groups_text_at, scale_max, dim_total, bar_len, bar_segs, sum3, BAR_W,
};
use crate::cli::{ActionView, ArgsView, default_args, flag_of, parse_from, spec_parse_args};
use crate::text::{
    all_digits, contains, dec, digit_char, digits_value, first_at, is_digit, lines, occurs_at,
    parse_usize, repeat, split_char, starts_with, ends_with, unsigned_digits,
};

verus! {

/// Hunk pairing: a hunk of `o` old and `n` new lines adds min(o, n)
/// modified lines and counts the rest as pure additions or deletions, so
/// added + modified grows by `n` and deleted + modified by `o`.
pub proof fn law_hunk_pairing(st: FileStat, o: usize, n: usize)
    requires
        hunk_fits(st, o, n),
    ensures
        add_hunk(st, o, n).modified == st.modified + (if o <= n { o } else { n }),
        add_hunk(st, o, n).added + add_hunk(st, o, n).modified == st.added + st.modified + n,
        add_hunk(st, o, n).deleted + add_hunk(st, o, n).modified == st.deleted + st.modified + o,
{
}

/// Each row agrees with numstat: for a file numstat lists, added +
/// modified is numstat's added count, deleted + modified its deleted count,
/// and a file numstat marks binary is binary.
pub open spec fn rows_agree(rows: Seq<RowView>, numstat: Map<Seq<char>, NumStat>) -> bool {
    forall|k: int|
        0 <= k < rows.len() && numstat.contains_key(#[trigger] rows[k].path) ==> {
            let e = numstat[rows[k].path];
            &&& rows[k].stat.added + rows[k].stat.modified == e.0
            &&& rows[k].stat.deleted + rows[k].stat.modified == e.1
            &&& (e.2 ==> rows[k].stat.binary)
        }
}

proof fn lemma_adjust_agrees(stat: FileStat, e: NumStat)
    ensures
        adjust(stat, Some(e)).added + adjust(stat, Some(e)).modified == e.0,
        adjust(stat, Some(e)).deleted + adjust(stat, Some(e)).modified == e.1,
        e.2 ==> adjust(stat, Some(e)).binary,
{
}

proof fn lemma_fold_agrees(ls: Seq<Seq<char>>, init: Acc, numstat: Map<Seq<char>, NumStat>)
    requires
        rows_agree(init.rows, numstat),
    ensures
        rows_agree(collect_fold(ls, init, numstat).rows, numstat),
    decreases ls.len(),
{
    if ls.len() > 0 {
        lemma_fold_agrees(ls.drop_last(), init, numstat);
        let acc = collect_fold(ls.drop_last(), init, numstat);
        match ns_fields(ls.last()) {
            None => {},
            Some((status, path)) => {
                let stat0 = if acc.stats.contains_key(path) {
                    acc.stats[path]
                } else {
                    crate::diff::zero_stat()
                };
                if numstat.contains_key(path) {
                    lemma_adjust_agrees(stat0, numstat[path]);
                }
                let next = collect_step(acc, ls.last(), numstat);
                assert forall|k: int|
                    0 <= k < next.rows.len() && numstat.contains_key(#[trigger] next.rows[k].path) implies {
                    let e = numstat[next.rows[k].path];
                    &&& next.rows[k].stat.added + next.rows[k].stat.modified == e.0
                    &&& next.rows[k].stat.deleted + next.rows[k].stat.modified == e.1
                    &&& (e.2 ==> next.rows[k].stat.binary)
                } by {
                    if k < acc.rows.len() {
                        assert(next.rows[k] == acc.rows[k]);
                    }
                }
            },
        }
    }
}

/// Agreement with `git diff --numstat`: in every report, each file that
/// numstat lists has added + modified equal to numstat's added lines,
/// deleted + modified equal to its deleted lines, and is binary when
/// numstat says so; the modified share never exceeds either count.
pub proof fn law_numstat_agreement(
    range_spec: Seq<char>,
    diff_text: Seq<char>,
    ns_text: Seq<char>,
    numstat_text: Seq<char>,
    rev_count: Option<Seq<char>>,
)
    ensures
        rows_agree(
            spec_collect(range_spec, diff_text, ns_text, numstat_text, rev_count).rows,
            spec_parse_numstat(numstat_text),
        ),
{
    let init = init_acc(crate::diff::spec_parse_diff(diff_text));
    assert(rows_agree(init.rows, spec_parse_numstat(numstat_text)));
    lemma_fold_agrees(lines(ns_text), init, spec_parse_numstat(numstat_text));
}

/// Field sums of the rows whose category satisfies `sel`.
pub open spec fn sum_rows(rows: Seq<RowView>, sel: spec_fn(Cat) -> bool) -> (int, int, int)
    decreases rows.len(),
{
    if rows.len() == 0 {
        (0, 0, 0)
    } else {
        let s = sum_rows(rows.drop_last(), sel);
        let r = rows.last();
        if sel(r.cat) {
            (s.0 + r.stat.added, s.1 + r.stat.deleted, s.2 + r.stat.modified)
        } else {
            s
        }
    }
}

/// Number of rows whose category satisfies `sel`.
pub open spec fn count_rows(rows: Seq<RowView>, sel: spec_fn(Cat) -> bool) -> int
    decreases rows.len(),
{
    if rows.len() == 0 {
        0
    } else {
        count_rows(rows.drop_last(), sel) + if sel(rows.last().cat) {
            1int
        } else {
            0
        }
    }
}

/// Number of rows with status `st`.
pub open spec fn count_status(rows: Seq<RowView>, st: Seq<char>) -> int
    decreases rows.len(),
{
    if rows.len() == 0 {
        0
    } else {
        count_status(rows.drop_last(), st) + if rows.last().status == st {
            1int
        } else {
            0
        }
    }
}

/// A dimension equals a field-sum triple.
pub open spec fn dim_is(d: crate::collect::Dim, s: (int, int, int)) -> bool {
    d.added == s.0 && d.deleted == s.1 && d.modified == s.2
}

/// Every aggregate of the state is the sum over its rows: code, test and
/// other lines by category; per-category lines and file counts; and file
/// counts by status (`A` added, `D` deleted, the rest modified).
pub open spec fn sums_consistent(acc: Acc) -> bool {
    &&& dim_is(acc.code, sum_rows(acc.rows, |c: Cat| is_code(c)))
    &&& dim_is(acc.test, sum_rows(acc.rows, |c: Cat| is_test(c)))
    &&& dim_is(acc.other, sum_rows(acc.rows, |c: Cat| c == Cat::Other))
    &&& forall|c: Cat|
        #![trigger acc.by_lang.at(c)]
        dim_is(acc.by_lang.at(c).lines, sum_rows(acc.rows, |x: Cat| x == c)) && acc.by_lang.at(c).files
            == count_rows(acc.rows, |x: Cat| x == c)
    &&& acc.files.added == count_status(acc.rows, "A"@)
    &&& acc.files.deleted == count_status(acc.rows, "D"@)
    &&& acc.files.modified == acc.rows.len() - count_status(acc.rows, "A"@) - count_status(
        acc.rows,
        "D"@,
    )
}

proof fn lemma_fold_sums(ls: Seq<Seq<char>>, init: Acc, numstat: Map<Seq<char>, NumStat>)
    requires
        sums_consistent(init),
        collect_fold_ok(ls, init, numstat),
    ensures
        sums_consistent(collect_fold(ls, init, numstat)),
    decreases ls.len(),
{
    if ls.len() > 0 {
        lemma_fold_sums(ls.drop_last(), init, numstat);
        let acc = collect_fold(ls.drop_last(), init, numstat);
        assert(collect_step_ok(acc, ls.last(), numstat));
        match ns_fields(ls.last()) {
            None => {},
            Some((status, path)) => {
                let next = collect_step(acc, ls.last(), numstat);
                let cat = crate::classify::spec_classify(path);
                let stat = file_stat(acc.stats, numstat, path);
                let row = RowView { status, path, cat, stat };
                assert(next.rows == acc.rows.push(row));
                assert(next.rows.drop_last() =~= acc.rows);
                assert(next.rows.last() == row);
                let sc = sum_rows(acc.rows, |c: Cat| is_code(c));
                assert(sum_rows(next.rows, |c: Cat| is_code(c)) == if is_code(cat) {
                    (sc.0 + stat.added, sc.1 + stat.deleted, sc.2 + stat.modified)
                } else {
                    sc
                });
                let st = sum_rows(acc.rows, |c: Cat| is_test(c));
                assert(sum_rows(next.rows, |c: Cat| is_test(c)) == if is_test(cat) {
                    (st.0 + stat.added, st.1 + stat.deleted, st.2 + stat.modified)
                } else {
                    st
                });
                let so = sum_rows(acc.rows, |c: Cat| c == Cat::Other);
                assert(sum_rows(next.rows, |c: Cat| c == Cat::Other) == if cat == Cat::Other {
                    (so.0 + stat.added, so.1 + stat.deleted, so.2 + stat.modified)
                } else {
                    so
                });
                assert(dim_is(next.code, sum_rows(next.rows, |c: Cat| is_code(c))));
                assert(dim_is(next.test, sum_rows(next.rows, |c: Cat| is_test(c))));
                assert(dim_is(next.other, sum_rows(next.rows, |c: Cat| c == Cat::Other)));
                assert forall|c: Cat| #![trigger next.by_lang.at(c)]
                    dim_is(next.by_lang.at(c).lines, sum_rows(next.rows, |x: Cat| x == c))
                        && next.by_lang.at(c).files == count_rows(next.rows, |x: Cat| x == c) by {
                    let sl = sum_rows(acc.rows, |x: Cat| x == c);
                    assert(sum_rows(next.rows, |x: Cat| x == c) == if cat == c {
                        (sl.0 + stat.added, sl.1 + stat.deleted, sl.2 + stat.modified)
                    } else {
                        sl
                    });
                    assert(count_rows(next.rows, |x: Cat| x == c) == count_rows(acc.rows, |x: Cat| x == c)
                        + if cat == c { 1int } else { 0 });
                    let old_l = acc.by_lang.at(c);
                    assert(dim_is(old_l.lines, sl) && old_l.files == count_rows(acc.rows, |x: Cat| x == c));
                    if c == cat {
                        assert(next.by_lang.at(c) == crate::collect::LangStat {
                            lines: dim_add(old_l.lines, stat),
                            files: (old_l.files + 1) as usize,
                        });
                    } else {
                        assert(next.by_lang.at(c) == old_l);
                    }
                }
                assert(count_status(next.rows, "A"@) == count_status(acc.rows, "A"@) + if status == "A"@ {
                    1int
                } else {
                    0
                });
                assert(count_status(next.rows, "D"@) == count_status(acc.rows, "D"@) + if status == "D"@ {
                    1int
                } else {
                    0
                });
                assert(next.files == count_file(acc.files, status));
                if status == "A"@ {
                    reveal_strlit("A");
                    reveal_strlit("D");
                    assert("A"@[0] != "D"@[0]);
                    assert(status != "D"@);
                }
            },
        }
    }
}

/// Every dimension of a report is the sum over its file rows: code, test
/// and other lines by category, per-language lines and file counts, and
/// the file counts by status, which together count every row once.
pub proof fn law_dimension_sums(
    range_spec: Seq<char>,
    diff_text: Seq<char>,
    ns_text: Seq<char>,
    numstat_text: Seq<char>,
    rev_count: Option<Seq<char>>,
)
    requires
        collect_ok(diff_text, ns_text, numstat_text),
    ensures
        ({
            let rep = spec_collect(range_spec, diff_text, ns_text, numstat_text, rev_count);
            &&& dim_is(rep.code, sum_rows(rep.rows, |c: Cat| is_code(c)))
            &&& dim_is(rep.test, sum_rows(rep.rows, |c: Cat| is_test(c)))
            &&& dim_is(rep.other, sum_rows(rep.rows, |c: Cat| c == Cat::Other))
            &&& forall|c: Cat|
                #![trigger rep.by_lang.at(c)]
                dim_is(rep.by_lang.at(c).lines, sum_rows(rep.rows, |x: Cat| x == c))
                    && rep.by_lang.at(c).files == count_rows(rep.rows, |x: Cat| x == c)
            &&& rep.files.added + rep.files.deleted + rep.files.modified == rep.rows.len()
        }),
{
    let init = init_acc(crate::diff::spec_parse_diff(diff_text));
    assert(sums_consistent(init));
    lemma_fold_sums(lines(ns_text), init, spec_parse_numstat(numstat_text));
}

/// The ranking of files is determined: two orders that both list every row
/// by changed lines descending, ties in git's order, are the same.
pub proof fn law_top_order_unique(rows: Seq<RowView>, a: Seq<usize>, b: Seq<usize>)
    requires
        is_top_order(rows, a),
        is_top_order(rows, b),
    ensures
        a == b,
{
    assert forall|k: int| 0 <= k < a.len() implies a[k] == b[k] by {
        lemma_agree_upto(rows, a, b, k);
    }
    assert(a =~= b);
}

/// Every row index occurs in a top order.
proof fn lemma_top_order_onto(rows: Seq<RowView>, a: Seq<usize>, x: int)
    requires
        is_top_order(rows, a),
        0 <= x < rows.len(),
    ensures
        exists|p: int| 0 <= p < a.len() && a[p] == x,
{
    let s = a.map_values(|v: usize| v as int);
    assert(s.no_duplicates()) by {
        assert forall|i: int, j: int| 0 <= i < s.len() && 0 <= j < s.len() && i != j implies s[i] != s[j] by {
            if i < j {
                assert(ranks_before(rows, a[i] as int, a[j] as int));
            } else {
                assert(ranks_before(rows, a[j] as int, a[i] as int));
            }
        }
    }
    s.unique_seq_to_set();
    lemma_int_range(0, rows.len() as int);
    assert(s.to_set().subset_of(set_int_range(0, rows.len() as int)));
    lemma_subset_equality(s.to_set(), set_int_range(0, rows.len() as int));
    assert(set_int_range(0, rows.len() as int).contains(x));
    assert(s.to_set().contains(x));
    let p = choose|p: int| 0 <= p < s.len() && s[p] == x;
    assert(a[p] == x);
}

proof fn lemma_agree_upto(rows: Seq<RowView>, a: Seq<usize>, b: Seq<usize>, k: int)
    requires
        is_top_order(rows, a),
        is_top_order(rows, b),
        0 <= k < a.len(),
    ensures
        forall|j: int| 0 <= j <= k ==> a[j] == b[j],
    decreases k,
{
    if k > 0 {
        lemma_agree_upto(rows, a, b, k - 1);
    }
    if a[k] != b[k] {
        let x = a[k] as int;
        let y = b[k] as int;
        lemma_top_order_onto(rows, a, y);
        lemma_top_order_onto(rows, b, x);
        let p = choose|p: int| 0 <= p < a.len() && a[p] == y;
        let q = choose|q: int| 0 <= q < b.len() && b[q] == x;
        // y sits after position k in `a`, x after position k in `b`
        if p < k {
            assert(b[p] == y);
            assert(ranks_before(rows, b[p] as int, b[k] as int));
        }
        if q < k {
            assert(a[q] == x);
            assert(ranks_before(rows, a[q] as int, a[k] as int));
        }
        assert(ranks_before(rows, a[k] as int, a[p] as int));
        assert(ranks_before(rows, b[k] as int, b[q] as int));
        assert(false);
    }
}

proof fn lemma_partition(rows: Seq<RowView>)
    ensures
        sum_rows(rows, |c: Cat| is_code(c)).0 + sum_rows(rows, |c: Cat| is_test(c)).0 + sum_rows(
            rows,
            |c: Cat| c == Cat::Other,
        ).0 == sum_rows(rows, |c: Cat| true).0,
        sum_rows(rows, |c: Cat| is_code(c)).1 + sum_rows(rows, |c: Cat| is_test(c)).1 + sum_rows(
            rows,
            |c: Cat| c == Cat::Other,
        ).1 == sum_rows(rows, |c: Cat| true).1,
        sum_rows(rows, |c: Cat| is_code(c)).2 + sum_rows(rows, |c: Cat| is_test(c)).2 + sum_rows(
            rows,
            |c: Cat| c == Cat::Other,
        ).2 == sum_rows(rows, |c: Cat| true).2,
    decreases rows.len(),
{
    if rows.len() > 0 {
        lemma_partition(rows.drop_last());
    }
}

/// The line totals cover every file once: code + test + other lines equal
/// the sums over all file rows (every file is in exactly one of the three).
pub proof fn law_totals_cover_all_files(
    range_spec: Seq<char>,
    diff_text: Seq<char>,
    ns_text: Seq<char>,
    numstat_text: Seq<char>,
    rev_count: Option<Seq<char>>,
)
    requires
        collect_ok(diff_text, ns_text, numstat_text),
    ensures
        ({
            let rep = spec_collect(range_spec, diff_text, ns_text, numstat_text, rev_count);
            let all = sum_rows(rep.rows, |c: Cat| true);
            &&& rep.code.added + rep.test.added + rep.other.added == all.0
            &&& rep.code.deleted + rep.test.deleted + rep.other.deleted == all.1
            &&& rep.code.modified + rep.test.modified + rep.other.modified == all.2
        }),
{
    law_dimension_sums(range_spec, diff_text, ns_text, numstat_text, rev_count);
    lemma_partition(spec_collect(range_spec, diff_text, ns_text, numstat_text, rev_count).rows);
}

/// Zero counts are left blank: a zero field's cell is all spaces and
/// unpainted; a nonzero field's cell ends with its number.
#[verifier::spinoff_prover]
pub proof fn law_zero_cells_blank(d: crate::collect::Dim, prefixed: bool)
    ensures
        d.added == 0 ==> spec_num_cells(d, prefixed)[0] == (repeat(' ', NUM_W as nat), Ink::Plain),
        d.deleted == 0 ==> spec_num_cells(d, prefixed)[1] == (repeat(' ', NUM_W as nat), Ink::Plain),
        d.modified == 0 ==> spec_num_cells(d, prefixed)[2] == (repeat(' ', NUM_W as nat), Ink::Plain),
        d.added != 0 ==> spec_num_cells(d, prefixed)[0].0.skip(
            spec_num_cells(d, prefixed)[0].0.len() - dec(d.added as nat).len(),
        ) == dec(d.added as nat),
        d.deleted != 0 ==> spec_num_cells(d, prefixed)[1].0.skip(
            spec_num_cells(d, prefixed)[1].0.len() - dec(d.deleted as nat).len(),
        ) == dec(d.deleted as nat),
        d.modified != 0 ==> spec_num_cells(d, prefixed)[2].0.skip(
            spec_num_cells(d, prefixed)[2].0.len() - dec(d.modified as nat).len(),
        ) == dec(d.modified as nat),
{
    let cells = spec_num_cells(d, prefixed);
    if d.added != 0 {
        let t = cells[0].0;
        assert(t.skip(t.len() - dec(d.added as nat).len()) =~= dec(d.added as nat));
    }
    if d.deleted != 0 {
        let t = cells[1].0;
        assert(t.skip(t.len() - dec(d.deleted as nat).len()) =~= dec(d.deleted as nat));
    }
    if d.modified != 0 {
        let t = cells[2].0;
        assert(t.skip(t.len() - dec(d.modified as nat).len()) =~= dec(d.modified as nat));
    }
}

/// Every character of a decimal representation is a digit.
proof fn lemma_dec_digits(n: nat)
    ensures
        forall|i: int| 0 <= i < dec(n).len() ==> 48 <= #[trigger] (dec(n)[i] as u32) <= 57,
    decreases n,
{
    if n >= 10 {
        lemma_dec_digits(n / 10);
        assert(dec(n) == dec(n / 10).push(digit_char(n % 10)));
    }
}

/// A count and an ancestor reference name the same commits: `-n N` gives
/// the range that the single argument `HEAD~N` gives, `HEAD~N..HEAD`.
pub proof fn law_count_is_ancestor_range(n: usize)
    requires
        n > 0,
    ensures
        spec_range_for(n, Seq::empty()) == spec_range_for(0, seq!["HEAD~"@ + dec(n as nat)]),
{
    let r = "HEAD~"@ + dec(n as nat);
    lemma_dec_digits(n as nat);
    reveal_strlit("HEAD~");
    reveal_strlit("..");
    assert forall|i: int| !occurs_at(r, ".."@, i) by {
        if occurs_at(r, ".."@, i) {
            assert(r.subrange(i, i + 2)[0] == '.');
            assert(r[i] == '.');
            if i >= 5 {
                assert(r[i] == dec(n as nat)[i - 5]);
                assert(48 <= (dec(n as nat)[i - 5] as u32));
            } else {
                assert(r[i] == "HEAD~"@[i]);
            }
        }
    }
    assert(!contains(r, ".."@));
}

/// git's C-style quoting of one byte of a path: backslash, double quote,
/// tab and newline get a backslash escape, a byte of 0x80 or above becomes
/// a backslash and three octal digits, any other byte stays.
pub open spec fn quote_byte(b: u8) -> Seq<u8> {
    if b == 92 {
        seq![92u8, 92u8]
    } else if b == 34 {
        seq![92u8, 34u8]
    } else if b == 9 {
        seq![92u8, 116u8]
    } else if b == 10 {
        seq![92u8, 110u8]
    } else if b >= 128 {
        seq![92u8, (48 + b / 64) as u8, (48 + (b / 8) % 8) as u8, (48 + b % 8) as u8]
    } else {
        seq![b]
    }
}

/// git's C-style quoting of a byte sequence (without the surrounding
/// double quotes).
pub open spec fn git_quote(bs: Seq<u8>) -> Seq<u8>
    decreases bs.len(),
{
    if bs.len() == 0 {
        seq![]
    } else {
        quote_byte(bs[0]) + git_quote(bs.skip(1))
    }
}

/// The characters of ASCII bytes.
pub open spec fn ascii_chars(bs: Seq<u8>) -> Seq<char> {
    bs.map_values(|b: u8| b as char)
}

/// Every byte is ASCII.
pub open spec fn all_ascii(bs: Seq<u8>) -> bool {
    forall|i: int| 0 <= i < bs.len() ==> #[trigger] bs[i] < 128
}

proof fn lemma_octal_digits(b: u8)
    requires
        b >= 128,
    ensures
        ((b / 64) * 8 + (b / 8) % 8) * 8 + b % 8 == b,
        2 <= b / 64 <= 3,
{
    assert(((b / 64) * 8 + (b / 8) % 8) * 8 + b % 8 == b) by (bit_vector);
    assert(b >= 128 ==> 2 <= b / 64 <= 3) by (bit_vector);
}

proof fn lemma_unescape_quoted_byte(b: u8, r: Seq<u8>)
    ensures
        crate::diff::unescape(quote_byte(b) + r) == seq![b] + crate::diff::unescape(r),
{
    let q = quote_byte(b);
    let bs = q + r;
    if b == 92 || b == 34 || b == 9 || b == 10 {
        assert(bs.skip(2) =~= r);
    } else if b >= 128 {
        lemma_octal_digits(b);
        let t = bs.skip(1);
        assert(t[0] == q[1] && t[1] == q[2] && t[2] == q[3]);
        assert(crate::diff::octal_len(t) == 3);
        assert(crate::diff::octal_value(t, 3) == b);
        assert(bs.skip(4) =~= r);
    } else {
        assert(bs.skip(1) =~= r);
    }
}

proof fn lemma_unescape_git_quote(bs: Seq<u8>)
    ensures
        crate::diff::unescape(git_quote(bs)) == bs,
        all_ascii(git_quote(bs)),
    decreases bs.len(),
{
    if bs.len() > 0 {
        lemma_unescape_git_quote(bs.skip(1));
        lemma_unescape_quoted_byte(bs[0], git_quote(bs.skip(1)));
        assert(seq![bs[0]] + bs.skip(1) =~= bs);
        let q = quote_byte(bs[0]);
        if bs[0] >= 128 {
            lemma_octal_digits(bs[0]);
        }
        assert(all_ascii(q));
        let g = git_quote(bs);
        assert forall|i: int| 0 <= i < g.len() implies #[trigger] g[i] < 128 by {
            if i < q.len() {
                assert(g[i] == q[i]);
            } else {
                assert(g[i] == git_quote(bs.skip(1))[i - q.len()]);
            }
        }
    } else {
        assert(git_quote(bs) =~= Seq::<u8>::empty());
    }
}

proof fn lemma_encode_ascii(bs: Seq<u8>)
    requires
        all_ascii(bs),
    ensures
        encode_utf8(ascii_chars(bs)) == bs,
    decreases bs.len(),
{
    if bs.len() > 0 {
        let cs = ascii_chars(bs);
        assert(cs.drop_first() =~= ascii_chars(bs.skip(1)));
        assert(all_ascii(bs.skip(1)));
        lemma_encode_ascii(bs.skip(1));
        let b = bs[0];
        assert(b < 128);
        let v = (cs[0] as u32);
        assert(v == b);
        assert((v & 0x7F) as u8 == v) by (bit_vector)
            requires
                v < 128,
        ;
        assert(encode_utf8(cs) == encode_scalar(v) + encode_utf8(cs.drop_first()));
        assert(encode_utf8(cs) =~= bs);
    } else {
        assert(ascii_chars(bs) =~= Seq::<char>::empty());
    }
}

/// Undoing git's quoting gives back the path: for any path `s`, the quoted
/// form (double quotes around git's C-style escapes of its UTF-8 bytes)
/// unquotes to `s`.
pub proof fn law_unquote_undoes_quoting(s: Seq<char>)
    ensures
        unquote(seq!['"'] + ascii_chars(git_quote(encode_utf8(s))) + seq!['"']) == s,
{
    let g = git_quote(encode_utf8(s));
    let q = ascii_chars(g);
    let p = seq!['"'] + q + seq!['"'];
    lemma_unescape_git_quote(encode_utf8(s));
    lemma_encode_ascii(g);
    assert(p.subrange(1, p.len() - 1) =~= q);
    assert(unquoted_bytes(p) == encode_utf8(s));
    encode_utf8_valid_utf8(s);
    encode_utf8_decode_utf8(s);
}

/// Escaped text holds no markup character: no `<`, `>` or `"` is left in
/// the HTML escape of any text, so text from the repository cannot open
/// or close a tag or an attribute.
pub proof fn law_escape_has_no_markup(s: Seq<char>)
    ensures
        !spec_escape(s).contains('<'),
        !spec_escape(s).contains('>'),
        !spec_escape(s).contains('"'),
    decreases s.len(),
{
    if s.len() > 0 {
        law_escape_has_no_markup(s.drop_last());
        let e = spec_escape(s);
        let pre = spec_escape(s.drop_last());
        let t = esc_char(s.last());
        reveal_strlit("&amp;");
        reveal_strlit("&lt;");
        reveal_strlit("&gt;");
        reveal_strlit("&quot;");
        assert(!t.contains('<') && !t.contains('>') && !t.contains('"'));
        assert forall|i: int| 0 <= i < e.len() implies e[i] != '<' && e[i] != '>' && e[i] != '"' by {
            if i < pre.len() {
                assert(e[i] == pre[i]);
            } else {
                assert(e[i] == t[i - pre.len()]);
            }
        }
    } else {
        assert(spec_escape(s) =~= Seq::<char>::empty());
    }
}

/// The verbose terminal report is the plain report followed by the
/// top-files section: a heading line, then one line for each of the first
/// min(10, rows) files of the ranking, in ranking order.
#[verifier::spinoff_prover]
pub proof fn law_verbose_appends_top_files(rep: crate::collect::ReportView, mode: ColorMode)
    ensures
        ({
            let idx = top_order_of(rep.rows);
            let n = if rep.rows.len() < 10 {
                rep.rows.len() as int
            } else {
                10
            };
            spec_render(rep, mode, true, idx) == spec_render(rep, mode, false, idx) + seq![' ']
                + spec_paint(mode, Ink::Faint, "变更最大的文件:"@) + seq!['\n'] + file_lines(
                mode,
                rep.rows,
                idx,
                n,
            )
        }),
{
    let idx = top_order_of(rep.rows);
    let body = spec_title_line(mode, rep) + spec_rule(mode, '━') + spec_header_line(mode)
        + spec_rule(mode, '━') + spec_groups_text(mode, rep.by_lang) + spec_rule(mode, '━')
        + spec_totals_text(mode, rep) + spec_rule(mode, '━');
    let files = spec_files_text(mode, rep, idx);
    assert(spec_render(rep, mode, true, idx) == body + files);
    assert(spec_render(rep, mode, false, idx) == body + Seq::<char>::empty());
    assert(body + Seq::<char>::empty() =~= body);
    let n = if rep.rows.len() < 10 {
        rep.rows.len() as int
    } else {
        10
    };
    let head = seq![' '] + spec_paint(mode, Ink::Faint, "变更最大的文件:"@) + seq!['\n'];
    assert(files == head + file_lines(mode, rep.rows, idx, n));
    assert(body + files =~= body + head + file_lines(mode, rep.rows, idx, n));
}

proof fn lemma_dec_value(n: nat)
    ensures
        dec(n).len() > 0,
        all_digits(dec(n)),
        digits_value(dec(n)) == n,
    decreases n,
{
    lemma_dec_digits(n);
    if n >= 10 {
        lemma_dec_value(n / 10);
        let d = dec(n);
        assert(d.drop_last() =~= dec(n / 10));
        assert(d.last() == digit_char(n % 10));
        assert((digit_char(n % 10) as u32) == 48 + n % 10);
        assert(digits_value(d) == digits_value(dec(n / 10)) * 10 + ((d.last() as u32) - 48) as nat);
    } else {
        let d = dec(n);
        assert(d.drop_last() =~= Seq::<char>::empty());
        assert(d.last() == digit_char(n));
        assert((digit_char(n) as u32) == 48 + n);
        assert(digits_value(d.drop_last()) == 0);
        assert(digits_value(d) == digits_value(d.drop_last()) * 10 + ((d.last() as u32) - 48) as nat);
    }
    assert forall|i: int| 0 <= i < dec(n).len() implies is_digit(#[trigger] dec(n)[i]) by {
        assert(48 <= #[verifier::truncate] (dec(n)[i] as u32) <= 57);
    }
}

/// Decimal text reads back: the count printed by `dec` parses to the same
/// count.
pub proof fn law_count_reads_back(n: usize)
    ensures
        parse_usize(dec(n as nat)) == Some(n),
{
    lemma_dec_value(n as nat);
    assert(is_digit(dec(n as nat)[0]));
    assert(unsigned_digits(dec(n as nat)) == dec(n as nat));
}

/// `-n N` and the single argument `HEAD~N` are the same request: both
/// command lines parse, and the range each one asks for is `HEAD~N..HEAD`.
pub proof fn law_count_flag_is_ancestor_ref(n: usize)
    requires
        n > 0,
    ensures
        ({
            let by_count = spec_parse_args(seq!["-n"@, dec(n as nat)]);
            let by_ref = spec_parse_args(seq!["HEAD~"@ + dec(n as nat)]);
            &&& by_count is Ok && by_count->Ok_0 is Run
            &&& by_ref is Ok && by_ref->Ok_0 is Run
            &&& spec_range_for(by_count->Ok_0->Run_0.n, by_count->Ok_0->Run_0.refs) == spec_range_for(
                by_ref->Ok_0->Run_0.n,
                by_ref->Ok_0->Run_0.refs,
            )
            &&& spec_range_for(by_count->Ok_0->Run_0.n, by_count->Ok_0->Run_0.refs) == Ok::<
                Seq<char>,
                Seq<char>,
            >("HEAD~"@ + dec(n as nat) + "..HEAD"@)
        }),
{
    let d = dec(n as nat);
    law_count_reads_back(n);
    law_count_is_ancestor_range(n);
    reveal_strlit("-n");
    reveal_strlit("n");
    reveal_strlit("--");
    reveal_strlit("-");
    reveal_strlit("HEAD~");
    // `-n` names the flag `n`
    let a = "-n"@;
    assert(a.len() == 2 && a[0] == '-' && a[1] == 'n');
    assert(a.take(2)[1] != "--"@[1]);
    assert(!starts_with(a, "--"@));
    assert(a.take(1) =~= "-"@);
    assert(starts_with(a, "-"@));
    assert(a.skip(1) =~= "n"@);
    assert(!exists|i: int| first_at("n"@, '=', i));
    assert(flag_of(a) == Some(("n"@, None::<Seq<char>>)));
    let argv1 = seq![a, d];
    assert(parse_from(argv1, 2, ArgsView { n, ..default_args() }) == Ok::<ActionView, Seq<char>>(
        ActionView::Run(ArgsView { n, ..default_args() }),
    ));
    // `HEAD~N` is positional
    let r = "HEAD~"@ + d;
    assert(r[0] == 'H');
    assert(r.take(2)[0] == 'H' && r.take(1)[0] == 'H');
    assert(!starts_with(r, "--"@) && !starts_with(r, "-"@));
    assert(flag_of(r) is None);
    let argv2 = seq![r];
    assert(default_args().refs.push(r) =~= seq![r]);
    assert(parse_from(argv2, 1, ArgsView { refs: seq![r], ..default_args() }) == Ok::<
        ActionView,
        Seq<char>,
    >(ActionView::Run(ArgsView { refs: seq![r], ..default_args() })));
}

/// A hunk header counts its own lines only: a header of `o` old and `n`
/// new lines, read at any point of a file's block, adds min(o, n) modified
/// lines, `n - min(o, n)` added and `o - min(o, n)` deleted lines to the
/// counts so far, and changes neither path nor the binary mark.
pub proof fn law_hunk_line_counts(b: BlockView, line: Seq<char>, o: usize, n: usize)
    requires
        spec_hunk(line) == Some((o, n)),
        b.stat.modified + (if o <= n { o } else { n }) <= usize::MAX,
        b.stat.added + n <= usize::MAX,
        b.stat.deleted + o <= usize::MAX,
    ensures
        ({
            let m = if o <= n { o } else { n };
            let after = spec_feed(b, line);
            &&& after.stat.modified == b.stat.modified + m
            &&& after.stat.added == b.stat.added + (n - m)
            &&& after.stat.deleted == b.stat.deleted + (o - m)
            &&& after.stat.binary == b.stat.binary
            &&& after.old_path == b.old_path
            &&& after.new_path == b.new_path
        }),
{
    reveal(spec_feed);
    reveal_strlit("@@ -");
    reveal_strlit("--- ");
    reveal_strlit("+++ ");
    reveal_strlit("rename to ");
    reveal_strlit("Binary files ");
    assert(starts_with(line, "@@ -"@));
    assert(line.take(4)[0] == '@');
    assert(line[0] == '@');
    assert(!starts_with(line, "--- "@)) by {
        if starts_with(line, "--- "@) {
            assert(line.take(4)[0] == '-');
        }
    }
    assert(!starts_with(line, "+++ "@)) by {
        if starts_with(line, "+++ "@) {
            assert(line.take(4)[0] == '+');
        }
    }
    assert(!starts_with(line, "rename to "@)) by {
        if starts_with(line, "rename to "@) {
            assert(line.take(10)[0] == 'r');
        }
    }
    assert(!starts_with(line, "Binary files "@)) by {
        if starts_with(line, "Binary files "@) {
            assert(line.take(13)[0] == 'B');
        }
    }
}

proof fn lemma_ends_differ(name: Seq<char>, a: Seq<char>, b: Seq<char>)
    requires
        ends_with(name, a),
        a.len() > 0,
        b.len() > 0,
        a.last() != b.last(),
    ensures
        !ends_with(name, b),
{
    assert(name.skip(name.len() - a.len()).last() == name.last());
    if ends_with(name, b) {
        assert(name.skip(name.len() - b.len()).last() == name.last());
    }
}

/// Python files under a test directory are tests: a `.py` file (not
/// generated, not under `vendor` or `node_modules`) with a directory named
/// `test` or `tests` at any depth of its path is a Python test.
pub proof fn law_python_under_test_dir(path: Seq<char>)
    requires
        ({
            let parts = split_char(path, '/');
            let name = parts.last();
            &&& ends_with(name, ".py"@)
            &&& !contains(name, "_pb2"@)
            &&& forall|i: int|
                0 <= i < parts.len() - 1 ==> #[trigger] parts[i] != "vendor"@ && parts[i]
                    != "node_modules"@
            &&& exists|i: int|
                0 <= i < parts.len() - 1 && (#[trigger] parts[i] == "test"@ || parts[i] == "tests"@)
        }),
    ensures
        spec_classify(path) == Cat::PyTest,
{
    let parts = split_char(path, '/');
    let name = parts.last();
    let dirs = parts.drop_last();
    reveal_strlit(".py");
    reveal_strlit(".pb.go");
    reveal_strlit(".pb.gw.go");
    reveal_strlit("_test.go");
    reveal_strlit(".go");
    lemma_ends_differ(name, ".py"@, ".pb.go"@);
    lemma_ends_differ(name, ".py"@, ".pb.gw.go"@);
    lemma_ends_differ(name, ".py"@, "_test.go"@);
    lemma_ends_differ(name, ".py"@, ".go"@);
    assert(!some_dir_is(dirs, "vendor"@, "node_modules"@)) by {
        if some_dir_is(dirs, "vendor"@, "node_modules"@) {
            let i = choose|i: int| 0 <= i < dirs.len() && (dirs[i] == "vendor"@ || dirs[i] == "node_modules"@);
            assert(dirs[i] == parts[i]);
        }
    }
    let i = choose|i: int| 0 <= i < parts.len() - 1 && (#[trigger] parts[i] == "test"@ || parts[i] == "tests"@);
    assert(dirs[i] == parts[i]);
    assert(some_dir_is(dirs, "test"@, "tests"@));
}

/// The HTML summary tiles show the totals over every changed file: the
/// added, deleted and modified tiles carry the sums of those counts over
/// all file rows, code, tests and other files alike, and a tile is left
/// out exactly when its sum is 0.
pub proof fn law_tiles_show_row_totals(
    range_spec: Seq<char>,
    diff_text: Seq<char>,
    ns_text: Seq<char>,
    numstat_text: Seq<char>,
    rev_count: Option<Seq<char>>,
)
    requires
        collect_ok(diff_text, ns_text, numstat_text),
    ensures
        ({
            let rep = spec_collect(range_spec, diff_text, ns_text, numstat_text, rev_count);
            let all = sum_rows(rep.rows, |c: Cat| true);
            spec_tiles(rep) == crate::html::when(all.0 != 0, tile("add"@, "总新增"@, all.0))
                + crate::html::when(all.1 != 0, tile("del"@, "总删除"@, all.1))
                + crate::html::when(all.2 != 0, tile("mod"@, "总修改"@, all.2))
        }),
{
    law_totals_cover_all_files(range_spec, diff_text, ns_text, numstat_text, rev_count);
}

/// Bars compare across every row shown: the language section scales all
/// its bars to the largest changed-line total of the five categories (Go
/// and Python code and tests, and other files): for that largest total
/// `m`, the section is the one with bars scaled to `m`.
pub proof fn law_bar_scale_is_largest_row(mode: ColorMode, langs: LangTable, m: int)
    requires
        forall|c: Cat| dim_total(#[trigger] langs.at(c).lines) <= m,
        exists|c: Cat| dim_total(#[trigger] langs.at(c).lines) == m,
    ensures
        spec_groups_text(mode, langs) == groups_text_at(mode, langs, m),
{
    assert(dim_total(langs.at(Cat::GoCode).lines) <= m);
    assert(dim_total(langs.at(Cat::PyCode).lines) <= m);
    assert(dim_total(langs.at(Cat::GoTest).lines) <= m);
    assert(dim_total(langs.at(Cat::PyTest).lines) <= m);
    assert(dim_total(langs.at(Cat::Other).lines) <= m);
    let c = choose|c: Cat| dim_total(#[trigger] langs.at(c).lines) == m;
    assert(scale_max(langs) == m);
}

/// The row with the largest total gets a full bar: scaled to its own
/// total, a nonzero dimension's bar is `BAR_W` cells long, and its solid
/// segments fill it.
pub proof fn law_full_bar_at_scale(d: crate::collect::Dim)
    requires
        dim_total(d) > 0,
    ensures
        bar_len(d, dim_total(d)) == BAR_W,
        sum3(bar_segs(d, dim_total(d))) == BAR_W,
{
    let t = dim_total(d);
    assert((36 * t + t) / (2 * t) == 18) by (nonlinear_arith)
        requires
            t > 0,
    ;
    crate::term::law_bar_segments(d, t);
}

/// The hunk statistics that row `k` starts from: the `-U0` parse's entry
/// for its path when this is the first row with that path, else none.
pub open spec fn hunk_stat_of(rows: Seq<RowView>, k: int, dm: Map<Seq<char>, FileStat>) -> FileStat {
    let p = rows[k].path;
    if dm.contains_key(p) && (forall|j: int| 0 <= j < k ==> rows[j].path != p) {
        dm[p]
    } else {
        crate::diff::zero_stat()
    }
}

/// Row `k`'s modified share is the smallest of the hunk-paired modified
/// count and numstat's added and deleted counts (for a path numstat lists);
/// a path numstat does not list keeps its hunk statistics.
pub open spec fn share_ok(
    rows: Seq<RowView>,
    k: int,
    dm: Map<Seq<char>, FileStat>,
    nsm: Map<Seq<char>, NumStat>,
) -> bool {
    let h = hunk_stat_of(rows, k, dm);
    let p = rows[k].path;
    if nsm.contains_key(p) {
        let a = nsm[p].0;
        let d = nsm[p].1;
        let m = rows[k].stat.modified;
        &&& m <= h.modified && m <= a && m <= d
        &&& (m == h.modified || m == a || m == d)
    } else {
        rows[k].stat == h
    }
}

/// The pool of unclaimed diff statistics holds the parse's entries for the
/// paths no row has taken yet.
pub open spec fn pool_ok(acc: Acc, dm: Map<Seq<char>, FileStat>) -> bool {
    forall|p: Seq<char>|
        #![trigger acc.stats.contains_key(p)]
        (acc.stats.contains_key(p) <==> (dm.contains_key(p) && forall|j: int|
            0 <= j < acc.rows.len() ==> acc.rows[j].path != p)) && (acc.stats.contains_key(p)
            ==> acc.stats[p] == dm[p])
}

proof fn lemma_fold_shares(
    ls: Seq<Seq<char>>,
    init: Acc,
    dm: Map<Seq<char>, FileStat>,
    nsm: Map<Seq<char>, NumStat>,
)
    requires
        init.stats == dm,
        init.rows.len() == 0,
    ensures
        pool_ok(collect_fold(ls, init, nsm), dm),
        forall|k: int|
            0 <= k < collect_fold(ls, init, nsm).rows.len() ==> share_ok(
                collect_fold(ls, init, nsm).rows,
                k,
                dm,
                nsm,
            ),
    decreases ls.len(),
{
    if ls.len() == 0 {
        assert(pool_ok(init, dm));
    } else {
        lemma_fold_shares(ls.drop_last(), init, dm, nsm);
        let acc = collect_fold(ls.drop_last(), init, nsm);
        let next = collect_step(acc, ls.last(), nsm);
        assert(next == collect_fold(ls, init, nsm));
        match ns_fields(ls.last()) {
            None => {},
            Some((status, path)) => {
                let stat = file_stat(acc.stats, nsm, path);
                let row = RowView { status, path, cat: crate::classify::spec_classify(path), stat };
                assert(next.rows == acc.rows.push(row));
                let n = acc.rows.len() as int;
                // the new row starts from the pool's entry, which is the
                // parse's entry exactly when no earlier row took the path
                assert(hunk_stat_of(next.rows, n, dm) == (if acc.stats.contains_key(path) {
                    acc.stats[path]
                } else {
                    crate::diff::zero_stat()
                })) by {
                    assert(acc.stats.contains_key(path) ==> acc.stats[path] == dm[path]);
                    assert forall|j: int| 0 <= j < n implies next.rows[j] == acc.rows[j] by {}
                }
                assert(share_ok(next.rows, n, dm, nsm));
                assert forall|k: int| 0 <= k < next.rows.len() implies share_ok(next.rows, k, dm, nsm) by {
                    if k < n {
                        assert(next.rows[k] == acc.rows[k]);
                        assert(share_ok(acc.rows, k, dm, nsm));
                        assert forall|j: int| 0 <= j < k implies next.rows[j] == acc.rows[j] by {}
                        assert(hunk_stat_of(next.rows, k, dm) == hunk_stat_of(acc.rows, k, dm));
                    }
                }
                assert forall|p: Seq<char>| #![trigger next.stats.contains_key(p)]
                    (next.stats.contains_key(p) <==> (dm.contains_key(p) && forall|j: int|
                        0 <= j < next.rows.len() ==> next.rows[j].path != p)) && (
                    next.stats.contains_key(p) ==> next.stats[p] == dm[p]) by {
                    assert(acc.stats.contains_key(p) <==> (dm.contains_key(p) && forall|j: int|
                        0 <= j < acc.rows.len() ==> acc.rows[j].path != p));
                    if p != path {
                        if dm.contains_key(p) && (forall|j: int| 0 <= j < acc.rows.len() ==> acc.rows[j].path != p) {
                            assert forall|j: int| 0 <= j < next.rows.len() implies next.rows[j].path != p by {
                                if j < n {
                                    assert(next.rows[j] == acc.rows[j]);
                                }
                            }
                        }
                        if dm.contains_key(p) && (forall|j: int| 0 <= j < next.rows.len() ==> next.rows[j].path != p) {
                            assert forall|j: int| 0 <= j < acc.rows.len() implies acc.rows[j].path != p by {
                                assert(next.rows[j] == acc.rows[j]);
                            }
                        }
                    } else {
                        assert(next.rows[n].path == p);
                    }
                }
            },
        }
    }
}

/// The modified share comes from the `-U0` hunk pairing, capped by
/// numstat: in every report, a file numstat lists has as modified lines the
/// smallest of its hunk-paired modified lines (from the diff parse, taken
/// by the first row of its path) and numstat's added and deleted counts;
/// a file numstat does not list keeps the diff parse's statistics.
pub proof fn law_modified_share_is_hunk_pairing(
    range_spec: Seq<char>,
    diff_text: Seq<char>,
    ns_text: Seq<char>,
    numstat_text: Seq<char>,
    rev_count: Option<Seq<char>>,
)
    ensures
        ({
            let rows = spec_collect(range_spec, diff_text, ns_text, numstat_text, rev_count).rows;
            forall|k: int|
                0 <= k < rows.len() ==> share_ok(
                    rows,
                    k,
                    crate::diff::spec_parse_diff(diff_text),
                    spec_parse_numstat(numstat_text),
                )
        }),
{
    let dm = crate::diff::spec_parse_diff(diff_text);
    lemma_fold_shares(lines(ns_text), init_acc(dm), dm, spec_parse_numstat(numstat_text));
}

/// Third-party code is never counted as the project's own: a path with a
/// directory named `vendor` or `node_modules` at any depth is `Other`, and
/// so is a generated Python file (`*_pb2*.py`) anywhere.
pub proof fn law_third_party_and_generated_are_other(path: Seq<char>)
    ensures
        ({
            let parts = split_char(path, '/');
            (exists|i: int|
                0 <= i < parts.len() - 1 && (#[trigger] parts[i] == "vendor"@ || parts[i]
                    == "node_modules"@)) ==> spec_classify(path) == Cat::Other
        }),
        ({
            let name = split_char(path, '/').last();
            contains(name, "_pb2"@) && ends_with(name, ".py"@) ==> spec_classify(path) == Cat::Other
        }),
{
    let parts = split_char(path, '/');
    let dirs = parts.drop_last();
    if exists|i: int|
        0 <= i < parts.len() - 1 && (#[trigger] parts[i] == "vendor"@ || parts[i] == "node_modules"@) {
        let i = choose|i: int|
            0 <= i < parts.len() - 1 && (#[trigger] parts[i] == "vendor"@ || parts[i] == "node_modules"@);
        assert(dirs[i] == parts[i]);
        assert(some_dir_is(dirs, "vendor"@, "node_modules"@));
    }
}

} // verus!
