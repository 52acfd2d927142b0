use lib::classify::Cat;
use lib::collect::{collect, collect_checked, parse_numstat, Dim, Report};
use lib::diff::range_for;
use lib::term::{bar_cells, num_cells, Ink};

fn sample() -> (String, String, String) {
    // a.go: one paired hunk (2 old, 3 new) and a pure addition hunk;
    // b_test.go: pure addition; c.md: pure deletion; d.py: binary.
    let diff = "diff --git a/a.go b/a.go\n--- a/a.go\n+++ b/a.go\n@@ -1,2 +1,3 @@\n@@ -9,0 +10,2 @@\n\
diff --git a/b_test.go b/b_test.go\n--- /dev/null\n+++ b/b_test.go\n@@ -0,0 +1,4 @@\n\
diff --git a/c.md b/c.md\n--- a/c.md\n+++ /dev/null\n@@ -1,5 +0,0 @@\n\
diff --git a/d.py b/d.py\nBinary files a/d.py and b/d.py differ\n";
    let ns = "M\ta.go\nA\tb_test.go\nD\tc.md\nM\td.py\n";
    let numstat = "5\t2\ta.go\x004\t0\tb_test.go\x000\t5\tc.md\x00-\t-\td.py\x00";
    (diff.to_string(), ns.to_string(), numstat.to_string())
}

fn sample_report() -> Report {
    let (diff, ns, numstat) = sample();
    collect("x..y", &diff, &ns, &numstat, Some(" 4\n"))
}

#[test]
fn rows_agree_with_numstat() {
    let (_, _, numstat) = sample();
    let rep = sample_report();
    let m = parse_numstat(&numstat);
    for r in &rep.file_rows {
        let (a, d, bin) = m.get(&r.path).expect("listed by numstat");
        assert_eq!(r.stat.added + r.stat.modified, a, "{}", r.path);
        assert_eq!(r.stat.deleted + r.stat.modified, d, "{}", r.path);
        assert!(!bin || r.stat.binary, "{}", r.path);
    }
    let a = &rep.file_rows[0];
    assert_eq!((a.stat.added, a.stat.deleted, a.stat.modified), (3, 0, 2));
}

#[test]
fn dimensions_are_sums_of_rows() {
    let rep = sample_report();
    assert_eq!(rep.commits, 4);
    let sum = |sel: &dyn Fn(Cat) -> bool| {
        let mut d = Dim { added: 0, deleted: 0, modified: 0 };
        for r in rep.file_rows.iter().filter(|r| sel(r.cat)) {
            d.added += r.stat.added;
            d.deleted += r.stat.deleted;
            d.modified += r.stat.modified;
        }
        d
    };
    assert_eq!(rep.code, sum(&|c| c == Cat::GoCode || c == Cat::PyCode));
    assert_eq!(rep.test, sum(&|c| c == Cat::GoTest || c == Cat::PyTest));
    assert_eq!(rep.other, sum(&|c| c == Cat::Other));
    assert_eq!(rep.code, Dim { added: 3, deleted: 0, modified: 2 });
    assert_eq!(rep.test, Dim { added: 4, deleted: 0, modified: 0 });
    assert_eq!(rep.other, Dim { added: 0, deleted: 5, modified: 0 });
    assert_eq!(rep.files, Dim { added: 1, deleted: 1, modified: 2 });
    assert_eq!(rep.files.added + rep.files.deleted + rep.files.modified, rep.file_rows.len());
    assert_eq!(rep.by_lang.go_code.files, 1);
    assert_eq!(rep.by_lang.py_code.files, 1);
    assert_eq!(rep.by_lang.go_test.lines, Dim { added: 4, deleted: 0, modified: 0 });
    assert!(rep.file_rows[3].stat.binary);
}

#[test]
fn top_files_stable_order() {
    let rep = sample_report();
    let top: Vec<&str> = rep.top_files().iter().map(|r| r.path.as_str()).collect();
    // a.go 5, c.md 5 (tie keeps git's order), b_test.go 4, d.py 0
    assert_eq!(top, vec!["a.go", "c.md", "b_test.go", "d.py"]);
    assert_eq!(rep.top_order(), vec![0, 2, 1, 3]);
}

#[test]
fn unreadable_status_is_refused() {
    assert!(collect_checked("HEAD", "", "\tpath.go\n", "", None).is_none());
    assert!(collect_checked("HEAD", "", "é\tpath.go\n", "", None).is_none());
    let ok = collect_checked("HEAD", "", "M\tpath.go\nnot-a-status-line\n", "", None).expect("readable");
    assert_eq!(ok.file_rows.len(), 1);
    assert_eq!(ok.files, Dim { added: 0, deleted: 0, modified: 1 });
    assert_eq!(ok.commits, 0);
}

#[test]
fn rename_status_letter_and_commit_count() {
    let rep = collect("a..b", "", "R095\told.go\tnew.go\n", "", Some("x"));
    assert_eq!(rep.file_rows[0].status, "R");
    assert_eq!(rep.file_rows[0].path, "new.go");
    assert_eq!(rep.commits, 0);
    let rep = collect("HEAD", "", "", "", Some("7"));
    assert_eq!(rep.commits, 0);
}

#[test]
fn bar_segments_fill_scaled_length() {
    let cells = |d: &Dim, max: usize| -> Vec<(String, Ink)> {
        bar_cells(d, max).into_iter().map(|(s, i)| (s.into_iter().collect(), i)).collect()
    };
    // total 10 of max 10: full bar; shares 5/3/2 of 18 round down to
    // 9, 5, 3 and the missing cell goes to the largest count
    let c = cells(&Dim { added: 5, deleted: 3, modified: 2 }, 10);
    let lens: Vec<usize> = c.iter().map(|(s, _)| s.chars().count()).collect();
    assert_eq!(lens.iter().sum::<usize>(), 18);
    assert_eq!(c[0], ("█".repeat(10), Ink::Add));
    assert_eq!(c[1], ("█".repeat(5), Ink::Del));
    assert_eq!(c[2], ("█".repeat(3), Ink::Mod));
    assert_eq!(c[3], (String::new(), Ink::Track));
    // half the maximum: 9 cells, the rest is track
    let c = cells(&Dim { added: 5, deleted: 0, modified: 0 }, 10);
    assert_eq!(c[0], ("█".repeat(9), Ink::Add));
    assert_eq!(c[3], ("░".repeat(9), Ink::Track));
    // a tiny nonzero count still gets one cell
    let c = cells(&Dim { added: 1, deleted: 0, modified: 0 }, 1000);
    assert_eq!(c[0], ("█".to_string(), Ink::Add));
    assert_eq!(c[3], ("░".repeat(17), Ink::Track));
    // nothing to scale: one empty cell
    let c = cells(&Dim { added: 0, deleted: 0, modified: 0 }, 0);
    assert_eq!(c, vec![(String::new(), Ink::Plain)]);
}

#[test]
fn zero_counts_are_blank() {
    let c = num_cells(&Dim { added: 0, deleted: 12, modified: 0 }, true);
    let text: Vec<(String, Ink)> = c.into_iter().map(|(s, i)| (s.into_iter().collect(), i)).collect();
    assert_eq!(text[0], (" ".repeat(10), Ink::Plain));
    assert_eq!(text[1], ("       -12".to_string(), Ink::Del));
    assert_eq!(text[2], (" ".repeat(10), Ink::Plain));
    let c = num_cells(&Dim { added: 3, deleted: 0, modified: 0 }, false);
    let first: String = c[0].0.iter().collect();
    assert_eq!(first, "         3");
}

#[test]
fn count_matches_ancestor_ref() {
    for n in [1usize, 5, 10, 123] {
        let by_count = range_for(n, &[]);
        let by_ref = range_for(0, &[format!("HEAD~{n}")]);
        assert_eq!(by_count, by_ref);
        assert_eq!(by_count, Ok(format!("HEAD~{n}..HEAD")));
    }
}

#[test]
fn escaped_text_has_no_markup() {
    let e = lib::html::escape("<a href=\"x\">&'</a>");
    assert!(!e.contains('<') && !e.contains('>') && !e.contains('"'));
    assert_eq!(e, "&lt;a href=&quot;x&quot;&gt;&amp;'&lt;/a&gt;");
}

#[test]
fn verbose_report_extends_plain_report() {
    let rep = sample_report();
    let p = lib::term::Palette::new(false, None, None);
    let plain = lib::term::render(&rep, &p, false);
    let verbose = lib::term::render(&rep, &p, true);
    assert!(verbose.starts_with(&plain));
    let tail: Vec<&str> = verbose[plain.len()..].lines().collect();
    assert_eq!(tail.len(), 1 + rep.file_rows.len());
    assert_eq!(tail[0], " 变更最大的文件:");
    assert!(tail[1].contains("a.go") && tail[2].contains("c.md"));
}

#[test]
fn count_flag_reads_back() {
    use_cli_count(7);
    use_cli_count(42);
}

fn use_cli_count(n: usize) {
    let by_count = match lib::cli::parse_args(&["-n".to_string(), n.to_string()]) {
        Ok(lib::cli::Action::Run(a)) => a,
        _ => panic!("-n {n} refused"),
    };
    assert_eq!(by_count.n, n);
    let by_ref = match lib::cli::parse_args(&[format!("HEAD~{n}")]) {
        Ok(lib::cli::Action::Run(a)) => a,
        _ => panic!("HEAD~{n} refused"),
    };
    assert_eq!(range_for(by_count.n, &by_count.refs), range_for(by_ref.n, &by_ref.refs));
}
