use lib::diff::{
    binary_path, parse_diff, parse_diff_checked, parse_hunk_header, range_for, resolve_range,
    spec_count, unquote_path, FileStat,
};

fn stat(diff: &str, path: &str) -> FileStat {
    let stats = parse_diff(diff);
    stats
        .get(path)
        .unwrap_or_else(|| panic!("path {path:?} not found"))
}

#[test]
fn pure_addition() {
    let s = stat(
        "diff --git a/a.go b/a.go\nindex 000..111 100644\n--- a/a.go\n+++ b/a.go\n@@ -0,0 +5,3 @@\n+x\n+y\n+z\n",
        "a.go",
    );
    assert_eq!((s.added, s.deleted, s.modified), (3, 0, 0));
}

#[test]
fn paired_hunk_counts_as_modified() {
    // one hunk deletes 2 and adds 3: 2 modified, 1 added
    let s = stat(
        "diff --git a/a.py b/a.py\nindex 000..111 100644\n--- a/a.py\n+++ b/a.py\n@@ -10,2 +10,3 @@\n-old1\n-old2\n+new1\n+new2\n+new3\n",
        "a.py",
    );
    assert_eq!((s.added, s.deleted, s.modified), (1, 0, 2));
}

#[test]
fn multiple_hunks_and_default_count() {
    // a header without ",n" means one line
    let s = stat(
        "diff --git a/a.go b/a.go\nindex 000..111 100644\n--- a/a.go\n+++ b/a.go\n@@ -3 +3 @@\n-old\n+new\n@@ -10,2 +10,0 @@\n-gone1\n-gone2\n",
        "a.go",
    );
    assert_eq!((s.added, s.deleted, s.modified), (0, 2, 1));
}

#[test]
fn deleted_file_uses_old_path() {
    let s = stat(
        "diff --git a/dead.py b/dead.py\ndeleted file mode 100644\nindex 000..111\n--- a/dead.py\n+++ /dev/null\n@@ -1,4 +0,0 @@\n-a\n-b\n-c\n-d\n",
        "dead.py",
    );
    assert_eq!((s.added, s.deleted, s.modified), (0, 4, 0));
}

#[test]
fn binary_file_has_no_line_stats() {
    let s = stat(
        "diff --git a/logo.png b/logo.png\nindex 000..111 100644\nBinary files a/logo.png and b/logo.png differ\n",
        "logo.png",
    );
    assert!(s.binary);
    assert_eq!((s.added, s.deleted, s.modified), (0, 0, 0));
}

#[test]
fn rename_uses_new_path() {
    let s = stat(
        "diff --git a/old/name.go b/new/name.go\nsimilarity index 90%\nrename from old/name.go\nrename to new/name.go\n--- a/old/name.go\n+++ b/new/name.go\n@@ -5,1 +5,1 @@\n-x\n+y\n",
        "new/name.go",
    );
    assert_eq!((s.added, s.deleted, s.modified), (0, 0, 1));
}

#[test]
fn resolve_range_semantics() {
    let s = |v: &[&str]| v.iter().map(|s| s.to_string()).collect::<Vec<_>>();
    assert_eq!(resolve_range(&s(&["main", "feature"])), "main...feature");
    assert_eq!(resolve_range(&s(&["a..b"])), "a..b");
    assert_eq!(resolve_range(&s(&["a...b"])), "a...b");
    assert_eq!(resolve_range(&s(&["HEAD~5"])), "HEAD~5..HEAD");
    assert_eq!(resolve_range(&[]), "HEAD");
}

#[test]
fn unquote_octal_utf8_path() {
    // a quoted Chinese path (UTF-8 octal escapes)
    assert_eq!(unquote_path(r#""doc/\344\270\255.md""#), "doc/中.md");
    assert_eq!(unquote_path("plain/path.go"), "plain/path.go");
}

#[test]
fn unquote_escapes() {
    assert_eq!(unquote_path(r#""a\tb\nc\\d\"e""#), "a\tb\nc\\d\"e");
    // a lone quote is not a quoted path
    assert_eq!(unquote_path("\""), "\"");
    // octal stops after three digits
    assert_eq!(unquote_path(r#""\1011""#), "A1");
    // a trailing backslash is dropped
    assert_eq!(unquote_path(r#""ab\""#), "ab");
}

#[test]
fn resolve_range_more() {
    let s = |v: &[&str]| v.iter().map(|s| s.to_string()).collect::<Vec<_>>();
    // with three refs only the first counts
    assert_eq!(resolve_range(&s(&["x", "y", "z"])), "x..HEAD");
    assert_eq!(resolve_range(&s(&["v1..", "y", "z"])), "v1..");
}

#[test]
fn quoted_paths_and_binary_new_file() {
    let stats = parse_diff(
        "diff --git \"a/\\344\\270\\255.go\" \"b/\\344\\270\\255.go\"\n--- \"a/\\344\\270\\255.go\"\n+++ \"b/\\344\\270\\255.go\"\n@@ -1 +1,2 @@\n-a\n+b\n+c\ndiff --git a/img.png b/img.png\nnew file mode 100644\nBinary files /dev/null and b/img.png differ\n",
    );
    assert_eq!(stats.len(), 2);
    // the a/ b/ prefix sits inside the quotes, so it is kept
    let s = stats.get("b/中.go").unwrap();
    assert_eq!((s.added, s.deleted, s.modified, s.binary), (1, 0, 1, false));
    let b = stats.get("img.png").unwrap();
    assert!(b.binary);
    // a deleted binary file keeps its old path
    let d = parse_diff("diff --git a/x.bin b/x.bin\nBinary files a/x.bin and /dev/null differ\n");
    assert!(d.contains_key("x.bin"));
}

#[test]
fn lines_before_first_header_are_ignored() {
    let stats = parse_diff("@@ -1 +1 @@\n--- a/q.go\n+++ b/q.go\n");
    assert_eq!(stats.len(), 0);
    // CRLF line endings
    let s = stat("diff --git a/w.go b/w.go\r\n--- a/w.go\r\n+++ b/w.go\r\n@@ -1,2 +1 @@\r\n", "w.go");
    assert_eq!((s.added, s.deleted, s.modified), (0, 1, 1));
}

#[test]
fn overflowing_counts_are_refused() {
    let text = "diff --git a/a b/a\n+++ b/a\n@@ -0,0 +1,18446744073709551615 @@\n@@ -0,0 +1,1 @@\n";
    assert!(parse_diff_checked(text).is_none());
    let ok = "diff --git a/a b/a\n+++ b/a\n@@ -0,0 +1,18446744073709551615 @@\n";
    assert_eq!(parse_diff_checked(ok).unwrap().get("a").unwrap().added, usize::MAX);
}

#[test]
fn file_stat_total() {
    let s = FileStat { added: 3, deleted: 4, modified: 5, binary: false };
    assert_eq!(s.total(), 12);
    assert_eq!(FileStat::default(), FileStat { added: 0, deleted: 0, modified: 0, binary: false });
}

#[test]
fn range_for_count_and_refs() {
    let s = |v: &[&str]| v.iter().map(|s| s.to_string()).collect::<Vec<_>>();
    assert_eq!(range_for(5, &[]), Ok("HEAD~5..HEAD".to_string()));
    assert_eq!(range_for(12, &[]), Ok("HEAD~12..HEAD".to_string()));
    assert_eq!(
        range_for(3, &s(&["main"])),
        Err("-n 与位置参数不能同时使用".to_string())
    );
    assert_eq!(range_for(0, &s(&["main", "feature"])), Ok("main...feature".to_string()));
    assert_eq!(range_for(0, &[]), Ok("HEAD".to_string()));
}

fn chars(s: &str) -> Vec<char> {
    s.chars().collect()
}

#[test]
fn hunk_headers_and_counts() {
    assert_eq!(parse_hunk_header(&chars("@@ -3 +3,2 @@ fn x()")), Some((1, 2)));
    assert_eq!(parse_hunk_header(&chars("@@ -10,0 +11,4 @@")), Some((0, 4)));
    assert_eq!(parse_hunk_header(&chars("@@ -1,2 +1,3 @")), None);
    assert_eq!(parse_hunk_header(&chars("@@ -x +1 @@")), None);
    assert_eq!(parse_hunk_header(&chars("@@@ -1 +1 @@@")), None);
    assert_eq!(spec_count(&chars("7")), Some(1));
    assert_eq!(spec_count(&chars("7,0")), Some(0));
    assert_eq!(spec_count(&chars(",3")), None);
    assert_eq!(spec_count(&chars("7,")), None);
}

#[test]
fn binary_notice_paths() {
    let p = |s: &str| binary_path(&chars(s)).map(|v| v.into_iter().collect::<String>());
    assert_eq!(p("Binary files a/x.png and b/x.png differ"), Some("x.png".to_string()));
    assert_eq!(p("Binary files a/gone.bin and /dev/null differ"), Some("gone.bin".to_string()));
    assert_eq!(p("Binary files /dev/null and b/new.bin differ"), Some("new.bin".to_string()));
    assert_eq!(p("Binary files x and y differ!"), None);
    assert_eq!(p("Binary files only-one differ"), None);
}

#[test]
fn hunk_body_lines_never_set_paths() {
    // the removed line "-- note" prints as "--- note"; the file stays keyed
    // by its old path
    let text = "diff --git a/dead.sql b/dead.sql\ndeleted file mode 100644\n--- a/dead.sql\n+++ /dev/null\n@@ -1,2 +0,0 @@\n--- note\n-select 1;\n";
    let m = parse_diff(text);
    assert_eq!(m.len(), 1);
    assert!(!m.contains_key("note"));
    let s = m.get("dead.sql").expect("old path");
    assert_eq!((s.added, s.deleted, s.modified, s.binary), (0, 2, 0, false));
    // an added line "++ x" prints as "+++ x"
    let text = "diff --git a/a.go b/a.go\n--- a/a.go\n+++ b/a.go\n@@ -0,0 +1 @@\n+++ x\n";
    let m = parse_diff(text);
    assert_eq!(m.get("a.go").map(|s| s.added), Some(1));
    assert!(!m.contains_key("x"));
}

#[test]
fn quoting_round_trip() {
    // double quotes around git's escapes of the UTF-8 bytes
    assert_eq!(unquote_path("\"tab\\there \\\"q\\\" back\\\\slash \\344\\270\\255\""), "tab\there \"q\" back\\slash 中");
    assert_eq!(unquote_path("\"line\\nbreak\""), "line\nbreak");
}
