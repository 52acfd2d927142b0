use lib::collect::collect;
use lib::term::{color_enabled, render, render_ok, ColorMode, Palette};

fn demo_outputs() -> (String, String, String) {
    let diff = "diff --git a/api/v1/api.pb.go b/api/v1/api.pb.go\nindex 1..2 100644\n--- a/api/v1/api.pb.go\n+++ b/api/v1/api.pb.go\n@@ -1 +1 @@\n-generated line 1\n+generated CHANGED 1\n\
diff --git a/app.py b/app.py\nindex 1..2 100644\n--- a/app.py\n+++ b/app.py\n@@ -5 +4,0 @@ def helper(y):\n-    return y * 2\n\
diff --git a/conf.yaml b/conf.yaml\nnew file mode 100644\nindex 0..1\n--- /dev/null\n+++ b/conf.yaml\n@@ -0,0 +1 @@\n+config: yes\n\
diff --git a/docs/README.md b/docs/README.md\ndeleted file mode 100644\nindex 1..0\n--- a/docs/README.md\n+++ /dev/null\n@@ -1,3 +0,0 @@\n-# Demo\n-\n-hello\n\
diff --git a/pkg/server/main.go b/pkg/server/main.go\nindex 1..2 100644\n--- a/pkg/server/main.go\n+++ b/pkg/server/main.go\n@@ -4 +4 @@ func A() int {\n-\treturn 1\n+\treturn 10\n@@ -9,0 +10,4 @@ func B() int {\n+\n+func D() int {\n+\treturn 4\n+}\n\
diff --git a/pkg/server/util.go b/pkg/server/util.go\nnew file mode 100644\nindex 0..1\n--- /dev/null\n+++ b/pkg/server/util.go\n@@ -0,0 +1,3 @@\n+package server\n+\n+var X = 1\n\
diff --git a/tests/test_app.py b/tests/test_app.py\nindex 1..2 100644\n--- a/tests/test_app.py\n+++ b/tests/test_app.py\n@@ -4,0 +5,3 @@ def test_handler():\n+\n+def test_two():\n+    assert True\n";
    let ns = "M\tapi/v1/api.pb.go\nM\tapp.py\nA\tconf.yaml\nD\tdocs/README.md\nM\tpkg/server/main.go\nA\tpkg/server/util.go\nM\ttests/test_app.py\n";
    let numstat = "1\t1\tapi/v1/api.pb.go\x000\t1\tapp.py\x001\t0\tconf.yaml\x000\t3\tdocs/README.md\x005\t1\tpkg/server/main.go\x003\t0\tpkg/server/util.go\x003\t0\ttests/test_app.py\x00";
    (diff.to_string(), ns.to_string(), numstat.to_string())
}

#[test]
fn demo_repo_report_text() {
    let (diff, ns, numstat) = demo_outputs();
    let rep = collect("main...feature", &diff, &ns, &numstat, Some("2\n"));
    assert!(render_ok(&rep, true));
    let text = render(&rep, &Palette::new(false, None, None), false);
    for want in [
        "Numeria · main...feature",
        "2 个提交 · 7 个文件变更",
        " Go                 2        +7                  ~1  ██████████████████",
        " Python             1                  -1            ██░░░░░░░░░░░░░░░░",
        " |- 测试            1        +3                      ███████░░░░░░░░░░░",
        " (合计)             2        +3        -1",
        " 其他非代码         3        +1        -3        ~1  ███████████░░░░░░░",
        " 总计(行)           7       +11        -4        ~2",
        " 文件(个)                     2         1         4",
    ] {
        assert!(text.contains(want), "missing {want:?}, got:\n{text}");
    }
    // zero cells stay blank: the test row shows only +3 and its bar
    let test_row = text.lines().find(|l| l.contains("|- 测试")).expect("test row");
    let has_deleted_num = test_row
        .as_bytes()
        .windows(2)
        .any(|w| w[0] == b'-' && w[1].is_ascii_digit());
    assert!(!has_deleted_num && !test_row.contains('~'));
}

#[test]
fn verbose_lists_top_files() {
    let (diff, ns, numstat) = demo_outputs();
    let rep = collect("main...feature", &diff, &ns, &numstat, Some("2\n"));
    let text = render(&rep, &Palette::new(false, None, None), true);
    let tail: Vec<&str> = text.lines().skip_while(|l| !l.contains("变更最大的文件")).collect();
    assert_eq!(tail[0], " 变更最大的文件:");
    assert_eq!(tail[1], "   M pkg/server/main.go  +4 ~1");
    assert_eq!(tail[2], "   D docs/README.md  -3");
    assert_eq!(tail[3], "   A pkg/server/util.go  +3");
    assert_eq!(tail[4], "   M tests/test_app.py  +3");
    assert_eq!(tail[5], "   M api/v1/api.pb.go  ~1");
    assert_eq!(tail[6], "   M app.py  -1");
    assert_eq!(tail[7], "   A conf.yaml  +1");
    assert_eq!(tail.len(), 8);
}

#[test]
fn empty_report_says_no_changes() {
    let rep = collect("HEAD", "", "", "", None);
    let text = render(&rep, &Palette::new(false, None, None), false);
    assert!(text.contains(" (无变更)"));
    assert!(text.starts_with(" Numeria · HEAD"));
    assert!(text.contains("0 个文件变更"));
    assert!(!text.contains("个提交"));
}

#[test]
fn colour_modes() {
    assert!(color_enabled("always", false, true));
    assert!(!color_enabled("never", true, false));
    assert!(color_enabled("auto", true, false));
    assert!(!color_enabled("auto", true, true));
    assert!(!color_enabled("auto", false, false));
    let p = Palette::new(true, Some("truecolor"), None);
    assert_eq!(p.paint(lib::term::Ink::Add, &['x']).iter().collect::<String>(), "\x1b[38;2;63;185;80mx\x1b[0m");
    let p = Palette::new(true, None, Some("xterm-256color"));
    assert_eq!(p.paint(lib::term::Ink::Del, &['x']).iter().collect::<String>(), "\x1b[38;5;210mx\x1b[0m");
    let p = Palette::new(true, None, Some("xterm"));
    assert_eq!(p.paint(lib::term::Ink::Mod, &['x']).iter().collect::<String>(), "\x1b[34mx\x1b[0m");
    let p = Palette::with_mode(ColorMode::Off);
    assert_eq!(p.paint(lib::term::Ink::Head, &['x']).iter().collect::<String>(), "x");
}
