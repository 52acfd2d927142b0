use lib::collect::{collect, Dim};
use lib::html::{chips, escape, html_ok, render, scale_bases, HtmlWidths, SegWidths};

fn s(v: Vec<char>) -> String {
    v.into_iter().collect()
}

#[test]
fn escape_markup() {
    assert_eq!(escape("a<b>&\"c'"), "a&lt;b&gt;&amp;&quot;c'");
    assert_eq!(escape("&amp;"), "&amp;amp;");
    assert_eq!(escape(""), "");
}

#[test]
fn chips_skip_zero_counts() {
    let d = Dim { added: 2, deleted: 0, modified: 4 };
    assert_eq!(
        s(chips(&d, "个")),
        "<div class=\"barline\" style=\"gap:8px;flex-wrap:wrap\"><span class=\"chip add\"><i class=\"dot add\"></i>新增 <b>&nbsp;2</b>&nbsp;个</span><span class=\"chip mod\"><i class=\"dot mod\"></i>修改 <b>&nbsp;4</b>&nbsp;个</span></div>"
    );
}

#[test]
fn bar_with_widths() {
    let d = Dim { added: 3, deleted: 1, modified: 0 };
    let w = SegWidths { add: 30, del: 10, md: 0 };
    assert_eq!(
        s(lib::html::bar(&d, &w, "行")),
        "<div class=\"barline\"><div class=\"bar\"><i class=\"seg add\" style=\"width:30px\" title=\"新增 3 行\"></i><i class=\"seg del\" style=\"width:10px\" title=\"删除 1 行\"></i></div><div class=\"nums\"><span>新增 <b>3</b> 行</span><span>删除 <b>1</b> 行</span></div></div>"
    );
}

fn zero() -> SegWidths {
    SegWidths { add: 0, del: 0, md: 0 }
}

#[test]
fn html_report_sections() {
    let diff = "diff --git a/a.go b/a.go\n--- a/a.go\n+++ b/a.go\n@@ -1,2 +1,5 @@\ndiff --git a/<x>.md b/<x>.md\n--- a/<x>.md\n+++ /dev/null\n@@ -1 +0,0 @@\n";
    let ns = "M\ta.go\nD\t<x>.md\n";
    let numstat = "5\t2\ta.go\x000\t1\t<x>.md\x00";
    let rep = collect("a..b", diff, ns, numstat, Some("3"));
    assert!(html_ok(&rep));
    assert_eq!(scale_bases(&rep), (5, 5));
    let widths = HtmlWidths {
        code: SegWidths { add: 137, del: 4, md: 91 },
        test: zero(),
        other: SegWidths { add: 4, del: 46, md: 4 },
        go_code: SegWidths { add: 137, del: 4, md: 91 },
        py_code: zero(),
        go_test: zero(),
        py_test: zero(),
        files: vec![SegWidths { add: 60, del: 3, md: 40 }, SegWidths { add: 3, del: 20, md: 3 }],
    };
    let out = render(&rep, &widths);
    assert!(out.starts_with("<meta charset=\"utf-8\">\n"));
    assert!(out.contains("<title>Numeria · a..b</title>"));
    assert!(out.contains("<div class=\"meta\">3 个提交 · 2 个文件变更</div>"));
    assert!(out.contains("<div class=\"tile\"><div class=\"num\">3</div><div class=\"lbl\"><i class=\"dot add\"></i>总新增(行)</div></div>"));
    assert!(out.contains("<div class=\"dimrow\"><div class=\"name\">代码</div><div class=\"barline\"><div class=\"bar\"><i class=\"seg add\" style=\"width:137px\" title=\"新增 3 行\"></i>"));
    assert!(out.contains("<section><h2>按语言</h2>"));
    assert!(out.contains("<div class=\"name\">Go</div>"));
    assert!(out.contains("<tr><td><span class=\"st\">M</span></td><td class=\"path\">a.go</td><td class=\"cat\">Go</td><td class=\"n\">+3 ~2</td><td><div class=\"minibar\"><i class=\"seg add\" style=\"width:60px\"></i><i class=\"seg mod\" style=\"width:40px\"></i></div></td></tr>"));
    assert!(out.contains("<td class=\"path\">&lt;x&gt;.md</td><td class=\"cat\">其他</td><td class=\"n\">−1</td>"));
    assert!(out.ends_with("</footer>\n</main>"));
    // larger change first
    assert!(out.find("a.go</td>").unwrap() < out.find("&lt;x&gt;.md</td>").unwrap());
}
