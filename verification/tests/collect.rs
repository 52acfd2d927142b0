use lib::collect::parse_numstat;

#[test]
fn parse_numstat_normal_rename_binary() {
    // plain + rename (by new path) + binary
    let text = "12\t3\ta/b.go\x004\t5\t\x00old/x.py\x00new/x.py\x00-\t-\tlogo.png\x00";
    let m = parse_numstat(text);
    assert_eq!(m.get("a/b.go"), Some((12, 3, false)));
    assert_eq!(m.get("new/x.py"), Some((4, 5, false)));
    assert!(!m.contains_key("old/x.py"));
    assert_eq!(m.get("logo.png"), Some((0, 0, true)));
}
