use lib::cli::{parse_args, Action, Args};

fn argv(v: &[&str]) -> Vec<String> {
    v.iter().map(|s| s.to_string()).collect()
}

fn run_args(v: &[&str]) -> Args {
    match parse_args(&argv(v)) {
        Ok(Action::Run(a)) => a,
        Ok(Action::Help) => panic!("help"),
        Ok(Action::Version) => panic!("version"),
        Err(e) => panic!("error: {e}"),
    }
}

fn error_of(v: &[&str]) -> String {
    match parse_args(&argv(v)) {
        Err(e) => e,
        Ok(_) => panic!("accepted {v:?}"),
    }
}

#[test]
fn defaults_without_arguments() {
    let a = run_args(&[]);
    assert!(a.refs.is_empty());
    assert_eq!(a.n, 0);
    assert_eq!(a.repo, ".");
    assert!(!a.verbose);
    assert_eq!(a.html, None);
    assert_eq!(a.color, "auto");
}

#[test]
fn flag_forms_and_positionals() {
    let a = run_args(&["main", "-v", "--color", "never", "feature", "-C=/repo", "--html=out.html"]);
    assert_eq!(a.refs, vec!["main".to_string(), "feature".to_string()]);
    assert!(a.verbose);
    assert_eq!(a.color, "never");
    assert_eq!(a.repo, "/repo");
    assert_eq!(a.html, Some("out.html".to_string()));
    let a = run_args(&["-n", "+5", "--repo", "x", "--verbose=yes"]);
    assert_eq!(a.n, 5);
    assert_eq!(a.repo, "x");
    assert!(a.verbose);
    // a lone dash or double dash is positional
    let a = run_args(&["-", "--"]);
    assert_eq!(a.refs, vec!["-".to_string(), "--".to_string()]);
    // the value is the next argument, whatever it looks like
    let a = run_args(&["-C", "-v"]);
    assert_eq!(a.repo, "-v");
    assert!(!a.verbose);
}

#[test]
fn help_and_version_stop_the_parse() {
    assert!(matches!(parse_args(&argv(&["-h"])), Ok(Action::Help)));
    assert!(matches!(parse_args(&argv(&["x", "--help", "--bogus"])), Ok(Action::Help)));
    assert!(matches!(parse_args(&argv(&["-V"])), Ok(Action::Version)));
    assert!(matches!(parse_args(&argv(&["--version"])), Ok(Action::Version)));
}

#[test]
fn bad_flags_are_refused() {
    assert_eq!(error_of(&["-n"]), "-n 需要一个参数");
    assert_eq!(error_of(&["-n", "five"]), "-n 需要整数");
    assert_eq!(error_of(&["-n="]), "-n 需要整数");
    assert_eq!(error_of(&["-C"]), "-C 需要一个参数");
    assert_eq!(error_of(&["--html"]), "--html 需要一个参数");
    assert_eq!(error_of(&["main", "--color"]), "--color 需要一个参数");
    assert_eq!(error_of(&["--bogus=1"]), "未知选项 -bogus(-h 查看用法)");
    assert_eq!(error_of(&["---x"]), "未知选项 --x(-h 查看用法)");
    // the first problem wins
    assert_eq!(error_of(&["-x", "-h"]), "未知选项 -x(-h 查看用法)");
}
