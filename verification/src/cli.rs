//! Command-line arguments: `-flag`, `--flag` and `-flag=value` forms, with
//! flags allowed after the positional arguments.
use vstd::prelude::*;

use crate::diff::string_views;
use crate::text::{
    chars_to_string, eq_lit, parse_usize, parse_usize_chars, push_chars, split_once,
    split_once_char, starts_with, strip_prefix_lit, str_chars,
};

verus! {

/// Options of a run.
pub struct Args {
    /// Positional arguments (the range).
    pub refs: Vec<String>,
    /// `-n`: the last N commits; 0 when not given.
    pub n: usize,
    /// `-C`: the repository path.
    pub repo: String,
    /// `-v`: list the files with the most changes.
    pub verbose: bool,
    /// `--html`: where to write the HTML report.
    pub html: Option<String>,
    /// `--color`: auto, always or never.
    pub color: String,
}

/// Contents of the options.
pub struct ArgsView {
    pub refs: Seq<Seq<char>>,
    pub n: usize,
    pub repo: Seq<char>,
    pub verbose: bool,
    pub html: Option<Seq<char>>,
    pub color: Seq<char>,
}

/// The optional string's characters.
pub open spec fn opt_string_view(o: Option<String>) -> Option<Seq<char>> {
    match o {
        Some(s) => Some(s@),
        None => None,
    }
}

impl View for Args {
    type V = ArgsView;

    open spec fn view(&self) -> ArgsView {
        ArgsView {
            refs: string_views(self.refs@),
            n: self.n,
            repo: self.repo@,
            verbose: self.verbose,
            html: opt_string_view(self.html),
            color: self.color@,
        }
    }
}

/// What the command line asks for.
pub enum Action {
    /// Report on a range with these options.
    Run(Args),
    /// Print the usage text.
    Help,
    /// Print the version.
    Version,
}

/// Contents of an action.
pub enum ActionView {
    Run(ArgsView),
    Help,
    Version,
}

impl View for Action {
    type V = ActionView;

    open spec fn view(&self) -> ActionView {
        match self {
            Action::Run(a) => ActionView::Run(a@),
            Action::Help => ActionView::Help,
            Action::Version => ActionView::Version,
        }
    }
}

/// The options before any argument: the current directory, colour `auto`.
pub open spec fn default_args() -> ArgsView {
    ArgsView {
        refs: Seq::empty(),
        n: 0,
        repo: "."@,
        verbose: false,
        html: None,
        color: "auto"@,
    }
}

/// The flag an argument names, with its inline `=value`: the argument
/// without `--` (or else without `-`), split at the first `=`; `None` for a
/// positional argument (no leading `-`, or `-` / `--` alone).
pub open spec fn flag_of(a: Seq<char>) -> Option<(Seq<char>, Option<Seq<char>>)> {
    let rest = if starts_with(a, "--"@) {
        a.skip(2)
    } else if starts_with(a, "-"@) {
        a.skip(1)
    } else {
        Seq::empty()
    };
    if rest.len() == 0 {
        None
    } else {
        match split_once(rest, '=') {
            Some((k, v)) => Some((k, Some(v))),
            None => Some((rest, None)),
        }
    }
}

/// A flag's value and the index of the next argument: the inline value,
/// else the following argument (then consumed); `None` at the end.
pub open spec fn flag_value(argv: Seq<Seq<char>>, i: int, inline: Option<Seq<char>>) -> (
    Option<Seq<char>>,
    int,
) {
    match inline {
        Some(v) => (Some(v), i + 1),
        None => if i + 1 < argv.len() {
            (Some(argv[i + 1]), i + 2)
        } else {
            (None, i + 1)
        },
    }
}

/// The message for an unknown flag.
pub open spec fn unknown_flag(name: Seq<char>) -> Seq<char> {
    "未知选项 -"@ + name + "(-h 查看用法)"@
}

/// The action for the arguments from index `i` on, with the options read so
/// far; the first error ends the parse, and so do help and version.
pub open spec fn parse_from(argv: Seq<Seq<char>>, i: int, acc: ArgsView) -> Result<
    ActionView,
    Seq<char>,
>
    decreases argv.len() - i,
{
    if i < 0 || i >= argv.len() {
        Ok(ActionView::Run(acc))
    } else {
        match flag_of(argv[i]) {
            None => parse_from(argv, i + 1, ArgsView { refs: acc.refs.push(argv[i]), ..acc }),
            Some((name, inline)) => {
                let (val, next) = flag_value(argv, i, inline);
                if name == "n"@ {
                    match val {
                        None => Err("-n 需要一个参数"@),
                        Some(v) => match parse_usize(v) {
                            Some(k) => parse_from(argv, next, ArgsView { n: k, ..acc }),
                            None => Err("-n 需要整数"@),
                        },
                    }
                } else if name == "C"@ || name == "repo"@ {
                    match val {
                        None => Err("-C 需要一个参数"@),
                        Some(v) => parse_from(argv, next, ArgsView { repo: v, ..acc }),
                    }
                } else if name == "v"@ || name == "verbose"@ {
                    parse_from(argv, i + 1, ArgsView { verbose: true, ..acc })
                } else if name == "html"@ {
                    match val {
                        None => Err("--html 需要一个参数"@),
                        Some(v) => parse_from(argv, next, ArgsView { html: Some(v), ..acc }),
                    }
                } else if name == "color"@ {
                    match val {
                        None => Err("--color 需要一个参数"@),
                        Some(v) => parse_from(argv, next, ArgsView { color: v, ..acc }),
                    }
                } else if name == "h"@ || name == "help"@ {
                    Ok(ActionView::Help)
                } else if name == "V"@ || name == "version"@ {
                    Ok(ActionView::Version)
                } else {
                    Err(unknown_flag(name))
                }
            },
        }
    }
}

/// The action for a command line (the arguments after the program name).
pub open spec fn spec_parse_args(argv: Seq<Seq<char>>) -> Result<ActionView, Seq<char>> {
    parse_from(argv, 0, default_args())
}

/// Splits an argument into its flag name and inline value (see `flag_of`).
fn flag_name(a: &[char]) -> (res: Option<(Vec<char>, Option<Vec<char>>)>)
    ensures
        match res {
            Some((k, v)) => flag_of(a@) == Some((k@, match v {
                Some(x) => Some(x@),
                None => None::<Seq<char>>,
            })),
            None => flag_of(a@) is None,
        },
{
    let rest: Vec<char> = match strip_prefix_lit(a, "--") {
        Some(r) => r,
        None => match strip_prefix_lit(a, "-") {
            Some(r) => r,
            None => Vec::new(),
        },
    };
    proof {
        reveal_strlit("--");
        reveal_strlit("-");
    }
    if rest.len() == 0 {
        return None;
    }
    match split_once_char(rest.as_slice(), '=') {
        Some((k, v)) => Some((k, Some(v))),
        None => Some((rest, None)),
    }
}

/// Builds a `String` message from a literal.
fn message(s: &str) -> (res: String)
    ensures
        res@ == s@,
{
    let c = str_chars(s);
    chars_to_string(c.as_slice())
}

/// Parses the command line (the arguments after the program name) into an
/// action, or the message for the first bad flag.
pub fn parse_args(argv: &[String]) -> (res: Result<Action, String>)
    ensures
        match res {
            Ok(act) => spec_parse_args(string_views(argv@)) == Ok::<ActionView, Seq<char>>(act@),
            Err(e) => spec_parse_args(string_views(argv@)) == Err::<ActionView, Seq<char>>(e@),
        },
{
    let ghost av = string_views(argv@);
    let mut args = Args {
        refs: Vec::new(),
        n: 0,
        repo: message("."),
        verbose: false,
        html: None,
        color: message("auto"),
    };
    assert(string_views(args.refs@) =~= Seq::<Seq<char>>::empty());
    assert(args@ == default_args());
    let mut i: usize = 0;
    while i < argv.len()
        invariant
            av == string_views(argv@),
            i <= argv@.len(),
            spec_parse_args(av) == parse_from(av, i as int, args@),
        decreases argv@.len() - i,
    {
        let a = str_chars(argv[i].as_str());
        assert(a@ == av[i as int]);
        match flag_name(a.as_slice()) {
            None => {
                let ghost before = args@;
                args.refs.push(argv[i].clone());
                assert(string_views(args.refs@) =~= before.refs.push(av[i as int]));
                i = i + 1;
            },
            Some((name, inline)) => {
                let ghost inl = match &inline {
                    Some(x) => Some(x@),
                    None => None::<Seq<char>>,
                };
                let ghost (val_s, next_s) = flag_value(av, i as int, inl);
                // the flag's value, as `flag_value` takes it
                let (val, next): (Option<Vec<char>>, usize) = match inline {
                    Some(v) => (Some(v), i + 1),
                    None => if i + 1 < argv.len() {
                        let nx = str_chars(argv[i + 1].as_str());
                        assert(nx@ == av[i + 1]);
                        (Some(nx), i + 2)
                    } else {
                        (None, i + 1)
                    },
                };
                assert(next as int == next_s);
                assert(match val {
                    Some(x) => val_s == Some(x@),
                    None => val_s is None,
                });
                let n = name.as_slice();
                if eq_lit(n, "n") {
                    match val {
                        None => return Err(message("-n 需要一个参数")),
                        Some(v) => match parse_usize_chars(v.as_slice()) {
                            Some(k) => {
                                args.n = k;
                                i = next;
                            },
                            None => return Err(message("-n 需要整数")),
                        },
                    }
                } else if eq_lit(n, "C") || eq_lit(n, "repo") {
                    match val {
                        None => return Err(message("-C 需要一个参数")),
                        Some(v) => {
                            args.repo = chars_to_string(v.as_slice());
                            i = next;
                        },
                    }
                } else if eq_lit(n, "v") || eq_lit(n, "verbose") {
                    args.verbose = true;
                    i = i + 1;
                } else if eq_lit(n, "html") {
                    match val {
                        None => return Err(message("--html 需要一个参数")),
                        Some(v) => {
                            args.html = Some(chars_to_string(v.as_slice()));
                            i = next;
                        },
                    }
                } else if eq_lit(n, "color") {
                    match val {
                        None => return Err(message("--color 需要一个参数")),
                        Some(v) => {
                            args.color = chars_to_string(v.as_slice());
                            i = next;
                        },
                    }
                } else if eq_lit(n, "h") || eq_lit(n, "help") {
                    return Ok(Action::Help);
                } else if eq_lit(n, "V") || eq_lit(n, "version") {
                    return Ok(Action::Version);
                } else {
                    let mut msg: Vec<char> = str_chars("未知选项 -");
                    push_chars(&mut msg, n);
                    let tail = str_chars("(-h 查看用法)");
                    push_chars(&mut msg, tail.as_slice());
                    return Err(chars_to_string(msg.as_slice()));
                }
            },
        }
    }
    Ok(Action::Run(args))
}

} // verus!
