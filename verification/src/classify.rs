//! File path to statistics category. Only Go and Python are recognised.
use vstd::prelude::*;

use crate::text::{
    contains, contains_lit, ends_with, ends_with_lit, eq_lit, split_char, split_chars, starts_with, starts_with_lit,
    str_chars, views, lemma_split_nonempty,
};

verus! {

/// The statistics category of a file.
#[derive(Debug, Clone, Copy, PartialEq, Eq, Hash, Structural)]
pub enum Cat {
    GoCode,
    PyCode,
    GoTest,
    PyTest,
    Other,
}

/// Display name of a category in reports.
pub open spec fn cat_name(c: Cat) -> Seq<char> {
    match c {
        Cat::GoCode => "Go"@,
        Cat::PyCode => "Python"@,
        Cat::GoTest => "Go 测试"@,
        Cat::PyTest => "Python 测试"@,
        Cat::Other => "其他"@,
    }
}

impl Cat {
    /// Display name used in reports.
    pub fn name(self) -> (r: &'static str)
        ensures
            r@ == cat_name(self),
    {
        match self {
            Cat::GoCode => "Go",
            Cat::PyCode => "Python",
            Cat::GoTest => "Go 测试",
            Cat::PyTest => "Python 测试",
            Cat::Other => "其他",
        }
    }

    /// Fixed display order of the per-language rows.
    pub const LANG_ORDER: [Cat; 4] = [Cat::GoCode, Cat::PyCode, Cat::GoTest, Cat::PyTest];
}

/// Some directory in `dirs` is named `a` or `b`.
pub open spec fn some_dir_is(dirs: Seq<Seq<char>>, a: Seq<char>, b: Seq<char>) -> bool {
    exists|i: int| 0 <= i < dirs.len() && (dirs[i] == a || dirs[i] == b)
}

/// File name of generated code (protobuf / gRPC output): `*.pb.go`,
/// `*.pb.gw.go`, and `*_pb2*.py` (a Python file whose name holds `_pb2`).
pub open spec fn is_generated(name: Seq<char>) -> bool {
    ends_with(name, ".pb.go"@) || ends_with(name, ".pb.gw.go"@) || (contains(name, "_pb2"@)
        && ends_with(name, ".py"@))
}

/// Category of a path: third-party directories and generated code count as
/// `Other`; then Go and Python test and code files by name.
pub open spec fn spec_classify(path: Seq<char>) -> Cat {
    let parts = split_char(path, '/');
    let name = parts.last();
    let dirs = parts.drop_last();
    if some_dir_is(dirs, "vendor"@, "node_modules"@) {
        Cat::Other
    } else if is_generated(name) {
        Cat::Other
    } else if ends_with(name, "_test.go"@) {
        Cat::GoTest
    } else if ends_with(name, ".go"@) {
        Cat::GoCode
    } else if ends_with(name, ".py"@) {
        if starts_with(name, "test_"@) || ends_with(name, "_test.py"@) || name == "conftest.py"@
            || some_dir_is(dirs, "test"@, "tests"@) {
            Cat::PyTest
        } else {
            Cat::PyCode
        }
    } else {
        Cat::Other
    }
}

/// Whether one of the first `n` pieces equals `a` or `b`.
fn any_piece_is(pieces: &Vec<Vec<char>>, n: usize, a: &str, b: &str) -> (res: bool)
    requires
        n <= pieces@.len(),
    ensures
        res == some_dir_is(views(pieces@).take(n as int), a@, b@),
{
    let ghost dirs = views(pieces@).take(n as int);
    let mut i: usize = 0;
    while i < n
        invariant
            i <= n <= pieces@.len(),
            dirs == views(pieces@).take(n as int),
            forall|j: int| 0 <= j < i ==> !(dirs[j] == a@ || dirs[j] == b@),
        decreases n - i,
    {
        let p = pieces[i].as_slice();
        assert(p@ == dirs[i as int]);
        if eq_lit(p, a) || eq_lit(p, b) {
            return true;
        }
        i = i + 1;
    }
    false
}

/// Category of a file path.
pub fn classify(path: &str) -> (res: Cat)
    ensures
        res == spec_classify(path@),
{
    let chars = str_chars(path);
    classify_chars(chars.as_slice())
}

/// Category of a file path given as characters.
pub fn classify_chars(path: &[char]) -> (res: Cat)
    ensures
        res == spec_classify(path@),
{
    let parts = split_chars(path, '/');
    proof {
        lemma_split_nonempty(path@, '/');
    }
    let ghost p = split_char(path@, '/');
    let n_dirs = parts.len() - 1;
    let name = parts[n_dirs].as_slice();
    assert(name@ == p.last());
    assert(views(parts@).take(n_dirs as int) =~= p.drop_last());
    if any_piece_is(&parts, n_dirs, "vendor", "node_modules") {
        return Cat::Other;
    }
    if ends_with_lit(name, ".pb.go") || ends_with_lit(name, ".pb.gw.go") || (contains_lit(
        name,
        "_pb2",
    ) && ends_with_lit(name, ".py")) {
        return Cat::Other;
    }
    if ends_with_lit(name, "_test.go") {
        Cat::GoTest
    } else if ends_with_lit(name, ".go") {
        Cat::GoCode
    } else if ends_with_lit(name, ".py") {
        let in_test_dir = any_piece_is(&parts, n_dirs, "test", "tests");
        if starts_with_lit(name, "test_") || ends_with_lit(name, "_test.py") || eq_lit(
            name,
            "conftest.py",
        ) || in_test_dir {
            Cat::PyTest
        } else {
            Cat::PyCode
        }
    } else {
        Cat::Other
    }
}

} // verus!
