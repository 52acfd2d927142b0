use lib::classify::{classify, Cat};

#[test]
fn classify_by_path() {
    let cases: &[(&str, Cat)] = &[
        // Go
        ("pkg/server/main.go", Cat::GoCode),
        ("a.go", Cat::GoCode),
        ("pkg/server/main_test.go", Cat::GoTest),
        // Python
        ("app/models.py", Cat::PyCode),
        ("app/test_models.py", Cat::PyTest),
        ("app/models_test.py", Cat::PyTest),
        ("conftest.py", Cat::PyTest),
        ("tests/util.py", Cat::PyTest),
        ("a/b/test/helper.py", Cat::PyTest),
        // generated code and third-party directories count as "other"
        ("api/v1/api.pb.go", Cat::Other),
        ("api/v1/api.pb.gw.go", Cat::Other),
        ("vendor/github.com/x/y.go", Cat::Other),
        ("node_modules/x/y.py", Cat::Other),
        ("rpc/api_pb2.py", Cat::Other),
        ("rpc/api_pb2_grpc.py", Cat::Other),
        // not code
        ("README.md", Cat::Other),
        ("deploy/chart.yaml", Cat::Other),
        ("Makefile", Cat::Other),
    ];
    for (path, want) in cases {
        assert_eq!(classify(path), *want, "classify({path:?})");
    }
}

#[test]
fn category_names() {
    assert_eq!(Cat::GoCode.name(), "Go");
    assert_eq!(Cat::PyCode.name(), "Python");
    assert_eq!(Cat::GoTest.name(), "Go 测试");
    assert_eq!(Cat::PyTest.name(), "Python 测试");
    assert_eq!(Cat::Other.name(), "其他");
}

#[test]
fn classify_edge_cases() {
    // a directory merely named like a suffix does not count
    assert_eq!(classify("x.go/readme"), Cat::Other);
    // vendor only counts as a directory, not as the file name
    assert_eq!(classify("vendor"), Cat::Other);
    assert_eq!(classify("src/vendor.go"), Cat::GoCode);
    // test directories only matter for Python
    assert_eq!(classify("tests/util.go"), Cat::GoCode);
    assert_eq!(classify(""), Cat::Other);
    assert_eq!(classify("test_x.go"), Cat::GoCode);
}

#[test]
fn generated_python_by_pb2_in_name() {
    assert_eq!(classify("rpc/api_pb2_types.py"), Cat::Other);
    assert_eq!(classify("rpc/x_pb2.py"), Cat::Other);
    assert_eq!(classify("rpc/pb2.py"), Cat::PyCode);
    assert_eq!(classify("rpc/api_pb2.go"), Cat::GoCode);
}

#[test]
fn language_order() {
    assert_eq!(Cat::LANG_ORDER, [Cat::GoCode, Cat::PyCode, Cat::GoTest, Cat::PyTest]);
}
