use tokenpress::csharp::paths::supports_path as supports_cs;
use tokenpress::go::paths::supports_path as supports_go;
use tokenpress::java::paths::supports_path as supports_java;

#[test]
fn accepts_the_go_extension() {
    for name in [
        "a.go",
        "main.go",
        "internal/deep/nested/thing_test.go",
        "/abs/path/a.go",
        "a.b.go",
    ] {
        assert!(supports_go(name), "{name} should be supported");
    }
}

#[test]
fn accepts_the_java_extension() {
    for name in [
        "A.java",
        "Main.java",
        "src/main/java/org/example/deep/Thing.java",
        "/abs/path/A.java",
        "module-info.java",
        "package-info.java",
        "A.b.java",
    ] {
        assert!(supports_java(name), "{name} should be supported");
    }
}

#[test]
fn accepts_the_csharp_extension() {
    for name in [
        "A.cs",
        "Program.cs",
        "src/Newtonsoft.Json/Linq/JToken.cs",
        "/abs/path/A.cs",
        "AssemblyInfo.cs",
        "Thing.Designer.cs",
        "Thing.g.cs",
        "A.b.cs",
    ] {
        assert!(supports_cs(name), "{name} should be supported");
    }
}

#[test]
fn trailing_separators_and_dot_components_are_ignored() {
    assert!(supports_go("dir/a.go/"));
    assert!(supports_go("dir/a.go/."));
    assert!(!supports_go("dir/.go"));
    assert!(!supports_go(""));
}
