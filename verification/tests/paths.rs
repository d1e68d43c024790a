use liveserve_rs::location::{climbs_out, path_below};
use liveserve_rs::path::{extension, file_name, is_html, join, request_path, trim_leading_slashes};
use std::path::Path;

#[test]
fn requests_name_paths_below_the_root() {
    assert_eq!(request_path("./public", "/index.html"), "./public/index.html");
    assert_eq!(request_path("./public/", "/css/a.css"), "./public/css/a.css");
    assert_eq!(request_path("./public", "///a"), "./public/a");
    assert_eq!(request_path("./public", "a//b"), "./public/a//b");
    assert_eq!(request_path("./public", "/"), "./public/");
    assert_eq!(request_path("", "/a"), "a");
    assert_eq!(request_path("/", "/a"), "/a");
    assert_eq!(request_path("p\u{e4}th", "/\u{fc}.html"), "p\u{e4}th/\u{fc}.html");
}

#[test]
fn leading_slashes_are_trimmed() {
    assert_eq!(trim_leading_slashes("//a/b/"), "a/b/");
    assert_eq!(trim_leading_slashes("a"), "a");
    assert_eq!(trim_leading_slashes("///"), "");
    assert_eq!(trim_leading_slashes(""), "");
}

#[test]
fn joining_agrees_with_std() {
    for base in ["", "/", ".", "a", "a/", "/a/b", "./public"] {
        for tail in ["", "x", "x/y", "/x", "..", "./x", "x/"] {
            let expected = Path::new(base).join(tail);
            assert_eq!(join(base, tail), expected.to_str().unwrap());
        }
    }
}

#[test]
fn names_and_extensions_agree_with_std() {
    let paths = [
        "", "/", ".", "..", "./", "../", "a", "a/", "a/.", "a/./", "a/.//", "a/..", "a/../",
        "a.html", "dir/a.html", "dir.html/a", ".html", "dir/.html", "a.", "a..", "..a", "...",
        ".a.b", "a.b.c", "a.html/", "a.html/.", "/a.html//", "./.", "/.", "//", "x/.../y.js",
        "\u{e9}.\u{e8}", ". ", "a/. ", "a.b/..c",
    ];
    for path in paths {
        let std_path = Path::new(path);
        assert_eq!(file_name(path), std_path.file_name().map(|n| n.to_str().unwrap()));
        assert_eq!(extension(path), std_path.extension().map(|e| e.to_str().unwrap()));
    }
}

#[test]
fn html_files_are_told_by_their_extension() {
    assert!(is_html("index.html"));
    assert!(is_html("/srv/a.b.html"));
    assert!(is_html("..html"));
    assert!(!is_html("index.HTML"));
    assert!(!is_html("index.htm"));
    assert!(!is_html(".html"));
    assert!(!is_html("html"));
    assert!(!is_html("a.html/b"));
}

#[test]
fn climbing_paths_are_found() {
    for path in ["..", "../a", "a/../..", "a/../../a", "./..", "a/..//..", "a/./../../b/c", "../"] {
        assert!(climbs_out(path));
        assert_eq!(path_below("root", path), None);
    }
    let inside = [
        "", ".", "...", "..a", "a..", "a/..b/c", ". .", "a/.", "a/..", "css/../b.txt", "a/../",
        "a/b/../../c", "a//../b",
    ];
    for path in inside {
        assert!(!climbs_out(path));
        assert_eq!(path_below("root", path), Some(request_path("root", path)));
    }
    assert_eq!(path_below("root", "/a"), Some("root/a".to_string()));
    assert_eq!(path_below("root", "/../a"), None);
}
