use tishlang_desktop::resource::{content_type, percent_decode, resource_allowed};

const SEG: &str = "/.dune/extensions/";

#[test]
fn rejects_traversal_and_out_of_segment_paths() {
    assert!(!resource_allowed("/Users/x/.dune/extensions/../secret", SEG));
    assert!(!resource_allowed("/etc/passwd", SEG));
    assert!(!resource_allowed("/Users/x/project/src/main.rs", SEG));
}

#[test]
fn allows_files_under_the_trusted_segment() {
    assert!(resource_allowed(
        "/Users/x/.dune/extensions/pub.ext-1.0.0/media/main.css",
        SEG
    ));
}

#[test]
fn percent_decodes_spaces() {
    assert_eq!(percent_decode("/a%20b/c.js"), "/a b/c.js");
    assert_eq!(percent_decode("/plain/path.css"), "/plain/path.css");
}

#[test]
fn content_types_cover_webview_needs() {
    assert_eq!(content_type("/x/a.css"), "text/css; charset=utf-8");
    assert_eq!(content_type("/x/a.js"), "text/javascript; charset=utf-8");
    assert_eq!(content_type("/x/a.PNG"), "image/png");
    assert_eq!(content_type("/x/a.unknown"), "application/octet-stream");
}

#[test]
fn windows_separators_count_as_slashes() {
    assert!(resource_allowed("C:\\Users\\x\\.dune\\extensions\\a\\b.js", SEG));
    assert!(!resource_allowed("C:\\Users\\x\\.dune\\extensions\\..\\b.js", SEG));
}

#[test]
fn percent_decode_keeps_malformed_escapes() {
    assert_eq!(percent_decode("/a%2"), "/a%2");
    assert_eq!(percent_decode("/a%zzb"), "/a%zzb");
    assert_eq!(percent_decode("%41%42"), "AB");
    assert_eq!(percent_decode("%c3%a9"), "é");
    assert_eq!(percent_decode("%ff"), "\u{fffd}");
}

#[test]
fn content_type_of_more_extensions() {
    assert_eq!(content_type("/x/index.HTML"), "text/html; charset=utf-8");
    assert_eq!(content_type("/x/a.json"), "application/json; charset=utf-8");
    assert_eq!(content_type("/x/a.svg"), "image/svg+xml");
    assert_eq!(content_type("/x/a.woff2"), "font/woff2");
}
