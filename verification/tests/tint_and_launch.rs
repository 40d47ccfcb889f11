use tishlang_desktop::host::{forwarded_paths, menu_action, open_invocation, tray_action, MenuAction, TrayAction};
use tishlang_desktop::json::Json;
use tishlang_desktop::resource::resource_request;
use tishlang_desktop::tint::{hex_digits, parse_hex};

#[test]
fn hex_colours() {
    assert_eq!(parse_hex("#fff"), Some((255, 255, 255, 255)));
    assert_eq!(parse_hex("  #1a2B3c \n"), Some((0x1a, 0x2b, 0x3c, 255)));
    assert_eq!(parse_hex("##10203040"), Some((0x10, 0x20, 0x30, 0x40)));
    assert_eq!(parse_hex("+f0a0b"), Some((15, 0x0a, 0x0b, 255)));
    assert_eq!(parse_hex("#12345"), None);
    assert_eq!(parse_hex("#ggg"), None);
    assert_eq!(parse_hex(""), None);
    assert_eq!(parse_hex("#+ff"), None);
    assert_eq!(hex_digits("\u{3000}#abc\t").iter().collect::<String>(), "abc");
}

#[test]
fn second_launch_forwards_paths_without_flags() {
    let argv: Vec<String> = ["/bin/app", "--new", "/tmp/a", "-x", "b.txt"].iter().map(|s| s.to_string()).collect();
    assert_eq!(forwarded_paths(&argv), vec!["/tmp/a".to_string(), "b.txt".to_string()]);
    assert!(forwarded_paths(&vec![]).is_empty());
}

#[test]
fn menu_and_tray_clicks() {
    assert_eq!(menu_action("quit"), MenuAction::Quit);
    assert_eq!(menu_action("menu:show"), MenuAction::Emit { show: true });
    assert_eq!(menu_action("custom"), MenuAction::Emit { show: false });
    assert_eq!(tray_action("tray:quit"), TrayAction::Quit);
    assert_eq!(tray_action("tray:show"), TrayAction::ShowLast);
    assert_eq!(tray_action("x"), TrayAction::Nothing);
}

#[test]
fn opened_paths_split_into_folders_and_files() {
    let inv = open_invocation(&vec![("/proj".to_string(), true), ("/proj/a.rs".to_string(), false)]);
    assert_eq!(inv.get("folders"), Some(&Json::Array(vec![Json::Str("/proj".to_string())])));
    match inv.get("files") {
        Some(Json::Array(files)) => assert_eq!(files[0].get("path"), Some(&Json::Str("/proj/a.rs".to_string()))),
        _ => panic!("files"),
    }
    assert_eq!(inv.get("newWindow"), Some(&Json::Bool(false)));
    assert_eq!(inv.get("addFolders"), Some(&Json::Array(vec![])));
}

#[test]
fn resource_requests() {
    assert_eq!(
        resource_request("/Users/x/.dune/extensions/p/media/a%20b.css", "/.dune/extensions/"),
        Ok(("/Users/x/.dune/extensions/p/media/a b.css".to_string(), "text/css; charset=utf-8"))
    );
    assert_eq!(
        resource_request("/etc/passwd", "/.dune/extensions/"),
        Err("/etc/passwd".to_string())
    );
    assert_eq!(
        resource_request("/x/.dune/extensions/%2e%2e/secret", "/.dune/extensions/"),
        Err("/x/.dune/extensions/../secret".to_string())
    );
}
