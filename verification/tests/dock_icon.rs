use std::cell::RefCell;

use tishlang_desktop::icon::{bundle_icns_path, reassert_on_ready, IconSource};

#[test]
fn bundle_icon_prefers_the_declared_file_then_icns() {
    let exists = |p: String| p == "/A.app/Contents/Resources/icon";
    assert_eq!(
        bundle_icns_path("/A.app", Some("icon"), &exists),
        Some("/A.app/Contents/Resources/icon".to_string())
    );
    let icns_only = |p: String| p == "/A.app/Contents/Resources/icon.icns";
    assert_eq!(
        bundle_icns_path("/A.app", Some("icon"), &icns_only),
        Some("/A.app/Contents/Resources/icon.icns".to_string())
    );
    let none = |_p: String| false;
    assert_eq!(bundle_icns_path("/A.app", Some("icon"), &none), None);
    let all = |_p: String| true;
    assert_eq!(bundle_icns_path("/bin/tool", Some("icon"), &all), None);
    assert_eq!(bundle_icns_path("/A.app", None, &all), None);
}

#[test]
fn reassert_falls_back_to_the_bundle_icon() {
    let set_calls = RefCell::new(Vec::new());
    let host_ok = |p: String| {
        set_calls.borrow_mut().push(p);
        true
    };
    let exists = |_p: String| true;
    assert_eq!(reassert_on_ready("/x/icon.png", "/A.app", Some("icon"), &host_ok, &exists), IconSource::Host);
    assert_eq!(set_calls.borrow().as_slice(), ["/x/icon.png".to_string()]);

    let only_bundle = |p: String| p.ends_with(".icns");
    let icns_exists = |p: String| p.ends_with(".icns");
    assert_eq!(
        reassert_on_ready("/x/icon.png", "/A.app", Some("icon"), &only_bundle, &icns_exists),
        IconSource::Bundle
    );
    let never = |_p: String| false;
    assert_eq!(reassert_on_ready("/x/icon.png", "/A.app", Some("icon"), &never, &exists), IconSource::Neither);
    assert_eq!(reassert_on_ready("/x/icon.png", "/bin/tool", None, &never, &exists), IconSource::Neither);
}
