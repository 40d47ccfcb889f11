use tishlang_desktop::broker::{dispatch_state, SharedState, SurfaceRegistry};
use tishlang_desktop::commands::{route, Route};
use tishlang_desktop::extensions::{ExtensionManifest, ExtensionRegistry};
use tishlang_desktop::json::{merge_json, Json, JsonNumber};
use tishlang_desktop::resource::{percent_decode, resource_allowed};

fn s(t: &str) -> Json {
    Json::Str(t.to_string())
}

fn obj(pairs: Vec<(&str, Json)>) -> Json {
    Json::Object(pairs.into_iter().map(|(k, v)| (k.to_string(), v)).collect())
}

#[test]
fn a_read_returns_the_last_write() {
    let mut st = SharedState::new();
    let surfaces = SurfaceRegistry::new();
    let v = obj(vec![("theme", s("dark"))]);
    dispatch_state(&mut st, &surfaces, "state.set", &obj(vec![("path", s("ui")), ("value", v.deep_clone())]));
    let got = dispatch_state(&mut st, &surfaces, "state.get", &obj(vec![("key", s("ui"))])).unwrap().unwrap();
    assert_eq!(got.get("value"), Some(&v));
    assert_eq!(got.get("revision"), Some(&Json::Number(JsonNumber::PosInt(1))));
    dispatch_state(&mut st, &surfaces, "state.delete", &obj(vec![("path", s("ui"))]));
    let got = dispatch_state(&mut st, &surfaces, "state.get", &obj(vec![("path", s("ui"))])).unwrap().unwrap();
    assert_eq!(got.get("value"), Some(&Json::Null));
}

#[test]
fn patches_are_idempotent_and_merge_in_place() {
    let base = obj(vec![("a", obj(vec![("x", s("1"))])), ("b", s("2"))]);
    let patch = obj(vec![("a", obj(vec![("y", s("3"))]))]);
    let once = merge_json(base, patch.deep_clone()).unwrap();
    let twice = merge_json(once.deep_clone(), patch.deep_clone()).unwrap();
    assert_eq!(once.get("a").unwrap().get("x"), twice.get("a").unwrap().get("x"));
    assert_eq!(once.get("a").unwrap().get("y"), twice.get("a").unwrap().get("y"));
    assert_eq!(once.get("b"), twice.get("b"));
    assert_eq!(merge_json(s("old"), Json::Null), Ok(Json::Null));
    let kept = merge_json(obj(vec![("k", s("v"))]), obj(vec![])).unwrap();
    assert_eq!(kept.get("k"), Some(&s("v")));
}

#[test]
fn handlers_win_and_state_stays_in_the_broker() {
    assert_eq!(route("state.set", true), Route::Handler);
    assert_eq!(route("state.set", false), Route::State);
}

#[test]
fn registered_ids_stay_unique() {
    let mut reg = ExtensionRegistry::new();
    let m = |id: &str| ExtensionManifest {
        id: id.to_string(),
        shell: Some("shell.tish".to_string()),
        ui: None,
        commands: vec!["run".to_string()],
        permissions: vec![],
    };
    assert!(reg.register_tish(m("one")).is_ok());
    assert!(reg.register_tish(m("two")).is_ok());
    assert!(reg.register_tish(m("one")).is_err());
}

#[test]
fn traversal_is_refused_and_plain_paths_decode_to_themselves() {
    assert!(!resource_allowed("/x/.dune/extensions/a/..", "/.dune/extensions/"));
    assert!(!resource_allowed("..", ""));
    assert_eq!(percent_decode("/Users/x/é/файл.js"), "/Users/x/é/файл.js");
}
