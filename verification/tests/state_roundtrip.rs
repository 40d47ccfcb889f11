use tishlang_desktop::broker::{invoke, SharedState, SurfaceRegistry};
use tishlang_desktop::json::Json;

fn s(text: &str) -> Json {
    Json::Str(text.to_string())
}

fn obj(pairs: &[(&str, Json)]) -> Json {
    Json::Object(pairs.iter().map(|(k, v)| (k.to_string(), v.deep_clone())).collect())
}

#[test]
fn state_set_get_roundtrip() {
    let mut state = SharedState::new();
    let surfaces = SurfaceRegistry::new();
    let set = invoke(
        &mut state,
        &surfaces,
        "state.set",
        obj(&[("path", s("test.doc")), ("value", s("hello"))]),
        "test",
        None,
    )
    .unwrap();
    assert_eq!(set.get("ok"), Some(&Json::Bool(true)));
    let get = invoke(&mut state, &surfaces, "state.get", obj(&[("path", s("test.doc"))]), "test", None)
        .unwrap();
    assert_eq!(get.get("value"), Some(&s("hello")));
    let _ = state.delete("test.doc");
}

#[test]
fn tray_unsupported_stable_shape() {
    let mut state = SharedState::new();
    let surfaces = SurfaceRegistry::new();
    let r = invoke(&mut state, &surfaces, "tray.setIcon", obj(&[]), "ios", None).unwrap();
    assert_eq!(r.get("ok"), Some(&Json::Bool(false)));
    assert_eq!(r.get("code"), Some(&s("unsupported")));
    assert_eq!(r.get("platform"), Some(&s("ios")));
}
