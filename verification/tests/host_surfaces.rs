use tishlang_desktop::broker::{SurfaceKind, SurfaceRegistry};
use tishlang_desktop::extensions::ExtensionRegistry;
use tishlang_desktop::host::{
    create_native_surface, extension_ids, pending_roots_reply, surface_kind_arg, use_extensions,
    with_default_kind,
};
use tishlang_desktop::json::{Json, JsonNumber};

fn s(t: &str) -> Json {
    Json::Str(t.to_string())
}

fn obj(pairs: Vec<(&str, Json)>) -> Json {
    Json::Object(pairs.into_iter().map(|(k, v)| (k.to_string(), v)).collect())
}

#[test]
fn native_surfaces_register_under_the_host() {
    let mut surfaces = SurfaceRegistry::new();
    let (id, reply) = create_native_surface(&mut surfaces, &obj(vec![("label", s("editor"))]), "desktop-tauri", false, true);
    assert_eq!(id, "editor");
    assert_eq!(reply.get("code"), Some(&s("unsupported")));
    assert_eq!(reply.get("capability"), Some(&s("createSurface.native")));
    let info = surfaces.get("editor").unwrap();
    assert_eq!(info.kind, SurfaceKind::Native);
    assert_eq!(info.platform.as_deref(), Some("desktop-tauri"));
    let (id, reply) = create_native_surface(&mut surfaces, &obj(vec![]), "apple", true, false);
    assert_eq!(id, "native");
    assert_eq!(reply.get("queued"), Some(&Json::Bool(true)));
    assert_eq!(reply.get("hasRoot"), Some(&Json::Bool(false)));
}

#[test]
fn window_specs_default_to_webviews() {
    assert_eq!(surface_kind_arg(&obj(vec![])), "webview");
    let spec = with_default_kind(obj(vec![("label", s("a"))]));
    assert_eq!(spec.get("kind"), Some(&s("webview")));
    let spec = with_default_kind(obj(vec![("kind", s("web"))]));
    assert_eq!(spec.get("kind"), Some(&s("web")));
}

#[test]
fn extensions_are_recorded_and_registered() {
    assert_eq!(extension_ids(Some(&s("one"))), vec!["one".to_string()]);
    assert_eq!(
        extension_ids(Some(&Json::Array(vec![s("a"), Json::Null, s("b")]))),
        vec!["a".to_string(), "b".to_string()]
    );
    assert!(extension_ids(None).is_empty());
    let mut reg = ExtensionRegistry::new();
    let mut pending: Vec<String> = vec!["old".to_string()];
    let r = use_extensions(&mut reg, &mut pending, vec!["a".to_string(), "a".to_string()]);
    assert_eq!(pending, vec!["a".to_string(), "a".to_string()]);
    assert_eq!(r.get("extensions"), Some(&Json::Array(vec![s("a"), s("a")])));
    match reg.list().get("tish") {
        Some(Json::Array(items)) => {
            assert_eq!(items.len(), 1);
            assert_eq!(items[0].get("id"), Some(&s("a")));
            assert_eq!(items[0].get("permissions"), Some(&Json::Array(vec![s("fs:scoped")])));
            assert_eq!(items[0].get("commands"), Some(&Json::Array(vec![])));
        }
        _ => panic!("list"),
    }
    let r = pending_roots_reply(&vec!["x".to_string()]);
    assert_eq!(r.get("count"), Some(&Json::Number(JsonNumber::PosInt(1))));
}
