use tishlang_desktop::broker::{
    dispatch_state, dispatch_state_event, invoke, path_arg, source_arg, state_changed_payload,
    unsupported, unsupported_on, CapBackend, SharedState, SurfaceRegistry,
};
use tishlang_desktop::json::{merge_json, Json, JsonNumber};

fn s(t: &str) -> Json {
    Json::Str(t.to_string())
}

fn n(v: u64) -> Json {
    Json::Number(JsonNumber::PosInt(v))
}

fn obj(pairs: Vec<(&str, Json)>) -> Json {
    Json::Object(pairs.into_iter().map(|(k, v)| (k.to_string(), v)).collect())
}

#[test]
fn revisions_advance_once_per_write() {
    let mut st = SharedState::new();
    assert_eq!(st.revision(), 0);
    st.set("a".to_string(), n(1));
    st.set("a".to_string(), n(2));
    assert_eq!(st.revision(), 2);
    assert_eq!(st.get("a"), (n(2), 2));
    assert_eq!(st.delete("missing"), (false, 2));
    assert_eq!(st.delete("a"), (true, 3));
    assert_eq!(st.get("a"), (Json::Null, 3));
}

#[test]
fn patch_merges_objects_and_replaces_the_rest() {
    let mut st = SharedState::new();
    st.set("doc".to_string(), obj(vec![("a", n(1)), ("b", obj(vec![("c", n(2))]))]));
    let out = st.patch("doc".to_string(), obj(vec![("b", obj(vec![("d", n(3))]))])).unwrap();
    let v = out.get("value").unwrap();
    assert_eq!(v.get("a"), Some(&n(1)));
    assert_eq!(v.get("b").unwrap().get("c"), Some(&n(2)));
    assert_eq!(v.get("b").unwrap().get("d"), Some(&n(3)));
    let out = st.patch("new".to_string(), obj(vec![("x", n(1))])).unwrap();
    assert_eq!(out.get("value"), Some(&obj(vec![("x", n(1))])));
    assert_eq!(merge_json(n(1), s("x")), Ok(s("x")));
    let mut keys = st.keys();
    keys.sort();
    assert_eq!(keys, vec!["doc".to_string(), "new".to_string()]);
}

#[test]
fn state_commands_need_a_path() {
    let mut st = SharedState::new();
    let surfaces = SurfaceRegistry::new();
    let r = dispatch_state(&mut st, &surfaces, "state.get", &obj(vec![]));
    assert_eq!(r, Some(Err("path required".to_string())));
    assert_eq!(path_arg(&obj(vec![("key", s("k"))])), Ok("k".to_string()));
    assert!(dispatch_state(&mut st, &surfaces, "store.get", &obj(vec![])).is_none());
}

#[test]
fn state_events_name_their_source() {
    let mut st = SharedState::new();
    let surfaces = SurfaceRegistry::new();
    let (r, ev) = dispatch_state_event(
        &mut st,
        &surfaces,
        "state.set",
        &obj(vec![("path", s("p")), ("value", n(5))]),
        "webview",
    );
    assert!(r.unwrap().is_ok());
    assert_eq!(ev, Some(state_changed_payload("p", &n(5), 1, "webview")));
    let (_, ev) = dispatch_state_event(
        &mut st,
        &surfaces,
        "state.delete",
        &obj(vec![("path", s("nope")), ("source", s("shell"))]),
        "native",
    );
    assert_eq!(ev, None);
    let (_, ev) = dispatch_state_event(
        &mut st,
        &surfaces,
        "state.delete",
        &obj(vec![("path", s("p")), ("source", s("shell"))]),
        "native",
    );
    assert_eq!(ev, Some(state_changed_payload("p", &Json::Null, 2, "shell")));
    let (_, ev) = dispatch_state_event(&mut st, &surfaces, "state.get", &obj(vec![("path", s("p"))]), "x");
    assert_eq!(ev, None);
    assert_eq!(source_arg(&obj(vec![]), "webview"), "webview");
}

#[test]
fn fallback_answers() {
    let mut st = SharedState::new();
    let surfaces = SurfaceRegistry::new();
    let r = invoke(&mut st, &surfaces, "dialog.open", obj(vec![]), "web", None).unwrap();
    assert_eq!(r, unsupported_on("dialog", "web"));
    let r = invoke(&mut st, &surfaces, "foo.bar", obj(vec![]), "web", None);
    assert_eq!(r, Err("unknown command: foo.bar".to_string()));
    assert_eq!(unsupported("tray").get("platform"), Some(&s("current")));
}

struct Notifier;

impl CapBackend for Notifier {
    fn try_invoke(&self, cmd: &str, _args: &Json) -> Option<Result<Json, String>> {
        if cmd == "notification.show" {
            Some(Ok(obj(vec![("shown", Json::Bool(true))])))
        } else {
            None
        }
    }
}

#[test]
fn the_backend_answers_what_it_takes() {
    let mut st = SharedState::new();
    let surfaces = SurfaceRegistry::new();
    let r = invoke(&mut st, &surfaces, "notification.show", obj(vec![]), "web", Some(&Notifier)).unwrap();
    assert_eq!(r.get("shown"), Some(&Json::Bool(true)));
    let r = invoke(&mut st, &surfaces, "notification.permissionState", obj(vec![]), "web", Some(&Notifier)).unwrap();
    assert_eq!(r, unsupported_on("notification", "web"));
    let r = invoke(&mut st, &surfaces, "state.get", obj(vec![("path", s("p"))]), "web", Some(&Notifier)).unwrap();
    assert_eq!(r.get("value"), Some(&Json::Null));
}
