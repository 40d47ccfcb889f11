use tishlang_desktop::broker::{SurfaceInfo, SurfaceKind, SurfaceRegistry};
use tishlang_desktop::config::default_main_window;
use tishlang_desktop::json::Json;
use tishlang_desktop::windows::{
    caller_label, close_allowed, enter_caller, focus_last_target, init_script, last_focused_label, leave_caller,
    next_window_label, note_focused, note_title, on_destroyed, parse_title_bar_style,
    register_label, register_surface, resolve_label, set_caller_label, unregister_surface,
    window_plan, window_rows, window_url, ManagerState, TitleBarStyle, WindowUrl,
};

fn obj(pairs: Vec<(&str, Json)>) -> Json {
    Json::Object(pairs.into_iter().map(|(k, v)| (k.to_string(), v)).collect())
}

#[test]
fn rows_follow_registration_titles_and_focus() {
    let mut mgr = ManagerState::new();
    register_label(&mut mgr, "main", "Main");
    register_label(&mut mgr, "win-2", "Second");
    register_label(&mut mgr, "main", "Ignored");
    note_title(&mut mgr, "win-2", "Renamed");
    assert_eq!(last_focused_label(&mgr), Some("main".to_string()));
    note_focused(&mut mgr, "win-2");
    assert_eq!(
        window_rows(&mgr),
        vec![
            ("main".to_string(), "Main".to_string(), false),
            ("win-2".to_string(), "Renamed".to_string(), true),
        ]
    );
}

#[test]
fn destroying_a_window_forgets_it() {
    let mut mgr = ManagerState::new();
    let mut surfaces = SurfaceRegistry::new();
    register_label(&mut mgr, "main", "Main");
    register_label(&mut mgr, "win-2", "Second");
    note_focused(&mut mgr, "win-2");
    register_surface(&mut surfaces, "win-2", None, Some("webview"));
    register_surface(&mut surfaces, "main", Some("shell"), Some("native"));
    on_destroyed(&mut mgr, &mut surfaces, "win-2");
    assert_eq!(last_focused_label(&mgr), None);
    assert_eq!(window_rows(&mgr).len(), 1);
    assert!(surfaces.get("win-2").is_none());
    let shell = surfaces.get("shell").unwrap();
    assert_eq!(shell.kind, SurfaceKind::Native);
    unregister_surface(&mut surfaces, "main");
    assert!(surfaces.get("shell").is_none());
}

#[test]
fn caller_labels_and_targets() {
    let mut slot: Option<String> = None;
    set_caller_label(&mut slot, Some("win-3"));
    assert_eq!(caller_label(&slot), Some("win-3".to_string()));
    set_caller_label(&mut slot, None);
    assert_eq!(caller_label(&slot), None);
    assert_eq!(
        resolve_label(&obj(vec![]), None),
        Err("window label required (no invoking window)".to_string())
    );
    assert_eq!(resolve_label(&obj(vec![]), Some("main")), Ok("main".to_string()));
    assert_eq!(
        resolve_label(&obj(vec![("label", Json::Str("x".into()))]), Some("main")),
        Ok("x".to_string())
    );
    assert_eq!(
        close_allowed("main", Some("win-2")),
        Err("refusing to close main from another window".to_string())
    );
    assert_eq!(close_allowed("main", Some("main")), Ok(()));
    assert_eq!(close_allowed("win-2", None), Ok(()));
    assert_eq!(focus_last_target(None, &vec![]), Err("no windows".to_string()));
    assert_eq!(focus_last_target(None, &vec!["a".to_string()]), Ok("a".to_string()));
}

#[test]
fn window_labels_and_styles() {
    assert_eq!(next_window_label(&vec![]), Some("win-2".to_string()));
    assert_eq!(
        next_window_label(&vec!["win-2".to_string(), "win-3".to_string()]),
        Some("win-4".to_string())
    );
    assert_eq!(parse_title_bar_style("OVERLAY"), TitleBarStyle::Overlay);
    assert_eq!(parse_title_bar_style("visible"), TitleBarStyle::Visible);
    assert_eq!(parse_title_bar_style("other"), TitleBarStyle::Transparent);
    assert_eq!(window_url(Some("https://x")), WindowUrl::External("https://x".to_string()));
    assert_eq!(window_url(Some("page.html")), WindowUrl::App("page.html".to_string()));
    assert_eq!(window_url(None), WindowUrl::App("index.html".to_string()));
    assert_eq!(
        init_script("a\"b"),
        "window.__TISH_DESKTOP__ = true; window.__TISH_WINDOW_LABEL__ = \"a\\\"b\";"
    );
}

#[test]
fn window_plans_apply_the_create_policy() {
    let mut spec = default_main_window();
    spec.visible = false;
    spec.transparent = false;
    spec.title = None;
    spec.id = None;
    let plan = window_plan(spec, 1, Some(true)).unwrap();
    assert!(plan.show_on_load);
    assert!(plan.transparent);
    assert_eq!(plan.title, "Tish Desktop");
    assert_eq!(plan.row_title, "main");
    assert_eq!(plan.surface_id, "main");
    assert_eq!(plan.surface_kind, SurfaceKind::Webview);
    assert_eq!(plan.url, WindowUrl::External("http://localhost:5173/".to_string()));

    let mut first = default_main_window();
    first.visible = false;
    let plan = window_plan(first, 0, None).unwrap();
    assert!(!plan.show_on_load);

    let mut unnamed = default_main_window();
    unnamed.label = String::new();
    assert_eq!(window_plan(unnamed, 0, None).err(), Some("label required".to_string()));
}

#[test]
fn surfaces_register_and_list() {
    let mut surfaces = SurfaceRegistry::new();
    surfaces.register(SurfaceInfo {
        id: "a".to_string(),
        kind: SurfaceKind::Web,
        platform: None,
        label: Some("a".to_string()),
    });
    surfaces.register(SurfaceInfo {
        id: "a".to_string(),
        kind: SurfaceKind::Native,
        platform: Some("apple".to_string()),
        label: None,
    });
    let list = surfaces.list();
    assert_eq!(list.len(), 1);
    assert_eq!(list[0].kind, SurfaceKind::Native);
    assert!(surfaces.unregister("a"));
    assert!(!surfaces.unregister("a"));
}

#[test]
fn labels_with_control_characters_are_escaped() {
    assert_eq!(
        init_script("t\u{1}\n\\"),
        "window.__TISH_DESKTOP__ = true; window.__TISH_WINDOW_LABEL__ = \"t\\u0001\\n\\\\\";"
    );
}

#[test]
fn a_dispatch_restores_the_caller_it_found() {
    let mut slot: Option<String> = Some("main".to_string());
    let prev = enter_caller(&mut slot, Some("win-2"));
    assert_eq!(slot.as_deref(), Some("win-2"));
    leave_caller(&mut slot, prev);
    assert_eq!(slot.as_deref(), Some("main"));
    let prev = enter_caller(&mut slot, None);
    assert_eq!(slot.as_deref(), Some("main"));
    leave_caller(&mut slot, prev);
    assert_eq!(slot.as_deref(), Some("main"));
}
