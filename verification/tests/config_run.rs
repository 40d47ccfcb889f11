use tishlang_desktop::config::{
    default_main_window, default_permissions, default_run_config, default_title_bar_style,
    default_true, ensure_permission, has_permission, plan_run, plugin_gate, raw_tick_ms, tick_ms_of,
    AppleAttach, PluginFlags, RunConfig, DEFAULT_HEIGHT_BITS, DEFAULT_WIDTH_BITS, PROTOCOL_VERSION,
};
use tishlang_desktop::json::{Json, JsonNumber};

fn obj(pairs: Vec<(&str, Json)>) -> Json {
    Json::Object(pairs.into_iter().map(|(k, v)| (k.to_string(), v)).collect())
}

fn float(f: f64) -> Json {
    Json::Number(JsonNumber::Float(f.to_bits()))
}

#[test]
fn parses_tick_ms_camel_case_from_f64() {
    let v = obj(vec![
        ("tickMs", float(1000.0)),
        (
            "plugins",
            obj(vec![
                ("dialog", Json::Bool(true)),
                ("tray", Json::Bool(true)),
                ("menu", Json::Bool(true)),
                ("deepLink", Json::Bool(true)),
                ("opener", Json::Bool(true)),
                ("singleInstance", Json::Bool(true)),
            ]),
        ),
    ]);
    assert_eq!(raw_tick_ms(&v), Some(1000));
    // Omitted switches default to on, and Default agrees.
    assert!(default_true());
    assert!(PluginFlags::default().notification);
}

#[test]
fn tick_ms_reads_numbers_leniently() {
    assert_eq!(tick_ms_of(Some(&Json::Number(JsonNumber::PosInt(250)))), Some(250));
    assert_eq!(tick_ms_of(Some(&Json::Number(JsonNumber::NegInt(-5)))), Some(0));
    assert_eq!(tick_ms_of(Some(&float(-3.5))), Some(0));
    assert_eq!(tick_ms_of(Some(&float(16.9))), Some(16));
    assert_eq!(tick_ms_of(Some(&float(f64::NAN))), Some(0));
    assert_eq!(tick_ms_of(Some(&Json::Null)), None);
    assert_eq!(tick_ms_of(Some(&Json::Str("5".to_string()))), None);
    assert_eq!(tick_ms_of(None), None);
}

#[test]
fn protocol_and_defaults() {
    assert_eq!(PROTOCOL_VERSION, "desktop/v1");
    assert_eq!(default_title_bar_style(), "transparent");
    let f = PluginFlags::default();
    assert!(f.dialog && f.tray && f.menu && f.deep_link && f.opener && f.single_instance);
    let w = default_main_window();
    assert_eq!(w.label, "main");
    assert_eq!(w.url.as_deref(), Some("http://localhost:5173/"));
    assert_eq!(f64::from_bits(w.width_bits), 960.0);
    assert_eq!(f64::from_bits(w.height_bits), 640.0);
    assert_eq!(DEFAULT_WIDTH_BITS, 960.0f64.to_bits());
    assert_eq!(DEFAULT_HEIGHT_BITS, 640.0f64.to_bits());
}

#[test]
fn permissions_default_and_denied_message() {
    let perms = default_permissions();
    assert!(has_permission(&perms, "dialog"));
    assert!(has_permission(&perms, "fs:scoped"));
    assert!(!has_permission(&perms, "auth"));
    assert_eq!(ensure_permission(&perms, "tray"), Ok(()));
    assert_eq!(
        ensure_permission(&perms, "secrets"),
        Err("secrets permission denied".to_string())
    );
}

#[test]
fn run_opens_the_default_window_when_none_is_configured() {
    let plan = plan_run(default_run_config(), None, None, 0);
    assert_eq!(plan.config.windows.len(), 1);
    assert_eq!(plan.config.windows[0].label, "main");
    assert_eq!(plan.tick_ms, 0);
    assert!(!plan.pure_native_apple);
    assert!(plan.attach.is_none());
}

#[test]
fn run_merges_what_was_queued() {
    let mut cfg = default_run_config();
    cfg.plugins.tray = false;
    let mut pending = default_run_config();
    let mut w = default_main_window();
    w.label = "queued".to_string();
    pending.windows.push(w);
    pending.fs_root = Some("/tmp/root".to_string());
    pending.extensions.push("ext.a".to_string());
    pending.tick_ms = Some(40);
    pending.plugins.dialog = false;
    let plan = plan_run(cfg, None, Some(pending), 0);
    assert_eq!(plan.config.windows.len(), 1);
    assert_eq!(plan.config.windows[0].label, "queued");
    assert_eq!(plan.config.fs_root.as_deref(), Some("/tmp/root"));
    assert_eq!(plan.config.extensions, vec!["ext.a".to_string()]);
    assert_eq!(plan.tick_ms, 40);
    // Plugin switches come from run() only.
    assert!(plan.config.plugins.dialog);
    assert!(!plan.config.plugins.tray);
}

#[test]
fn run_prefers_its_own_tick_and_raw_fallback() {
    let mut cfg = default_run_config();
    cfg.tick_ms = Some(5);
    let mut pending = default_run_config();
    pending.tick_ms = Some(40);
    let plan = plan_run(cfg, Some(7), Some(pending), 0);
    assert_eq!(plan.tick_ms, 5);
    let plan = plan_run(default_run_config(), Some(7), None, 0);
    assert_eq!(plan.tick_ms, 7);
}

#[test]
fn pure_native_apple_runs_without_windows() {
    let mut cfg = default_run_config();
    cfg.apple_attach = Some(AppleAttach { outer_host: false, auto_run_event_loop: false });
    let plan = plan_run(cfg, None, None, 2);
    assert!(plan.pure_native_apple);
    assert!(plan.config.windows.is_empty());
    assert_eq!(plan.attach, Some((false, true)));

    let mut cfg: RunConfig = default_run_config();
    cfg.apple_attach = Some(AppleAttach { outer_host: true, auto_run_event_loop: false });
    let plan = plan_run(cfg, None, None, 2);
    assert!(!plan.pure_native_apple);
    assert_eq!(plan.config.windows.len(), 1);
    assert_eq!(plan.attach, Some((true, false)));
}

#[test]
fn plugin_gate_checks_permission_then_plugin() {
    let perms = default_permissions();
    assert_eq!(
        plugin_gate(&perms, "clipboard", "clipboard", true),
        Err("clipboard permission denied".to_string())
    );
    assert_eq!(plugin_gate(&perms, "dialog", "dialog", true), Ok(()));
    assert_eq!(
        plugin_gate(&perms, "dialog", "dialog", false),
        Err("dialog plugin not enabled — set plugins.dialog: true in run()".to_string())
    );
    let granted = vec!["global-shortcut".to_string()];
    assert_eq!(
        plugin_gate(&granted, "global-shortcut", "globalShortcut", false),
        Err("global-shortcut plugin not enabled — set plugins.globalShortcut: true in run()".to_string())
    );
}
