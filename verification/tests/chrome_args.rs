use tishlang_desktop::chrome::{
    attention_plan, badge_count, badge_count_reply, badge_label, context_menu_items,
    dialog_message_args, notification_text, permission_state_str, progress_plan, required_bool,
    required_str, tray_menu_items, tray_title_text, tray_tooltip_text, AttentionKind, MenuEntry,
    PermissionKind, ProgressStatus,
};
use tishlang_desktop::json::{Json, JsonNumber};

fn s(t: &str) -> Json {
    Json::Str(t.to_string())
}

fn obj(pairs: Vec<(&str, Json)>) -> Json {
    Json::Object(pairs.into_iter().map(|(k, v)| (k.to_string(), v)).collect())
}

fn perms(v: &[&str]) -> Vec<String> {
    v.iter().map(|x| x.to_string()).collect()
}

#[test]
fn required_and_defaulted_arguments() {
    assert_eq!(required_str(&obj(vec![]), "title", "title required"), Err("title required".to_string()));
    assert_eq!(required_str(&obj(vec![("title", s("T"))]), "title", "title required"), Ok("T".to_string()));
    assert_eq!(
        required_bool(&obj(vec![("enable", s("yes"))]), "enable", "enable bool required"),
        Err("enable bool required".to_string())
    );
    assert_eq!(required_bool(&obj(vec![("enable", Json::Bool(false))]), "enable", "m"), Ok(false));
    assert_eq!(
        notification_text(&obj(vec![])),
        ("Tish Desktop".to_string(), String::new())
    );
    assert_eq!(
        dialog_message_args(&perms(&["dialog"]), &obj(vec![("message", s("hi"))])),
        Ok(("Message".to_string(), "hi".to_string()))
    );
    assert_eq!(
        dialog_message_args(&perms(&[]), &obj(vec![])),
        Err("dialog permission denied".to_string())
    );
}

#[test]
fn dock_badges() {
    assert_eq!(badge_count(&obj(vec![("count", Json::Number(JsonNumber::PosInt(3)))])), Some(3));
    assert_eq!(badge_count(&obj(vec![("count", Json::Number(JsonNumber::PosInt(0)))])), None);
    assert_eq!(badge_count(&obj(vec![("count", Json::Null)])), None);
    assert_eq!(badge_count(&obj(vec![("count", Json::Number(JsonNumber::Float(4.7f64.to_bits())))])), Some(4));
    assert_eq!(badge_count(&obj(vec![("count", Json::Number(JsonNumber::Float(0.4f64.to_bits())))])), None);
    assert_eq!(badge_count(&obj(vec![])), None);
    let r = badge_count_reply(Some(-2));
    assert_eq!(r.get("count"), Some(&Json::Number(JsonNumber::NegInt(-2))));
    assert_eq!(badge_count_reply(None).get("count"), Some(&Json::Null));
    assert_eq!(badge_label(&obj(vec![("label", s(""))])), None);
    assert_eq!(badge_label(&obj(vec![("label", s("new"))])), Some("new".to_string()));
}

#[test]
fn progress_statuses() {
    let (p, name, st) = progress_plan(&obj(vec![("progress", Json::Number(JsonNumber::PosInt(40)))]));
    assert_eq!((p, name.as_str(), st), (Some(40), "normal", ProgressStatus::Normal));
    let (p, name, st) = progress_plan(&obj(vec![]));
    assert_eq!((p, name.as_str(), st), (None, "none", ProgressStatus::Clear));
    let (_, _, st) = progress_plan(&obj(vec![("status", s("clear"))]));
    assert_eq!(st, ProgressStatus::Clear);
    let (_, _, st) = progress_plan(&obj(vec![("status", s("paused"))]));
    assert_eq!(st, ProgressStatus::Paused);
    let (_, name, st) = progress_plan(&obj(vec![("status", s("weird"))]));
    assert_eq!((name.as_str(), st), ("weird", ProgressStatus::Normal));
    let (p, _, _) = progress_plan(&obj(vec![("progress", Json::Number(JsonNumber::Float(12.9f64.to_bits())))]));
    assert_eq!(p, Some(12));
}

#[test]
fn attention_kinds() {
    assert_eq!(attention_plan(&obj(vec![])), ("informational".to_string(), Some(AttentionKind::Informational)));
    assert_eq!(attention_plan(&obj(vec![("kind", s("critical"))])).1, Some(AttentionKind::Critical));
    assert_eq!(attention_plan(&obj(vec![("kind", s("clear"))])).1, None);
}

#[test]
fn tray_arguments() {
    assert_eq!(tray_tooltip_text(&perms(&["tray"]), &obj(vec![])), Err("text required".to_string()));
    assert_eq!(tray_tooltip_text(&perms(&[]), &obj(vec![])), Err("tray permission denied".to_string()));
    assert_eq!(tray_title_text(&perms(&["tray"]), &obj(vec![])), Ok(String::new()));
    assert_eq!(tray_menu_items(&perms(&["tray"]), &obj(vec![])).err(), Some("items required".to_string()));
    let items = tray_menu_items(
        &perms(&["tray"]),
        &obj(vec![("items", Json::Array(vec![
            obj(vec![("separator", Json::Bool(true))]),
            obj(vec![("label", s("Quit")), ("enabled", Json::Bool(false))]),
        ]))]),
    )
    .unwrap();
    assert!(matches!(items[0], MenuEntry::Separator));
    match &items[1] {
        MenuEntry::Item { id, label, enabled } => {
            assert_eq!((id.as_str(), label.as_str(), *enabled), ("", "Quit", false));
        }
        _ => panic!("item expected"),
    }
}

#[test]
fn context_menu_items_name_unnamed_entries() {
    let items = context_menu_items(&obj(vec![("items", Json::Array(vec![
        obj(vec![("label", s("Copy"))]),
        obj(vec![("separator", Json::Bool(true))]),
        obj(vec![("label", s("Paste")), ("id", s("paste"))]),
        obj(vec![("label", s("Third"))]),
    ]))]))
    .unwrap();
    match (&items[0], &items[2], &items[3]) {
        (MenuEntry::Item { id: a, .. }, MenuEntry::Item { id: b, .. }, MenuEntry::Item { id: c, enabled, .. }) => {
            assert_eq!((a.as_str(), b.as_str(), c.as_str(), *enabled), ("ctx:0", "paste", "ctx:3", true));
        }
        _ => panic!("items expected"),
    }
    assert_eq!(
        context_menu_items(&obj(vec![("items", Json::Array(vec![obj(vec![("id", s("x"))])]))])).err(),
        Some("item.label required".to_string())
    );
    assert_eq!(context_menu_items(&obj(vec![])).err(), Some("items array required".to_string()));
}

#[test]
fn notification_permission_names() {
    assert_eq!(permission_state_str(PermissionKind::Granted), "granted");
    assert_eq!(permission_state_str(PermissionKind::Denied), "denied");
    assert_eq!(permission_state_str(PermissionKind::PromptWithRationale), "prompt");
}
