use tishlang_desktop::json::{Json, JsonNumber};
use tishlang_desktop::system::{
    accelerator_for, blocks_reply, clipboard_text_arg, exit_code, image_args, image_reply, shortcut_args,
    sleep_reason, ShortcutTable, SleepBlocks,
};

fn s(t: &str) -> Json {
    Json::Str(t.to_string())
}

fn obj(pairs: Vec<(&str, Json)>) -> Json {
    Json::Object(pairs.into_iter().map(|(k, v)| (k.to_string(), v)).collect())
}

#[test]
fn shortcuts_are_tracked_by_id() {
    let mut t = ShortcutTable::new();
    t.record("save".to_string(), "CmdOrCtrl+S".to_string());
    t.record("find".to_string(), "CmdOrCtrl+F".to_string());
    t.record("save".to_string(), "CmdOrCtrl+Shift+S".to_string());
    assert_eq!(t.get("save"), Some("CmdOrCtrl+Shift+S".to_string()));
    assert_eq!(accelerator_for(&t, &obj(vec![("id", s("find"))])), Ok("CmdOrCtrl+F".to_string()));
    assert_eq!(accelerator_for(&t, &obj(vec![("accelerator", s("A")), ("id", s("nope"))])), Ok("A".to_string()));
    assert_eq!(
        accelerator_for(&t, &obj(vec![("id", s("nope"))])),
        Err("shortcut not registered: nope".to_string())
    );
    assert_eq!(accelerator_for(&t, &obj(vec![])), Err("id or accelerator required".to_string()));
    assert_eq!(t.take("save"), Ok("CmdOrCtrl+Shift+S".to_string()));
    assert_eq!(t.take("save"), Err("shortcut not registered: save".to_string()));
    t.clear();
    assert_eq!(t.get("find"), None);
    assert_eq!(shortcut_args(&obj(vec![("id", s("x"))])).err(), Some("accelerator required".to_string()));
    assert_eq!(shortcut_args(&obj(vec![])).err(), Some("id required".to_string()));
}

#[test]
fn sleep_blocks_nest() {
    let mut b = SleepBlocks { count: 0 };
    assert!(b.prevent());
    assert!(!b.prevent());
    assert!(!b.allow());
    assert!(b.allow());
    assert!(b.allow());
    assert_eq!(b.count, 0);
    assert_eq!(sleep_reason(&obj(vec![])), "User requested");
}

#[test]
fn process_and_clipboard_arguments() {
    assert_eq!(exit_code(&obj(vec![])), 0);
    assert_eq!(exit_code(&obj(vec![("code", Json::Number(JsonNumber::PosInt(3)))])), 3);
    assert_eq!(exit_code(&obj(vec![("code", Json::Number(JsonNumber::NegInt(-1)))])), -1);
    assert_eq!(exit_code(&obj(vec![("code", Json::Number(JsonNumber::PosInt(4294967297)))])), 1);
    assert_eq!(exit_code(&obj(vec![("code", Json::Number(JsonNumber::Float(2.0f64.to_bits())))])), 0);
    assert_eq!(clipboard_text_arg(&obj(vec![])), Err("text required".to_string()));
    let ok = image_args(&obj(vec![
        ("width", Json::Number(JsonNumber::PosInt(1))),
        ("height", Json::Number(JsonNumber::PosInt(1))),
        ("rgba", s("AAAA/w==")),
    ]));
    assert_eq!(ok, Ok((1, 1, vec![0, 0, 0, 255])));
    assert!(image_args(&obj(vec![
        ("width", Json::Number(JsonNumber::PosInt(1))),
        ("height", Json::Number(JsonNumber::PosInt(1))),
        ("rgba", s("***")),
    ]))
    .is_err());
    assert_eq!(image_args(&obj(vec![])).err(), Some("width required".to_string()));
    let r = image_reply(1, 1, &[0, 0, 0, 255]);
    assert_eq!(r.get("rgba"), Some(&s("AAAA/w==")));
}

#[test]
fn blocks_balance_and_are_reported() {
    let mut b = SleepBlocks { count: 0 };
    assert!(b.prevent());
    assert!(!b.prevent());
    assert_eq!(blocks_reply(&b).get("blocks"), Some(&Json::Number(JsonNumber::PosInt(2))));
    assert!(!b.allow());
    assert!(b.allow());
    assert_eq!(b.count, 0);
    assert!(b.allow());
    assert_eq!(blocks_reply(&b).get("blocks"), Some(&Json::Number(JsonNumber::PosInt(0))));
    assert_eq!(blocks_reply(&b).get("ok"), Some(&Json::Bool(true)));
}
