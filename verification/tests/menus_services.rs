use tishlang_desktop::json::{Json, JsonNumber};
use tishlang_desktop::menus::{menu_node, menu_set_plan, MenuNode};
use tishlang_desktop::services::{
    clone_strings, dialog_filters, dialog_open_mode, http_fetch_plan, picked_path_reply,
    picked_paths_reply, post_message_args, shell_exec_plan, shell_reply, store_key_args,
    store_path, string_list_arg, surface_label, ShellAllow,
};

fn s(t: &str) -> Json {
    Json::Str(t.to_string())
}

fn obj(pairs: Vec<(&str, Json)>) -> Json {
    Json::Object(pairs.into_iter().map(|(k, v)| (k.to_string(), v)).collect())
}

fn strings(v: &[&str]) -> Vec<String> {
    v.iter().map(|x| x.to_string()).collect()
}

#[test]
fn menu_trees_nest() {
    let spec = obj(vec![(
        "menus",
        Json::Array(vec![obj(vec![
            ("label", s("File")),
            (
                "items",
                Json::Array(vec![
                    obj(vec![("label", s("Open")), ("accelerator", s("CmdOrCtrl+O"))]),
                    obj(vec![("separator", Json::Bool(true))]),
                    obj(vec![("label", s("Wrap")), ("checked", Json::Bool(true)), ("id", s("wrap"))]),
                    obj(vec![("label", s("Recent")), ("items", Json::Array(vec![obj(vec![])]))]),
                ]),
            ),
        ])]),
    )]);
    let menus = menu_set_plan(&strings(&["menu"]), &spec).unwrap();
    assert_eq!(menus.len(), 1);
    match &menus[0] {
        MenuNode::Submenu { label, items } => {
            assert_eq!(label, "File");
            assert_eq!(items.len(), 4);
            match &items[0] {
                MenuNode::Item { id, label, enabled, accelerator } => {
                    assert_eq!((id.as_str(), label.as_str(), *enabled), ("menu:Open", "Open", true));
                    assert_eq!(accelerator.as_deref(), Some("CmdOrCtrl+O"));
                }
                _ => panic!("item"),
            }
            assert!(matches!(items[1], MenuNode::Separator));
            assert!(matches!(&items[2], MenuNode::Check { checked: true, id, .. } if id == "wrap"));
            match &items[3] {
                MenuNode::Submenu { label, items } => {
                    assert_eq!(label, "Recent");
                    assert!(matches!(&items[0], MenuNode::Item { id, label, .. } if id == "menu:Item" && label == "Item"));
                }
                _ => panic!("submenu"),
            }
        }
        _ => panic!("top menu"),
    }
    assert_eq!(menu_set_plan(&strings(&[]), &spec).err(), Some("menu permission denied".to_string()));
    assert_eq!(menu_set_plan(&strings(&["menu"]), &obj(vec![])).err(), Some("menus array required".to_string()));
    let top = menu_set_plan(&strings(&["menu"]), &obj(vec![("menus", Json::Array(vec![obj(vec![])]))])).unwrap();
    assert!(matches!(&top[0], MenuNode::Submenu { label, items } if label == "Menu" && items.is_empty()));
    assert!(matches!(menu_node(&s("x")), MenuNode::Item { .. }));
}

#[test]
fn shell_commands_must_be_allow_listed() {
    let allow = vec![ShellAllow {
        name: "git".to_string(),
        cmd: "/usr/bin/git".to_string(),
        args_prefix: strings(&["-C", "/repo"]),
    }];
    let perms = strings(&["shell"]);
    let args = obj(vec![("name", s("git")), ("args", Json::Array(vec![s("status"), Json::Null, s("-s")]))]);
    assert_eq!(
        shell_exec_plan(&perms, &allow, &args),
        Ok(("/usr/bin/git".to_string(), strings(&["-C", "/repo", "status", "-s"])))
    );
    assert_eq!(
        shell_exec_plan(&perms, &allow, &obj(vec![("name", s("rm"))])).err(),
        Some("shell command not allow-listed: rm".to_string())
    );
    assert_eq!(shell_exec_plan(&perms, &allow, &obj(vec![])).err(), Some("name required".to_string()));
    assert_eq!(shell_exec_plan(&vec![], &allow, &args).err(), Some("shell permission denied".to_string()));
    let r = shell_reply(Some(-1), "out".to_string(), String::new());
    assert_eq!(r.get("code"), Some(&Json::Number(JsonNumber::NegInt(-1))));
    assert_eq!(shell_reply(None, String::new(), String::new()).get("code"), Some(&Json::Null));
    assert_eq!(clone_strings(&strings(&["a", "b"])), strings(&["a", "b"]));
    assert_eq!(string_list_arg(&obj(vec![("xs", s("no"))]), "xs"), Vec::<String>::new());
}

#[test]
fn http_requests_are_checked() {
    let perms = strings(&["http"]);
    let allow = strings(&["api.example"]);
    let args = obj(vec![
        ("url", s("https://api.example/v1")),
        ("method", s("post")),
        ("headers", obj(vec![("Accept", s("json")), ("X-N", Json::Number(JsonNumber::PosInt(1)))])),
        ("body", s("{}")),
    ]);
    let plan = http_fetch_plan(&perms, &allow, &args).unwrap();
    assert_eq!(plan.method, "POST");
    assert_eq!(plan.headers, vec![("Accept".to_string(), "json".to_string())]);
    assert_eq!(plan.body.as_deref(), Some("{}"));
    assert_eq!(
        http_fetch_plan(&perms, &allow, &obj(vec![("url", s("https://evil.example/"))])).err(),
        Some("http host not allow-listed: evil.example".to_string())
    );
    assert_eq!(
        http_fetch_plan(&perms, &vec![], &obj(vec![("url", s("data:text/plain,hi"))])).err(),
        Some("url has no host".to_string())
    );
    assert_eq!(http_fetch_plan(&perms, &vec![], &obj(vec![])).err(), Some("url required".to_string()));
    assert_eq!(
        http_fetch_plan(&perms, &vec![], &obj(vec![("url", s("https://any.example/"))])).err(),
        Some("http host not allow-listed: any.example".to_string())
    );
    let plan = http_fetch_plan(&perms, &allow, &obj(vec![("url", s("https://api.example/"))])).unwrap();
    assert_eq!(plan.method, "GET");
}

#[test]
fn dialog_filters_and_picks() {
    let args = obj(vec![
        ("filters", Json::Array(vec![
            obj(vec![("name", s("Images")), ("extensions", Json::Array(vec![s("png"), s("jpg")]))]),
            obj(vec![("name", s("Empty")), ("extensions", Json::Array(vec![]))]),
            obj(vec![("extensions", Json::Array(vec![s("txt")]))]),
        ])),
        ("directory", Json::Bool(true)),
    ]);
    let fs = dialog_filters(&args);
    assert_eq!(fs.len(), 2);
    assert_eq!(fs[0].name, "Images");
    assert_eq!(fs[0].extensions, strings(&["png", "jpg"]));
    assert_eq!(fs[1].name, "Files");
    assert_eq!(dialog_open_mode(&args), (true, false));
    assert_eq!(picked_path_reply(&None).get("path"), Some(&Json::Null));
    assert_eq!(
        picked_paths_reply(&strings(&["/a"])).get("paths"),
        Some(&Json::Array(vec![s("/a")]))
    );
}

#[test]
fn store_and_webview_arguments() {
    assert_eq!(store_path(&obj(vec![])), "store.json");
    assert_eq!(
        store_key_args(&strings(&["store"]), &obj(vec![("key", s("k")), ("path", s("p.json"))])),
        Ok(("p.json".to_string(), "k".to_string()))
    );
    assert_eq!(store_key_args(&strings(&["store"]), &obj(vec![])).err(), Some("key required".to_string()));
    assert_eq!(surface_label(&obj(vec![("id", s("pane"))])), Ok("pane".to_string()));
    assert_eq!(surface_label(&obj(vec![("label", Json::Null), ("id", s("pane"))])), Err("surfaceId required".to_string()));
    assert_eq!(surface_label(&obj(vec![])), Err("surfaceId required".to_string()));
    let (channel, body) = post_message_args(&obj(vec![("event", s("ping")), ("payload", s("x"))]));
    assert_eq!((channel.as_str(), body), ("ping", s("x")));
    let (channel, body) = post_message_args(&obj(vec![]));
    assert_eq!((channel.as_str(), body), ("message", Json::Null));
}
