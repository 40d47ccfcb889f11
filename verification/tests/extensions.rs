use tishlang_desktop::extensions::{namespaced_name, ExtensionManifest, ExtensionRegistry};
use tishlang_desktop::json::Json;

fn manifest(id: &str, commands: &[&str], permissions: &[&str]) -> ExtensionManifest {
    ExtensionManifest {
        id: id.to_string(),
        shell: None,
        ui: None,
        commands: commands.iter().map(|s| s.to_string()).collect(),
        permissions: permissions.iter().map(|s| s.to_string()).collect(),
    }
}

#[test]
fn registers_and_lists_manifests() {
    let mut reg = ExtensionRegistry::new();
    assert_eq!(reg.register_tish(manifest("git", &["status"], &["fs:scoped", "dialog"])), Ok(()));
    reg.register_rust_module("lsp".to_string());
    let list = reg.list();
    assert_eq!(list.get("protocol"), Some(&Json::Str("desktop/v1".to_string())));
    match list.get("tish") {
        Some(Json::Array(items)) => {
            assert_eq!(items.len(), 1);
            assert_eq!(items[0].get("id"), Some(&Json::Str("git".to_string())));
            assert_eq!(items[0].get("shell"), Some(&Json::Null));
            assert_eq!(
                items[0].get("commands"),
                Some(&Json::Array(vec![Json::Str("status".to_string())]))
            );
        }
        _ => panic!("tish list missing"),
    }
    assert_eq!(list.get("rust"), Some(&Json::Array(vec![Json::Str("lsp".to_string())])));
}

#[test]
fn refuses_unknown_permissions() {
    let mut reg = ExtensionRegistry::new();
    assert_eq!(
        reg.register_tish(manifest("x", &[], &["dialog", "network", "camera"])),
        Err("unknown permission requested: network".to_string())
    );
    assert_eq!(reg.register_tish(manifest("x", &[], &[])), Ok(()));
}

#[test]
fn refuses_a_taken_id() {
    let mut reg = ExtensionRegistry::new();
    assert_eq!(reg.register_tish(manifest("git", &[], &[])), Ok(()));
    assert_eq!(
        reg.register_tish(manifest("git", &["other"], &[])),
        Err("extension already registered: git".to_string())
    );
}

#[test]
fn refuses_namespaced_command_collisions() {
    let mut reg = ExtensionRegistry::new();
    assert_eq!(reg.register_tish(manifest("a", &["b.c"], &[])), Ok(()));
    // "a.b" + "." + "c" is "a.b.c", the same as "a" + "." + "b.c".
    assert_eq!(
        reg.register_tish(manifest("a.b", &["x", "c"], &[])),
        Err("command collision: a.b.c".to_string())
    );
    assert_eq!(reg.register_tish(manifest("a.b", &["x"], &[])), Ok(()));
    assert_eq!(namespaced_name("git", "status"), "git.status");
}
