use tishlang_desktop::caps::{
    CapSupport, DialogProvider, LinStubProvider, MsStubProvider, NotificationProvider,
    StoreProvider, UnsupportedProvider, WebviewProvider,
};
use tishlang_desktop::commands::{route, unknown_command, CapProvider, CommandModule, Route};
use tishlang_desktop::json::Json;
use tishlang_desktop::platform::{
    current_host, AndroidPlatformHost, ApplePlatformHost, LinPlatformHost, MsPlatformHost,
    PlatformId,
};

#[test]
fn handlers_take_precedence() {
    assert_eq!(route("state.get", true), Route::Handler);
    assert_eq!(route("anything", true), Route::Handler);
}

#[test]
fn state_then_providers_then_modules() {
    assert_eq!(route("state.surfaces", false), Route::State);
    assert_eq!(
        route("notification.show", false),
        Route::Provider(CapProvider::Notification, CommandModule::Chrome)
    );
    assert_eq!(
        route("dialog.open", false),
        Route::Provider(CapProvider::Dialog, CommandModule::DialogExtra)
    );
    assert_eq!(
        route("dialog.message", false),
        Route::Provider(CapProvider::Dialog, CommandModule::Chrome)
    );
    assert_eq!(
        route("store.keys", false),
        Route::Provider(CapProvider::Store, CommandModule::StoreAuto)
    );
    assert_eq!(
        route("webview.eval", false),
        Route::Provider(CapProvider::Webview, CommandModule::WebviewCap)
    );
    assert_eq!(route("ping", false), Route::Module(CommandModule::Core));
    assert_eq!(route("window.title", false), Route::Module(CommandModule::Chrome));
    assert_eq!(route("window.minimize", false), Route::Module(CommandModule::WindowExtra));
    assert_eq!(route("autostart.enable", false), Route::Module(CommandModule::StoreAuto));
    assert_eq!(route("auth.login", false), Route::Module(CommandModule::SecretsAuth));
    assert_eq!(route("menu.set", false), Route::Module(CommandModule::MenuSet));
}

#[test]
fn unclaimed_commands_are_unknown() {
    assert_eq!(route("dialog.nope", false), Route::Unknown);
    assert_eq!(route("", false), Route::Unknown);
    assert_eq!(unknown_command("x.y"), "unknown command: x.y");
}

#[test]
fn provider_descriptions() {
    assert_eq!(DialogProvider.id(), "dialog");
    assert_eq!(DialogProvider.supported(), CapSupport::Full);
    assert!(DialogProvider.claims("dialog.ask"));
    assert_eq!(NotificationProvider.id(), "notification");
    assert!(!NotificationProvider.claims("dialog.ask"));
    assert_eq!(StoreProvider.supported(), CapSupport::Full);
    assert_eq!(WebviewProvider.supported(), CapSupport::Partial);
}

#[test]
fn stub_providers_answer_unsupported() {
    let p = UnsupportedProvider { id_str: "camera", prefix: "camera." };
    assert_eq!(p.supported(), CapSupport::Unsupported);
    let r = p.try_invoke("camera.snap").unwrap().unwrap();
    assert_eq!(r.get("code"), Some(&Json::Str("unsupported".to_string())));
    assert_eq!(r.get("capability"), Some(&Json::Str("camera".to_string())));
    assert!(p.try_invoke("dialog.open").is_none());
    let r = MsStubProvider.try_invoke("ms.toast").unwrap().unwrap();
    assert_eq!(r.get("platform"), Some(&Json::Str("windows".to_string())));
    assert_eq!(
        r.get("message"),
        Some(&Json::Str("ms is not supported on windows".to_string()))
    );
    assert!(LinStubProvider.try_invoke("ms.toast").is_none());
    assert_eq!(LinStubProvider.id(), "lin");
}

#[test]
fn platform_hosts_without_native_features() {
    assert_eq!(ApplePlatformHost.id(), PlatformId::Apple);
    assert_eq!(ApplePlatformHost.name(), "apple");
    assert!(!MsPlatformHost.supports_native_surface());
    assert_eq!(LinPlatformHost.attach_native(), Err("platform-lin not enabled".to_string()));
    assert_eq!(AndroidPlatformHost.id(), PlatformId::Android);
    assert_eq!(AndroidPlatformHost.attach_native(), Err("platform-android not enabled".to_string()));
    let h = current_host();
    assert_eq!(h.id(), PlatformId::DesktopTauri);
    assert_eq!(h.name(), "desktop-tauri");
}
