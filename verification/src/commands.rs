//! Broker command routing: which part of the host answers a command. The order is: a
//! registered Tish handler, then `state.*`, then the capability providers (notifications,
//! dialogs, the persisted store, webviews), then the command modules in a fixed order; a
//! command nobody claims is unknown.

use vstd::prelude::*;

use crate::broker::is_state_command;
use crate::text::{has_prefix, str_eq};
use crate::caps::claims_prefix;

verus! {

/// A command module of the desktop host.
#[derive(Clone, Copy, Debug, PartialEq, Eq, Structural)]
pub enum CommandModule {
    /// Windows, the sandboxed file system, extensions, `ping`.
    Core,
    /// Window chrome, dock, tray, context menu, notifications, opener.
    Chrome,
    /// Window geometry and state.
    WindowExtra,
    /// Clipboard text and images.
    Clipboard,
    /// Global shortcuts.
    Shortcut,
    /// Shell, HTTP, OS and display queries.
    ShellOs,
    /// Persisted store, autostart, updater.
    StoreAuto,
    /// Sleep prevention and the process.
    PowerProcess,
    /// Keychain secrets and OAuth login.
    SecretsAuth,
    /// The application menu.
    MenuSet,
    /// File and question dialogs.
    DialogExtra,
    /// Webview panes.
    WebviewCap,
}

/// The commands a module answers.
pub open spec fn command_names(m: CommandModule) -> Seq<Seq<char>> {
    match m {
        CommandModule::Core => seq!["ping"@, "window.list"@, "window.focus"@, "window.close"@, "window.create"@, "fs.list"@, "fs.readText"@, "fs.stat"@, "fs.watch"@, "fs.unwatch"@, "extensions.list"@],
        CommandModule::Chrome => seq!["dialog.message"@, "dock.badge"@, "dock.badgeLabel"@, "dock.setIcon"@, "window.title"@, "window.titleBarStyle"@, "window.decorations"@, "window.shadow"@, "window.startDragging"@, "window.progress"@, "window.attention"@, "tray.tooltip"@, "tray.title"@, "tray.setMenu"@, "menu.context"@, "notification.permissionState"@, "notification.requestPermission"@, "notification.show"@, "opener.open"@, "window.setTransparent"@, "window.trafficLightInset"@, "window.reapplyTrafficLightInset"@, "window.trafficLightTint"@, "window.reapplyTrafficLightTint"@],
        CommandModule::WindowExtra => seq!["window.minimize"@, "window.maximize"@, "window.unmaximize"@, "window.fullscreen"@, "window.isFullscreen"@, "window.setPosition"@, "window.getPosition"@, "window.setSize"@, "window.getSize"@, "window.center"@, "window.setAlwaysOnTop"@, "window.setResizable"@, "window.setFocus"@, "window.print"@, "window.reload"@, "window.openDevtools"@, "windowState.save"@, "windowState.restore"@, "windowState.enabled"@],
        CommandModule::Clipboard => seq!["clipboard.readText"@, "clipboard.writeText"@, "clipboard.clear"@, "clipboard.readImage"@, "clipboard.writeImage"@],
        CommandModule::Shortcut => seq!["shortcut.register"@, "shortcut.unregister"@, "shortcut.unregisterAll"@, "shortcut.isRegistered"@],
        CommandModule::ShellOs => seq!["shell.reveal"@, "shell.openPath"@, "shell.exec"@, "http.fetch"@, "os.info"@, "os.theme"@, "display.list"@, "display.primary"@],
        CommandModule::StoreAuto => seq!["store.get"@, "store.set"@, "store.delete"@, "store.keys"@, "store.clear"@, "autostart.enable"@, "autostart.disable"@, "autostart.isEnabled"@, "updater.check"@, "updater.downloadAndInstall"@, "updater.currentVersion"@],
        CommandModule::PowerProcess => seq!["power.preventSleep"@, "power.allowSleep"@, "process.pid"@, "process.exit"@, "process.restart"@],
        CommandModule::SecretsAuth => seq!["secrets.set"@, "secrets.get"@, "secrets.delete"@, "auth.login"@, "auth.logout"@, "auth.status"@, "auth.getAccessToken"@],
        CommandModule::MenuSet => seq!["menu.set"@],
        CommandModule::DialogExtra => seq!["dialog.open"@, "dialog.save"@, "dialog.confirm"@, "dialog.ask"@],
        CommandModule::WebviewCap => seq!["webview.load"@, "webview.postMessage"@, "webview.eval"@, "webview.list"@],
    }
}

/// Whether module `m` answers `cmd`.
pub open spec fn module_claims(m: CommandModule, cmd: Seq<char>) -> bool {
    command_names(m).contains(cmd)
}

/// The commands a module answers.
pub fn names_of(m: CommandModule) -> (r: Vec<&'static str>)
    ensures
        r@.map_values(|s: &'static str| s@) == command_names(m),
{
    let mut v: Vec<&'static str> = Vec::new();
    match m {
        CommandModule::Core => {
            v.push("ping");
            v.push("window.list");
            v.push("window.focus");
            v.push("window.close");
            v.push("window.create");
            v.push("fs.list");
            v.push("fs.readText");
            v.push("fs.stat");
            v.push("fs.watch");
            v.push("fs.unwatch");
            v.push("extensions.list");
        },
        CommandModule::Chrome => {
            v.push("dialog.message");
            v.push("dock.badge");
            v.push("dock.badgeLabel");
            v.push("dock.setIcon");
            v.push("window.title");
            v.push("window.titleBarStyle");
            v.push("window.decorations");
            v.push("window.shadow");
            v.push("window.startDragging");
            v.push("window.progress");
            v.push("window.attention");
            v.push("tray.tooltip");
            v.push("tray.title");
            v.push("tray.setMenu");
            v.push("menu.context");
            v.push("notification.permissionState");
            v.push("notification.requestPermission");
            v.push("notification.show");
            v.push("opener.open");
            v.push("window.setTransparent");
            v.push("window.trafficLightInset");
            v.push("window.reapplyTrafficLightInset");
            v.push("window.trafficLightTint");
            v.push("window.reapplyTrafficLightTint");
        },
        CommandModule::WindowExtra => {
            v.push("window.minimize");
            v.push("window.maximize");
            v.push("window.unmaximize");
            v.push("window.fullscreen");
            v.push("window.isFullscreen");
            v.push("window.setPosition");
            v.push("window.getPosition");
            v.push("window.setSize");
            v.push("window.getSize");
            v.push("window.center");
            v.push("window.setAlwaysOnTop");
            v.push("window.setResizable");
            v.push("window.setFocus");
            v.push("window.print");
            v.push("window.reload");
            v.push("window.openDevtools");
            v.push("windowState.save");
            v.push("windowState.restore");
            v.push("windowState.enabled");
        },
        CommandModule::Clipboard => {
            v.push("clipboard.readText");
            v.push("clipboard.writeText");
            v.push("clipboard.clear");
            v.push("clipboard.readImage");
            v.push("clipboard.writeImage");
        },
        CommandModule::Shortcut => {
            v.push("shortcut.register");
            v.push("shortcut.unregister");
            v.push("shortcut.unregisterAll");
            v.push("shortcut.isRegistered");
        },
        CommandModule::ShellOs => {
            v.push("shell.reveal");
            v.push("shell.openPath");
            v.push("shell.exec");
            v.push("http.fetch");
            v.push("os.info");
            v.push("os.theme");
            v.push("display.list");
            v.push("display.primary");
        },
        CommandModule::StoreAuto => {
            v.push("store.get");
            v.push("store.set");
            v.push("store.delete");
            v.push("store.keys");
            v.push("store.clear");
            v.push("autostart.enable");
            v.push("autostart.disable");
            v.push("autostart.isEnabled");
            v.push("updater.check");
            v.push("updater.downloadAndInstall");
            v.push("updater.currentVersion");
        },
        CommandModule::PowerProcess => {
            v.push("power.preventSleep");
            v.push("power.allowSleep");
            v.push("process.pid");
            v.push("process.exit");
            v.push("process.restart");
        },
        CommandModule::SecretsAuth => {
            v.push("secrets.set");
            v.push("secrets.get");
            v.push("secrets.delete");
            v.push("auth.login");
            v.push("auth.logout");
            v.push("auth.status");
            v.push("auth.getAccessToken");
        },
        CommandModule::MenuSet => {
            v.push("menu.set");
        },
        CommandModule::DialogExtra => {
            v.push("dialog.open");
            v.push("dialog.save");
            v.push("dialog.confirm");
            v.push("dialog.ask");
        },
        CommandModule::WebviewCap => {
            v.push("webview.load");
            v.push("webview.postMessage");
            v.push("webview.eval");
            v.push("webview.list");
        },
    }
    assert(v@.map_values(|s: &'static str| s@) =~= command_names(m));
    v
}

/// Whether module `m` answers `cmd`.
pub fn claims(m: CommandModule, cmd: &str) -> (r: bool)
    ensures
        r == module_claims(m, cmd@),
{
    let names = names_of(m);
    let ghost all = names@.map_values(|s: &'static str| s@);
    let mut i: usize = 0;
    while i < names.len()
        invariant
            i <= names@.len(),
            all == names@.map_values(|s: &'static str| s@),
            all == command_names(m),
            forall|j: int| 0 <= j < i ==> all[j] != cmd@,
        decreases names@.len() - i,
    {
        if str_eq(names[i], cmd) {
            assert(all[i as int] == cmd@);
            return true;
        }
        i += 1;
    }
    assert(!all.contains(cmd@)) by {
        if all.contains(cmd@) {
            let j = choose|j: int| 0 <= j < all.len() && all[j] == cmd@;
            assert(all[j] != cmd@);
        }
    }
    false
}

/// The capability providers, asked in this order before the command modules.
#[derive(Clone, Copy, Debug, PartialEq, Eq, Structural)]
pub enum CapProvider {
    Notification,
    Dialog,
    Store,
    Webview,
}

/// Who answers a command.
#[derive(Clone, Copy, Debug, PartialEq, Eq, Structural)]
pub enum Route {
    /// A handler the Tish app registered under the command's name.
    Handler,
    /// The in-memory `state.*` broker.
    State,
    /// A capability provider, through the module that implements the command.
    Provider(CapProvider, CommandModule),
    /// A command module.
    Module(CommandModule),
    /// Nobody: the command is unknown.
    Unknown,
}

/// The command modules, in the order they are asked after the providers.
pub open spec fn module_order() -> Seq<CommandModule> {
    seq![
        CommandModule::Core,
        CommandModule::Chrome,
        CommandModule::WindowExtra,
        CommandModule::Clipboard,
        CommandModule::Shortcut,
        CommandModule::ShellOs,
        CommandModule::StoreAuto,
        CommandModule::PowerProcess,
        CommandModule::SecretsAuth,
        CommandModule::MenuSet,
    ]
}

/// The first of `ms` that answers `cmd`.
pub open spec fn first_claiming(ms: Seq<CommandModule>, cmd: Seq<char>) -> Option<CommandModule>
    decreases ms.len(),
{
    if ms.len() == 0 {
        None
    } else if module_claims(ms[0], cmd) {
        Some(ms[0])
    } else {
        first_claiming(ms.drop_first(), cmd)
    }
}

/// The provider that answers `cmd`: a provider is asked about the commands under its prefix
/// and answers those its modules implement (dialogs: the dialog module, then chrome).
pub open spec fn provider_route(cmd: Seq<char>) -> Option<(CapProvider, CommandModule)> {
    if has_prefix(cmd, "notification."@) && module_claims(CommandModule::Chrome, cmd) {
        Some((CapProvider::Notification, CommandModule::Chrome))
    } else if has_prefix(cmd, "dialog."@) && module_claims(CommandModule::DialogExtra, cmd) {
        Some((CapProvider::Dialog, CommandModule::DialogExtra))
    } else if has_prefix(cmd, "dialog."@) && module_claims(CommandModule::Chrome, cmd) {
        Some((CapProvider::Dialog, CommandModule::Chrome))
    } else if has_prefix(cmd, "store."@) && module_claims(CommandModule::StoreAuto, cmd) {
        Some((CapProvider::Store, CommandModule::StoreAuto))
    } else if has_prefix(cmd, "webview."@) && module_claims(CommandModule::WebviewCap, cmd) {
        Some((CapProvider::Webview, CommandModule::WebviewCap))
    } else {
        None
    }
}

/// Who answers `cmd`, given whether a Tish handler is registered under its name.
pub open spec fn route_spec(cmd: Seq<char>, has_handler: bool) -> Route {
    if has_handler {
        Route::Handler
    } else if is_state_command(cmd) {
        Route::State
    } else {
        match provider_route(cmd) {
            Some((p, m)) => Route::Provider(p, m),
            None => match first_claiming(module_order(), cmd) {
                Some(m) => Route::Module(m),
                None => Route::Unknown,
            },
        }
    }
}

/// Whether `cmd` is one of the `state.*` commands.
pub fn state_command(cmd: &str) -> (r: bool)
    ensures
        r == is_state_command(cmd@),
{
    str_eq(cmd, "state.get") || str_eq(cmd, "state.set") || str_eq(cmd, "state.patch") || str_eq(
        cmd,
        "state.keys",
    ) || str_eq(cmd, "state.delete") || str_eq(cmd, "state.surfaces")
}

fn provider_for(cmd: &str) -> (r: Option<(CapProvider, CommandModule)>)
    ensures
        r == provider_route(cmd@),
{
    if claims_prefix(cmd, "notification.") && claims(CommandModule::Chrome, cmd) {
        Some((CapProvider::Notification, CommandModule::Chrome))
    } else if claims_prefix(cmd, "dialog.") && claims(CommandModule::DialogExtra, cmd) {
        Some((CapProvider::Dialog, CommandModule::DialogExtra))
    } else if claims_prefix(cmd, "dialog.") && claims(CommandModule::Chrome, cmd) {
        Some((CapProvider::Dialog, CommandModule::Chrome))
    } else if claims_prefix(cmd, "store.") && claims(CommandModule::StoreAuto, cmd) {
        Some((CapProvider::Store, CommandModule::StoreAuto))
    } else if claims_prefix(cmd, "webview.") && claims(CommandModule::WebviewCap, cmd) {
        Some((CapProvider::Webview, CommandModule::WebviewCap))
    } else {
        None
    }
}

/// Routes a broker command.
pub fn route(cmd: &str, has_handler: bool) -> (r: Route)
    ensures
        r == route_spec(cmd@, has_handler),
{
    if has_handler {
        return Route::Handler;
    }
    if state_command(cmd) {
        return Route::State;
    }
    match provider_for(cmd) {
        Some((p, m)) => {
            return Route::Provider(p, m);
        },
        None => {},
    }
    let order: Vec<CommandModule> = vec![
        CommandModule::Core,
        CommandModule::Chrome,
        CommandModule::WindowExtra,
        CommandModule::Clipboard,
        CommandModule::Shortcut,
        CommandModule::ShellOs,
        CommandModule::StoreAuto,
        CommandModule::PowerProcess,
        CommandModule::SecretsAuth,
        CommandModule::MenuSet,
    ];
    assert(order@ =~= module_order());
    let mut i: usize = 0;
    assert(order@.subrange(0, order@.len() as int) =~= order@);
    while i < order.len()
        invariant
            i <= order@.len(),
            order@ == module_order(),
            !has_handler,
            !is_state_command(cmd@),
            provider_route(cmd@) is None,
            first_claiming(module_order(), cmd@) == first_claiming(
                order@.subrange(i as int, order@.len() as int),
                cmd@,
            ),
        decreases order@.len() - i,
    {
        let ghost rest = order@.subrange(i as int, order@.len() as int);
        assert(rest[0] == order@[i as int]);
        assert(rest.drop_first() =~= order@.subrange(i + 1, order@.len() as int));
        if claims(order[i], cmd) {
            return Route::Module(order[i]);
        }
        i += 1;
    }
    assert(order@.subrange(i as int, order@.len() as int) =~= Seq::<CommandModule>::empty());
    Route::Unknown
}

/// `"unknown command: <cmd>"`.
pub fn unknown_command(cmd: &str) -> (r: String)
    ensures
        r@ == "unknown command: "@ + cmd@,
{
    String::from_str("unknown command: ").concat(cmd)
}

} // verus!
