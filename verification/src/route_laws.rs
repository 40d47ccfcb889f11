//! Where each command of the host's command modules is answered, written out command by
//! command, independently of the module tables that `route` reads.

use vstd::prelude::*;

use crate::broker::is_state_command;
use crate::commands::{command_names, first_claiming, module_claims, module_order, route_spec, CapProvider, CommandModule, Route};
use crate::text::has_prefix;

verus! {

// A command of a module has the length and the characters at a few positions of one of the
// module's commands (enough to tell it from every other command of the host); this tells the
// modules' commands apart without comparing whole names.

spec fn core_print(c: Seq<char>) -> bool {
    (c.len() == 4)
        || (c.len() == 11 && c[0] == 'w')
        || (c.len() == 12 && c[7] == 'f')
        || (c.len() == 12 && c[7] == 'c')
        || (c.len() == 13 && c[8] == 'r')
        || (c.len() == 7 && c[3] == 'l')
        || (c.len() == 11 && c[0] == 'f')
        || (c.len() == 7 && c[3] == 's')
        || (c.len() == 8 && c[0] == 'f')
        || (c.len() == 10 && c[0] == 'f')
        || (c.len() == 15 && c[0] == 'e')
}

proof fn lemma_core_print(c: Seq<char>)
    ensures
        module_claims(CommandModule::Core, c) ==> core_print(c),
{
    reveal_strlit("ping");
    reveal_strlit("window.list");
    reveal_strlit("window.focus");
    reveal_strlit("window.close");
    reveal_strlit("window.create");
    reveal_strlit("fs.list");
    reveal_strlit("fs.readText");
    reveal_strlit("fs.stat");
    reveal_strlit("fs.watch");
    reveal_strlit("fs.unwatch");
    reveal_strlit("extensions.list");
    if module_claims(CommandModule::Core, c) {
        let names = command_names(CommandModule::Core);
        let k = choose|k: int| 0 <= k < names.len() && names[k] == c;
    }
}

spec fn chrome_print(c: Seq<char>) -> bool {
    (c.len() == 14 && c[7] == 'm')
        || (c.len() == 10 && c[1] == 'o')
        || (c.len() == 15 && c[1] == 'o')
        || (c.len() == 12 && c[1] == 'o')
        || (c.len() == 12 && c[8] == 'i')
        || (c.len() == 20 && c[7] == 't')
        || (c.len() == 18 && c[7] == 'd')
        || (c.len() == 13 && c[7] == 's')
        || (c.len() == 20 && c[7] == 's')
        || (c.len() == 15 && c[7] == 'p')
        || (c.len() == 16 && c[6] == '.')
        || (c.len() == 12 && c[5] == 't')
        || (c.len() == 10 && c[0] == 't')
        || (c.len() == 12 && c[8] == 'M')
        || (c.len() == 12 && c[0] == 'm')
        || (c.len() == 28)
        || (c.len() == 30 && c[0] == 'n')
        || (c.len() == 17 && c[0] == 'n')
        || (c.len() == 11 && c[0] == 'o')
        || (c.len() == 21 && c[10] == 'T')
        || (c.len() == 24)
        || (c.len() == 31)
        || (c.len() == 23)
        || (c.len() == 30 && c[0] == 'w')
}

proof fn lemma_chrome_print(c: Seq<char>)
    ensures
        module_claims(CommandModule::Chrome, c) ==> chrome_print(c),
{
    reveal_strlit("dialog.message");
    reveal_strlit("dock.badge");
    reveal_strlit("dock.badgeLabel");
    reveal_strlit("dock.setIcon");
    reveal_strlit("window.title");
    reveal_strlit("window.titleBarStyle");
    reveal_strlit("window.decorations");
    reveal_strlit("window.shadow");
    reveal_strlit("window.startDragging");
    reveal_strlit("window.progress");
    reveal_strlit("window.attention");
    reveal_strlit("tray.tooltip");
    reveal_strlit("tray.title");
    reveal_strlit("tray.setMenu");
    reveal_strlit("menu.context");
    reveal_strlit("notification.permissionState");
    reveal_strlit("notification.requestPermission");
    reveal_strlit("notification.show");
    reveal_strlit("opener.open");
    reveal_strlit("window.setTransparent");
    reveal_strlit("window.trafficLightInset");
    reveal_strlit("window.reapplyTrafficLightInset");
    reveal_strlit("window.trafficLightTint");
    reveal_strlit("window.reapplyTrafficLightTint");
    if module_claims(CommandModule::Chrome, c) {
        let names = command_names(CommandModule::Chrome);
        let k = choose|k: int| 0 <= k < names.len() && names[k] == c;
    }
}

spec fn window_extra_print(c: Seq<char>) -> bool {
    (c.len() == 15 && c[8] == 'i')
        || (c.len() == 15 && c[8] == 'a')
        || (c.len() == 17 && c[7] == 'u')
        || (c.len() == 17 && c[7] == 'f')
        || (c.len() == 19 && c[7] == 'i')
        || (c.len() == 18 && c[7] == 's')
        || (c.len() == 18 && c[7] == 'g')
        || (c.len() == 14 && c[7] == 's')
        || (c.len() == 14 && c[7] == 'g')
        || (c.len() == 13 && c[9] == 'n')
        || (c.len() == 21 && c[10] == 'A')
        || (c.len() == 19 && c[7] == 's')
        || (c.len() == 15 && c[7] == 's')
        || (c.len() == 12 && c[7] == 'p')
        || (c.len() == 13 && c[7] == 'r')
        || (c.len() == 19 && c[7] == 'o')
        || (c.len() == 16 && c[6] == 'S')
        || (c.len() == 19 && c[12] == 'r')
        || (c.len() == 19 && c[6] == 'S' && c[12] == 'e')
}

proof fn lemma_window_extra_print(c: Seq<char>)
    ensures
        module_claims(CommandModule::WindowExtra, c) ==> window_extra_print(c),
{
    reveal_strlit("window.minimize");
    reveal_strlit("window.maximize");
    reveal_strlit("window.unmaximize");
    reveal_strlit("window.fullscreen");
    reveal_strlit("window.isFullscreen");
    reveal_strlit("window.setPosition");
    reveal_strlit("window.getPosition");
    reveal_strlit("window.setSize");
    reveal_strlit("window.getSize");
    reveal_strlit("window.center");
    reveal_strlit("window.setAlwaysOnTop");
    reveal_strlit("window.setResizable");
    reveal_strlit("window.setFocus");
    reveal_strlit("window.print");
    reveal_strlit("window.reload");
    reveal_strlit("window.openDevtools");
    reveal_strlit("windowState.save");
    reveal_strlit("windowState.restore");
    reveal_strlit("windowState.enabled");
    if module_claims(CommandModule::WindowExtra, c) {
        let names = command_names(CommandModule::WindowExtra);
        let k = choose|k: int| 0 <= k < names.len() && names[k] == c;
    }
}

spec fn clipboard_print(c: Seq<char>) -> bool {
    (c.len() == 18 && c[0] == 'c')
        || (c.len() == 19 && c[10] == 'w')
        || (c.len() == 15 && c[0] == 'c')
        || (c.len() == 19 && c[10] == 'r')
        || (c.len() == 20 && c[0] == 'c')
}

proof fn lemma_clipboard_print(c: Seq<char>)
    ensures
        module_claims(CommandModule::Clipboard, c) ==> clipboard_print(c),
{
    reveal_strlit("clipboard.readText");
    reveal_strlit("clipboard.writeText");
    reveal_strlit("clipboard.clear");
    reveal_strlit("clipboard.readImage");
    reveal_strlit("clipboard.writeImage");
    if module_claims(CommandModule::Clipboard, c) {
        let names = command_names(CommandModule::Clipboard);
        let k = choose|k: int| 0 <= k < names.len() && names[k] == c;
    }
}

spec fn shortcut_print(c: Seq<char>) -> bool {
    (c.len() == 17 && c[0] == 's')
        || (c.len() == 19 && c[0] == 's')
        || (c.len() == 22 && c[0] == 's')
        || (c.len() == 21 && c[0] == 's')
}

proof fn lemma_shortcut_print(c: Seq<char>)
    ensures
        module_claims(CommandModule::Shortcut, c) ==> shortcut_print(c),
{
    reveal_strlit("shortcut.register");
    reveal_strlit("shortcut.unregister");
    reveal_strlit("shortcut.unregisterAll");
    reveal_strlit("shortcut.isRegistered");
    if module_claims(CommandModule::Shortcut, c) {
        let names = command_names(CommandModule::Shortcut);
        let k = choose|k: int| 0 <= k < names.len() && names[k] == c;
    }
}

spec fn shell_os_print(c: Seq<char>) -> bool {
    (c.len() == 12 && c[1] == 'h')
        || (c.len() == 14 && c[1] == 'h')
        || (c.len() == 10 && c[1] == 'h')
        || (c.len() == 10 && c[0] == 'h')
        || (c.len() == 7 && c[0] == 'o')
        || (c.len() == 8 && c[0] == 'o')
        || (c.len() == 12 && c[2] == 's')
        || (c.len() == 15 && c[2] == 's')
}

proof fn lemma_shell_os_print(c: Seq<char>)
    ensures
        module_claims(CommandModule::ShellOs, c) ==> shell_os_print(c),
{
    reveal_strlit("shell.reveal");
    reveal_strlit("shell.openPath");
    reveal_strlit("shell.exec");
    reveal_strlit("http.fetch");
    reveal_strlit("os.info");
    reveal_strlit("os.theme");
    reveal_strlit("display.list");
    reveal_strlit("display.primary");
    if module_claims(CommandModule::ShellOs, c) {
        let names = command_names(CommandModule::ShellOs);
        let k = choose|k: int| 0 <= k < names.len() && names[k] == c;
    }
}

spec fn store_auto_print(c: Seq<char>) -> bool {
    (c.len() == 9 && c[2] == 'o' && c[6] == 'g')
        || (c.len() == 9 && c[2] == 'o' && c[6] == 's')
        || (c.len() == 12 && c[3] == 'r')
        || (c.len() == 10 && c[2] == 'o')
        || (c.len() == 11 && c[6] == 'c')
        || (c.len() == 16 && c[0] == 'a')
        || (c.len() == 17 && c[0] == 'a')
        || (c.len() == 19 && c[3] == 'o')
        || (c.len() == 13 && c[0] == 'u')
        || (c.len() == 26)
        || (c.len() == 22 && c[0] == 'u')
}

proof fn lemma_store_auto_print(c: Seq<char>)
    ensures
        module_claims(CommandModule::StoreAuto, c) ==> store_auto_print(c),
{
    reveal_strlit("store.get");
    reveal_strlit("store.set");
    reveal_strlit("store.delete");
    reveal_strlit("store.keys");
    reveal_strlit("store.clear");
    reveal_strlit("autostart.enable");
    reveal_strlit("autostart.disable");
    reveal_strlit("autostart.isEnabled");
    reveal_strlit("updater.check");
    reveal_strlit("updater.downloadAndInstall");
    reveal_strlit("updater.currentVersion");
    if module_claims(CommandModule::StoreAuto, c) {
        let names = command_names(CommandModule::StoreAuto);
        let k = choose|k: int| 0 <= k < names.len() && names[k] == c;
    }
}

spec fn power_process_print(c: Seq<char>) -> bool {
    (c.len() == 18 && c[0] == 'p')
        || (c.len() == 16 && c[0] == 'p')
        || (c.len() == 11 && c[0] == 'p')
        || (c.len() == 12 && c[0] == 'p')
        || (c.len() == 15 && c[0] == 'p')
}

proof fn lemma_power_process_print(c: Seq<char>)
    ensures
        module_claims(CommandModule::PowerProcess, c) ==> power_process_print(c),
{
    reveal_strlit("power.preventSleep");
    reveal_strlit("power.allowSleep");
    reveal_strlit("process.pid");
    reveal_strlit("process.exit");
    reveal_strlit("process.restart");
    if module_claims(CommandModule::PowerProcess, c) {
        let names = command_names(CommandModule::PowerProcess);
        let k = choose|k: int| 0 <= k < names.len() && names[k] == c;
    }
}

spec fn secrets_auth_print(c: Seq<char>) -> bool {
    (c.len() == 11 && c[8] == 's')
        || (c.len() == 11 && c[8] == 'g')
        || (c.len() == 14 && c[1] == 'e')
        || (c.len() == 10 && c[0] == 'a')
        || (c.len() == 11 && c[5] == 'l')
        || (c.len() == 11 && c[6] == 't')
        || (c.len() == 19 && c[3] == 'h')
}

proof fn lemma_secrets_auth_print(c: Seq<char>)
    ensures
        module_claims(CommandModule::SecretsAuth, c) ==> secrets_auth_print(c),
{
    reveal_strlit("secrets.set");
    reveal_strlit("secrets.get");
    reveal_strlit("secrets.delete");
    reveal_strlit("auth.login");
    reveal_strlit("auth.logout");
    reveal_strlit("auth.status");
    reveal_strlit("auth.getAccessToken");
    if module_claims(CommandModule::SecretsAuth, c) {
        let names = command_names(CommandModule::SecretsAuth);
        let k = choose|k: int| 0 <= k < names.len() && names[k] == c;
    }
}

spec fn menu_set_print(c: Seq<char>) -> bool {
    (c.len() == 8 && c[0] == 'm')
}

proof fn lemma_menu_set_print(c: Seq<char>)
    ensures
        module_claims(CommandModule::MenuSet, c) ==> menu_set_print(c),
{
    reveal_strlit("menu.set");
    if module_claims(CommandModule::MenuSet, c) {
        let names = command_names(CommandModule::MenuSet);
        let k = choose|k: int| 0 <= k < names.len() && names[k] == c;
    }
}

spec fn dialog_extra_print(c: Seq<char>) -> bool {
    (c.len() == 11 && c[0] == 'd' && c[7] == 'o')
        || (c.len() == 11 && c[7] == 's')
        || (c.len() == 14 && c[7] == 'c')
        || (c.len() == 10 && c[1] == 'i')
}

proof fn lemma_dialog_extra_print(c: Seq<char>)
    ensures
        module_claims(CommandModule::DialogExtra, c) ==> dialog_extra_print(c),
{
    reveal_strlit("dialog.open");
    reveal_strlit("dialog.save");
    reveal_strlit("dialog.confirm");
    reveal_strlit("dialog.ask");
    if module_claims(CommandModule::DialogExtra, c) {
        let names = command_names(CommandModule::DialogExtra);
        let k = choose|k: int| 0 <= k < names.len() && names[k] == c;
    }
}

spec fn webview_cap_print(c: Seq<char>) -> bool {
    (c.len() == 12 && c[11] == 'd')
        || (c.len() == 19 && c[1] == 'e')
        || (c.len() == 12 && c[9] == 'v')
        || (c.len() == 12 && c[2] == 'b' && c[9] == 'i')
}

proof fn lemma_webview_cap_print(c: Seq<char>)
    ensures
        module_claims(CommandModule::WebviewCap, c) ==> webview_cap_print(c),
{
    reveal_strlit("webview.load");
    reveal_strlit("webview.postMessage");
    reveal_strlit("webview.eval");
    reveal_strlit("webview.list");
    if module_claims(CommandModule::WebviewCap, c) {
        let names = command_names(CommandModule::WebviewCap);
        let k = choose|k: int| 0 <= k < names.len() && names[k] == c;
    }
}

spec fn state_print(c: Seq<char>) -> bool {
    (c.len() == 9 && c[2] == 'a' && c[6] == 'g')
        || (c.len() == 9 && c[2] == 'a' && c[6] == 's')
        || (c.len() == 11 && c[3] == 't')
        || (c.len() == 10 && c[3] == 't')
        || (c.len() == 12 && c[3] == 't')
        || (c.len() == 14 && c[1] == 't')
}

proof fn lemma_state_print(c: Seq<char>)
    ensures
        is_state_command(c) ==> state_print(c),
{
    reveal_strlit("state.get");
    reveal_strlit("state.set");
    reveal_strlit("state.patch");
    reveal_strlit("state.keys");
    reveal_strlit("state.delete");
    reveal_strlit("state.surfaces");
}

proof fn lemma_notification_prefix(c: Seq<char>)
    ensures
        has_prefix(c, "notification."@) == (13 <= c.len() && c[0] == 'n' && c[1] == 'o' && c[2] == 't' && c[3] == 'i' && c[4] == 'f' && c[5] == 'i' && c[6] == 'c' && c[7] == 'a' && c[8] == 't' && c[9] == 'i' && c[10] == 'o' && c[11] == 'n' && c[12] == '.'),
{
    reveal_strlit("notification.");
    if 13 <= c.len() && c[0] == 'n' && c[1] == 'o' && c[2] == 't' && c[3] == 'i' && c[4] == 'f' && c[5] == 'i' && c[6] == 'c' && c[7] == 'a' && c[8] == 't' && c[9] == 'i' && c[10] == 'o' && c[11] == 'n' && c[12] == '.' {
        assert(c.subrange(0, 13) =~= "notification."@);
    }
    if has_prefix(c, "notification."@) {
        let s = c.subrange(0, 13);
        assert(s[0] == c[0]);
        assert(s[1] == c[1]);
        assert(s[2] == c[2]);
        assert(s[3] == c[3]);
        assert(s[4] == c[4]);
        assert(s[5] == c[5]);
        assert(s[6] == c[6]);
        assert(s[7] == c[7]);
        assert(s[8] == c[8]);
        assert(s[9] == c[9]);
        assert(s[10] == c[10]);
        assert(s[11] == c[11]);
        assert(s[12] == c[12]);
    }
}

proof fn lemma_dialog_prefix(c: Seq<char>)
    ensures
        has_prefix(c, "dialog."@) == (7 <= c.len() && c[0] == 'd' && c[1] == 'i' && c[2] == 'a' && c[3] == 'l' && c[4] == 'o' && c[5] == 'g' && c[6] == '.'),
{
    reveal_strlit("dialog.");
    if 7 <= c.len() && c[0] == 'd' && c[1] == 'i' && c[2] == 'a' && c[3] == 'l' && c[4] == 'o' && c[5] == 'g' && c[6] == '.' {
        assert(c.subrange(0, 7) =~= "dialog."@);
    }
    if has_prefix(c, "dialog."@) {
        let s = c.subrange(0, 7);
        assert(s[0] == c[0]);
        assert(s[1] == c[1]);
        assert(s[2] == c[2]);
        assert(s[3] == c[3]);
        assert(s[4] == c[4]);
        assert(s[5] == c[5]);
        assert(s[6] == c[6]);
    }
}

proof fn lemma_store_prefix(c: Seq<char>)
    ensures
        has_prefix(c, "store."@) == (6 <= c.len() && c[0] == 's' && c[1] == 't' && c[2] == 'o' && c[3] == 'r' && c[4] == 'e' && c[5] == '.'),
{
    reveal_strlit("store.");
    if 6 <= c.len() && c[0] == 's' && c[1] == 't' && c[2] == 'o' && c[3] == 'r' && c[4] == 'e' && c[5] == '.' {
        assert(c.subrange(0, 6) =~= "store."@);
    }
    if has_prefix(c, "store."@) {
        let s = c.subrange(0, 6);
        assert(s[0] == c[0]);
        assert(s[1] == c[1]);
        assert(s[2] == c[2]);
        assert(s[3] == c[3]);
        assert(s[4] == c[4]);
        assert(s[5] == c[5]);
    }
}

proof fn lemma_webview_prefix(c: Seq<char>)
    ensures
        has_prefix(c, "webview."@) == (8 <= c.len() && c[0] == 'w' && c[1] == 'e' && c[2] == 'b' && c[3] == 'v' && c[4] == 'i' && c[5] == 'e' && c[6] == 'w' && c[7] == '.'),
{
    reveal_strlit("webview.");
    if 8 <= c.len() && c[0] == 'w' && c[1] == 'e' && c[2] == 'b' && c[3] == 'v' && c[4] == 'i' && c[5] == 'e' && c[6] == 'w' && c[7] == '.' {
        assert(c.subrange(0, 8) =~= "webview."@);
    }
    if has_prefix(c, "webview."@) {
        let s = c.subrange(0, 8);
        assert(s[0] == c[0]);
        assert(s[1] == c[1]);
        assert(s[2] == c[2]);
        assert(s[3] == c[3]);
        assert(s[4] == c[4]);
        assert(s[5] == c[5]);
        assert(s[6] == c[6]);
        assert(s[7] == c[7]);
    }
}

/// What routing `c` rests on: which prefixes it has, and for each module, what a command it
/// answers looks like.
proof fn lemma_route_facts(c: Seq<char>)
    ensures
        is_state_command(c) ==> state_print(c),
        has_prefix(c, "notification."@) == (13 <= c.len() && c[0] == 'n' && c[1] == 'o' && c[2] == 't' && c[3] == 'i' && c[4] == 'f' && c[5] == 'i' && c[6] == 'c' && c[7] == 'a' && c[8] == 't' && c[9] == 'i' && c[10] == 'o' && c[11] == 'n' && c[12] == '.'),
        has_prefix(c, "dialog."@) == (7 <= c.len() && c[0] == 'd' && c[1] == 'i' && c[2] == 'a' && c[3] == 'l' && c[4] == 'o' && c[5] == 'g' && c[6] == '.'),
        has_prefix(c, "store."@) == (6 <= c.len() && c[0] == 's' && c[1] == 't' && c[2] == 'o' && c[3] == 'r' && c[4] == 'e' && c[5] == '.'),
        has_prefix(c, "webview."@) == (8 <= c.len() && c[0] == 'w' && c[1] == 'e' && c[2] == 'b' && c[3] == 'v' && c[4] == 'i' && c[5] == 'e' && c[6] == 'w' && c[7] == '.'),
        module_claims(CommandModule::Core, c) ==> core_print(c),
        module_claims(CommandModule::Chrome, c) ==> chrome_print(c),
        module_claims(CommandModule::WindowExtra, c) ==> window_extra_print(c),
        module_claims(CommandModule::Clipboard, c) ==> clipboard_print(c),
        module_claims(CommandModule::Shortcut, c) ==> shortcut_print(c),
        module_claims(CommandModule::ShellOs, c) ==> shell_os_print(c),
        module_claims(CommandModule::StoreAuto, c) ==> store_auto_print(c),
        module_claims(CommandModule::PowerProcess, c) ==> power_process_print(c),
        module_claims(CommandModule::SecretsAuth, c) ==> secrets_auth_print(c),
        module_claims(CommandModule::MenuSet, c) ==> menu_set_print(c),
        module_claims(CommandModule::DialogExtra, c) ==> dialog_extra_print(c),
        module_claims(CommandModule::WebviewCap, c) ==> webview_cap_print(c),
        first_claiming(module_order(), c) == (if module_claims(CommandModule::Core, c) { Some(CommandModule::Core) } else if module_claims(CommandModule::Chrome, c) { Some(CommandModule::Chrome) } else if module_claims(CommandModule::WindowExtra, c) { Some(CommandModule::WindowExtra) } else if module_claims(CommandModule::Clipboard, c) { Some(CommandModule::Clipboard) } else if module_claims(CommandModule::Shortcut, c) { Some(CommandModule::Shortcut) } else if module_claims(CommandModule::ShellOs, c) { Some(CommandModule::ShellOs) } else if module_claims(CommandModule::StoreAuto, c) { Some(CommandModule::StoreAuto) } else if module_claims(CommandModule::PowerProcess, c) { Some(CommandModule::PowerProcess) } else if module_claims(CommandModule::SecretsAuth, c) { Some(CommandModule::SecretsAuth) } else if module_claims(CommandModule::MenuSet, c) { Some(CommandModule::MenuSet) } else { None }),
{
    reveal_with_fuel(first_claiming, 11);
    let o0 = module_order();
    assert(o0 =~= seq![CommandModule::Core, CommandModule::Chrome, CommandModule::WindowExtra, CommandModule::Clipboard, CommandModule::Shortcut, CommandModule::ShellOs, CommandModule::StoreAuto, CommandModule::PowerProcess, CommandModule::SecretsAuth, CommandModule::MenuSet]);
    let o1 = o0.drop_first();
    assert(o1 =~= seq![CommandModule::Chrome, CommandModule::WindowExtra, CommandModule::Clipboard, CommandModule::Shortcut, CommandModule::ShellOs, CommandModule::StoreAuto, CommandModule::PowerProcess, CommandModule::SecretsAuth, CommandModule::MenuSet]);
    let o2 = o1.drop_first();
    assert(o2 =~= seq![CommandModule::WindowExtra, CommandModule::Clipboard, CommandModule::Shortcut, CommandModule::ShellOs, CommandModule::StoreAuto, CommandModule::PowerProcess, CommandModule::SecretsAuth, CommandModule::MenuSet]);
    let o3 = o2.drop_first();
    assert(o3 =~= seq![CommandModule::Clipboard, CommandModule::Shortcut, CommandModule::ShellOs, CommandModule::StoreAuto, CommandModule::PowerProcess, CommandModule::SecretsAuth, CommandModule::MenuSet]);
    let o4 = o3.drop_first();
    assert(o4 =~= seq![CommandModule::Shortcut, CommandModule::ShellOs, CommandModule::StoreAuto, CommandModule::PowerProcess, CommandModule::SecretsAuth, CommandModule::MenuSet]);
    let o5 = o4.drop_first();
    assert(o5 =~= seq![CommandModule::ShellOs, CommandModule::StoreAuto, CommandModule::PowerProcess, CommandModule::SecretsAuth, CommandModule::MenuSet]);
    let o6 = o5.drop_first();
    assert(o6 =~= seq![CommandModule::StoreAuto, CommandModule::PowerProcess, CommandModule::SecretsAuth, CommandModule::MenuSet]);
    let o7 = o6.drop_first();
    assert(o7 =~= seq![CommandModule::PowerProcess, CommandModule::SecretsAuth, CommandModule::MenuSet]);
    let o8 = o7.drop_first();
    assert(o8 =~= seq![CommandModule::SecretsAuth, CommandModule::MenuSet]);
    let o9 = o8.drop_first();
    assert(o9 =~= seq![CommandModule::MenuSet]);
    assert(o9.drop_first() =~= Seq::<CommandModule>::empty());
    lemma_state_print(c);
    lemma_notification_prefix(c);
    lemma_dialog_prefix(c);
    lemma_store_prefix(c);
    lemma_webview_prefix(c);
    lemma_core_print(c);
    lemma_chrome_print(c);
    lemma_window_extra_print(c);
    lemma_clipboard_print(c);
    lemma_shortcut_print(c);
    lemma_shell_os_print(c);
    lemma_store_auto_print(c);
    lemma_power_process_print(c);
    lemma_secrets_auth_print(c);
    lemma_menu_set_print(c);
    lemma_dialog_extra_print(c);
    lemma_webview_cap_print(c);
}

/// Every command of the Core module reaches the part of the host that answers it, when no
/// handler is registered under its name.
pub proof fn law_core_commands_are_routed()
    ensures
        route_spec("ping"@, false) == Route::Module(CommandModule::Core),
        route_spec("window.list"@, false) == Route::Module(CommandModule::Core),
        route_spec("window.focus"@, false) == Route::Module(CommandModule::Core),
        route_spec("window.close"@, false) == Route::Module(CommandModule::Core),
        route_spec("window.create"@, false) == Route::Module(CommandModule::Core),
        route_spec("fs.list"@, false) == Route::Module(CommandModule::Core),
        route_spec("fs.readText"@, false) == Route::Module(CommandModule::Core),
        route_spec("fs.stat"@, false) == Route::Module(CommandModule::Core),
        route_spec("fs.watch"@, false) == Route::Module(CommandModule::Core),
        route_spec("fs.unwatch"@, false) == Route::Module(CommandModule::Core),
        route_spec("extensions.list"@, false) == Route::Module(CommandModule::Core),
{
    reveal_strlit("ping");
    lemma_route_facts("ping"@);
    assert(command_names(CommandModule::Core)[0] == "ping"@);
    reveal_strlit("window.list");
    lemma_route_facts("window.list"@);
    assert(command_names(CommandModule::Core)[1] == "window.list"@);
    reveal_strlit("window.focus");
    lemma_route_facts("window.focus"@);
    assert(command_names(CommandModule::Core)[2] == "window.focus"@);
    reveal_strlit("window.close");
    lemma_route_facts("window.close"@);
    assert(command_names(CommandModule::Core)[3] == "window.close"@);
    reveal_strlit("window.create");
    lemma_route_facts("window.create"@);
    assert(command_names(CommandModule::Core)[4] == "window.create"@);
    reveal_strlit("fs.list");
    lemma_route_facts("fs.list"@);
    assert(command_names(CommandModule::Core)[5] == "fs.list"@);
    reveal_strlit("fs.readText");
    lemma_route_facts("fs.readText"@);
    assert(command_names(CommandModule::Core)[6] == "fs.readText"@);
    reveal_strlit("fs.stat");
    lemma_route_facts("fs.stat"@);
    assert(command_names(CommandModule::Core)[7] == "fs.stat"@);
    reveal_strlit("fs.watch");
    lemma_route_facts("fs.watch"@);
    assert(command_names(CommandModule::Core)[8] == "fs.watch"@);
    reveal_strlit("fs.unwatch");
    lemma_route_facts("fs.unwatch"@);
    assert(command_names(CommandModule::Core)[9] == "fs.unwatch"@);
    reveal_strlit("extensions.list");
    lemma_route_facts("extensions.list"@);
    assert(command_names(CommandModule::Core)[10] == "extensions.list"@);
}

/// Every command of the Chrome module reaches the part of the host that answers it, when no
/// handler is registered under its name.
pub proof fn law_chrome_commands_are_routed()
    ensures
        route_spec("dialog.message"@, false) == Route::Provider(CapProvider::Dialog, CommandModule::Chrome),
        route_spec("dock.badge"@, false) == Route::Module(CommandModule::Chrome),
        route_spec("dock.badgeLabel"@, false) == Route::Module(CommandModule::Chrome),
        route_spec("dock.setIcon"@, false) == Route::Module(CommandModule::Chrome),
        route_spec("window.title"@, false) == Route::Module(CommandModule::Chrome),
        route_spec("window.titleBarStyle"@, false) == Route::Module(CommandModule::Chrome),
        route_spec("window.decorations"@, false) == Route::Module(CommandModule::Chrome),
        route_spec("window.shadow"@, false) == Route::Module(CommandModule::Chrome),
        route_spec("window.startDragging"@, false) == Route::Module(CommandModule::Chrome),
        route_spec("window.progress"@, false) == Route::Module(CommandModule::Chrome),
        route_spec("window.attention"@, false) == Route::Module(CommandModule::Chrome),
        route_spec("tray.tooltip"@, false) == Route::Module(CommandModule::Chrome),
        route_spec("tray.title"@, false) == Route::Module(CommandModule::Chrome),
        route_spec("tray.setMenu"@, false) == Route::Module(CommandModule::Chrome),
        route_spec("menu.context"@, false) == Route::Module(CommandModule::Chrome),
        route_spec("notification.permissionState"@, false) == Route::Provider(CapProvider::Notification, CommandModule::Chrome),
        route_spec("notification.requestPermission"@, false) == Route::Provider(CapProvider::Notification, CommandModule::Chrome),
        route_spec("notification.show"@, false) == Route::Provider(CapProvider::Notification, CommandModule::Chrome),
        route_spec("opener.open"@, false) == Route::Module(CommandModule::Chrome),
        route_spec("window.setTransparent"@, false) == Route::Module(CommandModule::Chrome),
        route_spec("window.trafficLightInset"@, false) == Route::Module(CommandModule::Chrome),
        route_spec("window.reapplyTrafficLightInset"@, false) == Route::Module(CommandModule::Chrome),
        route_spec("window.trafficLightTint"@, false) == Route::Module(CommandModule::Chrome),
        route_spec("window.reapplyTrafficLightTint"@, false) == Route::Module(CommandModule::Chrome),
{
    reveal_strlit("dialog.message");
    lemma_route_facts("dialog.message"@);
    assert(command_names(CommandModule::Chrome)[0] == "dialog.message"@);
    reveal_strlit("dock.badge");
    lemma_route_facts("dock.badge"@);
    assert(command_names(CommandModule::Chrome)[1] == "dock.badge"@);
    reveal_strlit("dock.badgeLabel");
    lemma_route_facts("dock.badgeLabel"@);
    assert(command_names(CommandModule::Chrome)[2] == "dock.badgeLabel"@);
    reveal_strlit("dock.setIcon");
    lemma_route_facts("dock.setIcon"@);
    assert(command_names(CommandModule::Chrome)[3] == "dock.setIcon"@);
    reveal_strlit("window.title");
    lemma_route_facts("window.title"@);
    assert(command_names(CommandModule::Chrome)[4] == "window.title"@);
    reveal_strlit("window.titleBarStyle");
    lemma_route_facts("window.titleBarStyle"@);
    assert(command_names(CommandModule::Chrome)[5] == "window.titleBarStyle"@);
    reveal_strlit("window.decorations");
    lemma_route_facts("window.decorations"@);
    assert(command_names(CommandModule::Chrome)[6] == "window.decorations"@);
    reveal_strlit("window.shadow");
    lemma_route_facts("window.shadow"@);
    assert(command_names(CommandModule::Chrome)[7] == "window.shadow"@);
    reveal_strlit("window.startDragging");
    lemma_route_facts("window.startDragging"@);
    assert(command_names(CommandModule::Chrome)[8] == "window.startDragging"@);
    reveal_strlit("window.progress");
    lemma_route_facts("window.progress"@);
    assert(command_names(CommandModule::Chrome)[9] == "window.progress"@);
    reveal_strlit("window.attention");
    lemma_route_facts("window.attention"@);
    assert(command_names(CommandModule::Chrome)[10] == "window.attention"@);
    reveal_strlit("tray.tooltip");
    lemma_route_facts("tray.tooltip"@);
    assert(command_names(CommandModule::Chrome)[11] == "tray.tooltip"@);
    reveal_strlit("tray.title");
    lemma_route_facts("tray.title"@);
    assert(command_names(CommandModule::Chrome)[12] == "tray.title"@);
    reveal_strlit("tray.setMenu");
    lemma_route_facts("tray.setMenu"@);
    assert(command_names(CommandModule::Chrome)[13] == "tray.setMenu"@);
    reveal_strlit("menu.context");
    lemma_route_facts("menu.context"@);
    assert(command_names(CommandModule::Chrome)[14] == "menu.context"@);
    reveal_strlit("notification.permissionState");
    lemma_route_facts("notification.permissionState"@);
    assert(command_names(CommandModule::Chrome)[15] == "notification.permissionState"@);
    reveal_strlit("notification.requestPermission");
    lemma_route_facts("notification.requestPermission"@);
    assert(command_names(CommandModule::Chrome)[16] == "notification.requestPermission"@);
    reveal_strlit("notification.show");
    lemma_route_facts("notification.show"@);
    assert(command_names(CommandModule::Chrome)[17] == "notification.show"@);
    reveal_strlit("opener.open");
    lemma_route_facts("opener.open"@);
    assert(command_names(CommandModule::Chrome)[18] == "opener.open"@);
    reveal_strlit("window.setTransparent");
    lemma_route_facts("window.setTransparent"@);
    assert(command_names(CommandModule::Chrome)[19] == "window.setTransparent"@);
    reveal_strlit("window.trafficLightInset");
    lemma_route_facts("window.trafficLightInset"@);
    assert(command_names(CommandModule::Chrome)[20] == "window.trafficLightInset"@);
    reveal_strlit("window.reapplyTrafficLightInset");
    lemma_route_facts("window.reapplyTrafficLightInset"@);
    assert(command_names(CommandModule::Chrome)[21] == "window.reapplyTrafficLightInset"@);
    reveal_strlit("window.trafficLightTint");
    lemma_route_facts("window.trafficLightTint"@);
    assert(command_names(CommandModule::Chrome)[22] == "window.trafficLightTint"@);
    reveal_strlit("window.reapplyTrafficLightTint");
    lemma_route_facts("window.reapplyTrafficLightTint"@);
    assert(command_names(CommandModule::Chrome)[23] == "window.reapplyTrafficLightTint"@);
}

/// Every command of the WindowExtra module reaches the part of the host that answers it, when no
/// handler is registered under its name.
pub proof fn law_window_extra_commands_are_routed()
    ensures
        route_spec("window.minimize"@, false) == Route::Module(CommandModule::WindowExtra),
        route_spec("window.maximize"@, false) == Route::Module(CommandModule::WindowExtra),
        route_spec("window.unmaximize"@, false) == Route::Module(CommandModule::WindowExtra),
        route_spec("window.fullscreen"@, false) == Route::Module(CommandModule::WindowExtra),
        route_spec("window.isFullscreen"@, false) == Route::Module(CommandModule::WindowExtra),
        route_spec("window.setPosition"@, false) == Route::Module(CommandModule::WindowExtra),
        route_spec("window.getPosition"@, false) == Route::Module(CommandModule::WindowExtra),
        route_spec("window.setSize"@, false) == Route::Module(CommandModule::WindowExtra),
        route_spec("window.getSize"@, false) == Route::Module(CommandModule::WindowExtra),
        route_spec("window.center"@, false) == Route::Module(CommandModule::WindowExtra),
        route_spec("window.setAlwaysOnTop"@, false) == Route::Module(CommandModule::WindowExtra),
        route_spec("window.setResizable"@, false) == Route::Module(CommandModule::WindowExtra),
        route_spec("window.setFocus"@, false) == Route::Module(CommandModule::WindowExtra),
        route_spec("window.print"@, false) == Route::Module(CommandModule::WindowExtra),
        route_spec("window.reload"@, false) == Route::Module(CommandModule::WindowExtra),
        route_spec("window.openDevtools"@, false) == Route::Module(CommandModule::WindowExtra),
        route_spec("windowState.save"@, false) == Route::Module(CommandModule::WindowExtra),
        route_spec("windowState.restore"@, false) == Route::Module(CommandModule::WindowExtra),
        route_spec("windowState.enabled"@, false) == Route::Module(CommandModule::WindowExtra),
{
    reveal_strlit("window.minimize");
    lemma_route_facts("window.minimize"@);
    assert(command_names(CommandModule::WindowExtra)[0] == "window.minimize"@);
    reveal_strlit("window.maximize");
    lemma_route_facts("window.maximize"@);
    assert(command_names(CommandModule::WindowExtra)[1] == "window.maximize"@);
    reveal_strlit("window.unmaximize");
    lemma_route_facts("window.unmaximize"@);
    assert(command_names(CommandModule::WindowExtra)[2] == "window.unmaximize"@);
    reveal_strlit("window.fullscreen");
    lemma_route_facts("window.fullscreen"@);
    assert(command_names(CommandModule::WindowExtra)[3] == "window.fullscreen"@);
    reveal_strlit("window.isFullscreen");
    lemma_route_facts("window.isFullscreen"@);
    assert(command_names(CommandModule::WindowExtra)[4] == "window.isFullscreen"@);
    reveal_strlit("window.setPosition");
    lemma_route_facts("window.setPosition"@);
    assert(command_names(CommandModule::WindowExtra)[5] == "window.setPosition"@);
    reveal_strlit("window.getPosition");
    lemma_route_facts("window.getPosition"@);
    assert(command_names(CommandModule::WindowExtra)[6] == "window.getPosition"@);
    reveal_strlit("window.setSize");
    lemma_route_facts("window.setSize"@);
    assert(command_names(CommandModule::WindowExtra)[7] == "window.setSize"@);
    reveal_strlit("window.getSize");
    lemma_route_facts("window.getSize"@);
    assert(command_names(CommandModule::WindowExtra)[8] == "window.getSize"@);
    reveal_strlit("window.center");
    lemma_route_facts("window.center"@);
    assert(command_names(CommandModule::WindowExtra)[9] == "window.center"@);
    reveal_strlit("window.setAlwaysOnTop");
    lemma_route_facts("window.setAlwaysOnTop"@);
    assert(command_names(CommandModule::WindowExtra)[10] == "window.setAlwaysOnTop"@);
    reveal_strlit("window.setResizable");
    lemma_route_facts("window.setResizable"@);
    assert(command_names(CommandModule::WindowExtra)[11] == "window.setResizable"@);
    reveal_strlit("window.setFocus");
    lemma_route_facts("window.setFocus"@);
    assert(command_names(CommandModule::WindowExtra)[12] == "window.setFocus"@);
    reveal_strlit("window.print");
    lemma_route_facts("window.print"@);
    assert(command_names(CommandModule::WindowExtra)[13] == "window.print"@);
    reveal_strlit("window.reload");
    lemma_route_facts("window.reload"@);
    assert(command_names(CommandModule::WindowExtra)[14] == "window.reload"@);
    reveal_strlit("window.openDevtools");
    lemma_route_facts("window.openDevtools"@);
    assert(command_names(CommandModule::WindowExtra)[15] == "window.openDevtools"@);
    reveal_strlit("windowState.save");
    lemma_route_facts("windowState.save"@);
    assert(command_names(CommandModule::WindowExtra)[16] == "windowState.save"@);
    reveal_strlit("windowState.restore");
    lemma_route_facts("windowState.restore"@);
    assert(command_names(CommandModule::WindowExtra)[17] == "windowState.restore"@);
    reveal_strlit("windowState.enabled");
    lemma_route_facts("windowState.enabled"@);
    assert(command_names(CommandModule::WindowExtra)[18] == "windowState.enabled"@);
}

/// Every command of the Clipboard module reaches the part of the host that answers it, when no
/// handler is registered under its name.
pub proof fn law_clipboard_commands_are_routed()
    ensures
        route_spec("clipboard.readText"@, false) == Route::Module(CommandModule::Clipboard),
        route_spec("clipboard.writeText"@, false) == Route::Module(CommandModule::Clipboard),
        route_spec("clipboard.clear"@, false) == Route::Module(CommandModule::Clipboard),
        route_spec("clipboard.readImage"@, false) == Route::Module(CommandModule::Clipboard),
        route_spec("clipboard.writeImage"@, false) == Route::Module(CommandModule::Clipboard),
{
    reveal_strlit("clipboard.readText");
    lemma_route_facts("clipboard.readText"@);
    assert(command_names(CommandModule::Clipboard)[0] == "clipboard.readText"@);
    reveal_strlit("clipboard.writeText");
    lemma_route_facts("clipboard.writeText"@);
    assert(command_names(CommandModule::Clipboard)[1] == "clipboard.writeText"@);
    reveal_strlit("clipboard.clear");
    lemma_route_facts("clipboard.clear"@);
    assert(command_names(CommandModule::Clipboard)[2] == "clipboard.clear"@);
    reveal_strlit("clipboard.readImage");
    lemma_route_facts("clipboard.readImage"@);
    assert(command_names(CommandModule::Clipboard)[3] == "clipboard.readImage"@);
    reveal_strlit("clipboard.writeImage");
    lemma_route_facts("clipboard.writeImage"@);
    assert(command_names(CommandModule::Clipboard)[4] == "clipboard.writeImage"@);
}

/// Every command of the Shortcut module reaches the part of the host that answers it, when no
/// handler is registered under its name.
pub proof fn law_shortcut_commands_are_routed()
    ensures
        route_spec("shortcut.register"@, false) == Route::Module(CommandModule::Shortcut),
        route_spec("shortcut.unregister"@, false) == Route::Module(CommandModule::Shortcut),
        route_spec("shortcut.unregisterAll"@, false) == Route::Module(CommandModule::Shortcut),
        route_spec("shortcut.isRegistered"@, false) == Route::Module(CommandModule::Shortcut),
{
    reveal_strlit("shortcut.register");
    lemma_route_facts("shortcut.register"@);
    assert(command_names(CommandModule::Shortcut)[0] == "shortcut.register"@);
    reveal_strlit("shortcut.unregister");
    lemma_route_facts("shortcut.unregister"@);
    assert(command_names(CommandModule::Shortcut)[1] == "shortcut.unregister"@);
    reveal_strlit("shortcut.unregisterAll");
    lemma_route_facts("shortcut.unregisterAll"@);
    assert(command_names(CommandModule::Shortcut)[2] == "shortcut.unregisterAll"@);
    reveal_strlit("shortcut.isRegistered");
    lemma_route_facts("shortcut.isRegistered"@);
    assert(command_names(CommandModule::Shortcut)[3] == "shortcut.isRegistered"@);
}

/// Every command of the ShellOs module reaches the part of the host that answers it, when no
/// handler is registered under its name.
pub proof fn law_shell_os_commands_are_routed()
    ensures
        route_spec("shell.reveal"@, false) == Route::Module(CommandModule::ShellOs),
        route_spec("shell.openPath"@, false) == Route::Module(CommandModule::ShellOs),
        route_spec("shell.exec"@, false) == Route::Module(CommandModule::ShellOs),
        route_spec("http.fetch"@, false) == Route::Module(CommandModule::ShellOs),
        route_spec("os.info"@, false) == Route::Module(CommandModule::ShellOs),
        route_spec("os.theme"@, false) == Route::Module(CommandModule::ShellOs),
        route_spec("display.list"@, false) == Route::Module(CommandModule::ShellOs),
        route_spec("display.primary"@, false) == Route::Module(CommandModule::ShellOs),
{
    reveal_strlit("shell.reveal");
    lemma_route_facts("shell.reveal"@);
    assert(command_names(CommandModule::ShellOs)[0] == "shell.reveal"@);
    reveal_strlit("shell.openPath");
    lemma_route_facts("shell.openPath"@);
    assert(command_names(CommandModule::ShellOs)[1] == "shell.openPath"@);
    reveal_strlit("shell.exec");
    lemma_route_facts("shell.exec"@);
    assert(command_names(CommandModule::ShellOs)[2] == "shell.exec"@);
    reveal_strlit("http.fetch");
    lemma_route_facts("http.fetch"@);
    assert(command_names(CommandModule::ShellOs)[3] == "http.fetch"@);
    reveal_strlit("os.info");
    lemma_route_facts("os.info"@);
    assert(command_names(CommandModule::ShellOs)[4] == "os.info"@);
    reveal_strlit("os.theme");
    lemma_route_facts("os.theme"@);
    assert(command_names(CommandModule::ShellOs)[5] == "os.theme"@);
    reveal_strlit("display.list");
    lemma_route_facts("display.list"@);
    assert(command_names(CommandModule::ShellOs)[6] == "display.list"@);
    reveal_strlit("display.primary");
    lemma_route_facts("display.primary"@);
    assert(command_names(CommandModule::ShellOs)[7] == "display.primary"@);
}

/// Every command of the StoreAuto module reaches the part of the host that answers it, when no
/// handler is registered under its name.
pub proof fn law_store_auto_commands_are_routed()
    ensures
        route_spec("store.get"@, false) == Route::Provider(CapProvider::Store, CommandModule::StoreAuto),
        route_spec("store.set"@, false) == Route::Provider(CapProvider::Store, CommandModule::StoreAuto),
        route_spec("store.delete"@, false) == Route::Provider(CapProvider::Store, CommandModule::StoreAuto),
        route_spec("store.keys"@, false) == Route::Provider(CapProvider::Store, CommandModule::StoreAuto),
        route_spec("store.clear"@, false) == Route::Provider(CapProvider::Store, CommandModule::StoreAuto),
        route_spec("autostart.enable"@, false) == Route::Module(CommandModule::StoreAuto),
        route_spec("autostart.disable"@, false) == Route::Module(CommandModule::StoreAuto),
        route_spec("autostart.isEnabled"@, false) == Route::Module(CommandModule::StoreAuto),
        route_spec("updater.check"@, false) == Route::Module(CommandModule::StoreAuto),
        route_spec("updater.downloadAndInstall"@, false) == Route::Module(CommandModule::StoreAuto),
        route_spec("updater.currentVersion"@, false) == Route::Module(CommandModule::StoreAuto),
{
    reveal_strlit("store.get");
    lemma_route_facts("store.get"@);
    assert(command_names(CommandModule::StoreAuto)[0] == "store.get"@);
    reveal_strlit("store.set");
    lemma_route_facts("store.set"@);
    assert(command_names(CommandModule::StoreAuto)[1] == "store.set"@);
    reveal_strlit("store.delete");
    lemma_route_facts("store.delete"@);
    assert(command_names(CommandModule::StoreAuto)[2] == "store.delete"@);
    reveal_strlit("store.keys");
    lemma_route_facts("store.keys"@);
    assert(command_names(CommandModule::StoreAuto)[3] == "store.keys"@);
    reveal_strlit("store.clear");
    lemma_route_facts("store.clear"@);
    assert(command_names(CommandModule::StoreAuto)[4] == "store.clear"@);
    reveal_strlit("autostart.enable");
    lemma_route_facts("autostart.enable"@);
    assert(command_names(CommandModule::StoreAuto)[5] == "autostart.enable"@);
    reveal_strlit("autostart.disable");
    lemma_route_facts("autostart.disable"@);
    assert(command_names(CommandModule::StoreAuto)[6] == "autostart.disable"@);
    reveal_strlit("autostart.isEnabled");
    lemma_route_facts("autostart.isEnabled"@);
    assert(command_names(CommandModule::StoreAuto)[7] == "autostart.isEnabled"@);
    reveal_strlit("updater.check");
    lemma_route_facts("updater.check"@);
    assert(command_names(CommandModule::StoreAuto)[8] == "updater.check"@);
    reveal_strlit("updater.downloadAndInstall");
    lemma_route_facts("updater.downloadAndInstall"@);
    assert(command_names(CommandModule::StoreAuto)[9] == "updater.downloadAndInstall"@);
    reveal_strlit("updater.currentVersion");
    lemma_route_facts("updater.currentVersion"@);
    assert(command_names(CommandModule::StoreAuto)[10] == "updater.currentVersion"@);
}

/// Every command of the PowerProcess module reaches the part of the host that answers it, when no
/// handler is registered under its name.
pub proof fn law_power_process_commands_are_routed()
    ensures
        route_spec("power.preventSleep"@, false) == Route::Module(CommandModule::PowerProcess),
        route_spec("power.allowSleep"@, false) == Route::Module(CommandModule::PowerProcess),
        route_spec("process.pid"@, false) == Route::Module(CommandModule::PowerProcess),
        route_spec("process.exit"@, false) == Route::Module(CommandModule::PowerProcess),
        route_spec("process.restart"@, false) == Route::Module(CommandModule::PowerProcess),
{
    reveal_strlit("power.preventSleep");
    lemma_route_facts("power.preventSleep"@);
    assert(command_names(CommandModule::PowerProcess)[0] == "power.preventSleep"@);
    reveal_strlit("power.allowSleep");
    lemma_route_facts("power.allowSleep"@);
    assert(command_names(CommandModule::PowerProcess)[1] == "power.allowSleep"@);
    reveal_strlit("process.pid");
    lemma_route_facts("process.pid"@);
    assert(command_names(CommandModule::PowerProcess)[2] == "process.pid"@);
    reveal_strlit("process.exit");
    lemma_route_facts("process.exit"@);
    assert(command_names(CommandModule::PowerProcess)[3] == "process.exit"@);
    reveal_strlit("process.restart");
    lemma_route_facts("process.restart"@);
    assert(command_names(CommandModule::PowerProcess)[4] == "process.restart"@);
}

/// Every command of the SecretsAuth module reaches the part of the host that answers it, when no
/// handler is registered under its name.
pub proof fn law_secrets_auth_commands_are_routed()
    ensures
        route_spec("secrets.set"@, false) == Route::Module(CommandModule::SecretsAuth),
        route_spec("secrets.get"@, false) == Route::Module(CommandModule::SecretsAuth),
        route_spec("secrets.delete"@, false) == Route::Module(CommandModule::SecretsAuth),
        route_spec("auth.login"@, false) == Route::Module(CommandModule::SecretsAuth),
        route_spec("auth.logout"@, false) == Route::Module(CommandModule::SecretsAuth),
        route_spec("auth.status"@, false) == Route::Module(CommandModule::SecretsAuth),
        route_spec("auth.getAccessToken"@, false) == Route::Module(CommandModule::SecretsAuth),
{
    reveal_strlit("secrets.set");
    lemma_route_facts("secrets.set"@);
    assert(command_names(CommandModule::SecretsAuth)[0] == "secrets.set"@);
    reveal_strlit("secrets.get");
    lemma_route_facts("secrets.get"@);
    assert(command_names(CommandModule::SecretsAuth)[1] == "secrets.get"@);
    reveal_strlit("secrets.delete");
    lemma_route_facts("secrets.delete"@);
    assert(command_names(CommandModule::SecretsAuth)[2] == "secrets.delete"@);
    reveal_strlit("auth.login");
    lemma_route_facts("auth.login"@);
    assert(command_names(CommandModule::SecretsAuth)[3] == "auth.login"@);
    reveal_strlit("auth.logout");
    lemma_route_facts("auth.logout"@);
    assert(command_names(CommandModule::SecretsAuth)[4] == "auth.logout"@);
    reveal_strlit("auth.status");
    lemma_route_facts("auth.status"@);
    assert(command_names(CommandModule::SecretsAuth)[5] == "auth.status"@);
    reveal_strlit("auth.getAccessToken");
    lemma_route_facts("auth.getAccessToken"@);
    assert(command_names(CommandModule::SecretsAuth)[6] == "auth.getAccessToken"@);
}

/// Every command of the MenuSet module reaches the part of the host that answers it, when no
/// handler is registered under its name.
pub proof fn law_menu_set_commands_are_routed()
    ensures
        route_spec("menu.set"@, false) == Route::Module(CommandModule::MenuSet),
{
    reveal_strlit("menu.set");
    lemma_route_facts("menu.set"@);
    assert(command_names(CommandModule::MenuSet)[0] == "menu.set"@);
}

/// Every command of the DialogExtra module reaches the part of the host that answers it, when no
/// handler is registered under its name.
pub proof fn law_dialog_extra_commands_are_routed()
    ensures
        route_spec("dialog.open"@, false) == Route::Provider(CapProvider::Dialog, CommandModule::DialogExtra),
        route_spec("dialog.save"@, false) == Route::Provider(CapProvider::Dialog, CommandModule::DialogExtra),
        route_spec("dialog.confirm"@, false) == Route::Provider(CapProvider::Dialog, CommandModule::DialogExtra),
        route_spec("dialog.ask"@, false) == Route::Provider(CapProvider::Dialog, CommandModule::DialogExtra),
{
    reveal_strlit("dialog.open");
    lemma_route_facts("dialog.open"@);
    assert(command_names(CommandModule::DialogExtra)[0] == "dialog.open"@);
    reveal_strlit("dialog.save");
    lemma_route_facts("dialog.save"@);
    assert(command_names(CommandModule::DialogExtra)[1] == "dialog.save"@);
    reveal_strlit("dialog.confirm");
    lemma_route_facts("dialog.confirm"@);
    assert(command_names(CommandModule::DialogExtra)[2] == "dialog.confirm"@);
    reveal_strlit("dialog.ask");
    lemma_route_facts("dialog.ask"@);
    assert(command_names(CommandModule::DialogExtra)[3] == "dialog.ask"@);
}

/// Every command of the WebviewCap module reaches the part of the host that answers it, when no
/// handler is registered under its name.
pub proof fn law_webview_cap_commands_are_routed()
    ensures
        route_spec("webview.load"@, false) == Route::Provider(CapProvider::Webview, CommandModule::WebviewCap),
        route_spec("webview.postMessage"@, false) == Route::Provider(CapProvider::Webview, CommandModule::WebviewCap),
        route_spec("webview.eval"@, false) == Route::Provider(CapProvider::Webview, CommandModule::WebviewCap),
        route_spec("webview.list"@, false) == Route::Provider(CapProvider::Webview, CommandModule::WebviewCap),
{
    reveal_strlit("webview.load");
    lemma_route_facts("webview.load"@);
    assert(command_names(CommandModule::WebviewCap)[0] == "webview.load"@);
    reveal_strlit("webview.postMessage");
    lemma_route_facts("webview.postMessage"@);
    assert(command_names(CommandModule::WebviewCap)[1] == "webview.postMessage"@);
    reveal_strlit("webview.eval");
    lemma_route_facts("webview.eval"@);
    assert(command_names(CommandModule::WebviewCap)[2] == "webview.eval"@);
    reveal_strlit("webview.list");
    lemma_route_facts("webview.list"@);
    assert(command_names(CommandModule::WebviewCap)[3] == "webview.list"@);
}

} // verus!
