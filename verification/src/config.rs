//! Run configuration: the protocol version, plugin switches and window defaults.

use vstd::prelude::*;

use crate::json::{member, strs_view, Json};
use crate::num::json_u64_lenient;
use crate::text::str_eq;

verus! {

/// Version of the broker protocol the webview talks.
pub const PROTOCOL_VERSION: &'static str = "desktop/v1";

/// Which Tauri plugins `run()` initialises. Every switch is on unless the configuration turns
/// it off.
#[derive(Clone, Copy, Debug, PartialEq, Eq, Structural)]
pub struct PluginFlags {
    pub dialog: bool,
    pub tray: bool,
    pub menu: bool,
    pub deep_link: bool,
    pub opener: bool,
    pub single_instance: bool,
    pub notification: bool,
}

pub open spec fn all_plugins_on() -> PluginFlags {
    PluginFlags {
        dialog: true,
        tray: true,
        menu: true,
        deep_link: true,
        opener: true,
        single_instance: true,
        notification: true,
    }
}

impl Default for PluginFlags {
    /// All plugins on, as for a configuration that names none.
    fn default() -> (r: Self)
        ensures
            r == all_plugins_on(),
    {
        PluginFlags {
            dialog: true,
            tray: true,
            menu: true,
            deep_link: true,
            opener: true,
            single_instance: true,
            notification: true,
        }
    }
}

/// Default of a boolean switch that a configuration leaves out.
pub fn default_true() -> (r: bool)
    ensures
        r,
{
    true
}

/// Default macOS title bar style of a new window.
pub fn default_title_bar_style() -> (r: String)
    ensures
        r@ == "transparent"@,
{
    String::from_str("transparent")
}

/// The permissions an app holds unless it is configured otherwise.
pub open spec fn default_permissions_spec() -> Seq<Seq<char>> {
    seq!["dialog"@, "tray"@, "menu"@, "deep-link"@, "notification"@, "fs:scoped"@]
}

/// The permissions an app holds unless it is configured otherwise.
pub fn default_permissions() -> (r: Vec<String>)
    ensures
        strs_view(r@) == default_permissions_spec(),
{
    let mut r: Vec<String> = Vec::new();
    r.push(String::from_str("dialog"));
    r.push(String::from_str("tray"));
    r.push(String::from_str("menu"));
    r.push(String::from_str("deep-link"));
    r.push(String::from_str("notification"));
    r.push(String::from_str("fs:scoped"));
    assert(strs_view(r@) =~= default_permissions_spec());
    r
}

/// Whether `perm` is among the granted permissions.
pub fn has_permission(perms: &Vec<String>, perm: &str) -> (r: bool)
    ensures
        r == strs_view(perms@).contains(perm@),
{
    let mut i: usize = 0;
    while i < perms.len()
        invariant
            i <= perms@.len(),
            forall|j: int| 0 <= j < i ==> (#[trigger] perms@[j])@ != perm@,
        decreases perms@.len() - i,
    {
        if str_eq(perms[i].as_str(), perm) {
            assert(strs_view(perms@)[i as int] == perm@);
            return true;
        }
        i += 1;
    }
    assert(!strs_view(perms@).contains(perm@)) by {
        if strs_view(perms@).contains(perm@) {
            let j = choose|j: int| 0 <= j < perms@.len() && strs_view(perms@)[j] == perm@;
            assert(perms@[j]@ == perm@);
        }
    }
    false
}

/// The error a command answers when its permission was not granted.
pub open spec fn permission_check(perms: Seq<Seq<char>>, name: Seq<char>) -> Result<(), Seq<char>> {
    if perms.contains(name) {
        Ok(())
    } else {
        Err(name + " permission denied"@)
    }
}

/// Fails with `"<name> permission denied"` unless `name` was granted.
pub fn ensure_permission(perms: &Vec<String>, name: &str) -> (r: Result<(), String>)
    ensures
        match permission_check(strs_view(perms@), name@) {
            Ok(()) => r is Ok,
            Err(e) => r matches Err(m) && m@ == e,
        },
{
    if !has_permission(perms, name) {
        return Err(String::from_str(name).concat(" permission denied"));
    }
    Ok(())
}

/// The error of a command whose plugin was not started by `run()`.
pub open spec fn plugin_missing(perm: Seq<char>, flag: Seq<char>) -> Seq<char> {
    perm + " plugin not enabled \u{2014} set plugins."@ + flag + ": true in run()"@
}

/// Gates a plugin-backed command: first its permission `perm`, then whether the plugin behind
/// the `plugins.<flag>` switch was loaded.
pub fn plugin_gate(perms: &Vec<String>, perm: &str, flag: &str, loaded: bool) -> (r: Result<(), String>)
    ensures
        match permission_check(strs_view(perms@), perm@) {
            Err(e) => r matches Err(m) && m@ == e,
            Ok(()) => if loaded {
                r is Ok
            } else {
                r matches Err(m) && m@ == plugin_missing(perm@, flag@)
            },
        },
{
    match ensure_permission(perms, perm) {
        Ok(()) => {},
        Err(e) => {
            return Err(e);
        },
    }
    if loaded {
        Ok(())
    } else {
        Err(String::from_str(perm).concat(" plugin not enabled \u{2014} set plugins.").concat(flag).concat(": true in run()"))
    }
}

/// IEEE-754 bits of 960.0, the default window width.
pub const DEFAULT_WIDTH_BITS: u64 = 0x408e_0000_0000_0000u64;

/// IEEE-754 bits of 640.0, the default window height.
pub const DEFAULT_HEIGHT_BITS: u64 = 0x4084_0000_0000_0000u64;

/// A window to open. Its size is carried as the bit patterns of the two `f64`s the script gave.
pub struct WindowSpec {
    pub label: String,
    pub kind: Option<String>,
    pub id: Option<String>,
    pub url: Option<String>,
    pub title: Option<String>,
    pub width_bits: u64,
    pub height_bits: u64,
    /// macOS title bar: `visible` | `transparent` | `overlay`.
    pub title_bar_style: String,
    /// Hide the native title text.
    pub hidden_title: bool,
    /// Native window decorations.
    pub decorations: bool,
    pub layout: Option<crate::json::Json>,
    /// Show the window once its page has loaded (`false` leaves that to the webview).
    pub visible: bool,
    pub transparent: bool,
}

/// The window opened when a configuration names none.
pub open spec fn is_default_main_window(w: WindowSpec) -> bool {
    &&& w.label@ == "main"@
    &&& opt_text(w.kind) == Some("webview"@)
    &&& opt_text(w.id) == Some("main"@)
    &&& opt_text(w.url) == Some("http://localhost:5173/"@)
    &&& opt_text(w.title) == Some("Tish Desktop"@)
    &&& w.width_bits == DEFAULT_WIDTH_BITS
    &&& w.height_bits == DEFAULT_HEIGHT_BITS
    &&& w.title_bar_style@ == "transparent"@
    &&& !w.hidden_title
    &&& w.decorations
    &&& w.layout is None
    &&& w.visible
    &&& !w.transparent
}

pub open spec fn opt_text(o: Option<String>) -> Option<Seq<char>> {
    match o {
        Some(s) => Some(s@),
        None => None,
    }
}

/// The window opened when a configuration names none.
pub fn default_main_window() -> (r: WindowSpec)
    ensures
        is_default_main_window(r),
{
    WindowSpec {
        label: String::from_str("main"),
        kind: Some(String::from_str("webview")),
        id: Some(String::from_str("main")),
        url: Some(String::from_str("http://localhost:5173/")),
        title: Some(String::from_str("Tish Desktop")),
        width_bits: DEFAULT_WIDTH_BITS,
        height_bits: DEFAULT_HEIGHT_BITS,
        title_bar_style: default_title_bar_style(),
        hidden_title: false,
        decorations: default_true(),
        layout: None,
        visible: true,
        transparent: false,
    }
}

/// How a pure-AppKit build attaches to the outer host.
#[derive(Clone, Copy, Debug, PartialEq, Eq, Structural)]
pub struct AppleAttach {
    pub outer_host: bool,
    pub auto_run_event_loop: bool,
}

/// What `run()` is configured with.
pub struct RunConfig {
    pub windows: Vec<WindowSpec>,
    pub plugins: PluginFlags,
    pub fs_root: Option<String>,
    pub extensions: Vec<String>,
    pub tick_ms: Option<u64>,
    pub profile: Option<String>,
    pub apple_attach: Option<AppleAttach>,
}

/// The configuration of a script that configured nothing.
pub fn default_run_config() -> (r: RunConfig)
    ensures
        r.windows@.len() == 0,
        r.plugins == all_plugins_on(),
        r.fs_root is None,
        r.extensions@.len() == 0,
        r.tick_ms is None,
        r.profile is None,
        r.apple_attach is None,
{
    RunConfig {
        windows: Vec::new(),
        plugins: PluginFlags::default(),
        fs_root: None,
        extensions: Vec::new(),
        tick_ms: None,
        profile: None,
        apple_attach: None,
    }
}

/// What `run()` starts from.
pub struct RunPlan {
    pub config: RunConfig,
    /// AppKit owns the event loop and no Tauri host starts.
    pub pure_native_apple: bool,
    /// Interval of the tick event; 0 for none.
    pub tick_ms: u64,
    /// `(outerHost, autoRunEventLoop)` for attaching the pending native roots.
    pub attach: Option<(bool, bool)>,
}

/// Resolves the run configuration: a `tickMs` the typed parse missed is taken from the raw
/// configuration; what `createWindow` / `useExtensions` queued before `run()` is merged in
/// (queued windows after the configured ones; the root, extensions and tick only where the
/// configuration has none; plugin switches never); a pure-AppKit build with queued native roots
/// and no windows runs without Tauri; any other build with no window opens the default one.
pub fn plan_run(config: RunConfig, raw_tick: Option<u64>, pending: Option<RunConfig>, pending_native: usize) -> (r: RunPlan)
    ensures
        ({
            let tick0 = if config.tick_ms is Some { config.tick_ms } else { raw_tick };
            let merged_windows = match pending {
                Some(p) => config.windows@ + p.windows@,
                None => config.windows@,
            };
            let pure = config.apple_attach is Some && merged_windows.len() == 0 && pending_native > 0
                && !config.apple_attach->0.outer_host;
            &&& r.pure_native_apple == pure
            &&& (if merged_windows.len() == 0 && !pure {
                r.config.windows@.len() == 1 && is_default_main_window(r.config.windows@[0])
            } else {
                r.config.windows@ == merged_windows
            })
            &&& r.config.plugins == config.plugins
            &&& r.config.profile == config.profile
            &&& r.config.apple_attach == config.apple_attach
            &&& r.config.fs_root == (match pending {
                Some(p) if config.fs_root is None => p.fs_root,
                _ => config.fs_root,
            })
            &&& r.config.extensions@ == (match pending {
                Some(p) if config.extensions@.len() == 0 => p.extensions@,
                _ => config.extensions@,
            })
            &&& r.config.tick_ms == (match pending {
                Some(p) if tick0 is None => p.tick_ms,
                _ => tick0,
            })
            &&& r.tick_ms == (match r.config.tick_ms {
                Some(t) => t,
                None => 0,
            })
            &&& r.attach == (match config.apple_attach {
                Some(a) => Some(
                    if pure {
                        (false, true)
                    } else {
                        (a.outer_host, a.auto_run_event_loop)
                    },
                ),
                None => None,
            })
        }),
{
    let mut config = config;
    if config.tick_ms.is_none() {
        config.tick_ms = raw_tick;
    }
    match pending {
        Some(p) => {
            let RunConfig { windows: pw, fs_root: pf, extensions: pe, tick_ms: pt, .. } = p;
            let mut pw = pw;
            config.windows.append(&mut pw);
            if config.fs_root.is_none() {
                config.fs_root = pf;
            }
            if config.extensions.len() == 0 {
                config.extensions = pe;
            }
            if config.tick_ms.is_none() {
                config.tick_ms = pt;
            }
        },
        None => {},
    }
    let (want_tauri_host, attached) = match config.apple_attach {
        Some(a) => (a.outer_host, true),
        None => (false, false),
    };
    let pure = attached && config.windows.len() == 0 && pending_native > 0 && !want_tauri_host;
    if config.windows.len() == 0 && !pure {
        config.windows.push(default_main_window());
    }
    let tick_ms = match config.tick_ms {
        Some(t) => t,
        None => 0,
    };
    let attach = match config.apple_attach {
        Some(a) => Some(
            if pure {
                (false, true)
            } else {
                (a.outer_host, a.auto_run_event_loop)
            },
        ),
        None => None,
    };
    RunPlan { config, pure_native_apple: pure, tick_ms, attach }
}

/// A tick interval as a script writes it: a number read leniently (negative integers and
/// floats cast with `as`); anything else, null included, is no interval.
pub fn tick_ms_of(v: Option<&Json>) -> (r: Option<u64>)
    ensures
        r == match v {
            Some(j) => json_u64_lenient(j@),
            None => None,
        },
{
    match v {
        Some(j) => j.as_u64_lenient(),
        None => None,
    }
}

/// The `tickMs` of a raw configuration.
pub fn raw_tick_ms(raw: &Json) -> (r: Option<u64>)
    ensures
        r == match member(raw@, "tickMs"@) {
            Some(j) => json_u64_lenient(j),
            None => None,
        },
{
    tick_ms_of(raw.get("tickMs"))
}

} // verus!
