//! The Dock icon once the event loop is ready: the host's own icon, else the bundle's `.icns`.

use vstd::prelude::*;

use crate::text::{chars_of, ends_with, has_suffix};

verus! {

/// The host answered `b` when asked about the path `p` (a file check, or setting the Dock
/// icon from that file).
pub open spec fn answered<F: Fn(String) -> bool>(f: F, p: Seq<char>, b: bool) -> bool {
    exists|s: String| s@ == p && #[trigger] call_ensures(f, (s,), b)
}

/// `<bundle>/Contents/Resources/<name>`.
pub open spec fn resource_path(bundle: Seq<char>, name: Seq<char>) -> Seq<char> {
    bundle + "/Contents/Resources/"@ + name
}

/// Where a bundle keeps its icon, when it is an `.app` that declares one.
pub fn bundle_icon_candidate(bundle: &str, icon_name: Option<&str>) -> (r: Option<String>)
    ensures
        match icon_name {
            Some(n) if has_suffix(bundle@, ".app"@) => r matches Some(p) && p@ == resource_path(
                bundle@,
                n@,
            ),
            _ => r is None,
        },
{
    let b = chars_of(bundle);
    let app = chars_of(".app");
    proof {
        reveal_strlit(".app");
    }
    if !ends_with(&b, &app) {
        return None;
    }
    match icon_name {
        Some(n) => Some(String::from_str(bundle).concat("/Contents/Resources/").concat(n)),
        None => None,
    }
}

/// What looking for the bundle's icon file finds, given what `exists` answered: for an `.app`
/// that declares an icon, the declared file when it exists, else that name with `.icns`
/// appended when that one exists, else nothing.
pub open spec fn icns_outcome<E: Fn(String) -> bool>(
    exists: E,
    bundle: Seq<char>,
    icon_name: Option<Seq<char>>,
    r: Option<Seq<char>>,
) -> bool {
    match icon_name {
        Some(n) if has_suffix(bundle, ".app"@) => {
            let c = resource_path(bundle, n);
            ||| answered(exists, c, true) && r == Some(c)
            ||| answered(exists, c, false) && answered(exists, c + ".icns"@, true) && r == Some(
                c + ".icns"@,
            )
            ||| answered(exists, c, false) && answered(exists, c + ".icns"@, false) && r is None
        },
        _ => r is None,
    }
}

pub open spec fn opt_text(o: Option<&str>) -> Option<Seq<char>> {
    match o {
        Some(s) => Some(s@),
        None => None,
    }
}

pub open spec fn opt_string_text(o: Option<String>) -> Option<Seq<char>> {
    match o {
        Some(s) => Some(s@),
        None => None,
    }
}

/// Asks the host whether a file exists at `p`.
fn ask<E: Fn(String) -> bool>(f: &E, p: &String) -> (r: bool)
    requires
        forall|s: String| f.requires((s,)),
    ensures
        answered(*f, p@, r),
{
    let q = p.clone();
    let r = f(q);
    assert(call_ensures(*f, (q,), r));
    r
}

/// The bundle's icon file, `bundle` being the path of the running bundle and `icon_name` its
/// declared `CFBundleIconFile`: the declared name as is when that file exists, else with
/// `.icns` appended when that one exists.
pub fn bundle_icns_path<E: Fn(String) -> bool>(bundle: &str, icon_name: Option<&str>, exists: &E) -> (r: Option<String>)
    requires
        forall|s: String| exists.requires((s,)),
    ensures
        icns_outcome(*exists, bundle@, opt_text(icon_name), opt_string_text(r)),
{
    let mut path = match bundle_icon_candidate(bundle, icon_name) {
        Some(p) => p,
        None => {
            return None;
        },
    };
    let ghost c = path@;
    if ask(exists, &path) {
        return Some(path);
    }
    path.append(".icns");
    if ask(exists, &path) {
        Some(path)
    } else {
        None
    }
}

/// Which icon the Dock ended up with.
#[derive(Clone, Copy, Debug, PartialEq, Eq, Structural)]
pub enum IconSource {
    /// The host's own icon.
    Host,
    /// The bundle's `.icns`, after the host's icon failed.
    Bundle,
    /// Neither could be set.
    Neither,
}

/// Reasserts the Dock icon right after Tauri sets its placeholder: the host's icon at `path`,
/// and only if setting it fails, the bundle's icon file (see `bundle_icns_path`). `set_icon`
/// sets the Dock icon from a file and answers whether it could.
pub fn reassert_on_ready<S: Fn(String) -> bool, E: Fn(String) -> bool>(
    path: &str,
    bundle: &str,
    icon_name: Option<&str>,
    set_icon: &S,
    exists: &E,
) -> (r: IconSource)
    requires
        forall|s: String| set_icon.requires((s,)),
        forall|s: String| exists.requires((s,)),
    ensures
        ({
            ||| answered(*set_icon, path@, true) && r == IconSource::Host
            ||| answered(*set_icon, path@, false) && exists|o: Option<Seq<char>>|
                #[trigger] icns_outcome(*exists, bundle@, opt_text(icon_name), o) && match o {
                    None => r == IconSource::Neither,
                    Some(p) => (answered(*set_icon, p, true) && r == IconSource::Bundle) || (
                    answered(*set_icon, p, false) && r == IconSource::Neither),
                }
        }),
{
    let own = String::from_str(path);
    if ask(set_icon, &own) {
        return IconSource::Host;
    }
    let found = bundle_icns_path(bundle, icon_name, exists);
    assert(icns_outcome(*exists, bundle@, opt_text(icon_name), opt_string_text(found)));
    match found {
        Some(icns) => {
            if ask(set_icon, &icns) {
                IconSource::Bundle
            } else {
                IconSource::Neither
            }
        },
        None => IconSource::Neither,
    }
}

} // verus!
