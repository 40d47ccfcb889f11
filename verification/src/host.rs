//! What the Tish-facing host functions decide before `run()`: queued surfaces, enabled
//! extensions, and the answers the script gets back.

use vstd::prelude::*;

use crate::broker::{unsupported_on, unsupported_spec, SurfaceInfo, SurfaceInfoV, SurfaceKind, SurfaceRegistry};
use crate::extensions::{registration_error, ExtensionManifest, ExtensionRegistry, ManifestV};
use crate::json::{
    json_obj, json_string, member, member_or, member_views, ok_obj, ok_object, owned, str_array,
    str_member, strings_json, strs_view, Json, JsonNumber, JsonV,
};

verus! {

/// The kind a surface spec asks for: `kind` when it is a string, else `webview`.
pub open spec fn surface_kind_name(spec: JsonV) -> Seq<char> {
    match str_member(spec, "kind"@) {
        Some(k) => k,
        None => "webview"@,
    }
}

pub fn surface_kind_arg(spec: &Json) -> (r: String)
    ensures
        r@ == surface_kind_name(spec@),
{
    match spec.str_member("kind") {
        Some(k) => owned(k),
        None => owned("webview"),
    }
}

/// The id of a native surface: `id`, else `label`, when a string; else `native`.
pub open spec fn native_surface_id(spec: JsonV) -> Seq<char> {
    match member_or(spec, "id"@, "label"@) {
        Some(JsonV::Str(s)) => s,
        _ => "native"@,
    }
}

/// The answer to queuing a native surface on a host that supports them.
pub open spec fn native_queued_spec(host: Seq<char>, has_root: bool) -> JsonV {
    ok_obj(
        seq![
            ("queued"@, JsonV::Bool(true)),
            ("kind"@, JsonV::Str("native"@)),
            ("host"@, JsonV::Str(host)),
            ("hasRoot"@, JsonV::Bool(has_root)),
            (
                "hint"@,
                JsonV::Str(
                    "run({ platformAttach: { apple: { outerHost: true } } }) drains PENDING_NATIVE_ROOTS via attach_app"@,
                ),
            ),
        ],
    )
}

/// `createSurface({ kind: "native", ... })`: registers the surface under the host's name and
/// answers `unsupported` when the host cannot attach native surfaces, else that it is queued.
/// Returns the surface id and the answer.
pub fn create_native_surface(
    surfaces: &mut SurfaceRegistry,
    spec: &Json,
    host_name: &str,
    supports_native: bool,
    has_root: bool,
) -> (r: (String, Json))
    ensures
        r.0@ == native_surface_id(spec@),
        final(surfaces).entries() == old(surfaces).entries().insert(
            r.0@,
            SurfaceInfoV {
                id: r.0@,
                kind: SurfaceKind::Native,
                platform: Some(host_name@),
                label: Some(r.0@),
            },
        ),
        !supports_native ==> r.1@ == unsupported_spec("createSurface.native"@, host_name@),
        supports_native ==> r.1@ == native_queued_spec(host_name@, has_root),
{
    let id = match spec.get_or("id", "label") {
        Some(v) => match v.as_str() {
            Some(s) => owned(s),
            None => owned("native"),
        },
        None => owned("native"),
    };
    surfaces.register(
        SurfaceInfo {
            id: id.clone(),
            kind: SurfaceKind::Native,
            platform: Some(owned(host_name)),
            label: Some(id.clone()),
        },
    );
    if !supports_native {
        return (id, unsupported_on("createSurface.native", host_name));
    }
    let mut rest: Vec<(String, Json)> = Vec::new();
    rest.push((owned("queued"), Json::Bool(true)));
    rest.push((owned("kind"), json_string("native")));
    rest.push((owned("host"), json_string(host_name)));
    rest.push((owned("hasRoot"), Json::Bool(has_root)));
    rest.push(
        (
            owned("hint"),
            json_string(
                "run({ platformAttach: { apple: { outerHost: true } } }) drains PENDING_NATIVE_ROOTS via attach_app",
            ),
        ),
    );
    assert(member_views(rest@) =~= seq![
        ("queued"@, JsonV::Bool(true)),
        ("kind"@, JsonV::Str("native"@)),
        ("host"@, JsonV::Str(host_name@)),
        ("hasRoot"@, JsonV::Bool(has_root)),
        (
            "hint"@,
            JsonV::Str(
                "run({ platformAttach: { apple: { outerHost: true } } }) drains PENDING_NATIVE_ROOTS via attach_app"@,
            ),
        ),
    ]);
    (id, ok_object(rest))
}

/// `createWindow(spec)`: the spec with `kind: "webview"` added when it names no kind.
pub fn with_default_kind(spec: Json) -> (r: Json)
    ensures
        match spec@ {
            JsonV::Object(m) => if m.contains_key("kind"@) {
                r@ == spec@
            } else {
                r@ == JsonV::Object(m.insert("kind"@, JsonV::Str("webview"@)))
            },
            _ => r@ == spec@,
        },
{
    let has_kind = spec.get("kind").is_some();
    match spec {
        Json::Object(mut p) => {
            if !has_kind {
                let ghost before = p@;
                p.push((owned("kind"), json_string("webview")));
                proof {
                    crate::json::lemma_members_view_push(before, p@[p@.len() - 1]);
                    crate::json::lemma_members_view_dom(before, "kind"@);
                }
            }
            Json::Object(p)
        },
        other => other,
    }
}

/// The extension ids `useExtensions` was given: the strings of an array, a single string, or
/// none.
pub open spec fn extension_ids_spec(arg: Option<JsonV>) -> Seq<Seq<char>> {
    match arg {
        Some(JsonV::Array(items)) => crate::auth::string_items(items),
        Some(JsonV::Str(s)) => seq![s],
        _ => Seq::empty(),
    }
}

/// Reads the extension ids given to `useExtensions`.
pub fn extension_ids(arg: Option<&Json>) -> (r: Vec<String>)
    ensures
        strs_view(r@) == extension_ids_spec(
            match arg {
                Some(j) => Some(j@),
                None => None,
            },
        ),
{
    let mut out: Vec<String> = Vec::new();
    match arg {
        Some(Json::Array(items)) => {
            let ghost iv = crate::json::items_view(items@);
            proof {
                crate::json::lemma_items_view_index(items@);
            }
            let mut i: usize = 0;
            assert(iv.subrange(0, 0) =~= Seq::<JsonV>::empty());
            while i < items.len()
                invariant
                    i <= items@.len(),
                    iv == crate::json::items_view(items@),
                    iv.len() == items@.len(),
                    forall|j: int| 0 <= j < items@.len() ==> #[trigger] iv[j] == items@[j]@,
                    strs_view(out@) == crate::auth::string_items(iv.subrange(0, i as int)),
                decreases items@.len() - i,
            {
                let ghost after = iv.subrange(0, i + 1);
                assert(after.drop_last() =~= iv.subrange(0, i as int));
                assert(after.last() == items@[i as int]@);
                match items[i].as_str() {
                    Some(s) => {
                        let ghost before = out@;
                        out.push(owned(s));
                        assert(strs_view(out@) =~= strs_view(before).push(s@));
                    },
                    None => {},
                }
                i += 1;
            }
            assert(iv.subrange(0, i as int) =~= iv);
        },
        Some(Json::Str(s)) => {
            out.push(s.clone());
            assert(strs_view(out@) =~= seq![s@]);
        },
        _ => {
            assert(strs_view(out@) =~= Seq::<Seq<char>>::empty());
        },
    }
    out
}

/// The manifest `useExtensions` registers for an id: no shell, no UI, no commands, and the
/// one permission `fs:scoped`.
pub open spec fn scoped_manifest(id: Seq<char>) -> ManifestV {
    ManifestV {
        id,
        shell: None,
        ui: None,
        commands: Seq::empty(),
        permissions: seq!["fs:scoped"@],
    }
}

/// The registered manifests after registering `scoped_manifest(id)`: it is appended unless
/// registration refuses it.
pub open spec fn register_scoped(ms: Seq<ManifestV>, id: Seq<char>) -> Seq<ManifestV> {
    if registration_error(ms, scoped_manifest(id)) is None {
        ms.push(scoped_manifest(id))
    } else {
        ms
    }
}

/// The registered manifests after registering each of `ids` in turn.
pub open spec fn register_all_scoped(ms: Seq<ManifestV>, ids: Seq<Seq<char>>) -> Seq<ManifestV>
    decreases ids.len(),
{
    if ids.len() == 0 {
        ms
    } else {
        register_scoped(register_all_scoped(ms, ids.drop_last()), ids.last())
    }
}

/// `useExtensions(ids)`: records the ids for the next run and registers each, in order, as a
/// Tish extension asking for `fs:scoped` (an id that registration refuses, such as one already
/// registered, leaves the registry as it was). Answers `{ ok: true, extensions: ids }`.
pub fn use_extensions(registry: &mut ExtensionRegistry, pending: &mut Vec<String>, ids: Vec<String>) -> (r: Json)
    ensures
        strs_view(final(pending)@) == strs_view(ids@),
        r@ == ok_obj(seq![("extensions"@, str_array(strs_view(ids@)))]),
        final(registry).tish() == register_all_scoped(old(registry).tish(), strs_view(ids@)),
        final(registry).rust() == old(registry).rust(),
{
    let mut i: usize = 0;
    assert(strs_view(ids@).take(0) =~= Seq::<Seq<char>>::empty());
    while i < ids.len()
        invariant
            i <= ids@.len(),
            registry.rust() == old(registry).rust(),
            registry.tish() == register_all_scoped(old(registry).tish(), strs_view(ids@).take(i as int)),
        decreases ids@.len() - i,
    {
        let mut perms: Vec<String> = Vec::new();
        perms.push(owned("fs:scoped"));
        let m = ExtensionManifest {
            id: ids[i].clone(),
            shell: None,
            ui: None,
            commands: Vec::new(),
            permissions: perms,
        };
        assert(m@ =~= scoped_manifest(ids@[i as int]@)) by {
            assert(strs_view(m.commands@) =~= Seq::<Seq<char>>::empty());
            assert(strs_view(m.permissions@) =~= seq!["fs:scoped"@]);
        }
        let _ = registry.register_tish(m);
        proof {
            let t = strs_view(ids@).take(i + 1);
            assert(t.drop_last() =~= strs_view(ids@).take(i as int));
            assert(t.last() == ids@[i as int]@);
        }
        i += 1;
    }
    assert(strs_view(ids@).take(ids@.len() as int) =~= strs_view(ids@));
    let list = strings_json(&ids);
    let mut rest: Vec<(String, Json)> = Vec::new();
    rest.push((owned("extensions"), list));
    let r = ok_object(rest);
    assert(member_views(rest@) =~= seq![("extensions"@, str_array(strs_view(ids@)))]);
    *pending = ids;
    r
}

/// `pendingNativeRoots()`: `{ ok: true, ids, count }`.
pub fn pending_roots_reply(ids: &Vec<String>) -> (r: Json)
    ensures
        r@ == ok_obj(
            seq![
                ("ids"@, str_array(strs_view(ids@))),
                ("count"@, JsonV::Number(JsonNumber::PosInt(ids@.len() as u64))),
            ],
        ),
{
    let mut rest: Vec<(String, Json)> = Vec::new();
    rest.push((owned("ids"), strings_json(ids)));
    rest.push((owned("count"), Json::Number(JsonNumber::PosInt(ids.len() as u64))));
    let r = ok_object(rest);
    assert(member_views(rest@) =~= seq![
        ("ids"@, str_array(strs_view(ids@))),
        ("count"@, JsonV::Number(JsonNumber::PosInt(ids@.len() as u64))),
    ]);
    r
}

/// The paths a second launch forwards to the running instance: its arguments after the
/// program name, without flags (arguments starting with `-`).
pub open spec fn forwarded_paths_spec(argv: Seq<Seq<char>>) -> Seq<Seq<char>> {
    argv.drop_first().filter(|a: Seq<char>| !crate::text::has_prefix(a, "-"@))
}

/// Picks the paths out of a second launch's arguments.
pub fn forwarded_paths(argv: &Vec<String>) -> (r: Vec<String>)
    ensures
        argv@.len() > 0 ==> strs_view(r@) == forwarded_paths_spec(strs_view(argv@)),
        argv@.len() == 0 ==> r@.len() == 0,
{
    let mut out: Vec<String> = Vec::new();
    if argv.len() == 0 {
        return out;
    }
    let ghost all = strs_view(argv@).drop_first();
    let ghost pred = |a: Seq<char>| !crate::text::has_prefix(a, "-"@);
    let mut i: usize = 1;
    assert(all.subrange(0, 0).filter(pred) =~= Seq::<Seq<char>>::empty());
    while i < argv.len()
        invariant
            1 <= i <= argv@.len(),
            all == strs_view(argv@).drop_first(),
            pred == (|a: Seq<char>| !crate::text::has_prefix(a, "-"@)),
            strs_view(out@) == all.subrange(0, i - 1).filter(pred),
        decreases argv@.len() - i,
    {
        let ghost before = out@;
        proof {
            reveal(Seq::filter);
            assert(all.subrange(0, i as int).drop_last() =~= all.subrange(0, i - 1));
            assert(all[i - 1] == argv@[i as int]@);
        }
        if !crate::caps::claims_prefix(argv[i].as_str(), "-") {
            out.push(argv[i].clone());
            assert(strs_view(out@) =~= strs_view(before).push(argv@[i as int]@));
        }
        i += 1;
    }
    assert(all.subrange(0, i - 1) =~= all);
    out
}

/// What a click in the application menu does.
#[derive(Clone, Copy, Debug, PartialEq, Eq, Structural)]
pub enum MenuAction {
    /// `quit`: exit the app.
    Quit,
    /// Anything else: emit `menu:action { id }`, and for `menu:show` bring the last window forward.
    Emit { show: bool },
}

pub fn menu_action(id: &str) -> (r: MenuAction)
    ensures
        r == (if id@ == "quit"@ {
            MenuAction::Quit
        } else {
            MenuAction::Emit { show: id@ == "menu:show"@ }
        }),
{
    if crate::text::str_eq(id, "quit") {
        MenuAction::Quit
    } else {
        MenuAction::Emit { show: crate::text::str_eq(id, "menu:show") }
    }
}

/// What a click in the tray menu does, after emitting `tray:action { id }`.
#[derive(Clone, Copy, Debug, PartialEq, Eq, Structural)]
pub enum TrayAction {
    Quit,
    ShowLast,
    Nothing,
}

pub fn tray_action(id: &str) -> (r: TrayAction)
    ensures
        r == (if id@ == "tray:quit"@ {
            TrayAction::Quit
        } else if id@ == "tray:show"@ {
            TrayAction::ShowLast
        } else {
            TrayAction::Nothing
        }),
{
    if crate::text::str_eq(id, "tray:quit") {
        TrayAction::Quit
    } else if crate::text::str_eq(id, "tray:show") {
        TrayAction::ShowLast
    } else {
        TrayAction::Nothing
    }
}

/// The `cli-open` invocation for opened paths: directories as workspace folders, everything
/// else as files to open.
pub open spec fn open_invocation_spec(paths: Seq<(Seq<char>, bool)>) -> JsonV {
    json_obj(
        seq![
            ("folders"@, str_array(paths.filter(|p: (Seq<char>, bool)| p.1).map_values(|p: (Seq<char>, bool)| p.0))),
            (
                "files"@,
                JsonV::Array(
                    paths.filter(|p: (Seq<char>, bool)| !p.1).map_values(
                        |p: (Seq<char>, bool)| json_obj(seq![("path"@, JsonV::Str(p.0))]),
                    ),
                ),
            ),
            ("addFolders"@, JsonV::Array(Seq::empty())),
            ("newWindow"@, JsonV::Bool(false)),
        ],
    )
}

pub open spec fn path_flags_view(v: Seq<(String, bool)>) -> Seq<(Seq<char>, bool)> {
    v.map_values(|p: (String, bool)| (p.0@, p.1))
}

fn path_object(p: &String) -> (r: Json)
    ensures
        r@ == json_obj(seq![("path"@, JsonV::Str(p@))]),
{
    let mut o: Vec<(String, Json)> = Vec::new();
    o.push((owned("path"), Json::Str(p.clone())));
    assert(member_views(o@) =~= seq![("path"@, JsonV::Str(p@))]);
    crate::json::object_of(o)
}

/// Builds the `cli-open` invocation from opened paths, each with whether it is a directory.
pub fn open_invocation(paths: &Vec<(String, bool)>) -> (r: Json)
    ensures
        r@ == open_invocation_spec(path_flags_view(paths@)),
{
    let ghost pv = path_flags_view(paths@);
    let ghost dir_pred = |p: (Seq<char>, bool)| p.1;
    let ghost file_pred = |p: (Seq<char>, bool)| !p.1;
    let mut folders: Vec<String> = Vec::new();
    let mut files: Vec<Json> = Vec::new();
    let mut i: usize = 0;
    assert(pv.subrange(0, 0).filter(dir_pred) =~= Seq::<(Seq<char>, bool)>::empty());
    assert(pv.subrange(0, 0).filter(file_pred) =~= Seq::<(Seq<char>, bool)>::empty());
    while i < paths.len()
        invariant
            i <= paths@.len(),
            pv == path_flags_view(paths@),
            dir_pred == (|p: (Seq<char>, bool)| p.1),
            file_pred == (|p: (Seq<char>, bool)| !p.1),
            strs_view(folders@) == pv.subrange(0, i as int).filter(dir_pred).map_values(
                |p: (Seq<char>, bool)| p.0,
            ),
            crate::json::items_view(files@) == pv.subrange(0, i as int).filter(file_pred).map_values(
                |p: (Seq<char>, bool)| json_obj(seq![("path"@, JsonV::Str(p.0))]),
            ),
        decreases paths@.len() - i,
    {
        let ghost fb = folders@;
        let ghost gb = files@;
        proof {
            reveal(Seq::filter);
            assert(pv.subrange(0, i + 1).drop_last() =~= pv.subrange(0, i as int));
            assert(pv[i as int] == (paths@[i as int].0@, paths@[i as int].1));
        }
        if paths[i].1 {
            folders.push(paths[i].0.clone());
            assert(strs_view(folders@) =~= strs_view(fb).push(paths@[i as int].0@));
            assert(strs_view(folders@) =~= pv.subrange(0, i + 1).filter(dir_pred).map_values(
                |p: (Seq<char>, bool)| p.0,
            ));
            assert(pv.subrange(0, i + 1).filter(file_pred) =~= pv.subrange(0, i as int).filter(
                file_pred,
            ));
        } else {
            let o = path_object(&paths[i].0);
            files.push(o);
            proof {
                crate::json::lemma_items_view_push(gb, o);
            }
            assert(crate::json::items_view(files@) =~= pv.subrange(0, i + 1).filter(
                file_pred,
            ).map_values(|p: (Seq<char>, bool)| json_obj(seq![("path"@, JsonV::Str(p.0))])));
            assert(pv.subrange(0, i + 1).filter(dir_pred) =~= pv.subrange(0, i as int).filter(
                dir_pred,
            ));
        }
        i += 1;
    }
    assert(pv.subrange(0, i as int) =~= pv);
    let mut o: Vec<(String, Json)> = Vec::new();
    o.push((owned("folders"), strings_json(&folders)));
    o.push((owned("files"), Json::Array(files)));
    o.push((owned("addFolders"), Json::Array(Vec::new())));
    o.push((owned("newWindow"), Json::Bool(false)));
    proof {
        crate::json::lemma_items_view_index(Seq::<Json>::empty());
    }
    assert(crate::json::items_view(Seq::<Json>::empty()) =~= Seq::<JsonV>::empty());
    assert(member_views(o@) =~= seq![
        ("folders"@, str_array(pv.filter(dir_pred).map_values(|p: (Seq<char>, bool)| p.0))),
        (
            "files"@,
            JsonV::Array(
                pv.filter(file_pred).map_values(
                    |p: (Seq<char>, bool)| json_obj(seq![("path"@, JsonV::Str(p.0))]),
                ),
            ),
        ),
        ("addFolders"@, JsonV::Array(Seq::empty())),
        ("newWindow"@, JsonV::Bool(false)),
    ]);
    crate::json::object_of(o)
}

} // verus!
