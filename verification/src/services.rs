//! Arguments and answers of the shell, HTTP, dialog, store and webview commands. The host runs
//! the process, the request, the dialog, the store file and the webview.

use vstd::prelude::*;

use crate::auth::{extra_params, host_result_view, string_items, string_members, url_host_spec};
use crate::chrome::{bool_or, str_arg_or, str_or, text_result};
use crate::config::{ensure_permission, has_permission, permission_check};
use crate::json::{
    items_view, json_lookup, json_view, lemma_items_view_index, member, member_or, member_views,
    ok_obj, ok_object, owned, str_array, str_member, strings_json, strs_view, Json, JsonNumber,
    JsonV,
};
use crate::menus::member_array;

verus! {

/// An allow-listed shell command: the name scripts use, the program, and its leading arguments.
pub struct ShellAllow {
    pub name: String,
    pub cmd: String,
    pub args_prefix: Vec<String>,
}

/// The strings of array member `k`, in order; none when it is not an array.
pub open spec fn string_list(args: JsonV, k: Seq<char>) -> Seq<Seq<char>> {
    match member_array(args, k) {
        Some(items) => string_items(items),
        None => Seq::empty(),
    }
}

/// Reads the strings of array member `k`.
pub fn string_list_arg(args: &Json, k: &str) -> (r: Vec<String>)
    ensures
        strs_view(r@) == string_list(args@, k@),
{
    let mut out: Vec<String> = Vec::new();
    match args.get(k) {
        Some(Json::Array(items)) => {
            let ghost iv = items_view(items@);
            proof {
                lemma_items_view_index(items@);
            }
            let mut i: usize = 0;
            assert(iv.subrange(0, 0) =~= Seq::<JsonV>::empty());
            while i < items.len()
                invariant
                    i <= items@.len(),
                    iv == items_view(items@),
                    iv.len() == items@.len(),
                    forall|j: int| 0 <= j < items@.len() ==> #[trigger] iv[j] == json_view(items@[j]),
                    strs_view(out@) == string_items(iv.subrange(0, i as int)),
                decreases items@.len() - i,
            {
                let ghost after = iv.subrange(0, i + 1);
                assert(after.drop_last() =~= iv.subrange(0, i as int));
                assert(after.last() == json_view(items@[i as int]));
                match items[i].as_str() {
                    Some(s) => {
                        let ghost before = out@;
                        out.push(owned(s));
                        assert(strs_view(out@) =~= strs_view(before).push(s@));
                    },
                    None => {},
                }
                i += 1;
            }
            assert(iv.subrange(0, i as int) =~= iv);
        },
        _ => {
            assert(strs_view(out@) =~= Seq::<Seq<char>>::empty());
        },
    }
    out
}

/// The first allow-list entry named `name`.
pub open spec fn allow_entry(allow: Seq<ShellAllow>, name: Seq<char>) -> Option<ShellAllow>
    decreases allow.len(),
{
    if allow.len() == 0 {
        None
    } else if allow[0].name@ == name {
        Some(allow[0])
    } else {
        allow_entry(allow.drop_first(), name)
    }
}

/// `shell.exec`: the `shell` permission, a `name` (required) that the allow list knows, and
/// the command line: the entry's program with its leading arguments, then the string `args`.
pub open spec fn shell_exec_spec(perms: Seq<Seq<char>>, allow: Seq<ShellAllow>, args: JsonV) -> Result<(Seq<char>, Seq<Seq<char>>), Seq<char>> {
    match permission_check(perms, "shell"@) {
        Err(e) => Err(e),
        Ok(()) => match str_member(args, "name"@) {
            None => Err("name required"@),
            Some(name) => match allow_entry(allow, name) {
                None => Err("shell command not allow-listed: "@ + name),
                Some(e) => Ok((e.cmd@, strs_view(e.args_prefix@) + string_list(args, "args"@))),
            },
        },
    }
}

/// The program and arguments `shell.exec` runs.
pub fn shell_exec_plan(perms: &Vec<String>, allow: &Vec<ShellAllow>, args: &Json) -> (r: Result<(String, Vec<String>), String>)
    ensures
        match shell_exec_spec(strs_view(perms@), allow@, args@) {
            Err(e) => r matches Err(m) && m@ == e,
            Ok((c, a)) => r matches Ok((x, y)) && x@ == c && strs_view(y@) == a,
        },
{
    match ensure_permission(perms, "shell") {
        Ok(()) => {},
        Err(e) => {
            return Err(e);
        },
    }
    let name = match args.str_member("name") {
        Some(n) => n,
        None => {
            return Err(owned("name required"));
        },
    };
    let extra = string_list_arg(args, "args");
    let mut i: usize = 0;
    assert(allow@.subrange(0, allow@.len() as int) =~= allow@);
    while i < allow.len()
        invariant
            i <= allow@.len(),
            allow_entry(allow@, name@) == allow_entry(allow@.subrange(i as int, allow@.len() as int), name@),
            permission_check(strs_view(perms@), "shell"@) is Ok,
            str_member(args@, "name"@) == Some(name@),
            strs_view(extra@) == string_list(args@, "args"@),
        decreases allow@.len() - i,
    {
        let ghost rest = allow@.subrange(i as int, allow@.len() as int);
        assert(rest[0] == allow@[i as int]);
        assert(rest.drop_first() =~= allow@.subrange(i + 1, allow@.len() as int));
        if crate::text::str_eq(allow[i].name.as_str(), name) {
            let mut argv = clone_strings(&allow[i].args_prefix);
            let ghost prefix = argv@;
            let mut extra = extra;
            let ghost tail = extra@;
            argv.append(&mut extra);
            assert(argv@ =~= prefix + tail);
            assert(strs_view(argv@) =~= strs_view(prefix) + strs_view(tail));
            return Ok((allow[i].cmd.clone(), argv));
        }
        i += 1;
    }
    assert(allow@.subrange(i as int, allow@.len() as int) =~= Seq::<ShellAllow>::empty());
    Err(String::from_str("shell command not allow-listed: ").concat(name))
}

/// A copy of a vector of strings.
pub fn clone_strings(v: &Vec<String>) -> (r: Vec<String>)
    ensures
        strs_view(r@) == strs_view(v@),
{
    let mut out: Vec<String> = Vec::new();
    let mut k: usize = 0;
    while k < v.len()
        invariant
            k <= v@.len(),
            strs_view(out@) == strs_view(v@).subrange(0, k as int),
        decreases v@.len() - k,
    {
        let ghost before = out@;
        out.push(v[k].clone());
        assert(strs_view(out@) =~= strs_view(before).push(v@[k as int]@));
        assert(strs_view(v@).subrange(0, k + 1) =~= strs_view(v@).subrange(0, k as int).push(
            v@[k as int]@,
        ));
        k += 1;
    }
    assert(strs_view(v@).subrange(0, k as int) =~= strs_view(v@));
    out
}

pub open spec fn opt_i32_json(c: Option<i32>) -> JsonV {
    match c {
        Some(n) => if n >= 0 {
            JsonV::Number(JsonNumber::PosInt(n as u64))
        } else {
            JsonV::Number(JsonNumber::NegInt(n as i64))
        },
        None => JsonV::Null,
    }
}

/// `{ ok: true, code, stdout, stderr }` for a finished process (`code` null when it was
/// killed by a signal).
pub fn shell_reply(code: Option<i32>, stdout: String, stderr: String) -> (r: Json)
    ensures
        r@ == ok_obj(
            seq![
                ("code"@, opt_i32_json(code)),
                ("stdout"@, JsonV::Str(stdout@)),
                ("stderr"@, JsonV::Str(stderr@)),
            ],
        ),
{
    let c = match code {
        Some(n) => if n >= 0 {
            Json::Number(JsonNumber::PosInt(n as u64))
        } else {
            Json::Number(JsonNumber::NegInt(n as i64))
        },
        None => Json::Null,
    };
    let ghost so = stdout@;
    let ghost se = stderr@;
    let mut rest: Vec<(String, Json)> = Vec::new();
    rest.push((owned("code"), c));
    rest.push((owned("stdout"), Json::Str(stdout)));
    rest.push((owned("stderr"), Json::Str(stderr)));
    assert(member_views(rest@) =~= seq![
        ("code"@, opt_i32_json(code)),
        ("stdout"@, JsonV::Str(so)),
        ("stderr"@, JsonV::Str(se)),
    ]);
    ok_object(rest)
}

/// What `str::to_uppercase` makes of `s` (Unicode upper-casing).
pub uninterp spec fn unicode_uppercase(s: Seq<char>) -> Seq<char>;

/// Trusted: `str::to_uppercase`. The result is named; the Unicode mapping is left unsaid.
#[verifier::external_body]
fn to_uppercase(s: &str) -> (r: String)
    ensures
        r@ == unicode_uppercase(s@),
{
    s.to_uppercase()
}

/// An HTTP request a script may send.
pub struct HttpPlan {
    pub url: String,
    /// Upper-cased; the host checks that it is a valid method.
    pub method: String,
    pub headers: Vec<(String, String)>,
    pub body: Option<String>,
}

pub open spec fn pairs_text(p: Seq<(String, String)>) -> Seq<(Seq<char>, Seq<char>)> {
    p.map_values(|x: (String, String)| (x.0@, x.1@))
}

/// The string members of object member `k`, as stored.
pub open spec fn string_object(args: Json, k: Seq<char>) -> Seq<(Seq<char>, Seq<char>)> {
    match json_lookup(args, k) {
        Some(Json::Object(p)) => string_members(p@),
        _ => Seq::empty(),
    }
}

/// `http.fetch`: the `http` permission; `url` (required) must parse and have a host, and that
/// host must be on the allow list (an empty list admits no host); the method defaults to `GET`.
pub open spec fn http_fetch_spec(perms: Seq<Seq<char>>, allow: Seq<Seq<char>>, args: Json) -> Result<(Seq<char>, Seq<char>), Seq<char>> {
    match permission_check(perms, "http"@) {
        Err(e) => Err(e),
        Ok(()) => match str_member(args@, "url"@) {
            None => Err("url required"@),
            Some(url) => match url_host_spec(url) {
                Err(e) => Err(e),
                Ok(None) => Err("url has no host"@),
                Ok(Some(host)) => if !allow.contains(host) {
                    Err("http host not allow-listed: "@ + host)
                } else {
                    Ok((url, unicode_uppercase(str_or(args@, "method"@, "GET"@))))
                },
            },
        },
    }
}

/// Checks and reads an `http.fetch` request.
pub fn http_fetch_plan(perms: &Vec<String>, allow: &Vec<String>, args: &Json) -> (r: Result<HttpPlan, String>)
    ensures
        match http_fetch_spec(strs_view(perms@), strs_view(allow@), *args) {
            Err(e) => r matches Err(m) && m@ == e,
            Ok((url, method)) => r matches Ok(p) && {
                &&& p.url@ == url
                &&& p.method@ == method
                &&& pairs_text(p.headers@) == string_object(*args, "headers"@)
                &&& crate::menus::opt_text(p.body) == str_member(args@, "body"@)
            },
        },
{
    match ensure_permission(perms, "http") {
        Ok(()) => {},
        Err(e) => {
            return Err(e);
        },
    }
    let url = match args.str_member("url") {
        Some(u) => owned(u),
        None => {
            return Err(owned("url required"));
        },
    };
    let host = match crate::auth::url_host(url.as_str()) {
        Err(e) => {
            return Err(e);
        },
        Ok(None) => {
            return Err(owned("url has no host"));
        },
        Ok(Some(h)) => h,
    };
    if !has_permission(allow, host.as_str()) {
        return Err(String::from_str("http host not allow-listed: ").concat(host.as_str()));
    }
    let method_name = str_arg_or(args, "method", "GET");
    let method = to_uppercase(method_name.as_str());
    let headers = string_object_arg(args, "headers");
    let body = match args.str_member("body") {
        Some(b) => Some(owned(b)),
        None => None,
    };
    Ok(HttpPlan { url, method, headers, body })
}

/// Reads the string members of object member `k`.
pub fn string_object_arg(args: &Json, k: &str) -> (r: Vec<(String, String)>)
    ensures
        pairs_text(r@) == string_object(*args, k@),
{
    let mut out: Vec<(String, String)> = Vec::new();
    match args.get(k) {
        Some(Json::Object(p)) => {
            let mut i: usize = 0;
            assert(p@.subrange(0, 0) =~= Seq::<(String, Json)>::empty());
            while i < p.len()
                invariant
                    i <= p@.len(),
                    json_lookup(*args, k@) == Some(Json::Object(*p)),
                    pairs_text(out@) == string_members(p@.subrange(0, i as int)),
                decreases p@.len() - i,
            {
                let ghost after = p@.subrange(0, i + 1);
                assert(after.drop_last() =~= p@.subrange(0, i as int));
                assert(after.last() == p@[i as int]);
                match &p[i].1 {
                    Json::Str(val) => {
                        let ghost before = out@;
                        out.push((p[i].0.clone(), val.clone()));
                        assert(pairs_text(out@) =~= pairs_text(before).push((p@[i as int].0@, val@)));
                    },
                    _ => {},
                }
                i += 1;
            }
            assert(p@.subrange(0, i as int) =~= p@);
        },
        _ => {},
    }
    assert(pairs_text(out@) =~= string_object(*args, k@)) by {
        if out@.len() == 0 {
            assert(pairs_text(out@) =~= Seq::<(Seq<char>, Seq<char>)>::empty());
        }
    }
    out
}

/// A file-type filter of a dialog: its name and extensions.
pub struct DialogFilter {
    pub name: String,
    pub extensions: Vec<String>,
}

/// The filters of a file dialog, in order: each names its extensions (filters without any are
/// skipped) and is called `Files` unless it says otherwise.
pub open spec fn filters_spec(fs: Seq<JsonV>) -> Seq<(Seq<char>, Seq<Seq<char>>)>
    decreases fs.len(),
{
    if fs.len() == 0 {
        Seq::empty()
    } else {
        let rest = filters_spec(fs.drop_last());
        let f = fs.last();
        let exts = string_list(f, "extensions"@);
        if exts.len() > 0 {
            rest.push((str_or(f, "name"@, "Files"@), exts))
        } else {
            rest
        }
    }
}

pub open spec fn filter_views(v: Seq<DialogFilter>) -> Seq<(Seq<char>, Seq<Seq<char>>)> {
    v.map_values(|f: DialogFilter| (f.name@, strs_view(f.extensions@)))
}

/// Reads the `filters` of a file dialog.
pub fn dialog_filters(args: &Json) -> (r: Vec<DialogFilter>)
    ensures
        filter_views(r@) == match member_array(args@, "filters"@) {
            Some(fs) => filters_spec(fs),
            None => Seq::empty(),
        },
{
    let mut out: Vec<DialogFilter> = Vec::new();
    match args.get("filters") {
        Some(Json::Array(fs)) => {
            let ghost fv = items_view(fs@);
            proof {
                lemma_items_view_index(fs@);
            }
            let mut i: usize = 0;
            assert(fv.subrange(0, 0) =~= Seq::<JsonV>::empty());
            assert(filter_views(out@) =~= Seq::<(Seq<char>, Seq<Seq<char>>)>::empty());
            while i < fs.len()
                invariant
                    i <= fs@.len(),
                    fv == items_view(fs@),
                    fv.len() == fs@.len(),
                    forall|j: int| 0 <= j < fs@.len() ==> #[trigger] fv[j] == json_view(fs@[j]),
                    filter_views(out@) == filters_spec(fv.subrange(0, i as int)),
                decreases fs@.len() - i,
            {
                let ghost after = fv.subrange(0, i + 1);
                assert(after.drop_last() =~= fv.subrange(0, i as int));
                assert(after.last() == json_view(fs@[i as int]));
                let exts = string_list_arg(&fs[i], "extensions");
                if exts.len() > 0 {
                    let name = str_arg_or(&fs[i], "name", "Files");
                    let ghost before = out@;
                    let ghost entry = (name@, strs_view(exts@));
                    out.push(DialogFilter { name, extensions: exts });
                    assert(filter_views(out@) =~= filter_views(before).push(entry));
                }
                i += 1;
            }
            assert(fv.subrange(0, i as int) =~= fv);
        },
        _ => {},
    }
    out
}

/// How `dialog.open` picks: folders or files, one or several.
pub fn dialog_open_mode(args: &Json) -> (r: (bool, bool))
    ensures
        r.0 == bool_or(args@, "directory"@, false),
        r.1 == bool_or(args@, "multiple"@, false),
{
    let directory = match args.bool_member("directory") {
        Some(b) => b,
        None => false,
    };
    let multiple = match args.bool_member("multiple") {
        Some(b) => b,
        None => false,
    };
    (directory, multiple)
}

/// `{ ok: true, paths }` for a multiple pick.
pub fn picked_paths_reply(paths: &Vec<String>) -> (r: Json)
    ensures
        r@ == ok_obj(seq![("paths"@, str_array(strs_view(paths@)))]),
{
    let mut rest: Vec<(String, Json)> = Vec::new();
    rest.push((owned("paths"), strings_json(paths)));
    assert(member_views(rest@) =~= seq![("paths"@, str_array(strs_view(paths@)))]);
    ok_object(rest)
}

/// `{ ok: true, path }` for a single pick, `path` null when cancelled.
pub fn picked_path_reply(path: &Option<String>) -> (r: Json)
    ensures
        r@ == ok_obj(
            seq![
                ("path"@, match path {
                    Some(p) => JsonV::Str(p@),
                    None => JsonV::Null,
                }),
            ],
        ),
{
    let mut rest: Vec<(String, Json)> = Vec::new();
    rest.push((owned("path"), crate::json::opt_string_json(path)));
    assert(member_views(rest@) =~= seq![
        (
            "path"@,
            match path {
                Some(p) => JsonV::Str(p@),
                None => JsonV::Null,
            },
        ),
    ]);
    ok_object(rest)
}

/// The store file a `store.*` call names: `path`, else `store.json`.
pub fn store_path(args: &Json) -> (r: String)
    ensures
        r@ == str_or(args@, "path"@, "store.json"@),
{
    str_arg_or(args, "path", "store.json")
}

/// `store.get` / `store.set` / `store.delete`: the `store` permission, the store file, and the
/// `key` (required).
pub fn store_key_args(perms: &Vec<String>, args: &Json) -> (r: Result<(String, String), String>)
    ensures
        match permission_check(strs_view(perms@), "store"@) {
            Err(e) => r matches Err(m) && m@ == e,
            Ok(()) => match str_member(args@, "key"@) {
                Some(k) => r matches Ok((p, x)) && p@ == str_or(args@, "path"@, "store.json"@)
                    && x@ == k,
                None => r matches Err(m) && m@ == "key required"@,
            },
        },
{
    match ensure_permission(perms, "store") {
        Ok(()) => {},
        Err(e) => {
            return Err(e);
        },
    }
    let path = store_path(args);
    match args.str_member("key") {
        Some(k) => Ok((path, owned(k))),
        None => Err(owned("key required")),
    }
}

/// The surface a `webview.*` call targets: `surfaceId`, else `label`, else `id`.
pub open spec fn surface_label_spec(args: JsonV) -> Option<Seq<char>> {
    match member_or(args, "surfaceId"@, "label"@) {
        Some(JsonV::Str(s)) => Some(s),
        Some(_) => None,
        None => match member(args, "id"@) {
            Some(JsonV::Str(s)) => Some(s),
            _ => None,
        },
    }
}

/// Reads the target surface of a `webview.*` call.
pub fn surface_label(args: &Json) -> (r: Result<String, String>)
    ensures
        match surface_label_spec(args@) {
            Some(l) => r matches Ok(s) && s@ == l,
            None => r matches Err(e) && e@ == "surfaceId required"@,
        },
{
    let found = match args.get_or("surfaceId", "label") {
        Some(v) => Some(v),
        None => args.get("id"),
    };
    match found {
        Some(v) => match v.as_str() {
            Some(s) => Ok(owned(s)),
            None => Err(owned("surfaceId required")),
        },
        None => Err(owned("surfaceId required")),
    }
}

/// `webview.postMessage`: the channel (`channel`, else `event`, else `message`) and the body
/// (`body`, else `payload`, else null).
pub fn post_message_args(args: &Json) -> (r: (String, Json))
    ensures
        r.0@ == match member_or(args@, "channel"@, "event"@) {
            Some(JsonV::Str(c)) => c,
            _ => "message"@,
        },
        r.1@ == match member_or(args@, "body"@, "payload"@) {
            Some(b) => b,
            None => JsonV::Null,
        },
{
    let channel = match args.get_or("channel", "event") {
        Some(v) => match v.as_str() {
            Some(c) => owned(c),
            None => owned("message"),
        },
        None => owned("message"),
    };
    let body = match args.get_or("body", "payload") {
        Some(b) => b.deep_clone(),
        None => Json::Null,
    };
    (channel, body)
}

} // verus!
