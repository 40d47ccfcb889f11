//! Window chrome, dock, tray, context menu, notification and opener commands: what each reads
//! from its arguments, what it refuses, and what it answers. The host applies the result to
//! its windows and plugins.

use vstd::prelude::*;

use crate::config::{ensure_permission, permission_check};
use crate::json::{
    bool_member, json_obj, json_string, member, member_views, ok_obj, ok_object, owned, str_member,
    strs_view, Json, JsonNumber, JsonV,
};
use crate::num::{json_i64_lenient, json_u64_lenient};
use crate::text::{decimal, decimal_chars, str_eq, string_of};

verus! {

pub open spec fn text_result(r: Result<String, String>) -> Result<Seq<char>, Seq<char>> {
    match r {
        Ok(s) => Ok(s@),
        Err(e) => Err(e@),
    }
}

/// A required string argument: member `key`, else the error `msg`.
pub open spec fn required_str_spec(args: JsonV, key: Seq<char>, msg: Seq<char>) -> Result<Seq<char>, Seq<char>> {
    match str_member(args, key) {
        Some(s) => Ok(s),
        None => Err(msg),
    }
}

/// Reads a required string argument.
pub fn required_str(args: &Json, key: &str, msg: &str) -> (r: Result<String, String>)
    ensures
        text_result(r) == required_str_spec(args@, key@, msg@),
{
    match args.str_member(key) {
        Some(s) => Ok(owned(s)),
        None => Err(owned(msg)),
    }
}

/// A string argument with a default.
pub open spec fn str_or(args: JsonV, key: Seq<char>, default: Seq<char>) -> Seq<char> {
    match str_member(args, key) {
        Some(s) => s,
        None => default,
    }
}

/// Reads a string argument, `default` when it is missing or not a string.
pub fn str_arg_or(args: &Json, key: &str, default: &str) -> (r: String)
    ensures
        r@ == str_or(args@, key@, default@),
{
    match args.str_member(key) {
        Some(s) => owned(s),
        None => owned(default),
    }
}

/// Reads a required boolean argument.
pub fn required_bool(args: &Json, key: &str, msg: &str) -> (r: Result<bool, String>)
    ensures
        match bool_member(args@, key@) {
            Some(b) => r == Ok::<bool, String>(b),
            None => r matches Err(e) && e@ == msg@,
        },
{
    match args.bool_member(key) {
        Some(b) => Ok(b),
        None => Err(owned(msg)),
    }
}

/// A boolean argument with a default.
pub open spec fn bool_or(args: JsonV, key: Seq<char>, default: bool) -> bool {
    match bool_member(args, key) {
        Some(b) => b,
        None => default,
    }
}

/// `dialog.message`: the `dialog` permission, then `title` (default `Message`) and `message`
/// (default empty).
pub fn dialog_message_args(perms: &Vec<String>, args: &Json) -> (r: Result<(String, String), String>)
    ensures
        match permission_check(strs_view(perms@), "dialog"@) {
            Err(e) => r matches Err(m) && m@ == e,
            Ok(()) => r matches Ok((t, m)) && t@ == str_or(args@, "title"@, "Message"@) && m@
                == str_or(args@, "message"@, Seq::empty()),
        },
{
    match ensure_permission(perms, "dialog") {
        Ok(()) => {},
        Err(e) => {
            return Err(e);
        },
    }
    let title = str_arg_or(args, "title", "Message");
    let message = match args.str_member("message") {
        Some(m) => owned(m),
        None => String::new(),
    };
    Ok((title, message))
}

/// The Dock badge count: `count` read leniently as an integer; 0 and a missing count clear it.
pub open spec fn badge_count_spec(args: JsonV) -> Option<i64> {
    match member(args, "count"@) {
        Some(v) => match json_i64_lenient(v) {
            Some(n) => if n == 0 {
                None
            } else {
                Some(n)
            },
            None => None,
        },
        None => None,
    }
}

pub fn badge_count(args: &Json) -> (r: Option<i64>)
    ensures
        r == badge_count_spec(args@),
{
    match args.get("count") {
        Some(v) => match v.as_i64_lenient() {
            Some(n) => if n == 0 {
                None
            } else {
                Some(n)
            },
            None => None,
        },
        None => None,
    }
}

/// `{ ok: true, count }`, the count null when cleared.
pub fn badge_count_reply(count: Option<i64>) -> (r: Json)
    ensures
        r@ == ok_obj(
            seq![
                ("count"@, match count {
                    Some(n) => if n >= 0 {
                        JsonV::Number(JsonNumber::PosInt(n as u64))
                    } else {
                        JsonV::Number(JsonNumber::NegInt(n))
                    },
                    None => JsonV::Null,
                }),
            ],
        ),
{
    let v = match count {
        Some(n) => if n >= 0 {
            Json::Number(JsonNumber::PosInt(n as u64))
        } else {
            Json::Number(JsonNumber::NegInt(n))
        },
        None => Json::Null,
    };
    let mut rest: Vec<(String, Json)> = Vec::new();
    rest.push((owned("count"), v));
    let r = ok_object(rest);
    assert(member_views(rest@) =~= seq![("count"@, rest@[0].1@)]);
    r
}

/// The Dock badge label: `label` when it is a non-empty string, else cleared.
pub open spec fn badge_label_spec(args: JsonV) -> Option<Seq<char>> {
    match str_member(args, "label"@) {
        Some(l) => if l.len() == 0 {
            None
        } else {
            Some(l)
        },
        None => None,
    }
}

pub fn badge_label(args: &Json) -> (r: Option<String>)
    ensures
        match r {
            Some(s) => badge_label_spec(args@) == Some(s@),
            None => badge_label_spec(args@) is None,
        },
{
    match args.str_member("label") {
        Some(l) => {
            let t = owned(l);
            let c = crate::text::chars_of(l);
            if c.len() == 0 {
                None
            } else {
                Some(t)
            }
        },
        None => None,
    }
}

/// The status of a taskbar progress bar.
#[derive(Clone, Copy, Debug, PartialEq, Eq, Structural)]
pub enum ProgressStatus {
    /// No progress bar.
    Clear,
    Normal,
    Indeterminate,
    Paused,
    Error,
}

/// The progress value: `progress` read leniently as an unsigned integer.
pub open spec fn progress_value(args: JsonV) -> Option<u64> {
    match member(args, "progress"@) {
        Some(v) => json_u64_lenient(v),
        None => None,
    }
}

/// The status name: `status`, else `normal` with a progress value and `none` without.
pub open spec fn progress_status_name(args: JsonV) -> Seq<char> {
    match str_member(args, "status"@) {
        Some(s) => s,
        None => if progress_value(args) is Some {
            "normal"@
        } else {
            "none"@
        },
    }
}

/// The status a name stands for; an unknown name means `Normal`.
pub open spec fn progress_status_of(name: Seq<char>) -> ProgressStatus {
    if name == "none"@ || name == "clear"@ {
        ProgressStatus::Clear
    } else if name == "indeterminate"@ {
        ProgressStatus::Indeterminate
    } else if name == "paused"@ {
        ProgressStatus::Paused
    } else if name == "error"@ {
        ProgressStatus::Error
    } else {
        ProgressStatus::Normal
    }
}

/// `window.progress`: the progress value, the status name answered back, and the status.
pub fn progress_plan(args: &Json) -> (r: (Option<u64>, String, ProgressStatus))
    ensures
        r.0 == progress_value(args@),
        r.1@ == progress_status_name(args@),
        r.2 == progress_status_of(r.1@),
{
    let progress = match args.get("progress") {
        Some(v) => v.as_u64_lenient(),
        None => None,
    };
    let name = match args.str_member("status") {
        Some(s) => owned(s),
        None => if progress.is_some() {
            owned("normal")
        } else {
            owned("none")
        },
    };
    let status = if str_eq(name.as_str(), "none") || str_eq(name.as_str(), "clear") {
        ProgressStatus::Clear
    } else if str_eq(name.as_str(), "indeterminate") {
        ProgressStatus::Indeterminate
    } else if str_eq(name.as_str(), "paused") {
        ProgressStatus::Paused
    } else if str_eq(name.as_str(), "error") {
        ProgressStatus::Error
    } else {
        ProgressStatus::Normal
    };
    (progress, name, status)
}

/// How urgently a window asks for attention.
#[derive(Clone, Copy, Debug, PartialEq, Eq, Structural)]
pub enum AttentionKind {
    Critical,
    Informational,
}

/// `window.attention`: the kind name (default `informational`) and the request: `critical`,
/// none for `none`/`clear`, else informational.
pub open spec fn attention_of(name: Seq<char>) -> Option<AttentionKind> {
    if name == "critical"@ {
        Some(AttentionKind::Critical)
    } else if name == "none"@ || name == "clear"@ {
        None
    } else {
        Some(AttentionKind::Informational)
    }
}

pub fn attention_plan(args: &Json) -> (r: (String, Option<AttentionKind>))
    ensures
        r.0@ == str_or(args@, "kind"@, "informational"@),
        r.1 == attention_of(r.0@),
{
    let kind = str_arg_or(args, "kind", "informational");
    let attention = if str_eq(kind.as_str(), "critical") {
        Some(AttentionKind::Critical)
    } else if str_eq(kind.as_str(), "none") || str_eq(kind.as_str(), "clear") {
        None
    } else {
        Some(AttentionKind::Informational)
    };
    (kind, attention)
}

/// One entry of a native menu built from a host-supplied list.
pub enum MenuEntry {
    Separator,
    Item { id: String, label: String, enabled: bool },
}

pub enum MenuEntryV {
    Separator,
    Item { id: Seq<char>, label: Seq<char>, enabled: bool },
}

pub open spec fn entry_view(e: MenuEntry) -> MenuEntryV {
    match e {
        MenuEntry::Separator => MenuEntryV::Separator,
        MenuEntry::Item { id, label, enabled } => MenuEntryV::Item { id: id@, label: label@, enabled },
    }
}

pub open spec fn entries_view(v: Seq<MenuEntry>) -> Seq<MenuEntryV> {
    v.map_values(|e: MenuEntry| entry_view(e))
}

/// A tray menu entry: a separator when `separator` is true, else an item whose id and label
/// default to empty and that is enabled unless it says otherwise.
pub open spec fn tray_entry(item: JsonV) -> MenuEntryV {
    if bool_or(item, "separator"@, false) {
        MenuEntryV::Separator
    } else {
        MenuEntryV::Item {
            id: str_or(item, "id"@, Seq::empty()),
            label: str_or(item, "label"@, Seq::empty()),
            enabled: bool_or(item, "enabled"@, true),
        }
    }
}

/// `ctx:<i>`, the id of an unnamed context-menu item.
pub open spec fn ctx_id(i: nat) -> Seq<char> {
    "ctx:"@ + decimal(i)
}

/// A context-menu entry at position `i`, or the error for an item without a label.
pub open spec fn context_entry(item: JsonV, i: nat) -> Result<MenuEntryV, Seq<char>> {
    if bool_or(item, "separator"@, false) {
        Ok(MenuEntryV::Separator)
    } else {
        match str_member(item, "label"@) {
            None => Err("item.label required"@),
            Some(label) => Ok(
                MenuEntryV::Item {
                    id: str_or(item, "id"@, ctx_id(i)),
                    label,
                    enabled: bool_or(item, "enabled"@, true),
                },
            ),
        }
    }
}

/// The items array of a menu command, or `msg`.
pub open spec fn items_arg(args: JsonV) -> Option<Seq<JsonV>> {
    match member(args, "items"@) {
        Some(JsonV::Array(items)) => Some(items),
        _ => None,
    }
}

/// `tray.setMenu`: the `tray` permission, then the entries of `items` (required).
pub open spec fn tray_menu_spec(perms: Seq<Seq<char>>, args: JsonV) -> Result<Seq<MenuEntryV>, Seq<char>> {
    match permission_check(perms, "tray"@) {
        Err(e) => Err(e),
        Ok(()) => match items_arg(args) {
            None => Err("items required"@),
            Some(items) => Ok(items.map_values(|it: JsonV| tray_entry(it))),
        },
    }
}

fn tray_entry_of(item: &Json) -> (r: MenuEntry)
    ensures
        entry_view(r) == tray_entry(item@),
{
    let sep = match item.bool_member("separator") {
        Some(b) => b,
        None => false,
    };
    if sep {
        return MenuEntry::Separator;
    }
    let id = match item.str_member("id") {
        Some(s) => owned(s),
        None => String::new(),
    };
    let label = match item.str_member("label") {
        Some(s) => owned(s),
        None => String::new(),
    };
    let enabled = match item.bool_member("enabled") {
        Some(b) => b,
        None => true,
    };
    MenuEntry::Item { id, label, enabled }
}

/// Reads the entries of `tray.setMenu`.
pub fn tray_menu_items(perms: &Vec<String>, args: &Json) -> (r: Result<Vec<MenuEntry>, String>)
    ensures
        match tray_menu_spec(strs_view(perms@), args@) {
            Err(e) => r matches Err(m) && m@ == e,
            Ok(es) => r matches Ok(v) && entries_view(v@) == es,
        },
{
    match ensure_permission(perms, "tray") {
        Ok(()) => {},
        Err(e) => {
            return Err(e);
        },
    }
    let items = match args.get("items") {
        Some(Json::Array(items)) => items,
        _ => {
            return Err(owned("items required"));
        },
    };
    let ghost iv = crate::json::items_view(items@);
    proof {
        crate::json::lemma_items_view_index(items@);
    }
    let mut out: Vec<MenuEntry> = Vec::new();
    let mut i: usize = 0;
    while i < items.len()
        invariant
            i <= items@.len(),
            iv == crate::json::items_view(items@),
            iv.len() == items@.len(),
            forall|j: int| 0 <= j < items@.len() ==> #[trigger] iv[j] == items@[j]@,
            entries_view(out@) == iv.subrange(0, i as int).map_values(|it: JsonV| tray_entry(it)),
        decreases items@.len() - i,
    {
        let e = tray_entry_of(&items[i]);
        let ghost before = out@;
        let ghost ev = entry_view(e);
        out.push(e);
        assert(entries_view(out@) =~= entries_view(before).push(ev));
        assert(entries_view(out@) =~= iv.subrange(0, i + 1).map_values(|it: JsonV| tray_entry(it)));
        i += 1;
    }
    assert(iv.subrange(0, i as int) =~= iv);
    Ok(out)
}

/// The entries of `menu.context`, the first item without a label failing.
pub open spec fn context_entries(items: Seq<JsonV>) -> Result<Seq<MenuEntryV>, Seq<char>>
    decreases items.len(),
{
    if items.len() == 0 {
        Ok(Seq::empty())
    } else {
        match context_entries(items.drop_last()) {
            Err(e) => Err(e),
            Ok(es) => match context_entry(items.last(), (items.len() - 1) as nat) {
                Err(e) => Err(e),
                Ok(x) => Ok(es.push(x)),
            },
        }
    }
}

/// `menu.context` after its permission and window: the entries of `items` (required).
pub open spec fn context_menu_spec(args: JsonV) -> Result<Seq<MenuEntryV>, Seq<char>> {
    match items_arg(args) {
        None => Err("items array required"@),
        Some(items) => context_entries(items),
    }
}

fn context_entry_of(item: &Json, i: usize) -> (r: Result<MenuEntry, String>)
    ensures
        match context_entry(item@, i as nat) {
            Err(e) => r matches Err(m) && m@ == e,
            Ok(x) => r matches Ok(y) && entry_view(y) == x,
        },
{
    let sep = match item.bool_member("separator") {
        Some(b) => b,
        None => false,
    };
    if sep {
        return Ok(MenuEntry::Separator);
    }
    let id = match item.str_member("id") {
        Some(s) => owned(s),
        None => String::from_str("ctx:").concat(string_of(&decimal_chars(i as u64)).as_str()),
    };
    let label = match item.str_member("label") {
        Some(s) => owned(s),
        None => {
            return Err(owned("item.label required"));
        },
    };
    let enabled = match item.bool_member("enabled") {
        Some(b) => b,
        None => true,
    };
    Ok(MenuEntry::Item { id, label, enabled })
}

/// Reads the entries of `menu.context`.
pub fn context_menu_items(args: &Json) -> (r: Result<Vec<MenuEntry>, String>)
    ensures
        match context_menu_spec(args@) {
            Err(e) => r matches Err(m) && m@ == e,
            Ok(es) => r matches Ok(v) && entries_view(v@) == es,
        },
{
    let items = match args.get("items") {
        Some(Json::Array(items)) => items,
        _ => {
            return Err(owned("items array required"));
        },
    };
    let ghost iv = crate::json::items_view(items@);
    proof {
        crate::json::lemma_items_view_index(items@);
    }
    let mut out: Vec<MenuEntry> = Vec::new();
    let mut i: usize = 0;
    assert(iv.subrange(0, 0) =~= Seq::<JsonV>::empty());
    assert(entries_view(out@) =~= Seq::<MenuEntryV>::empty());
    while i < items.len()
        invariant
            i <= items@.len(),
            iv == crate::json::items_view(items@),
            iv.len() == items@.len(),
            forall|j: int| 0 <= j < items@.len() ==> #[trigger] iv[j] == items@[j]@,
            items_arg(args@) == Some(iv),
            context_entries(iv.subrange(0, i as int)) == Ok::<Seq<MenuEntryV>, Seq<char>>(
                entries_view(out@),
            ),
        decreases items@.len() - i,
    {
        let ghost after = iv.subrange(0, i + 1);
        assert(after.drop_last() =~= iv.subrange(0, i as int));
        assert(after.last() == items@[i as int]@);
        match context_entry_of(&items[i], i) {
            Err(e) => {
                proof {
                    assert(context_entries(after) == Err::<Seq<MenuEntryV>, Seq<char>>(e@));
                    lemma_context_entries_err(iv, i as int, iv.len() as int, e@);
                    assert(iv.subrange(0, iv.len() as int) =~= iv);
                }
                return Err(e);
            },
            Ok(x) => {
                let ghost before = out@;
                out.push(x);
                assert(entries_view(out@) =~= entries_view(before).push(entry_view(x)));
            },
        }
        i += 1;
    }
    assert(iv.subrange(0, i as int) =~= iv);
    Ok(out)
}

/// Once a prefix of the items fails, every longer prefix fails the same way.
proof fn lemma_context_entries_err(iv: Seq<JsonV>, i: int, k: int, e: Seq<char>)
    requires
        0 <= i < k <= iv.len(),
        context_entries(iv.subrange(0, i + 1)) == Err::<Seq<MenuEntryV>, Seq<char>>(e),
    ensures
        context_entries(iv.subrange(0, k)) == Err::<Seq<MenuEntryV>, Seq<char>>(e),
    decreases k - i,
{
    if k > i + 1 {
        lemma_context_entries_err(iv, i, k - 1, e);
        assert(iv.subrange(0, k).drop_last() =~= iv.subrange(0, k - 1));
    }
}

/// `tray.tooltip`: the `tray` permission, then `text` (required).
pub fn tray_tooltip_text(perms: &Vec<String>, args: &Json) -> (r: Result<String, String>)
    ensures
        match permission_check(strs_view(perms@), "tray"@) {
            Err(e) => r matches Err(m) && m@ == e,
            Ok(()) => text_result(r) == required_str_spec(args@, "text"@, "text required"@),
        },
{
    match ensure_permission(perms, "tray") {
        Ok(()) => {},
        Err(e) => {
            return Err(e);
        },
    }
    required_str(args, "text", "text required")
}

/// `tray.title`: the `tray` permission, then `text` (default empty).
pub fn tray_title_text(perms: &Vec<String>, args: &Json) -> (r: Result<String, String>)
    ensures
        match permission_check(strs_view(perms@), "tray"@) {
            Err(e) => r matches Err(m) && m@ == e,
            Ok(()) => r matches Ok(t) && t@ == str_or(args@, "text"@, Seq::empty()),
        },
{
    match ensure_permission(perms, "tray") {
        Ok(()) => {},
        Err(e) => {
            return Err(e);
        },
    }
    match args.str_member("text") {
        Some(t) => Ok(owned(t)),
        None => Ok(String::new()),
    }
}

/// `notification.show`: `title` (default `Tish Desktop`) and `body` (default empty).
pub fn notification_text(args: &Json) -> (r: (String, String))
    ensures
        r.0@ == str_or(args@, "title"@, "Tish Desktop"@),
        r.1@ == str_or(args@, "body"@, Seq::empty()),
{
    let title = str_arg_or(args, "title", "Tish Desktop");
    let body = match args.str_member("body") {
        Some(b) => owned(b),
        None => String::new(),
    };
    (title, body)
}

/// The notification permission as the OS reports it.
#[derive(Clone, Copy, Debug, PartialEq, Eq, Structural)]
pub enum PermissionKind {
    Granted,
    Denied,
    Prompt,
    PromptWithRationale,
}

/// The name the broker answers for a notification permission.
pub fn permission_state_str(p: PermissionKind) -> (r: &'static str)
    ensures
        r@ == match p {
            PermissionKind::Granted => "granted"@,
            PermissionKind::Denied => "denied"@,
            _ => "prompt"@,
        },
{
    match p {
        PermissionKind::Granted => "granted",
        PermissionKind::Denied => "denied",
        PermissionKind::Prompt | PermissionKind::PromptWithRationale => "prompt",
    }
}

} // verus!
