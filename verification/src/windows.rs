//! Window bookkeeping the host keeps beside its webviews: creation-ordered rows for the Dock
//! menu, the last focused window, and the decisions behind focusing, closing and naming windows.

use vstd::prelude::*;

use crate::broker::{kept_entries, SurfaceInfo, SurfaceInfoV, SurfaceKind, SurfaceRegistry};
use crate::config::{opt_text, WindowSpec};
use crate::json::{Json, JsonV};
use crate::text::{ascii_lower, chars_of, decimal, decimal_chars, has_prefix, lower_ascii, starts_with, str_eq, string_of};

verus! {

pub open spec fn label_view(o: Option<String>) -> Option<Seq<char>> {
    match o {
        Some(s) => Some(s@),
        None => None,
    }
}

pub open spec fn row_view(r: (String, String)) -> (Seq<char>, Seq<char>) {
    (r.0@, r.1@)
}

/// Open windows in creation order, `(label, title)`, and the last focused label.
pub struct ManagerState {
    last_focused: Option<String>,
    rows: Vec<(String, String)>,
}

pub open spec fn distinct_labels(rows: Seq<(Seq<char>, Seq<char>)>) -> bool {
    forall|i: int, j: int| 0 <= i < j < rows.len() ==> (#[trigger] rows[i]).0 != (#[trigger] rows[j]).0
}

impl ManagerState {
    #[verifier::type_invariant]
    spec fn inv(self) -> bool {
        distinct_labels(self.rows@.map_values(|r: (String, String)| row_view(r)))
    }

    /// The rows, `(label, title)`, in creation order.
    pub closed spec fn rows_view(&self) -> Seq<(Seq<char>, Seq<char>)> {
        self.rows@.map_values(|r: (String, String)| row_view(r))
    }

    pub closed spec fn focused_view(&self) -> Option<Seq<char>> {
        label_view(self.last_focused)
    }

    /// No windows and nothing focused.
    pub fn new() -> (r: ManagerState)
        ensures
            r.rows_view() == Seq::<(Seq<char>, Seq<char>)>::empty(),
            r.focused_view() is None,
    {
        let r = ManagerState { last_focused: None, rows: Vec::new() };
        assert(r.rows@.map_values(|r: (String, String)| row_view(r)) =~= Seq::<
            (Seq<char>, Seq<char>),
        >::empty());
        r
    }
}

/// Index of the row labelled `label`.
fn row_index(rows: &Vec<(String, String)>, label: &str) -> (r: Option<usize>)
    ensures
        match r {
            Some(i) => i < rows@.len() && rows@[i as int].0@ == label@,
            None => forall|j: int| 0 <= j < rows@.len() ==> (#[trigger] rows@[j]).0@ != label@,
        },
{
    let mut i: usize = 0;
    while i < rows.len()
        invariant
            i <= rows@.len(),
            forall|j: int| 0 <= j < i ==> (#[trigger] rows@[j]).0@ != label@,
        decreases rows@.len() - i,
    {
        if str_eq(rows[i].0.as_str(), label) {
            return Some(i);
        }
        i += 1;
    }
    None
}

/// Records a newly created window: it becomes the focused one if none is, and gets a row
/// (titled `title`) unless one with its label exists.
pub fn register_label(mgr: &mut ManagerState, label: &str, title: &str)
    ensures
        distinct_labels(final(mgr).rows_view()),
        final(mgr).focused_view() == (if old(mgr).focused_view() is None {
            Some(label@)
        } else {
            old(mgr).focused_view()
        }),
        final(mgr).rows_view() == (if exists|i: int|
            0 <= i < old(mgr).rows_view().len() && (#[trigger] old(mgr).rows_view()[i]).0 == label@ {
            old(mgr).rows_view()
        } else {
            old(mgr).rows_view().push((label@, title@))
        }),
{
    proof {
        use_type_invariant(&*mgr);
    }
    if mgr.last_focused.is_none() {
        mgr.last_focused = Some(owned_str(label));
    }
    let found = row_index(&mgr.rows, label);
    match found {
        Some(i) => {
            proof {
                assert(mgr.rows@.map_values(|r: (String, String)| row_view(r))[i as int].0 == label@);
            }
        },
        None => {
            let ghost before = mgr.rows@;
            let mut rows: Vec<(String, String)> = Vec::new();
            std::mem::swap(&mut rows, &mut mgr.rows);
            rows.push((owned_str(label), owned_str(title)));
            proof {
                let vb = before.map_values(|r: (String, String)| row_view(r));
                let va = rows@.map_values(|r: (String, String)| row_view(r));
                assert(va =~= vb.push((label@, title@)));
                assert forall|i: int, j: int| 0 <= i < j < va.len() implies (#[trigger] va[i]).0 != (
                #[trigger] va[j]).0 by {
                    if j == vb.len() {
                        assert(before[i].0@ != label@);
                    } else {
                        assert(va[i] == vb[i]);
                        assert(va[j] == vb[j]);
                    }
                }
                assert(!exists|i: int| 0 <= i < vb.len() && (#[trigger] vb[i]).0 == label@) by {
                    if exists|i: int| 0 <= i < vb.len() && (#[trigger] vb[i]).0 == label@ {
                        let i = choose|i: int| 0 <= i < vb.len() && (#[trigger] vb[i]).0 == label@;
                        assert(before[i].0@ != label@);
                    }
                }
            }
            mgr.rows = rows;
        },
    }
    proof {
        use_type_invariant(&*mgr);
    }
}

fn owned_str(s: &str) -> (r: String)
    ensures
        r@ == s@,
{
    String::from_str(s)
}

/// Keeps the row title in sync when the host retitles a window.
pub fn note_title(mgr: &mut ManagerState, label: &str, title: &str)
    ensures
        distinct_labels(final(mgr).rows_view()),
        final(mgr).focused_view() == old(mgr).focused_view(),
        final(mgr).rows_view() == (if exists|i: int|
            0 <= i < old(mgr).rows_view().len() && (#[trigger] old(mgr).rows_view()[i]).0 == label@ {
            old(mgr).rows_view().update(
                choose|i: int|
                    0 <= i < old(mgr).rows_view().len() && (#[trigger] old(mgr).rows_view()[i]).0
                        == label@,
                (label@, title@),
            )
        } else {
            old(mgr).rows_view()
        }),
{
    proof {
        use_type_invariant(&*mgr);
    }
    let ghost vb = mgr.rows@.map_values(|r: (String, String)| row_view(r));
    match row_index(&mgr.rows, label) {
        Some(i) => {
            let mut rows: Vec<(String, String)> = Vec::new();
            std::mem::swap(&mut rows, &mut mgr.rows);
            let (l, _) = rows.remove(i);
            rows.insert(i, (l, owned_str(title)));
            proof {
                let va = rows@.map_values(|r: (String, String)| row_view(r));
                assert(vb[i as int].0 == label@);
                let c = choose|c: int| 0 <= c < vb.len() && (#[trigger] vb[c]).0 == label@;
                if c != i {
                    if c < i {
                        assert(vb[c].0 != vb[i as int].0);
                    } else {
                        assert(vb[i as int].0 != vb[c].0);
                    }
                }
                assert(va =~= vb.update(i as int, (label@, title@)));
                assert forall|a: int, b: int| 0 <= a < b < va.len() implies (#[trigger] va[a]).0 != (
                #[trigger] va[b]).0 by {
                    assert(va[a].0 == vb[a].0);
                    assert(va[b].0 == vb[b].0);
                }
            }
            mgr.rows = rows;
        },
        None => {
            proof {
                if exists|c: int| 0 <= c < vb.len() && (#[trigger] vb[c]).0 == label@ {
                    let c = choose|c: int| 0 <= c < vb.len() && (#[trigger] vb[c]).0 == label@;
                    assert(mgr.rows@[c].0@ != label@);
                }
            }
        },
    }
    proof {
        use_type_invariant(&*mgr);
    }
}

/// The Dock-menu snapshot: `(label, title, focused)` per window, in creation order.
pub fn window_rows(mgr: &ManagerState) -> (r: Vec<(String, String, bool)>)
    ensures
        r@.len() == mgr.rows_view().len(),
        forall|i: int|
            0 <= i < r@.len() ==> (#[trigger] r@[i]).0@ == mgr.rows_view()[i].0 && r@[i].1@
                == mgr.rows_view()[i].1 && r@[i].2 == (mgr.focused_view() == Some(
                mgr.rows_view()[i].0,
            )),
{
    let mut out: Vec<(String, String, bool)> = Vec::new();
    let mut i: usize = 0;
    while i < mgr.rows.len()
        invariant
            i <= mgr.rows@.len(),
            out@.len() == i,
            forall|j: int|
                0 <= j < i ==> (#[trigger] out@[j]).0@ == mgr.rows@[j].0@ && out@[j].1@
                    == mgr.rows@[j].1@ && out@[j].2 == (label_view(mgr.last_focused) == Some(
                    mgr.rows@[j].0@,
                )),
        decreases mgr.rows@.len() - i,
    {
        let focused = match &mgr.last_focused {
            Some(f) => str_eq(f.as_str(), mgr.rows[i].0.as_str()),
            None => false,
        };
        out.push((mgr.rows[i].0.clone(), mgr.rows[i].1.clone(), focused));
        i += 1;
    }
    out
}

/// Marks `label` as the last focused window.
pub fn note_focused(mgr: &mut ManagerState, label: &str)
    ensures
        distinct_labels(final(mgr).rows_view()),
        final(mgr).focused_view() == Some(label@),
        final(mgr).rows_view() == old(mgr).rows_view(),
{
    proof {
        use_type_invariant(&*mgr);
    }
    mgr.last_focused = Some(owned_str(label));
    proof {
        use_type_invariant(&*mgr);
    }
}

/// The last focused window.
pub fn last_focused_label(mgr: &ManagerState) -> (r: Option<String>)
    ensures
        label_view(r) == mgr.focused_view(),
{
    match &mgr.last_focused {
        Some(l) => Some(l.clone()),
        None => None,
    }
}

/// Drops every surface whose id or label is `label`.
pub fn unregister_surface(surfaces: &mut SurfaceRegistry, label: &str)
    ensures
        final(surfaces).entries() == kept_entries(old(surfaces).entries(), Some(label@), Some(label@)),
{
    surfaces.unregister_label(label);
}

/// A window was destroyed: its surfaces, its row, and its focus are forgotten.
pub fn on_destroyed(mgr: &mut ManagerState, surfaces: &mut SurfaceRegistry, label: &str)
    ensures
        distinct_labels(final(mgr).rows_view()),
        final(surfaces).entries() == kept_entries(old(surfaces).entries(), Some(label@), Some(label@)),
        final(mgr).focused_view() == (if old(mgr).focused_view() == Some(label@) {
            None
        } else {
            old(mgr).focused_view()
        }),
        final(mgr).rows_view() == old(mgr).rows_view().filter(
            |r: (Seq<char>, Seq<char>)| r.0 != label@,
        ),
{
    proof {
        use_type_invariant(&*mgr);
    }
    unregister_surface(surfaces, label);
    let clear = match &mgr.last_focused {
        Some(f) => str_eq(f.as_str(), label),
        None => false,
    };
    if clear {
        mgr.last_focused = None;
    }
    let ghost vb = mgr.rows@.map_values(|r: (String, String)| row_view(r));
    let ghost pred = |r: (Seq<char>, Seq<char>)| r.0 != label@;
    let mut pending: Vec<(String, String)> = Vec::new();
    std::mem::swap(&mut pending, &mut mgr.rows);
    let ghost orig = pending@;
    let mut kept: Vec<(String, String)> = Vec::new();
    let mut n: usize = 0;
    let len0 = pending.len();
    assert(vb.subrange(0, 0).filter(pred) =~= Seq::<(Seq<char>, Seq<char>)>::empty());
    while pending.len() > 0
        invariant
            n + pending@.len() == orig.len(),
            orig.len() == len0,
            vb == orig.map_values(|r: (String, String)| row_view(r)),
            distinct_labels(vb),
            pred == (|r: (Seq<char>, Seq<char>)| r.0 != label@),
            pending@ == orig.subrange(n as int, orig.len() as int),
            kept@.map_values(|r: (String, String)| row_view(r)) == vb.subrange(0, n as int).filter(pred),
        decreases pending.len(),
    {
        let item = pending.remove(0);
        let ghost kv = kept@.map_values(|r: (String, String)| row_view(r));
        proof {
            assert(item == orig[n as int]);
            assert(vb.subrange(0, n + 1) =~= vb.subrange(0, n as int).push(row_view(item)));
            vb.subrange(0, n as int).lemma_filter_push(row_view(item), pred);
        }
        if !str_eq(item.0.as_str(), label) {
            kept.push(item);
            proof {
                assert(kept@.map_values(|r: (String, String)| row_view(r)) =~= kv.push(row_view(item)));
            }
        } else {
            proof {
                assert(kept@.map_values(|r: (String, String)| row_view(r)) =~= kv);
            }
        }
        n += 1;
        proof {
            assert(pending@ =~= orig.subrange(n as int, orig.len() as int));
        }
    }
    proof {
        assert(vb.subrange(0, n as int) =~= vb);
        let kf = kept@.map_values(|r: (String, String)| row_view(r));
        assert forall|i: int, j: int| 0 <= i < j < kf.len() implies (#[trigger] kf[i]).0 != (
        #[trigger] kf[j]).0 by {
            lemma_filter_distinct(vb, pred, i, j);
        }
    }
    mgr.rows = kept;
    proof {
        use_type_invariant(&*mgr);
    }
}

/// Filtering keeps labels distinct.
proof fn lemma_filter_distinct(
    s: Seq<(Seq<char>, Seq<char>)>,
    pred: spec_fn((Seq<char>, Seq<char>)) -> bool,
    i: int,
    j: int,
)
    requires
        distinct_labels(s),
        0 <= i < j < s.filter(pred).len(),
    ensures
        s.filter(pred)[i].0 != s.filter(pred)[j].0,
    decreases s.len(),
{
    reveal(Seq::filter);
    if s.len() > 0 {
        let s1 = s.drop_last();
        assert(distinct_labels(s1)) by {
            assert forall|a: int, b: int| 0 <= a < b < s1.len() implies (#[trigger] s1[a]).0 != (
            #[trigger] s1[b]).0 by {
                assert(s1[a] == s[a]);
                assert(s1[b] == s[b]);
            }
        }
        if pred(s.last()) {
            assert(s.filter(pred) == s1.filter(pred).push(s.last()));
            if j < s1.filter(pred).len() {
                lemma_filter_distinct(s1, pred, i, j);
            } else {
                let x = s1.filter(pred)[i];
                assert(s1.filter(pred)[i] == x);
                assert(s1.filter(pred).contains(x));
                s1.lemma_filter_contains_rev(pred, x);
                assert(s1.contains(x));
                let k = choose|k: int| 0 <= k < s1.len() && s1[k] == x;
                assert(s.filter(pred)[j] == s.last());
                assert(s[k] == s1[k]);
                assert(s[k].0 != s[s.len() - 1].0);
            }
        } else {
            assert(s.filter(pred) == s1.filter(pred));
            lemma_filter_distinct(s1, pred, i, j);
        }
    }
}

} // verus!

verus! {

/// Remembers the invoking webview (`None` clears it).
pub fn set_caller_label(slot: &mut Option<String>, label: Option<&str>)
    ensures
        label_view(*final(slot)) == match label {
            Some(l) => Some(l@),
            None => None,
        },
{
    *slot = match label {
        Some(l) => Some(owned_str(l)),
        None => None,
    };
}

/// Enters a dispatch on behalf of `caller`: the invoking webview becomes `caller` when one is
/// named (else the one remembered stays), and the one remembered before is answered so that
/// `leave_caller` can put it back.
pub fn enter_caller(slot: &mut Option<String>, caller: Option<&str>) -> (prev: Option<String>)
    ensures
        label_view(prev) == label_view(*old(slot)),
        label_view(*final(slot)) == match caller {
            Some(c) => Some(c@),
            None => label_view(*old(slot)),
        },
{
    let prev = caller_label(slot);
    if caller.is_some() {
        set_caller_label(slot, caller);
    }
    prev
}

/// Leaves a dispatch: the invoking webview remembered before it is remembered again.
pub fn leave_caller(slot: &mut Option<String>, prev: Option<String>)
    ensures
        label_view(*final(slot)) == label_view(prev),
{
    *slot = prev;
}

/// The invoking webview, if one is remembered.
pub fn caller_label(slot: &Option<String>) -> (r: Option<String>)
    ensures
        label_view(r) == label_view(*slot),
{
    match slot {
        Some(l) => Some(l.clone()),
        None => None,
    }
}

pub open spec fn opt_str_view(o: Option<&str>) -> Option<Seq<char>> {
    match o {
        Some(s) => Some(s@),
        None => None,
    }
}

/// The window a command targets: `args.label` when it is a string, else the caller.
pub open spec fn target_label(args: JsonV, caller: Option<Seq<char>>) -> Option<Seq<char>> {
    match crate::json::str_member(args, "label"@) {
        Some(l) => Some(l),
        None => caller,
    }
}

/// Resolves the target window's label; never falls back to `"main"` unless that is the caller.
pub fn resolve_label(args: &Json, caller: Option<&str>) -> (r: Result<String, String>)
    ensures
        match target_label(args@, opt_str_view(caller)) {
            Some(l) => r matches Ok(s) && s@ == l,
            None => r matches Err(e) && e@ == "window label required (no invoking window)"@,
        },
{
    match args.str_member("label") {
        Some(l) => Ok(owned_str(l)),
        None => match caller {
            Some(c) => Ok(owned_str(c)),
            None => Err(owned_str("window label required (no invoking window)")),
        },
    }
}

/// Broker `window.close`: closing `main` is refused unless the caller is `main`.
pub fn close_allowed(label: &str, caller: Option<&str>) -> (r: Result<(), String>)
    ensures
        (label@ == "main"@ && opt_str_view(caller) != Some("main"@)) ==> (r matches Err(e) && e@
            == "refusing to close main from another window"@),
        !(label@ == "main"@ && opt_str_view(caller) != Some("main"@)) ==> r is Ok,
{
    let caller_is_main = match caller {
        Some(c) => str_eq(c, "main"),
        None => false,
    };
    if str_eq(label, "main") && !caller_is_main {
        Err(owned_str("refusing to close main from another window"))
    } else {
        Ok(())
    }
}

/// The window `focus_last` brings forward: the last focused one, else the first listed.
pub fn focus_last_target(last: Option<String>, labels: &Vec<String>) -> (r: Result<String, String>)
    ensures
        match label_view(last) {
            Some(l) => r matches Ok(s) && s@ == l,
            None => if labels@.len() > 0 {
                r matches Ok(s) && s@ == labels@[0]@
            } else {
                r matches Err(e) && e@ == "no windows"@
            },
        },
{
    match last {
        Some(l) => Ok(l),
        None => if labels.len() > 0 {
            Ok(labels[0].clone())
        } else {
            Err(owned_str("no windows"))
        },
    }
}

/// `"win-<n>"`.
pub open spec fn win_label(n: nat) -> Seq<char> {
    "win-"@ + decimal(n)
}

pub open spec fn label_taken(taken: Seq<String>, l: Seq<char>) -> bool {
    exists|i: int| 0 <= i < taken.len() && (#[trigger] taken[i])@ == l
}

fn is_taken(taken: &Vec<String>, l: &str) -> (r: bool)
    ensures
        r == label_taken(taken@, l@),
{
    let mut i: usize = 0;
    while i < taken.len()
        invariant
            i <= taken@.len(),
            forall|j: int| 0 <= j < i ==> (#[trigger] taken@[j])@ != l@,
        decreases taken@.len() - i,
    {
        if str_eq(taken[i].as_str(), l) {
            return true;
        }
        i += 1;
    }
    false
}

/// The first free label `win-2`, `win-3`, … `win-10000`; `None` when all of those are taken
/// (the host then names the window after the clock).
pub fn next_window_label(taken: &Vec<String>) -> (r: Option<String>)
    ensures
        match r {
            Some(s) => exists|n: nat|
                2 <= n <= 10000 && s@ == win_label(n) && !label_taken(taken@, win_label(n))
                    && forall|m: nat| 2 <= m < n ==> label_taken(taken@, #[trigger] win_label(m)),
            None => forall|m: nat| 2 <= m <= 10000 ==> label_taken(taken@, #[trigger] win_label(m)),
        },
{
    let mut n: u64 = 2;
    while n <= 10000
        invariant
            2 <= n <= 10001,
            forall|m: nat| 2 <= m < n ==> label_taken(taken@, #[trigger] win_label(m)),
        decreases 10001 - n,
    {
        let label = String::from_str("win-").concat(string_of(&decimal_chars(n)).as_str());
        if !is_taken(taken, label.as_str()) {
            assert(label@ == win_label(n as nat));
            return Some(label);
        }
        n += 1;
    }
    None
}

/// Registers the surface of a window: its id (else its label), its kind (`"native"`, `"web"`,
/// anything else a webview), no platform, and its label.
pub fn register_surface(surfaces: &mut SurfaceRegistry, label: &str, id: Option<&str>, kind: Option<&str>)
    ensures
        final(surfaces).entries() == old(surfaces).entries().insert(
            surface_id(label@, opt_str_view(id)),
            SurfaceInfoV {
                id: surface_id(label@, opt_str_view(id)),
                kind: surface_kind(opt_str_view(kind)),
                platform: None,
                label: Some(label@),
            },
        ),
{
    let sid = match id {
        Some(i) => owned_str(i),
        None => owned_str(label),
    };
    let k = match kind {
        Some(k) => if str_eq(k, "native") {
            SurfaceKind::Native
        } else if str_eq(k, "web") {
            SurfaceKind::Web
        } else {
            SurfaceKind::Webview
        },
        None => SurfaceKind::Webview,
    };
    surfaces.register(SurfaceInfo { id: sid, kind: k, platform: None, label: Some(owned_str(label)) });
}

pub open spec fn surface_id(label: Seq<char>, id: Option<Seq<char>>) -> Seq<char> {
    match id {
        Some(i) => i,
        None => label,
    }
}

pub open spec fn surface_kind(kind: Option<Seq<char>>) -> SurfaceKind {
    if kind == Some("native"@) {
        SurfaceKind::Native
    } else if kind == Some("web"@) {
        SurfaceKind::Web
    } else {
        SurfaceKind::Webview
    }
}

/// macOS title bar style of a window.
#[derive(Debug, Clone, Copy, PartialEq, Eq, Structural)]
pub enum TitleBarStyle {
    Visible,
    Transparent,
    Overlay,
}

/// `overlay` and `visible` (any ASCII case) name those styles; anything else is transparent.
pub fn parse_title_bar_style(s: &str) -> (r: TitleBarStyle)
    ensures
        r == (if ascii_lower(s@) == "overlay"@ {
            TitleBarStyle::Overlay
        } else if ascii_lower(s@) == "visible"@ {
            TitleBarStyle::Visible
        } else {
            TitleBarStyle::Transparent
        }),
{
    let lower = string_of(&lower_ascii(&chars_of(s)));
    if str_eq(lower.as_str(), "overlay") {
        TitleBarStyle::Overlay
    } else if str_eq(lower.as_str(), "visible") {
        TitleBarStyle::Visible
    } else {
        TitleBarStyle::Transparent
    }
}

/// Where a window's webview loads from.
#[derive(Debug, PartialEq, Eq)]
pub enum WindowUrl {
    /// An `http(s)://` address.
    External(String),
    /// A path inside the app's bundled assets.
    App(String),
}

/// `http://` and `https://` addresses load externally; any other url is an app path; no url
/// is `index.html`.
pub fn window_url(url: Option<&str>) -> (r: WindowUrl)
    ensures
        match url {
            Some(u) => if has_prefix(u@, "http://"@) || has_prefix(u@, "https://"@) {
                r matches WindowUrl::External(s) && s@ == u@
            } else {
                r matches WindowUrl::App(s) && s@ == u@
            },
            None => r matches WindowUrl::App(s) && s@ == "index.html"@,
        },
{
    match url {
        Some(u) => {
            let c = chars_of(u);
            if starts_with(&c, &chars_of("http://")) || starts_with(&c, &chars_of("https://")) {
                WindowUrl::External(owned_str(u))
            } else {
                WindowUrl::App(owned_str(u))
            }
        },
        None => WindowUrl::App(owned_str("index.html")),
    }
}

/// A lower-case hex digit.
pub open spec fn hex_lower(d: u32) -> char {
    if d < 10 {
        (d + 48) as char
    } else {
        (d + 87) as char
    }
}

/// How a JSON string literal writes `c`: `"` and `\` escaped with a backslash, the control
/// characters with a short form (`\b`, `\t`, `\n`, `\f`, `\r`) escaped so, the other
/// control characters as `\u00` and two lower-case hex digits; every other character as is.
pub open spec fn json_escaped_char(c: char) -> Seq<char> {
    if c == '"' {
        seq!['\\', '"']
    } else if c == '\\' {
        seq!['\\', '\\']
    } else if c == '\u{08}' {
        seq!['\\', 'b']
    } else if c == '\t' {
        seq!['\\', 't']
    } else if c == '\n' {
        seq!['\\', 'n']
    } else if c == '\u{0C}' {
        seq!['\\', 'f']
    } else if c == '\r' {
        seq!['\\', 'r']
    } else if (c as u32) < 0x20 {
        seq!['\\', 'u', '0', '0', hex_lower((c as u32) / 16), hex_lower((c as u32) % 16)]
    } else {
        seq![c]
    }
}

/// The characters of `s`, each written as a JSON string literal writes it.
pub open spec fn json_escaped(s: Seq<char>) -> Seq<char>
    decreases s.len(),
{
    if s.len() == 0 {
        Seq::empty()
    } else {
        json_escaped(s.drop_last()) + json_escaped_char(s.last())
    }
}

/// What `serde_json::to_string` makes of the string `s`: `s` escaped, between double quotes.
pub open spec fn json_quoted(s: Seq<char>) -> Seq<char> {
    seq!['"'] + json_escaped(s) + seq!['"']
}

/// Trusted: `serde_json::to_string` on a string: a double quote, the string with `"`, `\` and
/// the control characters below 0x20 escaped as its escape table and `write_char_escape` do,
/// and a closing double quote (`json_quoted`). It does not
/// fail on a string: it fails only when a `Serialize` impl does or a map has non-string keys,
/// and a string is written with the escaping formatter into a `Vec`, whose writes do not fail.
#[verifier::external_body]
fn quote_json(s: &str) -> (r: Option<String>)
    ensures
        r is Some,
        r matches Some(q) ==> q@ == json_quoted(s@),
{
    serde_json::to_string(s).ok()
}

/// The script a window runs before its page: it marks the page as hosted and names the window.
pub open spec fn init_script_spec(quoted_label: Seq<char>) -> Seq<char> {
    "window.__TISH_DESKTOP__ = true; window.__TISH_WINDOW_LABEL__ = "@ + quoted_label + ";"@
}

/// The script a window runs before its page.
pub fn init_script(label: &str) -> (r: String)
    ensures
        r@ == init_script_spec(json_quoted(label@)),
{
    let quoted = match quote_json(label) {
        Some(q) => q,
        None => String::from_str("\"main\""),
    };
    String::from_str("window.__TISH_DESKTOP__ = true; window.__TISH_WINDOW_LABEL__ = ").concat(
        quoted.as_str(),
    ).concat(";")
}

/// How a window is built.
pub struct WindowPlan {
    pub label: String,
    pub url: WindowUrl,
    pub title: String,
    pub width_bits: u64,
    pub height_bits: u64,
    pub decorations: bool,
    pub transparent: bool,
    /// Reveal the window when its page first finishes loading.
    pub show_on_load: bool,
    pub init_script: String,
    pub title_bar: TitleBarStyle,
    pub hidden_title: bool,
    /// The title of its row in the Dock menu.
    pub row_title: String,
    pub surface_id: String,
    pub surface_kind: SurfaceKind,
}

/// Plans a window from its spec. When other windows exist it is always shown and takes the
/// transparency of the first configured window. A spec without a label is refused.
pub fn window_plan(spec: WindowSpec, existing: usize, first_transparent: Option<bool>) -> (r: Result<WindowPlan, String>)
    ensures
        spec.label@.len() == 0 ==> (r matches Err(e) && e@ == "label required"@),
        spec.label@.len() > 0 ==> (r matches Ok(p) && {
            &&& p.label@ == spec.label@
            &&& p.show_on_load == (existing > 0 || spec.visible)
            &&& p.transparent == (if existing > 0 {
                match first_transparent {
                    Some(t) => t,
                    None => spec.transparent,
                }
            } else {
                spec.transparent
            })
            &&& p.title@ == (match spec.title {
                Some(t) => t@,
                None => "Tish Desktop"@,
            })
            &&& p.row_title@ == (match spec.title {
                Some(t) => t@,
                None => spec.label@,
            })
            &&& p.width_bits == spec.width_bits
            &&& p.height_bits == spec.height_bits
            &&& p.decorations == spec.decorations
            &&& p.hidden_title == spec.hidden_title
            &&& p.title_bar == (if ascii_lower(spec.title_bar_style@) == "overlay"@ {
                TitleBarStyle::Overlay
            } else if ascii_lower(spec.title_bar_style@) == "visible"@ {
                TitleBarStyle::Visible
            } else {
                TitleBarStyle::Transparent
            })
            &&& p.init_script@ == init_script_spec(json_quoted(spec.label@))
            &&& p.surface_id@ == surface_id(spec.label@, opt_text(spec.id))
            &&& p.surface_kind == surface_kind(opt_text(spec.kind))
            &&& match spec.url {
                Some(u) => if has_prefix(u@, "http://"@) || has_prefix(u@, "https://"@) {
                    p.url matches WindowUrl::External(s) && s@ == u@
                } else {
                    p.url matches WindowUrl::App(s) && s@ == u@
                },
                None => p.url matches WindowUrl::App(s) && s@ == "index.html"@,
            }
        }),
{
    let mut visible = spec.visible;
    let mut transparent = spec.transparent;
    if existing > 0 {
        visible = true;
        match first_transparent {
            Some(t) => {
                transparent = t;
            },
            None => {},
        }
    }
    let label_chars = chars_of(spec.label.as_str());
    if label_chars.len() == 0 {
        return Err(owned_str("label required"));
    }
    let url = match &spec.url {
        Some(u) => window_url(Some(u.as_str())),
        None => window_url(None),
    };
    let title = match &spec.title {
        Some(t) => t.clone(),
        None => owned_str("Tish Desktop"),
    };
    let row_title = match &spec.title {
        Some(t) => t.clone(),
        None => spec.label.clone(),
    };
    let script = init_script(spec.label.as_str());
    let title_bar = parse_title_bar_style(spec.title_bar_style.as_str());
    let sid = match &spec.id {
        Some(i) => i.clone(),
        None => spec.label.clone(),
    };
    let kind = match &spec.kind {
        Some(k) => if str_eq(k.as_str(), "native") {
            SurfaceKind::Native
        } else if str_eq(k.as_str(), "web") {
            SurfaceKind::Web
        } else {
            SurfaceKind::Webview
        },
        None => SurfaceKind::Webview,
    };
    Ok(
        WindowPlan {
            label: spec.label,
            url,
            title,
            width_bits: spec.width_bits,
            height_bits: spec.height_bits,
            decorations: spec.decorations,
            transparent,
            show_on_load: visible,
            init_script: script,
            title_bar,
            hidden_title: spec.hidden_title,
            row_title,
            surface_id: sid,
            surface_kind: kind,
        },
    )
}

} // verus!
