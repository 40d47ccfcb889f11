//! Shared microfrontend state (`state.*`) and the stable "unsupported" reply.

use vstd::prelude::*;

use vstd::string::StringExecFns;

use crate::text::{before_first, chars_of, has_prefix, split_first, starts_with, str_eq, string_of};
use crate::json::{
    json_string, object_of, opt_str_json, opt_string_json, member, member_or, items_view,
    lemma_items_view_index,
    distinct_keys, find_member, merge_json, merge_spec, json_obj, json_u64, json_view, lemma_members_view_dom,
    lemma_members_view_pairs, lemma_members_view_push, member_views, members_view, owned,
    str_member, take_member, Json, JsonNumber, JsonV,
};

verus! {

/// The revision that follows `r` (the counter wraps around at `u64::MAX`).
pub open spec fn next_revision(r: u64) -> u64 {
    if r == u64::MAX {
        0
    } else {
        (r + 1) as u64
    }
}

/// Reply to `state.get` / `state.set` / `state.patch`.
pub open spec fn state_reply(path: Seq<char>, value: JsonV, revision: u64) -> JsonV {
    json_obj(
        seq![
            ("ok"@, JsonV::Bool(true)),
            ("path"@, JsonV::Str(path)),
            ("value"@, value),
            ("revision"@, json_u64(revision)),
        ],
    )
}

/// The document under `path`, or an empty object when there is none.
pub open spec fn doc_or_empty_object(docs: Map<Seq<char>, JsonV>, path: Seq<char>) -> JsonV {
    if docs.contains_key(path) {
        docs[path]
    } else {
        JsonV::Object(Map::empty())
    }
}

/// Shared microfrontend state: documents stored under paths, with a revision counter that
/// every write advances. It is not persisted (that is `store.*`).
pub struct SharedState {
    data: Vec<(String, Json)>,
    revision: u64,
}

impl SharedState {
    #[verifier::type_invariant]
    spec fn inv(self) -> bool {
        distinct_keys(self.data@)
    }

    /// The stored documents, by path.
    pub closed spec fn docs(&self) -> Map<Seq<char>, JsonV> {
        members_view(self.data@)
    }

    /// The current revision.
    pub closed spec fn rev(&self) -> u64 {
        self.revision
    }

    /// An empty state at revision 0.
    pub fn new() -> (s: SharedState)
        ensures
            s.docs() == Map::<Seq<char>, JsonV>::empty(),
            s.rev() == 0,
    {
        let s = SharedState { data: Vec::new(), revision: 0 };
        assert(members_view(s.data@) =~= Map::<Seq<char>, JsonV>::empty());
        s
    }

    pub fn revision(&self) -> (r: u64)
        ensures
            r == self.rev(),
    {
        self.revision
    }

    /// The document under `path` (null when there is none), with the current revision.
    pub fn get(&self, path: &str) -> (r: (Json, u64))
        ensures
            r.0@ == (if self.docs().contains_key(path@) {
                self.docs()[path@]
            } else {
                JsonV::Null
            }),
            r.1 == self.rev(),
    {
        let rev = self.revision;
        match find_member(&self.data, path) {
            Some(i) => (self.data[i].1.deep_clone(), rev),
            None => (Json::Null, rev),
        }
    }

    /// Stores `value` under `path` and advances the revision; replies with the new revision.
    pub fn set(&mut self, path: String, value: Json) -> (r: Json)
        ensures
            final(self).docs() == old(self).docs().insert(path@, value@),
            final(self).rev() == next_revision(old(self).rev()),
            r@ == state_reply(path@, value@, final(self).rev()),
    {
        proof {
            use_type_invariant(&*self);
        }
        let copy = value.deep_clone();
        let key = path.clone();
        self.store(key, copy);
        let rev = self.bump();
        let mut o: Vec<(String, Json)> = Vec::new();
        o.push((owned("ok"), Json::Bool(true)));
        o.push((owned("path"), Json::Str(path)));
        o.push((owned("value"), value));
        o.push((owned("revision"), Json::Number(JsonNumber::PosInt(rev))));
        proof {
            lemma_members_view_pairs(o@);
            assert(member_views(o@) =~= seq![
                ("ok"@, JsonV::Bool(true)),
                ("path"@, JsonV::Str(path@)),
                ("value"@, value@),
                ("revision"@, json_u64(rev)),
            ]);
        }
        Json::Object(o)
    }

    /// Deep-merges `patch` into the document under `path` (an empty object when there is none),
    /// stores the result and advances the revision. Never fails.
    pub fn patch(&mut self, path: String, patch: Json) -> (r: Result<Json, String>)
        ensures
            final(self).docs() == old(self).docs().insert(
                path@,
                merge_spec(doc_or_empty_object(old(self).docs(), path@), patch@),
            ),
            final(self).rev() == next_revision(old(self).rev()),
            match r {
                Ok(v) => v@ == state_reply(
                    path@,
                    merge_spec(doc_or_empty_object(old(self).docs(), path@), patch@),
                    final(self).rev(),
                ),
                Err(_) => false,
            },
    {
        let current = match find_member(&self.data, path.as_str()) {
            Some(i) => self.data[i].1.deep_clone(),
            None => Json::Object(Vec::new()),
        };
        proof {
            assert(members_view(Seq::<(String, Json)>::empty()) =~= Map::<Seq<char>, JsonV>::empty());
        }
        let merged = match merge_json(current, patch) {
            Ok(m) => m,
            Err(e) => {
                return Err(e);
            },
        };
        let copy = merged.deep_clone();
        let key = path.clone();
        self.store(key, copy);
        let rev = self.bump();
        let mut o: Vec<(String, Json)> = Vec::new();
        o.push((owned("ok"), Json::Bool(true)));
        o.push((owned("path"), Json::Str(path)));
        o.push((owned("value"), merged));
        o.push((owned("revision"), Json::Number(JsonNumber::PosInt(rev))));
        proof {
            lemma_members_view_pairs(o@);
            assert(member_views(o@) =~= seq![
                ("ok"@, JsonV::Bool(true)),
                ("path"@, JsonV::Str(path@)),
                ("value"@, merged@),
                ("revision"@, json_u64(rev)),
            ]);
        }
        Ok(Json::Object(o))
    }

    /// The paths that hold a document, each once.
    pub fn keys(&self) -> (r: Vec<String>)
        ensures
            forall|i: int| 0 <= i < r@.len() ==> self.docs().contains_key(#[trigger] r@[i]@),
            forall|k: Seq<char>|
                #![trigger self.docs().contains_key(k)]
                self.docs().contains_key(k) ==> exists|i: int| 0 <= i < r@.len() && r@[i]@ == k,
            forall|i: int, j: int| 0 <= i < j < r@.len() ==> (#[trigger] r@[i])@ != (#[trigger] r@[j])@,
    {
        proof {
            use_type_invariant(self);
        }
        let mut out: Vec<String> = Vec::new();
        let mut i: usize = 0;
        while i < self.data.len()
            invariant
                i <= self.data@.len(),
                distinct_keys(self.data@),
                out@.len() == i,
                forall|j: int| 0 <= j < i ==> (#[trigger] out@[j])@ == self.data@[j].0@,
            decreases self.data@.len() - i,
        {
            out.push(self.data[i].0.clone());
            i += 1;
        }
        proof {
            assert forall|i: int| 0 <= i < out@.len() implies self.docs().contains_key(
                #[trigger] out@[i]@,
            ) by {
                lemma_members_view_dom(self.data@, out@[i]@);
            }
            assert forall|k: Seq<char>| #![trigger self.docs().contains_key(k)]
                self.docs().contains_key(k) implies exists|i: int|
                0 <= i < out@.len() && out@[i]@ == k by {
                lemma_members_view_dom(self.data@, k);
                let i = choose|i: int| 0 <= i < self.data@.len() && (#[trigger] self.data@[i]).0@ == k;
                assert(out@[i]@ == k);
            }
            assert forall|i: int, j: int| 0 <= i < j < out@.len() implies (#[trigger] out@[i])@
                != (#[trigger] out@[j])@ by {
                assert(self.data@[i].0@ != self.data@[j].0@);
            }
        }
        out
    }

    /// Removes the document under `path`. Reports whether there was one, and the revision, which
    /// advances only when something was removed.
    pub fn delete(&mut self, path: &str) -> (r: (bool, u64))
        ensures
            r.0 == old(self).docs().contains_key(path@),
            final(self).docs() == old(self).docs().remove(path@),
            final(self).rev() == (if r.0 {
                next_revision(old(self).rev())
            } else {
                old(self).rev()
            }),
            r.1 == final(self).rev(),
    {
        proof {
            use_type_invariant(&*self);
        }
        let key = owned(path);
        let mut data: Vec<(String, Json)> = Vec::new();
        std::mem::swap(&mut data, &mut self.data);
        let removed = take_member(&mut data, &key);
        self.data = data;
        match removed {
            Some(_) => {
                let rev = self.bump();
                (true, rev)
            },
            None => (false, self.revision),
        }
    }

    /// Replaces the document under `key` by `value`; the revision is left as it is.
    fn store(&mut self, key: String, value: Json)
        ensures
            final(self).docs() == old(self).docs().insert(key@, value@),
            final(self).rev() == old(self).rev(),
    {
        proof {
            use_type_invariant(&*self);
        }
        let mut data: Vec<(String, Json)> = Vec::new();
        std::mem::swap(&mut data, &mut self.data);
        let _ = take_member(&mut data, &key);
        proof {
            lemma_members_view_dom(data@, key@);
            lemma_members_view_push(data@, (key, value));
            assert forall|i: int, j: int| 0 <= i < j < data@.push((key, value)).len() implies (
            #[trigger] data@.push((key, value))[i]).0@ != (#[trigger] data@.push(
                (key, value),
            )[j]).0@ by {
                if j == data@.len() {
                    assert(data@.push((key, value))[i] == data@[i]);
                } else {
                    assert(data@.push((key, value))[i] == data@[i]);
                    assert(data@.push((key, value))[j] == data@[j]);
                }
            }
        }
        data.push((key, value));
        self.data = data;
    }

    /// Advances the revision and returns the new one.
    fn bump(&mut self) -> (r: u64)
        ensures
            final(self).docs() == old(self).docs(),
            final(self).rev() == next_revision(old(self).rev()),
            r == final(self).rev(),
    {
        proof {
            use_type_invariant(&*self);
        }
        if self.revision == u64::MAX {
            self.revision = 0;
        } else {
            self.revision = self.revision + 1;
        }
        self.revision
    }
}

} // verus!

verus! {

impl Default for SharedState {
    fn default() -> (s: SharedState)
        ensures
            s.docs() == Map::<Seq<char>, JsonV>::empty(),
            s.rev() == 0,
    {
        SharedState::new()
    }
}

/// How a surface is rendered.
#[derive(Debug, Clone, Copy, PartialEq, Eq, Structural)]
pub enum SurfaceKind {
    Native,
    Webview,
    Web,
}

impl Default for SurfaceKind {
    fn default() -> (r: SurfaceKind)
        ensures
            r == SurfaceKind::Webview,
    {
        SurfaceKind::Webview
    }
}

/// A registered surface (window, native root, web page).
#[derive(Debug, Clone)]
pub struct SurfaceInfo {
    pub id: String,
    pub kind: SurfaceKind,
    pub platform: Option<String>,
    pub label: Option<String>,
}

pub struct SurfaceInfoV {
    pub id: Seq<char>,
    pub kind: SurfaceKind,
    pub platform: Option<Seq<char>>,
    pub label: Option<Seq<char>>,
}

pub open spec fn opt_view(o: Option<String>) -> Option<Seq<char>> {
    match o {
        Some(s) => Some(s@),
        None => None,
    }
}

impl View for SurfaceInfo {
    type V = SurfaceInfoV;

    open spec fn view(&self) -> SurfaceInfoV {
        SurfaceInfoV {
            id: self.id@,
            kind: self.kind,
            platform: opt_view(self.platform),
            label: opt_view(self.label),
        }
    }
}

pub fn copy_opt(o: &Option<String>) -> (r: Option<String>)
    ensures
        opt_view(r) == opt_view(*o),
{
    match o {
        Some(s) => Some(s.clone()),
        None => None,
    }
}

impl SurfaceInfo {
    /// A copy with the same view.
    pub fn duplicate(&self) -> (r: SurfaceInfo)
        ensures
            r@ == self@,
    {
        SurfaceInfo {
            id: self.id.clone(),
            kind: self.kind,
            platform: copy_opt(&self.platform),
            label: copy_opt(&self.label),
        }
    }
}

/// Surfaces by id (a later entry with the same id would win; the registry keeps ids distinct).
pub open spec fn surface_map(s: Seq<SurfaceInfo>) -> Map<Seq<char>, SurfaceInfoV>
    decreases s.len(),
{
    if s.len() == 0 {
        Map::empty()
    } else {
        surface_map(s.drop_last()).insert(s.last().id@, s.last()@)
    }
}

pub open spec fn distinct_ids(s: Seq<SurfaceInfo>) -> bool {
    forall|i: int, j: int| 0 <= i < j < s.len() ==> (#[trigger] s[i]).id@ != (#[trigger] s[j]).id@
}

pub proof fn lemma_surface_map_push(s: Seq<SurfaceInfo>, x: SurfaceInfo)
    ensures
        surface_map(s.push(x)) == surface_map(s).insert(x.id@, x@),
{
    assert(s.push(x).drop_last() =~= s);
}

/// Each entry is stored under its own id.
pub proof fn lemma_surface_map_ids(s: Seq<SurfaceInfo>)
    ensures
        forall|k: Seq<char>| #[trigger] surface_map(s).contains_key(k) ==> surface_map(s)[k].id == k,
    decreases s.len(),
{
    if s.len() > 0 {
        lemma_surface_map_ids(s.drop_last());
    }
}

pub proof fn lemma_surface_map_dom(s: Seq<SurfaceInfo>, k: Seq<char>)
    ensures
        surface_map(s).contains_key(k) <==> exists|i: int| 0 <= i < s.len() && (#[trigger] s[i]).id@ == k,
    decreases s.len(),
{
    if s.len() > 0 {
        let s1 = s.drop_last();
        lemma_surface_map_dom(s1, k);
        if surface_map(s).contains_key(k) && s.last().id@ != k {
            let j = choose|j: int| 0 <= j < s1.len() && (#[trigger] s1[j]).id@ == k;
            assert(s[j] == s1[j]);
        }
        if exists|i: int| 0 <= i < s.len() && (#[trigger] s[i]).id@ == k {
            let i = choose|i: int| 0 <= i < s.len() && (#[trigger] s[i]).id@ == k;
            if i < s.len() - 1 {
                assert(s1[i] == s[i]);
            }
        }
    }
}

pub proof fn lemma_surface_map_at(s: Seq<SurfaceInfo>, i: int)
    requires
        distinct_ids(s),
        0 <= i < s.len(),
    ensures
        surface_map(s).contains_key(s[i].id@),
        surface_map(s)[s[i].id@] == s[i]@,
    decreases s.len(),
{
    let s1 = s.drop_last();
    if i < s.len() - 1 {
        assert(s1[i] == s[i]);
        assert(distinct_ids(s1)) by {
            assert forall|a: int, b: int| 0 <= a < b < s1.len() implies (#[trigger] s1[a]).id@
                != (#[trigger] s1[b]).id@ by {
                assert(s1[a] == s[a]);
                assert(s1[b] == s[b]);
            }
        }
        lemma_surface_map_at(s1, i);
        assert(s[i].id@ != s.last().id@);
    }
}

/// The entries that survive dropping those whose id is `id` or whose label is `label`.
pub open spec fn kept_entries(
    m: Map<Seq<char>, SurfaceInfoV>,
    id: Option<Seq<char>>,
    label: Option<Seq<char>>,
) -> Map<Seq<char>, SurfaceInfoV> {
    Map::new(|k: Seq<char>| m.contains_key(k) && !drops(m[k], id, label), |k: Seq<char>| m[k])
}

/// Registry of the surfaces that are open, by id.
pub struct SurfaceRegistry {
    surfaces: Vec<SurfaceInfo>,
}

impl Default for SurfaceRegistry {
    fn default() -> (r: SurfaceRegistry)
        ensures
            r.entries() == Map::<Seq<char>, SurfaceInfoV>::empty(),
    {
        SurfaceRegistry::new()
    }
}

impl SurfaceRegistry {
    #[verifier::type_invariant]
    spec fn inv(self) -> bool {
        distinct_ids(self.surfaces@)
    }

    pub closed spec fn entries(&self) -> Map<Seq<char>, SurfaceInfoV> {
        surface_map(self.surfaces@)
    }

    pub fn new() -> (r: SurfaceRegistry)
        ensures
            r.entries() == Map::<Seq<char>, SurfaceInfoV>::empty(),
    {
        SurfaceRegistry { surfaces: Vec::new() }
    }

    /// Adds `info`, replacing any surface with the same id.
    pub fn register(&mut self, info: SurfaceInfo)
        ensures
            final(self).entries() == old(self).entries().insert(info.id@, info@),
    {
        proof {
            use_type_invariant(&*self);
            lemma_surface_map_ids(self.surfaces@);
        }
        let _ = self.drop_where(Some(info.id.as_str()), None);
        proof {
            use_type_invariant(&*self);
            let s = self.surfaces@;
            lemma_surface_map_dom(s, info.id@);
            lemma_surface_map_push(s, info);
            assert(kept_entries(old(self).entries(), Some(info.id@), None).insert(info.id@, info@)
                =~= old(self).entries().insert(info.id@, info@));
            let s2 = s.push(info);
            assert forall|i: int, j: int| 0 <= i < j < s2.len() implies (#[trigger] s2[i]).id@
                != (#[trigger] s2[j]).id@ by {
                assert(s2[i] == s[i]);
                if j < s.len() {
                    assert(s2[j] == s[j]);
                } else {
                    if s[i].id@ == info.id@ {
                        assert(surface_map(s).contains_key(info.id@));
                    }
                }
            }
        }
        let mut v: Vec<SurfaceInfo> = Vec::new();
        std::mem::swap(&mut v, &mut self.surfaces);
        v.push(info);
        self.surfaces = v;
    }

    /// Removes the surface `id`; reports whether there was one.
    pub fn unregister(&mut self, id: &str) -> (r: bool)
        ensures
            r == old(self).entries().contains_key(id@),
            final(self).entries() == old(self).entries().remove(id@),
    {
        proof {
            use_type_invariant(&*self);
            lemma_surface_map_ids(self.surfaces@);
        }
        let r = self.drop_where(Some(id), None);
        proof {
            assert(kept_entries(old(self).entries(), Some(id@), None) =~= old(self).entries().remove(
                id@,
            ));
            if old(self).entries().contains_key(id@) {
                assert(drops(old(self).entries()[id@], Some(id@), None));
            }
        }
        r
    }

    /// Drops every surface whose id is `label` or whose label is `label`.
    pub fn unregister_label(&mut self, label: &str)
        ensures
            final(self).entries() == kept_entries(old(self).entries(), Some(label@), Some(label@)),
    {
        let _ = self.drop_where(Some(label), Some(label));
    }

    /// Every registered surface, each once.
    pub fn list(&self) -> (r: Vec<SurfaceInfo>)
        ensures
            lists_surfaces(r@.map_values(|s: SurfaceInfo| s@), self.entries()),
    {
        proof {
            use_type_invariant(self);
        }
        let mut out: Vec<SurfaceInfo> = Vec::new();
        let mut i: usize = 0;
        while i < self.surfaces.len()
            invariant
                i <= self.surfaces@.len(),
                distinct_ids(self.surfaces@),
                out@.len() == i,
                forall|j: int| 0 <= j < i ==> (#[trigger] out@[j])@ == self.surfaces@[j]@,
            decreases self.surfaces@.len() - i,
        {
            out.push(self.surfaces[i].duplicate());
            i += 1;
        }
        proof {
            let s = self.surfaces@;
            let ov = out@.map_values(|x: SurfaceInfo| x@);
            assert forall|i: int| 0 <= i < ov.len() implies self.entries().contains_key(
                (#[trigger] ov[i]).id,
            ) && self.entries()[ov[i].id] == ov[i] by {
                assert(ov[i] == out@[i]@);
                lemma_surface_map_at(s, i);
            }
            assert forall|k: Seq<char>| #[trigger] self.entries().contains_key(k) implies exists|i: int|
                0 <= i < ov.len() && ov[i].id == k by {
                lemma_surface_map_dom(s, k);
                let i = choose|i: int| 0 <= i < s.len() && (#[trigger] s[i]).id@ == k;
                assert(ov[i] == out@[i]@);
            }
            assert forall|a: int, b: int| 0 <= a < b < ov.len() implies (#[trigger] ov[a]).id
                != (#[trigger] ov[b]).id by {
                assert(ov[a] == out@[a]@ && ov[b] == out@[b]@);
                assert(s[a].id@ != s[b].id@);
            }
        }
        out
    }

    /// The surface `id`, if registered.
    pub fn get(&self, id: &str) -> (r: Option<SurfaceInfo>)
        ensures
            match r {
                Some(s) => self.entries().contains_key(id@) && s@ == self.entries()[id@],
                None => !self.entries().contains_key(id@),
            },
    {
        proof {
            use_type_invariant(self);
        }
        let mut i: usize = 0;
        while i < self.surfaces.len()
            invariant
                i <= self.surfaces@.len(),
                distinct_ids(self.surfaces@),
                forall|j: int| 0 <= j < i ==> (#[trigger] self.surfaces@[j]).id@ != id@,
            decreases self.surfaces@.len() - i,
        {
            if crate::text::str_eq(self.surfaces[i].id.as_str(), id) {
                proof {
                    lemma_surface_map_at(self.surfaces@, i as int);
                }
                return Some(self.surfaces[i].duplicate());
            }
            i += 1;
        }
        proof {
            lemma_surface_map_dom(self.surfaces@, id@);
        }
        None
    }

    /// Drops every surface whose id is `id` or whose label is `label`; reports whether one was.
    fn drop_where(&mut self, id: Option<&str>, label: Option<&str>) -> (removed: bool)
        ensures
            final(self).entries() == kept_entries(old(self).entries(), id_view(id), id_view(label)),
            removed == exists|k: Seq<char>|
                old(self).entries().contains_key(k) && #[trigger] drops(
                    old(self).entries()[k],
                    id_view(id),
                    id_view(label),
                ),
    {
        proof {
            use_type_invariant(&*self);
        }
        let ghost idv = id_view(id);
        let ghost lv = id_view(label);
        let ghost orig = self.surfaces@;
        let mut pending: Vec<SurfaceInfo> = Vec::new();
        std::mem::swap(&mut pending, &mut self.surfaces);
        let mut kept: Vec<SurfaceInfo> = Vec::new();
        let mut removed = false;
        let mut n: usize = 0;
        let len0 = pending.len();
        proof {
            assert(surface_map(orig.subrange(0, 0)) =~= Map::<Seq<char>, SurfaceInfoV>::empty());
            assert(kept_entries(Map::<Seq<char>, SurfaceInfoV>::empty(), idv, lv) =~= Map::<
                Seq<char>,
                SurfaceInfoV,
            >::empty());
        }
        while pending.len() > 0
            invariant
                n + pending@.len() == orig.len(),
                orig.len() == len0,
                distinct_ids(orig),
                idv == id_view(id),
                lv == id_view(label),
                pending@ == orig.subrange(n as int, orig.len() as int),
                surface_map(kept@) == kept_entries(surface_map(orig.subrange(0, n as int)), idv, lv),
                distinct_ids(kept@),
                removed == exists|k: Seq<char>|
                    surface_map(orig.subrange(0, n as int)).contains_key(k) && #[trigger] drops(
                        surface_map(orig.subrange(0, n as int))[k],
                        idv,
                        lv,
                    ),
            decreases pending.len(),
        {
            let ghost prefix = orig.subrange(0, n as int);
            let item = pending.remove(0);
            assert(item == orig[n as int]);
            proof {
                assert(orig.subrange(0, n + 1) =~= prefix.push(item));
                lemma_surface_map_push(prefix, item);
                lemma_surface_map_dom(prefix, item.id@);
                if surface_map(prefix).contains_key(item.id@) {
                    let j = choose|j: int| 0 <= j < prefix.len() && (#[trigger] prefix[j]).id@ == item.id@;
                    assert(prefix[j] == orig[j]);
                }
            }
            let drop = item.matches(id, label);
            if drop {
                removed = true;
                proof {
                    let m2 = surface_map(orig.subrange(0, n + 1));
                    assert(kept_entries(m2, idv, lv) =~= kept_entries(surface_map(prefix), idv, lv));
                    assert(m2.contains_key(item.id@) && drops(m2[item.id@], idv, lv));
                }
            } else {
                proof {
                    let m2 = surface_map(orig.subrange(0, n + 1));
                    lemma_surface_map_dom(kept@, item.id@);
                    if exists|i: int| 0 <= i < kept@.len() && (#[trigger] kept@[i]).id@ == item.id@ {
                        assert(surface_map(kept@).contains_key(item.id@));
                    }
                    lemma_surface_map_push(kept@, item);
                    assert(kept_entries(m2, idv, lv) =~= surface_map(kept@).insert(item.id@, item@));
                    let kk = kept@.push(item);
                    assert forall|i: int, j: int| 0 <= i < j < kk.len() implies (
                    #[trigger] kk[i]).id@ != (#[trigger] kk[j]).id@ by {
                        assert(kk[i] == kept@[i]);
                        if j < kept@.len() {
                            assert(kk[j] == kept@[j]);
                        }
                    }
                    if removed {
                        let k = choose|k: Seq<char>|
                            surface_map(prefix).contains_key(k) && #[trigger] drops(
                                surface_map(prefix)[k],
                                idv,
                                lv,
                            );
                        assert(m2.contains_key(k) && drops(m2[k], idv, lv));
                    }
                    if exists|k: Seq<char>| m2.contains_key(k) && #[trigger] drops(m2[k], idv, lv) {
                        let k = choose|k: Seq<char>| m2.contains_key(k) && #[trigger] drops(m2[k], idv, lv);
                        assert(k != item.id@);
                        assert(surface_map(prefix).contains_key(k) && drops(
                            surface_map(prefix)[k],
                            idv,
                            lv,
                        ));
                    }
                }
                kept.push(item);
            }
            n += 1;
            proof {
                assert(pending@ =~= orig.subrange(n as int, orig.len() as int));
            }
        }
        proof {
            assert(orig.subrange(0, n as int) =~= orig);
        }
        self.surfaces = kept;
        removed
    }
}

pub open spec fn id_view(s: Option<&str>) -> Option<Seq<char>> {
    match s {
        Some(t) => Some(t@),
        None => None,
    }
}

/// A surface is dropped when its id is `id`, or its label is `label`.
pub open spec fn drops(s: SurfaceInfoV, id: Option<Seq<char>>, label: Option<Seq<char>>) -> bool {
    (id is Some && s.id == id->0) || (label is Some && s.label == label)
}

impl SurfaceInfo {
    fn matches(&self, id: Option<&str>, label: Option<&str>) -> (r: bool)
        ensures
            r == drops(self@, id_view(id), id_view(label)),
    {
        let by_id = match id {
            Some(i) => crate::text::str_eq(self.id.as_str(), i),
            None => false,
        };
        let by_label = match (label, &self.label) {
            (Some(l), Some(mine)) => crate::text::str_eq(mine.as_str(), l),
            _ => false,
        };
        by_id || by_label
    }
}

} // verus!

verus! {

/// `"<capability> is not supported on <platform>"`.
pub open spec fn unsupported_message(capability: Seq<char>, platform: Seq<char>) -> Seq<char> {
    capability + " is not supported on "@ + platform
}

/// The stable reply for a capability that a platform does not offer.
pub open spec fn unsupported_spec(capability: Seq<char>, platform: Seq<char>) -> JsonV {
    json_obj(
        seq![
            ("ok"@, JsonV::Bool(false)),
            ("code"@, JsonV::Str("unsupported"@)),
            ("capability"@, JsonV::Str(capability)),
            ("platform"@, JsonV::Str(platform)),
            ("message"@, JsonV::Str(unsupported_message(capability, platform))),
        ],
    )
}

/// `{ ok: false, code: "unsupported", capability, platform, message }`.
pub fn unsupported_on(capability: &str, platform: &str) -> (r: Json)
    ensures
        r@ == unsupported_spec(capability@, platform@),
{
    let message = String::from_str(capability).concat(" is not supported on ").concat(platform);
    let mut o: Vec<(String, Json)> = Vec::new();
    o.push((owned("ok"), Json::Bool(false)));
    o.push((owned("code"), json_string("unsupported")));
    o.push((owned("capability"), json_string(capability)));
    o.push((owned("platform"), json_string(platform)));
    o.push((owned("message"), Json::Str(message)));
    let r = object_of(o);
    assert(member_views(o@) =~= seq![
        ("ok"@, JsonV::Bool(false)),
        ("code"@, JsonV::Str("unsupported"@)),
        ("capability"@, JsonV::Str(capability@)),
        ("platform"@, JsonV::Str(platform@)),
        ("message"@, JsonV::Str(unsupported_message(capability@, platform@))),
    ]);
    r
}

/// The unsupported reply on the current platform.
pub fn unsupported(capability: &str) -> (r: Json)
    ensures
        r@ == unsupported_spec(capability@, "current"@),
{
    unsupported_on(capability, "current")
}

/// Payload of the `state:changed` event.
pub open spec fn state_changed_spec(path: Seq<char>, value: JsonV, revision: u64, source: Seq<char>) -> JsonV {
    json_obj(
        seq![
            ("path"@, JsonV::Str(path)),
            ("value"@, value),
            ("revision"@, json_u64(revision)),
            ("source"@, JsonV::Str(source)),
        ],
    )
}

pub fn state_changed_payload(path: &str, value: &Json, revision: u64, source: &str) -> (r: Json)
    ensures
        r@ == state_changed_spec(path@, value@, revision, source@),
{
    let mut o: Vec<(String, Json)> = Vec::new();
    o.push((owned("path"), json_string(path)));
    o.push((owned("value"), value.deep_clone()));
    o.push((owned("revision"), Json::Number(JsonNumber::PosInt(revision))));
    o.push((owned("source"), json_string(source)));
    let r = object_of(o);
    assert(member_views(o@) =~= seq![
        ("path"@, JsonV::Str(path@)),
        ("value"@, value@),
        ("revision"@, json_u64(revision)),
        ("source"@, JsonV::Str(source@)),
    ]);
    r
}

/// The serialized name of a surface kind.
pub open spec fn kind_name(k: SurfaceKind) -> Seq<char> {
    match k {
        SurfaceKind::Native => "native"@,
        SurfaceKind::Webview => "webview"@,
        SurfaceKind::Web => "web"@,
    }
}

/// The JSON form of a surface: `{ id, kind, platform, label }`.
pub open spec fn surface_json_spec(s: SurfaceInfoV) -> JsonV {
    json_obj(
        seq![
            ("id"@, JsonV::Str(s.id)),
            ("kind"@, JsonV::Str(kind_name(s.kind))),
            ("platform"@, opt_str_json(s.platform)),
            ("label"@, opt_str_json(s.label)),
        ],
    )
}

pub fn kind_str(k: SurfaceKind) -> (r: &'static str)
    ensures
        r@ == kind_name(k),
{
    match k {
        SurfaceKind::Native => "native",
        SurfaceKind::Webview => "webview",
        SurfaceKind::Web => "web",
    }
}

impl SurfaceInfo {
    pub fn to_json(&self) -> (r: Json)
        ensures
            r@ == surface_json_spec(self@),
    {
        let mut o: Vec<(String, Json)> = Vec::new();
        o.push((owned("id"), json_string(self.id.as_str())));
        o.push((owned("kind"), json_string(kind_str(self.kind))));
        o.push((owned("platform"), opt_string_json(&self.platform)));
        o.push((owned("label"), opt_string_json(&self.label)));
        let r = object_of(o);
        assert(member_views(o@) =~= seq![
            ("id"@, JsonV::Str(self@.id)),
            ("kind"@, JsonV::Str(kind_name(self@.kind))),
            ("platform"@, opt_str_json(self@.platform)),
            ("label"@, opt_str_json(self@.label)),
        ]);
        r
    }
}

} // verus!

verus! {

/// `ks` lists the keys of `docs`, each once.
pub open spec fn lists_keys(ks: Seq<Seq<char>>, docs: Map<Seq<char>, JsonV>) -> bool {
    &&& forall|i: int| 0 <= i < ks.len() ==> docs.contains_key(#[trigger] ks[i])
    &&& forall|k: Seq<char>| #[trigger] docs.contains_key(k) ==> exists|i: int| 0 <= i < ks.len() && ks[i] == k
    &&& forall|i: int, j: int| 0 <= i < j < ks.len() ==> #[trigger] ks[i] != #[trigger] ks[j]
}

/// `items` lists the registered surfaces, each once.
pub open spec fn lists_surfaces(items: Seq<SurfaceInfoV>, entries: Map<Seq<char>, SurfaceInfoV>) -> bool {
    &&& forall|i: int|
        0 <= i < items.len() ==> entries.contains_key((#[trigger] items[i]).id) && entries[items[i].id]
            == items[i]
    &&& forall|k: Seq<char>| #[trigger] entries.contains_key(k) ==> exists|i: int| 0 <= i < items.len() && items[i].id == k
    &&& forall|i: int, j: int| 0 <= i < j < items.len() ==> (#[trigger] items[i]).id != (#[trigger] items[j]).id
}

/// The path a `state.*` call names: `path`, else `key`, when that member is a string.
pub open spec fn path_of(args: JsonV) -> Option<Seq<char>> {
    match member_or(args, "path"@, "key"@) {
        Some(JsonV::Str(s)) => Some(s),
        _ => None,
    }
}

/// The `value` member, or null.
pub open spec fn value_arg(args: JsonV) -> JsonV {
    match member(args, "value"@) {
        Some(v) => v,
        None => JsonV::Null,
    }
}

/// The `value` (else `patch`) member, or an empty object.
pub open spec fn patch_arg(args: JsonV) -> JsonV {
    match member_or(args, "value"@, "patch"@) {
        Some(v) => v,
        None => JsonV::Object(Map::empty()),
    }
}

pub open spec fn doc_or_null(docs: Map<Seq<char>, JsonV>, path: Seq<char>) -> JsonV {
    if docs.contains_key(path) {
        docs[path]
    } else {
        JsonV::Null
    }
}

pub open spec fn delete_reply(deleted: bool, revision: u64) -> JsonV {
    json_obj(
        seq![
            ("ok"@, JsonV::Bool(true)),
            ("deleted"@, JsonV::Bool(deleted)),
            ("revision"@, json_u64(revision)),
        ],
    )
}

pub open spec fn keys_reply(ks: Seq<Seq<char>>) -> JsonV {
    json_obj(
        seq![
            ("ok"@, JsonV::Bool(true)),
            ("keys"@, JsonV::Array(ks.map_values(|k: Seq<char>| JsonV::Str(k)))),
        ],
    )
}

pub open spec fn surfaces_reply(items: Seq<SurfaceInfoV>) -> JsonV {
    json_obj(
        seq![
            ("ok"@, JsonV::Bool(true)),
            ("surfaces"@, JsonV::Array(items.map_values(|s: SurfaceInfoV| surface_json_spec(s)))),
        ],
    )
}

/// Reads the path argument of a `state.*` call.
pub fn path_arg(args: &Json) -> (r: Result<String, String>)
    ensures
        match path_of(args@) {
            Some(p) => r matches Ok(s) && s@ == p,
            None => r matches Err(e) && e@ == "path required"@,
        },
{
    match args.get_or("path", "key") {
        Some(v) => match v.as_str() {
            Some(s) => Ok(owned(s)),
            None => Err(owned("path required")),
        },
        None => Err(owned("path required")),
    }
}

/// The answer to `state.keys`.
fn keys_json(state: &SharedState) -> (r: Json)
    ensures
        exists|ks: Seq<Seq<char>>| lists_keys(ks, state.docs()) && r@ == keys_reply(ks),
{
    let keys = state.keys();
    let mut items: Vec<Json> = Vec::new();
    let mut i: usize = 0;
    while i < keys.len()
        invariant
            i <= keys@.len(),
            items@.len() == i,
            forall|j: int| 0 <= j < i ==> (#[trigger] items@[j])@ == JsonV::Str(keys@[j]@),
        decreases keys@.len() - i,
    {
        items.push(Json::Str(keys[i].clone()));
        i += 1;
    }
    let ghost ks = keys@.map_values(|s: String| s@);
    proof {
        lemma_items_view_index(items@);
        assert(items_view(items@) =~= ks.map_values(|k: Seq<char>| JsonV::Str(k)));
        assert forall|k: Seq<char>| #[trigger] state.docs().contains_key(k) implies exists|i: int|
            0 <= i < ks.len() && ks[i] == k by {
            let i = choose|i: int| 0 <= i < keys@.len() && keys@[i]@ == k;
            assert(ks[i] == k);
        }
        assert forall|i: int, j: int| 0 <= i < j < ks.len() implies #[trigger] ks[i] != #[trigger] ks[j] by {
            assert(keys@[i]@ != keys@[j]@);
        }
    }
    let mut o: Vec<(String, Json)> = Vec::new();
    o.push((owned("ok"), Json::Bool(true)));
    o.push((owned("keys"), Json::Array(items)));
    let r = object_of(o);
    assert(member_views(o@) =~= seq![
        ("ok"@, JsonV::Bool(true)),
        ("keys"@, JsonV::Array(ks.map_values(|k: Seq<char>| JsonV::Str(k)))),
    ]);
    assert(lists_keys(ks, state.docs()));
    assert(r@ == keys_reply(ks));
    r
}

/// The answer to `state.surfaces`.
fn surfaces_json(surfaces: &SurfaceRegistry) -> (r: Json)
    ensures
        exists|items: Seq<SurfaceInfoV>| lists_surfaces(items, surfaces.entries()) && r@ == surfaces_reply(items),
{
    let list = surfaces.list();
    let mut items: Vec<Json> = Vec::new();
    let mut i: usize = 0;
    while i < list.len()
        invariant
            i <= list@.len(),
            items@.len() == i,
            forall|j: int| 0 <= j < i ==> (#[trigger] items@[j])@ == surface_json_spec(list@[j]@),
        decreases list@.len() - i,
    {
        items.push(list[i].to_json());
        i += 1;
    }
    let ghost vs = list@.map_values(|s: SurfaceInfo| s@);
    proof {
        lemma_items_view_index(items@);
        assert(items_view(items@) =~= vs.map_values(|s: SurfaceInfoV| surface_json_spec(s)));
        assert forall|k: Seq<char>| #[trigger] surfaces.entries().contains_key(k) implies exists|i: int|
            0 <= i < vs.len() && vs[i].id == k by {
            let i = choose|i: int| 0 <= i < list@.len() && list@[i].id@ == k;
            assert(vs[i].id == k);
        }
        assert forall|i: int, j: int| 0 <= i < j < vs.len() implies (#[trigger] vs[i]).id != (
        #[trigger] vs[j]).id by {
            assert(list@[i].id@ != list@[j].id@);
        }
        assert forall|i: int| 0 <= i < vs.len() implies surfaces.entries().contains_key(
            (#[trigger] vs[i]).id,
        ) && surfaces.entries()[vs[i].id] == vs[i] by {
            assert(vs[i] == list@[i]@);
        }
    }
    let mut o: Vec<(String, Json)> = Vec::new();
    o.push((owned("ok"), Json::Bool(true)));
    o.push((owned("surfaces"), Json::Array(items)));
    let r = object_of(o);
    assert(member_views(o@) =~= seq![
        ("ok"@, JsonV::Bool(true)),
        ("surfaces"@, JsonV::Array(vs.map_values(|s: SurfaceInfoV| surface_json_spec(s)))),
    ]);
    assert(lists_surfaces(vs, surfaces.entries()));
    assert(r@ == surfaces_reply(vs));
    r
}

} // verus!

verus! {

pub open spec fn same_state(a: SharedState, b: SharedState) -> bool {
    a.docs() == b.docs() && a.rev() == b.rev()
}

/// The commands `dispatch_state` answers.
pub open spec fn is_state_command(cmd: Seq<char>) -> bool {
    cmd == "state.get"@ || cmd == "state.set"@ || cmd == "state.patch"@ || cmd == "state.keys"@
        || cmd == "state.delete"@ || cmd == "state.surfaces"@
}

/// The value of a reply: `Ok` documents and `Err` messages by their views.
pub open spec fn reply_of(r: Option<Result<Json, String>>) -> Option<Result<JsonV, Seq<char>>> {
    match r {
        Some(Ok(v)) => Some(Ok(v@)),
        Some(Err(e)) => Some(Err(e@)),
        None => None,
    }
}

/// One `state.*` step: how `dispatch_state` moves the state from `old` to `new` and what it
/// answers (`r`) for `cmd` with `args`.
pub open spec fn state_step(
    old: SharedState,
    new: SharedState,
    surfaces: SurfaceRegistry,
    cmd: Seq<char>,
    args: JsonV,
    r: Option<Result<Json, String>>,
) -> bool {
    &&& (!is_state_command(cmd) ==> r is None && same_state(old, new))
    &&& ((cmd == "state.get"@ || cmd == "state.set"@ || cmd == "state.patch"@ || cmd
            == "state.delete"@) && path_of(args) is None ==> reply_of(r) == Some(
            Err::<JsonV, Seq<char>>("path required"@),
        ) && same_state(old, new))
    &&& (cmd == "state.get"@ && path_of(args) is Some ==> same_state(old, new)
            && reply_of(r) == Some(
            Ok::<JsonV, Seq<char>>(
                state_reply(
                    path_of(args)->0,
                    doc_or_null(old.docs(), path_of(args)->0),
                    old.rev(),
                ),
            ),
        ))
    &&& (cmd == "state.set"@ && path_of(args) is Some ==> new.docs() == old.docs().insert(path_of(args)->0, value_arg(args)) && new.rev() == next_revision(
            old.rev(),
        ) && reply_of(r) == Some(
            Ok::<JsonV, Seq<char>>(
                state_reply(path_of(args)->0, value_arg(args), new.rev()),
            ),
        ))
    &&& (cmd == "state.patch"@ && path_of(args) is Some ==> new.docs() == old.docs().insert(
            path_of(args)->0,
            merge_spec(doc_or_empty_object(old.docs(), path_of(args)->0), patch_arg(args)),
        ) && new.rev() == next_revision(old.rev()) && reply_of(r) == Some(
            Ok::<JsonV, Seq<char>>(
                state_reply(
                    path_of(args)->0,
                    merge_spec(
                        doc_or_empty_object(old.docs(), path_of(args)->0),
                        patch_arg(args),
                    ),
                    new.rev(),
                ),
            ),
        ))
    &&& (cmd == "state.delete"@ && path_of(args) is Some ==> new.docs() == old.docs().remove(path_of(args)->0) && new.rev() == (if old.docs().contains_key(path_of(args)->0) {
            next_revision(old.rev())
        } else {
            old.rev()
        }) && reply_of(r) == Some(
            Ok::<JsonV, Seq<char>>(
                delete_reply(
                    old.docs().contains_key(path_of(args)->0),
                    new.rev(),
                ),
            ),
        ))
    &&& (cmd == "state.keys"@ ==> same_state(old, new) && exists|ks: Seq<Seq<char>>|
        lists_keys(ks, old.docs()) && reply_of(r) == Some(Ok::<JsonV, Seq<char>>(keys_reply(ks))))
    &&& (cmd == "state.surfaces"@ ==> same_state(old, new) && exists|items: Seq<SurfaceInfoV>|
        lists_surfaces(items, surfaces.entries()) && reply_of(r) == Some(
            Ok::<JsonV, Seq<char>>(surfaces_reply(items)),
        ))
}

/// Answers `state.*` against `state` and `surfaces`; `None` for any other command.
pub fn dispatch_state(
    state: &mut SharedState,
    surfaces: &SurfaceRegistry,
    cmd: &str,
    args: &Json,
) -> (r: Option<Result<Json, String>>)
    ensures
        state_step(*old(state), *final(state), *surfaces, cmd@, args@, r),
{
    proof {
        reveal_strlit("state.get");
        reveal_strlit("state.set");
        reveal_strlit("state.patch");
        reveal_strlit("state.keys");
        reveal_strlit("state.delete");
        reveal_strlit("state.surfaces");
        assert("state.get"@.len() == 9 && "state.set"@.len() == 9 && "state.patch"@.len() == 11
            && "state.keys"@.len() == 10 && "state.delete"@.len() == 12 && "state.surfaces"@.len()
            == 14);
        assert("state.get"@[6] != "state.set"@[6]);
    }
    if crate::text::str_eq(cmd, "state.get") {
        let path = match path_arg(args) {
            Ok(p) => p,
            Err(e) => {
                return Some(Err(e));
            },
        };
        let (value, revision) = state.get(path.as_str());
        let mut o: Vec<(String, Json)> = Vec::new();
        o.push((owned("ok"), Json::Bool(true)));
        o.push((owned("path"), Json::Str(path)));
        o.push((owned("value"), value));
        o.push((owned("revision"), Json::Number(JsonNumber::PosInt(revision))));
        let r = object_of(o);
        assert(member_views(o@) =~= seq![
            ("ok"@, JsonV::Bool(true)),
            ("path"@, JsonV::Str(path@)),
            ("value"@, value@),
            ("revision"@, json_u64(revision)),
        ]);
        Some(Ok(r))
    } else if crate::text::str_eq(cmd, "state.set") {
        let path = match path_arg(args) {
            Ok(p) => p,
            Err(e) => {
                return Some(Err(e));
            },
        };
        let value = match args.get("value") {
            Some(v) => v.deep_clone(),
            None => Json::Null,
        };
        Some(Ok(state.set(path, value)))
    } else if crate::text::str_eq(cmd, "state.patch") {
        let path = match path_arg(args) {
            Ok(p) => p,
            Err(e) => {
                return Some(Err(e));
            },
        };
        let patch = match args.get_or("value", "patch") {
            Some(v) => v.deep_clone(),
            None => Json::Object(Vec::new()),
        };
        proof {
            assert(members_view(Seq::<(String, Json)>::empty()) =~= Map::<Seq<char>, JsonV>::empty());
        }
        Some(state.patch(path, patch))
    } else if crate::text::str_eq(cmd, "state.keys") {
        Some(Ok(keys_json(state)))
    } else if crate::text::str_eq(cmd, "state.delete") {
        let path = match path_arg(args) {
            Ok(p) => p,
            Err(e) => {
                return Some(Err(e));
            },
        };
        let (deleted, revision) = state.delete(path.as_str());
        let mut o: Vec<(String, Json)> = Vec::new();
        o.push((owned("ok"), Json::Bool(true)));
        o.push((owned("deleted"), Json::Bool(deleted)));
        o.push((owned("revision"), Json::Number(JsonNumber::PosInt(revision))));
        let r = object_of(o);
        assert(member_views(o@) =~= seq![
            ("ok"@, JsonV::Bool(true)),
            ("deleted"@, JsonV::Bool(deleted)),
            ("revision"@, json_u64(revision)),
        ]);
        Some(Ok(r))
    } else if crate::text::str_eq(cmd, "state.surfaces") {
        Some(Ok(surfaces_json(surfaces)))
    } else {
        None
    }
}

} // verus!

verus! {

/// Optional host hooks for capabilities that are not pure state (notifications, etc.).
/// The host implements it.
pub trait CapBackend {
    /// Whether `r` is an answer the backend may give to `cmd` with `args` (`None`: it does not
    /// take the command). An impl may state it; one that does not keeps this default, under
    /// which every answer is possible, so nothing is promised of a host's backend.
    closed spec fn answered(&self, cmd: Seq<char>, args: JsonV, r: Option<Result<Json, String>>) -> bool {
        true
    }

    fn try_invoke(&self, cmd: &str, args: &Json) -> (r: Option<Result<Json, String>>)
        ensures
            self.answered(cmd@, args@, r),
    ;
}

/// Commands of capabilities that only a desktop host offers.
pub open spec fn host_only(cmd: Seq<char>) -> bool {
    has_prefix(cmd, "tray."@) || has_prefix(cmd, "dialog."@) || has_prefix(cmd, "store."@)
        || has_prefix(cmd, "webview."@) || has_prefix(cmd, "window."@) || has_prefix(
        cmd,
        "notification."@,
    )
}

/// What `invoke` answers for a command that neither `state.*` nor the backend took.
pub open spec fn fallback_spec(cmd: Seq<char>, platform: Seq<char>) -> Result<JsonV, Seq<char>> {
    if host_only(cmd) {
        Ok(unsupported_spec(before_first(cmd, '.'), platform))
    } else {
        Err("unknown command: "@ + cmd)
    }
}

pub open spec fn result_view(r: Result<Json, String>) -> Result<JsonV, Seq<char>> {
    match r {
        Ok(v) => Ok(v@),
        Err(e) => Err(e@),
    }
}

/// Whether `cmd` starts with `prefix`.
pub fn cmd_has_prefix(cmd: &Vec<char>, prefix: &str) -> (r: bool)
    ensures
        r == has_prefix(cmd@, prefix@),
{
    let p = chars_of(prefix);
    starts_with(cmd, &p)
}

/// The answer for a command nobody took: the stable unsupported reply for host-only
/// capabilities, else an unknown-command error.
pub fn invoke_fallback(cmd: &str, platform: &str) -> (r: Result<Json, String>)
    ensures
        result_view(r) == fallback_spec(cmd@, platform@),
{
    let c = chars_of(cmd);
    if cmd_has_prefix(&c, "tray.") || cmd_has_prefix(&c, "dialog.") || cmd_has_prefix(&c, "store.")
        || cmd_has_prefix(&c, "webview.") || cmd_has_prefix(&c, "window.") || cmd_has_prefix(
        &c,
        "notification.",
    ) {
        let seg = string_of(&split_first(&c, '.'));
        Ok(unsupported_on(seg.as_str(), platform))
    } else {
        Err(String::from_str("unknown command: ").concat(cmd))
    }
}

/// `invoke` once the backend has answered (`None`: it did not take the command).
pub fn invoke_after_backend(cmd: &str, platform: &str, backend: Option<Result<Json, String>>) -> (r:
    Result<Json, String>)
    ensures
        match backend {
            Some(b) => r == b,
            None => result_view(r) == fallback_spec(cmd@, platform@),
        },
{
    match backend {
        Some(b) => b,
        None => invoke_fallback(cmd, platform),
    }
}

/// Core invoke: `state.*`, then the host backend, then the stable unsupported reply for
/// host-only capabilities, else an unknown-command error.
pub fn invoke(
    state: &mut SharedState,
    surfaces: &SurfaceRegistry,
    cmd: &str,
    args: Json,
    platform: &str,
    caps: Option<&dyn CapBackend>,
) -> (r: Result<Json, String>)
    ensures
        is_state_command(cmd@) ==> state_step(*old(state), *final(state), *surfaces, cmd@, args@, Some(r)),
        !is_state_command(cmd@) ==> same_state(*old(state), *final(state)),
        !is_state_command(cmd@) && caps is None ==> result_view(r) == fallback_spec(cmd@, platform@),
        !is_state_command(cmd@) && caps is Some ==> exists|a: Option<Result<Json, String>>|
            #[trigger] caps->0.answered(cmd@, args@, a) && match a {
                Some(b) => r == b,
                None => result_view(r) == fallback_spec(cmd@, platform@),
            },
{
    match dispatch_state(state, surfaces, cmd, &args) {
        Some(r) => {
            return r;
        },
        None => {},
    }
    let answer = match caps {
        Some(backend) => backend.try_invoke(cmd, &args),
        None => None,
    };
    invoke_after_backend(cmd, platform, answer)
}

/// The event source a `state.*` call names, else `default`.
pub open spec fn source_of(args: JsonV, default: Seq<char>) -> Seq<char> {
    match str_member(args, "source"@) {
        Some(s) => s,
        None => default,
    }
}

/// Reads the event source of a `state.*` call.
pub fn source_arg(args: &Json, default: &str) -> (r: String)
    ensures
        r@ == source_of(args@, default@),
{
    match args.str_member("source") {
        Some(s) => owned(s),
        None => owned(default),
    }
}

/// The `state:changed` event that a `state.*` step from `old` to `new` announces: every set
/// and patch, and a delete that removed a document.
pub open spec fn state_event(
    old: SharedState,
    new: SharedState,
    cmd: Seq<char>,
    args: JsonV,
    default_source: Seq<char>,
) -> Option<JsonV> {
    match path_of(args) {
        None => None,
        Some(p) => if cmd == "state.set"@ {
            Some(state_changed_spec(p, value_arg(args), new.rev(), source_of(args, default_source)))
        } else if cmd == "state.patch"@ {
            Some(
                state_changed_spec(
                    p,
                    merge_spec(doc_or_empty_object(old.docs(), p), patch_arg(args)),
                    new.rev(),
                    source_of(args, default_source),
                ),
            )
        } else if cmd == "state.delete"@ && old.docs().contains_key(p) {
            Some(state_changed_spec(p, JsonV::Null, new.rev(), source_of(args, default_source)))
        } else {
            None
        },
    }
}

pub open spec fn opt_json_view(o: Option<Json>) -> Option<JsonV> {
    match o {
        Some(j) => Some(j@),
        None => None,
    }
}

/// `dispatch_state`, together with the `state:changed` payload the host emits for it.
pub fn dispatch_state_event(
    state: &mut SharedState,
    surfaces: &SurfaceRegistry,
    cmd: &str,
    args: &Json,
    default_source: &str,
) -> (r: (Option<Result<Json, String>>, Option<Json>))
    ensures
        state_step(*old(state), *final(state), *surfaces, cmd@, args@, r.0),
        opt_json_view(r.1) == state_event(*old(state), *final(state), cmd@, args@, default_source@),
{
    let before = state.revision();
    let out = dispatch_state(state, surfaces, cmd, args);
    proof {
        reveal_strlit("state.get");
        reveal_strlit("state.set");
        reveal_strlit("state.patch");
        reveal_strlit("state.keys");
        reveal_strlit("state.delete");
        reveal_strlit("state.surfaces");
        assert("state.get"@.len() == 9 && "state.set"@.len() == 9 && "state.patch"@.len() == 11
            && "state.keys"@.len() == 10 && "state.delete"@.len() == 12 && "state.surfaces"@.len()
            == 14);
        assert("state.get"@[6] != "state.set"@[6]);
    }
    let event = match path_arg(args) {
        Err(_) => None,
        Ok(path) => {
            let source = source_arg(args, default_source);
            if str_eq(cmd, "state.set") {
                let value = match args.get("value") {
                    Some(v) => v.deep_clone(),
                    None => Json::Null,
                };
                Some(state_changed_payload(path.as_str(), &value, state.revision(), source.as_str()))
            } else if str_eq(cmd, "state.patch") {
                let (merged, rev) = state.get(path.as_str());
                Some(state_changed_payload(path.as_str(), &merged, rev, source.as_str()))
            } else if str_eq(cmd, "state.delete") && state.revision() != before {
                Some(
                    state_changed_payload(
                        path.as_str(),
                        &Json::Null,
                        state.revision(),
                        source.as_str(),
                    ),
                )
            } else {
                None
            }
        },
    };
    (out, event)
}

} // verus!
