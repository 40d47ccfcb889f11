//! Registry of desktop extensions: Tish manifests, checked on registration, and the names of
//! Rust extension modules.

use vstd::prelude::*;

use crate::config::PROTOCOL_VERSION;
use crate::json::{
    json_obj, json_string, member_views, object_of, opt_str_json, opt_string_json, owned, str_array,
    strings_json, strs_view, items_view, lemma_items_view_index, Json, JsonV,
};
use crate::text::str_eq;

verus! {

/// A Tish extension's manifest: its id, optional shell and UI entry points, the commands it
/// contributes (namespaced under its id) and the permissions it asks for.
pub struct ExtensionManifest {
    pub id: String,
    pub shell: Option<String>,
    pub ui: Option<String>,
    pub commands: Vec<String>,
    pub permissions: Vec<String>,
}

pub struct ManifestV {
    pub id: Seq<char>,
    pub shell: Option<Seq<char>>,
    pub ui: Option<Seq<char>>,
    pub commands: Seq<Seq<char>>,
    pub permissions: Seq<Seq<char>>,
}

pub open spec fn opt_string_view(o: Option<String>) -> Option<Seq<char>> {
    match o {
        Some(s) => Some(s@),
        None => None,
    }
}

impl View for ExtensionManifest {
    type V = ManifestV;

    open spec fn view(&self) -> ManifestV {
        ManifestV {
            id: self.id@,
            shell: opt_string_view(self.shell),
            ui: opt_string_view(self.ui),
            commands: strs_view(self.commands@),
            permissions: strs_view(self.permissions@),
        }
    }
}

/// The permissions an extension may ask for.
pub open spec fn known_permission(p: Seq<char>) -> bool {
    p == "dialog"@ || p == "tray"@ || p == "menu"@ || p == "deep-link"@ || p == "fs:scoped"@ || p
        == "opener"@
}

/// The first permission, in the order given, that is not known.
pub open spec fn first_unknown(ps: Seq<Seq<char>>) -> Option<Seq<char>>
    decreases ps.len(),
{
    if ps.len() == 0 {
        None
    } else if !known_permission(ps[0]) {
        Some(ps[0])
    } else {
        first_unknown(ps.drop_first())
    }
}

/// A command's name under its extension: `<id>.<command>`.
pub open spec fn namespaced(id: Seq<char>, cmd: Seq<char>) -> Seq<char> {
    id + "."@ + cmd
}

/// Whether `m` already contributes the namespaced command `n`.
pub open spec fn contributes(m: ManifestV, n: Seq<char>) -> bool {
    exists|k: int| 0 <= k < m.commands.len() && namespaced(m.id, #[trigger] m.commands[k]) == n
}

/// The first of `cmds`, namespaced under `id`, that `m` already contributes.
pub open spec fn first_collision(id: Seq<char>, cmds: Seq<Seq<char>>, m: ManifestV) -> Option<Seq<char>>
    decreases cmds.len(),
{
    if cmds.len() == 0 {
        None
    } else if contributes(m, namespaced(id, cmds[0])) {
        Some(namespaced(id, cmds[0]))
    } else {
        first_collision(id, cmds.drop_first(), m)
    }
}

/// Why `new` cannot sit beside the registered manifest `m`, if it cannot.
pub open spec fn conflict(m: ManifestV, new: ManifestV) -> Option<Seq<char>> {
    if m.id == new.id {
        Some("extension already registered: "@ + new.id)
    } else {
        match first_collision(new.id, new.commands, m) {
            Some(n) => Some("command collision: "@ + n),
            None => None,
        }
    }
}

/// The first conflict of `new` with the registered manifests, in registration order.
pub open spec fn first_conflict(ms: Seq<ManifestV>, new: ManifestV) -> Option<Seq<char>>
    decreases ms.len(),
{
    if ms.len() == 0 {
        None
    } else {
        match conflict(ms[0], new) {
            Some(e) => Some(e),
            None => first_conflict(ms.drop_first(), new),
        }
    }
}

/// The error `register_tish` answers for `new`, or `None` when it is accepted.
pub open spec fn registration_error(ms: Seq<ManifestV>, new: ManifestV) -> Option<Seq<char>> {
    match first_unknown(new.permissions) {
        Some(p) => Some("unknown permission requested: "@ + p),
        None => first_conflict(ms, new),
    }
}

/// No two registered manifests share an id or a namespaced command.
pub open spec fn registry_consistent(ms: Seq<ManifestV>) -> bool {
    forall|i: int, j: int|
        0 <= i < ms.len() && 0 <= j < ms.len() && i != j ==> {
            &&& (#[trigger] ms[i]).id != (#[trigger] ms[j]).id
            &&& forall|a: int, b: int|
                0 <= a < ms[i].commands.len() && 0 <= b < ms[j].commands.len() ==> namespaced(
                    ms[i].id,
                    #[trigger] ms[i].commands[a],
                ) != namespaced(ms[j].id, #[trigger] ms[j].commands[b])
        }
}

/// Every permission of `ps` is known when none is the first unknown one.
pub proof fn lemma_first_unknown_none(ps: Seq<Seq<char>>)
    requires
        first_unknown(ps) is None,
    ensures
        forall|i: int| 0 <= i < ps.len() ==> known_permission(#[trigger] ps[i]),
    decreases ps.len(),
{
    if ps.len() > 0 {
        lemma_first_unknown_none(ps.drop_first());
        assert forall|i: int| 0 <= i < ps.len() implies known_permission(#[trigger] ps[i]) by {
            if i > 0 {
                assert(ps[i] == ps.drop_first()[i - 1]);
            }
        }
    }
}

pub proof fn lemma_first_collision_none(id: Seq<char>, cmds: Seq<Seq<char>>, m: ManifestV)
    requires
        first_collision(id, cmds, m) is None,
    ensures
        forall|a: int| 0 <= a < cmds.len() ==> !contributes(m, namespaced(id, #[trigger] cmds[a])),
    decreases cmds.len(),
{
    if cmds.len() > 0 {
        lemma_first_collision_none(id, cmds.drop_first(), m);
        assert forall|a: int| 0 <= a < cmds.len() implies !contributes(
            m,
            namespaced(id, #[trigger] cmds[a]),
        ) by {
            if a > 0 {
                assert(cmds[a] == cmds.drop_first()[a - 1]);
            }
        }
    }
}

pub proof fn lemma_first_conflict_none(ms: Seq<ManifestV>, new: ManifestV)
    requires
        first_conflict(ms, new) is None,
    ensures
        forall|i: int| 0 <= i < ms.len() ==> conflict(#[trigger] ms[i], new) is None,
    decreases ms.len(),
{
    if ms.len() > 0 {
        lemma_first_conflict_none(ms.drop_first(), new);
        assert forall|i: int| 0 <= i < ms.len() implies conflict(#[trigger] ms[i], new) is None by {
            if i > 0 {
                assert(ms[i] == ms.drop_first()[i - 1]);
            }
        }
    }
}

/// Accepting a manifest that conflicts with none of the registered ones keeps the registry
/// free of shared ids and shared namespaced commands.
pub proof fn lemma_push_consistent(ms: Seq<ManifestV>, new: ManifestV)
    requires
        registry_consistent(ms),
        first_conflict(ms, new) is None,
    ensures
        registry_consistent(ms.push(new)),
{
    lemma_first_conflict_none(ms, new);
    let out = ms.push(new);
    assert forall|i: int, j: int| 0 <= i < out.len() && 0 <= j < out.len() && i != j implies {
        &&& (#[trigger] out[i]).id != (#[trigger] out[j]).id
        &&& forall|a: int, b: int|
            0 <= a < out[i].commands.len() && 0 <= b < out[j].commands.len() ==> namespaced(
                out[i].id,
                #[trigger] out[i].commands[a],
            ) != namespaced(out[j].id, #[trigger] out[j].commands[b])
    } by {
        if i == ms.len() {
            let m = ms[j];
            assert(conflict(m, new) is None);
            lemma_first_collision_none(new.id, new.commands, m);
            assert forall|a: int, b: int|
                0 <= a < out[i].commands.len() && 0 <= b < out[j].commands.len() implies namespaced(
                out[i].id,
                #[trigger] out[i].commands[a],
            ) != namespaced(out[j].id, #[trigger] out[j].commands[b]) by {
                assert(!contributes(m, namespaced(new.id, new.commands[a])));
            }
        } else if j == ms.len() {
            let m = ms[i];
            assert(conflict(m, new) is None);
            lemma_first_collision_none(new.id, new.commands, m);
            assert forall|a: int, b: int|
                0 <= a < out[i].commands.len() && 0 <= b < out[j].commands.len() implies namespaced(
                out[i].id,
                #[trigger] out[i].commands[a],
            ) != namespaced(out[j].id, #[trigger] out[j].commands[b]) by {
                assert(!contributes(m, namespaced(new.id, new.commands[b])));
            }
        } else {
            assert(out[i] == ms[i] && out[j] == ms[j]);
        }
    }
}

} // verus!

verus! {

/// Whether `p` is a permission an extension may ask for.
pub fn is_known_permission(p: &str) -> (r: bool)
    ensures
        r == known_permission(p@),
{
    str_eq(p, "dialog") || str_eq(p, "tray") || str_eq(p, "menu") || str_eq(p, "deep-link")
        || str_eq(p, "fs:scoped") || str_eq(p, "opener")
}

/// The first permission of `ps` that is not known.
pub fn find_unknown_permission(ps: &Vec<String>) -> (r: Option<String>)
    ensures
        opt_string_view(r) == first_unknown(strs_view(ps@)),
{
    let ghost all = strs_view(ps@);
    let mut i: usize = 0;
    assert(all.subrange(0, all.len() as int) =~= all);
    while i < ps.len()
        invariant
            i <= ps@.len(),
            all == strs_view(ps@),
            first_unknown(all) == first_unknown(all.subrange(i as int, all.len() as int)),
        decreases ps@.len() - i,
    {
        let ghost rest = all.subrange(i as int, all.len() as int);
        assert(rest[0] == ps@[i as int]@);
        assert(rest.drop_first() =~= all.subrange(i + 1, all.len() as int));
        if !is_known_permission(ps[i].as_str()) {
            return Some(ps[i].clone());
        }
        i += 1;
    }
    assert(all.subrange(i as int, all.len() as int) =~= Seq::<Seq<char>>::empty());
    None
}

/// `<id>.<cmd>`.
pub fn namespaced_name(id: &str, cmd: &str) -> (r: String)
    ensures
        r@ == namespaced(id@, cmd@),
{
    String::from_str(id).concat(".").concat(cmd)
}

/// Whether `m` contributes the namespaced command `n`.
fn contributes_name(m: &ExtensionManifest, n: &str) -> (r: bool)
    ensures
        r == contributes(m@, n@),
{
    let mut k: usize = 0;
    while k < m.commands.len()
        invariant
            k <= m.commands@.len(),
            forall|j: int| 0 <= j < k ==> namespaced(m@.id, #[trigger] m@.commands[j]) != n@,
        decreases m.commands@.len() - k,
    {
        let other = namespaced_name(m.id.as_str(), m.commands[k].as_str());
        if str_eq(other.as_str(), n) {
            assert(namespaced(m@.id, m@.commands[k as int]) == n@);
            return true;
        }
        k += 1;
    }
    false
}

/// The first command of `new`, namespaced, that `m` already contributes.
fn find_collision(m: &ExtensionManifest, new: &ExtensionManifest) -> (r: Option<String>)
    ensures
        opt_string_view(r) == first_collision(new@.id, new@.commands, m@),
{
    let ghost all = new@.commands;
    let mut i: usize = 0;
    assert(all.subrange(0, all.len() as int) =~= all);
    while i < new.commands.len()
        invariant
            i <= new.commands@.len(),
            all == new@.commands,
            first_collision(new@.id, all, m@) == first_collision(
                new@.id,
                all.subrange(i as int, all.len() as int),
                m@,
            ),
        decreases new.commands@.len() - i,
    {
        let ghost rest = all.subrange(i as int, all.len() as int);
        assert(rest[0] == new.commands@[i as int]@);
        assert(rest.drop_first() =~= all.subrange(i + 1, all.len() as int));
        let n = namespaced_name(new.id.as_str(), new.commands[i].as_str());
        if contributes_name(m, n.as_str()) {
            return Some(n);
        }
        i += 1;
    }
    assert(all.subrange(i as int, all.len() as int) =~= Seq::<Seq<char>>::empty());
    None
}

/// Why `new` cannot sit beside the registered `m`, if it cannot.
fn find_conflict(m: &ExtensionManifest, new: &ExtensionManifest) -> (r: Option<String>)
    ensures
        opt_string_view(r) == conflict(m@, new@),
{
    if str_eq(m.id.as_str(), new.id.as_str()) {
        return Some(String::from_str("extension already registered: ").concat(new.id.as_str()));
    }
    match find_collision(m, new) {
        Some(n) => Some(String::from_str("command collision: ").concat(n.as_str())),
        None => None,
    }
}

/// The registered Tish manifests, in registration order, and the Rust extension modules.
pub struct ExtensionRegistry {
    manifests: Vec<ExtensionManifest>,
    rust_modules: Vec<String>,
}

pub open spec fn manifests_view(v: Seq<ExtensionManifest>) -> Seq<ManifestV> {
    v.map_values(|m: ExtensionManifest| m@)
}

/// The JSON form of a manifest.
pub open spec fn manifest_json_spec(m: ManifestV) -> JsonV {
    json_obj(
        seq![
            ("id"@, JsonV::Str(m.id)),
            ("shell"@, opt_str_json(m.shell)),
            ("ui"@, opt_str_json(m.ui)),
            ("commands"@, str_array(m.commands)),
            ("permissions"@, str_array(m.permissions)),
        ],
    )
}

/// The answer to `extensions.list`.
pub open spec fn registry_json_spec(ms: Seq<ManifestV>, rust: Seq<Seq<char>>) -> JsonV {
    json_obj(
        seq![
            ("protocol"@, JsonV::Str("desktop/v1"@)),
            ("tish"@, JsonV::Array(ms.map_values(|m: ManifestV| manifest_json_spec(m)))),
            ("rust"@, str_array(rust)),
        ],
    )
}

impl ExtensionManifest {
    /// The manifest as JSON.
    pub fn to_json(&self) -> (r: Json)
        ensures
            r@ == manifest_json_spec(self@),
    {
        let mut o: Vec<(String, Json)> = Vec::new();
        o.push((owned("id"), Json::Str(self.id.clone())));
        o.push((owned("shell"), opt_string_json(&self.shell)));
        o.push((owned("ui"), opt_string_json(&self.ui)));
        o.push((owned("commands"), strings_json(&self.commands)));
        o.push((owned("permissions"), strings_json(&self.permissions)));
        let r = object_of(o);
        assert(member_views(o@) =~= seq![
            ("id"@, JsonV::Str(self@.id)),
            ("shell"@, opt_str_json(self@.shell)),
            ("ui"@, opt_str_json(self@.ui)),
            ("commands"@, str_array(self@.commands)),
            ("permissions"@, str_array(self@.permissions)),
        ]);
        r
    }
}

impl ExtensionRegistry {
    #[verifier::type_invariant]
    spec fn inv(self) -> bool {
        registry_consistent(manifests_view(self.manifests@))
    }

    /// The registered manifests, in registration order.
    pub closed spec fn tish(&self) -> Seq<ManifestV> {
        manifests_view(self.manifests@)
    }

    /// The registered Rust extension modules, in registration order.
    pub closed spec fn rust(&self) -> Seq<Seq<char>> {
        strs_view(self.rust_modules@)
    }

    /// An empty registry.
    pub fn new() -> (r: ExtensionRegistry)
        ensures
            r.tish() == Seq::<ManifestV>::empty(),
            r.rust() == Seq::<Seq<char>>::empty(),
    {
        let r = ExtensionRegistry { manifests: Vec::new(), rust_modules: Vec::new() };
        assert(r.tish() =~= Seq::<ManifestV>::empty());
        assert(r.rust() =~= Seq::<Seq<char>>::empty());
        r
    }

    /// Registers a Tish extension. It is refused, and nothing changes, when it asks for a
    /// permission that is not known, when its id is taken, or when one of its commands,
    /// namespaced under its id, is already contributed by a registered extension.
    pub fn register_tish(&mut self, manifest: ExtensionManifest) -> (r: Result<(), String>)
        ensures
            match registration_error(old(self).tish(), manifest@) {
                Some(e) => r matches Err(m) && m@ == e && final(self).tish() == old(self).tish(),
                None => r is Ok && final(self).tish() == old(self).tish().push(manifest@),
            },
            final(self).rust() == old(self).rust(),
            registry_consistent(final(self).tish()),
    {
        proof {
            use_type_invariant(&*self);
        }
        match find_unknown_permission(&manifest.permissions) {
            Some(p) => {
                return Err(String::from_str("unknown permission requested: ").concat(p.as_str()));
            },
            None => {},
        }
        let ghost all = self.tish();
        let mut i: usize = 0;
        assert(all.subrange(0, all.len() as int) =~= all);
        while i < self.manifests.len()
            invariant
                i <= self.manifests@.len(),
                all == manifests_view(self.manifests@),
                all == old(self).tish(),
                self.tish() == all,
                self.rust() == old(self).rust(),
                registry_consistent(all),
                first_unknown(manifest@.permissions) is None,
                first_conflict(all, manifest@) == first_conflict(
                    all.subrange(i as int, all.len() as int),
                    manifest@,
                ),
            decreases self.manifests@.len() - i,
        {
            let ghost rest = all.subrange(i as int, all.len() as int);
            assert(rest[0] == self.manifests@[i as int]@);
            assert(rest.drop_first() =~= all.subrange(i + 1, all.len() as int));
            match find_conflict(&self.manifests[i], &manifest) {
                Some(e) => {
                    return Err(e);
                },
                None => {},
            }
            i += 1;
        }
        assert(all.subrange(i as int, all.len() as int) =~= Seq::<ManifestV>::empty());
        proof {
            lemma_push_consistent(all, manifest@);
            assert(manifests_view(self.manifests@.push(manifest)) =~= all.push(manifest@));
        }
        let mut ms: Vec<ExtensionManifest> = Vec::new();
        std::mem::swap(&mut ms, &mut self.manifests);
        ms.push(manifest);
        self.manifests = ms;
        Ok(())
    }

    /// Records a Rust extension module by name.
    pub fn register_rust_module(&mut self, name: String)
        ensures
            final(self).rust() == old(self).rust().push(name@),
            final(self).tish() == old(self).tish(),
    {
        proof {
            use_type_invariant(&*self);
            assert(strs_view(self.rust_modules@.push(name)) =~= self.rust().push(name@));
        }
        let mut names: Vec<String> = Vec::new();
        std::mem::swap(&mut names, &mut self.rust_modules);
        names.push(name);
        self.rust_modules = names;
    }

    /// `{ protocol, tish: [manifests], rust: [module names] }`.
    pub fn list(&self) -> (r: Json)
        ensures
            r@ == registry_json_spec(self.tish(), self.rust()),
    {
        let mut items: Vec<Json> = Vec::new();
        let mut i: usize = 0;
        while i < self.manifests.len()
            invariant
                i <= self.manifests@.len(),
                items@.len() == i,
                forall|j: int|
                    0 <= j < i ==> (#[trigger] items@[j])@ == manifest_json_spec(
                        self.manifests@[j]@,
                    ),
            decreases self.manifests@.len() - i,
        {
            items.push(self.manifests[i].to_json());
            i += 1;
        }
        proof {
            lemma_items_view_index(items@);
            assert(items_view(items@) =~= self.tish().map_values(
                |m: ManifestV| manifest_json_spec(m),
            ));
            reveal_strlit("desktop/v1");
        }
        let mut o: Vec<(String, Json)> = Vec::new();
        o.push((owned("protocol"), json_string(PROTOCOL_VERSION)));
        o.push((owned("tish"), Json::Array(items)));
        o.push((owned("rust"), strings_json(&self.rust_modules)));
        let r = object_of(o);
        assert(member_views(o@) =~= seq![
            ("protocol"@, JsonV::Str("desktop/v1"@)),
            ("tish"@, JsonV::Array(self.tish().map_values(|m: ManifestV| manifest_json_spec(m)))),
            ("rust"@, str_array(self.rust())),
        ]);
        r
    }
}

impl Default for ExtensionRegistry {
    fn default() -> (r: Self)
        ensures
            r.tish() == Seq::<ManifestV>::empty(),
            r.rust() == Seq::<Seq<char>>::empty(),
    {
        ExtensionRegistry::new()
    }
}

} // verus!
