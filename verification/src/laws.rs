//! Properties of the library as a whole: what a read gives back of a write, how revisions
//! move, how patches merge, which commands reach which part of the host, and which
//! registrations and paths are refused.

use vstd::prelude::*;

use crate::broker::{
    delete_reply, doc_or_null, lists_surfaces, next_revision, path_of, reply_of, same_state,
    state_reply, state_step, value_arg, SharedState, SurfaceInfo, SurfaceRegistry,
};
use crate::commands::{route_spec, Route};
use crate::broker::is_state_command;
use crate::extensions::{
    conflict, contributes, first_collision, first_conflict, first_unknown, known_permission, namespaced,
    registration_error, ManifestV,
};
use crate::auth::cached_token_answer;
use crate::menus::{leaf_spec, menu_node_spec, MenuNodeV};
use crate::chrome::str_or;
use crate::json::member;
use crate::json::{merge_spec, merged_members, JsonV};
use crate::resource::{content_type_spec, resource_allowed_spec};
use crate::system::{guard_after, sleep_call, sleep_trace, take_step, ShortcutTable};
use crate::text::{contains_seq, has_suffix};

verus! {

/// A `state.get` after a `state.set` of the same path answers the value that was set, at the
/// revision the set produced, and changes nothing.
pub proof fn law_get_returns_what_set_wrote(
    s0: SharedState,
    s1: SharedState,
    s2: SharedState,
    surfaces: SurfaceRegistry,
    set_args: JsonV,
    get_args: JsonV,
    r1: Option<Result<crate::json::Json, String>>,
    r2: Option<Result<crate::json::Json, String>>,
)
    requires
        state_step(s0, s1, surfaces, "state.set"@, set_args, r1),
        state_step(s1, s2, surfaces, "state.get"@, get_args, r2),
        path_of(set_args) is Some,
        path_of(get_args) == path_of(set_args),
    ensures
        reply_of(r2) == Some(
            Ok::<JsonV, Seq<char>>(
                state_reply(path_of(set_args)->0, value_arg(set_args), s1.rev()),
            ),
        ),
        s1.rev() == next_revision(s0.rev()),
        same_state(s1, s2),
{
    let p = path_of(set_args)->0;
    assert(s1.docs().contains_key(p));
    assert(doc_or_null(s1.docs(), p) == value_arg(set_args));
}

/// A `state.get` after a `state.delete` of the same path answers null.
pub proof fn law_get_after_delete_is_null(
    s0: SharedState,
    s1: SharedState,
    s2: SharedState,
    surfaces: SurfaceRegistry,
    del_args: JsonV,
    get_args: JsonV,
    r1: Option<Result<crate::json::Json, String>>,
    r2: Option<Result<crate::json::Json, String>>,
)
    requires
        state_step(s0, s1, surfaces, "state.delete"@, del_args, r1),
        state_step(s1, s2, surfaces, "state.get"@, get_args, r2),
        path_of(del_args) is Some,
        path_of(get_args) == path_of(del_args),
    ensures
        reply_of(r2) == Some(
            Ok::<JsonV, Seq<char>>(state_reply(path_of(del_args)->0, JsonV::Null, s1.rev())),
        ),
{
    let p = path_of(del_args)->0;
    assert(!s1.docs().contains_key(p));
}

/// Every set advances the revision by one (wrapping at `u64::MAX`); a delete advances it
/// exactly when it removed a document, and says so.
pub proof fn law_revisions_count_changes(
    s0: SharedState,
    s1: SharedState,
    surfaces: SurfaceRegistry,
    cmd: Seq<char>,
    args: JsonV,
    r: Option<Result<crate::json::Json, String>>,
)
    requires
        state_step(s0, s1, surfaces, cmd, args, r),
        path_of(args) is Some,
        cmd == "state.set"@ || cmd == "state.patch"@ || cmd == "state.delete"@,
    ensures
        cmd == "state.set"@ || cmd == "state.patch"@ ==> s1.rev() == next_revision(s0.rev()),
        cmd == "state.delete"@ ==> {
            let found = s0.docs().contains_key(path_of(args)->0);
            &&& s1.rev() == (if found {
                next_revision(s0.rev())
            } else {
                s0.rev()
            })
            &&& reply_of(r) == Some(Ok::<JsonV, Seq<char>>(delete_reply(found, s1.rev())))
        },
        next_revision(s0.rev()) != s0.rev(),
{
}

/// The identity of merging: merging a value into itself gives it back.
pub proof fn law_merge_self(v: JsonV)
    ensures
        merge_spec(v, v) == v,
    decreases v,
{
    match v {
        JsonV::Object(m) => {
            assert forall|k: Seq<char>| m.contains_key(k) implies #[trigger] merge_spec(m[k], m[k])
                == m[k] by {
                law_merge_self(m[k]);
            }
            let out = merged_members(m, m);
            let o = match merge_spec(v, v) {
                JsonV::Object(o) => o,
                _ => m,
            };
            assert(o =~= out);
            assert(merge_spec(v, v) == JsonV::Object(out));
            assert forall|k: Seq<char>| #[trigger] out.contains_key(k) implies out[k] == m[k] by {
                assert(merge_spec(m[k], m[k]) == m[k]);
            }
            assert(out =~= m);
        },
        _ => {},
    }
}

/// A patch that is not an object replaces the document.
pub proof fn law_non_object_patch_replaces(base: JsonV, patch: JsonV)
    requires
        !(patch is Object),
    ensures
        merge_spec(base, patch) == patch,
{
}

/// Patching an object with an empty object leaves it as it was.
pub proof fn law_empty_patch_keeps_object(m: Map<Seq<char>, JsonV>)
    ensures
        merge_spec(JsonV::Object(m), JsonV::Object(Map::empty())) == JsonV::Object(m),
{
    let out = match merge_spec(JsonV::Object(m), JsonV::Object(Map::empty())) {
        JsonV::Object(o) => o,
        _ => m,
    };
    assert(out =~= m);
}

/// Applying the same patch twice is applying it once.
pub proof fn law_patch_idempotent(base: JsonV, patch: JsonV)
    ensures
        merge_spec(merge_spec(base, patch), patch) == merge_spec(base, patch),
    decreases patch,
{
    match (base, patch) {
        (JsonV::Object(a), JsonV::Object(b)) => {
            let m1 = merged_members(a, b);
            let once = merge_spec(base, patch);
            let o1 = match once {
                JsonV::Object(o) => o,
                _ => a,
            };
            assert(o1 =~= m1);
            assert(once == JsonV::Object(m1));
            let m2 = merged_members(m1, b);
            let o2 = match merge_spec(once, patch) {
                JsonV::Object(o) => o,
                _ => a,
            };
            assert(o2 =~= m2);
            assert(merge_spec(once, patch) == JsonV::Object(m2));
            assert forall|k: Seq<char>| #[trigger] m2.contains_key(k) implies m2[k] == m1[k] by {
                if b.contains_key(k) {
                    if a.contains_key(k) {
                        law_patch_idempotent(a[k], b[k]);
                    } else {
                        law_merge_self(b[k]);
                    }
                }
            }
            assert(m2 =~= m1);
        },
        (_, JsonV::Object(b)) => {
            law_merge_self(patch);
        },
        _ => {},
    }
}

/// After a surface is registered, listing the registry shows it as registered, and every
/// surface registered before it under another id is still listed.
pub proof fn law_registered_surface_is_listed(
    before: SurfaceRegistry,
    after: SurfaceRegistry,
    info: SurfaceInfo,
    listed: Seq<SurfaceInfo>,
)
    requires
        after.entries() == before.entries().insert(info.id@, info@),
        lists_surfaces(listed.map_values(|s: SurfaceInfo| s@), after.entries()),
    ensures
        exists|i: int| 0 <= i < listed.len() && listed[i]@ == info@,
        forall|k: Seq<char>|
            #[trigger] before.entries().contains_key(k) && k != info.id@ ==> exists|i: int|
                0 <= i < listed.len() && listed[i]@ == before.entries()[k],
{
    let ov = listed.map_values(|s: SurfaceInfo| s@);
    assert(after.entries().contains_key(info.id@));
    let i = choose|i: int| 0 <= i < ov.len() && ov[i].id == info.id@;
    assert(ov[i] == listed[i]@);
    assert forall|k: Seq<char>| #[trigger] before.entries().contains_key(k) && k != info.id@ implies exists|i: int|
        0 <= i < listed.len() && listed[i]@ == before.entries()[k] by {
        assert(after.entries().contains_key(k));
        let j = choose|j: int| 0 <= j < ov.len() && ov[j].id == k;
        assert(ov[j] == listed[j]@);
    }
}

/// A Tish handler registered under a command's name answers it, whatever the command.
pub proof fn law_handlers_come_first(cmd: Seq<char>)
    ensures
        route_spec(cmd, true) == Route::Handler,
{
}

/// Without a handler, `state.*` commands are answered by the shared-state broker.
pub proof fn law_state_commands_reach_the_broker(cmd: Seq<char>)
    requires
        is_state_command(cmd),
    ensures
        route_spec(cmd, false) == Route::State,
{
}

/// An extension whose id is already registered is refused, whatever else it holds.
pub proof fn law_taken_id_is_refused(ms: Seq<ManifestV>, new: ManifestV, i: int)
    requires
        0 <= i < ms.len(),
        ms[i].id == new.id,
    ensures
        registration_error(ms, new) is Some,
    decreases ms.len(),
{
    if first_unknown(new.permissions) is None {
        lemma_conflict_at(ms, new, i);
    }
}

proof fn lemma_conflict_at(ms: Seq<ManifestV>, new: ManifestV, i: int)
    requires
        0 <= i < ms.len(),
        conflict(ms[i], new) is Some,
    ensures
        first_conflict(ms, new) is Some,
    decreases ms.len(),
{
    if conflict(ms[0], new) is None {
        assert(ms.drop_first()[i - 1] == ms[i]);
        lemma_conflict_at(ms.drop_first(), new, i - 1);
    }
}

/// A path with `..` in it is never served, whatever segment is trusted.
pub proof fn law_traversal_is_refused(path: Seq<char>, segment: Seq<char>)
    requires
        contains_seq(path, ".."@),
    ensures
        !resource_allowed_spec(path, segment),
{
    let i = choose|i: int| crate::text::occurs_at(path, ".."@, i);
    let norm = crate::resource::slashes_normalized(path);
    reveal_strlit("..");
    assert(path.subrange(i, i + 2)[0] == path[i]);
    assert(path.subrange(i, i + 2)[1] == path[i + 1]);
    assert(norm[i] == '.' && norm[i + 1] == '.');
    assert(crate::text::occurs_at(norm, ".."@, i)) by {
        assert(norm.subrange(i, i + 2) =~= ".."@);
    }
}

/// Unregistering a shortcut right after registering it answers the accelerator that was
/// registered and leaves the table as it was before, without that id.
pub proof fn law_unregister_returns_registered_accelerator(
    t0: ShortcutTable,
    t1: ShortcutTable,
    t2: ShortcutTable,
    id: Seq<char>,
    accelerator: Seq<char>,
    taken: Result<String, String>,
)
    requires
        t1.map() == t0.map().insert(id, accelerator),
        take_step(t1.map(), t2.map(), id, taken),
    ensures
        taken matches Ok(a) && a@ == accelerator,
        t2.map() == t0.map().remove(id),
{
    assert(t0.map().insert(id, accelerator).remove(id) =~= t0.map().remove(id));
}


/// Across any run of `prevent` and `allow` calls from no blocks and no guard, the host holds
/// the OS guard exactly while at least one block is held.
pub proof fn law_sleep_guard_tracks_blocks(ops: Seq<bool>, counts: Seq<u64>, flags: Seq<bool>, guards: Seq<bool>)
    requires
        sleep_trace(ops, counts, flags, guards),
        counts[0] == 0,
        !guards[0],
    ensures
        forall|i: int| 0 <= i <= ops.len() ==> #[trigger] guards[i] == (counts[i] > 0),
{
    assert forall|i: int| 0 <= i <= ops.len() implies #[trigger] guards[i] == (counts[i] > 0) by {
        lemma_guard_prefix(ops, counts, flags, guards, i);
    }
}

proof fn lemma_guard_prefix(ops: Seq<bool>, counts: Seq<u64>, flags: Seq<bool>, guards: Seq<bool>, i: int)
    requires
        sleep_trace(ops, counts, flags, guards),
        counts[0] == 0,
        !guards[0],
        0 <= i <= ops.len(),
    ensures
        guards[i] == (counts[i] > 0),
    decreases i,
{
    if i > 0 {
        lemma_guard_prefix(ops, counts, flags, guards, i - 1);
        assert(sleep_call(ops[i - 1], counts[i - 1], counts[i], flags[i - 1]));
    }
}

/// `k` blocks taken from none and then `k` released end with no block and no guard held.
pub proof fn law_sleep_blocks_balance(ops: Seq<bool>, counts: Seq<u64>, flags: Seq<bool>, guards: Seq<bool>, k: int)
    requires
        sleep_trace(ops, counts, flags, guards),
        counts[0] == 0,
        !guards[0],
        0 <= k,
        ops.len() == 2 * k,
        forall|i: int| 0 <= i < k ==> #[trigger] ops[i],
        forall|i: int| k <= i < 2 * k ==> !#[trigger] ops[i],
    ensures
        counts[2 * k] == 0,
        !guards[2 * k],
{
    assert forall|i: int| 0 <= i <= k implies #[trigger] counts[i] == i by {
        lemma_count_up(ops, counts, flags, guards, k, i);
    }
    assert forall|i: int| k <= i <= 2 * k implies #[trigger] counts[i] == 2 * k - i by {
        lemma_count_down(ops, counts, flags, guards, k, i);
    }
    law_sleep_guard_tracks_blocks(ops, counts, flags, guards);
    assert(guards[2 * k] == (counts[2 * k] > 0));
}

proof fn lemma_count_up(ops: Seq<bool>, counts: Seq<u64>, flags: Seq<bool>, guards: Seq<bool>, k: int, i: int)
    requires
        sleep_trace(ops, counts, flags, guards),
        counts[0] == 0,
        0 <= i <= k,
        k <= ops.len(),
        forall|j: int| 0 <= j < k ==> #[trigger] ops[j],
    ensures
        counts[i] == i,
    decreases i,
{
    if i > 0 {
        lemma_count_up(ops, counts, flags, guards, k, i - 1);
        assert(ops[i - 1]);
        assert(sleep_call(ops[i - 1], counts[i - 1], counts[i], flags[i - 1]));
    }
}

proof fn lemma_count_down(ops: Seq<bool>, counts: Seq<u64>, flags: Seq<bool>, guards: Seq<bool>, k: int, i: int)
    requires
        sleep_trace(ops, counts, flags, guards),
        counts[0] == 0,
        0 <= k <= i <= 2 * k,
        ops.len() == 2 * k,
        forall|j: int| 0 <= j < k ==> #[trigger] ops[j],
        forall|j: int| k <= j < 2 * k ==> !#[trigger] ops[j],
    ensures
        counts[i] == 2 * k - i,
    decreases i - k,
{
    if i == k {
        lemma_count_up(ops, counts, flags, guards, k, k);
    } else {
        lemma_count_down(ops, counts, flags, guards, k, i - 1);
        assert(!ops[i - 1]);
        assert(sleep_call(ops[i - 1], counts[i - 1], counts[i], flags[i - 1]));
    }
}

/// Whether a `state.*` call changes the revision: a `state.set` or `state.patch` of a path, or
/// a `state.delete` of a path that holds a document (one answered `deleted: true`).
pub open spec fn revises(s: SharedState, cmd: Seq<char>, args: JsonV) -> bool {
    path_of(args) is Some && (cmd == "state.set"@ || cmd == "state.patch"@ || (cmd
        == "state.delete"@ && s.docs().contains_key(path_of(args)->0)))
}

/// How many of the first `n` calls of a run changed the revision.
pub open spec fn revising_calls(states: Seq<SharedState>, cmds: Seq<Seq<char>>, args: Seq<JsonV>, n: int) -> int
    decreases n,
{
    if n <= 0 {
        0
    } else {
        revising_calls(states, cmds, args, n - 1) + if revises(states[n - 1], cmds[n - 1], args[n - 1]) {
            1int
        } else {
            0int
        }
    }
}

/// From a fresh store, across any run of calls, the revision is the number of calls that
/// changed a document: every `state.set` and `state.patch` of a path, and every `state.delete`
/// that deleted something. Everything else leaves it as it was, so it never decreases. (The
/// counter wraps to 0 after `u64::MAX` changes, so the run stays below that.)
pub proof fn law_revision_counts_changes(
    states: Seq<SharedState>,
    surfaces: SurfaceRegistry,
    cmds: Seq<Seq<char>>,
    args: Seq<JsonV>,
    replies: Seq<Option<Result<crate::json::Json, String>>>,
)
    requires
        args.len() == cmds.len(),
        replies.len() == cmds.len(),
        states.len() == cmds.len() + 1,
        states[0].rev() == 0,
        forall|i: int|
            0 <= i < cmds.len() ==> state_step(
                states[i],
                states[i + 1],
                surfaces,
                cmds[i],
                args[i],
                #[trigger] replies[i],
            ),
        revising_calls(states, cmds, args, cmds.len() as int) < u64::MAX,
    ensures
        forall|i: int| 0 <= i <= cmds.len() ==> #[trigger] states[i].rev() == revising_calls(states, cmds, args, i),
        forall|i: int, j: int| 0 <= i <= j <= cmds.len() ==> #[trigger] states[i].rev() <= #[trigger] states[j].rev(),
{
    assert forall|i: int| 0 <= i <= cmds.len() implies #[trigger] states[i].rev() == revising_calls(
        states,
        cmds,
        args,
        i,
    ) by {
        lemma_revision_prefix(states, surfaces, cmds, args, replies, i);
    }
    assert forall|i: int, j: int| 0 <= i <= j <= cmds.len() implies #[trigger] states[i].rev()
        <= #[trigger] states[j].rev() by {
        lemma_revising_calls_monotone(states, cmds, args, i, j);
    }
}

proof fn lemma_revising_calls_monotone(states: Seq<SharedState>, cmds: Seq<Seq<char>>, args: Seq<JsonV>, i: int, j: int)
    requires
        0 <= i <= j,
    ensures
        revising_calls(states, cmds, args, i) <= revising_calls(states, cmds, args, j),
    decreases j - i,
{
    if i < j {
        lemma_revising_calls_monotone(states, cmds, args, i, j - 1);
    }
}

proof fn lemma_revision_prefix(
    states: Seq<SharedState>,
    surfaces: SurfaceRegistry,
    cmds: Seq<Seq<char>>,
    args: Seq<JsonV>,
    replies: Seq<Option<Result<crate::json::Json, String>>>,
    i: int,
)
    requires
        args.len() == cmds.len(),
        replies.len() == cmds.len(),
        states.len() == cmds.len() + 1,
        states[0].rev() == 0,
        forall|j: int|
            0 <= j < cmds.len() ==> state_step(
                states[j],
                states[j + 1],
                surfaces,
                cmds[j],
                args[j],
                #[trigger] replies[j],
            ),
        revising_calls(states, cmds, args, cmds.len() as int) < u64::MAX,
        0 <= i <= cmds.len(),
    ensures
        states[i].rev() == revising_calls(states, cmds, args, i),
    decreases i,
{
    if i > 0 {
        lemma_revision_prefix(states, surfaces, cmds, args, replies, i - 1);
        lemma_revising_calls_monotone(states, cmds, args, i, cmds.len() as int);
        assert(state_step(states[i - 1], states[i], surfaces, cmds[i - 1], args[i - 1], replies[i - 1]));
        reveal_strlit("state.get");
        reveal_strlit("state.set");
        reveal_strlit("state.patch");
        reveal_strlit("state.delete");
        reveal_strlit("state.keys");
        reveal_strlit("state.surfaces");
    }
}


/// A cached access token is handed back only while more than 30 seconds of it remain (so one
/// that expired at or before `now` never is), and it is handed back whenever they do.
pub proof fn law_cached_token_only_while_fresh(cache: Option<(String, u64)>, now: u64, r: Option<String>)
    requires
        cached_token_answer(cache, now, r),
    ensures
        r is Some ==> cache is Some && now + 30 < (cache->0).1 && r->0@ == (cache->0).0@,
        cache is Some && (cache->0).1 <= now ==> r is None,
        cache is Some && now + 30 < (cache->0).1 ==> r is Some,
        cache is None ==> r is None,
{
}

/// The permissions an extension may ask for, as a list.
pub open spec fn known_permission_list() -> Seq<Seq<char>> {
    seq!["dialog"@, "tray"@, "menu"@, "deep-link"@, "fs:scoped"@, "opener"@]
}

proof fn lemma_all_known(ps: Seq<Seq<char>>)
    requires
        forall|i: int| 0 <= i < ps.len() ==> known_permission_list().contains(#[trigger] ps[i]),
    ensures
        first_unknown(ps) is None,
    decreases ps.len(),
{
    if ps.len() > 0 {
        let p = ps[0];
        assert(known_permission_list().contains(p));
        let j = choose|j: int| 0 <= j < known_permission_list().len() && known_permission_list()[j] == p;
        assert(known_permission(p));
        assert forall|i: int| 0 <= i < ps.drop_first().len() implies known_permission_list().contains(
            #[trigger] ps.drop_first()[i],
        ) by {
            assert(ps.drop_first()[i] == ps[i + 1]);
        }
        lemma_all_known(ps.drop_first());
    }
}

proof fn lemma_no_collision(id: Seq<char>, cmds: Seq<Seq<char>>, m: ManifestV)
    requires
        forall|a: int, b: int|
            0 <= a < m.commands.len() && 0 <= b < cmds.len() ==> namespaced(m.id, #[trigger] m.commands[a])
                != namespaced(id, #[trigger] cmds[b]),
    ensures
        first_collision(id, cmds, m) is None,
    decreases cmds.len(),
{
    if cmds.len() > 0 {
        if contributes(m, namespaced(id, cmds[0])) {
            let k = choose|k: int| 0 <= k < m.commands.len() && namespaced(m.id, #[trigger] m.commands[k]) == namespaced(id, cmds[0]);
            assert(namespaced(m.id, m.commands[k]) != namespaced(id, cmds[0]));
        }
        assert forall|a: int, b: int|
            0 <= a < m.commands.len() && 0 <= b < cmds.drop_first().len() implies namespaced(m.id, #[trigger] m.commands[a])
                != namespaced(id, #[trigger] cmds.drop_first()[b]) by {
            assert(cmds.drop_first()[b] == cmds[b + 1]);
        }
        lemma_no_collision(id, cmds.drop_first(), m);
    }
}

proof fn lemma_no_conflict(ms: Seq<ManifestV>, new: ManifestV)
    requires
        forall|i: int| 0 <= i < ms.len() ==> (#[trigger] ms[i]).id != new.id,
        forall|i: int, a: int, b: int|
            0 <= i < ms.len() && 0 <= a < ms[i].commands.len() && 0 <= b < new.commands.len()
                ==> namespaced(ms[i].id, #[trigger] ms[i].commands[a]) != namespaced(new.id, #[trigger] new.commands[b]),
    ensures
        first_conflict(ms, new) is None,
    decreases ms.len(),
{
    if ms.len() > 0 {
        let m = ms[0];
        assert forall|a: int, b: int|
            0 <= a < m.commands.len() && 0 <= b < new.commands.len() implies namespaced(m.id, #[trigger] m.commands[a])
                != namespaced(new.id, #[trigger] new.commands[b]) by {
            assert(ms[0].commands[a] == m.commands[a]);
        }
        lemma_no_collision(new.id, new.commands, m);
        let rest = ms.drop_first();
        assert forall|i: int| 0 <= i < rest.len() implies (#[trigger] rest[i]).id != new.id by {
            assert(rest[i] == ms[i + 1]);
        }
        assert forall|i: int, a: int, b: int|
            0 <= i < rest.len() && 0 <= a < rest[i].commands.len() && 0 <= b < new.commands.len()
                implies namespaced(rest[i].id, #[trigger] rest[i].commands[a]) != namespaced(new.id, #[trigger] new.commands[b]) by {
            assert(rest[i] == ms[i + 1]);
        }
        lemma_no_conflict(rest, new);
    }
}

/// An extension is accepted when each permission it asks for is one of `dialog`, `tray`,
/// `menu`, `deep-link`, `fs:scoped` and `opener`, its id is not taken, and none of its
/// namespaced commands is one a registered extension contributes.
pub proof fn law_known_permissions_are_accepted(ms: Seq<ManifestV>, new: ManifestV)
    requires
        forall|i: int| 0 <= i < new.permissions.len() ==> known_permission_list().contains(#[trigger] new.permissions[i]),
        forall|i: int| 0 <= i < ms.len() ==> (#[trigger] ms[i]).id != new.id,
        forall|i: int, a: int, b: int|
            0 <= i < ms.len() && 0 <= a < ms[i].commands.len() && 0 <= b < new.commands.len()
                ==> namespaced(ms[i].id, #[trigger] ms[i].commands[a]) != namespaced(new.id, #[trigger] new.commands[b]),
    ensures
        registration_error(ms, new) is None,
{
    lemma_all_known(new.permissions);
    lemma_no_conflict(ms, new);
}

/// An extension asking for a permission outside that list is refused, naming a permission
/// it asked for that is outside the list.
pub proof fn law_unknown_permission_is_refused(ms: Seq<ManifestV>, new: ManifestV, i: int)
    requires
        0 <= i < new.permissions.len(),
        !known_permission_list().contains(new.permissions[i]),
    ensures
        registration_error(ms, new) matches Some(e) && exists|j: int|
            0 <= j < new.permissions.len() && !known_permission_list().contains(new.permissions[j])
                && e == "unknown permission requested: "@ + #[trigger] new.permissions[j],
{
    lemma_first_unknown_found(new.permissions, i);
}

proof fn lemma_first_unknown_found(ps: Seq<Seq<char>>, i: int)
    requires
        0 <= i < ps.len(),
        !known_permission_list().contains(ps[i]),
    ensures
        first_unknown(ps) matches Some(p) && exists|j: int|
            0 <= j < ps.len() && !known_permission_list().contains(ps[j]) && p == #[trigger] ps[j],
    decreases ps.len(),
{
    let l = known_permission_list();
    if known_permission(ps[0]) {
        assert(l.contains(ps[0])) by {
            if ps[0] == "dialog"@ { assert(l[0] == ps[0]); }
            else if ps[0] == "tray"@ { assert(l[1] == ps[0]); }
            else if ps[0] == "menu"@ { assert(l[2] == ps[0]); }
            else if ps[0] == "deep-link"@ { assert(l[3] == ps[0]); }
            else if ps[0] == "fs:scoped"@ { assert(l[4] == ps[0]); }
            else { assert(l[5] == ps[0]); }
        }
        assert(i > 0);
        assert(ps.drop_first()[i - 1] == ps[i]);
        lemma_first_unknown_found(ps.drop_first(), i - 1);
        let p = first_unknown(ps)->0;
        let j = choose|j: int| 0 <= j < ps.drop_first().len() && !l.contains(ps.drop_first()[j]) && p == #[trigger] ps.drop_first()[j];
        assert(ps.drop_first()[j] == ps[j + 1]);
    } else {
        assert(!l.contains(ps[0])) by {
            if l.contains(ps[0]) {
                let j = choose|j: int| 0 <= j < l.len() && l[j] == ps[0];
            }
        }
    }
}

/// The enabled flag of a menu item is its boolean `enabled` member when it has one, and true
/// otherwise; it is a check item exactly when it has a boolean `checked` member, whose value is
/// its state; its id is its string `id` member, else `menu:` and its label; its accelerator is
/// its string `accelerator` member.
pub proof fn law_menu_item_flags(item: JsonV, label: Seq<char>)
    ensures
        ({
            let enabled = match member(item, "enabled"@) {
                Some(JsonV::Bool(b)) => b,
                _ => true,
            };
            let id = match member(item, "id"@) {
                Some(JsonV::Str(s)) => s,
                _ => "menu:"@ + label,
            };
            let accelerator = match member(item, "accelerator"@) {
                Some(JsonV::Str(s)) => Some(s),
                _ => None,
            };
            match leaf_spec(item, label) {
                MenuNodeV::Item { id: i, label: l, enabled: e, accelerator: a } => e == enabled && i
                    == id && l == label && a == accelerator && !(member(item, "checked"@) matches Some(
                    JsonV::Bool(_),
                )),
                MenuNodeV::Check { id: i, label: l, enabled: e, checked: c, accelerator: a } => e
                    == enabled && i == id && l == label && a == accelerator && member(item, "checked"@)
                    == Some(JsonV::Bool(c)),
                _ => false,
            }
        }),
{
}

/// An item that is neither a separator nor a submenu is a plain or check item whose enabled
/// flag is its boolean `enabled` member when it has one, and true otherwise.
pub proof fn law_menu_items_enabled(item: JsonV)
    requires
        !(member(item, "separator"@) == Some(JsonV::Bool(true))),
        !(item matches JsonV::Object(m) && m.contains_key("items"@) && m["items"@] is Array),
    ensures
        ({
            let enabled = match member(item, "enabled"@) {
                Some(JsonV::Bool(b)) => b,
                _ => true,
            };
            match menu_node_spec(item) {
                MenuNodeV::Item { enabled: e, .. } => e == enabled,
                MenuNodeV::Check { enabled: e, .. } => e == enabled,
                _ => false,
            }
        }),
{
    law_menu_item_flags(item, str_or(item, "label"@, "Item"@));
}


proof fn lemma_suffix_chars(p: Seq<char>, s: Seq<char>)
    requires
        3 <= s.len() <= 6,
    ensures
        has_suffix(p, s) == (s.len() <= p.len() && p[p.len() - 1] == s[s.len() - 1] && p[p.len() - 2]
            == s[s.len() - 2] && p[p.len() - 3] == s[s.len() - 3] && (s.len() >= 4 ==> p[p.len() - 4]
            == s[s.len() - 4]) && (s.len() >= 5 ==> p[p.len() - 5] == s[s.len() - 5]) && (s.len() >= 6
            ==> p[p.len() - 6] == s[s.len() - 6])),
{
    if s.len() <= p.len() {
        let t = p.subrange(p.len() - s.len(), p.len() as int);
        assert forall|k: int| 0 <= k < s.len() implies t[k] == p[p.len() - s.len() + k] by {}
        if t =~= s {
        }
        if p[p.len() - 1] == s[s.len() - 1] && p[p.len() - 2] == s[s.len() - 2] && p[p.len() - 3]
            == s[s.len() - 3] && (s.len() >= 4 ==> p[p.len() - 4] == s[s.len() - 4]) && (s.len() >= 5
            ==> p[p.len() - 5] == s[s.len() - 5]) && (s.len() >= 6 ==> p[p.len() - 6] == s[s.len() - 6]) {
            assert forall|k: int| 0 <= k < s.len() implies t[k] == s[k] by {
                assert(t[k] == p[p.len() - s.len() + k]);
            }
            assert(t =~= s);
        }
    }
}

/// The content type of a (lower-cased) path is fixed by its extension: `.css` text/css,
/// `.js`/`.mjs`/`.cjs` text/javascript, `.html`/`.htm` text/html, `.json`/`.map`
/// application/json (all with `charset=utf-8`), `.wasm` application/wasm, `.svg` image/svg+xml,
/// `.png` image/png, `.jpg`/`.jpeg` image/jpeg, `.gif` image/gif, `.webp` image/webp, `.ico`
/// image/x-icon, `.woff2`/`.woff`/`.ttf`/`.otf` font/...; any other path is
/// application/octet-stream.
pub proof fn law_content_type_table(p: Seq<char>)
    ensures
        has_suffix(p, ".css"@) ==> content_type_spec(p) == "text/css; charset=utf-8"@,
        has_suffix(p, ".js"@) ==> content_type_spec(p) == "text/javascript; charset=utf-8"@,
        has_suffix(p, ".mjs"@) ==> content_type_spec(p) == "text/javascript; charset=utf-8"@,
        has_suffix(p, ".cjs"@) ==> content_type_spec(p) == "text/javascript; charset=utf-8"@,
        has_suffix(p, ".html"@) ==> content_type_spec(p) == "text/html; charset=utf-8"@,
        has_suffix(p, ".htm"@) ==> content_type_spec(p) == "text/html; charset=utf-8"@,
        has_suffix(p, ".json"@) ==> content_type_spec(p) == "application/json; charset=utf-8"@,
        has_suffix(p, ".map"@) ==> content_type_spec(p) == "application/json; charset=utf-8"@,
        has_suffix(p, ".wasm"@) ==> content_type_spec(p) == "application/wasm"@,
        has_suffix(p, ".svg"@) ==> content_type_spec(p) == "image/svg+xml"@,
        has_suffix(p, ".png"@) ==> content_type_spec(p) == "image/png"@,
        has_suffix(p, ".jpg"@) ==> content_type_spec(p) == "image/jpeg"@,
        has_suffix(p, ".jpeg"@) ==> content_type_spec(p) == "image/jpeg"@,
        has_suffix(p, ".gif"@) ==> content_type_spec(p) == "image/gif"@,
        has_suffix(p, ".webp"@) ==> content_type_spec(p) == "image/webp"@,
        has_suffix(p, ".ico"@) ==> content_type_spec(p) == "image/x-icon"@,
        has_suffix(p, ".woff2"@) ==> content_type_spec(p) == "font/woff2"@,
        has_suffix(p, ".woff"@) ==> content_type_spec(p) == "font/woff"@,
        has_suffix(p, ".ttf"@) ==> content_type_spec(p) == "font/ttf"@,
        has_suffix(p, ".otf"@) ==> content_type_spec(p) == "font/otf"@,
        (!has_suffix(p, ".css"@) && !has_suffix(p, ".js"@) && !has_suffix(p, ".mjs"@) && !has_suffix(p, ".cjs"@) && !has_suffix(p, ".html"@) && !has_suffix(p, ".htm"@) && !has_suffix(p, ".json"@) && !has_suffix(p, ".map"@) && !has_suffix(p, ".wasm"@) && !has_suffix(p, ".svg"@) && !has_suffix(p, ".png"@) && !has_suffix(p, ".jpg"@) && !has_suffix(p, ".jpeg"@) && !has_suffix(p, ".gif"@) && !has_suffix(p, ".webp"@) && !has_suffix(p, ".ico"@) && !has_suffix(p, ".woff2"@) && !has_suffix(p, ".woff"@) && !has_suffix(p, ".ttf"@) && !has_suffix(p, ".otf"@)) ==> content_type_spec(p) == "application/octet-stream"@,
{
    reveal_strlit(".css");
    reveal_strlit(".js");
    reveal_strlit(".mjs");
    reveal_strlit(".cjs");
    reveal_strlit(".html");
    reveal_strlit(".htm");
    reveal_strlit(".json");
    reveal_strlit(".map");
    reveal_strlit(".wasm");
    reveal_strlit(".svg");
    reveal_strlit(".png");
    reveal_strlit(".jpg");
    reveal_strlit(".jpeg");
    reveal_strlit(".gif");
    reveal_strlit(".webp");
    reveal_strlit(".ico");
    reveal_strlit(".woff2");
    reveal_strlit(".woff");
    reveal_strlit(".ttf");
    reveal_strlit(".otf");
    lemma_suffix_chars(p, ".css"@);
    lemma_suffix_chars(p, ".js"@);
    lemma_suffix_chars(p, ".mjs"@);
    lemma_suffix_chars(p, ".cjs"@);
    lemma_suffix_chars(p, ".html"@);
    lemma_suffix_chars(p, ".htm"@);
    lemma_suffix_chars(p, ".json"@);
    lemma_suffix_chars(p, ".map"@);
    lemma_suffix_chars(p, ".wasm"@);
    lemma_suffix_chars(p, ".svg"@);
    lemma_suffix_chars(p, ".png"@);
    lemma_suffix_chars(p, ".jpg"@);
    lemma_suffix_chars(p, ".jpeg"@);
    lemma_suffix_chars(p, ".gif"@);
    lemma_suffix_chars(p, ".webp"@);
    lemma_suffix_chars(p, ".ico"@);
    lemma_suffix_chars(p, ".woff2"@);
    lemma_suffix_chars(p, ".woff"@);
    lemma_suffix_chars(p, ".ttf"@);
    lemma_suffix_chars(p, ".otf"@);
}

} // verus!
