//! Global shortcuts, sleep prevention, the clipboard and the process: the bookkeeping and the
//! argument rules behind those commands.

use vstd::prelude::*;

use base64::Engine;

use crate::chrome::{required_str, required_str_spec, str_or, text_result};
use crate::json::{json_as_u64, member, owned, str_member, Json, JsonNumber, JsonV};
use crate::text::str_eq;

verus! {

/// Registered global shortcuts: id to accelerator.
pub struct ShortcutTable {
    entries: Vec<(String, String)>,
}

pub open spec fn distinct_ids(s: Seq<(String, String)>) -> bool {
    forall|i: int, j: int| 0 <= i < j < s.len() ==> (#[trigger] s[i]).0@ != (#[trigger] s[j]).0@
}

pub open spec fn has_id(s: Seq<(String, String)>, k: Seq<char>) -> bool {
    exists|i: int| 0 <= i < s.len() && (#[trigger] s[i]).0@ == k
}

/// The accelerator of each registered id.
pub open spec fn table_map(s: Seq<(String, String)>) -> Map<Seq<char>, Seq<char>> {
    Map::new(
        |k: Seq<char>| has_id(s, k),
        |k: Seq<char>| s[choose|i: int| 0 <= i < s.len() && (#[trigger] s[i]).0@ == k].1@,
    )
}

/// With distinct ids, each stored pair is what the table maps its id to.
pub proof fn lemma_table_at(s: Seq<(String, String)>, i: int)
    requires
        distinct_ids(s),
        0 <= i < s.len(),
    ensures
        table_map(s).contains_key(s[i].0@),
        table_map(s)[s[i].0@] == s[i].1@,
{
    let k = s[i].0@;
    assert(has_id(s, k));
    let j = choose|j: int| 0 <= j < s.len() && (#[trigger] s[j]).0@ == k;
    if j != i {
        if j < i {
            assert(s[j].0@ != s[i].0@);
        } else {
            assert(s[i].0@ != s[j].0@);
        }
    }
}

/// What taking `id` out of a table whose map was `before` does: it answers the accelerator
/// registered under `id` and forgets it, or, for an id that is not registered, answers
/// `shortcut not registered: <id>` and changes nothing.
pub open spec fn take_step(
    before: Map<Seq<char>, Seq<char>>,
    after: Map<Seq<char>, Seq<char>>,
    id: Seq<char>,
    r: Result<String, String>,
) -> bool {
    match r {
        Ok(a) => before.contains_key(id) && before[id] == a@ && after == before.remove(id),
        Err(e) => !before.contains_key(id) && e@ == "shortcut not registered: "@ + id && after
            == before,
    }
}

impl ShortcutTable {
    #[verifier::type_invariant]
    spec fn inv(self) -> bool {
        distinct_ids(self.entries@)
    }

    /// Accelerator by shortcut id.
    pub closed spec fn map(&self) -> Map<Seq<char>, Seq<char>> {
        table_map(self.entries@)
    }

    pub fn new() -> (r: ShortcutTable)
        ensures
            r.map() == Map::<Seq<char>, Seq<char>>::empty(),
    {
        let r = ShortcutTable { entries: Vec::new() };
        assert(table_map(r.entries@) =~= Map::<Seq<char>, Seq<char>>::empty());
        r
    }

    fn find(&self, id: &str) -> (r: Option<usize>)
        ensures
            match r {
                Some(i) => i < self.entries@.len() && self.entries@[i as int].0@ == id@,
                None => !has_id(self.entries@, id@),
            },
    {
        let mut i: usize = 0;
        while i < self.entries.len()
            invariant
                i <= self.entries@.len(),
                forall|j: int| 0 <= j < i ==> (#[trigger] self.entries@[j]).0@ != id@,
            decreases self.entries@.len() - i,
        {
            if str_eq(self.entries[i].0.as_str(), id) {
                return Some(i);
            }
            i += 1;
        }
        None
    }

    /// The accelerator registered under `id`.
    pub fn get(&self, id: &str) -> (r: Option<String>)
        ensures
            match r {
                Some(a) => self.map().contains_key(id@) && self.map()[id@] == a@,
                None => !self.map().contains_key(id@),
            },
    {
        proof {
            use_type_invariant(self);
        }
        match self.find(id) {
            Some(i) => {
                proof {
                    lemma_table_at(self.entries@, i as int);
                }
                Some(self.entries[i].1.clone())
            },
            None => None,
        }
    }

    /// Records `id` → `accelerator`, replacing an earlier registration of `id`.
    pub fn record(&mut self, id: String, accelerator: String)
        ensures
            final(self).map() == old(self).map().insert(id@, accelerator@),
    {
        proof {
            use_type_invariant(&*self);
        }
        let found = self.find(id.as_str());
        let mut entries: Vec<(String, String)> = Vec::new();
        std::mem::swap(&mut entries, &mut self.entries);
        let ghost before = entries@;
        let ghost key = id@;
        let ghost val = accelerator@;
        match found {
            Some(i) => {
                entries.set(i, (id, accelerator));
                proof {
                    let after = entries@;
                    assert(distinct_ids(after)) by {
                        assert forall|a: int, b: int| 0 <= a < b < after.len() implies (#[trigger] after[a]).0@
                            != (#[trigger] after[b]).0@ by {
                            assert(before[a].0@ != before[b].0@);
                        }
                    }
                    assert forall|k: Seq<char>| #[trigger] has_id(after, k) == (has_id(before, k) || k == key) by {
                        if has_id(before, k) {
                            let j = choose|j: int| 0 <= j < before.len() && (#[trigger] before[j]).0@ == k;
                            assert(after[j].0@ == before[j].0@);
                        }
                        if has_id(after, k) {
                            let j = choose|j: int| 0 <= j < after.len() && (#[trigger] after[j]).0@ == k;
                            assert(after[j].0@ == before[j].0@);
                        }
                    }
                    assert forall|k: Seq<char>| #[trigger] table_map(after).contains_key(k) implies table_map(after)[k]
                        == table_map(before).insert(key, val)[k] by {
                        let j = choose|j: int| 0 <= j < after.len() && (#[trigger] after[j]).0@ == k;
                        lemma_table_at(after, j);
                        if k != key {
                            assert(before[j] == after[j]);
                            lemma_table_at(before, j);
                        }
                    }
                    assert(table_map(after) =~= table_map(before).insert(key, val));
                }
            },
            None => {
                entries.push((id, accelerator));
                proof {
                    let after = entries@;
                    assert(distinct_ids(after)) by {
                        assert forall|a: int, b: int| 0 <= a < b < after.len() implies (#[trigger] after[a]).0@
                            != (#[trigger] after[b]).0@ by {
                            if b == before.len() {
                                assert(after[a] == before[a]);
                            } else {
                                assert(before[a].0@ != before[b].0@);
                            }
                        }
                    }
                    assert forall|k: Seq<char>| #[trigger] has_id(after, k) == (has_id(before, k) || k == key) by {
                        if has_id(before, k) {
                            let j = choose|j: int| 0 <= j < before.len() && (#[trigger] before[j]).0@ == k;
                            assert(after[j] == before[j]);
                        }
                        if k == key {
                            assert(after[before.len() as int].0@ == key);
                        }
                        if has_id(after, k) && k != key {
                            let j = choose|j: int| 0 <= j < after.len() && (#[trigger] after[j]).0@ == k;
                            assert(after[j] == before[j]);
                        }
                    }
                    assert forall|k: Seq<char>| #[trigger] table_map(after).contains_key(k) implies table_map(after)[k]
                        == table_map(before).insert(key, val)[k] by {
                        let j = choose|j: int| 0 <= j < after.len() && (#[trigger] after[j]).0@ == k;
                        lemma_table_at(after, j);
                        if k != key {
                            assert(after[j] == before[j]);
                            lemma_table_at(before, j);
                        }
                    }
                    assert(table_map(after) =~= table_map(before).insert(key, val));
                }
            },
        }
        self.entries = entries;
    }

    /// Removes `id`, answering its accelerator, or the error for an id that is not registered.
    pub fn take(&mut self, id: &str) -> (r: Result<String, String>)
        ensures
            take_step(old(self).map(), final(self).map(), id@, r),
    {
        proof {
            use_type_invariant(&*self);
        }
        match self.find(id) {
            None => Err(String::from_str("shortcut not registered: ").concat(id)),
            Some(i) => {
                proof {
                    lemma_table_at(self.entries@, i as int);
                }
                let mut entries: Vec<(String, String)> = Vec::new();
                std::mem::swap(&mut entries, &mut self.entries);
                let ghost before = entries@;
                let (_, acc) = entries.remove(i);
                proof {
                    let after = entries@;
                    assert(after =~= before.remove(i as int));
                    assert(distinct_ids(after)) by {
                        assert forall|a: int, b: int| 0 <= a < b < after.len() implies (#[trigger] after[a]).0@
                            != (#[trigger] after[b]).0@ by {
                            let oa = if a < i { a } else { a + 1 };
                            let ob = if b < i { b } else { b + 1 };
                            assert(after[a] == before[oa] && after[b] == before[ob]);
                            assert(before[oa].0@ != before[ob].0@);
                        }
                    }
                    assert forall|k: Seq<char>| #[trigger] has_id(after, k) == (has_id(before, k) && k != id@) by {
                        if has_id(before, k) && k != id@ {
                            let j = choose|j: int| 0 <= j < before.len() && (#[trigger] before[j]).0@ == k;
                            assert(j != i);
                            let oj = if j < i { j } else { j - 1 };
                            assert(after[oj] == before[j]);
                        }
                        if has_id(after, k) {
                            let j = choose|j: int| 0 <= j < after.len() && (#[trigger] after[j]).0@ == k;
                            let oj = if j < i { j } else { j + 1 };
                            assert(after[j] == before[oj]);
                            assert(oj != i);
                            if oj < i {
                                assert(before[oj].0@ != before[i as int].0@);
                            } else {
                                assert(before[i as int].0@ != before[oj].0@);
                            }
                        }
                    }
                    assert forall|k: Seq<char>| #[trigger] table_map(after).contains_key(k) implies table_map(after)[k]
                        == table_map(before).remove(id@)[k] by {
                        let j = choose|j: int| 0 <= j < after.len() && (#[trigger] after[j]).0@ == k;
                        lemma_table_at(after, j);
                        let oj = if j < i { j } else { j + 1 };
                        assert(after[j] == before[oj]);
                        lemma_table_at(before, oj);
                    }
                    assert(table_map(after) =~= table_map(before).remove(id@));
                }
                self.entries = entries;
                Ok(acc)
            },
        }
    }

    /// Forgets every shortcut.
    pub fn clear(&mut self)
        ensures
            final(self).map() == Map::<Seq<char>, Seq<char>>::empty(),
    {
        self.entries = Vec::new();
        assert(table_map(self.entries@) =~= Map::<Seq<char>, Seq<char>>::empty());
    }
}

/// The accelerator `shortcut.isRegistered` asks about: `accelerator`, else the one registered
/// under `id`.
pub fn accelerator_for(table: &ShortcutTable, args: &Json) -> (r: Result<String, String>)
    ensures
        match str_member(args@, "accelerator"@) {
            Some(a) => r matches Ok(x) && x@ == a,
            None => match str_member(args@, "id"@) {
                Some(id) => if table.map().contains_key(id) {
                    r matches Ok(x) && x@ == table.map()[id]
                } else {
                    r matches Err(e) && e@ == "shortcut not registered: "@ + id
                },
                None => r matches Err(e) && e@ == "id or accelerator required"@,
            },
        },
{
    match args.str_member("accelerator") {
        Some(a) => Ok(owned(a)),
        None => match args.str_member("id") {
            Some(id) => match table.get(id) {
                Some(a) => Ok(a),
                None => Err(String::from_str("shortcut not registered: ").concat(id)),
            },
            None => Err(owned("id or accelerator required")),
        },
    }
}

/// `shortcut.register`: the `id` and `accelerator` (both required, in that order).
pub fn shortcut_args(args: &Json) -> (r: Result<(String, String), String>)
    ensures
        match str_member(args@, "id"@) {
            None => r matches Err(e) && e@ == "id required"@,
            Some(id) => match str_member(args@, "accelerator"@) {
                None => r matches Err(e) && e@ == "accelerator required"@,
                Some(a) => r matches Ok((x, y)) && x@ == id && y@ == a,
            },
        },
{
    let id = match required_str(args, "id", "id required") {
        Ok(i) => i,
        Err(e) => {
            return Err(e);
        },
    };
    match required_str(args, "accelerator", "accelerator required") {
        Ok(a) => Ok((id, a)),
        Err(e) => Err(e),
    }
}

/// Nested sleep prevention: the OS guard is held while at least one block is.
pub struct SleepBlocks {
    pub count: u64,
}

impl SleepBlocks {
    /// Adds a block; `true` when the OS guard must be created (the first block).
    pub fn prevent(&mut self) -> (r: bool)
        requires
            old(self).count < u64::MAX,
        ensures
            final(self).count == old(self).count + 1,
            r == (old(self).count == 0),
    {
        let first = self.count == 0;
        self.count = self.count + 1;
        first
    }

    /// Releases a block (none below zero); `true` when the OS guard must be dropped.
    pub fn allow(&mut self) -> (r: bool)
        ensures
            final(self).count == (if old(self).count > 0 {
                old(self).count - 1
            } else {
                0
            }),
            r == (final(self).count == 0),
    {
        if self.count > 0 {
            self.count = self.count - 1;
        }
        self.count == 0
    }
}

/// The answer of `power.preventSleep` and `power.allowSleep`: `{ ok: true, blocks }`, the
/// blocks held after the call.
pub fn blocks_reply(blocks: &SleepBlocks) -> (r: Json)
    ensures
        r@ == crate::json::ok_obj(seq![("blocks"@, JsonV::Number(JsonNumber::PosInt(blocks.count)))]),
{
    let mut rest: Vec<(String, Json)> = Vec::new();
    rest.push((owned("blocks"), Json::Number(JsonNumber::PosInt(blocks.count))));
    let r = crate::json::ok_object(rest);
    assert(crate::json::member_views(rest@) =~= seq![
        ("blocks"@, JsonV::Number(JsonNumber::PosInt(blocks.count))),
    ]);
    r
}

/// One call on the sleep blocks: `prevent` (else `allow`) took the count from `before` to
/// `after` and answered `flag`, as their contracts state.
pub open spec fn sleep_call(prevent: bool, before: u64, after: u64, flag: bool) -> bool {
    if prevent {
        after == before + 1 && flag == (before == 0)
    } else {
        after == (if before > 0 {
            before - 1
        } else {
            0
        }) && flag == (after == 0)
    }
}

/// The host's OS guard after a call: created when `prevent` answers `true`, dropped when
/// `allow` answers `true`, else as it was.
pub open spec fn guard_after(prevent: bool, flag: bool, held: bool) -> bool {
    if prevent {
        held || flag
    } else {
        held && !flag
    }
}

/// A run of calls on the sleep blocks: `ops[i]` is `true` for `prevent`, `counts[i]` the count
/// before call `i`, `guards[i]` whether the host held the guard before it.
pub open spec fn sleep_trace(ops: Seq<bool>, counts: Seq<u64>, flags: Seq<bool>, guards: Seq<bool>) -> bool {
    &&& counts.len() == ops.len() + 1
    &&& guards.len() == ops.len() + 1
    &&& flags.len() == ops.len()
    &&& forall|i: int|
        #![trigger flags[i]]
        0 <= i < ops.len() ==> sleep_call(ops[i], counts[i], counts[i + 1], flags[i])
            && guards[i + 1] == guard_after(ops[i], flags[i], guards[i])
}

/// The reason given to the OS for preventing sleep.
pub fn sleep_reason(args: &Json) -> (r: String)
    ensures
        r@ == str_or(args@, "reason"@, "User requested"@),
{
    crate::chrome::str_arg_or(args, "reason", "User requested")
}

/// The exit code of `process.exit`: `code` when it is an integer (truncated to `i32`), else 0.
pub open spec fn exit_code_spec(args: JsonV) -> i32 {
    match member(args, "code"@) {
        Some(JsonV::Number(JsonNumber::PosInt(n))) => if n <= i64::MAX {
            (n as i64) as i32
        } else {
            0
        },
        Some(JsonV::Number(JsonNumber::NegInt(i))) => i as i32,
        _ => 0,
    }
}

pub fn exit_code(args: &Json) -> (r: i32)
    ensures
        r == exit_code_spec(args@),
{
    match args.get("code") {
        Some(Json::Number(JsonNumber::PosInt(n))) => if *n <= 0x7fff_ffff_ffff_ffffu64 {
            #[verifier::truncate]
            let v = (*n as i64) as i32;
            v
        } else {
            0
        },
        Some(Json::Number(JsonNumber::NegInt(i))) => {
            #[verifier::truncate]
            let v = *i as i32;
            v
        },
        _ => 0,
    }
}

/// What `base64`'s standard engine decodes from `s`: the bytes, or the decode error's message.
pub uninterp spec fn base64_standard_decoded(s: Seq<char>) -> Result<Seq<u8>, Seq<char>>;

/// Trusted: `base64::engine::general_purpose::STANDARD.decode`; the outcome is named.
#[verifier::external_body]
fn decode_base64(s: &str) -> (r: Result<Vec<u8>, String>)
    ensures
        match r {
            Ok(b) => base64_standard_decoded(s@) == Ok::<Seq<u8>, Seq<char>>(b@),
            Err(e) => base64_standard_decoded(s@) == Err::<Seq<u8>, Seq<char>>(e@),
        },
{
    base64::engine::general_purpose::STANDARD.decode(s).map_err(|e| e.to_string())
}

/// What `base64`'s standard engine makes of `b`.
pub open spec fn base64_standard(b: Seq<u8>) -> Seq<char> {
    crate::text::base64_encoded(b, false, true)
}

/// Trusted: `base64::engine::general_purpose::STANDARD.encode`: the RFC 4648 encoding in the
/// standard alphabet, padded with `=`.
#[verifier::external_body]
fn encode_base64(b: &[u8]) -> (r: String)
    ensures
        r@ == base64_standard(b@),
{
    base64::engine::general_purpose::STANDARD.encode(b)
}

/// `{ ok: true, width, height, rgba }`: a clipboard image with its RGBA bytes in base64.
pub fn image_reply(width: u32, height: u32, rgba: &[u8]) -> (r: Json)
    ensures
        r@ == crate::json::ok_obj(
            seq![
                ("width"@, JsonV::Number(JsonNumber::PosInt(width as u64))),
                ("height"@, JsonV::Number(JsonNumber::PosInt(height as u64))),
                ("rgba"@, JsonV::Str(base64_standard(rgba@))),
            ],
        ),
{
    let b64 = encode_base64(rgba);
    let mut rest: Vec<(String, Json)> = Vec::new();
    rest.push((owned("width"), Json::Number(JsonNumber::PosInt(width as u64))));
    rest.push((owned("height"), Json::Number(JsonNumber::PosInt(height as u64))));
    rest.push((owned("rgba"), Json::Str(b64)));
    assert(crate::json::member_views(rest@) =~= seq![
        ("width"@, JsonV::Number(JsonNumber::PosInt(width as u64))),
        ("height"@, JsonV::Number(JsonNumber::PosInt(height as u64))),
        ("rgba"@, JsonV::Str(base64_standard(rgba@))),
    ]);
    crate::json::ok_object(rest)
}

/// An image for `clipboard.writeImage`: width and height (unsigned integers, cut to 32 bits)
/// and the decoded RGBA bytes.
pub open spec fn u64_member(args: JsonV, k: Seq<char>) -> Option<u64> {
    match member(args, k) {
        Some(v) => json_as_u64(v),
        None => None,
    }
}

pub open spec fn image_args_spec(args: JsonV) -> Result<(u32, u32, Seq<u8>), Seq<char>> {
    match u64_member(args, "width"@) {
        None => Err("width required"@),
        Some(w) => match u64_member(args, "height"@) {
            None => Err("height required"@),
            Some(h) => match str_member(args, "rgba"@) {
                None => Err("rgba (base64) required"@),
                Some(b64) => match base64_standard_decoded(b64) {
                    Err(e) => Err(e),
                    Ok(bytes) => Ok((w as u32, h as u32, bytes)),
                },
            },
        },
    }
}

pub fn image_args(args: &Json) -> (r: Result<(u32, u32, Vec<u8>), String>)
    ensures
        match image_args_spec(args@) {
            Err(e) => r matches Err(m) && m@ == e,
            Ok((w, h, b)) => r matches Ok((x, y, z)) && x == w && y == h && z@ == b,
        },
{
    let w = match args.get("width") {
        Some(v) => match v.as_u64() {
            Some(n) => n,
            None => {
                return Err(owned("width required"));
            },
        },
        None => {
            return Err(owned("width required"));
        },
    };
    let h = match args.get("height") {
        Some(v) => match v.as_u64() {
            Some(n) => n,
            None => {
                return Err(owned("height required"));
            },
        },
        None => {
            return Err(owned("height required"));
        },
    };
    let b64 = match args.str_member("rgba") {
        Some(s) => s,
        None => {
            return Err(owned("rgba (base64) required"));
        },
    };
    let bytes = match decode_base64(b64) {
        Ok(b) => b,
        Err(e) => {
            return Err(e);
        },
    };
    #[verifier::truncate]
    let wt = w as u32;
    #[verifier::truncate]
    let ht = h as u32;
    Ok((wt, ht, bytes))
}

/// `clipboard.writeText`: the `text` (required).
pub fn clipboard_text_arg(args: &Json) -> (r: Result<String, String>)
    ensures
        text_result(r) == required_str_spec(args@, "text"@, "text required"@),
{
    required_str(args, "text", "text required")
}

} // verus!
