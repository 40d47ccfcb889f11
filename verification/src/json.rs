use vstd::prelude::*;

verus! {

/// A JSON number, stored as serde_json stores it: a non-negative integer, a negative integer,
/// or a finite float (held here by its IEEE-754 bit pattern, which the library only carries).
#[derive(Clone, Copy, Debug, PartialEq, Eq, Structural)]
pub enum JsonNumber {
    PosInt(u64),
    NegInt(i64),
    Float(u64),
}

/// A JSON document: the value type that crosses the broker boundary.
#[derive(Debug, PartialEq)]
pub enum Json {
    Null,
    Bool(bool),
    Number(JsonNumber),
    Str(String),
    Array(Vec<Json>),
    Object(Vec<(String, Json)>),
}

/// The mathematical value of a JSON document. Object members form a map from key to value.
pub enum JsonV {
    Null,
    Bool(bool),
    Number(JsonNumber),
    Str(Seq<char>),
    Array(Seq<JsonV>),
    Object(Map<Seq<char>, JsonV>),
}

pub open spec fn json_view(j: Json) -> JsonV
    decreases j,
{
    match j {
        Json::Null => JsonV::Null,
        Json::Bool(b) => JsonV::Bool(b),
        Json::Number(n) => JsonV::Number(n),
        Json::Str(s) => JsonV::Str(s@),
        Json::Array(v) => JsonV::Array(items_view(v@)),
        Json::Object(p) => JsonV::Object(members_view(p@)),
    }
}

/// Views of array items, in order.
pub open spec fn items_view(s: Seq<Json>) -> Seq<JsonV>
    decreases s,
{
    if s.len() == 0 {
        Seq::empty()
    } else {
        seq![json_view(s[0])] + items_view(s.subrange(1, s.len() as int))
    }
}

/// Map of object members; where a key occurs twice, the first occurrence is the one seen.
pub open spec fn members_view(p: Seq<(String, Json)>) -> Map<Seq<char>, JsonV>
    decreases p,
{
    if p.len() == 0 {
        Map::empty()
    } else {
        members_view(p.subrange(1, p.len() as int)).insert(p[0].0@, json_view(p[0].1))
    }
}

impl View for Json {
    type V = JsonV;

    open spec fn view(&self) -> JsonV {
        json_view(*self)
    }
}

} // verus!

verus! {

/// Deep merge of `patch` into `base`: two objects merge member by member (a member present in
/// both merges recursively, one present in only one side is kept as is); in every other case
/// the patch replaces the base.
pub open spec fn merge_spec(base: JsonV, patch: JsonV) -> JsonV
    decreases patch,
{
    match (base, patch) {
        (JsonV::Object(a), JsonV::Object(b)) => JsonV::Object(
            Map::new(
                |k: Seq<char>| a.contains_key(k) || b.contains_key(k),
                |k: Seq<char>|
                    if b.contains_key(k) {
                        if a.contains_key(k) {
                            merge_spec(a[k], b[k])
                        } else {
                            b[k]
                        }
                    } else {
                        a[k]
                    },
            ),
        ),
        (_, p) => p,
    }
}

/// The members of the merge of two objects (the object case of `merge_spec`).
pub open spec fn merged_members(a: Map<Seq<char>, JsonV>, b: Map<Seq<char>, JsonV>) -> Map<
    Seq<char>,
    JsonV,
> {
    Map::new(
        |k: Seq<char>| a.contains_key(k) || b.contains_key(k),
        |k: Seq<char>|
            if b.contains_key(k) {
                if a.contains_key(k) {
                    merge_spec(a[k], b[k])
                } else {
                    b[k]
                }
            } else {
                a[k]
            },
    )
}

} // verus!

verus! {

pub proof fn lemma_items_view_index(s: Seq<Json>)
    ensures
        items_view(s).len() == s.len(),
        forall|i: int| 0 <= i < s.len() ==> #[trigger] items_view(s)[i] == json_view(s[i]),
    decreases s.len(),
{
    if s.len() > 0 {
        lemma_items_view_index(s.subrange(1, s.len() as int));
        assert forall|i: int| 0 <= i < s.len() implies #[trigger] items_view(s)[i] == json_view(
            s[i],
        ) by {
            if i > 0 {
                assert(s.subrange(1, s.len() as int)[i - 1] == s[i]);
            }
        }
    }
}

pub proof fn lemma_items_view_push(s: Seq<Json>, x: Json)
    ensures
        items_view(s.push(x)) == items_view(s).push(json_view(x)),
{
    lemma_items_view_index(s);
    lemma_items_view_index(s.push(x));
    assert(items_view(s.push(x)) =~= items_view(s).push(json_view(x)));
}

/// Members of `p + q`: those of `p` take precedence.
pub proof fn lemma_members_view_concat(p: Seq<(String, Json)>, q: Seq<(String, Json)>)
    ensures
        members_view(p + q) == members_view(q).union_prefer_right(members_view(p)),
    decreases p.len(),
{
    if p.len() == 0 {
        assert(p + q =~= q);
        assert(members_view(q).union_prefer_right(members_view(p)) =~= members_view(q));
    } else {
        let p1 = p.subrange(1, p.len() as int);
        lemma_members_view_concat(p1, q);
        assert((p + q).subrange(1, (p + q).len() as int) =~= p1 + q);
        assert((p + q)[0] == p[0]);
        assert(members_view(p + q) =~= members_view(q).union_prefer_right(members_view(p)));
    }
}

pub proof fn lemma_members_view_single(x: (String, Json))
    ensures
        members_view(seq![x]) == Map::<Seq<char>, JsonV>::empty().insert(x.0@, json_view(x.1)),
{
    let e = Seq::<(String, Json)>::empty();
    assert(seq![x].subrange(1, 1) =~= e);
    assert(members_view(e) == Map::<Seq<char>, JsonV>::empty());
    assert(members_view(seq![x]) == members_view(e).insert(x.0@, json_view(x.1)));
}

pub proof fn lemma_members_view_push(p: Seq<(String, Json)>, x: (String, Json))
    requires
        !members_view(p).contains_key(x.0@),
    ensures
        members_view(p.push(x)) == members_view(p).insert(x.0@, json_view(x.1)),
{
    lemma_members_view_concat(p, seq![x]);
    lemma_members_view_single(x);
    assert(p + seq![x] =~= p.push(x));
    assert(members_view(p.push(x)) =~= members_view(p).insert(x.0@, json_view(x.1)));
}

/// A key is a member exactly when some pair carries it.
pub proof fn lemma_members_view_dom(p: Seq<(String, Json)>, k: Seq<char>)
    ensures
        members_view(p).contains_key(k) <==> exists|i: int| 0 <= i < p.len() && (#[trigger] p[i]).0@ == k,
    decreases p.len(),
{
    if p.len() > 0 {
        let p1 = p.subrange(1, p.len() as int);
        lemma_members_view_dom(p1, k);
        if members_view(p).contains_key(k) {
            if p[0].0@ != k {
                let j = choose|j: int| 0 <= j < p1.len() && (#[trigger] p1[j]).0@ == k;
                assert(p[j + 1] == p1[j]);
            }
        }
        if exists|i: int| 0 <= i < p.len() && (#[trigger] p[i]).0@ == k {
            let i = choose|i: int| 0 <= i < p.len() && (#[trigger] p[i]).0@ == k;
            if i > 0 {
                assert(p1[i - 1] == p[i]);
            }
        }
    }
}

/// The member stored under a key is the value of the first pair that carries it.
pub proof fn lemma_members_view_first(p: Seq<(String, Json)>, i: int)
    requires
        0 <= i < p.len(),
        forall|j: int| 0 <= j < i ==> (#[trigger] p[j]).0@ != p[i].0@,
    ensures
        members_view(p).contains_key(p[i].0@),
        members_view(p)[p[i].0@] == json_view(p[i].1),
{
    let a = p.subrange(0, i);
    let b = p.subrange(i, p.len() as int);
    assert(p =~= a + b);
    lemma_members_view_concat(a, b);
    lemma_members_view_dom(a, p[i].0@);
    assert(b[0] == p[i]);
    assert(!members_view(a).contains_key(p[i].0@)) by {
        if members_view(a).contains_key(p[i].0@) {
            let j = choose|j: int| 0 <= j < a.len() && (#[trigger] a[j]).0@ == p[i].0@;
            assert(a[j] == p[j]);
        }
    }
}

} // verus!

verus! {

/// The value of the first pair that carries key `k`, in the order the pairs are stored.
pub open spec fn pairs_lookup(p: Seq<(String, Json)>, k: Seq<char>) -> Option<Json>
    decreases p.len(),
{
    if p.len() == 0 {
        None
    } else if p[0].0@ == k {
        Some(p[0].1)
    } else {
        pairs_lookup(p.drop_first(), k)
    }
}

/// Member `k` of an object, as stored (first occurrence).
pub open spec fn json_lookup(j: Json, k: Seq<char>) -> Option<Json> {
    match j {
        Json::Object(p) => pairs_lookup(p@, k),
        _ => None,
    }
}

pub proof fn lemma_pairs_lookup_first(p: Seq<(String, Json)>, i: int, k: Seq<char>)
    requires
        0 <= i < p.len(),
        p[i].0@ == k,
        forall|j: int| 0 <= j < i ==> (#[trigger] p[j]).0@ != k,
    ensures
        pairs_lookup(p, k) == Some(p[i].1),
    decreases i,
{
    if i > 0 {
        let q = p.drop_first();
        assert forall|j: int| 0 <= j < i - 1 implies (#[trigger] q[j]).0@ != k by {
            assert(q[j] == p[j + 1]);
        }
        lemma_pairs_lookup_first(q, i - 1, k);
    }
}

/// A found member is the value of one of the pairs.
pub proof fn lemma_pairs_lookup_some(p: Seq<(String, Json)>, k: Seq<char>) -> (i: int)
    requires
        pairs_lookup(p, k) is Some,
    ensures
        0 <= i < p.len(),
        p[i].1 == pairs_lookup(p, k)->0,
    decreases p.len(),
{
    if p[0].0@ == k {
        0
    } else {
        let j = lemma_pairs_lookup_some(p.drop_first(), k);
        assert(p.drop_first()[j] == p[j + 1]);
        j + 1
    }
}

pub proof fn lemma_pairs_lookup_none(p: Seq<(String, Json)>, k: Seq<char>)
    requires
        forall|j: int| 0 <= j < p.len() ==> (#[trigger] p[j]).0@ != k,
    ensures
        pairs_lookup(p, k) is None,
    decreases p.len(),
{
    if p.len() > 0 {
        let q = p.drop_first();
        assert forall|j: int| 0 <= j < q.len() implies (#[trigger] q[j]).0@ != k by {
            assert(q[j] == p[j + 1]);
        }
        lemma_pairs_lookup_none(q, k);
    }
}

} // verus!

verus! {

impl Json {
    /// The member `key` of an object; `None` for a missing key or a value that is not an object.
    pub fn get(&self, key: &str) -> (r: Option<&Json>)
        ensures
            match self@ {
                JsonV::Object(m) => match r {
                    Some(v) => m.contains_key(key@) && v@ == m[key@],
                    None => !m.contains_key(key@),
                },
                _ => r is None,
            },
            match r {
                Some(v) => json_lookup(*self, key@) == Some(*v),
                None => json_lookup(*self, key@) is None,
            },
    {
        match self {
            Json::Object(p) => {
                let mut i: usize = 0;
                while i < p.len()
                    invariant
                        i <= p.len(),
                        *self == Json::Object(*p),
                        forall|j: int| 0 <= j < i ==> (#[trigger] p@[j]).0@ != key@,
                    decreases p.len() - i,
                {
                    if crate::text::str_eq(p[i].0.as_str(), key) {
                        proof {
                            assert(p@[i as int].0@ == key@);
                            lemma_members_view_first(p@, i as int);
                            lemma_pairs_lookup_first(p@, i as int, key@);
                        }
                        return Some(&p[i].1);
                    }
                    i += 1;
                }
                proof {
                    lemma_members_view_dom(p@, key@);
                    lemma_pairs_lookup_none(p@, key@);
                }
                None
            },
            _ => None,
        }
    }

    /// The text of a string value.
    pub fn as_str(&self) -> (r: Option<&str>)
        ensures
            match self@ {
                JsonV::Str(s) => r matches Some(t) && t@ == s,
                _ => r is None,
            },
    {
        match self {
            Json::Str(s) => Some(s.as_str()),
            _ => None,
        }
    }

    /// The value of a non-negative integer number.
    pub fn as_u64(&self) -> (r: Option<u64>)
        ensures
            r == json_as_u64(self@),
    {
        match self {
            Json::Number(JsonNumber::PosInt(n)) => Some(*n),
            _ => None,
        }
    }

    /// A copy with the same value.
    pub fn deep_clone(&self) -> (r: Json)
        ensures
            r@ == self@,
        decreases self,
    {
        match self {
            Json::Null => Json::Null,
            Json::Bool(b) => Json::Bool(*b),
            Json::Number(n) => Json::Number(*n),
            Json::Str(s) => Json::Str(s.clone()),
            Json::Array(v) => {
                let mut out: Vec<Json> = Vec::new();
                let mut i: usize = 0;
                while i < v.len()
                    invariant
                        i <= v.len(),
                        *self == Json::Array(*v),
                        items_view(out@) == items_view(v@.subrange(0, i as int)),
                    decreases v.len() - i,
                {
                    proof {
                        assert(decreases_to!(*self => (*self)->Array_0));
                        assert(decreases_to!(*v => v@));
                        assert(decreases_to!(v@ => v@[i as int]));
                    }
                    let c = v[i].deep_clone();
                    proof {
                        lemma_items_view_push(out@, c);
                        lemma_items_view_push(v@.subrange(0, i as int), v@[i as int]);
                        assert(v@.subrange(0, i as int).push(v@[i as int]) =~= v@.subrange(0, i + 1));
                    }
                    out.push(c);
                    i += 1;
                }
                assert(v@.subrange(0, v@.len() as int) =~= v@);
                Json::Array(out)
            },
            Json::Object(p) => {
                let mut out: Vec<(String, Json)> = Vec::new();
                let mut i: usize = 0;
                while i < p.len()
                    invariant
                        i <= p.len(),
                        *self == Json::Object(*p),
                        out@.len() == i,
                        forall|j: int| 0 <= j < i ==> (#[trigger] out@[j]).0@ == p@[j].0@,
                        members_view(out@) == members_view(p@.subrange(0, i as int)),
                    decreases p.len() - i,
                {
                    proof {
                        assert(decreases_to!(*self => (*self)->Object_0));
                        assert(decreases_to!(*p => p@));
                        assert(decreases_to!(p@ => p@[i as int]));
                        assert(decreases_to!(p@[i as int] => p@[i as int].1));
                    }
                    let c = p[i].1.deep_clone();
                    let k = p[i].0.clone();
                    proof {
                        let x = (k, c);
                        let y = p@[i as int];
                        lemma_members_view_concat(out@, seq![x]);
                        lemma_members_view_concat(p@.subrange(0, i as int), seq![y]);
                        lemma_members_view_single(x);
                        lemma_members_view_single(y);
                        assert(out@ + seq![x] =~= out@.push(x));
                        assert(p@.subrange(0, i as int) + seq![y] =~= p@.subrange(0, i + 1));
                    }
                    out.push((k, c));
                    i += 1;
                }
                assert(p@.subrange(0, p@.len() as int) =~= p@);
                Json::Object(out)
            },
        }
    }
}

} // verus!

verus! {

/// Removes every member stored under `key`, and hands back the value of the first.
pub fn take_member(members: &mut Vec<(String, Json)>, key: &String) -> (r: Option<Json>)
    ensures
        final(members)@.len() <= old(members)@.len(),
        distinct_keys(old(members)@) ==> distinct_keys(final(members)@),
        forall|i: int| 0 <= i < final(members)@.len() ==> (#[trigger] final(members)@[i]).0@ != key@,
        members_view(final(members)@) == members_view(old(members)@).remove(key@),
        forall|i: int|
            0 <= i < final(members)@.len() ==> exists|j: int|
                0 <= j < old(members)@.len() && #[trigger] final(members)@[i] == old(members)@[j],
        match r {
            Some(v) => members_view(old(members)@).contains_key(key@) && v@ == members_view(
                old(members)@,
            )[key@],
            None => !members_view(old(members)@).contains_key(key@),
        },
{
    let len0 = members.len();
    let ghost orig = members@;
    assert(orig.len() == len0);
    let mut pending: Vec<(String, Json)> = Vec::new();
    std::mem::swap(&mut pending, members);
    let mut found: Option<Json> = None;
    let mut n: usize = 0;
    while pending.len() > 0
        invariant
            n + pending@.len() == orig.len(),
            orig.len() <= usize::MAX,
            pending@ == orig.subrange(n as int, orig.len() as int),
            members_view(members@) == members_view(orig.subrange(0, n as int)).remove(key@),
            members@.len() <= n,
            forall|i: int|
                0 <= i < members@.len() ==> exists|j: int|
                    0 <= j < n && #[trigger] members@[i] == orig[j],
            forall|i: int| 0 <= i < members@.len() ==> (#[trigger] members@[i]).0@ != key@,
            distinct_keys(orig) ==> distinct_keys(members@),
            match found {
                Some(v) => members_view(orig.subrange(0, n as int)).contains_key(key@) && v@
                    == members_view(orig.subrange(0, n as int))[key@],
                None => !members_view(orig.subrange(0, n as int)).contains_key(key@),
            },
        decreases pending.len(),
    {
        let item = pending.remove(0);
        let ghost prefix = orig.subrange(0, n as int);
        proof {
            assert(item == orig[n as int]);
            lemma_members_view_concat(prefix, seq![item]);
            lemma_members_view_single(item);
            assert(prefix + seq![item] =~= orig.subrange(0, n + 1));
        }
        if item.0 == *key {
            if found.is_none() {
                found = Some(item.1);
            }
            proof {
                assert(members_view(orig.subrange(0, n + 1)).remove(key@) =~= members_view(
                    prefix,
                ).remove(key@));
            }
        } else {
            proof {
                let ghost m = members@;
                lemma_members_view_concat(m, seq![item]);
                assert(m + seq![item] =~= m.push(item));
                assert(members_view(m.push(item)) =~= members_view(orig.subrange(0, n + 1)).remove(
                    key@,
                ));
                assert forall|i: int| 0 <= i < m.push(item).len() implies exists|j: int|
                    0 <= j < n + 1 && #[trigger] m.push(item)[i] == orig[j] by {
                    if i == m.len() {
                        assert(m.push(item)[i] == orig[n as int]);
                    } else {
                        assert(m.push(item)[i] == m[i]);
                    }
                }
                if distinct_keys(orig) {
                    assert forall|i: int, j: int| 0 <= i < j < m.push(item).len() implies (
                    #[trigger] m.push(item)[i]).0@ != (#[trigger] m.push(item)[j]).0@ by {
                        if j == m.len() {
                            let jj = choose|jj: int| 0 <= jj < n && #[trigger] m[i] == orig[jj];
                            assert(orig[jj].0@ != orig[n as int].0@);
                        } else {
                            assert(m.push(item)[i] == m[i]);
                            assert(m.push(item)[j] == m[j]);
                        }
                    }
                }
            }
            members.push(item);
        }
        n += 1;
        proof {
            assert(pending@ =~= orig.subrange(n as int, orig.len() as int));
        }
    }
    assert(orig.subrange(0, n as int) =~= orig);
    found
}

/// Deep-merges `patch` into `base` (see `merge_spec`). Never fails.
#[verifier::spinoff_prover]
#[verifier::rlimit(40)]
pub fn merge_json(base: Json, patch: Json) -> (r: Result<Json, String>)
    ensures
        match r {
            Ok(v) => v@ == merge_spec(base@, patch@),
            Err(_) => false,
        },
    decreases patch,
{
    let ghost patch_g = patch;
    let ghost base_g = base;
    match (base, patch) {
        (Json::Object(mut a), Json::Object(mut b)) => {
            let ghost av = members_view(a@);
            let ghost bv = members_view(b@);
            let ghost bvec = b;
            let ghost b0 = b@;
            assert(base_g@ == JsonV::Object(av));
            assert(patch_g@ == JsonV::Object(bv));
            while b.len() > 0
                invariant
                    patch_g == patch,
                    patch_g == Json::Object(bvec),
                    b0 == bvec@,
                    bv == members_view(b0),
                    forall|i: int|
                        0 <= i < b@.len() ==> exists|j: int|
                            0 <= j < b0.len() && #[trigger] b@[i] == b0[j],
                    forall|kq: Seq<char>| #[trigger]
                        members_view(b@).contains_key(kq) ==> bv.contains_key(kq)
                            && members_view(b@)[kq] == bv[kq],
                    members_view(a@) == merged_members(
                        av,
                        bv.remove_keys(members_view(b@).dom()),
                    ),
                decreases b.len(),
            {
                let ghost bb = b@;
                let ghost a_old = a@;
                let (k, v) = b.remove(0);
                let ghost rest_before = b@;
                proof {
                    assert(bb =~= seq![(k, v)] + rest_before);
                    lemma_members_view_concat(seq![(k, v)], rest_before);
                    lemma_members_view_single((k, v));
                    assert(members_view(bb) =~= members_view(rest_before).insert(k@, v@));
                }
                let _ = take_member(&mut b, &k);
                let prev = take_member(&mut a, &k);
                let ghost a_mid = a@;
                proof {
                    let j = choose|j: int| 0 <= j < b0.len() && #[trigger] bb[0] == b0[j];
                    assert(v == b0[j].1);
                    assert(decreases_to!(patch_g => patch_g->Object_0));
                    assert(decreases_to!(patch_g->Object_0 => bvec@));
                    assert(decreases_to!(b0 => b0[j]));
                    assert(decreases_to!(b0[j] => b0[j].1));
                    assert(decreases_to!(patch_g => v));
                    assert forall|i: int| 0 <= i < b@.len() implies exists|j: int|
                        0 <= j < b0.len() && #[trigger] b@[i] == b0[j] by {
                        let i2 = choose|i2: int|
                            0 <= i2 < rest_before.len() && #[trigger] b@[i] == rest_before[i2];
                        assert(rest_before[i2] == bb[i2 + 1]);
                    }
                    assert(members_view(bb).contains_key(k@));
                    assert(bv.contains_key(k@) && bv[k@] == v@);
                    let pb = bv.remove_keys(members_view(bb).dom());
                    assert(!pb.contains_key(k@));
                    assert(members_view(a_old).contains_key(k@) == av.contains_key(k@));
                    if av.contains_key(k@) {
                        assert(members_view(a_old)[k@] == av[k@]);
                    }
                }
                let ghost vv = v@;
                let next = match prev {
                    Some(p) => {
                        let m = merge_json(p, v);
                        match m {
                            Ok(x) => x,
                            Err(e) => {
                                return Err(e);
                            },
                        }
                    },
                    None => v,
                };
                let ghost kv = k@;
                let entry = (k, next);
                proof {
                    lemma_members_view_push(a_mid, entry);
                    assert forall|kq: Seq<char>| #[trigger]
                        members_view(b@).contains_key(kq) implies bv.contains_key(kq)
                        && members_view(b@)[kq] == bv[kq] by {
                        assert(members_view(bb).contains_key(kq));
                    }
                    let pb = bv.remove_keys(members_view(bb).dom());
                    let pb2 = bv.remove_keys(members_view(b@).dom());
                    assert(members_view(b@) =~= members_view(rest_before).remove(kv));
                    assert(pb2 =~= pb.insert(kv, vv));
                    assert(members_view(a_mid.push(entry)) =~= merged_members(av, pb2));
                }
                a.push(entry);
            }
            proof {
                assert(members_view(b@).dom() =~= Set::empty());
                assert(bv.remove_keys(Set::empty()) =~= bv);
                assert(base_g@ == JsonV::Object(av));
                assert(patch_g@ == JsonV::Object(bv));
                let mm = match merge_spec(base_g@, patch_g@) {
                    JsonV::Object(m) => m,
                    _ => Map::empty(),
                };
                assert(mm =~= merged_members(av, bv));
                assert(merge_spec(base_g@, patch_g@) == JsonV::Object(merged_members(av, bv)));
            }
            Ok(Json::Object(a))
        },
        (_, p) => Ok(p),
    }
}

} // verus!

verus! {

/// The object whose members are the listed (key, value) pairs; a repeated key keeps its first value.
pub open spec fn json_obj(s: Seq<(Seq<char>, JsonV)>) -> JsonV {
    JsonV::Object(pairs_map(s))
}

pub open spec fn pairs_map(s: Seq<(Seq<char>, JsonV)>) -> Map<Seq<char>, JsonV>
    decreases s.len(),
{
    if s.len() == 0 {
        Map::empty()
    } else {
        pairs_map(s.subrange(1, s.len() as int)).insert(s[0].0, s[0].1)
    }
}

/// The (key, value) views of object members, in order.
pub open spec fn member_views(p: Seq<(String, Json)>) -> Seq<(Seq<char>, JsonV)> {
    Seq::new(p.len(), |i: int| (p[i].0@, json_view(p[i].1)))
}

pub proof fn lemma_members_view_pairs(p: Seq<(String, Json)>)
    ensures
        members_view(p) == pairs_map(member_views(p)),
    decreases p.len(),
{
    if p.len() > 0 {
        let p1 = p.subrange(1, p.len() as int);
        lemma_members_view_pairs(p1);
        assert(member_views(p).subrange(1, p.len() as int) =~= member_views(p1));
    }
}

/// Distinct keys: no key is carried by two pairs.
pub open spec fn distinct_keys(p: Seq<(String, Json)>) -> bool {
    forall|i: int, j: int| 0 <= i < j < p.len() ==> (#[trigger] p[i]).0@ != (#[trigger] p[j]).0@
}

/// Index of the first pair carrying `key`.
pub fn find_member(p: &Vec<(String, Json)>, key: &str) -> (r: Option<usize>)
    ensures
        match r {
            Some(i) => i < p@.len() && p@[i as int].0@ == key@ && members_view(p@).contains_key(key@)
                && members_view(p@)[key@] == json_view(p@[i as int].1),
            None => !members_view(p@).contains_key(key@),
        },
{
    let mut i: usize = 0;
    while i < p.len()
        invariant
            i <= p.len(),
            forall|j: int| 0 <= j < i ==> (#[trigger] p@[j]).0@ != key@,
        decreases p.len() - i,
    {
        if crate::text::str_eq(p[i].0.as_str(), key) {
            proof {
                lemma_members_view_first(p@, i as int);
            }
            return Some(i);
        }
        i += 1;
    }
    proof {
        lemma_members_view_dom(p@, key@);
    }
    None
}

} // verus!

verus! {

/// An owned copy of `s`.
pub fn owned(s: &str) -> (r: String)
    ensures
        r@ == s@,
{
    String::from_str(s)
}

/// The JSON string holding `s`.
pub fn json_string(s: &str) -> (r: Json)
    ensures
        r@ == JsonV::Str(s@),
{
    Json::Str(String::from_str(s))
}

/// The JSON number holding the unsigned integer `n`.
pub open spec fn json_u64(n: u64) -> JsonV {
    JsonV::Number(JsonNumber::PosInt(n))
}

} // verus!

verus! {

/// Member `k` of `j`, when `j` is an object that has it.
pub open spec fn member(j: JsonV, k: Seq<char>) -> Option<JsonV> {
    match j {
        JsonV::Object(m) => if m.contains_key(k) {
            Some(m[k])
        } else {
            None
        },
        _ => None,
    }
}

/// Member `a` of `j` if present, else member `b`.
pub open spec fn member_or(j: JsonV, a: Seq<char>, b: Seq<char>) -> Option<JsonV> {
    match member(j, a) {
        Some(v) => Some(v),
        None => member(j, b),
    }
}

/// The text of member `k`, when it is present and a string.
pub open spec fn str_member(j: JsonV, k: Seq<char>) -> Option<Seq<char>> {
    match member(j, k) {
        Some(JsonV::Str(s)) => Some(s),
        _ => None,
    }
}

/// The JSON string `s`, or null.
pub open spec fn opt_str_json(s: Option<Seq<char>>) -> JsonV {
    match s {
        Some(t) => JsonV::Str(t),
        None => JsonV::Null,
    }
}

impl Json {
    /// Member `a` if present, else member `b` (`a.get(x).or_else(|| a.get(y))`).
    pub fn get_or<'a>(&'a self, a: &str, b: &str) -> (r: Option<&'a Json>)
        ensures
            match r {
                Some(v) => member_or(self@, a@, b@) == Some(v@),
                None => member_or(self@, a@, b@) is None,
            },
    {
        match self.get(a) {
            Some(v) => Some(v),
            None => self.get(b),
        }
    }

    /// The text of member `k`, when it is a string.
    pub fn str_member(&self, k: &str) -> (r: Option<&str>)
        ensures
            match r {
                Some(s) => str_member(self@, k@) == Some(s@),
                None => str_member(self@, k@) is None,
            },
    {
        match self.get(k) {
            Some(v) => v.as_str(),
            None => None,
        }
    }
}

/// Builds an object from pairs built in the order given.
pub fn object_of(pairs: Vec<(String, Json)>) -> (r: Json)
    ensures
        r@ == json_obj(member_views(pairs@)),
{
    proof {
        lemma_members_view_pairs(pairs@);
    }
    Json::Object(pairs)
}

pub fn opt_string_json(s: &Option<String>) -> (r: Json)
    ensures
        r@ == opt_str_json(match s {
            Some(t) => Some(t@),
            None => None,
        }),
{
    match s {
        Some(t) => Json::Str(t.clone()),
        None => Json::Null,
    }
}

/// The value of a non-negative integer number.
pub open spec fn json_as_u64(j: JsonV) -> Option<u64> {
    match j {
        JsonV::Number(JsonNumber::PosInt(n)) => Some(n),
        _ => None,
    }
}

/// The texts of a vector of strings.
pub open spec fn strs_view(v: Seq<String>) -> Seq<Seq<char>> {
    v.map_values(|s: String| s@)
}

/// The JSON array of the strings `s`.
pub open spec fn str_array(s: Seq<Seq<char>>) -> JsonV {
    JsonV::Array(s.map_values(|k: Seq<char>| JsonV::Str(k)))
}

/// The JSON array of the strings in `v`, in order.
pub fn strings_json(v: &Vec<String>) -> (r: Json)
    ensures
        r@ == str_array(strs_view(v@)),
{
    let mut items: Vec<Json> = Vec::new();
    let mut i: usize = 0;
    while i < v.len()
        invariant
            i <= v@.len(),
            items@.len() == i,
            forall|j: int| 0 <= j < i ==> (#[trigger] items@[j])@ == JsonV::Str(v@[j]@),
        decreases v@.len() - i,
    {
        items.push(Json::Str(v[i].clone()));
        i += 1;
    }
    proof {
        lemma_items_view_index(items@);
        assert(items_view(items@) =~= strs_view(v@).map_values(|k: Seq<char>| JsonV::Str(k)));
    }
    Json::Array(items)
}

/// The boolean member `k`, when it is present and a boolean.
pub open spec fn bool_member(j: JsonV, k: Seq<char>) -> Option<bool> {
    match member(j, k) {
        Some(JsonV::Bool(b)) => Some(b),
        _ => None,
    }
}

/// `{ ok: true }` followed by `rest`.
pub open spec fn ok_obj(rest: Seq<(Seq<char>, JsonV)>) -> JsonV {
    json_obj(seq![("ok"@, JsonV::Bool(true))] + rest)
}

impl Json {
    /// The boolean member `k`, when it is a boolean.
    pub fn bool_member(&self, k: &str) -> (r: Option<bool>)
        ensures
            r == bool_member(self@, k@),
    {
        match self.get(k) {
            Some(Json::Bool(b)) => Some(*b),
            _ => None,
        }
    }
}

/// `{ ok: true }`.
pub fn ok_reply() -> (r: Json)
    ensures
        r@ == ok_obj(Seq::empty()),
{
    ok_object(Vec::new())
}

/// `{ ok: true, ... }` with the given members after `ok`.
pub fn ok_object(rest: Vec<(String, Json)>) -> (r: Json)
    ensures
        r@ == ok_obj(member_views(rest@)),
{
    let mut o: Vec<(String, Json)> = Vec::new();
    o.push((owned("ok"), Json::Bool(true)));
    let ghost head = o@;
    let mut rest = rest;
    let ghost tail = rest@;
    o.append(&mut rest);
    assert(o@ =~= head + tail);
    assert(member_views(o@) =~= seq![("ok"@, JsonV::Bool(true))] + member_views(tail));
    object_of(o)
}

/// One member `(k, v)`.
pub fn member_pair(k: &str, v: Json) -> (r: (String, Json))
    ensures
        r.0@ == k@,
        r.1 == v,
{
    (owned(k), v)
}

} // verus!
