//! Directory listings of the allowlisted file system: the entry a listing reports, its kind,
//! and the order the webview sees (by lower-cased name). Reading the disk is the host's part.

use vstd::prelude::*;
use vstd::multiset::Multiset;

use crate::json::{json_obj, json_string, member_views, object_of, owned, Json, JsonNumber, JsonV};
use crate::resource::{lowercase, unicode_lowercase};
use crate::text::{chars_eq, chars_of, decimal, decimal_chars, string_of};

verus! {

/// Largest text file `fs.readText` reads.
pub const MAX_READ_BYTES: u64 = 262144;

/// Most entries one `fs.list` reports.
pub const MAX_LIST_ENTRIES: usize = 2000;

/// One entry of a listing.
pub struct DirEntryDto {
    pub name: String,
    pub path: String,
    /// `dir`, `file` or `other`.
    pub kind: String,
    pub size: u64,
    /// Seconds since the epoch; 0 when unknown.
    pub mtime: u64,
}

pub struct DirEntryV {
    pub name: Seq<char>,
    pub path: Seq<char>,
    pub kind: Seq<char>,
    pub size: u64,
    pub mtime: u64,
}

impl View for DirEntryDto {
    type V = DirEntryV;

    open spec fn view(&self) -> DirEntryV {
        DirEntryV {
            name: self.name@,
            path: self.path@,
            kind: self.kind@,
            size: self.size,
            mtime: self.mtime,
        }
    }
}

/// The kind a listing reports: a directory, a regular file, or anything else.
pub fn entry_kind(is_dir: bool, is_file: bool) -> (r: &'static str)
    ensures
        r@ == (if is_dir {
            "dir"@
        } else if is_file {
            "file"@
        } else {
            "other"@
        }),
{
    if is_dir {
        "dir"
    } else if is_file {
        "file"
    } else {
        "other"
    }
}

/// `{ name, path, kind, size, mtime }`.
pub open spec fn entry_json_spec(e: DirEntryV) -> JsonV {
    json_obj(
        seq![
            ("name"@, JsonV::Str(e.name)),
            ("path"@, JsonV::Str(e.path)),
            ("kind"@, JsonV::Str(e.kind)),
            ("size"@, JsonV::Number(JsonNumber::PosInt(e.size))),
            ("mtime"@, JsonV::Number(JsonNumber::PosInt(e.mtime))),
        ],
    )
}

impl DirEntryDto {
    pub fn to_json(&self) -> (r: Json)
        ensures
            r@ == entry_json_spec(self@),
    {
        let mut o: Vec<(String, Json)> = Vec::new();
        o.push((owned("name"), Json::Str(self.name.clone())));
        o.push((owned("path"), Json::Str(self.path.clone())));
        o.push((owned("kind"), Json::Str(self.kind.clone())));
        o.push((owned("size"), Json::Number(JsonNumber::PosInt(self.size))));
        o.push((owned("mtime"), Json::Number(JsonNumber::PosInt(self.mtime))));
        let r = object_of(o);
        assert(member_views(o@) =~= seq![
            ("name"@, JsonV::Str(self@.name)),
            ("path"@, JsonV::Str(self@.path)),
            ("kind"@, JsonV::Str(self@.kind)),
            ("size"@, JsonV::Number(JsonNumber::PosInt(self.size))),
            ("mtime"@, JsonV::Number(JsonNumber::PosInt(self.mtime))),
        ]);
        r
    }
}

/// `a` sorts strictly before `b`: the order of `str` (by code point, a prefix first).
pub open spec fn text_lt(a: Seq<char>, b: Seq<char>) -> bool
    decreases a.len(),
{
    if a.len() == 0 {
        b.len() > 0
    } else if b.len() == 0 {
        false
    } else if a[0] < b[0] {
        true
    } else if a[0] == b[0] {
        text_lt(a.drop_first(), b.drop_first())
    } else {
        false
    }
}

pub proof fn lemma_text_lt_irreflexive(a: Seq<char>)
    ensures
        !text_lt(a, a),
    decreases a.len(),
{
    if a.len() > 0 {
        lemma_text_lt_irreflexive(a.drop_first());
    }
}

pub proof fn lemma_text_lt_transitive(a: Seq<char>, b: Seq<char>, c: Seq<char>)
    requires
        text_lt(a, b),
        text_lt(b, c),
    ensures
        text_lt(a, c),
    decreases a.len(),
{
    if a.len() > 0 && b.len() > 0 && c.len() > 0 && a[0] == b[0] && b[0] == c[0] {
        lemma_text_lt_transitive(a.drop_first(), b.drop_first(), c.drop_first());
    }
}

/// Any two texts are ordered one way or the other, or are equal.
pub proof fn lemma_text_lt_total(a: Seq<char>, b: Seq<char>)
    ensures
        text_lt(a, b) || text_lt(b, a) || a == b,
    decreases a.len(),
{
    if a.len() > 0 && b.len() > 0 && a[0] == b[0] {
        lemma_text_lt_total(a.drop_first(), b.drop_first());
        if a.drop_first() == b.drop_first() {
            assert(a =~= seq![a[0]] + a.drop_first());
            assert(b =~= seq![b[0]] + b.drop_first());
        }
    } else if a.len() == 0 && b.len() == 0 {
        assert(a =~= b);
    }
}

/// Whether `a` sorts strictly before `b`.
pub fn text_less(a: &Vec<char>, b: &Vec<char>) -> (r: bool)
    ensures
        r == text_lt(a@, b@),
{
    let mut i: usize = 0;
    assert(a@.subrange(0, 0) =~= b@.subrange(0, 0));
    assert(a@.subrange(0, a@.len() as int) =~= a@);
    assert(b@.subrange(0, b@.len() as int) =~= b@);
    while i < a.len() && i < b.len()
        invariant
            i <= a@.len(),
            i <= b@.len(),
            a@.subrange(0, i as int) == b@.subrange(0, i as int),
            text_lt(a@, b@) == text_lt(a@.subrange(i as int, a@.len() as int), b@.subrange(i as int, b@.len() as int)),
        decreases a@.len() - i,
    {
        let ghost ra = a@.subrange(i as int, a@.len() as int);
        let ghost rb = b@.subrange(i as int, b@.len() as int);
        assert(ra[0] == a@[i as int] && rb[0] == b@[i as int]);
        if a[i] < b[i] {
            return true;
        }
        if a[i] != b[i] {
            return false;
        }
        assert(ra.drop_first() =~= a@.subrange(i + 1, a@.len() as int));
        assert(rb.drop_first() =~= b@.subrange(i + 1, b@.len() as int));
        assert(a@.subrange(0, i + 1) =~= a@.subrange(0, i as int).push(a@[i as int]));
        assert(b@.subrange(0, i + 1) =~= b@.subrange(0, i as int).push(b@[i as int]));
        i += 1;
    }
    i < b.len()
}

/// The key a listing is ordered by: the lower-cased name.
pub open spec fn name_key(e: DirEntryV) -> Seq<char> {
    unicode_lowercase(e.name)
}

/// Entries in non-decreasing key order.
pub open spec fn sorted_by_key(s: Seq<DirEntryV>) -> bool {
    forall|i: int, j: int| 0 <= i < j < s.len() ==> !text_lt(name_key(s[j]), name_key(s[i]))
}

pub open spec fn entries_view(v: Seq<DirEntryDto>) -> Seq<DirEntryV> {
    v.map_values(|e: DirEntryDto| e@)
}

/// The entries of `s` whose key is `k`, in their order in `s`.
pub open spec fn with_key(s: Seq<DirEntryV>, k: Seq<char>) -> Seq<DirEntryV> {
    s.filter(|e: DirEntryV| name_key(e) == k)
}

/// Inserting `e` after every entry whose key is not greater than its own, and before every
/// entry whose key is greater, appends `e` to the entries of its key and leaves the others.
proof fn lemma_insert_by_key(ov: Seq<DirEntryV>, pos: int, e: DirEntryV, prefix: Seq<DirEntryV>)
    requires
        0 <= pos <= ov.len(),
        forall|i: int| pos <= i < ov.len() ==> text_lt(name_key(e), name_key(#[trigger] ov[i])),
        forall|k: Seq<char>| #[trigger] with_key(ov, k) == with_key(prefix, k),
    ensures
        forall|k: Seq<char>| #[trigger] with_key(ov.insert(pos, e), k) == with_key(prefix.push(e), k),
{
    broadcast use Seq::filter_distributes_over_add, Seq::lemma_filter_push;

    let a = ov.subrange(0, pos);
    let b = ov.subrange(pos, ov.len() as int);
    assert(ov =~= a + b);
    assert(ov.insert(pos, e) =~= a + seq![e] + b);
    assert(seq![e] =~= Seq::<DirEntryV>::empty().push(e));
    assert forall|k: Seq<char>| #[trigger] with_key(ov.insert(pos, e), k) == with_key(prefix.push(e), k) by {
        let pred = |x: DirEntryV| name_key(x) == k;
        assert(Seq::<DirEntryV>::empty().filter(pred) =~= Seq::<DirEntryV>::empty()) by {
            reveal(Seq::filter);
        }
        assert(with_key(ov, k) == a.filter(pred) + b.filter(pred));
        assert(with_key(ov.insert(pos, e), k) == a.filter(pred) + seq![e].filter(pred) + b.filter(pred));
        if name_key(e) == k {
            assert(b.filter(pred).len() == 0) by {
                assert forall|i: int| 0 <= i < b.len() implies !pred(#[trigger] b[i]) by {
                    assert(b[i] == ov[pos + i]);
                    lemma_text_lt_irreflexive(k);
                }
                b.lemma_all_neg_filter_empty(pred);
            }
            assert(b.filter(pred) =~= Seq::<DirEntryV>::empty());
            assert(with_key(ov.insert(pos, e), k) =~= with_key(ov, k).push(e));
        } else {
            assert(with_key(ov.insert(pos, e), k) =~= with_key(ov, k));
        }
    }
}

/// Orders a listing by lower-cased name, each entry after those whose key is not greater, so
/// entries with equal keys keep their order: the result is sorted, and the entries of each key
/// come in the order they were given.
pub fn sort_by_name(entries: Vec<DirEntryDto>) -> (r: Vec<DirEntryDto>)
    ensures
        sorted_by_key(entries_view(r@)),
        forall|k: Seq<char>| #[trigger] with_key(entries_view(r@), k) == with_key(entries_view(entries@), k),
        entries_view(r@).to_multiset() == entries_view(entries@).to_multiset(),
{
    broadcast use vstd::seq_lib::group_to_multiset_ensures;

    let ghost input = entries_view(entries@);
    let mut out: Vec<DirEntryDto> = Vec::new();
    let mut keys: Vec<Vec<char>> = Vec::new();
    let mut rest = entries;
    assert(entries_view(out@).to_multiset() =~= Multiset::<DirEntryV>::empty());
    while rest.len() > 0
        invariant
            keys@.len() == out@.len(),
            forall|i: int| 0 <= i < out@.len() ==> (#[trigger] keys@[i])@ == name_key(out@[i]@),
            sorted_by_key(entries_view(out@)),
            entries_view(out@).to_multiset().add(entries_view(rest@).to_multiset())
                == input.to_multiset(),
            rest@.len() <= input.len(),
            entries_view(rest@) == input.subrange(input.len() - rest@.len(), input.len() as int),
            forall|k: Seq<char>| #[trigger] with_key(entries_view(out@), k) == with_key(
                input.subrange(0, input.len() - rest@.len()),
                k,
            ),
        decreases rest@.len(),
    {
        let ghost rv = entries_view(rest@);
        let ghost done = input.subrange(0, input.len() - rest@.len());
        let e = rest.remove(0);
        let ghost ev = e@;
        proof {
            assert(entries_view(rest@) =~= rv.remove(0));
            assert(rv[0] == ev);
        }
        let k = chars_of(lowercase(e.name.as_str()).as_str());
        let mut pos: usize = 0;
        while pos < out.len() && !text_less(&k, &keys[pos])
            invariant
                pos <= out@.len(),
                keys@.len() == out@.len(),
                forall|i: int| 0 <= i < out@.len() ==> (#[trigger] keys@[i])@ == name_key(out@[i]@),
                forall|i: int| 0 <= i < pos ==> !text_lt(k@, (#[trigger] keys@[i])@),
            decreases out@.len() - pos,
        {
            pos += 1;
        }
        let ghost ov = entries_view(out@);
        let ghost okeys = keys@;
        proof {
            assert forall|i: int| pos <= i < ov.len() implies text_lt(k@, name_key(#[trigger] ov[i])) by {
                assert(text_lt(k@, okeys[pos as int]@));
                if i > pos {
                    assert(!text_lt(name_key(ov[i]), name_key(ov[pos as int])));
                    lemma_text_lt_total(okeys[pos as int]@, okeys[i]@);
                    if text_lt(okeys[pos as int]@, okeys[i]@) {
                        lemma_text_lt_transitive(k@, okeys[pos as int]@, okeys[i]@);
                    }
                }
            }
        }
        proof {
            lemma_insert_by_key(ov, pos as int, ev, done);
            assert(input.subrange(0, input.len() - (rv.len() - 1)) =~= done.push(ev));
            assert(entries_view(rest@) =~= input.subrange(
                input.len() - (rv.len() - 1),
                input.len() as int,
            ));
        }
        out.insert(pos, e);
        keys.insert(pos, k);
        proof {
            let nv = entries_view(out@);
            assert(nv =~= ov.insert(pos as int, ev));
            assert forall|a: int, b: int| 0 <= a < b < nv.len() implies !text_lt(
                name_key(nv[b]),
                name_key(nv[a]),
            ) by {
                if b == pos {
                    assert(nv[a] == ov[a]);
                    assert(!text_lt(k@, okeys[a]@));
                    lemma_text_lt_total(k@, name_key(ov[a]));
                    if text_lt(name_key(ov[a]), k@) && text_lt(k@, name_key(ov[a])) {
                        lemma_text_lt_transitive(k@, name_key(ov[a]), k@);
                        lemma_text_lt_irreflexive(k@);
                    }
                } else if a == pos {
                    assert(nv[b] == ov[b - 1]);
                    assert(text_lt(k@, name_key(ov[b - 1])));
                    if text_lt(name_key(ov[b - 1]), k@) {
                        lemma_text_lt_transitive(k@, name_key(ov[b - 1]), k@);
                        lemma_text_lt_irreflexive(k@);
                    }
                } else {
                    let oa = if a < pos { a } else { a - 1 };
                    let ob = if b < pos { b } else { b - 1 };
                    assert(nv[a] == ov[oa] && nv[b] == ov[ob]);
                }
            }
            assert(nv.remove(pos as int) =~= ov);
            assert(nv[pos as int] == ev);
            nv.to_multiset_ensures();
            rv.to_multiset_ensures();
            assert(nv.remove(pos as int).to_multiset() =~= nv.to_multiset().remove(ev));
            assert(nv.contains(ev));
            assert(nv.to_multiset().count(ev) > 0);
            assert(nv.to_multiset() =~= ov.to_multiset().insert(ev));
            assert(rv.remove(0).to_multiset() =~= rv.to_multiset().remove(rv[0]));
            assert(entries_view(rest@).to_multiset() =~= rv.to_multiset().remove(ev));
            assert(rv.to_multiset().count(ev) > 0) by {
                assert(rv.contains(ev));
            }
            assert(nv.to_multiset().add(entries_view(rest@).to_multiset()) =~= ov.to_multiset().add(
                rv.to_multiset(),
            ));
        }
    }
    proof {
        assert(entries_view(rest@).to_multiset() =~= Multiset::<DirEntryV>::empty());
        assert(entries_view(rest@) =~= Seq::<DirEntryV>::empty());
        assert(input.subrange(0, input.len() as int) =~= input);
    }
    out
}

/// The entries a listing keeps of those read, in directory order: the first
/// `MAX_LIST_ENTRIES`.
pub open spec fn kept_entries(read: Seq<DirEntryV>) -> Seq<DirEntryV> {
    if read.len() <= MAX_LIST_ENTRIES {
        read
    } else {
        read.take(MAX_LIST_ENTRIES as int)
    }
}

/// The listing of a directory from its entries in the order they were read: the first
/// `MAX_LIST_ENTRIES` read are kept, then ordered by lower-cased name (see `sort_by_name`).
pub fn capped_listing(read: Vec<DirEntryDto>) -> (r: Vec<DirEntryDto>)
    ensures
        r@.len() <= MAX_LIST_ENTRIES,
        r@.len() == kept_entries(entries_view(read@)).len(),
        sorted_by_key(entries_view(r@)),
        forall|k: Seq<char>| #[trigger] with_key(entries_view(r@), k) == with_key(kept_entries(entries_view(read@)), k),
        entries_view(r@).to_multiset() == kept_entries(entries_view(read@)).to_multiset(),
{
    broadcast use vstd::seq_lib::to_multiset_len;

    let mut read = read;
    let ghost all = entries_view(read@);
    read.truncate(MAX_LIST_ENTRIES);
    assert(entries_view(read@) =~= kept_entries(all));
    let r = sort_by_name(read);
    assert(entries_view(r@).len() == entries_view(r@).to_multiset().len());
    r
}

/// `{ ok: true, entries: [...] }`.
pub fn list_reply(entries: &Vec<DirEntryDto>) -> (r: Json)
    ensures
        r@ == crate::json::ok_obj(
            seq![
                (
                    "entries"@,
                    JsonV::Array(entries_view(entries@).map_values(|e: DirEntryV| entry_json_spec(e))),
                ),
            ],
        ),
{
    let mut items: Vec<Json> = Vec::new();
    let mut i: usize = 0;
    while i < entries.len()
        invariant
            i <= entries@.len(),
            items@.len() == i,
            forall|j: int| 0 <= j < i ==> (#[trigger] items@[j])@ == entry_json_spec(entries@[j]@),
        decreases entries@.len() - i,
    {
        items.push(entries[i].to_json());
        i += 1;
    }
    proof {
        crate::json::lemma_items_view_index(items@);
        assert(crate::json::items_view(items@) =~= entries_view(entries@).map_values(
            |e: DirEntryV| entry_json_spec(e),
        ));
    }
    let mut rest: Vec<(String, Json)> = Vec::new();
    rest.push((owned("entries"), Json::Array(items)));
    assert(member_views(rest@) =~= seq![
        (
            "entries"@,
            JsonV::Array(entries_view(entries@).map_values(|e: DirEntryV| entry_json_spec(e))),
        ),
    ]);
    crate::json::ok_object(rest)
}

/// The directory `fs.list` lists: `path`, else the root itself.
pub fn list_path_arg(args: &Json) -> (r: String)
    ensures
        r@ == crate::chrome::str_or(args@, "path"@, "."@),
{
    crate::chrome::str_arg_or(args, "path", ".")
}

/// The file `fs.readText` / `fs.stat` reads: `path` (required).
pub fn file_path_arg(args: &Json) -> (r: Result<String, String>)
    ensures
        crate::chrome::text_result(r) == crate::chrome::required_str_spec(
            args@,
            "path"@,
            "path required"@,
        ),
{
    crate::chrome::required_str(args, "path", "path required")
}

/// The allowlisted root, or the error of a host that was given none.
pub fn fs_root(root: &Option<String>) -> (r: Result<String, String>)
    ensures
        match root {
            Some(p) => r matches Ok(x) && x@ == p@,
            None => r matches Err(e) && e@ == "fs root not set"@,
        },
{
    match root {
        Some(p) => Ok(p.clone()),
        None => Err(owned("fs root not set")),
    }
}


/// The error of a read refused for its size.
pub open spec fn read_cap_error() -> Seq<char> {
    "file exceeds "@ + decimal(MAX_READ_BYTES as nat) + " byte read cap"@
}

/// A file of `len` bytes may be read as text when it is at most `MAX_READ_BYTES` long.
pub fn check_read_size(len: u64) -> (r: Result<(), String>)
    ensures
        len <= MAX_READ_BYTES ==> r is Ok,
        len > MAX_READ_BYTES ==> (r matches Err(e) && e@ == read_cap_error()),
{
    if len > MAX_READ_BYTES {
        let digits = string_of(&decimal_chars(MAX_READ_BYTES));
        Err(String::from_str("file exceeds ").concat(digits.as_str()).concat(" byte read cap"))
    } else {
        Ok(())
    }
}


// ---- the sandbox: which paths lie under the allowlisted root -------------------------------
//
// Paths are POSIX paths, read the way `std::path::Path` reads them on Unix.

/// `p` cut at each `/`, empty pieces included (`"/a//b"` gives `"", "a", "", "b"`).
pub open spec fn split_slash(p: Seq<char>) -> Seq<Seq<char>>
    decreases p.len(),
{
    if p.len() == 0 {
        seq![Seq::<char>::empty()]
    } else if p.last() == '/' {
        split_slash(p.drop_last()).push(Seq::<char>::empty())
    } else {
        let r = split_slash(p.drop_last());
        r.update(r.len() - 1, r.last().push(p.last()))
    }
}

proof fn lemma_split_slash_nonempty(p: Seq<char>)
    ensures
        split_slash(p).len() >= 1,
    decreases p.len(),
{
    if p.len() > 0 {
        lemma_split_slash_nonempty(p.drop_last());
    }
}

/// A piece that names a component: neither empty nor `.`.
pub open spec fn kept_piece(s: Seq<char>) -> bool {
    s.len() > 0 && s != "."@
}

/// The components of `p`: the root (written `/`) when `p` starts with `/`, else `.` when its
/// first piece is `.`; then each piece that is neither empty nor `.`.
pub open spec fn path_components(p: Seq<char>) -> Seq<Seq<char>> {
    let body = split_slash(p).filter(|s: Seq<char>| kept_piece(s));
    if p.len() > 0 && p[0] == '/' {
        seq!["/"@] + body
    } else if split_slash(p)[0] == "."@ {
        seq!["."@] + body
    } else {
        body
    }
}

/// The components of `root` begin the components of `p` (`Path::starts_with`).
pub open spec fn under_root(root: Seq<char>, p: Seq<char>) -> bool {
    let rc = path_components(root);
    let pc = path_components(p);
    rc.len() <= pc.len() && pc.subrange(0, rc.len() as int) == rc
}

/// Where a requested path points before it is resolved: itself when absolute, else under the
/// root (`Path::join`, which adds a `/` unless the root is empty or already ends with one).
pub open spec fn joined_path(root: Seq<char>, requested: Seq<char>) -> Seq<char> {
    if requested.len() > 0 && requested[0] == '/' {
        requested
    } else if root.len() == 0 || root.last() == '/' {
        root + requested
    } else {
        root + "/"@ + requested
    }
}

pub open spec fn char_views(v: Seq<Vec<char>>) -> Seq<Seq<char>> {
    v.map_values(|x: Vec<char>| x@)
}

fn copy_chars(v: &Vec<char>) -> (r: Vec<char>)
    ensures
        r@ == v@,
{
    let mut r: Vec<char> = Vec::new();
    let mut i: usize = 0;
    while i < v.len()
        invariant
            i <= v@.len(),
            r@ == v@.take(i as int),
        decreases v@.len() - i,
    {
        r.push(v[i]);
        assert(v@.take(i + 1) =~= v@.take(i as int).push(v@[i as int]));
        i += 1;
    }
    assert(v@.take(v@.len() as int) =~= v@);
    r
}


/// The pieces of `p` between its `/`s.
fn pieces_of(p: &Vec<char>) -> (r: Vec<Vec<char>>)
    ensures
        char_views(r@) == split_slash(p@),
{
    let mut done: Vec<Vec<char>> = Vec::new();
    let mut cur: Vec<char> = Vec::new();
    let mut i: usize = 0;
    assert(p@.take(0) =~= Seq::<char>::empty());
    assert(char_views(done@).push(cur@) =~= split_slash(p@.take(0)));
    while i < p.len()
        invariant
            i <= p@.len(),
            char_views(done@).push(cur@) == split_slash(p@.take(i as int)),
        decreases p@.len() - i,
    {
        let c = p[i];
        proof {
            let t = p@.take(i + 1);
            assert(t.drop_last() =~= p@.take(i as int));
            assert(t.last() == c);
        }
        if c == '/' {
            let finished = cur;
            done.push(finished);
            cur = Vec::new();
            assert(char_views(done@).push(cur@) =~= split_slash(p@.take(i + 1)));
        } else {
            let ghost old_done = done@;
            let ghost old_cur = cur@;
            cur.push(c);
            assert(char_views(done@).push(cur@) =~= char_views(old_done).push(old_cur).update(
                char_views(old_done).push(old_cur).len() - 1,
                old_cur.push(c),
            ));
        }
        i += 1;
    }
    assert(p@.take(p@.len() as int) =~= p@);
    done.push(cur);
    assert(char_views(done@) =~= split_slash(p@));
    done
}

fn is_dot(v: &Vec<char>) -> (r: bool)
    ensures
        r == (v@ == "."@),
{
    proof {
        reveal_strlit(".");
    }
    let r = v.len() == 1 && v[0] == '.';
    assert(r ==> v@ =~= "."@);
    r
}

/// The components of `p` (see `path_components`).
fn components_of(p: &Vec<char>) -> (r: Vec<Vec<char>>)
    ensures
        char_views(r@) == path_components(p@),
{
    broadcast use Seq::lemma_filter_push;

    let pieces = pieces_of(p);
    proof {
        lemma_split_slash_nonempty(p@);
        reveal_strlit("/");
        reveal_strlit(".");
    }
    let mut out: Vec<Vec<char>> = Vec::new();
    if p.len() > 0 && p[0] == '/' {
        let mut root: Vec<char> = Vec::new();
        root.push('/');
        assert(root@ =~= "/"@);
        out.push(root);
    } else if is_dot(&pieces[0]) {
        let mut dot: Vec<char> = Vec::new();
        dot.push('.');
        assert(dot@ =~= "."@);
        out.push(dot);
    }
    let ghost head = char_views(out@);
    let ghost pv = char_views(pieces@);
    let ghost pred = |s: Seq<char>| kept_piece(s);
    assert(pv.take(0) =~= Seq::<Seq<char>>::empty());
    assert(Seq::<Seq<char>>::empty().filter(pred) =~= Seq::<Seq<char>>::empty()) by {
        reveal(Seq::filter);
    }
    assert(char_views(out@) =~= head + pv.take(0).filter(pred));
    let mut j: usize = 0;
    while j < pieces.len()
        invariant
            j <= pieces@.len(),
            pv == char_views(pieces@),
            pred == (|s: Seq<char>| kept_piece(s)),
            char_views(out@) == head + pv.take(j as int).filter(pred),
        decreases pieces@.len() - j,
    {
        assert(pv.take(j + 1) =~= pv.take(j as int).push(pv[j as int]));
        let keep = pieces[j].len() > 0 && !is_dot(&pieces[j]);
        proof {
            pv.take(j as int).lemma_filter_push(pv[j as int], pred);
        }
        let ghost before = char_views(out@);
        if keep {
            let c = copy_chars(&pieces[j]);
            out.push(c);
            assert(char_views(out@) =~= before.push(pv[j as int]));
        }
        assert(keep == pred(pv[j as int]));
        j += 1;
    }
    assert(pv.take(pieces@.len() as int) =~= pv);
    assert(char_views(out@) =~= path_components(p@));
    out
}


/// Where `requested` points before it is resolved, given the canonical root: itself when it
/// is absolute, else the root joined with it.
pub fn sandbox_candidate(canon_root: &str, requested: &str) -> (r: String)
    ensures
        r@ == joined_path(canon_root@, requested@),
{
    let req = chars_of(requested);
    let root = chars_of(canon_root);
    if req.len() > 0 && req[0] == '/' {
        return String::from_str(requested);
    }
    if root.len() == 0 || root[root.len() - 1] == '/' {
        String::from_str(canon_root).concat(requested)
    } else {
        String::from_str(canon_root).concat("/").concat(requested)
    }
}

/// Admits a resolved path only under the allowlisted root: when the components of the
/// canonical root begin those of the canonical path, it is answered as is; otherwise the
/// request is refused.
pub fn check_under_root(canon_root: &str, canon: &str) -> (r: Result<String, String>)
    ensures
        r is Ok <==> under_root(canon_root@, canon@),
        r matches Ok(p) ==> p@ == canon@,
        r matches Err(e) ==> e@ == "path escapes allowlisted root"@,
{
    let rc = components_of(&chars_of(canon_root));
    let pc = components_of(&chars_of(canon));
    let ghost rv = char_views(rc@);
    let ghost pv = char_views(pc@);
    let mut inside = rc.len() <= pc.len();
    let mut i: usize = 0;
    while inside && i < rc.len()
        invariant
            i <= rc@.len(),
            inside ==> rc@.len() <= pc@.len(),
            rv == char_views(rc@),
            pv == char_views(pc@),
            inside ==> forall|j: int| 0 <= j < i ==> pv[j] == rv[j],
            !inside ==> !under_root(canon_root@, canon@),
            rv == path_components(canon_root@),
            pv == path_components(canon@),
        decreases rc@.len() - i,
    {
        if !chars_eq(&rc[i], &pc[i]) {
            inside = false;
            assert(pv.subrange(0, rv.len() as int)[i as int] != rv[i as int]);
        }
        i += 1;
    }
    if inside {
        assert(pv.subrange(0, rv.len() as int) =~= rv);
    }
    if inside {
        Ok(String::from_str(canon))
    } else {
        Err(String::from_str("path escapes allowlisted root"))
    }
}

} // verus!
