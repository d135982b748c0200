//! JSON values and the deep merge with which the web UI patches the
//! configuration: objects merge key by key, recursively; anything else in
//! the patch replaces what the base held.

use vstd::prelude::*;
use crate::text::str_eq;

verus! {

/// A JSON number as `serde_json` holds it. Floating-point numbers are held
/// as their `f64` bits.
#[derive(Debug, Clone, Copy, PartialEq, Eq, Structural)]
pub enum JsonNumber {
    PosInt(u64),
    NegInt(i64),
    Float(u64),
}

/// A JSON value. An object is a list of entries; a key is looked up by its
/// first occurrence.
#[derive(Debug)]
pub enum Json {
    Null,
    Bool(bool),
    Number(JsonNumber),
    Str(String),
    Array(Vec<Json>),
    Object(Vec<(String, Json)>),
}

/// The mathematical value of a [`Json`].
pub enum JsonView {
    Null,
    Bool(bool),
    Number(JsonNumber),
    Str(Seq<char>),
    Array(Seq<JsonView>),
    Object(Seq<(Seq<char>, JsonView)>),
}

impl Json {
    pub open spec fn view(&self) -> JsonView
        decreases self,
    {
        match self {
            Json::Null => JsonView::Null,
            Json::Bool(b) => JsonView::Bool(*b),
            Json::Number(n) => JsonView::Number(*n),
            Json::Str(s) => JsonView::Str(s@),
            Json::Array(v) => JsonView::Array(
                Seq::new(v@.len(), |i: int| if 0 <= i < v@.len() { v@[i].view() } else { JsonView::Null }),
            ),
            Json::Object(v) => JsonView::Object(
                Seq::new(
                    v@.len(),
                    |i: int|
                        if 0 <= i < v@.len() {
                            (v@[i].0@, v@[i].1.view())
                        } else {
                            (Seq::empty(), JsonView::Null)
                        },
                ),
            ),
        }
    }
}

/// The index of the entry with key `k`, if any (the first one).
#[verifier::opaque]
pub open spec fn key_index(entries: Seq<(Seq<char>, JsonView)>, k: Seq<char>) -> Option<int> {
    if exists|i: int| 0 <= i < entries.len() && #[trigger] entries[i].0 == k {
        Some(
            choose|i: int|
                0 <= i < entries.len() && entries[i].0 == k && forall|j: int|
                    0 <= j < i ==> #[trigger] entries[j].0 != k,
        )
    } else {
        None
    }
}

/// The value under key `k`, or null.
pub open spec fn value_at(entries: Seq<(Seq<char>, JsonView)>, k: Seq<char>) -> JsonView {
    match key_index(entries, k) {
        Some(i) => entries[i].1,
        None => JsonView::Null,
    }
}

/// Puts `v` under `k`: in place of the entry with that key, or at the end.
pub open spec fn set_entry(entries: Seq<(Seq<char>, JsonView)>, k: Seq<char>, v: JsonView) -> Seq<(Seq<char>, JsonView)> {
    match key_index(entries, k) {
        Some(i) => entries.update(i, (k, v)),
        None => entries.push((k, v)),
    }
}

/// The deep merge of `patch` into `base`.
pub open spec fn merged(base: JsonView, patch: JsonView) -> JsonView
    decreases patch, 0nat,
{
    match (base, patch) {
        (JsonView::Object(b), JsonView::Object(p)) => JsonView::Object(merge_entries(b, p, p.len())),
        _ => patch,
    }
}

/// The base entries with the first `n` patch entries merged in, in order.
pub open spec fn merge_entries(
    b: Seq<(Seq<char>, JsonView)>,
    p: Seq<(Seq<char>, JsonView)>,
    n: nat,
) -> Seq<(Seq<char>, JsonView)>
    decreases p, n,
{
    if n == 0 || n > p.len() {
        b
    } else {
        let acc = merge_entries(b, p, (n - 1) as nat);
        let k = p[n - 1].0;
        set_entry(acc, k, merged(value_at(acc, k), p[n - 1].1))
    }
}

/// The mathematical entries of an object.
pub open spec fn entries_view(v: Seq<(String, Json)>) -> Seq<(Seq<char>, JsonView)> {
    Seq::new(v.len(), |i: int| (v[i].0@, v[i].1.view()))
}

/// A copy of `j`.
pub fn clone_json(j: &Json) -> (r: Json)
    ensures
        r.view() == j.view(),
    decreases j,
{
    match j {
        Json::Null => Json::Null,
        Json::Bool(b) => Json::Bool(*b),
        Json::Number(n) => Json::Number(*n),
        Json::Str(s) => Json::Str(s.clone()),
        Json::Array(v) => {
            let mut out: Vec<Json> = Vec::new();
            let mut i: usize = 0;
            while i < v.len()
                invariant
                    i <= v.len(),
                    out.len() == i,
                    *j == Json::Array(*v),
                    forall|k: int| 0 <= k < i ==> #[trigger] out@[k].view() == v@[k].view(),
                decreases v.len() - i,
            {
                proof {
                    assert(decreases_to!(*j => j->Array_0));
                    vstd::std_specs::vec::axiom_vec_index_decreases(*v, i as int);
                }
                let c = clone_json(&v[i]);
                out.push(c);
                i += 1;
            }
            let r = Json::Array(out);
            proof {
                let a = Seq::new(out@.len(), |k: int| if 0 <= k < out@.len() { out@[k].view() } else { JsonView::Null });
                let b = Seq::new(v@.len(), |k: int| if 0 <= k < v@.len() { v@[k].view() } else { JsonView::Null });
                assert(a =~= b);
                assert(r.view()->Array_0 =~= a);
                assert(j.view()->Array_0 =~= b);
            }
            r
        }
        Json::Object(v) => {
            let mut out: Vec<(String, Json)> = Vec::new();
            let mut i: usize = 0;
            while i < v.len()
                invariant
                    i <= v.len(),
                    out.len() == i,
                    *j == Json::Object(*v),
                    forall|k: int| 0 <= k < i ==> #[trigger] out@[k].0@ == v@[k].0@,
                    forall|k: int| 0 <= k < i ==> #[trigger] out@[k].1.view() == v@[k].1.view(),
                decreases v.len() - i,
            {
                proof {
                    assert(decreases_to!(*j => j->Object_0));
                    vstd::std_specs::vec::axiom_vec_index_decreases(*v, i as int);
                    assert(decreases_to!(v[i as int] => v[i as int].1));
                }
                let c = clone_json(&v[i].1);
                let k = v[i].0.clone();
                out.push((k, c));
                i += 1;
            }
            let r = Json::Object(out);
            proof {
                let a = Seq::new(
                    out@.len(),
                    |k: int| if 0 <= k < out@.len() { (out@[k].0@, out@[k].1.view()) } else { (Seq::empty(), JsonView::Null) },
                );
                let b = Seq::new(
                    v@.len(),
                    |k: int| if 0 <= k < v@.len() { (v@[k].0@, v@[k].1.view()) } else { (Seq::empty(), JsonView::Null) },
                );
                assert(a =~= b);
                assert(r.view()->Object_0 =~= a);
                assert(j.view()->Object_0 =~= b);
            }
            r
        }
    }
}

proof fn lemma_first_witness(e: Seq<(Seq<char>, JsonView)>, k: Seq<char>, w: int)
    requires
        0 <= w < e.len(),
        e[w].0 == k,
    ensures
        exists|i: int|
            0 <= i < e.len() && e[i].0 == k && forall|m: int| 0 <= m < i ==> #[trigger] e[m].0 != k,
    decreases w,
{
    if exists|m: int| 0 <= m < w && #[trigger] e[m].0 == k {
        let m = choose|m: int| 0 <= m < w && #[trigger] e[m].0 == k;
        lemma_first_witness(e, k, m);
    } else {
        assert(forall|m: int| 0 <= m < w ==> #[trigger] e[m].0 != k);
    }
}

/// What [`key_index`] gives: the first position of the key, or none.
pub proof fn lemma_key_index(e: Seq<(Seq<char>, JsonView)>, k: Seq<char>)
    ensures
        match key_index(e, k) {
            Some(i) => {
                &&& 0 <= i < e.len()
                &&& e[i].0 == k
                &&& forall|m: int| 0 <= m < i ==> #[trigger] e[m].0 != k
            },
            None => forall|m: int| 0 <= m < e.len() ==> #[trigger] e[m].0 != k,
        },
{
    reveal(key_index);
    if exists|i: int| 0 <= i < e.len() && #[trigger] e[i].0 == k {
        let w = choose|i: int| 0 <= i < e.len() && #[trigger] e[i].0 == k;
        lemma_first_witness(e, k, w);
    }
}

proof fn lemma_key_index_same_positions(e: Seq<(Seq<char>, JsonView)>, f: Seq<(Seq<char>, JsonView)>, k: Seq<char>)
    requires
        e.len() <= f.len(),
        forall|m: int| 0 <= m < e.len() ==> (#[trigger] e[m].0 == k) == (f[m].0 == k),
        forall|m: int| e.len() <= m < f.len() ==> #[trigger] f[m].0 != k,
    ensures
        key_index(f, k) == key_index(e, k),
{
    lemma_key_index(e, k);
    lemma_key_index(f, k);
    match key_index(e, k) {
        Some(i) => {
            match key_index(f, k) {
                Some(j) => {
                    if j < i {
                        assert(e[j].0 == k);
                    } else if i < j {
                        assert(f[i].0 == k);
                    }
                },
                None => {
                    assert(f[i].0 == k);
                },
            }
        },
        None => {
            match key_index(f, k) {
                Some(j) => {
                    if j < e.len() {
                        assert(e[j].0 == k);
                    }
                },
                None => {},
            }
        },
    }
}

/// Setting one key leaves the value under every other key as it was.
pub proof fn lemma_set_entry_other_key(
    e: Seq<(Seq<char>, JsonView)>,
    k: Seq<char>,
    v: JsonView,
    other: Seq<char>,
)
    requires
        other != k,
    ensures
        value_at(set_entry(e, k, v), other) == value_at(e, other),
{
    lemma_key_index(e, k);
    match key_index(e, k) {
        Some(i) => {
            let f = e.update(i, (k, v));
            assert(forall|m: int| 0 <= m < e.len() ==> (#[trigger] e[m].0 == other) == (f[m].0 == other));
            lemma_key_index_same_positions(e, f, other);
            lemma_key_index(e, other);
        },
        None => {
            let f = e.push((k, v));
            assert(forall|m: int| 0 <= m < e.len() ==> (#[trigger] e[m].0 == other) == (f[m].0 == other));
            lemma_key_index_same_positions(e, f, other);
            lemma_key_index(e, other);
        },
    }
}

/// After setting a key, the value under it is the value set.
pub proof fn lemma_set_entry_same_key(e: Seq<(Seq<char>, JsonView)>, k: Seq<char>, v: JsonView)
    ensures
        value_at(set_entry(e, k, v), k) == v,
{
    lemma_key_index(e, k);
    let f = set_entry(e, k, v);
    lemma_key_index(f, k);
    match key_index(e, k) {
        Some(i) => {
            match key_index(f, k) {
                Some(j) => {
                    if j < i {
                        assert(e[j].0 == k);
                    } else if i < j {
                        assert(f[i].0 == k);
                    }
                },
                None => {
                    assert(f[i].0 == k);
                },
            }
        },
        None => {
            match key_index(f, k) {
                Some(j) => {
                    if j < e.len() {
                        assert(e[j].0 == k);
                    }
                },
                None => {
                    assert(f[e.len() as int].0 == k);
                },
            }
        },
    }
}

proof fn lemma_merge_entries_unmentioned(
    b: Seq<(Seq<char>, JsonView)>,
    p: Seq<(Seq<char>, JsonView)>,
    n: nat,
    k: Seq<char>,
)
    requires
        n <= p.len(),
        forall|m: int| 0 <= m < n ==> #[trigger] p[m].0 != k,
    ensures
        value_at(merge_entries(b, p, n), k) == value_at(b, k),
    decreases n,
{
    if n > 0 {
        lemma_merge_entries_unmentioned(b, p, (n - 1) as nat, k);
        let acc = merge_entries(b, p, (n - 1) as nat);
        let pk = p[n - 1].0;
        lemma_set_entry_other_key(acc, pk, merged(value_at(acc, pk), p[n - 1].1), k);
    }
}

proof fn lemma_merge_entries_mentioned_once(
    b: Seq<(Seq<char>, JsonView)>,
    p: Seq<(Seq<char>, JsonView)>,
    n: nat,
    k: Seq<char>,
    idx: int,
)
    requires
        n <= p.len(),
        0 <= idx < n,
        p[idx].0 == k,
        forall|m: int| 0 <= m < p.len() && m != idx ==> #[trigger] p[m].0 != k,
    ensures
        value_at(merge_entries(b, p, n), k) == merged(value_at(b, k), p[idx].1),
    decreases n,
{
    let acc = merge_entries(b, p, (n - 1) as nat);
    let pk = p[n - 1].0;
    if idx == n - 1 {
        lemma_merge_entries_unmentioned(b, p, (n - 1) as nat, k);
        lemma_set_entry_same_key(acc, pk, merged(value_at(acc, pk), p[n - 1].1));
    } else {
        lemma_merge_entries_mentioned_once(b, p, (n - 1) as nat, k, idx);
        lemma_set_entry_other_key(acc, pk, merged(value_at(acc, pk), p[n - 1].1), k);
    }
}

/// A patch that is not an object replaces the base, whatever the base is.
pub proof fn lemma_merge_non_object_replaces(base: JsonView, patch: JsonView)
    requires
        !(patch is Object),
    ensures
        merged(base, patch) == patch,
{
}

/// Merging an object patch into an object leaves the value under every key
/// that the patch does not mention as it was.
pub proof fn lemma_merge_keeps_unmentioned_keys(base: JsonView, patch: JsonView, k: Seq<char>)
    requires
        base is Object,
        patch is Object,
        forall|m: int| 0 <= m < patch->Object_0.len() ==> #[trigger] patch->Object_0[m].0 != k,
    ensures
        merged(base, patch) is Object,
        value_at(merged(base, patch)->Object_0, k) == value_at(base->Object_0, k),
{
    let p = patch->Object_0;
    lemma_merge_entries_unmentioned(base->Object_0, p, p.len(), k);
}

/// Merging an object patch into an object puts under a key that the patch
/// mentions once the base's value there (null where it had none) with the
/// patch's value merged into it.
pub proof fn lemma_merge_patched_key(base: JsonView, patch: JsonView, k: Seq<char>, idx: int)
    requires
        base is Object,
        patch is Object,
        0 <= idx < patch->Object_0.len(),
        patch->Object_0[idx].0 == k,
        forall|m: int| 0 <= m < patch->Object_0.len() && m != idx ==> #[trigger] patch->Object_0[m].0 != k,
    ensures
        merged(base, patch) is Object,
        value_at(merged(base, patch)->Object_0, k) == merged(value_at(base->Object_0, k), patch->Object_0[idx].1),
{
    let p = patch->Object_0;
    lemma_merge_entries_mentioned_once(base->Object_0, p, p.len(), k, idx);
}

proof fn lemma_entries_view_update(v: Seq<(String, Json)>, j: int, e: (String, Json))
    requires
        0 <= j < v.len(),
    ensures
        entries_view(v.update(j, e)) == entries_view(v).update(j, (e.0@, e.1.view())),
{
    assert(entries_view(v.update(j, e)) =~= entries_view(v).update(j, (e.0@, e.1.view())));
}

proof fn lemma_entries_view_push(v: Seq<(String, Json)>, e: (String, Json))
    ensures
        entries_view(v.push(e)) == entries_view(v).push((e.0@, e.1.view())),
{
    assert(entries_view(v.push(e)) =~= entries_view(v).push((e.0@, e.1.view())));
}

proof fn lemma_merge_step_found(
    b: Seq<(Seq<char>, JsonView)>,
    p: Seq<(Seq<char>, JsonView)>,
    n: nat,
    acc: Seq<(Seq<char>, JsonView)>,
    j: int,
)
    requires
        n < p.len(),
        acc == merge_entries(b, p, n),
        key_index(acc, p[n as int].0) == Some(j),
        0 <= j < acc.len(),
    ensures
        merge_entries(b, p, n + 1) == acc.update(j, (p[n as int].0, merged(acc[j].1, p[n as int].1))),
{
}

proof fn lemma_merge_step_absent(
    b: Seq<(Seq<char>, JsonView)>,
    p: Seq<(Seq<char>, JsonView)>,
    n: nat,
    acc: Seq<(Seq<char>, JsonView)>,
)
    requires
        n < p.len(),
        acc == merge_entries(b, p, n),
        key_index(acc, p[n as int].0) is None,
    ensures
        merge_entries(b, p, n + 1) == acc.push((p[n as int].0, p[n as int].1)),
{
    assert(merged(JsonView::Null, p[n as int].1) == p[n as int].1);
}

/// The position of the first entry with key `key`.
fn find_key(entries: &Vec<(String, Json)>, key: &String) -> (r: Option<usize>)
    ensures
        match r {
            Some(j) => {
                &&& key_index(entries_view(entries@), key@) == Some(j as int)
                &&& j < entries.len()
                &&& entries@[j as int].0@ == key@
            },
            None => {
                &&& key_index(entries_view(entries@), key@) is None
                &&& forall|m: int| 0 <= m < entries.len() ==> #[trigger] entries@[m].0@ != key@
            },
        },
{
    let ghost ev = entries_view(entries@);
    let mut j: usize = 0;
    while j < entries.len()
        invariant
            j <= entries.len(),
            ev == entries_view(entries@),
            forall|m: int| 0 <= m < j ==> #[trigger] ev[m].0 != key@,
            forall|m: int| 0 <= m < j ==> #[trigger] entries@[m].0@ != key@,
        decreases entries.len() - j,
    {
        if entries[j].0 == *key {
            proof {
                let ji = j as int;
                assert(ev[ji].0 == key@);
                lemma_key_index(ev, key@);
                if let Some(c) = key_index(ev, key@) {
                    if c < ji {
                        assert(ev[c].0 != key@);
                    } else if c > ji {
                        assert(ev[ji].0 != key@);
                    }
                }
            }
            return Some(j);
        }
        j += 1;
    }
    proof {
        lemma_key_index(ev, key@);
        if let Some(c) = key_index(ev, key@) {
            assert(ev[c].0 != key@);
        }
    }
    None
}

/// `base` with `patch` merged into it: where both are objects, each entry of
/// the patch is merged, in order, into the base's value under the same key
/// (null where there is none); otherwise the result is the patch.
pub fn deep_merge(base: Json, patch: &Json) -> (r: Json)
    ensures
        r.view() == merged(base.view(), patch.view()),
    decreases patch,
{
    let ghost bv = base.view();
    match patch {
        Json::Object(pentries) => {
            match base {
                Json::Object(mut entries) => {
                    let ghost b = entries_view(entries@);
                    let ghost p = entries_view(pentries@);
                    proof {
                        assert(bv->Object_0 =~= b);
                        assert(patch.view()->Object_0 =~= p);
                    }
                    let mut i: usize = 0;
                    while i < pentries.len()
                        invariant
                            i <= pentries.len(),
                            *patch == Json::Object(*pentries),
                            p == entries_view(pentries@),
                            entries_view(entries@) == merge_entries(b, p, i as nat),
                        decreases pentries.len() - i,
                    {
                        let ghost acc = entries_view(entries@);
                        let ghost before = entries@;
                        let key = &pentries[i].0;
                        match find_key(&entries, key) {
                            Some(j) => {
                                proof {
                                    assert(decreases_to!(*patch => patch->Object_0));
                                    vstd::std_specs::vec::axiom_vec_index_decreases(*pentries, i as int);
                                    assert(decreases_to!(pentries[i as int] => pentries[i as int].1));
                                }
                                let (old_key, old_value) = entries.remove(j);
                                let new_value = deep_merge(old_value, &pentries[i].1);
                                entries.insert(j, (old_key, new_value));
                                proof {
                                    assert(entries@ =~= before.update(j as int, (old_key, new_value)));
                                    lemma_entries_view_update(before, j as int, (old_key, new_value));
                                    lemma_merge_step_found(b, p, i as nat, acc, j as int);
                                }
                            },
                            None => {
                                let v = clone_json(&pentries[i].1);
                                let e = (key.clone(), v);
                                let ghost eg = e;
                                entries.push(e);
                                proof {
                                    lemma_entries_view_push(before, eg);
                                    lemma_merge_step_absent(b, p, i as nat, acc);
                                }
                            },
                        }
                        i += 1;
                    }
                    let r = Json::Object(entries);
                    proof {
                        assert(r.view()->Object_0 =~= entries_view(entries@));
                    }
                    r
                },
                _ => clone_json(patch),
            }
        },
        _ => clone_json(patch),
    }
}

/// The key of the web UI's section of the configuration.
pub open spec fn web_key() -> Seq<char> {
    seq!['w', 'e', 'b']
}

/// The key under which the web section holds the password hash.
pub open spec fn password_hash_key() -> Seq<char> {
    seq!['p', 'a', 's', 's', 'w', 'o', 'r', 'd', '_', 'h', 'a', 's', 'h']
}

/// The entries without those under key `k`, in order.
pub open spec fn without_key(e: Seq<(Seq<char>, JsonView)>, k: Seq<char>) -> Seq<(Seq<char>, JsonView)>
    decreases e.len(),
{
    if e.len() == 0 {
        e
    } else {
        let r = without_key(e.drop_last(), k);
        if e.last().0 == k {
            r
        } else {
            r.push(e.last())
        }
    }
}

/// An entry of the configuration as the web UI is shown it: a web section
/// that is an object loses its password hash.
pub open spec fn redact_entry(p: (Seq<char>, JsonView)) -> (Seq<char>, JsonView) {
    if p.0 == web_key() && p.1 is Object {
        (p.0, JsonView::Object(without_key(p.1->Object_0, password_hash_key())))
    } else {
        p
    }
}

/// The configuration as the web UI is shown it.
pub open spec fn redacted(j: JsonView) -> JsonView {
    match j {
        JsonView::Object(e) => JsonView::Object(e.map_values(|p: (Seq<char>, JsonView)| redact_entry(p))),
        _ => j,
    }
}

proof fn lemma_without_key_absent(e: Seq<(Seq<char>, JsonView)>, k: Seq<char>)
    ensures
        forall|m: int| 0 <= m < without_key(e, k).len() ==> #[trigger] without_key(e, k)[m].0 != k,
    decreases e.len(),
{
    if e.len() > 0 {
        lemma_without_key_absent(e.drop_last(), k);
        let r = without_key(e.drop_last(), k);
        if e.last().0 != k {
            assert forall|m: int| 0 <= m < r.push(e.last()).len() implies #[trigger] r.push(e.last())[m].0
                != k by {
                if m < r.len() {
                    assert(r.push(e.last())[m] == r[m]);
                }
            }
        }
    }
}

/// The entries without those under `key`.
fn drop_key(entries: Vec<(String, Json)>, key: &str) -> (r: Vec<(String, Json)>)
    ensures
        entries_view(r@) == without_key(entries_view(entries@), key@),
{
    let ghost orig = entries@;
    let ghost ov = entries_view(orig);
    let n = entries.len();
    let mut rest = entries;
    let mut out: Vec<(String, Json)> = Vec::new();
    let mut i: usize = 0;
    assert(rest@ =~= orig.subrange(0, n as int));
    assert(ov.take(0) =~= Seq::<(Seq<char>, JsonView)>::empty());
    while i < n
        invariant
            n == orig.len(),
            ov == entries_view(orig),
            0 <= i <= n,
            rest@ =~= orig.subrange(i as int, n as int),
            entries_view(out@) == without_key(ov.take(i as int), key@),
        decreases n - i,
    {
        let ghost before = out@;
        let e = rest.remove(0);
        proof {
            assert(e == orig[i as int]);
            assert(ov.take(i + 1).drop_last() =~= ov.take(i as int));
            assert(ov.take(i + 1).last() == (e.0@, e.1.view()));
        }
        if !str_eq(e.0.as_str(), key) {
            let ghost eg = e;
            out.push(e);
            proof {
                lemma_entries_view_push(before, eg);
            }
        }
        i += 1;
    }
    assert(ov.take(n as int) =~= ov);
    out
}

/// The configuration as the web UI is shown it: where its web section is an
/// object, that object loses every entry under `password_hash`; everything
/// else stays as it is.
pub fn redact_password_hash(config: Json) -> (r: Json)
    ensures
        r.view() == redacted(config.view()),
{
    let ghost cv = config.view();
    match config {
        Json::Object(entries) => {
            let ghost orig = entries@;
            let ghost ov = entries_view(orig);
            proof {
                assert(cv->Object_0 =~= ov);
                reveal_strlit("web");
                reveal_strlit("password_hash");
                assert("web"@ =~= web_key());
                assert("password_hash"@ =~= password_hash_key());
            }
            let n = entries.len();
            let mut rest = entries;
            let mut out: Vec<(String, Json)> = Vec::new();
            let mut i: usize = 0;
            assert(rest@ =~= orig.subrange(0, n as int));
            while i < n
                invariant
                    n == orig.len(),
                    ov == entries_view(orig),
                    0 <= i <= n,
                    rest@ =~= orig.subrange(i as int, n as int),
                    entries_view(out@) =~= ov.take(i as int).map_values(
                        |p: (Seq<char>, JsonView)| redact_entry(p),
                    ),
                    "web"@ == web_key(),
                    "password_hash"@ == password_hash_key(),
                decreases n - i,
            {
                let ghost before = out@;
                let (k, v) = rest.remove(0);
                let ghost p = ov[i as int];
                assert(k@ == p.0 && v.view() == p.1) by {
                    assert((k, v) == orig[i as int]);
                }
                let e = if str_eq(k.as_str(), "web") {
                    match v {
                        Json::Object(w) => {
                            let ghost wv = v.view();
                            assert(wv->Object_0 =~= entries_view(w@));
                            let kept = drop_key(w, "password_hash");
                            let nv = Json::Object(kept);
                            assert(nv.view()->Object_0 =~= entries_view(kept@));
                            (k, nv)
                        },
                        other => (k, other),
                    }
                } else {
                    (k, v)
                };
                let ghost eg = e;
                assert((eg.0@, eg.1.view()) == redact_entry(p));
                out.push(e);
                proof {
                    lemma_entries_view_push(before, eg);
                    assert(ov.take(i + 1) =~= ov.take(i as int).push(p));
                }
                i += 1;
            }
            let r = Json::Object(out);
            proof {
                assert(ov.take(n as int) =~= ov);
                assert(r.view()->Object_0 =~= entries_view(out@));
            }
            r
        },
        other => other,
    }
}

/// In the configuration as the web UI is shown it, a web section that is an
/// object holds no password hash.
pub proof fn lemma_redacted_web_has_no_hash(j: JsonView)
    requires
        j is Object,
    ensures
        redacted(j) is Object,
        value_at(redacted(j)->Object_0, web_key()) matches JsonView::Object(w) ==> key_index(
            w,
            password_hash_key(),
        ) is None,
{
    let e = j->Object_0;
    let f = redacted(j)->Object_0;
    assert(f == e.map_values(|p: (Seq<char>, JsonView)| redact_entry(p)));
    lemma_key_index(f, web_key());
    if let Some(i) = key_index(f, web_key()) {
        assert(f[i] == redact_entry(e[i]));
        if let JsonView::Object(w) = f[i].1 {
            assert(e[i].1 is Object);
            let ew = e[i].1->Object_0;
            assert(w == without_key(ew, password_hash_key()));
            lemma_without_key_absent(ew, password_hash_key());
            lemma_key_index(w, password_hash_key());
            if let Some(m) = key_index(w, password_hash_key()) {
                assert(w[m].0 != password_hash_key());
            }
        }
    }
}

} // verus!
