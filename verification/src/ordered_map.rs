//! Insertion-ordered maps keyed by strings, as `indexmap::IndexMap` keeps
//! them, and the statement that a map holds one entry per distinct key of a
//! sequence of items, in order of first appearance, valued by the last item
//! with that key.
use vstd::prelude::*;
use indexmap::IndexMap;
use crate::schema::SchemaRef;
use crate::document::{ComponentSchema, MethodOperation};

verus! {

#[verifier::external_type_specification]
#[verifier::external_body]
#[verifier::reject_recursive_types(K)]
#[verifier::reject_recursive_types(V)]
#[verifier::reject_recursive_types(S)]
pub struct ExIndexMap<K, V, S>(IndexMap<K, V, S>);

/// The position of the first entry with key `k`, or -1 if there is none.
pub open spec fn key_position<K, V>(entries: Seq<(K, V)>, k: K) -> int
    decreases entries.len(),
{
    if entries.len() == 0 {
        -1
    } else {
        let p = key_position(entries.drop_last(), k);
        if p >= 0 {
            p
        } else if entries.last().0 == k {
            entries.len() - 1
        } else {
            -1
        }
    }
}

/// The entries after inserting `(k, v)`: an entry with key `k` keeps its
/// place and takes the value `v`; otherwise the pair goes last.
pub open spec fn inserted<K, V>(entries: Seq<(K, V)>, k: K, v: V) -> Seq<(K, V)> {
    let p = key_position(entries, k);
    if p >= 0 {
        entries.update(p, (k, v))
    } else {
        entries.push((k, v))
    }
}

/// The value that an insertion of key `k` replaces, if any.
pub open spec fn replaced<K, V>(entries: Seq<(K, V)>, k: K) -> Option<V> {
    let p = key_position(entries, k);
    if p >= 0 {
        Some(entries[p].1)
    } else {
        None
    }
}

/// The distinct keys of `keys`, in order of first appearance.
pub open spec fn first_keys(keys: Seq<Seq<char>>) -> Seq<Seq<char>>
    decreases keys.len(),
{
    if keys.len() == 0 {
        seq![]
    } else {
        let d = first_keys(keys.drop_last());
        if d.contains(keys.last()) {
            d
        } else {
            d.push(keys.last())
        }
    }
}

/// The position of the last occurrence of `k` in `keys`, or -1.
pub open spec fn last_index(keys: Seq<Seq<char>>, k: Seq<char>) -> int
    decreases keys.len(),
{
    if keys.len() == 0 {
        -1
    } else if keys.last() == k {
        keys.len() - 1
    } else {
        last_index(keys.drop_last(), k)
    }
}

/// `entries` has one entry per distinct key of `keys` (the keys of a sequence
/// of items), in order of first appearance, and the value of each entry is
/// one that `value_of` allows for the last item with its key.
pub open spec fn ordered_entries<V>(
    entries: Seq<(Seq<char>, V)>,
    keys: Seq<Seq<char>>,
    value_of: spec_fn(int, V) -> bool,
) -> bool {
    &&& entries.len() == first_keys(keys).len()
    &&& forall|i: int|
        #![trigger entries[i]]
        0 <= i < entries.len() ==> entries[i].0 == first_keys(keys)[i] && value_of(
            last_index(keys, entries[i].0),
            entries[i].1,
        )
}

/// The distinct keys hold no key twice, and hold exactly the keys that occur.
pub proof fn lemma_first_keys(keys: Seq<Seq<char>>)
    ensures
        forall|i: int, j: int|
            0 <= i < j < first_keys(keys).len() ==> first_keys(keys)[i] != first_keys(keys)[j],
        forall|k: Seq<char>|
            #![trigger first_keys(keys).contains(k)]
            #![trigger keys.contains(k)]
            first_keys(keys).contains(k) <==> keys.contains(k),
    decreases keys.len(),
{
    if keys.len() > 0 {
        let pre = keys.drop_last();
        lemma_first_keys(pre);
        let d = first_keys(pre);
        let fk = first_keys(keys);
        assert forall|k: Seq<char>| fk.contains(k) <==> keys.contains(k) by {
            if fk.contains(k) {
                let j = choose|j: int| 0 <= j < fk.len() && fk[j] == k;
                if j < d.len() {
                    assert(d[j] == k);
                    assert(d.contains(k));
                    let m = choose|m: int| 0 <= m < pre.len() && pre[m] == k;
                    assert(keys[m] == k);
                } else {
                    assert(keys[keys.len() - 1] == k);
                }
            }
            if keys.contains(k) {
                if k == keys.last() {
                    if !d.contains(k) {
                        assert(fk[d.len() as int] == k);
                    }
                } else {
                    let m = choose|m: int| 0 <= m < keys.len() && keys[m] == k;
                    assert(pre[m] == k);
                    assert(pre.contains(k));
                    let j = choose|j: int| 0 <= j < d.len() && d[j] == k;
                    assert(fk[j] == k);
                }
            }
        }
    }
}

/// The last occurrence of a key that occurs holds that key.
pub proof fn lemma_last_index(keys: Seq<Seq<char>>, k: Seq<char>)
    ensures
        keys.contains(k) ==> 0 <= last_index(keys, k) < keys.len() && keys[last_index(keys, k)] == k,
        !keys.contains(k) ==> last_index(keys, k) == -1,
    decreases keys.len(),
{
    if keys.len() > 0 {
        let pre = keys.drop_last();
        lemma_last_index(pre, k);
        if keys.last() != k {
            if keys.contains(k) {
                let j = choose|j: int| 0 <= j < keys.len() && keys[j] == k;
                assert(pre[j] == k);
            }
            if pre.contains(k) {
                let j = choose|j: int| 0 <= j < pre.len() && pre[j] == k;
                assert(keys[j] == k);
            }
        } else {
            assert(keys[keys.len() - 1] == k);
        }
    }
}

/// `key_position` finds the first entry with the key, if there is one.
pub proof fn lemma_key_position<K, V>(entries: Seq<(K, V)>, k: K)
    ensures
        key_position(entries, k) >= 0 ==> key_position(entries, k) < entries.len()
            && entries[key_position(entries, k)].0 == k
            && forall|j: int| 0 <= j < key_position(entries, k) ==> entries[j].0 != k,
        key_position(entries, k) < 0 ==> key_position(entries, k) == -1
            && forall|j: int| 0 <= j < entries.len() ==> entries[j].0 != k,
    decreases entries.len(),
{
    if entries.len() > 0 {
        let pre = entries.drop_last();
        lemma_key_position(pre, k);
        assert forall|j: int| 0 <= j < pre.len() implies pre[j] == entries[j] by {}
    }
}

/// Inserting the key and a value of the next item keeps `ordered_entries`.
pub proof fn lemma_ordered_insert<V>(
    entries: Seq<(Seq<char>, V)>,
    keys: Seq<Seq<char>>,
    value_of: spec_fn(int, V) -> bool,
    v: V,
)
    requires
        keys.len() > 0,
        ordered_entries(entries, keys.drop_last(), value_of),
        value_of(keys.len() - 1, v),
    ensures
        ordered_entries(inserted(entries, keys.last(), v), keys, value_of),
{
    let k = keys.last();
    let pre = keys.drop_last();
    let fk = first_keys(pre);
    lemma_first_keys(pre);
    lemma_key_position(entries, k);
    let p = key_position(entries, k);
    let next = inserted(entries, k, v);
    assert forall|i: int| 0 <= i < entries.len() && entries[i].0 != k implies last_index(
        keys,
        entries[i].0,
    ) == last_index(pre, entries[i].0) by {}
    if fk.contains(k) {
        let q = choose|q: int| 0 <= q < fk.len() && fk[q] == k;
        assert(entries[q].0 == k);
        assert(p == q) by {
            if p < q {
                assert(entries[p].0 == fk[p]);
            }
        }
        assert forall|i: int| #![trigger next[i]] 0 <= i < next.len() implies next[i].0 == first_keys(keys)[i]
            && value_of(last_index(keys, next[i].0), next[i].1) by {
            if i != q {
                assert(entries[i] == next[i]);
                assert(fk[i] != k);
            }
        }
    } else {
        assert(p == -1) by {
            if p >= 0 {
                assert(entries[p].0 == fk[p]);
            }
        }
        assert forall|i: int| #![trigger next[i]] 0 <= i < next.len() implies next[i].0 == first_keys(keys)[i]
            && value_of(last_index(keys, next[i].0), next[i].1) by {
            if i < entries.len() {
                assert(entries[i] == next[i]);
                assert(fk[i] != k) by {
                    assert(fk.contains(fk[i]));
                }
            }
        }
    }
}

/// Entries that `ordered_entries` describes hold each key of the items once,
/// and no other key; the entry of a key holds a value allowed for the last
/// item with that key.
pub proof fn lemma_ordered_entries_keys<V>(
    entries: Seq<(Seq<char>, V)>,
    keys: Seq<Seq<char>>,
    value_of: spec_fn(int, V) -> bool,
)
    requires
        ordered_entries(entries, keys, value_of),
    ensures
        forall|i: int, j: int| 0 <= i < j < entries.len() ==> entries[i].0 != entries[j].0,
        forall|i: int| 0 <= i < entries.len() ==> keys.contains(#[trigger] entries[i].0),
        forall|k: Seq<char>|
            #![trigger keys.contains(k)]
            keys.contains(k) ==> exists|i: int|
                0 <= i < entries.len() && entries[i].0 == k && value_of(last_index(keys, k), entries[i].1),
        forall|k: Seq<char>|
            #![trigger keys.contains(k)]
            keys.contains(k) ==> 0 <= last_index(keys, k) < keys.len() && keys[last_index(keys, k)] == k,
{
    lemma_first_keys(keys);
    let fk = first_keys(keys);
    assert forall|i: int| 0 <= i < entries.len() implies keys.contains(#[trigger] entries[i].0) by {
        assert(fk.contains(fk[i]));
    }
    assert forall|k: Seq<char>| #![trigger keys.contains(k)] keys.contains(k) implies exists|i: int|
        0 <= i < entries.len() && entries[i].0 == k && value_of(last_index(keys, k), entries[i].1) by {
        assert(fk.contains(k));
        let i = choose|i: int| 0 <= i < fk.len() && fk[i] == k;
        assert(entries[i].0 == k);
    }
    assert forall|k: Seq<char>| #![trigger keys.contains(k)] keys.contains(k) implies 0 <= last_index(keys, k)
        < keys.len() && keys[last_index(keys, k)] == k by {
        lemma_last_index(keys, k);
    }
}

/// `ordered_entries` asks of each value only what `value_of` says of the
/// items that exist, so two predicates that agree there describe the same
/// maps.
pub proof fn lemma_ordered_entries_agree<V>(
    entries: Seq<(Seq<char>, V)>,
    keys: Seq<Seq<char>>,
    f: spec_fn(int, V) -> bool,
    g: spec_fn(int, V) -> bool,
)
    requires
        forall|j: int, v: V| #![trigger f(j, v)] #![trigger g(j, v)] 0 <= j < keys.len() ==> f(j, v) == g(j, v),
    ensures
        ordered_entries(entries, keys, f) == ordered_entries(entries, keys, g),
{
    lemma_first_keys(keys);
    let fk = first_keys(keys);
    if entries.len() == fk.len() && forall|i: int| 0 <= i < entries.len() ==> entries[i].0 == fk[i] {
        assert forall|i: int| 0 <= i < entries.len() implies f(last_index(keys, entries[i].0), entries[i].1)
            == g(last_index(keys, entries[i].0), entries[i].1) by {
            assert(fk.contains(fk[i]));
            lemma_last_index(keys, entries[i].0);
        }
    }
}

/// The keys of entries, in order.
pub open spec fn entry_keys<K, V>(e: Seq<(K, V)>) -> Seq<K> {
    e.map_values(|p: (K, V)| p.0)
}

/// The keys after inserting key `k`: a present key stays, a new one goes last.
pub open spec fn keys_inserted<K>(ks: Seq<K>, k: K) -> Seq<K> {
    if ks.contains(k) {
        ks
    } else {
        ks.push(k)
    }
}

/// The keys after inserting each of `new`, in order.
pub open spec fn keys_after<K>(ks: Seq<K>, new: Seq<K>) -> Seq<K>
    decreases new.len(),
{
    if new.len() == 0 {
        ks
    } else {
        keys_inserted(keys_after(ks, new.drop_last()), new.last())
    }
}

/// The entries after inserting each pair of `others`, in order.
pub open spec fn inserted_all<K, V>(e: Seq<(K, V)>, others: Seq<(K, V)>) -> Seq<(K, V)>
    decreases others.len(),
{
    if others.len() == 0 {
        e
    } else {
        inserted(inserted_all(e, others.drop_last()), others.last().0, others.last().1)
    }
}

/// Inserting a pair changes the keys as `keys_inserted` says.
pub proof fn lemma_keys_of_inserted<K, V>(e: Seq<(K, V)>, k: K, v: V)
    ensures
        entry_keys(inserted(e, k, v)) == keys_inserted(entry_keys(e), k),
{
    lemma_key_position(e, k);
    let p = key_position(e, k);
    if p >= 0 {
        assert(entry_keys(e)[p] == k);
        assert(entry_keys(inserted(e, k, v)) =~= entry_keys(e));
    } else {
        assert(!entry_keys(e).contains(k)) by {
            if entry_keys(e).contains(k) {
                let j = choose|j: int| 0 <= j < entry_keys(e).len() && entry_keys(e)[j] == k;
                assert(e[j].0 == k);
            }
        }
        assert(entry_keys(inserted(e, k, v)) =~= entry_keys(e).push(k));
    }
}

/// Inserting pairs in order changes the keys as `keys_after` says.
pub proof fn lemma_keys_of_inserted_all<K, V>(e: Seq<(K, V)>, others: Seq<(K, V)>)
    ensures
        entry_keys(inserted_all(e, others)) == keys_after(entry_keys(e), entry_keys(others)),
    decreases others.len(),
{
    if others.len() > 0 {
        lemma_keys_of_inserted_all(e, others.drop_last());
        lemma_keys_of_inserted(inserted_all(e, others.drop_last()), others.last().0, others.last().1);
        assert(entry_keys(others).drop_last() =~= entry_keys(others.drop_last()));
        assert(entry_keys(others).last() == others.last().0);
    }
}

/// Inserting distinct keys into no keys gives them in order.
pub proof fn lemma_keys_after_distinct<K>(ks: Seq<K>)
    requires
        forall|i: int, j: int| 0 <= i < j < ks.len() ==> ks[i] != ks[j],
    ensures
        keys_after(Seq::<K>::empty(), ks) == ks,
    decreases ks.len(),
{
    if ks.len() > 0 {
        let pre = ks.drop_last();
        lemma_keys_after_distinct(pre);
        assert(!pre.contains(ks.last())) by {
            if pre.contains(ks.last()) {
                let j = choose|j: int| 0 <= j < pre.len() && pre[j] == ks.last();
                assert(ks[j] == ks[ks.len() - 1]);
            }
        }
        assert(pre.push(ks.last()) =~= ks);
    }
}

/// The position of the first occurrence of `k` in `ks`, or -1.
pub open spec fn key_index<K>(ks: Seq<K>, k: K) -> int
    decreases ks.len(),
{
    if ks.len() == 0 {
        -1
    } else {
        let p = key_index(ks.drop_last(), k);
        if p >= 0 {
            p
        } else if ks.last() == k {
            ks.len() - 1
        } else {
            -1
        }
    }
}

/// The first entry with a key is at the first occurrence of the key.
pub proof fn lemma_key_index<K, V>(e: Seq<(K, V)>, k: K)
    ensures
        key_position(e, k) == key_index(entry_keys(e), k),
    decreases e.len(),
{
    if e.len() > 0 {
        lemma_key_index(e.drop_last(), k);
        assert(entry_keys(e).drop_last() =~= entry_keys(e.drop_last()));
    }
}

/// No key occurs twice among the entries.
pub open spec fn distinct_keys<K, V>(e: Seq<(K, V)>) -> bool {
    forall|i: int, j: int| 0 <= i < j < e.len() ==> e[i].0 != e[j].0
}

/// An insertion keeps a property that every value has, when the new value
/// has it too.
pub proof fn lemma_inserted_keeps<K, V>(e: Seq<(K, V)>, k: K, v: V, pred: spec_fn(V) -> bool)
    requires
        forall|i: int| 0 <= i < e.len() ==> pred(#[trigger] e[i].1),
        pred(v),
    ensures
        forall|i: int| 0 <= i < inserted(e, k, v).len() ==> pred(#[trigger] inserted(e, k, v)[i].1),
{
    lemma_key_position(e, k);
}

/// Inserting `others`, whose keys are distinct, into entries with distinct
/// keys: the keys stay distinct, the old entries keep their places and keys,
/// an entry whose key is among `others` holds the value given there, and
/// any other entry is the old one at the same place.
pub proof fn lemma_inserted_all_lookup<K, V>(e: Seq<(K, V)>, others: Seq<(K, V)>)
    requires
        distinct_keys(e),
        distinct_keys(others),
    ensures
        distinct_keys(inserted_all(e, others)),
        inserted_all(e, others).len() >= e.len(),
        forall|i: int| 0 <= i < e.len() ==> (#[trigger] inserted_all(e, others)[i]).0 == e[i].0,
        forall|i: int|
            0 <= i < inserted_all(e, others).len() && key_position(others, (#[trigger] inserted_all(e, others)[i]).0) >= 0
                ==> inserted_all(e, others)[i].1 == others[key_position(others, inserted_all(e, others)[i].0)].1,
        forall|i: int|
            0 <= i < inserted_all(e, others).len() && key_position(others, (#[trigger] inserted_all(e, others)[i]).0) < 0
                ==> i < e.len() && inserted_all(e, others)[i] == e[i],
    decreases others.len(),
{
    if others.len() > 0 {
        let pre = others.drop_last();
        let k = others.last().0;
        let v = others.last().1;
        lemma_inserted_all_lookup(e, pre);
        let f0 = inserted_all(e, pre);
        let f = inserted_all(e, others);
        assert(f == inserted(f0, k, v));
        lemma_key_position(f0, k);
        lemma_key_position(pre, k);
        assert forall|j: int| 0 <= j < pre.len() implies pre[j].0 != k by {
            assert(others[j] == pre[j]);
        }
        assert(key_position(pre, k) == -1);
        assert(key_position(others, k) == pre.len());
        assert forall|x: K| x != k implies key_position(others, x) == key_position(pre, x) by {}
        assert forall|j: int| 0 <= j < pre.len() implies pre[j] == others[j] by {}
        let p = key_position(f0, k);
        assert forall|i: int| 0 <= i < f.len() && f[i].0 == k implies f[i].1 == v by {
            if p >= 0 {
                if i != p && i < f0.len() {
                    assert(f0[i].0 == k);
                }
            }
        }
        assert forall|i: int| 0 <= i < f.len() && f[i].0 != k implies i < f0.len() && f[i] == f0[i] by {}
        assert forall|i: int|
            0 <= i < f.len() && key_position(others, (#[trigger] f[i]).0) >= 0 implies f[i].1
                == others[key_position(others, f[i].0)].1 by {
            if f[i].0 == k {
                assert(others[pre.len() as int].1 == v);
            } else {
                assert(f[i] == f0[i]);
                let kp = key_position(pre, f0[i].0);
                assert(key_position(others, f[i].0) == kp);
                assert(f0[i].1 == pre[kp].1);
                lemma_key_position(pre, f0[i].0);
                assert(pre[kp] == others[kp]);
            }
        }
        assert(distinct_keys(f)) by {
            assert forall|i: int, j: int| 0 <= i < j < f.len() implies f[i].0 != f[j].0 by {
                if p < 0 && j == f0.len() {
                    assert(f0[i].0 != k);
                }
            }
        }
    }
}

/// The entries of a map from property names to schemas, in order.
pub uninterp spec fn property_entries(m: IndexMap<String, SchemaRef>) -> Seq<(Seq<char>, SchemaRef)>;

/// Calls `IndexMap::new`; the new map holds no entries.
#[verifier::external_body]
pub(crate) fn new_property_map() -> (m: IndexMap<String, SchemaRef>)
    ensures
        property_entries(m) == Seq::<(Seq<char>, SchemaRef)>::empty(),
{
    IndexMap::new()
}

/// Calls `IndexMap::insert`: as its documentation says, an entry with an
/// equal key keeps its place and takes the new value, which is returned in
/// place of the old one; otherwise the pair goes last and `None` is returned.
#[verifier::external_body]
pub(crate) fn insert_property(m: &mut IndexMap<String, SchemaRef>, key: String, value: SchemaRef) -> (r: Option<SchemaRef>)
    ensures
        property_entries(*final(m)) == inserted(property_entries(*old(m)), key@, value),
        r == replaced(property_entries(*old(m)), key@),
{
    m.insert(key, value)
}

/// The entries of a map from object names to component schemas, in order.
pub uninterp spec fn component_entries(m: IndexMap<String, ComponentSchema>) -> Seq<(Seq<char>, ComponentSchema)>;

/// Calls `IndexMap::new`; the new map holds no entries.
#[verifier::external_body]
pub(crate) fn new_component_map() -> (m: IndexMap<String, ComponentSchema>)
    ensures
        component_entries(m) == Seq::<(Seq<char>, ComponentSchema)>::empty(),
{
    IndexMap::new()
}

/// Calls `IndexMap::insert`, with the behaviour its documentation gives (see
/// `insert_property`).
#[verifier::external_body]
pub(crate) fn insert_component(
    m: &mut IndexMap<String, ComponentSchema>,
    key: String,
    value: ComponentSchema,
) -> (r: Option<ComponentSchema>)
    ensures
        component_entries(*final(m)) == inserted(component_entries(*old(m)), key@, value),
        r == replaced(component_entries(*old(m)), key@),
{
    m.insert(key, value)
}

/// The entries of a map from paths to operations, in order.
pub uninterp spec fn path_entries(m: IndexMap<String, MethodOperation>) -> Seq<(Seq<char>, MethodOperation)>;

/// Calls `IndexMap::new`; the new map holds no entries.
#[verifier::external_body]
pub(crate) fn new_path_map() -> (m: IndexMap<String, MethodOperation>)
    ensures
        path_entries(m) == Seq::<(Seq<char>, MethodOperation)>::empty(),
{
    IndexMap::new()
}

/// Calls `IndexMap::insert`, with the behaviour its documentation gives (see
/// `insert_property`).
#[verifier::external_body]
pub(crate) fn insert_path(m: &mut IndexMap<String, MethodOperation>, key: String, value: MethodOperation) -> (r: Option<MethodOperation>)
    ensures
        path_entries(*final(m)) == inserted(path_entries(*old(m)), key@, value),
        r == replaced(path_entries(*old(m)), key@),
{
    m.insert(key, value)
}

} // verus!
