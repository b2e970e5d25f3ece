//! Maps that keep their entries in ascending key order.

use crate::ids::{TestRunId, TestRunIdView};
use crate::text::{
    bytes_before, bytes_precede, lemma_bytes_order, lemma_text_order, str_before, str_equal,
    text_before,
};
use vstd::prelude::*;

verus! {

/// A key type with a strict total order.
pub trait OrderedKey: View + Sized {
    /// Whether `a` comes strictly before `b`.
    spec fn before(a: Self::V, b: Self::V) -> bool;

    /// The order is irreflexive, transitive and total.
    proof fn lemma_total_order(a: Self::V, b: Self::V, c: Self::V)
        ensures
            !Self::before(a, a),
            Self::before(a, b) && Self::before(b, c) ==> Self::before(a, c),
            a == b || Self::before(a, b) || Self::before(b, a),
    ;

    /// Whether this key comes strictly before the other.
    fn is_before(&self, other: &Self) -> (r: bool)
        ensures
            r == Self::before(self@, other@),
    ;
}

/// The map that a list of entries stands for: a later entry replaces an earlier
/// one with the same key.
pub open spec fn to_map<K, V>(entries: Seq<(K, V)>) -> Map<K, V>
    decreases entries.len(),
{
    if entries.len() == 0 {
        Map::empty()
    } else {
        to_map(entries.drop_last()).insert(entries.last().0, entries.last().1)
    }
}

/// The keys ascend strictly.
pub open spec fn ascending<K: OrderedKey, V>(entries: Seq<(K::V, V)>) -> bool {
    forall|i: int, j: int|
        0 <= i < j < entries.len() ==> K::before(#[trigger] entries[i].0, #[trigger] entries[j].0)
}

/// The entries of a map, each once, in ascending key order.
pub open spec fn is_listing<K: OrderedKey, V>(entries: Seq<(K::V, V)>, map: Map<K::V, V>) -> bool {
    ascending::<K, V>(entries) && to_map(entries) == map
}

/// The entries of a finite map in ascending key order.
pub open spec fn listing<K: OrderedKey, V>(map: Map<K::V, V>) -> Seq<(K::V, V)> {
    choose|entries: Seq<(K::V, V)>| is_listing::<K, V>(entries, map)
}

/// What `to_map` holds, entry by entry.
pub proof fn lemma_to_map<K, V>(entries: Seq<(K, V)>)
    ensures
        forall|i: int| 0 <= i < entries.len() ==> to_map(entries).contains_key(#[trigger] entries[i].0),
        forall|k: K| #[trigger]
            to_map(entries).contains_key(k) ==> exists|i: int|
                0 <= i < entries.len() && (#[trigger] entries[i]).0 == k && to_map(entries)[k]
                    == entries[i].1 && (forall|j: int|
                    i < j < entries.len() ==> (#[trigger] entries[j]).0 != k),
    decreases entries.len(),
{
    if entries.len() > 0 {
        let rest = entries.drop_last();
        let n = entries.len() - 1;
        lemma_to_map(rest);
        assert forall|i: int| 0 <= i < entries.len() implies to_map(entries).contains_key(
            #[trigger] entries[i].0,
        ) by {
            if i < n {
                assert(rest[i] == entries[i]);
            }
        }
        assert forall|k: K| #[trigger] to_map(entries).contains_key(k) implies exists|i: int|
            0 <= i < entries.len() && (#[trigger] entries[i]).0 == k && to_map(entries)[k]
                == entries[i].1 && (forall|j: int|
                i < j < entries.len() ==> (#[trigger] entries[j]).0 != k) by {
            if entries[n].0 == k {
                assert(entries[n].0 == k);
            } else {
                assert(to_map(rest).contains_key(k));
                let i = choose|i: int|
                    0 <= i < rest.len() && (#[trigger] rest[i]).0 == k && to_map(rest)[k]
                        == rest[i].1 && (forall|j: int|
                        i < j < rest.len() ==> (#[trigger] rest[j]).0 != k);
                assert(entries[i] == rest[i]);
                assert forall|j: int| i < j < entries.len() implies (#[trigger] entries[j]).0
                    != k by {
                    if j < n {
                        assert(rest[j] == entries[j]);
                    }
                }
            }
        }
    }
}

/// In an ascending list each entry is what the map holds under its key.
pub proof fn lemma_ascending_lookup<K: OrderedKey, V>(entries: Seq<(K::V, V)>, i: int)
    requires
        ascending::<K, V>(entries),
        0 <= i < entries.len(),
    ensures
        to_map(entries).contains_key(entries[i].0),
        to_map(entries)[entries[i].0] == entries[i].1,
{
    lemma_to_map(entries);
    let k = entries[i].0;
    assert(to_map(entries).contains_key(k));
    let j = choose|j: int|
        0 <= j < entries.len() && (#[trigger] entries[j]).0 == k && to_map(entries)[k]
            == entries[j].1 && (forall|l: int| j < l < entries.len() ==> (#[trigger] entries[l]).0 != k);
    K::lemma_total_order(k, k, k);
    if i < j {
        assert(K::before(entries[i].0, entries[j].0));
    } else if j < i {
        assert(K::before(entries[j].0, entries[i].0));
    }
}

/// A map has at most one listing.
pub proof fn lemma_listing_unique<K: OrderedKey, V>(
    s: Seq<(K::V, V)>,
    t: Seq<(K::V, V)>,
    map: Map<K::V, V>,
)
    requires
        is_listing::<K, V>(s, map),
        is_listing::<K, V>(t, map),
    ensures
        s == t,
    decreases s.len(),
{
    lemma_to_map(s);
    lemma_to_map(t);
    if s.len() == 0 {
        if t.len() > 0 {
            assert(map.contains_key(t[0].0));
        }
        assert(s =~= t);
    } else if t.len() == 0 {
        assert(map.contains_key(s[0].0));
    } else {
        let sn = s.len() - 1;
        let tn = t.len() - 1;
        assert(map.contains_key(s[sn].0));
        assert(map.contains_key(t[tn].0));
        let j = choose|j: int| 0 <= j < t.len() && (#[trigger] t[j]).0 == s[sn].0;
        let i = choose|i: int| 0 <= i < s.len() && (#[trigger] s[i]).0 == t[tn].0;
        K::lemma_total_order(s[sn].0, t[tn].0, s[sn].0);
        if j < tn {
            assert(K::before(t[j].0, t[tn].0));
            if i < sn {
                assert(K::before(s[i].0, s[sn].0));
            }
        }
        lemma_ascending_lookup::<K, V>(s, sn);
        lemma_ascending_lookup::<K, V>(t, tn);
        assert(s.last() == t.last());
        let k = s.last().0;
        let s0 = s.drop_last();
        let t0 = t.drop_last();
        lemma_drop_last_of_ascending::<K, V>(s);
        lemma_drop_last_of_ascending::<K, V>(t);
        lemma_listing_unique::<K, V>(s0, t0, map.remove(k));
        assert(s =~= s0.push(s.last()));
        assert(t =~= t0.push(t.last()));
    }
}

/// Without its last entry an ascending list stands for the map without that key.
proof fn lemma_drop_last_of_ascending<K: OrderedKey, V>(s: Seq<(K::V, V)>)
    requires
        ascending::<K, V>(s),
        s.len() > 0,
    ensures
        is_listing::<K, V>(s.drop_last(), to_map(s).remove(s.last().0)),
{
    let s0 = s.drop_last();
    let k = s.last().0;
    lemma_to_map(s0);
    K::lemma_total_order(k, k, k);
    assert forall|i: int, j: int| 0 <= i < j < s0.len() implies K::before(
        #[trigger] s0[i].0,
        #[trigger] s0[j].0,
    ) by {
        assert(K::before(s[i].0, s[j].0));
    }
    if to_map(s0).contains_key(k) {
        let i = choose|i: int| 0 <= i < s0.len() && (#[trigger] s0[i]).0 == k;
        assert(K::before(s[i].0, s[s.len() - 1].0));
    }
    assert(to_map(s).remove(k) =~= to_map(s0));
}

/// An ascending list is a listing of every map that agrees with it key by key.
pub proof fn lemma_is_listing<K: OrderedKey, V>(s: Seq<(K::V, V)>, map: Map<K::V, V>)
    requires
        ascending::<K, V>(s),
        forall|i: int| 0 <= i < s.len() ==> map.contains_key(#[trigger] s[i].0) && map[s[i].0] == s[i].1,
        forall|k: K::V| #[trigger] map.contains_key(k) ==> exists|i: int| 0 <= i < s.len() && (#[trigger] s[i]).0 == k,
    ensures
        is_listing::<K, V>(s, map),
{
    lemma_to_map(s);
    assert forall|k: K::V| to_map(s).contains_key(k) implies map.contains_key(k) && map[k] == to_map(s)[k] by {
        let i = choose|i: int| 0 <= i < s.len() && (#[trigger] s[i]).0 == k && to_map(s)[k] == s[i].1;
        assert(map.contains_key(s[i].0));
    }
    assert forall|k: K::V| map.contains_key(k) implies to_map(s).contains_key(k) by {
        let i = choose|i: int| 0 <= i < s.len() && (#[trigger] s[i]).0 == k;
        assert(to_map(s).contains_key(s[i].0));
    }
    assert(to_map(s) =~= map);
}

/// `i` is where `key` stands in an ascending list, or where it would be put.
pub open spec fn is_position<K: OrderedKey, V>(s: Seq<(K::V, V)>, key: K::V, i: int) -> bool {
    &&& 0 <= i <= s.len()
    &&& forall|j: int| 0 <= j < i ==> K::before((#[trigger] s[j]).0, key)
    &&& i < s.len() ==> !K::before(s[i].0, key)
}

/// A key that stands at its position is in the map, any other key is not.
proof fn lemma_position<K: OrderedKey, V>(s: Seq<(K::V, V)>, key: K::V, i: int)
    requires
        ascending::<K, V>(s),
        is_position::<K, V>(s, key, i),
    ensures
        to_map(s).contains_key(key) == (i < s.len() && s[i].0 == key),
        i < s.len() && s[i].0 == key ==> to_map(s)[key] == s[i].1,
        i < s.len() && s[i].0 != key ==> K::before(key, s[i].0),
        forall|j: int| i < j < s.len() ==> K::before(key, (#[trigger] s[j]).0),
{
    lemma_to_map(s);
    if i < s.len() {
        lemma_ascending_lookup::<K, V>(s, i);
        K::lemma_total_order(s[i].0, key, key);
    }
    assert forall|j: int| i < j < s.len() implies K::before(key, (#[trigger] s[j]).0) by {
        K::lemma_total_order(key, s[i].0, s[j].0);
        assert(K::before(s[i].0, s[j].0));
    }
    if to_map(s).contains_key(key) {
        let j = choose|j: int| 0 <= j < s.len() && (#[trigger] s[j]).0 == key;
        K::lemma_total_order(key, key, key);
    }
}

/// Putting an entry at its position lists the map with that entry inserted.
proof fn lemma_insert<K: OrderedKey, V>(s: Seq<(K::V, V)>, key: K::V, value: V, i: int)
    requires
        ascending::<K, V>(s),
        is_position::<K, V>(s, key, i),
    ensures
        i < s.len() && s[i].0 == key ==> is_listing::<K, V>(
            s.update(i, (key, value)),
            to_map(s).insert(key, value),
        ),
        !(i < s.len() && s[i].0 == key) ==> is_listing::<K, V>(
            s.insert(i, (key, value)),
            to_map(s).insert(key, value),
        ),
{
    lemma_to_map(s);
    lemma_position::<K, V>(s, key, i);
    let m = to_map(s).insert(key, value);
    let found = i < s.len() && s[i].0 == key;
    let t = if found { s.update(i, (key, value)) } else { s.insert(i, (key, value)) };
    assert forall|a: int, b: int| 0 <= a < b < t.len() implies K::before(
        #[trigger] t[a].0,
        #[trigger] t[b].0,
    ) by {
        let a0 = if found || a < i { a } else { a - 1 };
        let b0 = if found || b < i { b } else { b - 1 };
        if a != i {
            assert(t[a].0 == s[a0].0);
        }
        if b != i {
            assert(t[b].0 == s[b0].0);
        }
        if a != i && b != i {
            assert(K::before(s[a0].0, s[b0].0));
        }
    }
    assert forall|j: int| 0 <= j < t.len() implies m.contains_key(#[trigger] t[j].0) && m[t[j].0]
        == t[j].1 by {
        if j != i {
            let j0 = if found || j < i { j } else { j - 1 };
            assert(t[j] == s[j0]);
            lemma_ascending_lookup::<K, V>(s, j0);
            K::lemma_total_order(key, key, key);
        }
    }
    assert forall|k: K::V| #[trigger] m.contains_key(k) implies exists|j: int|
        0 <= j < t.len() && (#[trigger] t[j]).0 == k by {
        if k == key {
            assert(t[i].0 == k);
        } else {
            let j0 = choose|j: int| 0 <= j < s.len() && (#[trigger] s[j]).0 == k;
            let j = if found || j0 < i { j0 } else { j0 + 1 };
            assert(t[j].0 == s[j0].0);
        }
    }
    lemma_is_listing::<K, V>(t, m);
}

/// Taking an entry out lists the map without its key.
proof fn lemma_remove<K: OrderedKey, V>(s: Seq<(K::V, V)>, i: int)
    requires
        ascending::<K, V>(s),
        0 <= i < s.len(),
    ensures
        is_listing::<K, V>(s.remove(i), to_map(s).remove(s[i].0)),
{
    lemma_to_map(s);
    let key = s[i].0;
    let t = s.remove(i);
    let m = to_map(s).remove(key);
    assert forall|a: int, b: int| 0 <= a < b < t.len() implies K::before(
        #[trigger] t[a].0,
        #[trigger] t[b].0,
    ) by {
        let a0 = if a < i { a } else { a + 1 };
        let b0 = if b < i { b } else { b + 1 };
        assert(K::before(s[a0].0, s[b0].0));
    }
    assert forall|j: int| 0 <= j < t.len() implies m.contains_key(#[trigger] t[j].0) && m[t[j].0]
        == t[j].1 by {
        let j0 = if j < i { j } else { j + 1 };
        assert(t[j] == s[j0]);
        lemma_ascending_lookup::<K, V>(s, j0);
        K::lemma_total_order(key, key, key);
        if j0 < i {
            assert(K::before(s[j0].0, s[i].0));
        } else {
            assert(K::before(s[i].0, s[j0].0));
        }
    }
    assert forall|k: K::V| #[trigger] m.contains_key(k) implies exists|j: int|
        0 <= j < t.len() && (#[trigger] t[j]).0 == k by {
        let j0 = choose|j: int| 0 <= j < s.len() && (#[trigger] s[j]).0 == k;
        let j = if j0 < i { j0 } else { j0 - 1 };
        assert(t[j].0 == s[j0].0);
    }
    lemma_is_listing::<K, V>(t, m);
}

/// The listing of a map that has one.
pub proof fn lemma_listing<K: OrderedKey, V>(s: Seq<(K::V, V)>, map: Map<K::V, V>)
    requires
        is_listing::<K, V>(s, map),
    ensures
        listing::<K, V>(map) == s,
{
    let t = listing::<K, V>(map);
    assert(is_listing::<K, V>(t, map));
    lemma_listing_unique::<K, V>(s, t, map);
}

impl OrderedKey for String {
    open spec fn before(a: Seq<char>, b: Seq<char>) -> bool {
        text_before(a, b)
    }

    proof fn lemma_total_order(a: Seq<char>, b: Seq<char>, c: Seq<char>) {
        lemma_text_order(a, b, c);
    }

    fn is_before(&self, other: &Self) -> (r: bool) {
        str_before(self.as_str(), other.as_str())
    }
}

impl OrderedKey for Vec<u8> {
    open spec fn before(a: Seq<u8>, b: Seq<u8>) -> bool {
        bytes_before(a, b)
    }

    proof fn lemma_total_order(a: Seq<u8>, b: Seq<u8>, c: Seq<u8>) {
        lemma_bytes_order(a, b, c);
    }

    fn is_before(&self, other: &Self) -> (r: bool) {
        bytes_precede(self, other)
    }
}

impl OrderedKey for (String, Vec<u8>) {
    open spec fn before(a: (Seq<char>, Seq<u8>), b: (Seq<char>, Seq<u8>)) -> bool {
        text_before(a.0, b.0) || (a.0 == b.0 && bytes_before(a.1, b.1))
    }

    proof fn lemma_total_order(
        a: (Seq<char>, Seq<u8>),
        b: (Seq<char>, Seq<u8>),
        c: (Seq<char>, Seq<u8>),
    ) {
        lemma_text_order(a.0, b.0, c.0);
        lemma_text_order(a.0, c.0, a.0);
        lemma_bytes_order(a.1, b.1, c.1);
    }

    fn is_before(&self, other: &Self) -> (r: bool) {
        str_before(self.0.as_str(), other.0.as_str()) || (str_equal(
            self.0.as_str(),
            other.0.as_str(),
        ) && bytes_precede(&self.1, &other.1))
    }
}

impl OrderedKey for TestRunId {
    open spec fn before(a: TestRunIdView, b: TestRunIdView) -> bool {
        ||| text_before(a.test_repo_id, b.test_repo_id)
        ||| a.test_repo_id == b.test_repo_id && text_before(a.test_id, b.test_id)
        ||| a.test_repo_id == b.test_repo_id && a.test_id == b.test_id && text_before(
            a.test_run_id,
            b.test_run_id,
        )
    }

    proof fn lemma_total_order(a: TestRunIdView, b: TestRunIdView, c: TestRunIdView) {
        lemma_text_order(a.test_repo_id, b.test_repo_id, c.test_repo_id);
        lemma_text_order(a.test_id, b.test_id, c.test_id);
        lemma_text_order(a.test_run_id, b.test_run_id, c.test_run_id);
    }

    fn is_before(&self, other: &Self) -> (r: bool) {
        if str_before(self.test_repo_id.as_str(), other.test_repo_id.as_str()) {
            return true;
        }
        if !str_equal(self.test_repo_id.as_str(), other.test_repo_id.as_str()) {
            return false;
        }
        if str_before(self.test_id.as_str(), other.test_id.as_str()) {
            return true;
        }
        str_equal(self.test_id.as_str(), other.test_id.as_str()) && str_before(
            self.test_run_id.as_str(),
            other.test_run_id.as_str(),
        )
    }
}

/// Every key has a position in a list.
proof fn lemma_position_exists<K: OrderedKey, V>(s: Seq<(K::V, V)>, key: K::V, from: int) -> (i: int)
    requires
        0 <= from <= s.len(),
        forall|j: int| 0 <= j < from ==> K::before((#[trigger] s[j]).0, key),
    ensures
        is_position::<K, V>(s, key, i),
    decreases s.len() - from,
{
    if from < s.len() && K::before(s[from].0, key) {
        lemma_position_exists::<K, V>(s, key, from + 1)
    } else {
        from
    }
}

/// The map of any list of entries has a listing.
pub proof fn lemma_listing_of_list<K: OrderedKey, V>(s: Seq<(K::V, V)>)
    ensures
        is_listing::<K, V>(listing::<K, V>(to_map(s)), to_map(s)),
    decreases s.len(),
{
    if s.len() == 0 {
        assert(is_listing::<K, V>(s, to_map(s)));
    } else {
        lemma_listing_of_list::<K, V>(s.drop_last());
        let t = listing::<K, V>(to_map(s.drop_last()));
        let key = s.last().0;
        let i = lemma_position_exists::<K, V>(t, key, 0);
        lemma_insert::<K, V>(t, key, s.last().1, i);
        if i < t.len() && t[i].0 == key {
            assert(is_listing::<K, V>(t.update(i, (key, s.last().1)), to_map(s)));
        } else {
            assert(is_listing::<K, V>(t.insert(i, (key, s.last().1)), to_map(s)));
        }
    }
}

/// The map has a listing: it is finite.
pub open spec fn listable<K: OrderedKey, V>(map: Map<K::V, V>) -> bool {
    is_listing::<K, V>(listing::<K, V>(map), map)
}

/// The empty map has a listing, and maps keep theirs when a key is set or removed.
pub proof fn lemma_listable<K: OrderedKey, V>(map: Map<K::V, V>, key: K::V, value: V)
    ensures
        listable::<K, V>(Map::<K::V, V>::empty()),
        listable::<K, V>(map) ==> listable::<K, V>(map.insert(key, value)),
        listable::<K, V>(map) ==> listable::<K, V>(map.remove(key)),
{
    lemma_listing_of_list::<K, V>(Seq::<(K::V, V)>::empty());
    if listable::<K, V>(map) {
        let s = listing::<K, V>(map);
        let t = s.push((key, value));
        assert(t.drop_last() =~= s);
        lemma_listing_of_list::<K, V>(t);
        lemma_to_map(s);
        if map.contains_key(key) {
            let i = choose|i: int| 0 <= i < s.len() && (#[trigger] s[i]).0 == key;
            lemma_remove::<K, V>(s, i);
            lemma_listing_of_list::<K, V>(s.remove(i));
        } else {
            assert(map.remove(key) =~= map);
        }
    }
}

/// The modelled entries of a vector of pairs.
pub open spec fn entry_views<K: View, V: View>(entries: Seq<(K, V)>) -> Seq<(K::V, V::V)> {
    Seq::new(entries.len(), |i: int| (entries[i].0@, entries[i].1@))
}

/// A map whose entries are kept in ascending key order.
#[derive(Debug, Clone)]
pub struct OrderedMap<K: OrderedKey, V: View> {
    entries: Vec<(K, V)>,
}

impl<K: OrderedKey, V: View> View for OrderedMap<K, V> {
    type V = Map<K::V, V::V>;

    closed spec fn view(&self) -> Map<K::V, V::V> {
        to_map(entry_views(self.entries@))
    }
}

impl<K: OrderedKey, V: View> OrderedMap<K, V> {
    /// The entries ascend by key.
    pub closed spec fn wf(self) -> bool {
        ascending::<K, V::V>(entry_views(self.entries@))
    }

    /// An empty map.
    pub fn new() -> (map: Self)
        ensures
            map.wf(),
            map@ == Map::<K::V, V::V>::empty(),
    {
        OrderedMap { entries: Vec::new() }
    }

    /// The first position whose key does not come before `key`.
    fn position(&self, key: &K) -> (i: usize)
        ensures
            is_position::<K, V::V>(entry_views(self.entries@), key@, i as int),
    {
        let mut i: usize = 0;
        let ghost s = entry_views(self.entries@);
        while i < self.entries.len()
            invariant
                s == entry_views(self.entries@),
                0 <= i <= s.len(),
                forall|j: int| 0 <= j < i ==> K::before((#[trigger] s[j]).0, key@),
            decreases s.len() - i,
        {
            if !self.entries[i].0.is_before(key) {
                return i;
            }
            assert(s[i as int].0 == self.entries@[i as int].0@);
            i = i + 1;
        }
        i
    }

    /// Whether the entry at a position found for `key` holds that key.
    fn holds(&self, i: usize, key: &K) -> (r: bool)
        requires
            is_position::<K, V::V>(entry_views(self.entries@), key@, i as int),
        ensures
            r == (i < self.entries@.len() && entry_views(self.entries@)[i as int].0 == key@),
    {
        if i < self.entries.len() {
            proof {
                K::lemma_total_order(self.entries@[i as int].0@, key@, key@);
            }
            !key.is_before(&self.entries[i].0)
        } else {
            false
        }
    }

    /// Sets the value of a key and returns the one it had.
    pub fn insert(&mut self, key: K, value: V) -> (previous: Option<V>)
        requires
            old(self).wf(),
        ensures
            final(self).wf(),
            final(self)@ == old(self)@.insert(key@, value@),
            match previous {
                Some(v) => old(self)@.contains_key(key@) && v@ == old(self)@[key@],
                None => !old(self)@.contains_key(key@),
            },
    {
        let i = self.position(&key);
        let ghost s = entry_views(self.entries@);
        proof {
            lemma_position::<K, V::V>(s, key@, i as int);
            lemma_insert::<K, V::V>(s, key@, value@, i as int);
        }
        if self.holds(i, &key) {
            let mut entry = (key, value);
            let ghost new_view = (entry.0@, entry.1@);
            std::mem::swap(&mut self.entries[i], &mut entry);
            proof {
                assert(entry_views(self.entries@) =~= s.update(i as int, new_view));
            }
            Some(entry.1)
        } else {
            let ghost new_view = (key@, value@);
            self.entries.insert(i, (key, value));
            proof {
                assert(entry_views(self.entries@) =~= s.insert(i as int, new_view));
            }
            None
        }
    }

    /// Takes a key out and returns the value it had.
    pub fn remove(&mut self, key: &K) -> (removed: Option<V>)
        requires
            old(self).wf(),
        ensures
            final(self).wf(),
            final(self)@ == old(self)@.remove(key@),
            match removed {
                Some(v) => old(self)@.contains_key(key@) && v@ == old(self)@[key@],
                None => !old(self)@.contains_key(key@),
            },
    {
        let i = self.position(key);
        let ghost s = entry_views(self.entries@);
        proof {
            lemma_position::<K, V::V>(s, key@, i as int);
        }
        if self.holds(i, key) {
            proof {
                lemma_remove::<K, V::V>(s, i as int);
            }
            let entry = self.entries.remove(i);
            proof {
                assert(entry_views(self.entries@) =~= s.remove(i as int));
            }
            Some(entry.1)
        } else {
            assert(self@.remove(key@) =~= self@);
            None
        }
    }

    /// The value of a key.
    pub fn get(&self, key: &K) -> (r: Option<&V>)
        requires
            self.wf(),
        ensures
            match r {
                Some(v) => self@.contains_key(key@) && v@ == self@[key@],
                None => !self@.contains_key(key@),
            },
    {
        let i = self.position(key);
        proof {
            lemma_position::<K, V::V>(entry_views(self.entries@), key@, i as int);
        }
        if self.holds(i, key) {
            Some(&self.entries[i].1)
        } else {
            None
        }
    }

    /// Whether the map holds a key.
    pub fn contains_key(&self, key: &K) -> (r: bool)
        requires
            self.wf(),
        ensures
            r == self@.contains_key(key@),
    {
        self.get(key).is_some()
    }

    /// The entries in ascending key order.
    pub fn entries(&self) -> (r: &Vec<(K, V)>)
        requires
            self.wf(),
        ensures
            is_listing::<K, V::V>(entry_views(r@), self@),
            entry_views(r@) == listing::<K, V::V>(self@),
    {
        proof {
            lemma_listing::<K, V::V>(entry_views(self.entries@), self@);
        }
        &self.entries
    }

    /// The entries in ascending key order, by value.
    pub fn into_entries(self) -> (r: Vec<(K, V)>)
        requires
            self.wf(),
        ensures
            is_listing::<K, V::V>(entry_views(r@), self@),
            entry_views(r@) == listing::<K, V::V>(self@),
    {
        proof {
            lemma_listing::<K, V::V>(entry_views(self.entries@), self@);
        }
        self.entries
    }
}

/// A list with an entry put behind every entry whose key does not come after its own.
pub open spec fn stable_insert<K: OrderedKey, V>(s: Seq<(K::V, V)>, entry: (K::V, V)) -> Seq<(K::V, V)>
    decreases s.len(),
{
    if s.len() > 0 && K::before(entry.0, s.last().0) {
        stable_insert::<K, V>(s.drop_last(), entry).push(s.last())
    } else {
        s.push(entry)
    }
}

/// A list in order of its keys, entries with one key in their given order.
pub open spec fn stable_sorted<K: OrderedKey, V>(s: Seq<(K::V, V)>) -> Seq<(K::V, V)>
    decreases s.len(),
{
    if s.len() == 0 {
        s
    } else {
        stable_insert::<K, V>(stable_sorted::<K, V>(s.drop_last()), s.last())
    }
}

/// No entry comes before an earlier one.
pub open spec fn in_order<K: OrderedKey, V>(s: Seq<(K::V, V)>) -> bool {
    forall|i: int, j: int|
        0 <= i < j < s.len() ==> !K::before((#[trigger] s[j]).0, (#[trigger] s[i]).0)
}

/// Where an entry is put among those of a list.
proof fn lemma_stable_insert_at<K: OrderedKey, V>(s: Seq<(K::V, V)>, entry: (K::V, V), p: int)
    requires
        0 <= p <= s.len(),
        forall|j: int| p <= j < s.len() ==> K::before(entry.0, (#[trigger] s[j]).0),
        p > 0 ==> !K::before(entry.0, s[p - 1].0),
    ensures
        stable_insert::<K, V>(s, entry) == s.insert(p, entry),
    decreases s.len(),
{
    if p < s.len() {
        lemma_stable_insert_at::<K, V>(s.drop_last(), entry, p);
        assert(s.insert(p, entry) =~= s.drop_last().insert(p, entry).push(s.last()));
    } else {
        assert(s.insert(p, entry) =~= s.push(entry));
    }
}

proof fn lemma_stable_insert<K: OrderedKey, V>(s: Seq<(K::V, V)>, entry: (K::V, V))
    requires
        in_order::<K, V>(s),
    ensures
        in_order::<K, V>(stable_insert::<K, V>(s, entry)),
        stable_insert::<K, V>(s, entry).to_multiset() == s.to_multiset().insert(entry),
        forall|i: int|
            0 <= i < stable_insert::<K, V>(s, entry).len() ==> #[trigger] stable_insert::<K, V>(
                s,
                entry,
            )[i] == entry || s.contains(stable_insert::<K, V>(s, entry)[i]),
    decreases s.len(),
{
    broadcast use vstd::seq_lib::group_to_multiset_ensures;

    let out = stable_insert::<K, V>(s, entry);
    if s.len() > 0 && K::before(entry.0, s.last().0) {
        let front = s.drop_last();
        assert forall|i: int, j: int| 0 <= i < j < front.len() implies !K::before(
            (#[trigger] front[j]).0,
            (#[trigger] front[i]).0,
        ) by {
            assert(!K::before(s[j].0, s[i].0));
        }
        lemma_stable_insert::<K, V>(front, entry);
        let inner = stable_insert::<K, V>(front, entry);
        assert(s =~= front.push(s.last()));
        assert forall|i: int| 0 <= i < out.len() implies out[i] == entry || s.contains(
            #[trigger] out[i],
        ) by {
            if i < inner.len() {
                assert(out[i] == inner[i]);
                if inner[i] != entry {
                    assert(front.contains(inner[i]));
                    let j = choose|j: int| 0 <= j < front.len() && front[j] == inner[i];
                    assert(s[j] == out[i]);
                }
            } else {
                assert(s[s.len() - 1] == out[i]);
            }
        }
        assert forall|i: int, j: int| 0 <= i < j < out.len() implies !K::before(
            (#[trigger] out[j]).0,
            (#[trigger] out[i]).0,
        ) by {
            if j < inner.len() {
                assert(inner[i] == out[i] && inner[j] == out[j]);
            } else {
                K::lemma_total_order(s.last().0, entry.0, s.last().0);
                assert(out[i] == inner[i]);
                if inner[i] != entry {
                    let k = choose|k: int| 0 <= k < front.len() && front[k] == inner[i];
                    assert(s[k] == out[i]);
                    assert(!K::before(s[s.len() - 1].0, s[k].0));
                }
            }
        }
        assert(out.to_multiset() =~= s.to_multiset().insert(entry));
    } else {
        assert forall|i: int, j: int| 0 <= i < j < out.len() implies !K::before(
            (#[trigger] out[j]).0,
            (#[trigger] out[i]).0,
        ) by {
            if j < s.len() {
                assert(s[i] == out[i] && s[j] == out[j]);
            } else {
                let last = s[s.len() - 1];
                K::lemma_total_order(entry.0, s[i].0, last.0);
                K::lemma_total_order(s[i].0, last.0, entry.0);
                if i < s.len() - 1 {
                    assert(!K::before(last.0, s[i].0));
                }
            }
        }
        assert forall|i: int| 0 <= i < out.len() implies out[i] == entry || s.contains(
            #[trigger] out[i],
        ) by {
            if i < s.len() {
                assert(s[i] == out[i]);
            }
        }
        assert(out.to_multiset() =~= s.to_multiset().insert(entry));
    }
}

/// Sorting orders the entries and neither loses nor adds any.
pub proof fn lemma_stable_sorted<K: OrderedKey, V>(s: Seq<(K::V, V)>)
    ensures
        in_order::<K, V>(stable_sorted::<K, V>(s)),
        stable_sorted::<K, V>(s).to_multiset() == s.to_multiset(),
    decreases s.len(),
{
    broadcast use vstd::seq_lib::group_to_multiset_ensures;

    if s.len() > 0 {
        lemma_stable_sorted::<K, V>(s.drop_last());
        lemma_stable_insert::<K, V>(stable_sorted::<K, V>(s.drop_last()), s.last());
        assert(s =~= s.drop_last().push(s.last()));
    }
}

/// Two lists in order with the same entries are the same, where no two entries differ under one
/// key.
proof fn lemma_orders_agree<K: OrderedKey, V>(s: Seq<(K::V, V)>, t: Seq<(K::V, V)>)
    requires
        in_order::<K, V>(s),
        in_order::<K, V>(t),
        s.to_multiset() == t.to_multiset(),
        forall|i: int, j: int|
            0 <= i < s.len() && 0 <= j < s.len() && (#[trigger] s[i]).0 == (#[trigger] s[j]).0
                ==> s[i] == s[j],
    ensures
        s == t,
    decreases s.len(),
{
    broadcast use vstd::seq_lib::group_to_multiset_ensures;

    assert(s.len() == t.len()) by {
        assert(s.to_multiset().len() == s.len());
        assert(t.to_multiset().len() == t.len());
    }
    if s.len() > 0 {
        let n = s.len() - 1;
        let x = s[n];
        let y = t[n];
        assert(s.contains(x) && t.contains(y));
        assert(s.to_multiset().count(y) > 0);
        assert(t.to_multiset().count(x) > 0);
        assert(s.contains(y) && t.contains(x));
        let i = choose|i: int| 0 <= i < s.len() && s[i] == y;
        let j = choose|j: int| 0 <= j < t.len() && t[j] == x;
        K::lemma_total_order(x.0, y.0, x.0);
        if i < n {
            assert(!K::before(s[n].0, s[i].0));
        }
        if j < n {
            assert(!K::before(t[n].0, t[j].0));
        }
        assert(x.0 == y.0);
        assert(s[i] == s[n]);
        let a = s.drop_last();
        let b = t.drop_last();
        assert(a.push(x) =~= s && b.push(y) =~= t);
        assert(a.to_multiset() =~= s.to_multiset().remove(x));
        assert(b.to_multiset() =~= t.to_multiset().remove(x));
        assert forall|p: int, q: int|
            0 <= p < a.len() && 0 <= q < a.len() && (#[trigger] a[p]).0 == (
            #[trigger] a[q]).0 implies a[p] == a[q] by {
            assert(a[p] == s[p] && a[q] == s[q]);
        }
        assert forall|p: int, q: int| 0 <= p < q < a.len() implies !K::before(
            (#[trigger] a[q]).0,
            (#[trigger] a[p]).0,
        ) by {
            assert(a[p] == s[p] && a[q] == s[q]);
        }
        assert forall|p: int, q: int| 0 <= p < q < b.len() implies !K::before(
            (#[trigger] b[q]).0,
            (#[trigger] b[p]).0,
        ) by {
            assert(b[p] == t[p] && b[q] == t[q]);
        }
        lemma_orders_agree::<K, V>(a, b);
    } else {
        assert(s =~= t);
    }
}

/// The order in which entries come does not matter to the sorted list, where no two entries
/// differ under one key.
pub proof fn lemma_sorting_forgets_order<K: OrderedKey, V>(s: Seq<(K::V, V)>, t: Seq<(K::V, V)>)
    requires
        s.to_multiset() == t.to_multiset(),
        forall|i: int, j: int|
            0 <= i < s.len() && 0 <= j < s.len() && (#[trigger] s[i]).0 == (#[trigger] s[j]).0
                ==> s[i] == s[j],
    ensures
        stable_sorted::<K, V>(s) == stable_sorted::<K, V>(t),
{
    broadcast use vstd::seq_lib::group_to_multiset_ensures;

    lemma_stable_sorted::<K, V>(s);
    lemma_stable_sorted::<K, V>(t);
    let a = stable_sorted::<K, V>(s);
    assert forall|p: int, q: int|
        0 <= p < a.len() && 0 <= q < a.len() && (#[trigger] a[p]).0 == (
        #[trigger] a[q]).0 implies a[p] == a[q] by {
        assert(a.contains(a[p]) && a.contains(a[q]));
        assert(a.to_multiset().count(a[p]) > 0 && a.to_multiset().count(a[q]) > 0);
        assert(s.contains(a[p]) && s.contains(a[q]));
        let i = choose|i: int| 0 <= i < s.len() && s[i] == a[p];
        let j = choose|j: int| 0 <= j < s.len() && s[j] == a[q];
        assert(s[i].0 == s[j].0);
    }
    lemma_orders_agree::<K, V>(a, stable_sorted::<K, V>(t));
}

/// Sorting leaves an ascending list as it is.
pub proof fn lemma_ascending_is_sorted<K: OrderedKey, V>(s: Seq<(K::V, V)>)
    requires
        ascending::<K, V>(s),
    ensures
        stable_sorted::<K, V>(s) == s,
    decreases s.len(),
{
    if s.len() > 0 {
        let front = s.drop_last();
        assert forall|i: int, j: int| 0 <= i < j < front.len() implies K::before(
            #[trigger] front[i].0,
            #[trigger] front[j].0,
        ) by {
            assert(K::before(s[i].0, s[j].0));
        }
        lemma_ascending_is_sorted::<K, V>(front);
        if front.len() > 0 {
            assert(K::before(s[s.len() - 2].0, s[s.len() - 1].0));
            K::lemma_total_order(s[s.len() - 2].0, s[s.len() - 1].0, s[s.len() - 2].0);
        }
        assert(s =~= front.push(s.last()));
    }
}

/// Sorts entries by key; those with one key keep their order.
pub fn stable_sort<K: OrderedKey, V: View>(entries: Vec<(K, V)>) -> (r: Vec<(K, V)>)
    ensures
        entry_views(r@) == stable_sorted::<K, V::V>(entry_views(entries@)),
{
    let ghost views = entry_views(entries@);
    let mut out: Vec<(K, V)> = Vec::new();
    proof {
        assert(views.take(0) =~= Seq::empty());
        assert(entry_views(out@) =~= Seq::empty());
    }
    for entry in it: entries
        invariant
            it.seq() == entries@,
            views == entry_views(entries@),
            entry_views(out@) == stable_sorted::<K, V::V>(views.take(it.index())),
    {
        let ghost i = it.index();
        let ghost sorted = entry_views(out@);
        proof {
            assert(views.take(i + 1).drop_last() =~= views.take(i));
            assert(views.take(i + 1).last() == (entry.0@, entry.1@));
        }
        let mut p: usize = out.len();
        while p > 0 && entry.0.is_before(&out[p - 1].0)
            invariant
                0 <= p <= out@.len(),
                sorted == entry_views(out@),
                forall|j: int| p <= j < sorted.len() ==> K::before(entry.0@, (#[trigger] sorted[j]).0),
            decreases p,
        {
            p = p - 1;
            assert(sorted[p as int].0 == out@[p as int].0@);
        }
        let ghost view = (entry.0@, entry.1@);
        proof {
            if p > 0 {
                assert(sorted[p - 1].0 == out@[p - 1].0@);
            }
            lemma_stable_insert_at::<K, V::V>(sorted, view, p as int);
        }
        out.insert(p, entry);
        assert(entry_views(out@) =~= sorted.insert(p as int, view));
    }
    assert(views.take(views.len() as int) =~= views);
    out
}

} // verus!
