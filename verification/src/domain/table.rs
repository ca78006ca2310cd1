use vstd::prelude::*;

use crate::domain::id::{LinkId, NetworkId, NodeId, SegmentId, bytes_equal, bytes_less, lemma_lex_lt_asymmetric, lemma_lex_lt_total, lemma_lex_lt_transitive, lex_lt};

verus! {

/// A value stored under a 16-byte identifier key.
pub trait Keyed {
    spec fn key(&self) -> Seq<u8>;

    proof fn lemma_key_len(&self)
        ensures
            self.key().len() == 16,
    ;

    fn key_bytes(&self) -> (key: [u8; 16])
        ensures
            key@ == self.key(),
    ;
}

impl Keyed for NodeId {
    open spec fn key(&self) -> Seq<u8> {
        self.0@
    }

    proof fn lemma_key_len(&self) {
    }

    fn key_bytes(&self) -> (key: [u8; 16]) {
        self.0
    }
}

impl Keyed for NetworkId {
    open spec fn key(&self) -> Seq<u8> {
        self.0@
    }

    proof fn lemma_key_len(&self) {
    }

    fn key_bytes(&self) -> (key: [u8; 16]) {
        self.0
    }
}

impl Keyed for LinkId {
    open spec fn key(&self) -> Seq<u8> {
        self.0@
    }

    proof fn lemma_key_len(&self) {
    }

    fn key_bytes(&self) -> (key: [u8; 16]) {
        self.0
    }
}

impl Keyed for SegmentId {
    open spec fn key(&self) -> Seq<u8> {
        self.0@
    }

    proof fn lemma_key_len(&self) {
    }

    fn key_bytes(&self) -> (key: [u8; 16]) {
        self.0
    }
}

/// Entries are in strictly increasing key order (so no key occurs twice).
pub open spec fn sorted_keys<T: Keyed>(entries: Seq<T>) -> bool {
    forall|i: int, j: int|
        0 <= i < j < entries.len() ==> lex_lt(#[trigger] entries[i].key(), #[trigger] entries[j].key())
}

/// Some entry has key `key`.
pub open spec fn has_key<T: Keyed>(entries: Seq<T>, key: Seq<u8>) -> bool {
    exists|i: int| 0 <= i < entries.len() && #[trigger] entries[i].key() == key
}

/// The position of the entry with key `key`.
pub open spec fn key_index<T: Keyed>(entries: Seq<T>, key: Seq<u8>) -> int {
    choose|i: int| 0 <= i < entries.len() && #[trigger] entries[i].key() == key
}

/// The entries as a map from key to entry.
pub open spec fn table_view<T: Keyed>(entries: Seq<T>) -> Map<Seq<u8>, T> {
    Map::new(|key: Seq<u8>| has_key(entries, key), |key: Seq<u8>| entries[key_index(entries, key)])
}

/// The keys of the entries, in order.
pub open spec fn table_keys<T: Keyed>(entries: Seq<T>) -> Seq<Seq<u8>> {
    entries.map_values(|entry: T| entry.key())
}

/// In sorted entries, the entry with a given key is the one at its position.
pub proof fn lemma_sorted_index_unique<T: Keyed>(entries: Seq<T>, i: int)
    requires
        sorted_keys(entries),
        0 <= i < entries.len(),
    ensures
        has_key(entries, entries[i].key()),
        key_index(entries, entries[i].key()) == i,
        table_view(entries).contains_key(entries[i].key()),
        table_view(entries)[entries[i].key()] == entries[i],
{
    let k = entries[i].key();
    assert(has_key(entries, k));
    let j = key_index(entries, k);
    if j < i {
        lemma_lex_lt_asymmetric(entries[j].key(), entries[i].key());
    } else if j > i {
        lemma_lex_lt_asymmetric(entries[i].key(), entries[j].key());
    }
}

/// Sorted entries hold as many mappings as entries.
pub proof fn lemma_table_len<T: Keyed>(entries: Seq<T>)
    requires
        sorted_keys(entries),
    ensures
        table_view(entries).dom().finite(),
        table_view(entries).len() == entries.len(),
{
    let keys = table_keys(entries);
    assert forall|i: int, j: int| 0 <= i < keys.len() && 0 <= j < keys.len() && i != j implies keys[i]
        != keys[j] by {
        if i < j {
            lemma_lex_lt_asymmetric(entries[i].key(), entries[j].key());
        } else {
            lemma_lex_lt_asymmetric(entries[j].key(), entries[i].key());
        }
    }
    keys.unique_seq_to_set();
    assert forall|k: Seq<u8>| table_view(entries).dom().contains(k) <==> #[trigger] keys.to_set().contains(k) by {
        if has_key(entries, k) {
            let i = key_index(entries, k);
            assert(keys[i] == k);
        }
        if keys.to_set().contains(k) {
            let i = choose|i: int| 0 <= i < keys.len() && keys[i] == k;
            assert(entries[i].key() == k);
        }
    }
    assert(table_view(entries).dom() =~= keys.to_set());
}

/// Where a missing key would go: everything before is smaller, everything after larger.
pub open spec fn insertion_point<T: Keyed>(entries: Seq<T>, key: Seq<u8>, p: int) -> bool {
    &&& 0 <= p <= entries.len()
    &&& forall|i: int| 0 <= i < p ==> lex_lt(#[trigger] entries[i].key(), key)
    &&& forall|i: int| p <= i < entries.len() ==> lex_lt(key, #[trigger] entries[i].key())
}

pub proof fn lemma_insertion_point_absent<T: Keyed>(entries: Seq<T>, key: Seq<u8>, p: int)
    requires
        insertion_point(entries, key, p),
    ensures
        !has_key(entries, key),
        !table_view(entries).contains_key(key),
{
    if has_key(entries, key) {
        let i = key_index(entries, key);
        if i < p {
            lemma_lex_lt_asymmetric(entries[i].key(), key);
        } else {
            lemma_lex_lt_asymmetric(key, entries[i].key());
        }
    }
}

/// Inserting at the insertion point keeps the entries sorted and adds one mapping.
pub proof fn lemma_table_insert<T: Keyed>(entries: Seq<T>, p: int, entry: T)
    requires
        sorted_keys(entries),
        insertion_point(entries, entry.key(), p),
    ensures
        sorted_keys(entries.insert(p, entry)),
        table_view(entries.insert(p, entry)) == table_view(entries).insert(entry.key(), entry),
{
    let s = entries.insert(p, entry);
    assert forall|i: int, j: int| 0 <= i < j < s.len() implies lex_lt(
        #[trigger] s[i].key(),
        #[trigger] s[j].key(),
    ) by {
        if i < p && j == p {
        } else if i == p && j > p {
        } else if i < p && j > p {
            lemma_lex_lt_transitive(entries[i].key(), entry.key(), entries[j - 1].key());
        } else if i > p {
            assert(entries[i - 1].key() == s[i].key());
        } else {
        }
    }
    lemma_insertion_point_absent(entries, entry.key(), p);
    let m = table_view(entries).insert(entry.key(), entry);
    assert forall|k: Seq<u8>| #[trigger] table_view(s).contains_key(k) <==> m.contains_key(k) by {
        if has_key(s, k) {
            let i = key_index(s, k);
            if i < p {
                assert(entries[i].key() == k);
            } else if i > p {
                assert(entries[i - 1].key() == k);
            }
        }
        if has_key(entries, k) {
            let i = key_index(entries, k);
            if i < p {
                assert(s[i].key() == k);
            } else {
                assert(s[i + 1].key() == k);
            }
        }
        if k == entry.key() {
            assert(s[p].key() == k);
        }
    }
    assert forall|k: Seq<u8>| #[trigger] table_view(s).contains_key(k) implies table_view(s)[k]
        == m[k] by {
        let i = key_index(s, k);
        lemma_sorted_index_unique(s, i);
        if i == p {
        } else if i < p {
            lemma_sorted_index_unique(entries, i);
            if k == entry.key() {
                lemma_lex_lt_asymmetric(s[i].key(), s[p].key());
            }
        } else {
            lemma_sorted_index_unique(entries, i - 1);
            if k == entry.key() {
                lemma_lex_lt_asymmetric(s[p].key(), s[i].key());
            }
        }
    }
    assert(table_view(s) =~= m);
}

/// Removing an entry keeps the entries sorted and drops its mapping.
pub proof fn lemma_table_remove<T: Keyed>(entries: Seq<T>, i: int)
    requires
        sorted_keys(entries),
        0 <= i < entries.len(),
    ensures
        sorted_keys(entries.remove(i)),
        table_view(entries.remove(i)) == table_view(entries).remove(entries[i].key()),
{
    let s = entries.remove(i);
    let key = entries[i].key();
    assert forall|a: int, b: int| 0 <= a < b < s.len() implies lex_lt(
        #[trigger] s[a].key(),
        #[trigger] s[b].key(),
    ) by {
        let a0 = if a < i {
            a
        } else {
            a + 1
        };
        let b0 = if b < i {
            b
        } else {
            b + 1
        };
        assert(s[a] == entries[a0] && s[b] == entries[b0]);
    }
    let m = table_view(entries).remove(key);
    lemma_sorted_index_unique(entries, i);
    assert forall|k: Seq<u8>| #[trigger] table_view(s).contains_key(k) <==> m.contains_key(k) by {
        if has_key(s, k) {
            let j = key_index(s, k);
            let j0 = if j < i {
                j
            } else {
                j + 1
            };
            assert(entries[j0].key() == k);
            lemma_sorted_index_unique(entries, j0);
        }
        if has_key(entries, k) && k != key {
            let j = key_index(entries, k);
            if j < i {
                assert(s[j].key() == k);
            } else {
                assert(s[j - 1].key() == k);
            }
        }
    }
    assert forall|k: Seq<u8>| #[trigger] table_view(s).contains_key(k) implies table_view(s)[k]
        == m[k] by {
        let j = key_index(s, k);
        lemma_sorted_index_unique(s, j);
        let j0 = if j < i {
            j
        } else {
            j + 1
        };
        lemma_sorted_index_unique(entries, j0);
    }
    assert(table_view(s) =~= m);
}

/// Replacing an entry by one with the same key keeps the entries sorted and updates its mapping.
pub proof fn lemma_table_update<T: Keyed>(entries: Seq<T>, i: int, entry: T)
    requires
        sorted_keys(entries),
        0 <= i < entries.len(),
        entry.key() == entries[i].key(),
    ensures
        sorted_keys(entries.update(i, entry)),
        table_view(entries.update(i, entry)) == table_view(entries).insert(entry.key(), entry),
{
    let s = entries.update(i, entry);
    assert forall|a: int, b: int| 0 <= a < b < s.len() implies lex_lt(
        #[trigger] s[a].key(),
        #[trigger] s[b].key(),
    ) by {
        assert(s[a].key() == entries[a].key() && s[b].key() == entries[b].key());
    }
    let m = table_view(entries).insert(entry.key(), entry);
    assert forall|k: Seq<u8>| #[trigger] table_view(s).contains_key(k) <==> m.contains_key(k) by {
        if has_key(s, k) {
            let j = key_index(s, k);
            assert(entries[j].key() == k);
        }
        if has_key(entries, k) {
            let j = key_index(entries, k);
            assert(s[j].key() == k);
        }
    }
    assert forall|k: Seq<u8>| #[trigger] table_view(s).contains_key(k) implies table_view(s)[k]
        == m[k] by {
        let j = key_index(s, k);
        lemma_sorted_index_unique(s, j);
        if j != i {
            lemma_sorted_index_unique(entries, j);
        }
    }
    assert(table_view(s) =~= m);
}

/// Finds the position of `key`: `Ok` with its index, or `Err` with where it would be inserted.
pub fn find_key<T: Keyed>(entries: &Vec<T>, key: &[u8; 16]) -> (found: Result<usize, usize>)
    requires
        sorted_keys(entries@),
    ensures
        match found {
            Ok(i) => i < entries@.len() && entries@[i as int].key() == key@,
            Err(p) => insertion_point(entries@, key@, p as int),
        },
        found is Ok <==> table_view(entries@).contains_key(key@),
{
    let mut i: usize = 0;
    while i < entries.len()
        invariant
            i <= entries@.len(),
            sorted_keys(entries@),
            forall|j: int| 0 <= j < i ==> lex_lt(#[trigger] entries@[j].key(), key@),
        decreases entries@.len() - i,
    {
        let k = entries[i].key_bytes();
        if bytes_less(&k, key) {
            i += 1;
        } else {
            if bytes_equal(&k, key) {
                proof {
                    lemma_sorted_index_unique(entries@, i as int);
                }
                return Ok(i);
            }
            proof {
                entries@[i as int].lemma_key_len();
                lemma_lex_lt_total(k@, key@);
                assert forall|j: int| i <= j < entries@.len() implies lex_lt(
                    key@,
                    #[trigger] entries@[j].key(),
                ) by {
                    if j > i {
                        lemma_lex_lt_transitive(key@, entries@[i as int].key(), entries@[j].key());
                    }
                }
                lemma_insertion_point_absent(entries@, key@, i as int);
            }
            return Err(i);
        }
    }
    proof {
        lemma_insertion_point_absent(entries@, key@, i as int);
    }
    Err(i)
}

/// Inserts `entry`, replacing the entry with the same key; returns the replaced entry.
pub fn table_put<T: Keyed>(entries: &mut Vec<T>, entry: T) -> (previous: Option<T>)
    requires
        sorted_keys(old(entries)@),
    ensures
        sorted_keys(final(entries)@),
        table_view(final(entries)@) == table_view(old(entries)@).insert(entry.key(), entry),
        previous == (if table_view(old(entries)@).contains_key(entry.key()) {
            Some(table_view(old(entries)@)[entry.key()])
        } else {
            None
        }),
{
    let key = entry.key_bytes();
    let ghost added = entry;
    match find_key(entries, &key) {
        Ok(i) => {
            proof {
                lemma_sorted_index_unique(entries@, i as int);
                lemma_table_update(entries@, i as int, entry);
            }
            let mut replaced = entry;
            std::mem::swap(&mut entries[i], &mut replaced);
            Some(replaced)
        },
        Err(p) => {
            proof {
                lemma_table_insert(entries@, p as int, entry);
            }
            entries.insert(p, entry);
            None
        },
    }
}

/// Removes the entry with key `key`, returning it.
pub fn table_take<T: Keyed>(entries: &mut Vec<T>, key: &[u8; 16]) -> (removed: Option<T>)
    requires
        sorted_keys(old(entries)@),
    ensures
        sorted_keys(final(entries)@),
        table_view(final(entries)@) == table_view(old(entries)@).remove(key@),
        removed == (if table_view(old(entries)@).contains_key(key@) {
            Some(table_view(old(entries)@)[key@])
        } else {
            None
        }),
{
    match find_key(entries, key) {
        Ok(i) => {
            proof {
                lemma_sorted_index_unique(entries@, i as int);
                lemma_table_remove(entries@, i as int);
            }
            Some(entries.remove(i))
        },
        Err(_) => {
            assert(table_view(entries@).remove(key@) =~= table_view(entries@));
            None
        },
    }
}

/// Entries with the same keys, position by position, as sorted entries are sorted.
pub proof fn lemma_same_keys_sorted<T: Keyed, U: Keyed>(entries: Seq<T>, other: Seq<U>)
    requires
        sorted_keys(entries),
        other.len() == entries.len(),
        forall|i: int| 0 <= i < other.len() ==> #[trigger] other[i].key() == entries[i].key(),
    ensures
        sorted_keys(other),
{
    assert forall|a: int, b: int| 0 <= a < b < other.len() implies lex_lt(
        #[trigger] other[a].key(),
        #[trigger] other[b].key(),
    ) by {
        assert(other[a].key() == entries[a].key() && other[b].key() == entries[b].key());
    }
}

/// Keeping the entries of sorted entries that satisfy `keep` leaves them sorted.
pub proof fn lemma_filter_sorted<T: Keyed>(entries: Seq<T>, keep: spec_fn(T) -> bool)
    requires
        sorted_keys(entries),
    ensures
        sorted_keys(entries.filter(keep)),
    decreases entries.len(),
{
    reveal(Seq::filter);
    if entries.len() > 0 {
        let rest = entries.drop_last();
        assert(sorted_keys(rest)) by {
            assert forall|a: int, b: int| 0 <= a < b < rest.len() implies lex_lt(
                #[trigger] rest[a].key(),
                #[trigger] rest[b].key(),
            ) by {
                assert(rest[a] == entries[a] && rest[b] == entries[b]);
            }
        }
        lemma_filter_sorted(rest, keep);
        let kept = rest.filter(keep);
        if keep(entries.last()) {
            let s = kept.push(entries.last());
            assert forall|a: int, b: int| 0 <= a < b < s.len() implies lex_lt(
                #[trigger] s[a].key(),
                #[trigger] s[b].key(),
            ) by {
                if b == s.len() - 1 {
                    assert(kept.contains(kept[a]));
                    rest.lemma_filter_contains_rev(keep, kept[a]);
                    let j = choose|j: int| 0 <= j < rest.len() && rest[j] == kept[a];
                    assert(entries[j] == kept[a]);
                } else {
                    assert(s[a] == kept[a] && s[b] == kept[b]);
                }
            }
        }
    }
}

/// Filtering one more entry of a prefix keeps or drops just that entry.
pub proof fn lemma_filter_take_step<T>(entries: Seq<T>, keep: spec_fn(T) -> bool, i: int)
    requires
        0 <= i < entries.len(),
    ensures
        entries.take(i + 1).filter(keep) == (if keep(entries[i]) {
            entries.take(i).filter(keep).push(entries[i])
        } else {
            entries.take(i).filter(keep)
        }),
{
    reveal(Seq::filter);
    assert(entries.take(i + 1).drop_last() =~= entries.take(i));
}

/// An entry kept by a filter is an entry of the original that satisfies the filter.
pub proof fn lemma_filter_entry<T>(entries: Seq<T>, keep: spec_fn(T) -> bool, a: int)
    requires
        0 <= a < entries.filter(keep).len(),
    ensures
        keep(entries.filter(keep)[a]),
        exists|j: int| 0 <= j < entries.len() && entries[j] == entries.filter(keep)[a],
{
    entries.lemma_filter_pred(keep, a);
    assert(entries.filter(keep).contains(entries.filter(keep)[a]));
    entries.lemma_filter_contains_rev(keep, entries.filter(keep)[a]);
}

/// Sorted entries with the same mappings are the same entries.
pub proof fn lemma_table_equal_entries<T: Keyed>(a: Seq<T>, b: Seq<T>)
    requires
        sorted_keys(a),
        sorted_keys(b),
        table_view(a) == table_view(b),
    ensures
        a == b,
    decreases a.len(),
{
    if a.len() > 0 && b.len() > 0 {
        let la = a.last();
        let lb = b.last();
        lemma_sorted_index_unique(a, a.len() - 1);
        lemma_sorted_index_unique(b, b.len() - 1);
        let ia = key_index(b, la.key());
        let ib = key_index(a, lb.key());
        if ia < b.len() - 1 {
            lemma_lex_lt_asymmetric(la.key(), lb.key());
            lemma_sorted_index_unique(b, ia);
            lemma_sorted_index_unique(a, ib);
        }
        if ib < a.len() - 1 {
            lemma_sorted_index_unique(a, ib);
            lemma_sorted_index_unique(b, ia);
        }
        assert(la == lb);
        let ra = a.drop_last();
        let rb = b.drop_last();
        lemma_table_remove(a, a.len() - 1);
        lemma_table_remove(b, b.len() - 1);
        assert(a.remove(a.len() - 1) =~= ra);
        assert(b.remove(b.len() - 1) =~= rb);
        lemma_table_equal_entries(ra, rb);
        assert(a =~= ra.push(la));
        assert(b =~= rb.push(lb));
    } else if a.len() > 0 {
        lemma_sorted_index_unique(a, 0);
    } else if b.len() > 0 {
        lemma_sorted_index_unique(b, 0);
    }
}

} // verus!
