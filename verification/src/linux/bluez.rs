use vstd::prelude::*;

use crate::domain::error::{CoreError, ErrorKind};
use crate::linux::handles::{AdapterHandle, BluetoothAdapter, BluetoothAdapterEvent};
use crate::linux::pan::BluezSignal;
use crate::text::{chars_of, contains_text, has_prefix, lists, same_text, starts_with};
use crate::text_order::{lemma_text_lt_asymmetric, lemma_text_lt_total, lemma_text_lt_transitive, text_less, text_lt};

verus! {

/// `path` names an adapter object: "/org/bluez/" followed by one non-empty path element.
pub open spec fn adapter_object_path(path: Seq<char>) -> bool {
    let prefix = "/org/bluez/"@;
    &&& has_prefix(path, prefix)
    &&& path.len() > prefix.len()
    &&& forall|i: int| prefix.len() <= i < path.len() ==> path[i] != '/'
}

pub fn is_adapter_object_path(path: &str) -> (adapter: bool)
    ensures
        adapter == adapter_object_path(path@),
{
    let chars = chars_of(path);
    if !starts_with(&chars, "/org/bluez/") {
        return false;
    }
    proof {
        reveal_strlit("/org/bluez/");
    }
    let start: usize = 11;
    if chars.len() <= start {
        return false;
    }
    let mut i = start;
    while i < chars.len()
        invariant
            start <= i <= chars@.len(),
            start == 11,
            "/org/bluez/"@.len() == 11,
            has_prefix(path@, "/org/bluez/"@),
            chars@ == path@,
            forall|k: int| 11 <= k < i ==> chars@[k] != '/',
        decreases chars@.len() - i,
    {
        if chars[i] == '/' {
            return false;
        }
        i += 1;
    }
    true
}

/// The powered flag each handle had last in a snapshot.
pub open spec fn latest_powered(adapters: Seq<BluetoothAdapter>) -> Map<Seq<char>, bool>
    decreases adapters.len(),
{
    if adapters.len() == 0 {
        Map::empty()
    } else {
        latest_powered(adapters.drop_last()).insert(adapters.last().handle@, adapters.last().powered)
    }
}

/// Adapters in strictly increasing handle order.
pub open spec fn by_handle(adapters: Seq<BluetoothAdapter>) -> bool {
    forall|i: int, j: int|
        0 <= i < j < adapters.len() ==> text_lt(
            (#[trigger] adapters[i]).handle@,
            (#[trigger] adapters[j]).handle@,
        )
}

/// The handle → powered map of adapters listed once each.
pub open spec fn powered_map(adapters: Seq<BluetoothAdapter>) -> Map<Seq<char>, bool> {
    Map::new(
        |k: Seq<char>| exists|i: int| 0 <= i < adapters.len() && (#[trigger] adapters[i]).handle@ == k,
        |k: Seq<char>| adapters[choose|i: int| 0 <= i < adapters.len() && (#[trigger] adapters[i]).handle@ == k].powered,
    )
}

proof fn lemma_by_handle_unique(adapters: Seq<BluetoothAdapter>, i: int)
    requires
        by_handle(adapters),
        0 <= i < adapters.len(),
    ensures
        powered_map(adapters).contains_key(adapters[i].handle@),
        powered_map(adapters)[adapters[i].handle@] == adapters[i].powered,
{
    let k = adapters[i].handle@;
    let j = choose|j: int| 0 <= j < adapters.len() && (#[trigger] adapters[j]).handle@ == k;
    if j < i {
        lemma_text_lt_asymmetric(adapters[j].handle@, adapters[i].handle@);
    } else if j > i {
        lemma_text_lt_asymmetric(adapters[i].handle@, adapters[j].handle@);
    }
}

fn handle_chars(adapter: &BluetoothAdapter) -> (chars: Vec<char>)
    ensures
        chars@ == adapter.handle@,
{
    chars_of(adapter.handle.as_str())
}

/// Each handle once, with the powered flag it had last, in increasing handle order.
fn latest_by_handle(adapters: &Vec<BluetoothAdapter>) -> (sorted: Vec<BluetoothAdapter>)
    ensures
        by_handle(sorted@),
        powered_map(sorted@) == latest_powered(adapters@),
{
    let mut sorted: Vec<BluetoothAdapter> = Vec::new();
    let mut n: usize = 0;
    assert(powered_map(sorted@) =~= latest_powered(adapters@.take(0)));
    while n < adapters.len()
        invariant
            n <= adapters@.len(),
            by_handle(sorted@),
            powered_map(sorted@) == latest_powered(adapters@.take(n as int)),
        decreases adapters@.len() - n,
    {
        let source = &adapters[n];
        let adapter = BluetoothAdapter { handle: source.handle.duplicate(), powered: source.powered };
        let ghost item = adapters@[n as int];
        assert(adapter.handle@ == item.handle@ && adapter.powered == item.powered);
        let key = handle_chars(&adapter);
        let mut k: usize = 0;
        let mut searching = true;
        while searching && k < sorted.len()
            invariant
                k <= sorted@.len(),
                key@ == item.handle@,
                forall|j: int| 0 <= j < k ==> text_lt((#[trigger] sorted@[j]).handle@, key@),
                !searching ==> k < sorted@.len() && !text_lt(sorted@[k as int].handle@, key@),
            decreases sorted@.len() - k + if searching {
                1int
            } else {
                0int
            },
        {
            let other = handle_chars(&sorted[k]);
            if text_less(&other, &key) {
                k += 1;
            } else {
                searching = false;
            }
        }
        let equal = if k < sorted.len() {
            let other = handle_chars(&sorted[k]);
            !text_less(&key, &other)
        } else {
            false
        };
        proof {
            if k < sorted@.len() {
                let first = sorted@[k as int].handle@;
                if first != key@ {
                    lemma_text_lt_total(first, key@);
                }
                if equal {
                    assert(first == key@);
                } else {
                    assert(text_lt(key@, first));
                }
            }
        }
        let ghost before = sorted@;
        if equal {
            sorted.set(k, adapter);
            proof {
                assert forall|a: int, b: int| 0 <= a < b < sorted@.len() implies text_lt(
                    (#[trigger] sorted@[a]).handle@,
                    (#[trigger] sorted@[b]).handle@,
                ) by {
                    assert(sorted@[a].handle@ == before[a].handle@);
                    assert(sorted@[b].handle@ == before[b].handle@);
                }
            }
        } else {
            sorted.insert(k, adapter);
            proof {
                assert forall|a: int, b: int| 0 <= a < b < sorted@.len() implies text_lt(
                    (#[trigger] sorted@[a]).handle@,
                    (#[trigger] sorted@[b]).handle@,
                ) by {
                    if a < k && b == k {
                    } else if a == k && b > k {
                        assert(sorted@[b] == before[b - 1]);
                        if k < before.len() {
                            let first = before[k as int].handle@;
                            if b - 1 > k {
                                lemma_text_lt_transitive(key@, first, before[b - 1].handle@);
                            }
                        }
                    } else if a < k && b > k {
                        assert(sorted@[b] == before[b - 1]);
                    } else if a > k {
                        assert(sorted@[a] == before[a - 1] && sorted@[b] == before[b - 1]);
                    }
                }
            }
        }
        proof {
            assert(adapters@.take(n + 1).drop_last() =~= adapters@.take(n as int));
            assert(adapters@.take(n + 1).last() == item);
            let m = latest_powered(adapters@.take(n as int)).insert(item.handle@, item.powered);
            assert forall|h: Seq<char>| #[trigger] powered_map(sorted@).contains_key(h) <==> m.contains_key(h) by {
                if powered_map(sorted@).contains_key(h) {
                    let j = choose|j: int| 0 <= j < sorted@.len() && (#[trigger] sorted@[j]).handle@ == h;
                    if h != item.handle@ {
                        if equal {
                            assert(before[j].handle@ == h);
                        } else if j < k {
                            assert(before[j].handle@ == h);
                        } else {
                            assert(before[j - 1].handle@ == h);
                        }
                        lemma_by_handle_unique(before, if equal || j < k { j } else { j - 1 });
                    }
                }
                if m.contains_key(h) {
                    if h == item.handle@ {
                        assert(sorted@[k as int].handle@ == h);
                    } else {
                        let j = choose|j: int| 0 <= j < before.len() && (#[trigger] before[j]).handle@ == h;
                        if equal || j < k {
                            assert(sorted@[j].handle@ == h);
                        } else {
                            assert(sorted@[j + 1].handle@ == h);
                        }
                    }
                }
            }
            assert forall|h: Seq<char>| #[trigger] powered_map(sorted@).contains_key(h) implies powered_map(sorted@)[h] == m[h] by {
                let j = choose|j: int| 0 <= j < sorted@.len() && (#[trigger] sorted@[j]).handle@ == h;
                lemma_by_handle_unique(sorted@, j);
                if h != item.handle@ {
                    let j0 = if equal || j < k { j } else { j - 1 };
                    assert(before[j0] == sorted@[j]);
                    lemma_by_handle_unique(before, j0);
                } else {
                    lemma_by_handle_unique(sorted@, k as int);
                }
            }
            assert(powered_map(sorted@) =~= m);
        }
        n += 1;
    }
    assert(adapters@.take(adapters@.len() as int) =~= adapters@);
    sorted
}

/// (handle, powered) pairs in strictly increasing handle order.
pub open spec fn pairs_sorted(pairs: Seq<(Seq<char>, bool)>) -> bool {
    forall|i: int, j: int| 0 <= i < j < pairs.len() ==> text_lt(#[trigger] pairs[i].0, #[trigger] pairs[j].0)
}

pub open spec fn pairs_map(pairs: Seq<(Seq<char>, bool)>) -> Map<Seq<char>, bool> {
    Map::new(
        |k: Seq<char>| exists|i: int| 0 <= i < pairs.len() && (#[trigger] pairs[i]).0 == k,
        |k: Seq<char>| pairs[choose|i: int| 0 <= i < pairs.len() && (#[trigger] pairs[i]).0 == k].1,
    )
}

/// The entries of a handle → powered map in increasing handle order.
pub open spec fn ordered_pairs(map: Map<Seq<char>, bool>) -> Seq<(Seq<char>, bool)> {
    choose|pairs: Seq<(Seq<char>, bool)>| pairs_sorted(pairs) && pairs_map(pairs) == map
}

pub open spec fn adapter_pairs(adapters: Seq<BluetoothAdapter>) -> Seq<(Seq<char>, bool)> {
    adapters.map_values(|adapter: BluetoothAdapter| (adapter.handle@, adapter.powered))
}

proof fn lemma_pairs_unique_index(pairs: Seq<(Seq<char>, bool)>, i: int)
    requires
        pairs_sorted(pairs),
        0 <= i < pairs.len(),
    ensures
        pairs_map(pairs).contains_key(pairs[i].0),
        pairs_map(pairs)[pairs[i].0] == pairs[i].1,
{
    let k = pairs[i].0;
    let j = choose|j: int| 0 <= j < pairs.len() && (#[trigger] pairs[j]).0 == k;
    if j < i {
        lemma_text_lt_asymmetric(pairs[j].0, pairs[i].0);
    } else if j > i {
        lemma_text_lt_asymmetric(pairs[i].0, pairs[j].0);
    }
}

/// Sorted pairs are determined by their map.
proof fn lemma_pairs_unique(a: Seq<(Seq<char>, bool)>, b: Seq<(Seq<char>, bool)>)
    requires
        pairs_sorted(a),
        pairs_sorted(b),
        pairs_map(a) == pairs_map(b),
    ensures
        a == b,
    decreases a.len() + b.len(),
{
    if a.len() == 0 && b.len() == 0 {
        assert(a =~= b);
    } else if a.len() == 0 {
        lemma_pairs_unique_index(b, 0);
    } else if b.len() == 0 {
        lemma_pairs_unique_index(a, 0);
    } else {
        let la = a.last();
        let lb = b.last();
        lemma_pairs_unique_index(a, a.len() - 1);
        lemma_pairs_unique_index(b, b.len() - 1);
        let ia = choose|i: int| 0 <= i < b.len() && (#[trigger] b[i]).0 == la.0;
        let ib = choose|i: int| 0 <= i < a.len() && (#[trigger] a[i]).0 == lb.0;
        if ia < b.len() - 1 {
            assert(text_lt(b[ia].0, lb.0));
            if ib < a.len() - 1 {
                assert(text_lt(a[ib].0, la.0));
                lemma_text_lt_asymmetric(la.0, lb.0);
            }
            assert(ib == a.len() - 1 || text_lt(a[ib].0, la.0));
            lemma_text_lt_asymmetric(lb.0, la.0);
        }
        if ib < a.len() - 1 {
            assert(text_lt(a[ib].0, la.0));
            lemma_text_lt_asymmetric(la.0, lb.0);
        }
        lemma_pairs_unique_index(a, ib);
        lemma_pairs_unique_index(b, ia);
        assert(la == lb);
        let ra = a.drop_last();
        let rb = b.drop_last();
        assert(pairs_sorted(ra)) by {
            assert forall|i: int, j: int| 0 <= i < j < ra.len() implies text_lt(#[trigger] ra[i].0, #[trigger] ra[j].0) by {
                assert(ra[i] == a[i] && ra[j] == a[j]);
            }
        }
        assert(pairs_sorted(rb)) by {
            assert forall|i: int, j: int| 0 <= i < j < rb.len() implies text_lt(#[trigger] rb[i].0, #[trigger] rb[j].0) by {
                assert(rb[i] == b[i] && rb[j] == b[j]);
            }
        }
        assert forall|k: Seq<char>| #[trigger] pairs_map(ra).contains_key(k) <==> pairs_map(rb).contains_key(k) by {
            if pairs_map(ra).contains_key(k) {
                let i = choose|i: int| 0 <= i < ra.len() && (#[trigger] ra[i]).0 == k;
                assert(a[i].0 == k);
                assert(text_lt(a[i].0, la.0));
                assert(pairs_map(a).contains_key(k));
                assert(pairs_map(b).contains_key(k));
                let j = choose|j: int| 0 <= j < b.len() && (#[trigger] b[j]).0 == k;
                if j == b.len() - 1 {
                    lemma_text_lt_asymmetric(k, la.0);
                }
                assert(rb[j] == b[j]);
                assert(rb[j].0 == k);
            }
            if pairs_map(rb).contains_key(k) {
                let i = choose|i: int| 0 <= i < rb.len() && (#[trigger] rb[i]).0 == k;
                assert(b[i].0 == k);
                assert(text_lt(b[i].0, lb.0));
                assert(pairs_map(b).contains_key(k));
                assert(pairs_map(a).contains_key(k));
                let j = choose|j: int| 0 <= j < a.len() && (#[trigger] a[j]).0 == k;
                if j == a.len() - 1 {
                    lemma_text_lt_asymmetric(k, lb.0);
                }
                assert(ra[j] == a[j]);
                assert(ra[j].0 == k);
            }
        }
        assert forall|k: Seq<char>| #[trigger] pairs_map(ra).contains_key(k) implies pairs_map(ra)[k] == pairs_map(rb)[k] by {
            let i = choose|i: int| 0 <= i < ra.len() && (#[trigger] ra[i]).0 == k;
            let j = choose|j: int| 0 <= j < rb.len() && (#[trigger] rb[j]).0 == k;
            lemma_pairs_unique_index(ra, i);
            lemma_pairs_unique_index(rb, j);
            lemma_pairs_unique_index(a, i);
            lemma_pairs_unique_index(b, j);
        }
        assert(pairs_map(ra) =~= pairs_map(rb));
        lemma_pairs_unique(ra, rb);
        assert(a =~= ra.push(la));
        assert(b =~= rb.push(lb));
    }
}

/// Sorted adapters list exactly the ordered entries of their map.
proof fn lemma_adapter_pairs_ordered(adapters: Seq<BluetoothAdapter>)
    requires
        by_handle(adapters),
    ensures
        ordered_pairs(powered_map(adapters)) == adapter_pairs(adapters),
        pairs_sorted(adapter_pairs(adapters)),
        pairs_map(adapter_pairs(adapters)) == powered_map(adapters),
{
    let pairs = adapter_pairs(adapters);
    assert(pairs_sorted(pairs)) by {
        assert forall|i: int, j: int| 0 <= i < j < pairs.len() implies text_lt(#[trigger] pairs[i].0, #[trigger] pairs[j].0) by {
            assert(pairs[i].0 == adapters[i].handle@ && pairs[j].0 == adapters[j].handle@);
        }
    }
    assert forall|k: Seq<char>| #[trigger] pairs_map(pairs).contains_key(k) <==> powered_map(adapters).contains_key(k) by {
        if pairs_map(pairs).contains_key(k) {
            let i = choose|i: int| 0 <= i < pairs.len() && (#[trigger] pairs[i]).0 == k;
            assert(adapters[i].handle@ == k);
        }
        if powered_map(adapters).contains_key(k) {
            let i = choose|i: int| 0 <= i < adapters.len() && (#[trigger] adapters[i]).handle@ == k;
            assert(pairs[i].0 == k);
        }
    }
    assert forall|k: Seq<char>| #[trigger] pairs_map(pairs).contains_key(k) implies pairs_map(pairs)[k] == powered_map(adapters)[k] by {
        let i = choose|i: int| 0 <= i < pairs.len() && (#[trigger] pairs[i]).0 == k;
        lemma_pairs_unique_index(pairs, i);
        lemma_by_handle_unique(adapters, i);
    }
    assert(pairs_map(pairs) =~= powered_map(adapters));
    let chosen = ordered_pairs(powered_map(adapters));
    assert(pairs_sorted(chosen) && pairs_map(chosen) == powered_map(adapters));
    lemma_pairs_unique(chosen, pairs);
}

/// An event as (kind, handle, powered): 0 removed, 1 powered changed, 2 added.
pub open spec fn event_view(event: BluetoothAdapterEvent) -> (u8, Seq<char>, bool) {
    match event {
        BluetoothAdapterEvent::Removed(handle) => (0u8, handle@, false),
        BluetoothAdapterEvent::PoweredChanged { handle, powered } => (1u8, handle@, powered),
        BluetoothAdapterEvent::Added(adapter) => (2u8, adapter.handle@, adapter.powered),
    }
}

/// For each earlier adapter in handle order: removed when gone, powered-changed when its flag
/// differs now.
pub open spec fn change_views(previous: Seq<(Seq<char>, bool)>, current: Map<Seq<char>, bool>) -> Seq<(u8, Seq<char>, bool)>
    decreases previous.len(),
{
    if previous.len() == 0 {
        Seq::empty()
    } else {
        let (handle, powered) = previous.last();
        change_views(previous.drop_last(), current) + if !current.contains_key(handle) {
            seq![(0u8, handle, false)]
        } else if current[handle] != powered {
            seq![(1u8, handle, current[handle])]
        } else {
            Seq::empty()
        }
    }
}

/// For each current adapter in handle order that was not there before: added.
pub open spec fn added_views(current: Seq<(Seq<char>, bool)>, previous: Map<Seq<char>, bool>) -> Seq<(u8, Seq<char>, bool)>
    decreases current.len(),
{
    if current.len() == 0 {
        Seq::empty()
    } else {
        let (handle, powered) = current.last();
        added_views(current.drop_last(), previous) + if !previous.contains_key(handle) {
            seq![(2u8, handle, powered)]
        } else {
            Seq::empty()
        }
    }
}

fn find_handle(adapters: &Vec<BluetoothAdapter>, handle: &Vec<char>) -> (found: Option<usize>)
    requires
        by_handle(adapters@),
    ensures
        match found {
            Some(i) => i < adapters@.len() && adapters@[i as int].handle@ == handle@,
            None => !powered_map(adapters@).contains_key(handle@),
        },
{
    let mut i: usize = 0;
    while i < adapters.len()
        invariant
            i <= adapters@.len(),
            forall|j: int| 0 <= j < i ==> (#[trigger] adapters@[j]).handle@ != handle@,
        decreases adapters@.len() - i,
    {
        let other = handle_chars(&adapters[i]);
        if !text_less(&other, handle) && !text_less(handle, &other) {
            proof {
                if other@ != handle@ {
                    lemma_text_lt_total(other@, handle@);
                }
            }
            return Some(i);
        }
        proof {
            if other@ == handle@ {
                assert(!text_lt(other@, other@)) by {
                    if text_lt(other@, other@) {
                        lemma_text_lt_asymmetric(other@, other@);
                    }
                }
            }
        }
        i += 1;
    }
    None
}

proof fn lemma_push_event_view(events: Seq<BluetoothAdapterEvent>, event: BluetoothAdapterEvent)
    ensures
        events.push(event).map_values(|e: BluetoothAdapterEvent| event_view(e)) == events.map_values(
            |e: BluetoothAdapterEvent| event_view(e),
        ).push(event_view(event)),
{
    assert(events.push(event).map_values(|e: BluetoothAdapterEvent| event_view(e)) =~= events.map_values(
        |e: BluetoothAdapterEvent| event_view(e),
    ).push(event_view(event)));
}

/// The events that turn one adapter snapshot into the next: for each earlier adapter in
/// handle order, its removal or power change, then each new adapter in handle order. When a
/// snapshot lists a handle twice, its last entry counts.
pub fn diff_adapter_snapshots(previous: &Vec<BluetoothAdapter>, current: &Vec<BluetoothAdapter>) -> (events: Vec<BluetoothAdapterEvent>)
    ensures
        events@.map_values(|e: BluetoothAdapterEvent| event_view(e)) == change_views(
            ordered_pairs(latest_powered(previous@)),
            latest_powered(current@),
        ) + added_views(ordered_pairs(latest_powered(current@)), latest_powered(previous@)),
        pairs_sorted(ordered_pairs(latest_powered(previous@))),
        pairs_map(ordered_pairs(latest_powered(previous@))) == latest_powered(previous@),
        pairs_sorted(ordered_pairs(latest_powered(current@))),
        pairs_map(ordered_pairs(latest_powered(current@))) == latest_powered(current@),
{
    let old_sorted = latest_by_handle(previous);
    let new_sorted = latest_by_handle(current);
    let ghost old_map = latest_powered(previous@);
    let ghost new_map = latest_powered(current@);
    proof {
        lemma_adapter_pairs_ordered(old_sorted@);
        lemma_adapter_pairs_ordered(new_sorted@);
    }
    let ghost old_pairs = adapter_pairs(old_sorted@);
    let ghost new_pairs = adapter_pairs(new_sorted@);
    let mut events: Vec<BluetoothAdapterEvent> = Vec::new();
    let mut i: usize = 0;
    while i < old_sorted.len()
        invariant
            i <= old_sorted@.len(),
            by_handle(old_sorted@),
            by_handle(new_sorted@),
            powered_map(new_sorted@) == new_map,
            old_pairs == adapter_pairs(old_sorted@),
            events@.map_values(|e: BluetoothAdapterEvent| event_view(e)) == change_views(old_pairs.take(i as int), new_map),
        decreases old_sorted@.len() - i,
    {
        let adapter = &old_sorted[i];
        let key = handle_chars(adapter);
        let ghost before = events@;
        match find_handle(&new_sorted, &key) {
            None => {
                let event = BluetoothAdapterEvent::Removed(adapter.handle.duplicate());
                proof { lemma_push_event_view(events@, event); }
                events.push(event);
            },
            Some(j) => {
                proof { lemma_by_handle_unique(new_sorted@, j as int); }
                if new_sorted[j].powered != adapter.powered {
                    let event = BluetoothAdapterEvent::PoweredChanged {
                        handle: adapter.handle.duplicate(),
                        powered: new_sorted[j].powered,
                    };
                    proof { lemma_push_event_view(events@, event); }
                    events.push(event);
                }
            },
        }
        proof {
            assert(old_pairs.take(i + 1).drop_last() =~= old_pairs.take(i as int));
            assert(old_pairs.take(i + 1).last() == (old_sorted@[i as int].handle@, old_sorted@[i as int].powered));
            assert(events@.map_values(|e: BluetoothAdapterEvent| event_view(e)) =~= change_views(old_pairs.take(i + 1), new_map));
        }
        i += 1;
    }
    assert(old_pairs.take(old_sorted@.len() as int) =~= old_pairs);
    let ghost changes = events@.map_values(|e: BluetoothAdapterEvent| event_view(e));
    let mut k: usize = 0;
    assert(added_views(new_pairs.take(0), old_map) =~= Seq::<(u8, Seq<char>, bool)>::empty());
    while k < new_sorted.len()
        invariant
            k <= new_sorted@.len(),
            by_handle(old_sorted@),
            powered_map(old_sorted@) == old_map,
            new_pairs == adapter_pairs(new_sorted@),
            events@.map_values(|e: BluetoothAdapterEvent| event_view(e)) == changes + added_views(new_pairs.take(k as int), old_map),
        decreases new_sorted@.len() - k,
    {
        let adapter = &new_sorted[k];
        let key = handle_chars(adapter);
        if find_handle(&old_sorted, &key).is_none() {
            let event = BluetoothAdapterEvent::Added(
                BluetoothAdapter { handle: adapter.handle.duplicate(), powered: adapter.powered },
            );
            proof { lemma_push_event_view(events@, event); }
            events.push(event);
        } else {
            proof {
                let j = choose|j: int| 0 <= j < old_sorted@.len() && old_sorted@[j].handle@ == key@;
            }
        }
        proof {
            assert(new_pairs.take(k + 1).drop_last() =~= new_pairs.take(k as int));
            assert(new_pairs.take(k + 1).last() == (new_sorted@[k as int].handle@, new_sorted@[k as int].powered));
            assert(events@.map_values(|e: BluetoothAdapterEvent| event_view(e)) =~= changes + added_views(new_pairs.take(k + 1), old_map));
        }
        k += 1;
    }
    assert(new_pairs.take(new_sorted@.len() as int) =~= new_pairs);
    events
}

/// A snapshot compared with itself gives no events.
pub proof fn lemma_unchanged_snapshot_no_events(pairs: Seq<(Seq<char>, bool)>, map: Map<Seq<char>, bool>)
    requires
        pairs_sorted(pairs),
        pairs_map(pairs) == map,
    ensures
        change_views(pairs, map) + added_views(pairs, map) == Seq::<(u8, Seq<char>, bool)>::empty(),
    decreases pairs.len(),
{
    if pairs.len() > 0 {
        let rest = pairs.drop_last();
        let last = pairs.last();
        lemma_pairs_unique_index(pairs, pairs.len() - 1);
        assert(pairs_sorted(rest)) by {
            assert forall|i: int, j: int| 0 <= i < j < rest.len() implies text_lt(#[trigger] rest[i].0, #[trigger] rest[j].0) by {
                assert(rest[i] == pairs[i] && rest[j] == pairs[j]);
            }
        }
        assert forall|i: int| 0 <= i < pairs.len() implies map.contains_key(#[trigger] pairs[i].0) && map[pairs[i].0] == pairs[i].1 by {
            lemma_pairs_unique_index(pairs, i);
        }
        lemma_no_events_for(pairs, map);
    } else {
        assert(change_views(pairs, map) + added_views(pairs, map) =~= Seq::<(u8, Seq<char>, bool)>::empty());
    }
}

proof fn lemma_no_events_for(pairs: Seq<(Seq<char>, bool)>, map: Map<Seq<char>, bool>)
    requires
        forall|i: int| 0 <= i < pairs.len() ==> map.contains_key(#[trigger] pairs[i].0) && map[pairs[i].0] == pairs[i].1,
    ensures
        change_views(pairs, map) == Seq::<(u8, Seq<char>, bool)>::empty(),
        added_views(pairs, map) == Seq::<(u8, Seq<char>, bool)>::empty(),
    decreases pairs.len(),
{
    if pairs.len() > 0 {
        let rest = pairs.drop_last();
        assert forall|i: int| 0 <= i < rest.len() implies map.contains_key(#[trigger] rest[i].0) && map[rest[i].0] == rest[i].1 by {
            assert(rest[i] == pairs[i]);
        }
        lemma_no_events_for(rest, map);
        assert(pairs.last() == pairs[pairs.len() - 1]);
        assert(change_views(pairs, map) =~= Seq::<(u8, Seq<char>, bool)>::empty());
        assert(added_views(pairs, map) =~= Seq::<(u8, Seq<char>, bool)>::empty());
    }
}

/// What an adapter object said about its `Powered` property.
#[derive(Clone, Debug, PartialEq, Eq)]
pub enum AdapterPowered {
    Missing,
    /// The property held something else than a boolean; the conversion error's text.
    NotBoolean(String),
    Value(bool),
}

/// An error as (kind, message, diagnostic).
pub type ErrorView = (ErrorKind, Seq<char>, Option<Seq<char>>);

pub open spec fn error_view(error: CoreError) -> ErrorView {
    (error.spec_kind(), error.spec_message(), error.spec_diagnostic())
}

/// The adapters the objects describe, by handle, or the first object's error in order.
pub open spec fn adapters_of(objects: Seq<(String, AdapterPowered)>) -> Result<Map<Seq<char>, bool>, ErrorView>
    decreases objects.len(),
{
    if objects.len() == 0 {
        Ok(Map::empty())
    } else {
        match adapters_of(objects.drop_last()) {
            Err(error) => Err(error),
            Ok(map) => {
                let (path, powered) = objects.last();
                match powered {
                    AdapterPowered::Missing => Err(
                        (
                            ErrorKind::ProtocolError,
                            "BlueZ adapter is missing its Powered property"@,
                            None,
                        ),
                    ),
                    AdapterPowered::NotBoolean(detail) => Err(
                        (
                            ErrorKind::ProtocolError,
                            "BlueZ adapter Powered property is not a boolean"@,
                            Some(detail@),
                        ),
                    ),
                    AdapterPowered::Value(value) => if !crate::linux::handles::has_content(path@) {
                        Err((ErrorKind::InvalidInput, "AdapterHandle cannot be empty"@, None))
                    } else {
                        Ok(map.insert(path@, value))
                    },
                }
            },
        }
    }
}

/// The adapters of the objects that offer the adapter interface, given each object's path and
/// what it said about `Powered`, in increasing handle order.
pub fn adapters_from_objects(objects: &Vec<(String, AdapterPowered)>) -> (result: Result<Vec<BluetoothAdapter>, CoreError>)
    ensures
        match (adapters_of(objects@), result) {
            (Ok(map), Ok(adapters)) => by_handle(adapters@) && powered_map(adapters@) == map,
            (Err(expected), Err(error)) => error_view(error) == expected,
            _ => false,
        },
{
    let mut collected: Vec<BluetoothAdapter> = Vec::new();
    let mut i: usize = 0;
    while i < objects.len()
        invariant
            i <= objects@.len(),
            adapters_of(objects@.take(i as int)) == Ok::<Map<Seq<char>, bool>, ErrorView>(latest_powered(collected@)),
        decreases objects@.len() - i,
    {
        let (path, powered) = &objects[i];
        proof {
            assert(objects@.take(i + 1).drop_last() =~= objects@.take(i as int));
            assert(objects@.take(i + 1).last() == objects@[i as int]);
        }
        let value = match powered {
            AdapterPowered::Missing => {
                proof { lemma_adapters_of_prefix_error(objects@, i as int + 1); }
                return Err(
                    CoreError::new(
                        ErrorKind::ProtocolError,
                        "BlueZ adapter is missing its Powered property",
                    ),
                );
            },
            AdapterPowered::NotBoolean(detail) => {
                proof { lemma_adapters_of_prefix_error(objects@, i as int + 1); }
                return Err(
                    CoreError::from_parts(
                        ErrorKind::ProtocolError,
                        String::from_str("BlueZ adapter Powered property is not a boolean"),
                        Some(detail.clone()),
                    ),
                );
            },
            AdapterPowered::Value(value) => *value,
        };
        let handle = match AdapterHandle::new(path.as_str()) {
            Ok(handle) => handle,
            Err(error) => {
                proof { lemma_adapters_of_prefix_error(objects@, i as int + 1); }
                return Err(error);
            },
        };
        let ghost before = collected@;
        collected.push(BluetoothAdapter { handle, powered: value });
        proof {
            assert(collected@.drop_last() =~= before);
        }
        i += 1;
    }
    assert(objects@.take(objects@.len() as int) =~= objects@);
    let adapters = latest_by_handle(&collected);
    Ok(adapters)
}

/// Once a prefix of the objects fails, all of them fail the same way.
proof fn lemma_adapters_of_prefix_error(objects: Seq<(String, AdapterPowered)>, n: int)
    requires
        0 <= n <= objects.len(),
        adapters_of(objects.take(n)) is Err,
    ensures
        adapters_of(objects) == adapters_of(objects.take(n)),
    decreases objects.len() - n,
{
    if n < objects.len() {
        assert(objects.take(n + 1).drop_last() =~= objects.take(n));
        lemma_adapters_of_prefix_error(objects, n + 1);
    } else {
        assert(objects.take(n) =~= objects);
    }
}

/// A signal that can change the adapter list or an adapter's power: an adapter object's
/// adapter interface added or removed, or its `Powered` property changed.
pub open spec fn adapter_change(signal: BluezSignal) -> bool {
    match signal {
        BluezSignal::InterfacesAdded { path, interfaces } => adapter_object_path(path@) && lists(
            interfaces@,
            "org.bluez.Adapter1"@,
        ),
        BluezSignal::InterfacesRemoved { path, interfaces } => adapter_object_path(path@) && lists(
            interfaces@,
            "org.bluez.Adapter1"@,
        ),
        BluezSignal::PropertiesChanged { path, interface, changed, invalidated } => match path {
            Some(p) => adapter_object_path(p@) && interface@ == "org.bluez.Adapter1"@ && (lists(
                changed@,
                "Powered"@,
            ) || lists(invalidated@, "Powered"@)),
            None => false,
        },
        BluezSignal::Other => false,
    }
}

pub fn is_adapter_change_signal(signal: &BluezSignal) -> (relevant: bool)
    ensures
        relevant == adapter_change(*signal),
{
    match signal {
        BluezSignal::InterfacesAdded { path, interfaces } => is_adapter_object_path(path.as_str())
            && contains_text(interfaces, "org.bluez.Adapter1"),
        BluezSignal::InterfacesRemoved { path, interfaces } => is_adapter_object_path(
            path.as_str(),
        ) && contains_text(interfaces, "org.bluez.Adapter1"),
        BluezSignal::PropertiesChanged { path, interface, changed, invalidated } => match path {
            Some(p) => is_adapter_object_path(p.as_str()) && same_text(
                interface.as_str(),
                "org.bluez.Adapter1",
            ) && (contains_text(changed, "Powered") || contains_text(invalidated, "Powered")),
            None => false,
        },
        BluezSignal::Other => false,
    }
}

} // verus!
