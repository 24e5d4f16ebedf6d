//! The lease table: which address is bound to which hardware address, who
//! holds what, and how the table is filled at startup and listed for saving.

use vstd::prelude::*;
use std::collections::HashMap;
use vstd::std_specs::iter::IteratorSpec;
use crate::lease::{Lease, StaticAssignment, INFINITE_LEASE};

verus! {

broadcast use vstd::std_specs::hash::group_hash_axioms;

/// Whether `ip` is bound to `mac`.
pub open spec fn spec_holds(leases: Map<u32, Lease>, ip: u32, mac: [u8; 6]) -> bool {
    leases.contains_key(ip) && leases[ip].mac == mac
}

/// Whether `ip` is the lowest address bound to `mac`.
pub open spec fn spec_is_lowest(leases: Map<u32, Lease>, mac: [u8; 6], ip: u32) -> bool {
    spec_holds(leases, ip, mac) && forall|j: u32| spec_holds(leases, j, mac) ==> ip <= j
}

/// The address that `mac` holds: the lowest one, should it hold several.
pub open spec fn spec_current_lease(leases: Map<u32, Lease>, mac: [u8; 6]) -> Option<u32> {
    if exists|ip: u32| spec_is_lowest(leases, mac, ip) {
        Some(choose|ip: u32| spec_is_lowest(leases, mac, ip))
    } else {
        None
    }
}

/// `base` after each of `entries` was written over it, in turn.
pub open spec fn spec_overlay(base: Map<u32, Lease>, entries: Seq<(u32, Lease)>) -> Map<
    u32,
    Lease,
>
    decreases entries.len(),
{
    if entries.len() == 0 {
        base
    } else {
        spec_overlay(base, entries.drop_last()).insert(entries.last().0, entries.last().1)
    }
}

/// The lease that a static assignment made at `now` stands for.
pub open spec fn spec_static_lease(a: StaticAssignment, now: u128) -> Lease {
    Lease { mac: a.mac, expiry: (now + INFINITE_LEASE) as u128 }
}

/// `base` after each of `statics` was written over it, in turn.
pub open spec fn spec_overlay_statics(
    base: Map<u32, Lease>,
    statics: Seq<StaticAssignment>,
    now: u128,
) -> Map<u32, Lease>
    decreases statics.len(),
{
    if statics.len() == 0 {
        base
    } else {
        spec_overlay_statics(base, statics.drop_last(), now).insert(
            statics.last().ip,
            spec_static_lease(statics.last(), now),
        )
    }
}

/// The table at startup: what was saved, with the static assignments
/// written over it.
pub open spec fn spec_loaded(
    persisted: Seq<(u32, Lease)>,
    statics: Seq<StaticAssignment>,
    now: u128,
) -> Map<u32, Lease> {
    spec_overlay_statics(spec_overlay(Map::empty(), persisted), statics, now)
}

/// Whether `ip` is the highest bound address of the pool `[start, end)`.
pub open spec fn spec_is_top(leases: Map<u32, Lease>, start: u32, end: u32, ip: u32) -> bool {
    &&& leases.contains_key(ip)
    &&& start <= ip < end
    &&& forall|j: u32| leases.contains_key(j) && start <= j < end ==> j <= ip
}

/// Where the round of offers begins: at the highest bound address of the
/// pool, counted from `start`, or at 0 where none is bound.
pub open spec fn spec_start_cursor(leases: Map<u32, Lease>, start: u32, end: u32) -> u32 {
    if exists|ip: u32| spec_is_top(leases, start, end, ip) {
        ((choose|ip: u32| spec_is_top(leases, start, end, ip)) - start) as u32
    } else {
        0
    }
}

/// Whether `entries` name each binding of `leases`, and nothing else.
pub open spec fn spec_lists(entries: Seq<(u32, Lease)>, leases: Map<u32, Lease>) -> bool {
    &&& forall|i: int|
        0 <= i < entries.len() ==> leases.contains_key(#[trigger] entries[i].0)
            && leases[entries[i].0] == entries[i].1
    &&& forall|ip: u32| #[trigger]
        leases.contains_key(ip) ==> exists|i: int|
            0 <= i < entries.len() && #[trigger] entries[i].0 == ip
}

/// The lowest address bound to a hardware address is its current lease.
pub proof fn lemma_current_lease_some(leases: Map<u32, Lease>, mac: [u8; 6], ip: u32)
    requires
        spec_is_lowest(leases, mac, ip),
    ensures
        spec_current_lease(leases, mac) == Some(ip),
{
    let found = choose|ip: u32| spec_is_lowest(leases, mac, ip);
    assert(spec_is_lowest(leases, mac, found));
    assert(found <= ip && ip <= found);
}

/// A hardware address to which `ip` is bound has a current lease, at `ip`
/// or below.
pub proof fn lemma_holder_has_current_lease(leases: Map<u32, Lease>, mac: [u8; 6], ip: u32)
    requires
        spec_holds(leases, ip, mac),
    ensures
        spec_current_lease(leases, mac) is Some,
        spec_current_lease(leases, mac)->0 <= ip,
        spec_is_lowest(leases, mac, spec_current_lease(leases, mac)->0),
    decreases ip,
{
    if exists|j: u32| j < ip && spec_holds(leases, j, mac) {
        let j = choose|j: u32| j < ip && spec_holds(leases, j, mac);
        lemma_holder_has_current_lease(leases, mac, j);
    } else {
        assert(spec_is_lowest(leases, mac, ip));
        lemma_current_lease_some(leases, mac, ip);
    }
}

/// What the current lease is: the lowest address bound to the hardware
/// address, and nothing exactly where no address is bound to it.
pub proof fn lemma_current_lease(leases: Map<u32, Lease>, mac: [u8; 6])
    ensures
        match spec_current_lease(leases, mac) {
            Some(ip) => spec_is_lowest(leases, mac, ip),
            None => forall|ip: u32| !spec_holds(leases, ip, mac),
        },
{
    if spec_current_lease(leases, mac) is None {
        assert forall|ip: u32| !spec_holds(leases, ip, mac) by {
            if spec_holds(leases, ip, mac) {
                lemma_holder_has_current_lease(leases, mac, ip);
            }
        }
    }
}

/// Whether two hardware addresses are the same.
pub fn mac_eq(a: &[u8; 6], b: &[u8; 6]) -> (same: bool)
    ensures
        same == (*a == *b),
{
    let same = a[0] == b[0] && a[1] == b[1] && a[2] == b[2] && a[3] == b[3] && a[4] == b[4]
        && a[5] == b[5];
    proof {
        if same {
            assert(*a =~= *b);
        }
    }
    same
}

/// The address that `mac` holds in `leases`.
pub fn current_lease_in(leases: &HashMap<u32, Lease>, mac: &[u8; 6]) -> (found: Option<u32>)
    ensures
        found == spec_current_lease(leases@, *mac),
{
    let mut best: Option<u32> = None;
    for (ip, lease) in it: leases.iter()
        invariant
            match best {
                Some(b) => spec_holds(leases@, b, *mac) && forall|i: int|
                    0 <= i < it.index() && (#[trigger] it.seq()[i]).1.mac == *mac ==> b
                        <= *it.seq()[i].0,
                None => forall|i: int|
                    0 <= i < it.index() ==> (#[trigger] it.seq()[i]).1.mac != *mac,
            },
    {
        if mac_eq(&lease.mac, mac) {
            match best {
                Some(b) => {
                    if *ip < b {
                        best = Some(*ip);
                    }
                },
                None => {
                    best = Some(*ip);
                },
            }
        }
    }
    proof {
        match best {
            Some(b) => {
                assert(spec_is_lowest(leases@, *mac, b));
                lemma_current_lease_some(leases@, *mac, b);
            },
            None => {
                assert(forall|ip: u32| !spec_holds(leases@, ip, *mac));
            },
        }
    }
    best
}

/// The bindings of `leases`, each one once, in no particular order.
pub fn lease_entries(leases: &HashMap<u32, Lease>) -> (entries: Vec<(u32, Lease)>)
    ensures
        spec_lists(entries@, leases@),
        entries.len() == leases@.len(),
        forall|i: int, j: int|
            0 <= i < j < entries.len() ==> (#[trigger] entries[i]).0 != (#[trigger] entries[j]).0,
{
    let mut entries: Vec<(u32, Lease)> = Vec::new();
    let ghost all = leases.iter().remaining();
    for (ip, lease) in it: leases.iter()
        invariant
            it.seq() == all,
            all.no_duplicates(),
            entries.len() == it.index(),
            it.seq().len() == leases@.len(),
            forall|i: int|
                0 <= i < it.index() ==> (#[trigger] entries[i]).0 == *it.seq()[i].0 && entries[i].1
                    == *it.seq()[i].1,
            forall|i: int|
                0 <= i < it.seq().len() ==> leases@.contains_key(*(#[trigger] it.seq()[i]).0)
                    && leases@[*it.seq()[i].0] == *it.seq()[i].1,
            forall|ip: u32| #[trigger]
                leases@.contains_key(ip) ==> it.seq().contains((&ip, &leases@[ip])),
    {
        entries.push((*ip, *lease));
    }
    proof {
        assert forall|ip: u32| #[trigger] leases@.contains_key(ip) implies exists|i: int|
            0 <= i < entries.len() && #[trigger] entries[i].0 == ip by {
            let i = choose|i: int| 0 <= i < all.len() && all[i] == (&ip, &leases@[ip]);
            assert(entries[i].0 == ip);
        }
        assert forall|i: int, j: int| 0 <= i < j < entries.len() implies (#[trigger] entries[i]).0
            != (#[trigger] entries[j]).0 by {
            if entries[i].0 == entries[j].0 {
                assert(*all[i].1 == leases@[*all[i].0]);
                assert(*all[j].1 == leases@[*all[j].0]);
                assert(all[i] == all[j]);
            }
        }
    }
    entries
}

/// The table at startup and where the round of offers begins.
///
/// `persisted` is what was saved last, `statics` the static assignments;
/// each static assignment is written over what the table holds at its
/// address, and lasts `INFINITE_LEASE` from `now`.
pub fn load_leases(
    persisted: &Vec<(u32, Lease)>,
    statics: &Vec<StaticAssignment>,
    start: u32,
    end: u32,
    now: u128,
) -> (loaded: (HashMap<u32, Lease>, u32))
    requires
        now + INFINITE_LEASE <= u128::MAX,
    ensures
        loaded.0@ == spec_loaded(persisted@, statics@, now),
        loaded.1 == spec_start_cursor(loaded.0@, start, end),
{
    let mut leases: HashMap<u32, Lease> = HashMap::new();
    let mut i: usize = 0;
    assert(persisted@.take(0) =~= Seq::<(u32, Lease)>::empty());
    while i < persisted.len()
        invariant
            i <= persisted.len(),
            leases@ == spec_overlay(Map::empty(), persisted@.take(i as int)),
        decreases persisted.len() - i,
    {
        let (ip, lease) = persisted[i];
        leases.insert(ip, lease);
        proof {
            let done = persisted@.take(i + 1);
            assert(done.drop_last() =~= persisted@.take(i as int));
            assert(done.last() == persisted[i as int]);
        }
        i += 1;
    }
    assert(persisted@.take(persisted.len() as int) =~= persisted@);
    let mut j: usize = 0;
    assert(statics@.take(0) =~= Seq::<StaticAssignment>::empty());
    while j < statics.len()
        invariant
            j <= statics.len(),
            now + INFINITE_LEASE <= u128::MAX,
            leases@ == spec_overlay_statics(
                spec_overlay(Map::empty(), persisted@),
                statics@.take(j as int),
                now,
            ),
        decreases statics.len() - j,
    {
        let assignment = statics[j];
        leases.insert(assignment.ip, Lease::new(assignment.mac, now + INFINITE_LEASE));
        proof {
            let done = statics@.take(j + 1);
            assert(done.drop_last() =~= statics@.take(j as int));
            assert(done.last() == statics[j as int]);
        }
        j += 1;
    }
    assert(statics@.take(statics.len() as int) =~= statics@);
    let cursor = start_cursor(&leases, start, end);
    (leases, cursor)
}

/// Where the round of offers begins for a table `leases` and the pool
/// `[start, end)`.
pub fn start_cursor(leases: &HashMap<u32, Lease>, start: u32, end: u32) -> (cursor: u32)
    ensures
        cursor == spec_start_cursor(leases@, start, end),
{
    let mut top: Option<u32> = None;
    for (ip, lease) in it: leases.iter()
        invariant
            match top {
                Some(t) => leases@.contains_key(t) && start <= t < end && forall|i: int|
                    0 <= i < it.index() && start <= *(#[trigger] it.seq()[i]).0 < end
                        ==> *it.seq()[i].0 <= t,
                None => forall|i: int|
                    0 <= i < it.index() ==> !(start <= *(#[trigger] it.seq()[i]).0 < end),
            },
    {
        if start <= *ip && *ip < end {
            match top {
                Some(t) => {
                    if t < *ip {
                        top = Some(*ip);
                    }
                },
                None => {
                    top = Some(*ip);
                },
            }
        }
    }
    match top {
        Some(t) => {
            proof {
                assert(spec_is_top(leases@, start, end, t));
                let found = choose|ip: u32| spec_is_top(leases@, start, end, ip);
                assert(found <= t && t <= found);
            }
            t - start
        },
        None => {
            proof {
                assert(forall|ip: u32| !spec_is_top(leases@, start, end, ip));
            }
            0
        },
    }
}

} // verus!
