//! What holds of the server whatever the messages are: where offers lie,
//! when an address is available, how long a binding stays, and what a saved
//! lease table gives back.

use vstd::prelude::*;
use vstd::arithmetic::div_mod::{
    lemma_add_mod_noop_right, lemma_mod_bound, lemma_mod_self_0, lemma_small_mod,
};
use crate::config::Config;
use crate::dhcpd::{
    spec_advance, spec_allocate, spec_available, spec_candidate, spec_expiry, spec_passed_over,
    spec_pool_size, spec_requested, spec_scan, spec_started, spec_step, Decision, DhcpdView,
    Step,
};
use crate::lease::{Lease, StaticAssignment};
use crate::options::MessageType;
use crate::packet::{spec_message_type, PacketView};
use crate::store::{
    lemma_current_lease, lemma_current_lease_some, spec_current_lease, spec_holds,
    spec_is_lowest, spec_lists, spec_loaded, spec_overlay, spec_overlay_statics,
    spec_static_lease,
};

verus! {

/// Whether `p` is a release or a decline.
pub open spec fn spec_gives_up(p: PacketView) -> bool {
    match spec_message_type(p.options) {
        Ok(MessageType::Release) => true,
        Ok(MessageType::Decline) => true,
        _ => false,
    }
}

/// Whether `p` is a discover.
pub open spec fn spec_is_discover(p: PacketView) -> bool {
    spec_message_type(p.options) matches Ok(MessageType::Discover)
}

/// Whether the place of the last offer lies in the pool.
pub open spec fn spec_cursor_in_pool(s: DhcpdView) -> bool {
    spec_pool_size(s) > 0 ==> s.last_lease < spec_pool_size(s)
}

/// A scan changes nothing but the place of the last offer; the address it
/// finds is available and is where that place then is, inside the pool.
pub proof fn lemma_scan(s: DhcpdView, mac: [u8; 6], now: u128, left: nat)
    ensures
        spec_scan(s, mac, now, left).0 == (DhcpdView {
            last_lease: spec_scan(s, mac, now, left).0.last_lease,
            ..s
        }),
        spec_scan(s, mac, now, left).1 matches Some(ip) ==> spec_available(s, mac, ip, now) && ip
            == spec_candidate(spec_scan(s, mac, now, left).0) && spec_scan(
            s,
            mac,
            now,
            left,
        ).0.last_lease < spec_pool_size(s),
        spec_cursor_in_pool(s) && spec_scan(s, mac, now, left).1 is None ==> spec_cursor_in_pool(
            spec_scan(s, mac, now, left).0,
        ),
    decreases left,
{
    if left > 0 {
        let t = spec_advance(s);
        if spec_available(t, mac, spec_candidate(t), now) {
        } else {
            lemma_scan(t, mac, now, (left - 1) as nat);
        }
    }
}

/// Every address that the allocator gives out lies in the pool.
pub proof fn law_offer_in_pool(s: DhcpdView, mac: [u8; 6], now: u128)
    ensures
        spec_allocate(s, mac, now).1 matches Some(ip) ==> s.start <= ip < s.end,
{
    lemma_scan(s, mac, now, spec_pool_size(s) as nat);
}

/// An address of the pool that is bound to nobody is available to
/// everybody.
pub proof fn law_unbound_is_available(s: DhcpdView, mac: [u8; 6], ip: u32, now: u128)
    requires
        s.start <= ip < s.end,
        !s.leases.contains_key(ip),
    ensures
        spec_available(s, mac, ip, now),
{
}

/// An address whose lease has not run out is available to nobody but its
/// holder.
pub proof fn law_bound_is_unavailable(s: DhcpdView, mac: [u8; 6], ip: u32, now: u128)
    requires
        s.leases.contains_key(ip),
        s.leases[ip].mac != mac,
        now <= s.leases[ip].expiry,
    ensures
        !spec_available(s, mac, ip, now),
{
}

/// An address of the pool whose lease has run out is available to
/// everybody, whoever held it.
pub proof fn law_expired_is_available(s: DhcpdView, mac: [u8; 6], ip: u32, now: u128)
    requires
        s.start <= ip < s.end,
        s.leases.contains_key(ip),
        now > s.leases[ip].expiry,
    ensures
        spec_available(s, mac, ip, now),
{
}

/// Whether `p` is a request.
pub open spec fn spec_is_request(p: PacketView) -> bool {
    spec_message_type(p.options) matches Ok(MessageType::Request)
}

/// An address that a request was granted stays with the client for the
/// lease time: until then it is bound to the client, it is available to
/// nobody else, and a request of another hardware address for it is
/// refused and changes nothing.
pub proof fn law_granted_lease_holds(
    s: DhcpdView,
    p: PacketView,
    now: u128,
    ip: u32,
    q: PacketView,
    later: u128,
)
    requires
        spec_expiry(s, now) <= u128::MAX,
        spec_step(s, p, now).decision == Decision::Ack(ip),
        spec_step(s, p, now).persist,
        q.chaddr != p.chaddr,
        later <= spec_expiry(s, now),
    ensures
        spec_step(s, p, now).next.leases.contains_key(ip),
        spec_step(s, p, now).next.leases[ip] == (Lease {
            mac: p.chaddr,
            expiry: spec_expiry(s, now) as u128,
        }),
        !spec_available(spec_step(s, p, now).next, q.chaddr, ip, later),
        spec_is_request(q) && spec_requested(q) == ip && !spec_passed_over(
            spec_step(s, p, now).next,
            q,
        ) && spec_current_lease(spec_step(s, p, now).next.leases, q.chaddr) is None ==> spec_step(
            spec_step(s, p, now).next,
            q,
            later,
        ) == (Step { next: spec_step(s, p, now).next, decision: Decision::Nak, persist: false }),
{
    lemma_current_lease(s.leases, p.chaddr);
    lemma_scan(s, p.chaddr, now, spec_pool_size(s) as nat);
}

/// While the lease of an address has not run out, no message of another
/// hardware address gets the address offered or acknowledged, and none
/// changes the lease.
pub proof fn law_bound_address_stays(s: DhcpdView, p: PacketView, now: u128, ip: u32)
    requires
        s.leases.contains_key(ip),
        s.leases[ip].mac != p.chaddr,
        now <= s.leases[ip].expiry,
    ensures
        spec_step(s, p, now).decision != Decision::Offer(ip),
        spec_step(s, p, now).decision != Decision::Ack(ip),
        spec_step(s, p, now).next.leases.contains_key(ip),
        spec_step(s, p, now).next.leases[ip] == s.leases[ip],
{
    lemma_current_lease(s.leases, p.chaddr);
    lemma_scan(s, p.chaddr, now, spec_pool_size(s) as nat);
}

/// The address a hardware address holds stays the one it holds, as long as
/// its lease has not run out and the hardware address itself does not
/// release or decline it.
pub proof fn law_current_lease_stays(s: DhcpdView, p: PacketView, now: u128, mac: [u8; 6], ip: u32)
    requires
        spec_current_lease(s.leases, mac) == Some(ip),
        p.chaddr == mac ==> !spec_gives_up(p),
        p.chaddr != mac ==> now <= s.leases[ip].expiry,
    ensures
        spec_current_lease(spec_step(s, p, now).next.leases, mac) == Some(ip),
        spec_step(s, p, now).next.leases[ip] == s.leases[ip],
{
    let next = spec_step(s, p, now).next;
    lemma_current_lease(s.leases, mac);
    lemma_current_lease(s.leases, p.chaddr);
    lemma_scan(s, p.chaddr, now, spec_pool_size(s) as nat);
    assert(spec_holds(next.leases, ip, mac));
    assert forall|j: u32| spec_holds(next.leases, j, mac) implies ip <= j by {
        assert(spec_holds(s.leases, j, mac));
    }
    assert(spec_is_lowest(next.leases, mac, ip));
    lemma_current_lease_some(next.leases, mac, ip);
}

/// The state of a server after the messages `events`, each with the time
/// it came in at, were handled in turn.
pub open spec fn spec_run(s: DhcpdView, events: Seq<(PacketView, u128)>) -> DhcpdView
    decreases events.len(),
{
    if events.len() == 0 {
        s
    } else {
        spec_step(spec_run(s, events.drop_last()), events.last().0, events.last().1).next
    }
}

/// Whatever messages come in, a hardware address keeps the address it
/// holds, under the same lease: as long as it does not release or decline
/// it itself, and no message of another hardware address comes in after
/// the lease has run out.
pub proof fn law_current_lease_stays_always(
    s: DhcpdView,
    events: Seq<(PacketView, u128)>,
    mac: [u8; 6],
    ip: u32,
)
    requires
        spec_current_lease(s.leases, mac) == Some(ip),
        forall|i: int|
            0 <= i < events.len() && (#[trigger] events[i]).0.chaddr == mac ==> !spec_gives_up(
                events[i].0,
            ),
        forall|i: int|
            0 <= i < events.len() && (#[trigger] events[i]).0.chaddr != mac ==> events[i].1
                <= s.leases[ip].expiry,
    ensures
        spec_current_lease(spec_run(s, events).leases, mac) == Some(ip),
        spec_run(s, events).leases[ip] == s.leases[ip],
    decreases events.len(),
{
    if events.len() > 0 {
        let before = events.drop_last();
        assert forall|i: int| 0 <= i < before.len() implies (#[trigger] before[i])
            == events[i] by {}
        law_current_lease_stays_always(s, before, mac, ip);
        let last = events[events.len() - 1];
        law_current_lease_stays(spec_run(s, before), last.0, last.1, mac, ip);
    }
}

/// A message changes nothing of a server but its lease table and the place
/// of its last offer, and the lease table is to be saved exactly when it
/// changed.
pub proof fn law_step_changes(s: DhcpdView, p: PacketView, now: u128)
    ensures
        spec_step(s, p, now).next == (DhcpdView {
            leases: spec_step(s, p, now).next.leases,
            last_lease: spec_step(s, p, now).next.last_lease,
            ..s
        }),
        spec_step(s, p, now).persist == (spec_step(s, p, now).next.leases != s.leases),
{
    let step = spec_step(s, p, now);
    lemma_current_lease(s.leases, p.chaddr);
    lemma_scan(s, p.chaddr, now, spec_pool_size(s) as nat);
    if step.persist {
        match spec_current_lease(s.leases, p.chaddr) {
            Some(ip) => {
                assert(!step.next.leases.contains_key(ip));
            },
            None => {
                let ip = spec_requested(p);
                assert(spec_holds(step.next.leases, ip, p.chaddr));
                assert(!spec_holds(s.leases, ip, p.chaddr));
            },
        }
    }
}

/// A server begins with the place of the last offer in the pool.
pub proof fn law_cursor_starts_in_pool(
    conf: Config,
    persisted: Seq<(u32, Lease)>,
    statics: Seq<StaticAssignment>,
    secs: u64,
    now: u128,
)
    ensures
        spec_cursor_in_pool(spec_started(conf, persisted, statics, secs, now)),
{
}

/// The place of the last offer stays in the pool.
pub proof fn law_cursor_stays_in_pool(s: DhcpdView, p: PacketView, now: u128)
    requires
        spec_cursor_in_pool(s),
    ensures
        spec_cursor_in_pool(spec_step(s, p, now).next),
{
    lemma_scan(s, p.chaddr, now, spec_pool_size(s) as nat);
}

/// What a table holds after entries were written over it: under an address
/// that no entry names, what it held before; under any other, what the
/// last entry of that address says.
pub proof fn lemma_overlay(base: Map<u32, Lease>, entries: Seq<(u32, Lease)>, ip: u32)
    ensures
        (forall|i: int| 0 <= i < entries.len() ==> (#[trigger] entries[i]).0 != ip) ==> (
        spec_overlay(base, entries).contains_key(ip) <==> base.contains_key(ip)) && spec_overlay(
            base,
            entries,
        )[ip] == base[ip],
        (exists|i: int| 0 <= i < entries.len() && (#[trigger] entries[i]).0 == ip) ==> spec_overlay(
            base,
            entries,
        ).contains_key(ip) && exists|i: int|
            0 <= i < entries.len() && (#[trigger] entries[i]).0 == ip && spec_overlay(
                base,
                entries,
            )[ip] == entries[i].1,
    decreases entries.len(),
{
    if entries.len() > 0 {
        let rest = entries.drop_last();
        let last = entries.len() - 1;
        lemma_overlay(base, rest, ip);
        assert(forall|i: int| 0 <= i < rest.len() ==> rest[i] == entries[i]);
        if entries[last].0 == ip {
        } else if exists|i: int| 0 <= i < entries.len() && (#[trigger] entries[i]).0 == ip {
            let i = choose|i: int| 0 <= i < entries.len() && (#[trigger] entries[i]).0 == ip;
            assert(rest[i].0 == ip);
            let j = choose|j: int|
                0 <= j < rest.len() && (#[trigger] rest[j]).0 == ip && spec_overlay(base, rest)[ip]
                    == rest[j].1;
            assert(entries[j].0 == ip);
        } else {
            assert forall|i: int| 0 <= i < rest.len() implies (#[trigger] rest[i]).0 != ip by {
                assert(entries[i].0 != ip);
            }
        }
    }
}

/// A lease table that is listed for saving and loaded again, with no
/// static assignments, is the same table: the same addresses, holders
/// and expiries.
pub proof fn law_saved_table_loads_back(leases: Map<u32, Lease>, entries: Seq<(u32, Lease)>, now: u128)
    requires
        spec_lists(entries, leases),
    ensures
        spec_loaded(entries, Seq::empty(), now) == leases,
{
    let loaded = spec_overlay(Map::empty(), entries);
    assert forall|ip: u32| #[trigger]
        loaded.contains_key(ip) == leases.contains_key(ip) && (leases.contains_key(ip)
            ==> loaded[ip] == leases[ip]) by {
        lemma_overlay(Map::empty(), entries, ip);
        if leases.contains_key(ip) {
            let i = choose|i: int| 0 <= i < entries.len() && #[trigger] entries[i].0 == ip;
            let j = choose|j: int|
                0 <= j < entries.len() && (#[trigger] entries[j]).0 == ip && loaded[ip]
                    == entries[j].1;
            assert(leases.contains_key(entries[j].0));
        } else if loaded.contains_key(ip) {
            let j = choose|j: int| 0 <= j < entries.len() && (#[trigger] entries[j]).0 == ip;
            assert(leases.contains_key(entries[j].0));
        }
    }
    assert(loaded =~= leases);
}

/// A static assignment that no later one names the address of is in the
/// table at startup.
pub proof fn lemma_static_is_loaded(
    base: Map<u32, Lease>,
    statics: Seq<StaticAssignment>,
    now: u128,
    at: int,
)
    requires
        0 <= at < statics.len(),
        forall|j: int| at < j < statics.len() ==> (#[trigger] statics[j]).ip != statics[at].ip,
    ensures
        spec_overlay_statics(base, statics, now).contains_key(statics[at].ip),
        spec_overlay_statics(base, statics, now)[statics[at].ip] == spec_static_lease(
            statics[at],
            now,
        ),
    decreases statics.len(),
{
    if at + 1 < statics.len() {
        let rest = statics.drop_last();
        assert(statics[statics.len() - 1].ip != statics[at].ip);
        assert forall|j: int| at < j < rest.len() implies (#[trigger] rest[j]).ip
            != rest[at].ip by {
            assert(statics[j].ip != statics[at].ip);
        }
        lemma_static_is_loaded(base, rest, now, at);
    }
}

/// At startup a static assignment binds its address to its hardware
/// address for `INFINITE_LEASE`, and the hardware address resolves to that
/// address: where no later line of the file names the same address, and
/// the hardware address is bound to no lower address.
pub proof fn law_static_assignment_resolves(
    persisted: Seq<(u32, Lease)>,
    statics: Seq<StaticAssignment>,
    now: u128,
    at: int,
)
    requires
        0 <= at < statics.len(),
        forall|j: int| at < j < statics.len() ==> (#[trigger] statics[j]).ip != statics[at].ip,
        forall|ip: u32|
            ip < statics[at].ip ==> !spec_holds(
                spec_loaded(persisted, statics, now),
                ip,
                statics[at].mac,
            ),
    ensures
        spec_loaded(persisted, statics, now).contains_key(statics[at].ip),
        spec_loaded(persisted, statics, now)[statics[at].ip] == spec_static_lease(
            statics[at],
            now,
        ),
        spec_current_lease(spec_loaded(persisted, statics, now), statics[at].mac) == Some(
            statics[at].ip,
        ),
{
    let loaded = spec_loaded(persisted, statics, now);
    lemma_static_is_loaded(spec_overlay(Map::empty(), persisted), statics, now, at);
    assert(spec_is_lowest(loaded, statics[at].mac, statics[at].ip));
    lemma_current_lease_some(loaded, statics[at].mac, statics[at].ip);
}

/// A scan that finds nothing has met no available address: not at any of
/// the places it went through.
pub proof fn lemma_scan_none(s: DhcpdView, mac: [u8; 6], now: u128, left: nat)
    requires
        spec_pool_size(s) > 0,
    ensures
        spec_scan(s, mac, now, left).1 is None ==> forall|k: int|
            1 <= k <= left ==> !spec_available(
                s,
                mac,
                #[trigger] spec_place(s, k),
                now,
            ),
    decreases left,
{
    if left > 0 {
        let n = spec_pool_size(s);
        let t = spec_advance(s);
        lemma_mod_bound(s.last_lease + 1, n);
        assert(t.last_lease == (s.last_lease + 1) % n);
        assert(spec_candidate(t) == spec_place(s, 1));
        if spec_scan(s, mac, now, left).1 is None {
            lemma_scan_none(t, mac, now, (left - 1) as nat);
            assert forall|k: int| 1 <= k <= left implies !spec_available(
                s,
                mac,
                #[trigger] spec_place(s, k),
                now,
            ) by {
                if k > 1 {
                    lemma_add_mod_noop_right(k - 1, s.last_lease + 1, n);
                    assert((t.last_lease + (k - 1)) % n == (s.last_lease + k) % n);
                    assert(spec_place(t, k - 1) == spec_place(s, k));
                    assert(!spec_available(t, mac, spec_place(t, k - 1), now));
                }
            }
        }
    }
}

/// The address `k` places after the last offer, round the pool.
pub open spec fn spec_place(s: DhcpdView, k: int) -> u32 {
    (s.start + (s.last_lease + k) % spec_pool_size(s)) as u32
}

/// The allocator gives nothing exactly when the pool is used up: when no
/// address is available to the hardware address that asks.
pub proof fn law_nothing_only_when_used_up(s: DhcpdView, mac: [u8; 6], now: u128)
    ensures
        spec_allocate(s, mac, now).1 is None <==> forall|ip: u32|
            !spec_available(s, mac, ip, now),
{
    let n = spec_pool_size(s);
    lemma_scan(s, mac, now, n as nat);
    if spec_allocate(s, mac, now).1 is None {
        assert forall|ip: u32| !spec_available(s, mac, ip, now) by {
            if spec_available(s, mac, ip, now) {
                let at = ip - s.start;
                let k = (at - s.last_lease - 1) % n + 1;
                lemma_mod_bound(at - s.last_lease - 1, n);
                lemma_add_mod_noop_right(s.last_lease + 1, at - s.last_lease - 1, n);
                lemma_small_mod(at as nat, n as nat);
                assert((s.last_lease + k) % n == at);
                assert(spec_place(s, k) == ip);
                lemma_scan_none(s, mac, now, n as nat);
            }
        }
    }
}

/// Whether, of the addresses available to `mac` at `later`, there is none
/// but the one that the allocator gives `mac` at `first`, and that one is
/// among them.
pub open spec fn spec_one_choice(s: DhcpdView, mac: [u8; 6], first: u128, later: u128) -> bool {
    &&& forall|ip: u32| #[trigger]
        spec_available(s, mac, ip, later) ==> spec_allocate(s, mac, first).1 == Some(ip)
    &&& spec_allocate(s, mac, first).1 matches Some(ip) ==> spec_available(s, mac, ip, later)
}

/// Two discovers in a row from one hardware address get the same answer:
/// where the hardware address holds an address, and where it holds none
/// and has no choice of addresses.
pub proof fn law_discover_twice(
    s: DhcpdView,
    once: PacketView,
    twice: PacketView,
    first: u128,
    later: u128,
)
    requires
        spec_is_discover(once),
        spec_is_discover(twice),
        once.chaddr == twice.chaddr,
        spec_current_lease(s.leases, once.chaddr) is None ==> spec_one_choice(
            s,
            once.chaddr,
            first,
            later,
        ),
    ensures
        spec_step(spec_step(s, once, first).next, twice, later).decision == spec_step(
            s,
            once,
            first,
        ).decision,
{
    let mac = once.chaddr;
    let n = spec_pool_size(s);
    lemma_scan(s, mac, first, n as nat);
    let s1 = spec_step(s, once, first).next;
    if spec_current_lease(s.leases, mac) is None {
        let found = spec_allocate(s, mac, first).1;
        lemma_scan(s1, mac, later, n as nat);
        let again = spec_allocate(s1, mac, later).1;
        match again {
            Some(ip) => {
                assert(spec_available(s, mac, ip, later));
            },
            None => {
                if found is Some {
                    lemma_scan_none(s1, mac, later, n as nat);
                    lemma_mod_self_0(n);
                    lemma_add_mod_noop_right(s1.last_lease as int, n, n);
                    lemma_small_mod(s1.last_lease as nat, n as nat);
                    assert(spec_place(s1, n) == found->0);
                }
            },
        }
    }
}

} // verus!
