//! Properties of the library that span several operations.

use crate::addr::PeerAddr;
use crate::bench::{bench_emit, bench_route_step, BenchView};
use crate::definitions::{
    MSG_WORLD, SR_CALLBACK_UPDATE, SR_CLOSED, SR_FUNCREP, SR_PROPERTYREP, SR_RPC,
    COND_AUTONOMOUSONLY, COND_CUSTOM, COND_INITIALONLY, COND_INITIALOROWNER, COND_NONE,
    COND_OWNERONLY, COND_SIMULATEDONLY, COND_SIMULATEDORPHYSICS, COND_SKIP, COND_SKIPOWNER,
};
use crate::model::{
    add_connection_step, broadcast_sends, broadcast_step, clients_not_at, close_stale_step,
    closed_connection_step, emit, fresh_clients, guid_index, guids_unique, has_addr, has_guid,
    has_object, is_stale, joined_msg, new_client, object_ids_unique, object_index,
    objects_of_live_owners, owner_is_stale, property_msg, propertystate_step,
    register_property_step, registered_property, send, sends_to_others, userstate_step,
    EffectView, ServerView, lemma_first_addr_exists, objectstate_step, register_object_step,
    registered_object, sender_id, spawned_msg, close_notices, closed_msg, record, route_step,
    sends_to_all, sends_to_sender_and_others, RequestLog,
};
use crate::objects::{ids_of_kind, ClientView, ObjectKey, ObjectView};
use crate::responder::{addrs_except, recipients};
use crate::definitions::Relevancy;
use crate::wire::{spec_uid_of_port, u32_at};
use crate::world::{client_key, decimal, digit_char};
use vstd::prelude::*;

verus! {

/// A property-state request for a property just registered answers with
/// the very announcement the registration broadcast: a read gives back what
/// the registration wrote.
pub proof fn law_property_state_returns_registration(
    s: ServerView,
    msg: Seq<u8>,
    addr: PeerAddr,
    new_id: u32,
    req: Seq<u8>,
    asker: PeerAddr,
)
    requires
        object_ids_unique(s.objects),
        !has_object(s.objects, new_id),
        msg.len() >= 12,
        req.len() >= 8,
        u32_at(req, 4) == new_id,
    ensures
        ({
            let s1 = register_property_step(s, msg, addr, new_id);
            let o = registered_property(msg, new_id);
            &&& has_object(s1.objects, new_id)
            &&& object_ids_unique(s1.objects)
            &&& propertystate_step(s1, req, asker) == emit(s1, seq![send(property_msg(o), asker)])
        }),
{
    let s1 = register_property_step(s, msg, addr, new_id);
    let o = registered_property(msg, new_id);
    let last = s.objects.len() as int;
    assert(s1.objects == s.objects.push(o));
    assert(s1.objects[last].id == new_id);
    assert(has_object(s1.objects, new_id));
    let k = object_index(s1.objects, new_id);
    if k != last {
        assert(s.objects[k].id == new_id);
        assert(false);
    }
}

/// An object-state request for an object just registered answers with its
/// parent, no requested id, its id and the data it was registered with.
pub proof fn law_object_state_returns_registration(
    s: ServerView,
    msg: Seq<u8>,
    addr: PeerAddr,
    new_id: u32,
    req: Seq<u8>,
    asker: PeerAddr,
)
    requires
        object_ids_unique(s.objects),
        !has_object(s.objects, new_id),
        has_addr(s.connections, addr),
        msg.len() >= 8,
        req.len() >= 8,
        u32_at(req, 4) == new_id,
    ensures
        ({
            let s1 = register_object_step(s, msg, addr, new_id);
            let o = registered_object(s.connections, msg, addr, new_id);
            &&& has_object(s1.objects, new_id)
            &&& object_ids_unique(s1.objects)
            &&& o.client_id == o.parent_id
            &&& o.bytes == msg.subrange(8, msg.len() as int)
            &&& u32_at(msg, 0) == 0 ==> o.client_id == sender_id(s.connections, addr)
            &&& objectstate_step(s1, req, asker) == emit(
                s1,
                seq![send(spawned_msg(o.parent_id, 0, new_id, o.bytes), asker)],
            )
        }),
{
    let s1 = register_object_step(s, msg, addr, new_id);
    let o = registered_object(s.connections, msg, addr, new_id);
    lemma_first_addr_exists(s.connections, addr);
    let last = s.objects.len() as int;
    assert(s1.objects == s.objects.push(o));
    assert(s1.objects[last].id == new_id);
    assert(has_object(s1.objects, new_id));
    let k = object_index(s1.objects, new_id);
    if k != last {
        assert(s.objects[k].id == new_id);
        assert(false);
    }
}

/// A state request for a client that has just connected answers, twice, with
/// the client's id and the settings it connected with.
pub proof fn law_userstate_returns_connection(
    s: ServerView,
    settings: Seq<u8>,
    addr: PeerAddr,
    now: u64,
    req: Seq<u8>,
    asker: PeerAddr,
)
    requires
        guids_unique(s.connections),
        req.len() >= 8,
        u32_at(req, 4) == spec_uid_of_port(addr.spec_port()),
    ensures
        ({
            let s1 = add_connection_step(s, settings, addr, now);
            let uid = spec_uid_of_port(addr.spec_port());
            let out = joined_msg(uid, settings);
            &&& guids_unique(s1.connections)
            &&& has_guid(s1.connections, uid)
            &&& userstate_step(s1, req, asker) == emit(s1, seq![send(out, asker), send(out, asker)])
        }),
{
    let s1 = add_connection_step(s, settings, addr, now);
    let newc = new_client(addr, settings, now);
    let uid = newc.guid;
    let cs = s.connections;
    let cs1 = s1.connections;
    if has_guid(cs, uid) {
        let i = guid_index(cs, uid);
        assert(cs1 == cs.update(i, newc));
        assert(cs1[i].guid == uid);
        let k = guid_index(cs1, uid);
        if k != i {
            assert(cs[k].guid == uid);
            assert(false);
        }
    } else {
        let last = cs.len() as int;
        assert(cs1 == cs.push(newc));
        assert(cs1[last].guid == uid);
        let k = guid_index(cs1, uid);
        if k != last {
            assert(cs[k].guid == uid);
            assert(false);
        }
    }
}

/// The clients not at `a` are exactly those of `cs` whose address is not
/// `a`, none of them at `a`.
pub proof fn lemma_clients_not_at(cs: Seq<ClientView>, a: PeerAddr)
    ensures
        forall|j: int|
            0 <= j < clients_not_at(cs, a).len() ==> (#[trigger] clients_not_at(cs, a)[j]).addr != a,
        forall|i: int|
            0 <= i < cs.len() && cs[i].addr != a ==> clients_not_at(cs, a).contains(#[trigger] cs[i]),
    decreases cs.len(),
{
    if cs.len() > 0 {
        let p = cs.drop_last();
        lemma_clients_not_at(p, a);
        assert forall|i: int| 0 <= i < cs.len() && cs[i].addr != a implies clients_not_at(
            cs,
            a,
        ).contains(#[trigger] cs[i]) by {
            if i < cs.len() - 1 {
                assert(p[i] == cs[i]);
                let r = clients_not_at(p, a);
                let w = choose|w: int| 0 <= w < r.len() && r[w] == p[i];
                if cs.last().addr != a {
                    assert(clients_not_at(cs, a)[w] == cs[i]);
                }
            } else {
                assert(clients_not_at(cs, a).last() == cs[i]);
            }
        }
    }
}

/// After a close request from `a`, no client is at `a`, and every client
/// that was elsewhere is still connected.
pub proof fn law_close_drops_sender(s: ServerView, a: PeerAddr)
    ensures
        ({
            let s1 = closed_connection_step(s, a);
            &&& !has_addr(s1.connections, a)
            &&& forall|i: int|
                0 <= i < s.connections.len() && s.connections[i].addr != a ==> s1.connections.contains(
                    #[trigger] s.connections[i],
                )
            &&& s1.objects == s.objects
        }),
{
    lemma_clients_not_at(s.connections, a);
    let s1 = closed_connection_step(s, a);
    if has_addr(s1.connections, a) {
        let j = choose|j: int| 0 <= j < s1.connections.len() && s1.connections[j].addr == a;
        assert(clients_not_at(s.connections, a)[j].addr != a);
    }
}

/// The fresh clients are exactly the clients of `cs` not stale at `now`.
pub proof fn lemma_fresh_clients(cs: Seq<ClientView>, now: u64)
    ensures
        forall|j: int|
            0 <= j < fresh_clients(cs, now).len() ==> !is_stale(#[trigger] fresh_clients(cs, now)[j], now),
        forall|i: int|
            0 <= i < cs.len() && !is_stale(cs[i], now) ==> fresh_clients(cs, now).contains(#[trigger] cs[i]),
    decreases cs.len(),
{
    if cs.len() > 0 {
        let p = cs.drop_last();
        lemma_fresh_clients(p, now);
        assert forall|i: int| 0 <= i < cs.len() && !is_stale(cs[i], now) implies fresh_clients(
            cs,
            now,
        ).contains(#[trigger] cs[i]) by {
            if i < cs.len() - 1 {
                assert(p[i] == cs[i]);
                let r = fresh_clients(p, now);
                let w = choose|w: int| 0 <= w < r.len() && r[w] == p[i];
                if !is_stale(cs.last(), now) {
                    assert(fresh_clients(cs, now)[w] == cs[i]);
                }
            } else {
                assert(fresh_clients(cs, now).last() == cs[i]);
            }
        }
    }
}

/// The objects kept are exactly those whose owner is not a stale client.
pub proof fn lemma_live_objects(os: Seq<ObjectView>, cs: Seq<ClientView>, now: u64)
    ensures
        forall|j: int|
            0 <= j < objects_of_live_owners(os, cs, now).len() ==> !owner_is_stale(
                cs,
                (#[trigger] objects_of_live_owners(os, cs, now)[j]).client_id,
                now,
            ),
        forall|i: int|
            0 <= i < os.len() && !owner_is_stale(cs, os[i].client_id, now)
                ==> objects_of_live_owners(os, cs, now).contains(#[trigger] os[i]),
    decreases os.len(),
{
    if os.len() > 0 {
        let p = os.drop_last();
        lemma_live_objects(p, cs, now);
        assert forall|i: int|
            0 <= i < os.len() && !owner_is_stale(cs, os[i].client_id, now) implies objects_of_live_owners(
            os,
            cs,
            now,
        ).contains(#[trigger] os[i]) by {
            if i < os.len() - 1 {
                assert(p[i] == os[i]);
                let r = objects_of_live_owners(p, cs, now);
                let w = choose|w: int| 0 <= w < r.len() && r[w] == p[i];
                if !owner_is_stale(cs, os.last().client_id, now) {
                    assert(objects_of_live_owners(os, cs, now)[w] == os[i]);
                }
            } else {
                assert(objects_of_live_owners(os, cs, now).last() == os[i]);
            }
        }
    }
}

/// After the stale clients are closed, no stale client remains, every other
/// client remains, no object of a stale client remains, and every other
/// object remains.
pub proof fn law_stale_cleanup(s: ServerView, now: u64)
    ensures
        ({
            let s1 = close_stale_step(s, now);
            &&& forall|j: int| 0 <= j < s1.connections.len() ==> !is_stale(#[trigger] s1.connections[j], now)
            &&& forall|i: int|
                0 <= i < s.connections.len() && !is_stale(s.connections[i], now)
                    ==> s1.connections.contains(#[trigger] s.connections[i])
            &&& forall|j: int|
                0 <= j < s1.objects.len() ==> !owner_is_stale(
                    s.connections,
                    (#[trigger] s1.objects[j]).client_id,
                    now,
                )
            &&& forall|i: int|
                0 <= i < s.objects.len() && !owner_is_stale(s.connections, s.objects[i].client_id, now)
                    ==> s1.objects.contains(#[trigger] s.objects[i])
            &&& s1.effects == s.effects
        }),
{
    lemma_fresh_clients(s.connections, now);
    lemma_live_objects(s.objects, s.connections, now);
}

/// Under skip-owner, no datagram goes back to the sender's address.
pub proof fn law_skip_owner_never_echoes(cs: Seq<ClientView>, msg: Seq<u8>, a: PeerAddr)
    ensures
        forall|i: int|
            0 <= i < broadcast_sends(cs, msg, a, COND_SKIPOWNER).len() ==> (#[trigger] broadcast_sends(
                cs,
                msg,
                a,
                COND_SKIPOWNER,
            )[i] matches EffectView::Send { bytes, to } && to != a && bytes == msg),
    decreases cs.len(),
{
    if cs.len() > 0 {
        law_skip_owner_never_echoes(cs.drop_last(), msg, a);
        assert(broadcast_sends(cs.drop_last(), msg, a, COND_SKIPOWNER) == sends_to_others(
            cs.drop_last(),
            msg,
            a,
        ));
    }
}

/// The responder's recipients for owner-only, skip-owner and the
/// unconditional ("none") condition are exactly the destinations of the
/// server's broadcast under the same condition.
pub proof fn law_recipients_match_broadcast(cs: Seq<ClientView>, msg: Seq<u8>, a: PeerAddr)
    ensures
        broadcast_sends(cs, msg, a, COND_SKIPOWNER) == recipients(cs, Relevancy::SkipOwner, a).map_values(
            |b: PeerAddr| send(msg, b),
        ),
        broadcast_sends(cs, msg, a, COND_OWNERONLY) == recipients(cs, Relevancy::OwnerOnly, a).map_values(
            |b: PeerAddr| send(msg, b),
        ),
        broadcast_sends(cs, msg, a, COND_NONE) == recipients(cs, Relevancy::Unconditional, a).map_values(
            |b: PeerAddr| send(msg, b),
        ),
    decreases cs.len(),
{
    if cs.len() > 0 {
        law_recipients_match_broadcast(cs.drop_last(), msg, a);
        let r = addrs_except(cs.drop_last(), a);
        if cs.last().addr != a {
            assert(r.push(cs.last().addr).map_values(|b: PeerAddr| send(msg, b)) =~= r.map_values(
                |b: PeerAddr| send(msg, b),
            ).push(send(msg, cs.last().addr)));
        }
    } else {
        assert(addrs_except(cs, a).map_values(|b: PeerAddr| send(msg, b)) =~= Seq::<EffectView>::empty());
    }
    assert(seq![a].map_values(|b: PeerAddr| send(msg, b)) =~= seq![send(msg, a)]);
    let others = addrs_except(cs, a);
    assert((seq![a] + others).map_values(|b: PeerAddr| send(msg, b)) =~= seq![send(msg, a)]
        + others.map_values(|b: PeerAddr| send(msg, b)));
}

/// The initial-only, simulated-only, autonomous-only, simulated-or-physics,
/// initial-or-owner, custom and skip conditions are broadcast exactly as the
/// "none" condition: the same datagrams, in the same order, from the same
/// state.
pub proof fn law_other_conditions_act_as_none(s: ServerView, msg: Seq<u8>, sender: PeerAddr, cond: u8)
    requires
        cond == COND_INITIALONLY || cond == COND_SIMULATEDONLY || cond == COND_AUTONOMOUSONLY
            || cond == COND_SIMULATEDORPHYSICS || cond == COND_INITIALOROWNER || cond == COND_CUSTOM
            || cond == COND_SKIP,
    ensures
        broadcast_step(s, msg, sender, cond) == broadcast_step(s, msg, sender, COND_NONE),
        broadcast_step(s, msg, sender, cond).connections == s.connections,
        broadcast_step(s, msg, sender, cond).objects == s.objects,
{
}

/// Under the "none" condition the message, unchanged, goes first to the
/// sender, and then to every client not at the sender's address; every
/// datagram sent carries the message, and goes to the sender or to a
/// client, so the destinations are the sender together with every listener.
pub proof fn law_none_reaches_sender_and_every_listener(cs: Seq<ClientView>, msg: Seq<u8>, sender: PeerAddr)
    ensures
        broadcast_sends(cs, msg, sender, COND_NONE).len() > 0,
        broadcast_sends(cs, msg, sender, COND_NONE)[0] == send(msg, sender),
        forall|i: int|
            0 <= i < cs.len() ==> broadcast_sends(cs, msg, sender, COND_NONE).contains(
                send(msg, #[trigger] cs[i].addr),
            ),
        forall|k: int|
            0 <= k < broadcast_sends(cs, msg, sender, COND_NONE).len() ==> (#[trigger] broadcast_sends(
                cs,
                msg,
                sender,
                COND_NONE,
            )[k] matches EffectView::Send { bytes, to } && bytes == msg && (to == sender || exists|
                j: int,
            | 0 <= j < cs.len() && cs[j].addr == to)),
{
    let all = broadcast_sends(cs, msg, sender, COND_NONE);
    lemma_others_cover(cs, msg, sender);
    assert(all == seq![send(msg, sender)] + sends_to_others(cs, msg, sender));
    assert forall|i: int| 0 <= i < cs.len() implies all.contains(send(msg, #[trigger] cs[i].addr)) by {
        if cs[i].addr == sender {
            assert(all[0] == send(msg, sender));
        } else {
            let k = choose|k: int|
                0 <= k < sends_to_others(cs, msg, sender).len() && sends_to_others(cs, msg, sender)[k]
                    == send(msg, cs[i].addr);
            assert(all[k + 1] == send(msg, cs[i].addr));
        }
    }
    assert forall|k: int| 0 <= k < all.len() implies (#[trigger] all[k] matches EffectView::Send {
        bytes,
        to,
    } && bytes == msg && (to == sender || exists|j: int| 0 <= j < cs.len() && cs[j].addr == to)) by {
        if k > 0 {
            assert(all[k] == sends_to_others(cs, msg, sender)[k - 1]);
        }
    }
}

/// Every client not at `a` is sent `msg`, and every datagram of the sends to
/// the others is `msg` to some client's address.
proof fn lemma_others_cover(cs: Seq<ClientView>, msg: Seq<u8>, a: PeerAddr)
    ensures
        forall|i: int|
            0 <= i < cs.len() && cs[i].addr != a ==> exists|k: int|
                0 <= k < sends_to_others(cs, msg, a).len() && sends_to_others(cs, msg, a)[k] == send(
                    msg,
                    #[trigger] cs[i].addr,
                ),
        forall|k: int|
            0 <= k < sends_to_others(cs, msg, a).len() ==> (#[trigger] sends_to_others(cs, msg, a)[k] matches EffectView::Send {
                bytes,
                to,
            } && bytes == msg && exists|j: int| 0 <= j < cs.len() && cs[j].addr == to),
    decreases cs.len(),
{
    if cs.len() > 0 {
        let init = cs.drop_last();
        lemma_others_cover(init, msg, a);
        let rest = sends_to_others(init, msg, a);
        let here = sends_to_others(cs, msg, a);
        assert forall|i: int| 0 <= i < cs.len() && cs[i].addr != a implies exists|k: int|
            0 <= k < here.len() && here[k] == send(msg, #[trigger] cs[i].addr) by {
            if i == cs.len() - 1 {
                assert(here[here.len() - 1] == send(msg, cs[i].addr));
            } else {
                assert(init[i] == cs[i]);
                let k = choose|k: int| 0 <= k < rest.len() && rest[k] == send(msg, init[i].addr);
                assert(here[k] == rest[k]);
            }
        }
        assert forall|k: int| 0 <= k < here.len() implies (#[trigger] here[k] matches EffectView::Send {
            bytes,
            to,
        } && bytes == msg && exists|j: int| 0 <= j < cs.len() && cs[j].addr == to) by {
            if k < rest.len() {
                assert(here[k] == rest[k]);
                if let EffectView::Send { bytes, to } = rest[k] {
                    let j = choose|j: int| 0 <= j < init.len() && init[j].addr == to;
                    assert(cs[j] == init[j]);
                }
            } else {
                assert(cs[cs.len() - 1].addr == cs.last().addr);
            }
        }
    }
}

/// The ids of a kind in two lists of keys are those of the first list, then
/// those of the second.
pub proof fn law_ids_of_kind_concat(k1: Seq<ObjectKey>, k2: Seq<ObjectKey>, kind: Seq<char>)
    ensures
        ids_of_kind(k1 + k2, kind) == ids_of_kind(k1, kind) + ids_of_kind(k2, kind),
    decreases k2.len(),
{
    if k2.len() == 0 {
        assert(k1 + k2 =~= k1);
        assert(ids_of_kind(k1, kind) + ids_of_kind(k2, kind) =~= ids_of_kind(k1, kind));
    } else {
        law_ids_of_kind_concat(k1, k2.drop_last(), kind);
        assert((k1 + k2).drop_last() =~= k1 + k2.drop_last());
        assert((k1 + k2).last() == k2.last());
        let a = ids_of_kind(k1, kind);
        let b = ids_of_kind(k2.drop_last(), kind);
        if k2.last().objtype@ == kind {
            assert(a + b.push(k2.last().id@) =~= (a + b).push(k2.last().id@));
        }
    }
}

/// Every decimal string has a digit, and numbers from ten up have at least
/// two.
pub proof fn lemma_decimal_len(n: nat)
    ensures
        decimal(n).len() >= 1,
        n >= 10 ==> decimal(n).len() >= 2,
    decreases n,
{
    if n >= 10 {
        lemma_decimal_len(n / 10);
    }
}

/// Distinct numbers have distinct decimal strings.
pub proof fn law_decimal_injective(n: nat, m: nat)
    ensures
        decimal(n) == decimal(m) ==> n == m,
    decreases n,
{
    lemma_decimal_len(n);
    lemma_decimal_len(m);
    if decimal(n) == decimal(m) {
        if n < 10 && m < 10 {
            assert(decimal(n)[0] == decimal(m)[0]);
            assert(digit_char(n) == digit_char(m));
        } else if n >= 10 && m >= 10 {
            assert(decimal(n).last() == decimal(m).last());
            assert(decimal(n).drop_last() =~= decimal(n / 10));
            assert(decimal(m).drop_last() =~= decimal(m / 10));
            law_decimal_injective(n / 10, m / 10);
            assert(n % 10 == m % 10);
        }
    }
}

/// Distinct clients are cached under distinct keys.
pub proof fn law_client_keys_distinct(a: u32, b: u32)
    ensures
        client_key(a) == client_key(b) ==> a == b,
{
    if client_key(a) == client_key(b) {
        let p = "client_"@;
        assert(client_key(a).subrange(p.len() as int, client_key(a).len() as int) =~= decimal(a as nat));
        assert(client_key(b).subrange(p.len() as int, client_key(b).len() as int) =~= decimal(b as nat));
        law_decimal_injective(a as nat, b as nat);
    }
}

/// Distinct ports give distinct connection ids, and a connection id has its
/// low sixteen bits clear.
pub proof fn law_port_ids(p: u16, q: u16)
    ensures
        spec_uid_of_port(p) == spec_uid_of_port(q) ==> p == q,
        spec_uid_of_port(p) % 65536 == 0,
{
    let a = (p / 256) as int;
    let b = (p % 256) as int;
    let c = (q / 256) as int;
    let d = (q % 256) as int;
    assert(0 <= a < 256 && 0 <= b < 256 && 0 <= c < 256 && 0 <= d < 256);
    assert(a * 65536 + b * 16777216 < 4294967296) by (nonlinear_arith)
        requires 0 <= a < 256, 0 <= b < 256;
    assert(c * 65536 + d * 16777216 < 4294967296) by (nonlinear_arith)
        requires 0 <= c < 256, 0 <= d < 256;
    assert((a * 65536 + b * 16777216) % 65536 == 0) by (nonlinear_arith)
        requires 0 <= a < 256, 0 <= b < 256;
    if spec_uid_of_port(p) == spec_uid_of_port(q) {
        assert(a * 65536 + b * 16777216 == c * 65536 + d * 16777216);
        assert(a == c && b == d) by (nonlinear_arith)
            requires
                a * 65536 + b * 16777216 == c * 65536 + d * 16777216,
                0 <= a < 256, 0 <= b < 256, 0 <= c < 256, 0 <= d < 256;
        assert(p == a * 256 + b);
        assert(q == c * 256 + d);
    }
}


/// An object-state request naming any registered object, wherever it stands
/// in the registry and whatever was registered after it, is answered with
/// that object's spawn announcement: its parent, no requested id, its id and
/// its data, sent to the asker alone; nothing else changes.
pub proof fn law_object_state_reads_any_object(s: ServerView, i: int, req: Seq<u8>, asker: PeerAddr)
    requires
        object_ids_unique(s.objects),
        0 <= i < s.objects.len(),
        req.len() >= 8,
        u32_at(req, 4) == s.objects[i].id,
    ensures
        ({
            let o = s.objects[i];
            let s1 = objectstate_step(s, req, asker);
            &&& s1.connections == s.connections
            &&& s1.objects == s.objects
            &&& s1.effects == s.effects.push(send(spawned_msg(o.parent_id, 0, o.id, o.bytes), asker))
        }),
{
    let id = s.objects[i].id;
    assert(has_object(s.objects, id));
    let k = object_index(s.objects, id);
    if k != i {
        if k < i {
            assert(s.objects[k].id != s.objects[i].id);
        } else {
            assert(s.objects[i].id != s.objects[k].id);
        }
    }
    assert(s.effects + seq![send(spawned_msg(s.objects[i].parent_id, 0, id, s.objects[i].bytes), asker)]
        =~= s.effects.push(send(spawned_msg(s.objects[i].parent_id, 0, id, s.objects[i].bytes), asker)));
}

/// A property-state request naming any registered object, wherever it stands
/// in the registry and whatever was registered after it, is answered with
/// that object's announcement (owner, parent, requested id, id, data), sent
/// to the asker alone; nothing else changes.
pub proof fn law_property_state_reads_any_object(s: ServerView, i: int, req: Seq<u8>, asker: PeerAddr)
    requires
        object_ids_unique(s.objects),
        0 <= i < s.objects.len(),
        req.len() >= 8,
        u32_at(req, 4) == s.objects[i].id,
    ensures
        ({
            let s1 = propertystate_step(s, req, asker);
            &&& s1.connections == s.connections
            &&& s1.objects == s.objects
            &&& s1.effects == s.effects.push(send(property_msg(s.objects[i]), asker))
        }),
{
    let id = s.objects[i].id;
    assert(has_object(s.objects, id));
    let k = object_index(s.objects, id);
    if k != i {
        if k < i {
            assert(s.objects[k].id != s.objects[i].id);
        } else {
            assert(s.objects[i].id != s.objects[k].id);
        }
    }
    assert(s.effects + seq![send(property_msg(s.objects[i]), asker)] =~= s.effects.push(
        send(property_msg(s.objects[i]), asker),
    ));
}

/// Closing the stale clients removes every object whose owner id is the id
/// of any stale client, wherever that client stands among the connections,
/// and keeps every object whose owner id is the id of no stale client.
pub proof fn law_stale_clients_lose_their_objects(s: ServerView, now: u64)
    ensures
        ({
            let s1 = close_stale_step(s, now);
            &&& forall|k: int, i: int|
                0 <= k < s1.objects.len() && 0 <= i < s.connections.len() && is_stale(
                    s.connections[i],
                    now,
                ) ==> (#[trigger] s1.objects[k]).client_id != (#[trigger] s.connections[i]).guid
            &&& forall|j: int|
                0 <= j < s.objects.len() && (forall|i: int|
                    0 <= i < s.connections.len() && is_stale(s.connections[i], now)
                        ==> s.connections[i].guid != s.objects[j].client_id)
                    ==> s1.objects.contains(#[trigger] s.objects[j])
        }),
{
    law_stale_cleanup(s, now);
    let s1 = close_stale_step(s, now);
    assert forall|k: int, i: int|
        0 <= k < s1.objects.len() && 0 <= i < s.connections.len() && is_stale(s.connections[i], now)
            implies (#[trigger] s1.objects[k]).client_id != (#[trigger] s.connections[i]).guid by {
        assert(!owner_is_stale(s.connections, s1.objects[k].client_id, now));
    }
    assert forall|j: int|
        0 <= j < s.objects.len() && (forall|i: int|
            0 <= i < s.connections.len() && is_stale(s.connections[i], now)
                ==> s.connections[i].guid != s.objects[j].client_id)
            implies s1.objects.contains(#[trigger] s.objects[j]) by {
        assert(!owner_is_stale(s.connections, s.objects[j].client_id, now));
    }
}

/// Every client of `others` is sent `m` by the sends to all of them.
proof fn lemma_sends_to_all_cover(others: Seq<ClientView>, m: Seq<u8>)
    ensures
        forall|j: int|
            0 <= j < others.len() ==> sends_to_all(others, m).contains(send(m, #[trigger] others[j].addr)),
    decreases others.len(),
{
    if others.len() > 0 {
        let p = others.drop_last();
        lemma_sends_to_all_cover(p, m);
        let all = sends_to_all(others, m);
        assert forall|j: int| 0 <= j < others.len() implies all.contains(
            send(m, #[trigger] others[j].addr),
        ) by {
            if j < others.len() - 1 {
                assert(p[j] == others[j]);
                let r = sends_to_all(p, m);
                let w = choose|w: int| 0 <= w < r.len() && r[w] == send(m, p[j].addr);
                assert(all[w] == r[w]);
            } else {
                assert(all[all.len() - 1] == send(m, others[j].addr));
            }
        }
    }
}

/// For every client of `cs` at `a` and every client of `others`, the closing
/// notices tell the latter that the former has closed.
proof fn lemma_close_notices_cover(cs: Seq<ClientView>, others: Seq<ClientView>, a: PeerAddr)
    ensures
        forall|i: int, j: int|
            0 <= i < cs.len() && cs[i].addr == a && 0 <= j < others.len() ==> close_notices(
                cs,
                others,
                a,
            ).contains(send(closed_msg((#[trigger] cs[i]).guid), (#[trigger] others[j]).addr)),
    decreases cs.len(),
{
    if cs.len() > 0 {
        let p = cs.drop_last();
        lemma_close_notices_cover(p, others, a);
        let rest = close_notices(p, others, a);
        let all = close_notices(cs, others, a);
        assert forall|i: int, j: int|
            0 <= i < cs.len() && cs[i].addr == a && 0 <= j < others.len() implies all.contains(
            send(closed_msg((#[trigger] cs[i]).guid), (#[trigger] others[j]).addr),
        ) by {
            let e = send(closed_msg(cs[i].guid), others[j].addr);
            if i < cs.len() - 1 {
                assert(p[i] == cs[i]);
                let w = choose|w: int| 0 <= w < rest.len() && rest[w] == e;
                if cs.last().addr == a {
                    assert(all[w] == rest[w]);
                } else {
                    assert(all == rest);
                }
            } else {
                let last = sends_to_all(others, closed_msg(cs.last().guid));
                lemma_sends_to_all_cover(others, closed_msg(cs.last().guid));
                let w = choose|w: int| 0 <= w < last.len() && last[w] == e;
                assert(all[rest.len() + w] == last[w]);
            }
        }
    }
}

/// A close request routed from an address where a client is connected (the
/// first client there has a nonzero id) drops every client at that address
/// and keeps every other client and every object; every client at that
/// address is announced as closed to every client kept; the request is
/// recorded last.
pub proof fn law_routed_close_drops_connected_sender(
    s: ServerView,
    body: Seq<u8>,
    peer: PeerAddr,
    now: u64,
    new_id: u32,
)
    requires
        sender_id(s.connections, peer) != 0,
    ensures
        ({
            let msg = seq![MSG_WORLD, SR_CLOSED] + body;
            let s1 = route_step(s, msg, peer, now, new_id);
            &&& forall|j: int| 0 <= j < s1.connections.len() ==> (#[trigger] s1.connections[j]).addr != peer
            &&& forall|i: int|
                0 <= i < s.connections.len() && s.connections[i].addr != peer
                    ==> s1.connections.contains(#[trigger] s.connections[i])
            &&& s1.objects == s.objects
            &&& s1.effects.len() > 0
            &&& s1.effects.last() == record(peer, RequestLog::Closed, msg)
            &&& forall|i: int, j: int|
                0 <= i < s.connections.len() && 0 <= j < s.connections.len() && s.connections[i].addr
                    == peer && s.connections[j].addr != peer ==> s1.effects.contains(
                    send(closed_msg((#[trigger] s.connections[i]).guid), (#[trigger] s.connections[j]).addr),
                )
        }),
{
    let msg = seq![MSG_WORLD, SR_CLOSED] + body;
    let cs = s.connections;
    assert(msg[0] == MSG_WORLD && msg[1] == SR_CLOSED);
    let s1 = route_step(s, msg, peer, now, new_id);
    let c = closed_connection_step(s, peer);
    assert(s1 == emit(c, seq![record(peer, RequestLog::Closed, msg)]));
    lemma_clients_not_at(cs, peer);
    let others = clients_not_at(cs, peer);
    lemma_close_notices_cover(cs, others, peer);
    assert forall|i: int, j: int|
        0 <= i < cs.len() && 0 <= j < cs.len() && cs[i].addr == peer && cs[j].addr != peer
            implies s1.effects.contains(send(closed_msg((#[trigger] cs[i]).guid), (#[trigger] cs[j]).addr)) by {
        let k = choose|k: int| 0 <= k < others.len() && others[k] == cs[j];
        let notices = close_notices(cs, others, peer);
        assert(notices.contains(send(closed_msg(cs[i].guid), others[k].addr)));
        let w = choose|w: int| 0 <= w < notices.len() && notices[w] == send(closed_msg(cs[i].guid), others[k].addr);
        assert(s1.effects[s.effects.len() + w] == notices[w]);
    }
}

/// For a connected sender (nonzero sender id), the benchmark router treats
/// callback, rpc, property and function replication alike: the body goes
/// first back to the sender, then to every connection at another address;
/// the connections stay as they were.
pub proof fn law_bench_replications_reach_sender_and_listeners(
    s: BenchView,
    route: u8,
    body: Seq<u8>,
    peer: PeerAddr,
    now: u64,
    drawn: u32,
)
    requires
        route == SR_CALLBACK_UPDATE || route == SR_RPC || route == SR_PROPERTYREP || route == SR_FUNCREP,
        sender_id(s.connections, peer) != 0,
    ensures
        ({
            let s1 = bench_route_step(s, seq![MSG_WORLD, route] + body, peer, now, drawn);
            &&& s1 == bench_route_step(s, seq![MSG_WORLD, SR_RPC] + body, peer, now, drawn)
            &&& s1.connections == s.connections
            &&& s1.effects.len() > s.effects.len()
            &&& s1.effects.subrange(0, s.effects.len() as int) == s.effects
            &&& s1.effects[s.effects.len() as int] == send(body, peer)
            &&& forall|i: int|
                0 <= i < s.connections.len() && s.connections[i].addr != peer ==> s1.effects.contains(
                    send(body, (#[trigger] s.connections[i]).addr),
                )
            &&& forall|k: int|
                s.effects.len() <= k < s1.effects.len() ==> (#[trigger] s1.effects[k] matches EffectView::Send {
                    bytes,
                    to,
                } && bytes == body && (to == peer || exists|j: int|
                    0 <= j < s.connections.len() && s.connections[j].addr == to))
        }),
{
    let m = seq![MSG_WORLD, route] + body;
    let m4 = seq![MSG_WORLD, SR_RPC] + body;
    assert(m.subrange(2, m.len() as int) =~= body);
    assert(m4.subrange(2, m4.len() as int) =~= body);
    let s1 = bench_route_step(s, m, peer, now, drawn);
    assert(s1 == bench_emit(s, sends_to_sender_and_others(s.connections, body, peer)));
    law_none_reaches_sender_and_every_listener(s.connections, body, peer);
    let e = broadcast_sends(s.connections, body, peer, COND_NONE);
    assert(e == sends_to_sender_and_others(s.connections, body, peer));
    assert(s1.effects.subrange(0, s.effects.len() as int) =~= s.effects);
    assert(s1.effects[s.effects.len() as int] == e[0]);
    assert forall|i: int|
        0 <= i < s.connections.len() && s.connections[i].addr != peer implies s1.effects.contains(
        send(body, (#[trigger] s.connections[i]).addr),
    ) by {
        let w = choose|w: int| 0 <= w < e.len() && e[w] == send(body, s.connections[i].addr);
        assert(s1.effects[s.effects.len() + w] == e[w]);
    }
    assert forall|k: int| s.effects.len() <= k < s1.effects.len() implies (#[trigger] s1.effects[k] matches EffectView::Send {
        bytes,
        to,
    } && bytes == body && (to == peer || exists|j: int|
        0 <= j < s.connections.len() && s.connections[j].addr == to)) by {
        assert(s1.effects[k] == e[k - s.effects.len()]);
    }
}
} // verus!
