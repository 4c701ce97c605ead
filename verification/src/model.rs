//! The abstract state of the world server and what each request does to it:
//! which clients and objects it keeps, and the datagrams and request records
//! it emits, in order.

use crate::addr::PeerAddr;
use crate::definitions::{COND_AUTONOMOUSONLY, COND_CUSTOM, COND_INITIALONLY, COND_INITIALOROWNER, COND_NONE, COND_OWNERONLY, COND_SIMULATEDONLY, COND_SIMULATEDORPHYSICS, COND_SKIP, COND_SKIPOWNER, MSG_WORLD, SR_ACK, SR_CALLBACK_UPDATE, SR_CLOSED, SR_FUNCREP, SR_JOINED, SR_PROPERTYREP, SR_REGISTER, SR_REGISTER_PROPERTY, SR_REGISTRATION_SPAWNED, SR_REJOIN, SR_REQUEST_OBJECTSTATE, SR_REQUEST_PROPERTYSTATE, SR_REQUEST_USERSTATE, SR_RPC, SR_TIME, SR_VOICE};
use crate::objects::{whole_secs_between, ClientView, ObjectView};
use crate::wire::{le32, le64, u32_at, spec_uid_of_port};
use vstd::prelude::*;

verus! {

/// The kinds of request the router records, each under its own file suffix.
#[derive(PartialEq, Eq, Structural, Debug, Clone, Copy)]
pub enum RequestLog {
    Register,
    Time,
    Callback,
    PropertyRep,
    FunctionRep,
    Ack,
    Rpc,
    Closed,
    RegistrationSpawned,
    RegisterProperty,
    UserState,
    ObjectState,
    PropertyState,
    Voice,
}

/// An outgoing effect: a datagram to send, or a request to record under the
/// sender's address and the request kind.
pub enum EffectView {
    Send { bytes: Seq<u8>, to: PeerAddr },
    Record { peer: PeerAddr, log: RequestLog, bytes: Seq<u8> },
}

/// The server's state: connected clients and registered objects, in the order
/// the server walks them, and the effects emitted so far.
#[verifier::ext_equal]
pub struct ServerView {
    pub connections: Seq<ClientView>,
    pub objects: Seq<ObjectView>,
    pub effects: Seq<EffectView>,
}

/// A datagram `bytes` sent to `to`.
pub open spec fn send(bytes: Seq<u8>, to: PeerAddr) -> EffectView {
    EffectView::Send { bytes, to }
}

/// A record of the request `bytes` from `peer`.
pub open spec fn record(peer: PeerAddr, log: RequestLog, bytes: Seq<u8>) -> EffectView {
    EffectView::Record { peer, log, bytes }
}

/// `s` with the effects `e` emitted after the earlier ones.
pub open spec fn emit(s: ServerView, e: Seq<EffectView>) -> ServerView {
    ServerView { effects: s.effects + e, ..s }
}

// ----- lookups -----

/// No two clients share an id.
pub open spec fn guids_unique(cs: Seq<ClientView>) -> bool {
    forall|i: int, j: int| 0 <= i < j < cs.len() ==> cs[i].guid != cs[j].guid
}

/// No two objects share an id.
pub open spec fn object_ids_unique(os: Seq<ObjectView>) -> bool {
    forall|i: int, j: int| 0 <= i < j < os.len() ==> os[i].id != os[j].id
}

/// A client with id `g` is connected.
pub open spec fn has_guid(cs: Seq<ClientView>, g: u32) -> bool {
    exists|i: int| 0 <= i < cs.len() && cs[i].guid == g
}

/// The position of the client with id `g`.
pub open spec fn guid_index(cs: Seq<ClientView>, g: u32) -> int {
    choose|i: int| 0 <= i < cs.len() && cs[i].guid == g
}

/// An object with id `id` is registered.
pub open spec fn has_object(os: Seq<ObjectView>, id: u32) -> bool {
    exists|i: int| 0 <= i < os.len() && os[i].id == id
}

/// The position of the object with id `id`.
pub open spec fn object_index(os: Seq<ObjectView>, id: u32) -> int {
    choose|i: int| 0 <= i < os.len() && os[i].id == id
}

/// Some connected client is at `a`.
pub open spec fn has_addr(cs: Seq<ClientView>, a: PeerAddr) -> bool {
    exists|i: int| 0 <= i < cs.len() && cs[i].addr == a
}

/// `i` is the first position of a client at `a`.
pub open spec fn is_first_addr(cs: Seq<ClientView>, a: PeerAddr, i: int) -> bool {
    &&& 0 <= i < cs.len()
    &&& cs[i].addr == a
    &&& forall|j: int| 0 <= j < i ==> cs[j].addr != a
}

/// The first position of a client at `a`.
pub open spec fn first_addr_index(cs: Seq<ClientView>, a: PeerAddr) -> int {
    choose|i: int| is_first_addr(cs, a, i)
}

/// The id of the first client at `a`, or 0 when no client is there.
pub open spec fn sender_id(cs: Seq<ClientView>, a: PeerAddr) -> u32 {
    if has_addr(cs, a) {
        cs[first_addr_index(cs, a)].guid
    } else {
        0
    }
}

/// When a client is at `a`, there is a first position of one.
pub proof fn lemma_first_addr_exists(cs: Seq<ClientView>, a: PeerAddr)
    requires
        has_addr(cs, a),
    ensures
        is_first_addr(cs, a, first_addr_index(cs, a)),
    decreases cs.len(),
{
    let p = cs.drop_last();
    assert forall|j: int| 0 <= j < p.len() implies p[j] == cs[j] by {}
    if has_addr(p, a) {
        lemma_first_addr_exists(p, a);
        let i = first_addr_index(p, a);
        assert(is_first_addr(cs, a, i));
    } else {
        let w = choose|i: int| 0 <= i < cs.len() && cs[i].addr == a;
        if w < cs.len() - 1 {
            assert(p[w].addr == a);
        }
        assert(is_first_addr(cs, a, cs.len() - 1));
    }
}

/// The first position of a client at `a` is unique.
pub proof fn lemma_first_addr_unique(cs: Seq<ClientView>, a: PeerAddr, i: int)
    requires
        is_first_addr(cs, a, i),
    ensures
        has_addr(cs, a),
        first_addr_index(cs, a) == i,
        sender_id(cs, a) == cs[i].guid,
{
    let k = first_addr_index(cs, a);
    assert(is_first_addr(cs, a, k));
    if k < i {
        assert(cs[k].addr != a);
    }
    if i < k {
        assert(cs[i].addr != a);
    }
}

// ----- broadcasting -----

/// The conditions the broadcast treats as "none": initial-only,
/// simulated-only, custom, initial-or-owner, autonomous-only,
/// simulated-or-physics and skip all go to the sender and every listener.
pub open spec fn effective_condition(c: u8) -> u8 {
    if c == COND_INITIALONLY || c == COND_SIMULATEDONLY || c == COND_CUSTOM || c
        == COND_INITIALOROWNER || c == COND_AUTONOMOUSONLY || c == COND_SIMULATEDORPHYSICS || c
        == COND_SKIP {
        COND_NONE
    } else {
        c
    }
}

/// `msg` sent to every client of `cs`, in order.
pub open spec fn sends_to_all(cs: Seq<ClientView>, msg: Seq<u8>) -> Seq<EffectView>
    decreases cs.len(),
{
    if cs.len() == 0 {
        Seq::empty()
    } else {
        sends_to_all(cs.drop_last(), msg).push(send(msg, cs.last().addr))
    }
}

/// `msg` sent to every client of `cs` that is not at `sender`, in order.
pub open spec fn sends_to_others(cs: Seq<ClientView>, msg: Seq<u8>, sender: PeerAddr) -> Seq<
    EffectView,
>
    decreases cs.len(),
{
    if cs.len() == 0 {
        Seq::empty()
    } else {
        let rest = sends_to_others(cs.drop_last(), msg, sender);
        if cs.last().addr != sender {
            rest.push(send(msg, cs.last().addr))
        } else {
            rest
        }
    }
}

/// `msg` sent to `sender` and to every listener: first to the sender, then
/// to every client not at the sender's address, in order, so that no
/// address is sent the message twice on the sender's account.
pub open spec fn sends_to_sender_and_others(cs: Seq<ClientView>, msg: Seq<u8>, sender: PeerAddr) -> Seq<
    EffectView,
> {
    seq![send(msg, sender)] + sends_to_others(cs, msg, sender)
}

/// The datagrams of a broadcast of `msg` from `sender` under condition `cond`:
/// owner-only goes back to the sender, skip-owner to every client not at the
/// sender's address, "none" to the sender and every listener, and any other
/// code to nobody.
pub open spec fn broadcast_sends(cs: Seq<ClientView>, msg: Seq<u8>, sender: PeerAddr, cond: u8) -> Seq<
    EffectView,
> {
    let c = effective_condition(cond);
    if c == COND_OWNERONLY {
        seq![send(msg, sender)]
    } else if c == COND_SKIPOWNER {
        sends_to_others(cs, msg, sender)
    } else if c == COND_NONE {
        sends_to_sender_and_others(cs, msg, sender)
    } else {
        Seq::empty()
    }
}

/// The state after a broadcast.
pub open spec fn broadcast_step(s: ServerView, msg: Seq<u8>, sender: PeerAddr, cond: u8) -> ServerView {
    emit(s, broadcast_sends(s.connections, msg, sender, cond))
}

// ----- messages -----

/// `[world, route]` followed by `rest`.
pub open spec fn world_msg(route: u8, rest: Seq<u8>) -> Seq<u8> {
    seq![MSG_WORLD, route] + rest
}

/// The time reply: a ten-byte header holding the world channel and the time
/// route, then the clock reading `now`, little-endian.
pub open spec fn time_reply(now: u64) -> Seq<u8> {
    seq![MSG_WORLD, SR_TIME, 0u8, 0u8, 0u8, 0u8, 0u8, 0u8, 0u8, 0u8] + le64(now)
}

/// The announcement that client `guid` with `settings` has joined.
pub open spec fn joined_msg(guid: u32, settings: Seq<u8>) -> Seq<u8> {
    world_msg(SR_JOINED, le32(guid) + settings)
}

/// The reply that tells a client its own id and settings.
pub open spec fn registered_msg(guid: u32, settings: Seq<u8>) -> Seq<u8> {
    world_msg(SR_REGISTER, le32(guid) + settings)
}

/// The reply that tells a rejoining client its id and settings.
pub open spec fn rejoin_msg(guid: u32, settings: Seq<u8>) -> Seq<u8> {
    world_msg(SR_REJOIN, le32(guid) + settings)
}

/// The notice that client `uid` has closed its connection.
pub open spec fn closed_msg(uid: u32) -> Seq<u8> {
    world_msg(SR_CLOSED, le32(uid))
}

/// The announcement of a registered property: owner, parent, requested id,
/// given id, then the data.
pub open spec fn property_msg(o: ObjectView) -> Seq<u8> {
    world_msg(
        SR_REGISTER_PROPERTY,
        le32(o.client_id) + le32(o.parent_id) + le32(o.original_id) + le32(o.id) + o.bytes,
    )
}

/// The announcement of a spawned object: a client id, the requested id, the
/// given id, then the data.
pub open spec fn spawned_msg(guid: u32, requested: u32, id: u32, bytes: Seq<u8>) -> Seq<u8> {
    world_msg(SR_REGISTRATION_SPAWNED, le32(guid) + le32(requested) + le32(id) + bytes)
}

// ----- connection handling -----

/// `cs` with the client of id `g`, if any, moved to address `a`.
pub open spec fn set_addr(cs: Seq<ClientView>, g: u32, a: PeerAddr) -> Seq<ClientView> {
    cs.map_values(|c: ClientView| if c.guid == g { ClientView { addr: a, ..c } } else { c })
}

/// A property replication: when no client is at `sender`, the client named by
/// the id in `msg[2..6]` moves to `sender`; then the message goes to every
/// client not at `sender`.
pub open spec fn property_message_step(s: ServerView, msg: Seq<u8>, sender: PeerAddr) -> ServerView {
    let cs = if sender_id(s.connections, sender) == 0 {
        set_addr(s.connections, u32_at(msg, 2), sender)
    } else {
        s.connections
    };
    broadcast_step(ServerView { connections: cs, ..s }, msg, sender, COND_SKIPOWNER)
}

/// The clients of `cs` that are not at `a`, in order.
pub open spec fn clients_not_at(cs: Seq<ClientView>, a: PeerAddr) -> Seq<ClientView>
    decreases cs.len(),
{
    if cs.len() == 0 {
        Seq::empty()
    } else {
        let rest = clients_not_at(cs.drop_last(), a);
        if cs.last().addr != a {
            rest.push(cs.last())
        } else {
            rest
        }
    }
}

/// For each client of `cs` at `a`, in order, its closing notice sent to every
/// client of `others`.
pub open spec fn close_notices(cs: Seq<ClientView>, others: Seq<ClientView>, a: PeerAddr) -> Seq<
    EffectView,
>
    decreases cs.len(),
{
    if cs.len() == 0 {
        Seq::empty()
    } else {
        let rest = close_notices(cs.drop_last(), others, a);
        if cs.last().addr == a {
            rest + sends_to_all(others, closed_msg(cs.last().guid))
        } else {
            rest
        }
    }
}

/// A close request from `sender`: every client at `sender` is dropped, and for
/// each of them every remaining client is told.
pub open spec fn closed_connection_step(s: ServerView, sender: PeerAddr) -> ServerView {
    let others = clients_not_at(s.connections, sender);
    ServerView {
        connections: others,
        effects: s.effects + close_notices(s.connections, others, sender),
        ..s
    }
}

/// `cs` with `c` stored under its id: in place of the client with that id,
/// or after the others.
pub open spec fn insert_client(cs: Seq<ClientView>, c: ClientView) -> Seq<ClientView> {
    if has_guid(cs, c.guid) {
        cs.update(guid_index(cs, c.guid), c)
    } else {
        cs.push(c)
    }
}

/// For each client of `walk`, in order: when its id's low sixteen bits differ
/// from the new client's id, the new client is announced to every client of
/// `cs` not at its address and that client is announced to the new client;
/// otherwise the new client is told its own registration.
pub open spec fn join_notices(walk: Seq<ClientView>, cs: Seq<ClientView>, newc: ClientView) -> Seq<
    EffectView,
>
    decreases walk.len(),
{
    if walk.len() == 0 {
        Seq::empty()
    } else {
        let rest = join_notices(walk.drop_last(), cs, newc);
        let c = walk.last();
        if newc.guid != c.guid % 65536 {
            rest + sends_to_others(cs, joined_msg(newc.guid, newc.settings), newc.addr) + seq![
                send(joined_msg(c.guid, c.settings), newc.addr),
            ]
        } else {
            rest + seq![send(registered_msg(newc.guid, newc.settings), newc.addr)]
        }
    }
}

/// The client a connection from `addr` with `settings` creates at clock `now`.
pub open spec fn new_client(addr: PeerAddr, settings: Seq<u8>, now: u64) -> ClientView {
    ClientView {
        instant: now,
        guid: spec_uid_of_port(addr.spec_port()),
        addr,
        settings,
        last_message: now,
    }
}

/// A new connection: the client is stored under the id its port gives, then
/// the join notices for every stored client go out.
pub open spec fn add_connection_step(s: ServerView, settings: Seq<u8>, addr: PeerAddr, now: u64) -> ServerView {
    let newc = new_client(addr, settings, now);
    let cs = insert_client(s.connections, newc);
    ServerView { connections: cs, effects: s.effects + join_notices(cs, cs, newc), ..s }
}

/// The state after client `id` is announced to every client not at its address.
pub open spec fn notify_new_connection_step(s: ServerView, id: u32) -> ServerView {
    broadcast_step(
        s,
        world_msg(SR_JOINED, le32(id)),
        s.connections[guid_index(s.connections, id)].addr,
        COND_SKIPOWNER,
    )
}

/// A state request for the client named in `msg[4..8]`: when it is connected,
/// its id and settings go to `addr` twice; otherwise nothing happens.
pub open spec fn userstate_step(s: ServerView, msg: Seq<u8>, addr: PeerAddr) -> ServerView {
    let oid = u32_at(msg, 4);
    if has_guid(s.connections, oid) {
        let c = s.connections[guid_index(s.connections, oid)];
        let out = joined_msg(c.guid, c.settings);
        emit(s, seq![send(out, addr), send(out, addr)])
    } else {
        s
    }
}

/// Whether a client is stale at `now`: not heard from for more than 240 whole
/// seconds.
pub open spec fn is_stale(c: ClientView, now: u64) -> bool {
    whole_secs_between(now, c.last_message) > 240
}

/// The clients of `cs` that are not stale at `now`, in order.
pub open spec fn fresh_clients(cs: Seq<ClientView>, now: u64) -> Seq<ClientView>
    decreases cs.len(),
{
    if cs.len() == 0 {
        Seq::empty()
    } else {
        let rest = fresh_clients(cs.drop_last(), now);
        if !is_stale(cs.last(), now) {
            rest.push(cs.last())
        } else {
            rest
        }
    }
}

/// Whether client `owner` is connected and stale at `now`.
pub open spec fn owner_is_stale(cs: Seq<ClientView>, owner: u32, now: u64) -> bool {
    exists|i: int| 0 <= i < cs.len() && cs[i].guid == owner && is_stale(cs[i], now)
}

/// The objects of `os` whose owner is not a stale client of `cs`, in order.
pub open spec fn objects_of_live_owners(os: Seq<ObjectView>, cs: Seq<ClientView>, now: u64) -> Seq<
    ObjectView,
>
    decreases os.len(),
{
    if os.len() == 0 {
        Seq::empty()
    } else {
        let rest = objects_of_live_owners(os.drop_last(), cs, now);
        if !owner_is_stale(cs, os.last().client_id, now) {
            rest.push(os.last())
        } else {
            rest
        }
    }
}

/// The stale clients at `now` are dropped, with every object they own.
pub open spec fn close_stale_step(s: ServerView, now: u64) -> ServerView {
    ServerView {
        connections: fresh_clients(s.connections, now),
        objects: objects_of_live_owners(s.objects, s.connections, now),
        ..s
    }
}

/// The first client at `peer`, if any, is marked as heard from at `now`.
pub open spec fn update_client_step(s: ServerView, peer: PeerAddr, now: u64) -> ServerView {
    if has_addr(s.connections, peer) {
        let i = first_addr_index(s.connections, peer);
        ServerView {
            connections: s.connections.update(i, ClientView { last_message: now, ..s.connections[i] }),
            ..s
        }
    } else {
        s
    }
}

/// What the client update answers: whether the first client at `peer` had
/// been silent for a whole second or more.
pub open spec fn update_client_result(s: ServerView, peer: PeerAddr, now: u64) -> bool {
    has_addr(s.connections, peer) && whole_secs_between(
        now,
        s.connections[first_addr_index(s.connections, peer)].last_message,
    ) > 0
}

/// The client with id `uid`, if any, is dropped.
pub open spec fn close_connection_step(s: ServerView, uid: u32) -> ServerView {
    if has_guid(s.connections, uid) {
        ServerView { connections: s.connections.remove(guid_index(s.connections, uid)), ..s }
    } else {
        s
    }
}

// ----- objects -----

/// The object with id `id`, if any, is dropped.
pub open spec fn unregister_object_step(s: ServerView, id: u32) -> ServerView {
    if has_object(s.objects, id) {
        ServerView { objects: s.objects.remove(object_index(s.objects, id)), ..s }
    } else {
        s
    }
}

/// The property a registration `msg` from its sender creates under the id
/// `new_id`: owner `msg[0..4]`, parent `msg[4..8]`, requested id `msg[8..12]`,
/// data `msg[12..]`.
pub open spec fn registered_property(msg: Seq<u8>, new_id: u32) -> ObjectView {
    ObjectView {
        id: new_id,
        parent_id: u32_at(msg, 4),
        bytes: msg.subrange(12, msg.len() as int),
        client_id: u32_at(msg, 0),
        original_id: u32_at(msg, 8),
    }
}

/// A property registration: the owner named in the message moves to `addr`,
/// the property is stored under `new_id`, and its announcement goes to
/// `addr` and every listener.
pub open spec fn register_property_step(s: ServerView, msg: Seq<u8>, addr: PeerAddr, new_id: u32) -> ServerView {
    let o = registered_property(msg, new_id);
    let cs = set_addr(s.connections, o.client_id, addr);
    broadcast_step(
        ServerView { connections: cs, objects: s.objects.push(o), ..s },
        property_msg(o),
        addr,
        COND_NONE,
    )
}

/// The object an object registration `msg` from `addr` creates under `new_id`:
/// owned by the client named in `msg[0..4]`, or when that is 0 by the first
/// client at `addr`; requested id `msg[4..8]`; data `msg[8..]`.
pub open spec fn registered_object(cs: Seq<ClientView>, msg: Seq<u8>, addr: PeerAddr, new_id: u32) -> ObjectView {
    let uid = if u32_at(msg, 0) == 0 {
        cs[first_addr_index(cs, addr)].guid
    } else {
        u32_at(msg, 0)
    };
    ObjectView {
        id: new_id,
        parent_id: uid,
        bytes: msg.subrange(8, msg.len() as int),
        client_id: uid,
        original_id: u32_at(msg, 4),
    }
}

/// An object registration: the object is stored under `new_id`, and the spawn
/// announcement, naming the first client at `addr`, goes to `addr` and every
/// listener.
pub open spec fn register_object_step(s: ServerView, msg: Seq<u8>, addr: PeerAddr, new_id: u32) -> ServerView {
    let o = registered_object(s.connections, msg, addr, new_id);
    let first = s.connections[first_addr_index(s.connections, addr)];
    broadcast_step(
        ServerView { objects: s.objects.push(o), ..s },
        spawned_msg(first.guid, o.original_id, new_id, o.bytes),
        addr,
        COND_NONE,
    )
}

/// An object state request for the object named in `msg[4..8]`: when it is
/// registered, its spawn announcement (parent, 0, id, data) goes to `addr`.
pub open spec fn objectstate_step(s: ServerView, msg: Seq<u8>, addr: PeerAddr) -> ServerView {
    let oid = u32_at(msg, 4);
    if has_object(s.objects, oid) {
        let o = s.objects[object_index(s.objects, oid)];
        emit(s, seq![send(spawned_msg(o.parent_id, 0, oid, o.bytes), addr)])
    } else {
        s
    }
}

/// A property state request for the object named in `msg[4..8]`: when it is
/// registered, its property announcement goes to `addr`.
pub open spec fn propertystate_step(s: ServerView, msg: Seq<u8>, addr: PeerAddr) -> ServerView {
    let oid = u32_at(msg, 4);
    if has_object(s.objects, oid) {
        let o = s.objects[object_index(s.objects, oid)];
        emit(s, seq![send(property_msg(o), addr)])
    } else {
        s
    }
}

// ----- routing -----

/// The request sizes the router needs: with fewer bytes than these a
/// handler would read past the end of the message.
pub open spec fn route_fits(cs: Seq<ClientView>, msg: Seq<u8>, peer: PeerAddr) -> bool {
    msg.len() < 2 || msg[0] != MSG_WORLD || {
        let r = msg[1];
        &&& r == SR_REGISTER ==> msg.len() >= 6
        &&& r == SR_PROPERTYREP ==> msg.len() >= 6
        &&& (r == SR_REGISTRATION_SPAWNED && sender_id(cs, peer) != 0) ==> msg.len() >= 10
        &&& r == SR_REGISTER_PROPERTY ==> msg.len() >= 14
        &&& (r == SR_REQUEST_USERSTATE || r == SR_REQUEST_OBJECTSTATE || r
            == SR_REQUEST_PROPERTYSTATE) ==> msg.len() >= 10
    }
}

/// Whether the request `msg` from `peer` registers an object or a property,
/// and so needs an unused object id.
pub open spec fn route_needs_id(cs: Seq<ClientView>, msg: Seq<u8>, peer: PeerAddr) -> bool {
    msg.len() >= 2 && msg[0] == MSG_WORLD && (msg[1] == SR_REGISTER_PROPERTY || (msg[1]
        == SR_REGISTRATION_SPAWNED && sender_id(cs, peer) != 0))
}

/// Whether the router handles `msg` itself: short messages and every world
/// route but "joined", "rejoin" and unknown codes; no other channel.
pub open spec fn route_result(msg: Seq<u8>) -> bool {
    if msg.len() < 2 {
        true
    } else if msg[0] == MSG_WORLD {
        msg[1] <= SR_VOICE && msg[1] != SR_JOINED && msg[1] != SR_REJOIN
    } else {
        false
    }
}

/// What routing a world request `msg` from `peer` does, with `now` as the
/// clock reading and `new_id` as the id of a registered object. Most routes
/// act only for a sender that is a connected client (a nonzero sender id);
/// each handled route records the request before or after acting, as listed.
pub open spec fn world_route_step(s: ServerView, msg: Seq<u8>, peer: PeerAddr, now: u64, new_id: u32) -> ServerView {
    let sid = sender_id(s.connections, peer);
    let body = msg.subrange(2, msg.len() as int);
    let r = msg[1];
    if r == SR_REGISTER {
        emit(
            add_connection_step(s, msg.subrange(6, msg.len() as int), peer, now),
            seq![record(peer, RequestLog::Register, msg)],
        )
    } else if r == SR_TIME {
        if sid != 0 {
            emit(s, seq![send(time_reply(now), peer), record(peer, RequestLog::Time, msg)])
        } else {
            s
        }
    } else if r == SR_CALLBACK_UPDATE {
        if sid != 0 {
            emit(broadcast_step(s, body, peer, COND_NONE), seq![record(peer, RequestLog::Callback, msg)])
        } else {
            s
        }
    } else if r == SR_PROPERTYREP {
        if sid == 0 {
            emit(property_message_step(s, msg, peer), seq![record(peer, RequestLog::PropertyRep, msg)])
        } else {
            property_message_step(s, msg, peer)
        }
    } else if r == SR_FUNCREP {
        if sid != 0 {
            emit(broadcast_step(s, body, peer, COND_NONE), seq![record(peer, RequestLog::FunctionRep, msg)])
        } else {
            s
        }
    } else if r == SR_ACK {
        if sid != 0 {
            emit(s, seq![record(peer, RequestLog::Ack, msg)])
        } else {
            s
        }
    } else if r == SR_RPC {
        if sid != 0 {
            emit(broadcast_step(s, body, peer, COND_NONE), seq![record(peer, RequestLog::Rpc, msg)])
        } else {
            s
        }
    } else if r == SR_CLOSED {
        if sid != 0 {
            emit(closed_connection_step(s, peer), seq![record(peer, RequestLog::Closed, msg)])
        } else {
            s
        }
    } else if r == SR_REGISTRATION_SPAWNED {
        if sid != 0 {
            emit(
                register_object_step(s, body, peer, new_id),
                seq![record(peer, RequestLog::RegistrationSpawned, msg)],
            )
        } else {
            s
        }
    } else if r == SR_REGISTER_PROPERTY {
        emit(
            register_property_step(s, body, peer, new_id),
            seq![record(peer, RequestLog::RegisterProperty, msg)],
        )
    } else if r == SR_REQUEST_USERSTATE {
        userstate_step(emit(s, seq![record(peer, RequestLog::UserState, msg)]), body, peer)
    } else if r == SR_REQUEST_OBJECTSTATE {
        objectstate_step(emit(s, seq![record(peer, RequestLog::ObjectState, msg)]), body, peer)
    } else if r == SR_REQUEST_PROPERTYSTATE {
        emit(propertystate_step(s, body, peer), seq![record(peer, RequestLog::PropertyState, msg)])
    } else if r == SR_VOICE {
        broadcast_step(emit(s, seq![record(peer, RequestLog::Voice, msg)]), msg, peer, COND_NONE)
    } else {
        s
    }
}

/// What routing `msg` from `peer` does: nothing for short messages and other
/// channels, `world_route_step` for the world channel.
pub open spec fn route_step(s: ServerView, msg: Seq<u8>, peer: PeerAddr, now: u64, new_id: u32) -> ServerView {
    if msg.len() < 2 || msg[0] != MSG_WORLD {
        s
    } else {
        world_route_step(s, msg, peer, now, new_id)
    }
}

/// What receiving a datagram from `addr` at `now` does: the stale clients and
/// their objects are dropped, then the first client at `addr` is marked as
/// heard from.
pub open spec fn receive_step(s: ServerView, addr: PeerAddr, now: u64) -> ServerView {
    update_client_step(close_stale_step(s, now), addr, now)
}

} // verus!
