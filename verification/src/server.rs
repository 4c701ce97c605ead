//! The world server's state machine: the registry of connected clients and
//! registered objects, and the handlers that turn each request into changes
//! of that registry and into outgoing datagrams. The server sends nothing
//! itself: every datagram, and every request it records, is appended to its
//! outbox for the caller to carry out.

use crate::addr::PeerAddr;
use crate::definitions::{COND_AUTONOMOUSONLY, COND_CUSTOM, COND_INITIALONLY, COND_INITIALOROWNER, COND_NONE, COND_OWNERONLY, COND_SIMULATEDONLY, COND_SIMULATEDORPHYSICS, COND_SKIP, COND_SKIPOWNER, MSG_WORLD, SR_ACK, SR_AUTHORITY, SR_CALLBACK_UPDATE, SR_CLOSED, SR_FUNCREP, SR_JOINED, SR_PLAYER_STATE_UPDATE, SR_PROPERTYREP, SR_REGISTER, SR_REGISTER_PROPERTY, SR_REGISTRATION_SPAWNED, SR_REJOIN, SR_REQUEST_OBJECTSTATE, SR_REQUEST_PROPERTYSTATE, SR_REQUEST_USERSTATE, SR_RPC, SR_SESSION_UPDATE, SR_STATE, SR_TIME, SR_UNREGISTER_OBJECT, SR_VOICE};
use crate::model::{EffectView, RequestLog, ServerView, add_connection_step, broadcast_step, clients_not_at, close_connection_step, close_notices, close_stale_step, closed_connection_step, closed_msg, emit, fresh_clients, guid_index, guids_unique, has_addr, has_guid, has_object, insert_client, is_first_addr, is_stale, join_notices, joined_msg, lemma_first_addr_unique, new_client, notify_new_connection_step, object_ids_unique, object_index, objects_of_live_owners, objectstate_step, owner_is_stale, property_message_step, property_msg, propertystate_step, receive_step, record, register_object_step, register_property_step, registered_msg, registered_object, registered_property, rejoin_msg, route_fits, route_needs_id, route_result, route_step, send, sender_id, sends_to_all, sends_to_others, sends_to_sender_and_others, set_addr, spawned_msg, time_reply, unregister_object_step, update_client_result, update_client_step, userstate_step, world_msg, world_route_step};
use crate::objects::{NANOS_PER_SEC, Client, ClientView, ObjectRep, ObjectView};
use crate::wire::{get_u32, low_u16, tail, header, le32, le64, push_tail, push_u32, push_u64, spec_uid_of_port, u32_at, uid_of_port};
use crate::sources::{precise_time_ns, random_u32};
use vstd::prelude::*;
use vstd::set_lib::{lemma_int_range, lemma_len_subset, set_int_range};
use vstd::slice::slice_to_vec;

verus! {

/// An effect the server asks its caller to carry out.
#[derive(PartialEq, Eq, Debug, Clone)]
pub enum Effect {
    /// Send `bytes` to `to`.
    Send { bytes: Vec<u8>, to: PeerAddr },
    /// Record the request `bytes` from `peer`, under the kind `log`.
    Record { peer: PeerAddr, log: RequestLog, bytes: Vec<u8> },
}

impl View for Effect {
    type V = EffectView;

    open spec fn view(&self) -> EffectView {
        match self {
            Effect::Send { bytes, to } => EffectView::Send { bytes: bytes@, to: *to },
            Effect::Record { peer, log, bytes } => EffectView::Record {
                peer: *peer,
                log: *log,
                bytes: bytes@,
            },
        }
    }
}

/// The views of a sequence of clients.
pub open spec fn client_views(cs: Seq<Client>) -> Seq<ClientView> {
    cs.map_values(|c: Client| c@)
}

/// The views of a sequence of objects.
pub open spec fn object_views(os: Seq<ObjectRep>) -> Seq<ObjectView> {
    os.map_values(|o: ObjectRep| o@)
}

/// The views of a sequence of effects.
pub open spec fn effect_views(es: Seq<Effect>) -> Seq<EffectView> {
    es.map_values(|e: Effect| e@)
}

/// The world server: the address it listens on, the connected clients, the
/// registered objects, and the effects it has asked for and not yet handed
/// out.
#[derive(Debug)]
pub struct Server {
    pub addr: PeerAddr,
    pub connections: Vec<Client>,
    pub objects: Vec<ObjectRep>,
    pub outbox: Vec<Effect>,
}

impl View for Server {
    type V = ServerView;

    open spec fn view(&self) -> ServerView {
        ServerView {
            connections: client_views(self.connections@),
            objects: object_views(self.objects@),
            effects: effect_views(self.outbox@),
        }
    }
}

impl Server {
    /// Every client id and every object id occurs once.
    pub open spec fn wf(&self) -> bool {
        &&& guids_unique(self@.connections)
        &&& object_ids_unique(self@.objects)
    }

    /// A server for `addr` with no clients, no objects and no pending effects.
    pub fn new(addr: PeerAddr) -> (s: Server)
        ensures
            s.wf(),
            s.addr == addr,
            s@.connections == Seq::<ClientView>::empty(),
            s@.objects == Seq::<ObjectView>::empty(),
            s@.effects == Seq::<EffectView>::empty(),
    {
        let s = Server {
            addr,
            connections: Vec::new(),
            objects: Vec::new(),
            outbox: Vec::new(),
        };
        assert(s@.connections =~= Seq::<ClientView>::empty());
        assert(s@.objects =~= Seq::<ObjectView>::empty());
        assert(s@.effects =~= Seq::<EffectView>::empty());
        s
    }

    /// Hands out the pending effects, in the order they were asked for.
    pub fn take_effects(&mut self) -> (es: Vec<Effect>)
        ensures
            effect_views(es@) == old(self)@.effects,
            final(self)@ == (ServerView { effects: Seq::empty(), ..old(self)@ }),
            final(self).addr == old(self).addr,
    {
        let mut es: Vec<Effect> = Vec::new();
        std::mem::swap(&mut es, &mut self.outbox);
        assert(effect_views(self.outbox@) =~= Seq::<EffectView>::empty());
        es
    }

    /// Asks for `bytes` to be sent to `to`.
    fn push_send(&mut self, bytes: &[u8], to: PeerAddr)
        ensures
            final(self)@ == emit(old(self)@, seq![send(bytes@, to)]),
            final(self).connections == old(self).connections,
            final(self).objects == old(self).objects,
            final(self).addr == old(self).addr,
    {
        let v = slice_to_vec(bytes);
        self.outbox.push(Effect::Send { bytes: v, to });
        assert(effect_views(self.outbox@) =~= effect_views(old(self).outbox@) + seq![send(bytes@, to)]);
    }

    /// Asks for the request `bytes` from `peer` to be recorded as `log`.
    fn push_record(&mut self, peer: PeerAddr, log: RequestLog, bytes: &[u8])
        ensures
            final(self)@ == emit(old(self)@, seq![record(peer, log, bytes@)]),
            final(self).connections == old(self).connections,
            final(self).objects == old(self).objects,
            final(self).addr == old(self).addr,
    {
        let v = slice_to_vec(bytes);
        self.outbox.push(Effect::Record { peer, log, bytes: v });
        assert(effect_views(self.outbox@) =~= effect_views(old(self).outbox@) + seq![
            record(peer, log, bytes@),
        ]);
    }

    /// Sends `msg` to every client not at `sender`, in order.
    fn send_to_others(&mut self, msg: &[u8], sender: PeerAddr)
        ensures
            final(self)@ == emit(old(self)@, sends_to_others(old(self)@.connections, msg@, sender)),
            final(self).connections == old(self).connections,
            final(self).objects == old(self).objects,
            final(self).addr == old(self).addr,
    {
        let mut i: usize = 0;
        while i < self.connections.len()
            invariant
                0 <= i <= self.connections@.len(),
                self.connections == old(self).connections,
                self.objects == old(self).objects,
                self.addr == old(self).addr,
                self@ == emit(
                    old(self)@,
                    sends_to_others(old(self)@.connections.subrange(0, i as int), msg@, sender),
                ),
            decreases self.connections@.len() - i,
        {
            let to = self.connections[i].addr;
            if to != sender {
                self.push_send(msg, to);
            }
            i = i + 1;
            let ghost pre = old(self)@.connections.subrange(0, i as int);
            assert(pre.drop_last() =~= old(self)@.connections.subrange(0, i - 1));
            assert(self@.effects =~= old(self)@.effects + sends_to_others(pre, msg@, sender));
        }
        assert(old(self)@.connections.subrange(0, i as int) =~= old(self)@.connections);
    }

    /// Sends `msg` from `sender` under the replication condition
    /// `rep_condition`: owner-only back to the sender, skip-owner to every
    /// client not at the sender's address, and initial-only, simulated-only,
    /// custom, initial-or-owner, autonomous-only, simulated-or-physics, skip
    /// and "none" to the sender and then to every client not at the sender's
    /// address; any other code sends nothing. Always true.
    pub fn broadcast(&mut self, msg: &[u8], sender: PeerAddr, rep_condition: u8) -> (r: bool)
        ensures
            r,
            final(self)@ == broadcast_step(old(self)@, msg@, sender, rep_condition),
            final(self).connections == old(self).connections,
            final(self).objects == old(self).objects,
            final(self).addr == old(self).addr,
    {
        let mut cond = rep_condition;
        if rep_condition == COND_INITIALONLY || rep_condition == COND_SIMULATEDONLY
            || rep_condition == COND_CUSTOM || rep_condition == COND_INITIALOROWNER
            || rep_condition == COND_AUTONOMOUSONLY || rep_condition == COND_SIMULATEDORPHYSICS
            || rep_condition == COND_SKIP {
            cond = COND_NONE;
        }
        if cond == COND_OWNERONLY {
            self.push_send(msg, sender);
        } else if cond == COND_SKIPOWNER {
            self.send_to_others(msg, sender);
        } else if cond == COND_NONE {
            self.push_send(msg, sender);
            self.send_to_others(msg, sender);
            assert(self@.effects =~= old(self)@.effects + sends_to_sender_and_others(
                old(self)@.connections,
                msg@,
                sender,
            ));
        } else {
            assert(self@ =~= emit(old(self)@, Seq::empty()));
        }
        true
    }

    /// The id of the first client at `sender`, or 0 when none is there.
    pub fn get_sender_id(&mut self, sender: PeerAddr) -> (id: u32)
        ensures
            id == sender_id(old(self)@.connections, sender),
            *final(self) == *old(self),
    {
        match self.first_at(sender) {
            Some(i) => self.connections[i].guid,
            None => 0,
        }
    }

    /// Handles a remote procedure call: the message goes to the sender and every
    /// listener ("none").
    pub fn rpc_message(&mut self, msg: &[u8], sender: PeerAddr) -> (r: bool)
        ensures
            r,
            final(self)@ == broadcast_step(old(self)@, msg@, sender, COND_NONE),
            final(self).addr == old(self).addr,
    {
        self.broadcast(msg, sender, COND_NONE);
        true
    }

    /// Handles a callback update: the message goes to the sender and every
    /// listener ("none").
    pub fn callback_message(&mut self, msg: &[u8], sender: PeerAddr) -> (r: bool)
        ensures
            r,
            final(self)@ == broadcast_step(old(self)@, msg@, sender, COND_NONE),
            final(self).addr == old(self).addr,
    {
        self.broadcast(msg, sender, COND_NONE);
        true
    }

    /// Handles a function replication: the message goes to the sender and every
    /// listener ("none").
    pub fn function_message(&mut self, msg: &[u8], sender: PeerAddr) -> (r: bool)
        ensures
            r,
            final(self)@ == broadcast_step(old(self)@, msg@, sender, COND_NONE),
            final(self).addr == old(self).addr,
    {
        self.broadcast(msg, sender, COND_NONE);
        true
    }

    /// Handles voice data: the message goes to the sender and every
    /// listener ("none").
    pub fn voicedata(&mut self, msg: &[u8], addr: PeerAddr) -> (r: bool)
        ensures
            r,
            final(self)@ == broadcast_step(old(self)@, msg@, addr, COND_NONE),
            final(self).addr == old(self).addr,
    {
        self.broadcast(msg, addr, COND_NONE)
    }

    /// Handles a ping: nothing to do.
    pub fn ping_message(&mut self, msg: &[u8], sender: PeerAddr) -> (r: bool)
        ensures
            r,
            *final(self) == *old(self),
    {
        true
    }

    /// Handles an acknowledgement: nothing to do.
    pub fn ack_message(&mut self, msg: &[u8], sender: PeerAddr) -> (r: bool)
        ensures
            r,
            *final(self) == *old(self),
    {
        true
    }

    /// Handles a time request at the clock reading `now`: the time reply
    /// goes back to the sender.
    pub fn time_message_at(&mut self, msg: &[u8], sender: PeerAddr, now: u64) -> (r: bool)
        ensures
            r,
            final(self)@ == emit(old(self)@, seq![send(time_reply(now), sender)]),
            final(self).connections == old(self).connections,
            final(self).objects == old(self).objects,
            final(self).addr == old(self).addr,
    {
        let mut out = header(MSG_WORLD, SR_TIME);
        let mut k: usize = 0;
        while k < 8
            invariant
                0 <= k <= 8,
                out@ == seq![MSG_WORLD, SR_TIME] + Seq::new(k as nat, |j: int| 0u8),
            decreases 8 - k,
        {
            out.push(0u8);
            k = k + 1;
            assert(out@ =~= seq![MSG_WORLD, SR_TIME] + Seq::new(k as nat, |j: int| 0u8));
        }
        push_u64(&mut out, now);
        assert(out@ =~= time_reply(now));
        self.broadcast(out.as_slice(), sender, COND_OWNERONLY);
        true
    }

    /// Handles a time request: the reply carries one reading of the clock.
    pub fn time_message(&mut self, msg: &[u8], sender: PeerAddr) -> (r: bool)
        ensures
            r,
            exists|now: u64| final(self)@ == emit(old(self)@, seq![send(time_reply(now), sender)]),
            final(self).connections == old(self).connections,
            final(self).objects == old(self).objects,
            final(self).addr == old(self).addr,
    {
        let now = precise_time_ns();
        self.time_message_at(msg, sender, now)
    }

    /// Tells a rejoining client its id and settings.
    pub fn rejoin(&mut self, client: Client) -> (r: bool)
        ensures
            r,
            final(self)@ == emit(
                old(self)@,
                seq![send(rejoin_msg(client.guid, client.settings@), client.addr)],
            ),
            final(self).connections == old(self).connections,
            final(self).objects == old(self).objects,
            final(self).addr == old(self).addr,
    {
        let out = id_msg(SR_REJOIN, client.guid, client.settings.as_slice());
        self.broadcast(out.as_slice(), client.addr, COND_OWNERONLY);
        true
    }

    /// The id of a connection from `addr`, given by its port.
    pub fn create_uid(&mut self, addr: PeerAddr) -> (uid: u32)
        ensures
            uid == spec_uid_of_port(addr.spec_port()),
            *final(self) == *old(self),
    {
        uid_of_port(addr.port())
    }

    /// Announces client `id` to every client not at its address.
    pub fn notify_new_connection(&mut self, id: u32) -> (r: bool)
        requires
            old(self).wf(),
            has_guid(old(self)@.connections, id),
        ensures
            r,
            final(self).wf(),
            final(self)@ == notify_new_connection_step(old(self)@, id),
            final(self).addr == old(self).addr,
    {
        let i = self.index_of_guid(id).unwrap();
        let addr = self.connections[i].addr;
        let msg = id_msg(SR_JOINED, id, &[]);
        assert(msg@ =~= world_msg(SR_JOINED, le32(id)));
        self.broadcast(msg.as_slice(), addr, COND_SKIPOWNER);
        true
    }

    /// Answers a state request for the client named in `msg[4..8]`: when it is
    /// connected, its id and settings go to `addr` twice and the answer is
    /// true; otherwise the answer is false.
    pub fn userstate(&mut self, msg: &[u8], addr: PeerAddr) -> (r: bool)
        requires
            old(self).wf(),
            msg@.len() >= 8,
        ensures
            r == has_guid(old(self)@.connections, u32_at(msg@, 4)),
            final(self).wf(),
            final(self)@ == userstate_step(old(self)@, msg@, addr),
            final(self).addr == old(self).addr,
    {
        let _uid = get_u32(msg, 0);
        let oid = get_u32(msg, 4);
        match self.index_of_guid(oid) {
            Some(i) => {
                let out = id_msg(SR_JOINED, self.connections[i].guid, self.connections[i].settings.as_slice());
                self.broadcast(out.as_slice(), addr, COND_OWNERONLY);
                self.push_send(out.as_slice(), addr);
                assert(self@ =~= userstate_step(old(self)@, msg@, addr));
                true
            },
            None => false,
        }
    }

    /// Answers an object state request for the object named in `msg[4..8]`:
    /// when it is registered, its spawn announcement goes to `addr` and the
    /// answer is true; otherwise the answer is false.
    pub fn objectstate(&mut self, msg: &[u8], addr: PeerAddr) -> (r: bool)
        requires
            old(self).wf(),
            msg@.len() >= 8,
        ensures
            r == has_object(old(self)@.objects, u32_at(msg@, 4)),
            final(self).wf(),
            final(self)@ == objectstate_step(old(self)@, msg@, addr),
            final(self).addr == old(self).addr,
    {
        let _requester = get_u32(msg, 0);
        let oid = get_u32(msg, 4);
        match self.index_of_object(oid) {
            Some(i) => {
                let mut out = header(MSG_WORLD, SR_REGISTRATION_SPAWNED);
                push_u32(&mut out, self.objects[i].parent_id);
                push_u32(&mut out, 0);
                push_u32(&mut out, oid);
                push_tail(&mut out, self.objects[i].bytes.as_slice(), 0);
                let ghost o = old(self)@.objects[i as int];
                assert(self.objects[i as int].bytes@.subrange(0, o.bytes.len() as int) =~= o.bytes);
                assert(out@ =~= spawned_msg(o.parent_id, 0, oid, o.bytes));
                self.broadcast(out.as_slice(), addr, COND_OWNERONLY);
                true
            },
            None => false,
        }
    }

    /// Answers a property state request for the object named in `msg[4..8]`:
    /// when it is registered, its property announcement goes to `addr` and the
    /// answer is true; otherwise the answer is false.
    pub fn propertystate(&mut self, msg: &[u8], addr: PeerAddr) -> (r: bool)
        requires
            old(self).wf(),
            msg@.len() >= 8,
        ensures
            r == has_object(old(self)@.objects, u32_at(msg@, 4)),
            final(self).wf(),
            final(self)@ == propertystate_step(old(self)@, msg@, addr),
            final(self).addr == old(self).addr,
    {
        let _requester = get_u32(msg, 0);
        let oid = get_u32(msg, 4);
        match self.index_of_object(oid) {
            Some(i) => {
                let out = property_bytes(&self.objects[i]);
                self.broadcast(out.as_slice(), addr, COND_OWNERONLY);
                true
            },
            None => false,
        }
    }

    /// Drops the client with id `uid`, if any. Always true.
    pub fn close_connection(&mut self, uid: &u32) -> (r: bool)
        requires
            old(self).wf(),
        ensures
            r,
            final(self).wf(),
            final(self)@ == close_connection_step(old(self)@, *uid),
            final(self).addr == old(self).addr,
    {
        match self.index_of_guid(*uid) {
            Some(i) => {
                let _gone = self.connections.remove(i);
                assert(self@.connections =~= old(self)@.connections.remove(i as int));
            },
            None => {},
        }
        true
    }

    /// Drops the object with id `id`, if any. Always true.
    pub fn unregister_object(&mut self, id: u32) -> (r: bool)
        requires
            old(self).wf(),
        ensures
            r,
            final(self).wf(),
            final(self)@ == unregister_object_step(old(self)@, id),
            final(self).addr == old(self).addr,
    {
        match self.index_of_object(id) {
            Some(i) => {
                let _gone = self.objects.remove(i);
                assert(self@.objects =~= old(self)@.objects.remove(i as int));
            },
            None => {},
        }
        true
    }

    /// Registered objects are announced on request only. Always false.
    pub fn notify_registered_object(&mut self, id: u32) -> (r: bool)
        ensures
            !r,
            *final(self) == *old(self),
    {
        false
    }

    /// Accepts a datagram for routing; the answer is always `Ok(true)` and
    /// nothing changes.
    pub fn respond(&mut self, msg: &[u8], sender: PeerAddr) -> (r: Result<bool, ()>)
        ensures
            r == Ok::<bool, ()>(true),
            *final(self) == *old(self),
    {
        Ok(true)
    }

    /// Moves the client with id `g`, if any, to address `a`.
    fn move_client(&mut self, g: u32, a: PeerAddr)
        requires
            old(self).wf(),
        ensures
            final(self).wf(),
            final(self)@ == (ServerView {
                connections: set_addr(old(self)@.connections, g, a),
                ..old(self)@
            }),
            final(self).addr == old(self).addr,
    {
        match self.index_of_guid(g) {
            Some(i) => {
                self.connections[i].addr = a;
                assert forall|j: int| 0 <= j < self@.connections.len() && j != i implies
                    old(self)@.connections[j].guid != g by {}
                assert(self@.connections =~= set_addr(old(self)@.connections, g, a));
            },
            None => {
                assert(self@.connections =~= set_addr(old(self)@.connections, g, a));
            },
        }
    }

    /// Handles a property replication from `sender`: when no client is at
    /// `sender`, the client named in `msg[2..6]` moves there; then the message
    /// goes to every client not at `sender`. Always true.
    pub fn property_message(&mut self, msg: &[u8], sender: PeerAddr) -> (r: bool)
        requires
            old(self).wf(),
            msg@.len() >= 6,
        ensures
            r,
            final(self).wf(),
            final(self)@ == property_message_step(old(self)@, msg@, sender),
            final(self).addr == old(self).addr,
    {
        let id = self.get_sender_id(sender);
        let _sid = get_u32(msg, 2);
        if id == 0 {
            let named = get_u32(msg, 2);
            self.move_client(named, sender);
        }
        self.broadcast(msg, sender, COND_SKIPOWNER);
        true
    }

    /// Handles a close request from `sender`: every client at `sender` is
    /// dropped, and for each of them, in order, every remaining client is sent
    /// its closing notice. Always true.
    pub fn closed_connection(&mut self, msg: &[u8], sender: PeerAddr) -> (r: bool)
        requires
            old(self).wf(),
        ensures
            r,
            final(self).wf(),
            final(self)@ == closed_connection_step(old(self)@, sender),
            final(self).addr == old(self).addr,
    {
        let ghost cs = old(self)@.connections;
        let ghost others = clients_not_at(cs, sender);
        let mut i: usize = 0;
        while i < self.connections.len()
            invariant
                0 <= i <= self.connections@.len(),
                self.connections == old(self).connections,
                self.objects == old(self).objects,
                self.addr == old(self).addr,
                cs == old(self)@.connections,
                others == clients_not_at(cs, sender),
                self@.effects == old(self)@.effects + close_notices(cs.subrange(0, i as int), others, sender),
            decreases self.connections@.len() - i,
        {
            if self.connections[i].addr == sender {
                let notice = id_msg(SR_CLOSED, self.connections[i].guid, &[]);
                assert(notice@ =~= closed_msg(cs[i as int].guid));
                self.send_to_others(notice.as_slice(), sender);
                proof {
                    lemma_others_are_not_at(cs, notice@, sender);
                }
            }
            i = i + 1;
            assert(cs.subrange(0, i as int).drop_last() =~= cs.subrange(0, i - 1));
            assert(self@.effects =~= old(self)@.effects + close_notices(cs.subrange(0, i as int), others, sender));
        }
        assert(cs.subrange(0, i as int) =~= cs);
        let ghost mid = self@;
        let n = self.connections.len();
        let mut k: usize = 0;
        let mut j: usize = 0;
        while k < n
            invariant
                n == cs.len(),
                0 <= j <= k <= cs.len(),
                cs.len() == old(self).connections@.len(),
                k < cs.len() ==> j < self@.connections.len(),
                self@.connections == clients_not_at(cs.subrange(0, k as int), sender) + cs.subrange(k as int, cs.len() as int),
                j == clients_not_at(cs.subrange(0, k as int), sender).len(),
                guids_unique(self@.connections),
                self@.objects == mid.objects,
                self@.effects == mid.effects,
                self.addr == old(self).addr,
            decreases n - k,
        {
            let ghost pre = clients_not_at(cs.subrange(0, k as int), sender);
            let ghost before = self@.connections;
            assert(cs.subrange(k as int, cs.len() as int) =~= seq![cs[k as int]] + cs.subrange(k + 1, cs.len() as int));
            assert(before[j as int] == cs[k as int]);
            assert(cs.subrange(0, k + 1).drop_last() =~= cs.subrange(0, k as int));
            if self.connections[j].addr == sender {
                let _gone = self.connections.remove(j);
                assert(self@.connections =~= before.remove(j as int));
                assert(self@.connections =~= pre + cs.subrange(k + 1, cs.len() as int));
            } else {
                j = j + 1;
                assert(self@.connections =~= pre.push(cs[k as int]) + cs.subrange(k + 1, cs.len() as int));
            }
            k = k + 1;
        }
        assert(cs.subrange(0, k as int) =~= cs);
        assert(self@ =~= closed_connection_step(old(self)@, sender));
        true
    }

    /// Handles a new connection from `addr` with `msg` as its settings, at the
    /// clock reading `now`: the client is stored under the id its port gives,
    /// replacing any client with that id; then, for each stored client in
    /// order, the join notices go out (see `join_notices`). Always true.
    pub fn add_connection_at(&mut self, msg: &[u8], addr: PeerAddr, now: u64) -> (r: bool)
        requires
            old(self).wf(),
        ensures
            r,
            final(self).wf(),
            final(self)@ == add_connection_step(old(self)@, msg@, addr, now),
            final(self).addr == old(self).addr,
    {
        let x = self.create_uid(addr);
        let fresh = Client::new_at(x, addr, slice_to_vec(msg), now);
        let ghost newc = fresh@;
        assert(newc == new_client(addr, msg@, now));
        match self.index_of_guid(x) {
            Some(i) => {
                self.connections.set(i, fresh);
                assert(self@.connections =~= old(self)@.connections.update(i as int, newc));
            },
            None => {
                self.connections.push(fresh);
                assert(self@.connections =~= old(self)@.connections.push(newc));
            },
        }
        let ghost cs1 = self@.connections;
        assert(cs1 == insert_client(old(self)@.connections, newc));
        let ghost mid = self@;
        let n = self.connections.len();
        let mut i: usize = 0;
        while i < n
            invariant
                n == cs1.len(),
                0 <= i <= n,
                self@.connections == cs1,
                guids_unique(cs1),
                object_ids_unique(self@.objects),
                self@.objects == mid.objects,
                self.addr == old(self).addr,
                newc.guid == x,
                newc.addr == addr,
                newc.settings == msg@,
                self@.effects == mid.effects + join_notices(cs1.subrange(0, i as int), cs1, newc),
            decreases n - i,
        {
            let port32 = self.connections[i].guid;
            let settings = slice_to_vec(self.connections[i].settings.as_slice());
            let ghost c = cs1[i as int];
            let ghost before = self@.effects;
            let port = low_u16(port32);
            if x != port as u32 {
                let joined_new = id_msg(SR_JOINED, x, msg);
                self.broadcast(joined_new.as_slice(), addr, COND_SKIPOWNER);
                let joined_old = id_msg(SR_JOINED, port32, settings.as_slice());
                self.broadcast(joined_old.as_slice(), addr, COND_OWNERONLY);
                assert(self@.effects =~= before + sends_to_others(cs1, joined_msg(newc.guid, newc.settings), newc.addr) + seq![send(joined_msg(c.guid, c.settings), newc.addr)]);
            } else {
                let registered = id_msg(SR_REGISTER, x, msg);
                self.broadcast(registered.as_slice(), addr, COND_OWNERONLY);
                assert(self@.effects =~= before + seq![send(registered_msg(newc.guid, newc.settings), newc.addr)]);
            }
            i = i + 1;
            assert(cs1.subrange(0, i as int).drop_last() =~= cs1.subrange(0, i - 1));
            assert(self@.effects =~= mid.effects + join_notices(cs1.subrange(0, i as int), cs1, newc));
        }
        assert(cs1.subrange(0, n as int) =~= cs1);
        assert(self@ =~= add_connection_step(old(self)@, msg@, addr, now));
        true
    }

    /// Handles a new connection from `addr` with `msg` as its settings, the
    /// client created at one reading of the clock.
    pub fn add_connection(&mut self, msg: &[u8], addr: PeerAddr) -> (r: bool)
        requires
            old(self).wf(),
        ensures
            r,
            final(self).wf(),
            exists|now: u64| final(self)@ == add_connection_step(old(self)@, msg@, addr, now),
            final(self).addr == old(self).addr,
    {
        let now = precise_time_ns();
        self.add_connection_at(msg, addr, now)
    }

    /// Handles a registration request: the settings are `msg[4..]`.
    pub fn register_connection_at(&mut self, msg: &[u8], sender: PeerAddr, now: u64) -> (r: bool)
        requires
            old(self).wf(),
            msg@.len() >= 4,
        ensures
            r,
            final(self).wf(),
            final(self)@ == add_connection_step(
                old(self)@,
                msg@.subrange(4, msg@.len() as int),
                sender,
                now,
            ),
            final(self).addr == old(self).addr,
    {
        let settings = tail(msg, 4);
        self.add_connection_at(settings.as_slice(), sender, now);
        true
    }

    /// Handles a registration request, the client created at one reading of
    /// the clock: the settings are `msg[4..]`.
    pub fn register_connection(&mut self, msg: &[u8], sender: PeerAddr) -> (r: bool)
        requires
            old(self).wf(),
            msg@.len() >= 4,
        ensures
            r,
            final(self).wf(),
            exists|now: u64|
                final(self)@ == add_connection_step(
                    old(self)@,
                    msg@.subrange(4, msg@.len() as int),
                    sender,
                    now,
                ),
            final(self).addr == old(self).addr,
    {
        let now = precise_time_ns();
        self.register_connection_at(msg, sender, now)
    }

    /// An object id that no registered object has: random draws, and when
    /// sixteen of them are all taken, the smallest free id.
    pub fn fresh_object_id(&self) -> (id: u32)
        requires
            self.wf(),
            self.objects@.len() < u32::MAX,
        ensures
            !has_object(self@.objects, id),
    {
        let mut id = random_u32();
        let mut tries: u32 = 0;
        while self.index_of_object(id).is_some() && tries < 16
            invariant
                self.wf(),
                tries <= 16,
            decreases 16 - tries,
        {
            id = random_u32();
            tries = tries + 1;
        }
        if self.index_of_object(id).is_none() {
            return id;
        }
        let mut c: u32 = 0;
        while self.index_of_object(c).is_some()
            invariant
                self.wf(),
                self.objects@.len() < u32::MAX,
                c <= self@.objects.len(),
                forall|k: int| 0 <= k < c ==> has_object(self@.objects, #[trigger] (k as u32)),
            decreases self@.objects.len() - c,
        {
            proof {
                assert forall|k: int| 0 <= k < c + 1 implies has_object(self@.objects, #[trigger] (k as u32)) by {}
                lemma_taken_ids_bound(self@.objects, c + 1);
            }
            c = c + 1;
        }
        c
    }

    /// Handles a property registration with `new_id` as the property's id:
    /// the owner named in `msg[0..4]`, if connected, moves to `addr`; the
    /// property (parent `msg[4..8]`, requested id `msg[8..12]`, data
    /// `msg[12..]`) is stored; its announcement goes to the sender and every
    /// listener. Always true.
    pub fn register_property_with_id(&mut self, msg: &[u8], addr: PeerAddr, new_id: u32) -> (r: bool)
        requires
            old(self).wf(),
            msg@.len() >= 12,
            !has_object(old(self)@.objects, new_id),
        ensures
            r,
            final(self).wf(),
            final(self)@ == register_property_step(old(self)@, msg@, addr, new_id),
            final(self).addr == old(self).addr,
    {
        let sender = get_u32(msg, 0);
        self.move_client(sender, addr);
        let parent_id = get_u32(msg, 4);
        let pid = get_u32(msg, 8);
        let payload = tail(msg, 12);
        let new_prop = ObjectRep::new(pid, new_id, parent_id, payload, sender);
        let out = property_bytes(&new_prop);
        let ghost o = new_prop@;
        assert(o == registered_property(msg@, new_id));
        self.objects.push(new_prop);
        assert(self@.objects =~= old(self)@.objects.push(o));
        self.broadcast(out.as_slice(), addr, COND_NONE);
        true
    }

    /// Handles a property registration; the property's id is one no object has.
    pub fn register_property(&mut self, msg: &[u8], addr: PeerAddr) -> (r: bool)
        requires
            old(self).wf(),
            msg@.len() >= 12,
            old(self).objects@.len() < u32::MAX,
        ensures
            r,
            final(self).wf(),
            exists|new_id: u32|
                !has_object(old(self)@.objects, new_id) && final(self)@ == register_property_step(
                    old(self)@,
                    msg@,
                    addr,
                    new_id,
                ),
            final(self).addr == old(self).addr,
    {
        let new_id = self.fresh_object_id();
        self.register_property_with_id(msg, addr, new_id)
    }

    /// Handles an object registration from `addr` with `new_id` as the object's
    /// id: the object (owner `msg[0..4]`, or when that is 0 the first client at
    /// `addr`; requested id `msg[4..8]`; data `msg[8..]`) is stored, and its
    /// spawn announcement naming the first client at `addr` goes to `addr`
    /// and every listener. Always true.
    pub fn register_object_with_id(&mut self, msg: &[u8], addr: PeerAddr, new_id: u32) -> (r: bool)
        requires
            old(self).wf(),
            msg@.len() >= 8,
            has_addr(old(self)@.connections, addr),
            !has_object(old(self)@.objects, new_id),
        ensures
            r,
            final(self).wf(),
            final(self)@ == register_object_step(old(self)@, msg@, addr, new_id),
            final(self).addr == old(self).addr,
    {
        let mut uid = get_u32(msg, 0);
        let oid = get_u32(msg, 4);
        let payload = tail(msg, 8);
        let first = match self.first_at(addr) {
            Some(i) => i,
            None => {
                assert(false);
                0
            },
        };
        if uid == 0 {
            uid = self.connections[first].guid;
        }
        let first_guid = self.connections[first].guid;
        let mut out = header(MSG_WORLD, SR_REGISTRATION_SPAWNED);
        push_u32(&mut out, first_guid);
        push_u32(&mut out, oid);
        push_u32(&mut out, new_id);
        push_tail(&mut out, payload.as_slice(), 0);
        let new_object = ObjectRep::new(oid, new_id, uid, payload, uid);
        let ghost o = new_object@;
        assert(o == registered_object(old(self)@.connections, msg@, addr, new_id));
        assert(o.bytes.subrange(0, o.bytes.len() as int) =~= o.bytes);
        assert(out@ =~= spawned_msg(first_guid, oid, new_id, o.bytes));
        self.objects.push(new_object);
        assert(self@.objects =~= old(self)@.objects.push(o));
        self.notify_registered_object(oid);
        self.broadcast(out.as_slice(), addr, COND_NONE);
        true
    }

    /// Handles an object registration from `addr`; the object's id is one no
    /// object has.
    pub fn register_object(&mut self, msg: &[u8], addr: PeerAddr) -> (r: bool)
        requires
            old(self).wf(),
            msg@.len() >= 8,
            has_addr(old(self)@.connections, addr),
            old(self).objects@.len() < u32::MAX,
        ensures
            r,
            final(self).wf(),
            exists|new_id: u32|
                !has_object(old(self)@.objects, new_id) && final(self)@ == register_object_step(
                    old(self)@,
                    msg@,
                    addr,
                    new_id,
                ),
            final(self).addr == old(self).addr,
    {
        let new_id = self.fresh_object_id();
        self.register_object_with_id(msg, addr, new_id)
    }

    /// Marks the first client at `peer`, if any, as heard from at `now`, and
    /// tells whether it had been silent for a whole second or more; false when
    /// no client is at `peer`.
    pub fn update_client_at(&mut self, peer: PeerAddr, now: u64) -> (r: bool)
        requires
            old(self).wf(),
        ensures
            r == update_client_result(old(self)@, peer, now),
            final(self).wf(),
            final(self)@ == update_client_step(old(self)@, peer, now),
            final(self).addr == old(self).addr,
    {
        match self.first_at(peer) {
            Some(i) => {
                let b = self.connections[i].update_at(now);
                assert(self@.connections =~= old(self)@.connections.update(
                    i as int,
                    ClientView { last_message: now, ..old(self)@.connections[i as int] },
                ));
                b
            },
            None => false,
        }
    }

    /// Marks the first client at `peer`, if any, as heard from now.
    pub fn update_client(&mut self, peer: PeerAddr) -> (r: bool)
        requires
            old(self).wf(),
        ensures
            final(self).wf(),
            exists|now: u64|
                r == update_client_result(old(self)@, peer, now) && final(self)@
                    == update_client_step(old(self)@, peer, now),
            final(self).addr == old(self).addr,
    {
        let now = precise_time_ns();
        self.update_client_at(peer, now)
    }

    /// Whether client `owner` is connected and stale at `now`.
    fn owner_stale(&self, owner: u32, now: u64) -> (b: bool)
        ensures
            b == owner_is_stale(self@.connections, owner, now),
    {
        let mut i: usize = 0;
        while i < self.connections.len()
            invariant
                0 <= i <= self.connections@.len(),
                forall|j: int|
                    0 <= j < i ==> !(self@.connections[j].guid == owner && is_stale(
                        self@.connections[j],
                        now,
                    )),
            decreases self.connections@.len() - i,
        {
            if self.connections[i].guid == owner && client_is_stale(&self.connections[i], now) {
                assert(self@.connections[i as int].guid == owner);
                return true;
            }
            i = i + 1;
        }
        false
    }

    /// Drops every client that is stale at `now`, with every object such a
    /// client owns. Always true.
    pub fn close_stale_connections_at(&mut self, now: u64) -> (r: bool)
        requires
            old(self).wf(),
        ensures
            r,
            final(self).wf(),
            final(self)@ == close_stale_step(old(self)@, now),
            final(self).addr == old(self).addr,
    {
        let ghost os = old(self)@.objects;
        let ghost cs = old(self)@.connections;
        let n = self.objects.len();
        let mut k: usize = 0;
        let mut j: usize = 0;
        while k < n
            invariant
                n == os.len(),
                0 <= j <= k <= n,
                k < n ==> j < self@.objects.len(),
                self@.objects == objects_of_live_owners(os.subrange(0, k as int), cs, now) + os.subrange(k as int, n as int),
                j == objects_of_live_owners(os.subrange(0, k as int), cs, now).len(),
                object_ids_unique(self@.objects),
                self@.connections == cs,
                self@.effects == old(self)@.effects,
                self.addr == old(self).addr,
            decreases n - k,
        {
            let ghost pre = objects_of_live_owners(os.subrange(0, k as int), cs, now);
            let ghost before = self@.objects;
            assert(os.subrange(k as int, n as int) =~= seq![os[k as int]] + os.subrange(k + 1, n as int));
            assert(before[j as int] == os[k as int]);
            assert(os.subrange(0, k + 1).drop_last() =~= os.subrange(0, k as int));
            let owner = self.objects[j].client_id;
            if self.owner_stale(owner, now) {
                let _gone = self.objects.remove(j);
                assert(self@.objects =~= before.remove(j as int));
                assert(self@.objects =~= pre + os.subrange(k + 1, n as int));
            } else {
                j = j + 1;
                assert(self@.objects =~= pre.push(os[k as int]) + os.subrange(k + 1, n as int));
            }
            k = k + 1;
        }
        assert(os.subrange(0, n as int) =~= os);
        let ghost mid = self@;
        let m = self.connections.len();
        let mut k: usize = 0;
        let mut j: usize = 0;
        while k < m
            invariant
                m == cs.len(),
                0 <= j <= k <= m,
                k < m ==> j < self@.connections.len(),
                self@.connections == fresh_clients(cs.subrange(0, k as int), now) + cs.subrange(k as int, m as int),
                j == fresh_clients(cs.subrange(0, k as int), now).len(),
                guids_unique(self@.connections),
                self@.objects == mid.objects,
                self@.effects == mid.effects,
                self.addr == old(self).addr,
            decreases m - k,
        {
            let ghost pre = fresh_clients(cs.subrange(0, k as int), now);
            let ghost before = self@.connections;
            assert(cs.subrange(k as int, m as int) =~= seq![cs[k as int]] + cs.subrange(k + 1, m as int));
            assert(before[j as int] == cs[k as int]);
            assert(cs.subrange(0, k + 1).drop_last() =~= cs.subrange(0, k as int));
            if client_is_stale(&self.connections[j], now) {
                let _gone = self.connections.remove(j);
                assert(self@.connections =~= before.remove(j as int));
                assert(self@.connections =~= pre + cs.subrange(k + 1, m as int));
            } else {
                j = j + 1;
                assert(self@.connections =~= pre.push(cs[k as int]) + cs.subrange(k + 1, m as int));
            }
            k = k + 1;
        }
        assert(cs.subrange(0, m as int) =~= cs);
        assert(self@ =~= close_stale_step(old(self)@, now));
        true
    }

    /// Drops the stale clients and their objects, judged at one reading of
    /// the clock.
    pub fn close_stale_connections(&mut self) -> (r: bool)
        requires
            old(self).wf(),
        ensures
            r,
            final(self).wf(),
            exists|now: u64| final(self)@ == close_stale_step(old(self)@, now),
            final(self).addr == old(self).addr,
    {
        let now = precise_time_ns();
        self.close_stale_connections_at(now)
    }

    /// Routes the request `msg` from `peer`, with `now` as the clock reading
    /// and `new_id` as the id of an object it registers; tells whether the
    /// router handled the request itself.
    pub fn parse_route_at(&mut self, msg: Vec<u8>, peer: PeerAddr, now: u64, new_id: u32) -> (r: bool)
        requires
            old(self).wf(),
            route_fits(old(self)@.connections, msg@, peer),
            route_needs_id(old(self)@.connections, msg@, peer) ==> !has_object(
                old(self)@.objects,
                new_id,
            ),
        ensures
            r == route_result(msg@),
            final(self).wf(),
            final(self)@ == route_step(old(self)@, msg@, peer, now, new_id),
            final(self).addr == old(self).addr,
    {
        if msg.len() < 2 {
            return true;
        }
        let channel = msg[0];
        if channel == MSG_WORLD {
            self.world_route_at(msg.as_slice(), peer, now, new_id)
        } else {
            false
        }
    }

    /// Routes a world request; see `world_route_step`.
    fn world_route_at(&mut self, msg: &[u8], peer: PeerAddr, now: u64, new_id: u32) -> (r: bool)
        requires
            old(self).wf(),
            msg@.len() >= 2,
            msg@[0] == MSG_WORLD,
            route_fits(old(self)@.connections, msg@, peer),
            route_needs_id(old(self)@.connections, msg@, peer) ==> !has_object(
                old(self)@.objects,
                new_id,
            ),
        ensures
            r == route_result(msg@),
            final(self).wf(),
            final(self)@ == world_route_step(old(self)@, msg@, peer, now, new_id),
            final(self).addr == old(self).addr,
    {
        let system = msg[1];
        let senderid = self.get_sender_id(peer);
        let body = tail(msg, 2);
        let body = body.as_slice();
        if system == SR_REGISTER {
            self.register_connection_at(body, peer, now);
            assert(body@.subrange(4, body@.len() as int) =~= msg@.subrange(6, msg@.len() as int));
            self.push_record(peer, RequestLog::Register, msg);
            true
        } else if system == SR_TIME {
            if senderid != 0 {
                self.time_message_at(body, peer, now);
                self.push_record(peer, RequestLog::Time, msg);
                assert(self@ =~= world_route_step(old(self)@, msg@, peer, now, new_id));
            }
            true
        } else if system == SR_CALLBACK_UPDATE {
            if senderid != 0 {
                self.callback_message(body, peer);
                self.push_record(peer, RequestLog::Callback, msg);
            }
            true
        } else if system == SR_PROPERTYREP {
            if senderid == 0 {
                self.property_message(msg, peer);
                self.push_record(peer, RequestLog::PropertyRep, msg);
            }
            if senderid != 0 {
                self.property_message(msg, peer);
            }
            true
        } else if system == SR_FUNCREP {
            if senderid != 0 {
                self.function_message(body, peer);
                self.push_record(peer, RequestLog::FunctionRep, msg);
            }
            true
        } else if system == SR_ACK {
            if senderid != 0 {
                self.ack_message(body, peer);
                self.push_record(peer, RequestLog::Ack, msg);
            }
            true
        } else if system == SR_RPC {
            if senderid != 0 {
                self.rpc_message(body, peer);
                self.push_record(peer, RequestLog::Rpc, msg);
            }
            true
        } else if system == SR_CLOSED {
            if senderid != 0 {
                self.closed_connection(body, peer);
                self.push_record(peer, RequestLog::Closed, msg);
            }
            true
        } else if system == SR_REGISTRATION_SPAWNED {
            if senderid != 0 {
                self.register_object_with_id(body, peer, new_id);
                self.push_record(peer, RequestLog::RegistrationSpawned, msg);
            }
            true
        } else if system == SR_STATE || system == SR_SESSION_UPDATE || system == SR_AUTHORITY
            || system == SR_PLAYER_STATE_UPDATE {
            true
        } else if system == SR_REGISTER_PROPERTY {
            self.register_property_with_id(body, peer, new_id);
            self.push_record(peer, RequestLog::RegisterProperty, msg);
            true
        } else if system == SR_REQUEST_USERSTATE {
            self.push_record(peer, RequestLog::UserState, msg);
            self.userstate(body, peer);
            true
        } else if system == SR_REQUEST_OBJECTSTATE {
            self.push_record(peer, RequestLog::ObjectState, msg);
            self.objectstate(body, peer);
            true
        } else if system == SR_REQUEST_PROPERTYSTATE {
            self.propertystate(body, peer);
            self.push_record(peer, RequestLog::PropertyState, msg);
            true
        } else if system == SR_UNREGISTER_OBJECT {
            true
        } else if system == SR_VOICE {
            self.push_record(peer, RequestLog::Voice, msg);
            self.voicedata(msg, peer);
            true
        } else {
            false
        }
    }

    /// Routes the request `msg` from `peer`; a route that registers an object
    /// gives it an id no object has, and a route that needs the time reads the
    /// clock once.
    pub fn parse_route(&mut self, msg: Vec<u8>, addr: PeerAddr) -> (r: bool)
        requires
            old(self).wf(),
            route_fits(old(self)@.connections, msg@, addr),
            route_needs_id(old(self)@.connections, msg@, addr) ==> old(self).objects@.len()
                < u32::MAX,
        ensures
            r == route_result(msg@),
            final(self).wf(),
            exists|now: u64, new_id: u32|
                (route_needs_id(old(self)@.connections, msg@, addr) ==> !has_object(
                    old(self)@.objects,
                    new_id,
                )) && final(self)@ == route_step(old(self)@, msg@, addr, now, new_id),
            final(self).addr == old(self).addr,
    {
        let now = precise_time_ns();
        let needs_id = msg.len() >= 2 && msg[0] == MSG_WORLD && (msg[1] == SR_REGISTER_PROPERTY
            || (msg[1] == SR_REGISTRATION_SPAWNED && self.get_sender_id(addr) != 0));
        let new_id = if needs_id {
            self.fresh_object_id()
        } else {
            0
        };
        self.parse_route_at(msg, addr, now, new_id)
    }

    /// Whether `msg` from `peer` is long enough for the handler of its route.
    pub fn route_fits_request(&self, msg: &[u8], peer: PeerAddr) -> (b: bool)
        ensures
            b == route_fits(self@.connections, msg@, peer),
    {
        if msg.len() < 2 || msg[0] != MSG_WORLD {
            return true;
        }
        let r = msg[1];
        let n = msg.len();
        if r == SR_REGISTER || r == SR_PROPERTYREP {
            n >= 6
        } else if r == SR_REGISTRATION_SPAWNED {
            match self.first_at(peer) {
                Some(i) => self.connections[i].guid == 0 || n >= 10,
                None => true,
            }
        } else if r == SR_REGISTER_PROPERTY {
            n >= 14
        } else if r == SR_REQUEST_USERSTATE || r == SR_REQUEST_OBJECTSTATE
            || r == SR_REQUEST_PROPERTYSTATE {
            n >= 10
        } else {
            true
        }
    }

    /// Handles a received datagram from `addr` at the clock reading `now`: the
    /// stale clients and their objects are dropped, the first client at
    /// `addr` is marked as heard from, and the datagram is accepted. The answer
    /// is always `Ok(true)`.
    pub fn receive_at(&mut self, msg: &[u8], addr: PeerAddr, now: u64) -> (r: Result<bool, ()>)
        requires
            old(self).wf(),
        ensures
            r == Ok::<bool, ()>(true),
            final(self).wf(),
            final(self)@ == receive_step(old(self)@, addr, now),
            final(self).addr == old(self).addr,
    {
        self.close_stale_connections_at(now);
        self.update_client_at(addr, now);
        self.respond(msg, addr)
    }

    /// Handles a received datagram from `addr`, judged at one reading of the
    /// clock.
    pub fn receive(&mut self, msg: &[u8], addr: PeerAddr) -> (r: Result<bool, ()>)
        requires
            old(self).wf(),
        ensures
            r == Ok::<bool, ()>(true),
            final(self).wf(),
            exists|now: u64| final(self)@ == receive_step(old(self)@, addr, now),
            final(self).addr == old(self).addr,
    {
        let now = precise_time_ns();
        self.receive_at(msg, addr, now)
    }

    /// The position of the first client at `a`.
    fn first_at(&self, a: PeerAddr) -> (r: Option<usize>)
        ensures
            match r {
                Some(i) => is_first_addr(self@.connections, a, i as int) && sender_id(
                    self@.connections,
                    a,
                ) == self@.connections[i as int].guid,
                None => !has_addr(self@.connections, a) && sender_id(self@.connections, a) == 0,
            },
    {
        let mut i: usize = 0;
        while i < self.connections.len()
            invariant
                0 <= i <= self.connections@.len(),
                forall|j: int| 0 <= j < i ==> self@.connections[j].addr != a,
            decreases self.connections@.len() - i,
        {
            if self.connections[i].addr == a {
                proof {
                    lemma_first_addr_unique(self@.connections, a, i as int);
                }
                return Some(i);
            }
            i = i + 1;
        }
        None
    }

    /// The position of the client with id `g`.
    fn index_of_guid(&self, g: u32) -> (r: Option<usize>)
        requires
            self.wf(),
        ensures
            match r {
                Some(i) => has_guid(self@.connections, g) && guid_index(self@.connections, g)
                    == i && i < self@.connections.len(),
                None => !has_guid(self@.connections, g),
            },
    {
        let mut i: usize = 0;
        while i < self.connections.len()
            invariant
                0 <= i <= self.connections@.len(),
                forall|j: int| 0 <= j < i ==> self@.connections[j].guid != g,
                self.wf(),
            decreases self.connections@.len() - i,
        {
            if self.connections[i].guid == g {
                assert(self@.connections[i as int].guid == g);
                assert(has_guid(self@.connections, g));
                let ghost k = guid_index(self@.connections, g);
                assert(k == i as int);
                return Some(i);
            }
            i = i + 1;
        }
        None
    }

    /// The position of the object with id `id`.
    fn index_of_object(&self, id: u32) -> (r: Option<usize>)
        requires
            self.wf(),
        ensures
            match r {
                Some(i) => has_object(self@.objects, id) && object_index(self@.objects, id) == i
                    && i < self@.objects.len(),
                None => !has_object(self@.objects, id),
            },
    {
        let mut i: usize = 0;
        while i < self.objects.len()
            invariant
                0 <= i <= self.objects@.len(),
                forall|j: int| 0 <= j < i ==> self@.objects[j].id != id,
                self.wf(),
            decreases self.objects@.len() - i,
        {
            if self.objects[i].id == id {
                assert(self@.objects[i as int].id == id);
                assert(has_object(self@.objects, id));
                let ghost k = object_index(self@.objects, id);
                assert(k == i as int);
                return Some(i);
            }
            i = i + 1;
        }
        None
    }
}

/// A server driven by its caller's receive loop.
#[derive(Debug)]
pub struct Listener {
    pub stream: Server,
}

impl Listener {
    /// A listener for `stream`.
    pub fn new(stream: Server) -> (l: Listener)
        ensures
            l.stream == stream,
    {
        Listener { stream }
    }
}

/// `[world, route]`, the id `g` little-endian, then `rest`.
fn id_msg(route: u8, g: u32, rest: &[u8]) -> (out: Vec<u8>)
    ensures
        out@ == world_msg(route, le32(g) + rest@),
{
    let mut out = header(MSG_WORLD, route);
    push_u32(&mut out, g);
    push_tail(&mut out, rest, 0);
    assert(rest@.subrange(0, rest@.len() as int) =~= rest@);
    assert(out@ =~= world_msg(route, le32(g) + rest@));
    out
}

/// The property announcement of `o`.
fn property_bytes(o: &ObjectRep) -> (out: Vec<u8>)
    ensures
        out@ == property_msg(o@),
{
    let mut out = header(MSG_WORLD, SR_REGISTER_PROPERTY);
    push_u32(&mut out, o.client_id);
    push_u32(&mut out, o.parent_id);
    push_u32(&mut out, o.original_id);
    push_u32(&mut out, o.id);
    push_tail(&mut out, o.bytes.as_slice(), 0);
    assert(o.bytes@.subrange(0, o.bytes@.len() as int) =~= o.bytes@);
    assert(out@ =~= property_msg(o@));
    out
}

/// Sending to every client not at `a` is sending to every client of the
/// clients not at `a`.
proof fn lemma_others_are_not_at(cs: Seq<ClientView>, msg: Seq<u8>, a: PeerAddr)
    ensures
        sends_to_others(cs, msg, a) == sends_to_all(clients_not_at(cs, a), msg),
    decreases cs.len(),
{
    if cs.len() > 0 {
        lemma_others_are_not_at(cs.drop_last(), msg, a);
        let rest = clients_not_at(cs.drop_last(), a);
        if cs.last().addr != a {
            assert(clients_not_at(cs, a).drop_last() =~= rest);
        }
    }
}


/// Whether client `c` is stale at `now`.
fn client_is_stale(c: &Client, now: u64) -> (b: bool)
    ensures
        b == is_stale(c@, now),
{
    now >= c.last_message && (now - c.last_message) / NANOS_PER_SEC > 240
}

/// When every id below `m` is taken, there are at least `m` objects.
proof fn lemma_taken_ids_bound(os: Seq<ObjectView>, m: int)
    requires
        0 <= m <= u32::MAX + 1,
        forall|k: int| 0 <= k < m ==> has_object(os, #[trigger] (k as u32)),
    ensures
        m <= os.len(),
{
    let ids = os.map_values(|o: ObjectView| o.id as int);
    ids.lemma_cardinality_of_set();
    lemma_int_range(0, m);
    assert forall|k: int| #[trigger] set_int_range(0, m).contains(k) implies ids.to_set().contains(k) by {
        assert(has_object(os, k as u32));
        let i = choose|i: int| 0 <= i < os.len() && os[i].id == (k as u32);
        assert(ids[i] == k);
    }
    lemma_len_subset(set_int_range(0, m), ids.to_set());
}


} // verus!
