//! The load-testing peer: the benchmark server's routing (a smaller router
//! that echoes everything it receives) and the client side's request
//! datagrams and stdin command mapping.

use crate::addr::PeerAddr;
use crate::definitions::{
    COND_NONE, COND_OWNERONLY, COND_SKIPOWNER, MSG_WORLD, SR_ACK, SR_CALLBACK_UPDATE, SR_CLOSED,
    SR_FUNCREP, SR_JOINED, SR_PROPERTYREP, SR_REGISTER, SR_RPC, SR_TIME,
};
use crate::model::{
    EffectView, has_addr, is_first_addr, lemma_first_addr_unique, send, sender_id,
    sends_to_all, sends_to_others, sends_to_sender_and_others, time_reply, world_msg,
};
use crate::objects::ClientView;
use crate::server::{effect_views, Effect};
use crate::sources::{precise_time_ns, random_u32};
use crate::wire::{header, le32, le64, push_u32, push_u64};
use vstd::prelude::*;
use vstd::slice::slice_to_vec;

verus! {

/// Errors of a benchmark route.
#[derive(PartialEq, Eq, Structural, Debug, Clone, Copy)]
pub enum ServerError {
    Variant1,
    Variant2,
}

/// The result of a benchmark route: a reply or an error.
pub type ServerRouteResult = Result<Vec<u8>, ServerError>;

/// A connection the benchmark server knows: when it joined (a clock
/// reading), its id and its address.
#[derive(PartialEq, Eq, Structural, Debug, Clone, Copy, Hash)]
pub struct Client {
    pub instant: u64,
    pub guid: u32,
    pub addr: PeerAddr,
}

impl View for Client {
    type V = ClientView;

    /// A benchmark connection seen as a client without settings, last heard
    /// from when it joined.
    open spec fn view(&self) -> ClientView {
        ClientView {
            instant: self.instant,
            guid: self.guid,
            addr: self.addr,
            settings: Seq::empty(),
            last_message: self.instant,
        }
    }
}

/// The views of a sequence of benchmark connections.
pub open spec fn bench_views(cs: Seq<Client>) -> Seq<ClientView> {
    cs.map_values(|c: Client| c@)
}

/// The benchmark server's state: its connections, in the order it walks them,
/// and the effects emitted so far.
#[verifier::ext_equal]
pub struct BenchView {
    pub connections: Seq<ClientView>,
    pub effects: Seq<EffectView>,
}

/// `s` with the effects `e` emitted after the earlier ones.
pub open spec fn bench_emit(s: BenchView, e: Seq<EffectView>) -> BenchView {
    BenchView { effects: s.effects + e, ..s }
}

/// The datagrams of a benchmark broadcast: owner-only back to the sender,
/// skip-owner to every connection not at the sender's address, "none" to the
/// sender and then every connection not at its address, any other code to
/// nobody.
pub open spec fn bench_broadcast_sends(cs: Seq<ClientView>, msg: Seq<u8>, sender: PeerAddr, cond: u8) -> Seq<
    EffectView,
> {
    if cond == COND_OWNERONLY {
        seq![send(msg, sender)]
    } else if cond == COND_SKIPOWNER {
        sends_to_others(cs, msg, sender)
    } else if cond == COND_NONE {
        sends_to_sender_and_others(cs, msg, sender)
    } else {
        Seq::empty()
    }
}

/// An id field of the benchmark protocol: the id, little-endian, then two
/// zero bytes.
pub open spec fn id_field(id: u32) -> Seq<u8> {
    le32(id) + seq![0u8, 0u8]
}

/// The id of the last connection at `addr`, or `drawn` when none is there.
pub open spec fn last_guid_at(cs: Seq<ClientView>, addr: PeerAddr, drawn: u32) -> u32
    decreases cs.len(),
{
    if cs.len() == 0 {
        drawn
    } else if cs.last().addr == addr {
        cs.last().guid
    } else {
        last_guid_at(cs.drop_last(), addr, drawn)
    }
}

/// `cs` with `c` stored under its id: in place of the connection with that
/// id, or after the others.
pub open spec fn bench_insert(cs: Seq<ClientView>, c: ClientView) -> Seq<ClientView> {
    if exists|i: int| 0 <= i < cs.len() && cs[i].guid == c.guid {
        cs.update(choose|i: int| 0 <= i < cs.len() && cs[i].guid == c.guid, c)
    } else {
        cs.push(c)
    }
}

/// For each connection of `walk`, in order, a datagram to `addr`: "joined"
/// with that connection's id, or "register" with it when it is `x`.
pub open spec fn bench_join_notices(walk: Seq<ClientView>, x: u32, addr: PeerAddr) -> Seq<EffectView>
    decreases walk.len(),
{
    if walk.len() == 0 {
        Seq::empty()
    } else {
        let rest = bench_join_notices(walk.drop_last(), x, addr);
        let uid = walk.last().guid;
        if x != uid {
            rest.push(send(world_msg(SR_JOINED, id_field(uid)), addr))
        } else {
            rest.push(send(world_msg(SR_REGISTER, id_field(uid)), addr))
        }
    }
}

/// The connection made from `addr` at `now`: the id of the last connection
/// already at `addr`, or the drawn id when none is.
pub open spec fn bench_new_client(cs: Seq<ClientView>, addr: PeerAddr, now: u64, drawn: u32) -> ClientView {
    ClientView {
        instant: now,
        guid: last_guid_at(cs, addr, drawn),
        addr,
        settings: Seq::empty(),
        last_message: now,
    }
}

/// A new connection from `addr`: stored, then told every stored id.
pub open spec fn bench_add_step(s: BenchView, addr: PeerAddr, now: u64, drawn: u32) -> BenchView {
    let c = bench_new_client(s.connections, addr, now, drawn);
    let cs = bench_insert(s.connections, c);
    BenchView { connections: cs, effects: s.effects + bench_join_notices(cs, c.guid, addr) }
}

/// The connections of `cs` not at `a`, in order.
pub open spec fn bench_not_at(cs: Seq<ClientView>, a: PeerAddr) -> Seq<ClientView>
    decreases cs.len(),
{
    if cs.len() == 0 {
        Seq::empty()
    } else {
        let rest = bench_not_at(cs.drop_last(), a);
        if cs.last().addr != a {
            rest.push(cs.last())
        } else {
            rest
        }
    }
}

/// For each connection of `cs` at `a`, in order, its closing notice sent to
/// every connection of `others`.
pub open spec fn bench_close_notices(cs: Seq<ClientView>, others: Seq<ClientView>, a: PeerAddr) -> Seq<
    EffectView,
>
    decreases cs.len(),
{
    if cs.len() == 0 {
        Seq::empty()
    } else {
        let rest = bench_close_notices(cs.drop_last(), others, a);
        if cs.last().addr == a {
            rest + sends_to_all(others, world_msg(SR_CLOSED, id_field(cs.last().guid)))
        } else {
            rest
        }
    }
}

/// A close request from `sender`: the connections there are dropped, each
/// announced to every remaining connection.
pub open spec fn bench_closed_step(s: BenchView, sender: PeerAddr) -> BenchView {
    let others = bench_not_at(s.connections, sender);
    BenchView {
        connections: others,
        effects: s.effects + bench_close_notices(s.connections, others, sender),
    }
}

/// Whether the benchmark router handles `msg` itself: short messages and the
/// world routes time, register, ack, callback, rpc, property, function and
/// closed.
pub open spec fn bench_route_result(msg: Seq<u8>) -> bool {
    if msg.len() < 2 {
        true
    } else if msg[0] == MSG_WORLD {
        msg[1] <= SR_FUNCREP || msg[1] == SR_CLOSED
    } else {
        false
    }
}

/// What the benchmark router does with `msg` from `peer`, at `now`, with
/// `drawn` as the id drawn for a new connection. Time, callback, property,
/// function, rpc and close requests act only for a connected sender.
pub open spec fn bench_route_step(s: BenchView, msg: Seq<u8>, peer: PeerAddr, now: u64, drawn: u32) -> BenchView {
    if msg.len() < 2 || msg[0] != MSG_WORLD {
        s
    } else {
        let sid = sender_id(s.connections, peer);
        let body = msg.subrange(2, msg.len() as int);
        let r = msg[1];
        if r == SR_REGISTER {
            bench_add_step(s, peer, now, drawn)
        } else if sid == 0 {
            s
        } else if r == SR_TIME {
            bench_emit(s, seq![send(time_reply(now), peer)])
        } else if r == SR_CALLBACK_UPDATE || r == SR_PROPERTYREP || r == SR_FUNCREP || r == SR_RPC {
            bench_emit(s, sends_to_sender_and_others(s.connections, body, peer))
        } else if r == SR_CLOSED {
            bench_closed_step(s, peer)
        } else {
            s
        }
    }
}

/// What the benchmark server does with a received datagram: it routes it,
/// then sends the datagram back unchanged to where it came from, whatever
/// the router made of it.
pub open spec fn bench_receive_step(s: BenchView, msg: Seq<u8>, peer: PeerAddr, now: u64, drawn: u32) -> BenchView {
    bench_emit(bench_route_step(s, msg, peer, now, drawn), seq![send(msg, peer)])
}

/// The benchmark server: its connections and pending effects.
#[derive(Debug)]
pub struct Server {
    pub connections: Vec<Client>,
    pub outbox: Vec<Effect>,
}

impl View for Server {
    type V = BenchView;

    open spec fn view(&self) -> BenchView {
        BenchView { connections: bench_views(self.connections@), effects: effect_views(self.outbox@) }
    }
}

impl Server {
    /// No two connections share an id.
    pub open spec fn wf(&self) -> bool {
        forall|i: int, j: int|
            0 <= i < j < self.connections@.len() ==> self.connections@[i].guid
                != self.connections@[j].guid
    }

    /// A benchmark server with no connections and no pending effects.
    pub fn new() -> (s: Server)
        ensures
            s.wf(),
            s@.connections == Seq::<ClientView>::empty(),
            s@.effects == Seq::<EffectView>::empty(),
    {
        let s = Server { connections: Vec::new(), outbox: Vec::new() };
        assert(s@.connections =~= Seq::<ClientView>::empty());
        assert(s@.effects =~= Seq::<EffectView>::empty());
        s
    }

    /// Asks for `bytes` to be sent to `to`.
    fn push_send(&mut self, bytes: &[u8], to: PeerAddr)
        ensures
            final(self)@ == bench_emit(old(self)@, seq![send(bytes@, to)]),
            final(self).connections == old(self).connections,
    {
        let v = slice_to_vec(bytes);
        self.outbox.push(Effect::Send { bytes: v, to });
        assert(effect_views(self.outbox@) =~= effect_views(old(self).outbox@) + seq![send(bytes@, to)]);
    }

    /// Sends `msg` from `sender` under `rep_condition`; see
    /// `bench_broadcast_sends`. Always true.
    pub fn broadcast(&mut self, msg: &[u8], sender: PeerAddr, rep_condition: u8) -> (r: bool)
        ensures
            r,
            final(self)@ == bench_emit(
                old(self)@,
                bench_broadcast_sends(old(self)@.connections, msg@, sender, rep_condition),
            ),
            final(self).connections == old(self).connections,
    {
        if rep_condition == COND_OWNERONLY {
            self.push_send(msg, sender);
        } else if rep_condition == COND_SKIPOWNER {
            self.send_to_others(msg, sender);
        } else if rep_condition == COND_NONE {
            self.push_send(msg, sender);
            self.send_to_others(msg, sender);
            assert(self@.effects =~= old(self)@.effects + sends_to_sender_and_others(
                old(self)@.connections,
                msg@,
                sender,
            ));
        } else {
            assert(self@ =~= bench_emit(old(self)@, Seq::empty()));
        }
        true
    }

    /// Sends `msg` to every connection not at `sender`, in order.
    fn send_to_others(&mut self, msg: &[u8], sender: PeerAddr)
        ensures
            final(self)@ == bench_emit(old(self)@, sends_to_others(old(self)@.connections, msg@, sender)),
            final(self).connections == old(self).connections,
    {
        let ghost cs = old(self)@.connections;
        let mut i: usize = 0;
        while i < self.connections.len()
            invariant
                0 <= i <= self.connections@.len(),
                self.connections == old(self).connections,
                cs == old(self)@.connections,
                self@.effects == old(self)@.effects + sends_to_others(cs.subrange(0, i as int), msg@, sender),
            decreases self.connections@.len() - i,
        {
            let to = self.connections[i].addr;
            if to != sender {
                self.push_send(msg, to);
            }
            i = i + 1;
            assert(cs.subrange(0, i as int).drop_last() =~= cs.subrange(0, i - 1));
            assert(cs[i - 1].addr == to);
            assert(self@.effects =~= old(self)@.effects + sends_to_others(cs.subrange(0, i as int), msg@, sender));
        }
        assert(cs.subrange(0, i as int) =~= cs);
        assert(self@ =~= bench_emit(old(self)@, sends_to_others(cs, msg@, sender)));
    }

    /// The id of the first connection at `sender`, or 0 when none is there.
    pub fn get_sender_id(&mut self, sender: PeerAddr) -> (id: u32)
        ensures
            id == sender_id(old(self)@.connections, sender),
            *final(self) == *old(self),
    {
        let mut i: usize = 0;
        while i < self.connections.len()
            invariant
                0 <= i <= self.connections@.len(),
                forall|j: int| 0 <= j < i ==> self@.connections[j].addr != sender,
            decreases self.connections@.len() - i,
        {
            if self.connections[i].addr == sender {
                proof {
                    lemma_first_addr_unique(self@.connections, sender, i as int);
                }
                return self.connections[i].guid;
            }
            i = i + 1;
        }
        0
    }

    /// The position of the connection with id `g`.
    fn index_of_guid(&self, g: u32) -> (r: Option<usize>)
        ensures
            match r {
                Some(i) => i < self.connections@.len() && self.connections@[i as int].guid == g,
                None => forall|j: int| 0 <= j < self.connections@.len() ==> self.connections@[j].guid != g,
            },
    {
        let mut i: usize = 0;
        while i < self.connections.len()
            invariant
                0 <= i <= self.connections@.len(),
                forall|j: int| 0 <= j < i ==> self.connections@[j].guid != g,
            decreases self.connections@.len() - i,
        {
            if self.connections[i].guid == g {
                return Some(i);
            }
            i = i + 1;
        }
        None
    }

    /// Handles a new connection from `addr` at `now`, with `drawn` as the id
    /// drawn for it: it keeps the id of the last connection already at
    /// `addr`, if any; it is stored under its id; then every stored id is
    /// sent to `addr`. Always true.
    pub fn add_connection_at(&mut self, id: u32, addr: PeerAddr, now: u64, drawn: u32) -> (r: bool)
        requires
            old(self).wf(),
        ensures
            r,
            final(self).wf(),
            final(self)@ == bench_add_step(old(self)@, addr, now, drawn),
    {
        let ghost cs = old(self)@.connections;
        let mut x = drawn;
        let mut i: usize = 0;
        while i < self.connections.len()
            invariant
                0 <= i <= self.connections@.len(),
                self.connections == old(self).connections,
                cs == old(self)@.connections,
                x == last_guid_at(cs.subrange(0, i as int), addr, drawn),
            decreases self.connections@.len() - i,
        {
            if self.connections[i].addr == addr {
                x = self.connections[i].guid;
            }
            i = i + 1;
            assert(cs.subrange(0, i as int).drop_last() =~= cs.subrange(0, i - 1));
        }
        assert(cs.subrange(0, i as int) =~= cs);
        let fresh = Client { instant: now, guid: x, addr };
        let ghost c = fresh@;
        assert(c == bench_new_client(cs, addr, now, drawn));
        match self.index_of_guid(x) {
            Some(k) => {
                let ghost w = choose|j: int| 0 <= j < cs.len() && cs[j].guid == c.guid;
                assert(cs[k as int].guid == x);
                assert(w == k as int);
                self.connections.set(k, fresh);
                assert(bench_views(self.connections@) =~= cs.update(k as int, c));
            },
            None => {
                assert(!exists|j: int| 0 <= j < cs.len() && cs[j].guid == c.guid);
                self.connections.push(fresh);
                assert(bench_views(self.connections@) =~= cs.push(c));
            },
        }
        let ghost cs1 = self@.connections;
        assert(cs1 == bench_insert(cs, c));
        let ghost mid = self@;
        let n = self.connections.len();
        let mut j: usize = 0;
        while j < n
            invariant
                n == cs1.len(),
                0 <= j <= n,
                self@.connections == cs1,
                self.wf(),
                self@.effects == mid.effects + bench_join_notices(cs1.subrange(0, j as int), x, addr),
            decreases n - j,
        {
            let uid = self.connections[j].guid;
            let mut msg = if x != uid {
                header(MSG_WORLD, SR_JOINED)
            } else {
                header(MSG_WORLD, SR_REGISTER)
            };
            push_u32(&mut msg, uid);
            msg.push(0u8);
            msg.push(0u8);
            self.broadcast(msg.as_slice(), addr, COND_OWNERONLY);
            j = j + 1;
            assert(cs1.subrange(0, j as int).drop_last() =~= cs1.subrange(0, j - 1));
            assert(msg@ =~= (if x != uid { world_msg(SR_JOINED, id_field(uid)) } else { world_msg(SR_REGISTER, id_field(uid)) }));
            assert(self@.effects =~= mid.effects + bench_join_notices(cs1.subrange(0, j as int), x, addr));
        }
        assert(cs1.subrange(0, n as int) =~= cs1);
        assert(self@ =~= bench_add_step(old(self)@, addr, now, drawn));
        true
    }

    /// Handles a close request from `sender`: the connections there are
    /// dropped, each announced to every remaining connection. Always true.
    pub fn closed_connection(&mut self, msg: &[u8], sender: PeerAddr) -> (r: bool)
        requires
            old(self).wf(),
        ensures
            r,
            final(self).wf(),
            final(self)@ == bench_closed_step(old(self)@, sender),
    {
        let ghost cs = old(self)@.connections;
        let ghost others = bench_not_at(cs, sender);
        let mut i: usize = 0;
        while i < self.connections.len()
            invariant
                0 <= i <= self.connections@.len(),
                self.connections == old(self).connections,
                cs == old(self)@.connections,
                others == bench_not_at(cs, sender),
                self@.effects == old(self)@.effects + bench_close_notices(cs.subrange(0, i as int), others, sender),
            decreases self.connections@.len() - i,
        {
            if self.connections[i].addr == sender {
                let mut notice = header(MSG_WORLD, SR_CLOSED);
                push_u32(&mut notice, self.connections[i].guid);
                notice.push(0u8);
                notice.push(0u8);
                assert(notice@ =~= world_msg(SR_CLOSED, id_field(cs[i as int].guid)));
                self.broadcast(notice.as_slice(), sender, COND_SKIPOWNER);
                proof {
                    lemma_bench_others(cs, notice@, sender);
                }
            }
            i = i + 1;
            assert(cs.subrange(0, i as int).drop_last() =~= cs.subrange(0, i - 1));
            assert(self@.effects =~= old(self)@.effects + bench_close_notices(cs.subrange(0, i as int), others, sender));
        }
        assert(cs.subrange(0, i as int) =~= cs);
        let ghost mid = self@;
        let n = self.connections.len();
        let mut k: usize = 0;
        let mut j: usize = 0;
        while k < n
            invariant
                n == cs.len(),
                0 <= j <= k <= n,
                k < n ==> j < self@.connections.len(),
                self@.connections == bench_not_at(cs.subrange(0, k as int), sender) + cs.subrange(k as int, n as int),
                j == bench_not_at(cs.subrange(0, k as int), sender).len(),
                self.wf(),
                self@.effects == mid.effects,
            decreases n - k,
        {
            let ghost pre = bench_not_at(cs.subrange(0, k as int), sender);
            let ghost before = self@.connections;
            assert(cs.subrange(k as int, n as int) =~= seq![cs[k as int]] + cs.subrange(k + 1, n as int));
            assert(before[j as int] == cs[k as int]);
            assert(cs.subrange(0, k + 1).drop_last() =~= cs.subrange(0, k as int));
            if self.connections[j].addr == sender {
                let _gone = self.connections.remove(j);
                assert(self@.connections =~= before.remove(j as int));
                assert(self@.connections =~= pre + cs.subrange(k + 1, n as int));
            } else {
                j = j + 1;
                assert(self@.connections =~= pre.push(cs[k as int]) + cs.subrange(k + 1, n as int));
            }
            k = k + 1;
        }
        assert(cs.subrange(0, n as int) =~= cs);
        assert(self@ =~= bench_closed_step(old(self)@, sender));
        true
    }

    /// Handles a time request at `now`: the time reply goes to the sender.
    pub fn time_message_at(&mut self, msg: &[u8], sender: PeerAddr, now: u64) -> (r: bool)
        ensures
            r,
            final(self)@ == bench_emit(old(self)@, seq![send(time_reply(now), sender)]),
            final(self).connections == old(self).connections,
    {
        let mut out = header(MSG_WORLD, SR_TIME);
        let mut k: usize = 0;
        while k < 8
            invariant
                0 <= k <= 8,
                out@ == seq![MSG_WORLD, SR_TIME] + Seq::new(k as nat, |j: int| 0u8),
            decreases 8 - k,
        {
            out.push(0u8);
            k = k + 1;
            assert(out@ =~= seq![MSG_WORLD, SR_TIME] + Seq::new(k as nat, |j: int| 0u8));
        }
        push_u64(&mut out, now);
        assert(out@ =~= time_reply(now));
        self.broadcast(out.as_slice(), sender, COND_OWNERONLY);
        true
    }

    /// Routes `msg` from `peer` at `now`, with `drawn` as the id drawn for a
    /// new connection; tells whether the router handled it.
    pub fn parse_route_at(&mut self, msg: Vec<u8>, peer: PeerAddr, now: u64, drawn: u32) -> (r: bool)
        requires
            old(self).wf(),
        ensures
            r == bench_route_result(msg@),
            final(self).wf(),
            final(self)@ == bench_route_step(old(self)@, msg@, peer, now, drawn),
    {
        if msg.len() < 2 {
            return true;
        }
        let channel = msg[0];
        let system = msg[1];
        let senderid = self.get_sender_id(peer);
        if channel != MSG_WORLD {
            return false;
        }
        let body = crate::wire::tail(msg.as_slice(), 2);
        let body = body.as_slice();
        if system == SR_REGISTER {
            self.register_connection_at(body, peer, now, drawn);
            true
        } else if system == SR_TIME {
            if senderid != 0 {
                self.time_message_at(body, peer, now);
            }
            true
        } else if system == SR_CALLBACK_UPDATE {
            if senderid != 0 {
                self.callback_message(body, peer);
            }
            true
        } else if system == SR_PROPERTYREP {
            if senderid != 0 {
                self.property_message(body, peer);
            }
            true
        } else if system == SR_FUNCREP {
            if senderid != 0 {
                self.function_message(body, peer);
            }
            true
        } else if system == SR_ACK {
            if senderid != 0 {
                self.ack_message(body, peer);
            }
            true
        } else if system == SR_RPC {
            if senderid != 0 {
                self.rpc_message(body, peer);
            }
            true
        } else if system == SR_CLOSED {
            if senderid != 0 {
                self.closed_connection(body, peer);
            }
            true
        } else {
            false
        }
    }

    /// Handles a registration at `now`, with `drawn` as the id drawn for the
    /// new connection.
    pub fn register_connection_at(&mut self, msg: &[u8], sender: PeerAddr, now: u64, drawn: u32) -> (r: bool)
        requires
            old(self).wf(),
        ensures
            r,
            final(self).wf(),
            final(self)@ == bench_add_step(old(self)@, sender, now, drawn),
    {
        self.add_connection_at(8u32, sender, now, drawn);
        true
    }

    /// Handles a remote procedure call: the message goes to the sender, then to
    /// every connection not at its address.
    pub fn rpc_message(&mut self, msg: &[u8], sender: PeerAddr) -> (r: bool)
        ensures
            r,
            final(self)@ == bench_emit(old(self)@, sends_to_sender_and_others(old(self)@.connections, msg@, sender)),
            final(self).connections == old(self).connections,
    {
        self.broadcast(msg, sender, COND_NONE);
        true
    }

    /// Handles a property replication: the message goes to the sender, then to
    /// every connection not at its address.
    pub fn property_message(&mut self, msg: &[u8], sender: PeerAddr) -> (r: bool)
        ensures
            r,
            final(self)@ == bench_emit(old(self)@, sends_to_sender_and_others(old(self)@.connections, msg@, sender)),
            final(self).connections == old(self).connections,
    {
        self.broadcast(msg, sender, COND_NONE);
        true
    }

    /// Handles a callback update: the message goes to the sender, then to
    /// every connection not at its address.
    pub fn callback_message(&mut self, msg: &[u8], sender: PeerAddr) -> (r: bool)
        ensures
            r,
            final(self)@ == bench_emit(old(self)@, sends_to_sender_and_others(old(self)@.connections, msg@, sender)),
            final(self).connections == old(self).connections,
    {
        self.broadcast(msg, sender, COND_NONE);
        true
    }

    /// Handles a function replication: the message goes to the sender, then to
    /// every connection not at its address.
    pub fn function_message(&mut self, msg: &[u8], sender: PeerAddr) -> (r: bool)
        ensures
            r,
            final(self)@ == bench_emit(old(self)@, sends_to_sender_and_others(old(self)@.connections, msg@, sender)),
            final(self).connections == old(self).connections,
    {
        self.broadcast(msg, sender, COND_NONE);
        true
    }

    /// Handles a ping: nothing to do.
    pub fn ping_message(&mut self, msg: &[u8], sender: PeerAddr) -> (r: bool)
        ensures
            r,
            *final(self) == *old(self),
    {
        true
    }

    /// Handles an acknowledgement: nothing to do.
    pub fn ack_message(&mut self, msg: &[u8], sender: PeerAddr) -> (r: bool)
        ensures
            r,
            *final(self) == *old(self),
    {
        true
    }

    /// Checks that connection `id` is known; nothing is sent.
    pub fn notify_new_connection(&mut self, id: u32) -> (r: bool)
        requires
            exists|i: int| 0 <= i < old(self).connections@.len() && old(self).connections@[i].guid == id,
        ensures
            r,
            *final(self) == *old(self),
    {
        true
    }

    /// Handles a received datagram from `peer` at `now`, with `drawn` as the
    /// id drawn for a new connection: it is routed, then echoed back to
    /// `peer` unchanged.
    pub fn receive_at(&mut self, msg: Vec<u8>, peer: PeerAddr, now: u64, drawn: u32)
        requires
            old(self).wf(),
        ensures
            final(self).wf(),
            final(self)@ == bench_receive_step(old(self)@, msg@, peer, now, drawn),
    {
        let copy = slice_to_vec(msg.as_slice());
        let _handled = self.parse_route_at(msg, peer, now, drawn);
        self.push_send(copy.as_slice(), peer);
    }

    /// Handles a received datagram from `peer`, reading the clock once and
    /// drawing one id.
    pub fn receive(&mut self, msg: Vec<u8>, peer: PeerAddr)
        requires
            old(self).wf(),
        ensures
            final(self).wf(),
            exists|now: u64, drawn: u32|
                final(self)@ == bench_receive_step(old(self)@, msg@, peer, now, drawn),
    {
        let now = precise_time_ns();
        let drawn = random_u32();
        self.receive_at(msg, peer, now, drawn)
    }

    /// Hands out the pending effects, in the order they were asked for.
    pub fn take_effects(&mut self) -> (es: Vec<Effect>)
        ensures
            effect_views(es@) == old(self)@.effects,
            final(self)@ == (BenchView { effects: Seq::empty(), ..old(self)@ }),
    {
        let mut es: Vec<Effect> = Vec::new();
        std::mem::swap(&mut es, &mut self.outbox);
        assert(effect_views(self.outbox@) =~= Seq::<EffectView>::empty());
        es
    }
}

/// Sending to every connection not at `a` is sending to every connection of
/// the connections not at `a`.
proof fn lemma_bench_others(cs: Seq<ClientView>, msg: Seq<u8>, a: PeerAddr)
    ensures
        sends_to_others(cs, msg, a) == sends_to_all(bench_not_at(cs, a), msg),
    decreases cs.len(),
{
    if cs.len() > 0 {
        lemma_bench_others(cs.drop_last(), msg, a);
        let rest = bench_not_at(cs.drop_last(), a);
        if cs.last().addr != a {
            assert(bench_not_at(cs, a).drop_last() =~= rest);
        }
    }
}

} // verus!
