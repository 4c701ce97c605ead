//! The request/response routing table: which handler answers which world
//! route, the responses the handlers give, and the addresses a response goes
//! to under its relevancy condition.

use crate::addr::PeerAddr;
use crate::definitions::{Relevancy, ServerRoute, MSG_WORLD};
use crate::objects::{client_record, Client, ClientView, ObjectRep};
use crate::sources::precise_time_ns;
use crate::wire::{spec_uid_of_port, uid_of_port};
use vstd::prelude::*;

verus! {

/// The kind of record a response concerns.
#[derive(PartialEq, Eq, Structural, Debug, Clone, Copy)]
pub enum ObjectType {
    Object,
    Client,
}

/// The operation a response reports.
#[derive(PartialEq, Eq, Structural, Debug, Clone, Copy)]
pub enum CrudType {
    Create,
    Read,
    Update,
    Destroy,
}

/// A handler's answer: the message, the id of the client it concerns, the
/// condition deciding who receives it, and the record it creates, if any.
#[derive(PartialEq, Eq, Debug)]
pub struct Response {
    pub message: Vec<u8>,
    pub sender: u32,
    pub condition: Relevancy,
    pub object_type: ObjectType,
    pub operation: CrudType,
    pub client: Option<Client>,
    pub obj: Option<ObjectRep>,
}

/// The addresses of the clients of `cs` that are not at `sender`, in order.
pub open spec fn addrs_except(cs: Seq<ClientView>, sender: PeerAddr) -> Seq<PeerAddr>
    decreases cs.len(),
{
    if cs.len() == 0 {
        Seq::empty()
    } else {
        let rest = addrs_except(cs.drop_last(), sender);
        if cs.last().addr != sender {
            rest.push(cs.last().addr)
        } else {
            rest
        }
    }
}

/// Who receives a response under `condition`: the sender alone for
/// owner-only, every client not at the sender's address for skip-owner, the
/// sender and then every client not at its address for the unconditional
/// ("none") condition, and nobody otherwise.
pub open spec fn recipients(cs: Seq<ClientView>, condition: Relevancy, sender: PeerAddr) -> Seq<
    PeerAddr,
> {
    if condition == Relevancy::OwnerOnly {
        seq![sender]
    } else if condition == Relevancy::SkipOwner {
        addrs_except(cs, sender)
    } else if condition == Relevancy::Unconditional {
        seq![sender] + addrs_except(cs, sender)
    } else {
        Seq::empty()
    }
}

/// The views of a sequence of clients.
pub open spec fn views_of(cs: Seq<Client>) -> Seq<ClientView> {
    cs.map_values(|c: Client| c@)
}

impl Response {
    /// The addresses a response goes to; see `recipients`.
    pub fn get_recipients(clients: &[Client], condition: Relevancy, sender: PeerAddr) -> (r: Vec<
        PeerAddr,
    >)
        ensures
            r@ == recipients(views_of(clients@), condition, sender),
    {
        if condition == Relevancy::OwnerOnly {
            let r = vec![sender];
            assert(r@ =~= seq![sender]);
            r
        } else if condition == Relevancy::SkipOwner || condition == Relevancy::Unconditional {
            let mut r: Vec<PeerAddr> = Vec::new();
            if condition == Relevancy::Unconditional {
                r.push(sender);
            }
            let ghost lead: Seq<PeerAddr> = r@;
            let mut i: usize = 0;
            while i < clients.len()
                invariant
                    0 <= i <= clients@.len(),
                    lead == (if condition == Relevancy::Unconditional { seq![sender] } else { Seq::<PeerAddr>::empty() }),
                    r@ == lead + addrs_except(views_of(clients@).subrange(0, i as int), sender),
                decreases clients@.len() - i,
            {
                if clients[i].addr != sender {
                    r.push(clients[i].addr);
                }
                i = i + 1;
                assert(views_of(clients@).subrange(0, i as int).drop_last() =~= views_of(
                    clients@,
                ).subrange(0, i - 1));
            }
            assert(views_of(clients@).subrange(0, i as int) =~= views_of(clients@));
            assert(lead + addrs_except(views_of(clients@), sender) =~= recipients(
                views_of(clients@),
                condition,
                sender,
            ));
            r
        } else {
            let r: Vec<PeerAddr> = Vec::new();
            assert(r@ =~= Seq::<PeerAddr>::empty());
            r
        }
    }

    /// The response that carries nothing: empty message, sender 0, no
    /// condition, a read of an object, no record.
    pub fn empty() -> (r: Response)
        ensures
            r.message@ == Seq::<u8>::empty(),
            r.sender == 0,
            r.condition == Relevancy::Unconditional,
            r.operation == CrudType::Read,
            r.object_type == ObjectType::Object,
            r.obj.is_none(),
            r.client.is_none(),
    {
        Response {
            message: Vec::new(),
            sender: 0,
            condition: Relevancy::Unconditional,
            operation: CrudType::Read,
            object_type: ObjectType::Object,
            obj: None,
            client: None,
        }
    }
}

/// A request as the handlers see it: the connected clients, the raw message
/// and its sender.
#[derive(Debug)]
pub struct RouteRequest {
    pub clients: Vec<Client>,
    pub raw_message: Vec<u8>,
    pub sender: PeerAddr,
}

/// The handlers of the routing table.
#[derive(PartialEq, Eq, Structural, Debug, Clone, Copy)]
pub enum Handler {
    RegisterConnection,
    Rpc,
    Property,
    RegProperty,
    RegObject,
    Callback,
    Time,
    Ack,
    Close,
    UpdateClient,
}

/// The routing table: the handler of each `(channel, route)` pair, each pair
/// at most once.
#[derive(Debug)]
pub struct RouteResponder {
    pub responders: Vec<((u8, u8), Handler)>,
    pub clients: Vec<Client>,
}

/// Every `(channel, route)` pair occurs once.
pub open spec fn routes_unique(t: Seq<((u8, u8), Handler)>) -> bool {
    forall|i: int, j: int| 0 <= i < j < t.len() ==> t[i].0 != t[j].0
}

/// The handler table as a map.
pub open spec fn route_map(t: Seq<((u8, u8), Handler)>) -> Map<(u8, u8), Handler>
    decreases t.len(),
{
    if t.len() == 0 {
        Map::empty()
    } else {
        route_map(t.drop_last()).insert(t.last().0, t.last().1)
    }
}

/// The fixed answer of a handler other than registration: message
/// `[0, 0, 0]`, sender 0, a read of an object, no record, under the
/// handler's condition.
pub open spec fn fixed_condition(h: Handler) -> Relevancy {
    match h {
        Handler::Rpc => Relevancy::Unconditional,
        Handler::Callback => Relevancy::Unconditional,
        Handler::Property => Relevancy::SkipOwner,
        Handler::RegProperty => Relevancy::SkipOwner,
        Handler::RegObject => Relevancy::SkipOwner,
        _ => Relevancy::OwnerOnly,
    }
}

/// The client a registration request is for: the stored client with the id
/// the sender's port gives, or else a new one with the raw message as its
/// settings.
pub open spec fn requested_client(clients: Seq<ClientView>, raw: Seq<u8>, sender: PeerAddr, c: ClientView) -> bool {
    let uid = spec_uid_of_port(sender.spec_port());
    if exists|i: int| 0 <= i < clients.len() && clients[i].guid == uid {
        exists|i: int| 0 <= i < clients.len() && clients[i].guid == uid && clients[i] == c
    } else {
        c.guid == uid && c.addr == sender && c.settings == raw && c.instant == c.last_message
    }
}

/// `r` is the registration answer for the request: it creates the requested
/// client, carries its id and settings, and goes to the owner only.
pub open spec fn is_registration_response(
    clients: Seq<ClientView>,
    raw: Seq<u8>,
    sender: PeerAddr,
    r: Result<Response, ()>,
) -> bool {
    r matches Ok(resp) && resp.client matches Some(c) && requested_client(clients, raw, sender, c@)
        && resp.message@ == client_record(c.guid, c.settings@) && resp.sender == c.guid
        && resp.condition == Relevancy::OwnerOnly && resp.obj.is_none() && resp.object_type
        == ObjectType::Client && resp.operation == CrudType::Create
}

/// `r` is the fixed answer `[0, 0, 0]` from sender 0, a read of an object
/// with no record, under `condition`.
pub open spec fn is_fixed_response(r: Result<Response, ()>, condition: Relevancy) -> bool {
    r matches Ok(resp) && resp.message@ == seq![0u8, 0u8, 0u8] && resp.sender == 0
        && resp.condition == condition && resp.obj.is_none() && resp.client.is_none()
        && resp.object_type == ObjectType::Object && resp.operation == CrudType::Read
}

impl RouteResponder {
    /// The client a registration request is for; see `requested_client`.
    fn create_client(req: RouteRequest) -> (c: Client)
        ensures
            requested_client(views_of(req.clients@), req.raw_message@, req.sender, c@),
    {
        let uid = uid_of_port(req.sender.port());
        let mut i: usize = 0;
        while i < req.clients.len()
            invariant
                0 <= i <= req.clients@.len(),
                forall|j: int| 0 <= j < i ==> req.clients@[j].guid != uid,
                uid == spec_uid_of_port(req.sender.spec_port()),
            decreases req.clients@.len() - i,
        {
            if req.clients[i].guid == uid {
                let c = req.clients[i].duplicate();
                let ghost vs = views_of(req.clients@);
                assert(vs[i as int] == c@);
                assert(vs[i as int].guid == uid);
                assert(exists|j: int| 0 <= j < vs.len() && vs[j].guid == uid);
                assert(exists|j: int| 0 <= j < vs.len() && vs[j].guid == uid && vs[j] == c@);
                return c;
            }
            i = i + 1;
        }
        assert(!exists|j: int| 0 <= j < req.clients@.len() && views_of(req.clients@)[j].guid == uid);
        Client::new(uid, req.sender, req.raw_message)
    }

    /// The registration handler: the response carries the client's id and
    /// settings, goes to the owner only, and creates the client.
    pub fn register_connection(req: RouteRequest) -> (r: Result<Response, ()>)
        requires
            req.raw_message@.len() >= 4,
        ensures
            is_registration_response(views_of(req.clients@), req.raw_message@, req.sender, r),
    {
        let client = RouteResponder::create_client(req);
        let message = client.record_bytes();
        let sender = client.guid;
        Ok(Response {
            message,
            sender,
            condition: Relevancy::OwnerOnly,
            obj: None,
            object_type: ObjectType::Client,
            client: Some(client),
            operation: CrudType::Create,
        })
    }

    /// The answer of a handler other than registration; see `fixed_condition`.
    fn fixed_response(condition: Relevancy) -> (r: Result<Response, ()>)
        ensures
            is_fixed_response(r, condition),
    {
        let message = vec![0u8, 0u8, 0u8];
        assert(message@ =~= seq![0u8, 0u8, 0u8]);
        Ok(Response {
            message,
            sender: 0,
            condition,
            obj: None,
            object_type: ObjectType::Object,
            client: None,
            operation: CrudType::Read,
        })
    }

    /// Runs handler `h` on `req`.
    pub fn call(h: Handler, req: RouteRequest) -> (r: Result<Response, ()>)
        requires
            h == Handler::RegisterConnection ==> req.raw_message@.len() >= 4,
        ensures
            h == Handler::RegisterConnection ==> is_registration_response(
                views_of(req.clients@),
                req.raw_message@,
                req.sender,
                r,
            ),
            h != Handler::RegisterConnection ==> is_fixed_response(r, fixed_condition(h)),
    {
        match h {
            Handler::RegisterConnection => RouteResponder::register_connection(req),
            Handler::Rpc => RouteResponder::fixed_response(Relevancy::Unconditional),
            Handler::Callback => RouteResponder::fixed_response(Relevancy::Unconditional),
            Handler::Property => RouteResponder::fixed_response(Relevancy::SkipOwner),
            Handler::RegProperty => RouteResponder::fixed_response(Relevancy::SkipOwner),
            Handler::RegObject => RouteResponder::fixed_response(Relevancy::SkipOwner),
            Handler::Time => RouteResponder::fixed_response(Relevancy::OwnerOnly),
            Handler::Ack => RouteResponder::fixed_response(Relevancy::OwnerOnly),
            Handler::Close => RouteResponder::fixed_response(Relevancy::OwnerOnly),
            Handler::UpdateClient => RouteResponder::fixed_response(Relevancy::OwnerOnly),
        }
    }

    /// Sending is left to the caller: always `Ok`.
    pub fn send() -> (r: Result<(), ()>)
        ensures
            r == Ok::<(), ()>(()),
    {
        Ok(())
    }

    /// Recipients are computed by `Response::get_recipients`: always `Ok`.
    pub fn get_recipients(sender: PeerAddr, condition: Relevancy) -> (r: Result<(), ()>)
        ensures
            r == Ok::<(), ()>(()),
    {
        Ok(())
    }

    /// The position of `route` in the table.
    fn find_route(&self, route: (u8, u8)) -> (r: Option<usize>)
        requires
            routes_unique(self.responders@),
        ensures
            match r {
                Some(i) => i < self.responders@.len() && self.responders@[i as int].0 == route,
                None => forall|j: int| 0 <= j < self.responders@.len() ==> self.responders@[j].0 != route,
            },
    {
        let mut i: usize = 0;
        while i < self.responders.len()
            invariant
                0 <= i <= self.responders@.len(),
                forall|j: int| 0 <= j < i ==> self.responders@[j].0 != route,
            decreases self.responders@.len() - i,
        {
            let entry = self.responders[i].0;
            if entry.0 == route.0 && entry.1 == route.1 {
                return Some(i);
            }
            i = i + 1;
        }
        None
    }

    /// The handler for `message`: none for messages of two bytes or fewer,
    /// for other channels than the world, and for routes without a handler.
    pub fn get_callback(&self, message: Vec<u8>) -> (r: Option<Handler>)
        requires
            routes_unique(self.responders@),
        ensures
            r == (if message@.len() > 2 && message@[0] == MSG_WORLD && route_map(
                self.responders@,
            ).contains_key((message@[0], message@[1])) {
                Some(route_map(self.responders@)[(message@[0], message@[1])])
            } else {
                None
            }),
    {
        if message.len() > 2 {
            let svc = message[0];
            let route = message[1];
            if svc != MSG_WORLD {
                return None;
            }
            match self.find_route((svc, route)) {
                Some(i) => {
                    proof {
                        lemma_route_map_at(self.responders@, i as int);
                    }
                    return Some(self.responders[i].1);
                },
                None => {
                    proof {
                        lemma_route_map_absent(self.responders@, (svc, route));
                    }
                    return None;
                },
            }
        }
        None
    }

    /// Sets the handler of `route` to `func`, replacing any earlier one.
    pub fn add_route(&mut self, route: (u8, u8), func: Handler)
        requires
            routes_unique(old(self).responders@),
        ensures
            routes_unique(final(self).responders@),
            route_map(final(self).responders@) == route_map(old(self).responders@).insert(route, func),
            final(self).clients == old(self).clients,
    {
        match self.find_route(route) {
            Some(i) => {
                proof {
                    lemma_route_map_update(self.responders@, i as int, func);
                }
                let ghost before = self.responders@;
                self.responders.set(i, (route, func));
                assert(self.responders@ =~= before.update(i as int, (before[i as int].0, func)));
            },
            None => {
                proof {
                    lemma_route_map_absent(self.responders@, route);
                }
                let ghost before = self.responders@;
                self.responders.push((route, func));
                assert(self.responders@.drop_last() =~= before);
            },
        }
    }

    /// The table with the world routes and their handlers: registration, rpc,
    /// property replication, time, acknowledgement, close, session update,
    /// property registration and spawned-object registration.
    pub fn new() -> (r: RouteResponder)
        ensures
            routes_unique(r.responders@),
            route_map(r.responders@) == standard_routes(),
            r.clients@.len() == 0,
    {
        let mut t = RouteResponder { responders: Vec::new(), clients: Vec::new() };
        t.add_route((MSG_WORLD, ServerRoute::Register.code()), Handler::RegisterConnection);
        t.add_route((MSG_WORLD, ServerRoute::Rpc.code()), Handler::Rpc);
        t.add_route((MSG_WORLD, ServerRoute::PropertyRep.code()), Handler::Property);
        t.add_route((MSG_WORLD, ServerRoute::Time.code()), Handler::Time);
        t.add_route((MSG_WORLD, ServerRoute::Ack.code()), Handler::Ack);
        t.add_route((MSG_WORLD, ServerRoute::Closed.code()), Handler::Close);
        t.add_route((MSG_WORLD, ServerRoute::SessionUpdate.code()), Handler::UpdateClient);
        t.add_route((MSG_WORLD, ServerRoute::RegisterProperty.code()), Handler::RegProperty);
        t.add_route((MSG_WORLD, ServerRoute::RegistrationSpawned.code()), Handler::RegObject);
        t
    }
}

/// The standard handler table.
pub open spec fn standard_routes() -> Map<(u8, u8), Handler> {
    Map::empty().insert((MSG_WORLD, ServerRoute::Register.spec_code()), Handler::RegisterConnection)
        .insert((MSG_WORLD, ServerRoute::Rpc.spec_code()), Handler::Rpc)
        .insert((MSG_WORLD, ServerRoute::PropertyRep.spec_code()), Handler::Property)
        .insert((MSG_WORLD, ServerRoute::Time.spec_code()), Handler::Time)
        .insert((MSG_WORLD, ServerRoute::Ack.spec_code()), Handler::Ack)
        .insert((MSG_WORLD, ServerRoute::Closed.spec_code()), Handler::Close)
        .insert((MSG_WORLD, ServerRoute::SessionUpdate.spec_code()), Handler::UpdateClient)
        .insert((MSG_WORLD, ServerRoute::RegisterProperty.spec_code()), Handler::RegProperty)
        .insert((MSG_WORLD, ServerRoute::RegistrationSpawned.spec_code()), Handler::RegObject)
}

/// The map of a table holds each entry's handler under its pair.
proof fn lemma_route_map_at(t: Seq<((u8, u8), Handler)>, i: int)
    requires
        routes_unique(t),
        0 <= i < t.len(),
    ensures
        route_map(t).contains_key(t[i].0),
        route_map(t)[t[i].0] == t[i].1,
    decreases t.len(),
{
    if i < t.len() - 1 {
        lemma_route_map_at(t.drop_last(), i);
    }
}

/// A pair no entry has is not in the map.
proof fn lemma_route_map_absent(t: Seq<((u8, u8), Handler)>, k: (u8, u8))
    requires
        forall|j: int| 0 <= j < t.len() ==> t[j].0 != k,
    ensures
        !route_map(t).contains_key(k),
    decreases t.len(),
{
    if t.len() > 0 {
        lemma_route_map_absent(t.drop_last(), k);
    }
}

/// Replacing the handler of an entry replaces it in the map.
proof fn lemma_route_map_update(t: Seq<((u8, u8), Handler)>, i: int, h: Handler)
    requires
        routes_unique(t),
        0 <= i < t.len(),
    ensures
        route_map(t.update(i, (t[i].0, h))) == route_map(t).insert(t[i].0, h),
    decreases t.len(),
{
    let u = t.update(i, (t[i].0, h));
    if i == t.len() - 1 {
        assert(u.drop_last() =~= t.drop_last());
        lemma_route_map_absent(t.drop_last(), t[i].0);
        assert(route_map(u) =~= route_map(t).insert(t[i].0, h));
    } else {
        lemma_route_map_update(t.drop_last(), i, h);
        assert(u.drop_last() =~= t.drop_last().update(i, (t[i].0, h)));
        assert(route_map(u) =~= route_map(t).insert(t[i].0, h));
    }
}

} // verus!
