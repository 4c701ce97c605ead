//! Message channels, server routes and replication conditions, with their
//! one-byte wire codes.

use vstd::prelude::*;

verus! {

/// Channel byte: keep-alive ping.
pub const MSG_PING: u8 = 0;
/// Channel byte: requests addressed to the game world.
pub const MSG_WORLD: u8 = 1;
/// Channel byte: avatar traffic.
pub const MSG_AVATAR: u8 = 2;
/// Channel byte: raw byte arrays.
pub const MSG_BYTE_ARRAY: u8 = 4;

pub const SR_TIME: u8 = 0;
pub const SR_REGISTER: u8 = 1;
pub const SR_ACK: u8 = 2;
pub const SR_CALLBACK_UPDATE: u8 = 3;
pub const SR_RPC: u8 = 4;
pub const SR_PROPERTYREP: u8 = 5;
pub const SR_FUNCREP: u8 = 6;
pub const SR_AUTHORITY: u8 = 7;
pub const SR_STATE: u8 = 8;
pub const SR_JOINED: u8 = 9;
pub const SR_CLOSED: u8 = 10;
pub const SR_SESSION_UPDATE: u8 = 11;
pub const SR_PLAYER_STATE_UPDATE: u8 = 12;
pub const SR_REGISTRATION_SPAWNED: u8 = 13;
pub const SR_REGISTER_PROPERTY: u8 = 14;
pub const SR_REQUEST_USERSTATE: u8 = 15;
pub const SR_REQUEST_OBJECTSTATE: u8 = 16;
pub const SR_REQUEST_PROPERTYSTATE: u8 = 17;
pub const SR_REJOIN: u8 = 18;
pub const SR_UNREGISTER_OBJECT: u8 = 19;
pub const SR_VOICE: u8 = 20;

pub const COND_INITIALONLY: u8 = 0;
pub const COND_OWNERONLY: u8 = 1;
pub const COND_SKIPOWNER: u8 = 2;
pub const COND_SIMULATEDONLY: u8 = 3;
pub const COND_AUTONOMOUSONLY: u8 = 4;
pub const COND_SIMULATEDORPHYSICS: u8 = 5;
pub const COND_INITIALOROWNER: u8 = 6;
pub const COND_CUSTOM: u8 = 7;
pub const COND_NONE: u8 = 8;
pub const COND_SKIP: u8 = 9;

/// The request kinds of the world channel; the second byte of a request.
#[derive(PartialEq, Eq, Structural, Debug, Clone, Copy)]
pub enum ServerRoute {
    Time,
    Register,
    Ack,
    CallbackUpdate,
    Rpc,
    PropertyRep,
    FunctionRep,
    Authority,
    State,
    Joined,
    Closed,
    SessionUpdate,
    PlayerStateUpdate,
    RegistrationSpawned,
    RegisterProperty,
    RequestUserState,
    RequestObjectState,
    RequestPropertyState,
    Rejoin,
    UnregisterObject,
    Voice,
}

impl ServerRoute {
    /// The wire code of a route.
    pub open spec fn spec_code(self) -> u8 {
        match self {
            ServerRoute::Time => 0,
            ServerRoute::Register => 1,
            ServerRoute::Ack => 2,
            ServerRoute::CallbackUpdate => 3,
            ServerRoute::Rpc => 4,
            ServerRoute::PropertyRep => 5,
            ServerRoute::FunctionRep => 6,
            ServerRoute::Authority => 7,
            ServerRoute::State => 8,
            ServerRoute::Joined => 9,
            ServerRoute::Closed => 10,
            ServerRoute::SessionUpdate => 11,
            ServerRoute::PlayerStateUpdate => 12,
            ServerRoute::RegistrationSpawned => 13,
            ServerRoute::RegisterProperty => 14,
            ServerRoute::RequestUserState => 15,
            ServerRoute::RequestObjectState => 16,
            ServerRoute::RequestPropertyState => 17,
            ServerRoute::Rejoin => 18,
            ServerRoute::UnregisterObject => 19,
            ServerRoute::Voice => 20,
        }
    }

    /// The route whose wire code is `t` (codes 0 to 20).
    pub open spec fn from_code(t: u8) -> ServerRoute {
        if t == 0 { ServerRoute::Time }
        else if t == 1 { ServerRoute::Register }
        else if t == 2 { ServerRoute::Ack }
        else if t == 3 { ServerRoute::CallbackUpdate }
        else if t == 4 { ServerRoute::Rpc }
        else if t == 5 { ServerRoute::PropertyRep }
        else if t == 6 { ServerRoute::FunctionRep }
        else if t == 7 { ServerRoute::Authority }
        else if t == 8 { ServerRoute::State }
        else if t == 9 { ServerRoute::Joined }
        else if t == 10 { ServerRoute::Closed }
        else if t == 11 { ServerRoute::SessionUpdate }
        else if t == 12 { ServerRoute::PlayerStateUpdate }
        else if t == 13 { ServerRoute::RegistrationSpawned }
        else if t == 14 { ServerRoute::RegisterProperty }
        else if t == 15 { ServerRoute::RequestUserState }
        else if t == 16 { ServerRoute::RequestObjectState }
        else if t == 17 { ServerRoute::RequestPropertyState }
        else if t == 18 { ServerRoute::Rejoin }
        else if t == 19 { ServerRoute::UnregisterObject }
        else { ServerRoute::Voice }
    }

    /// The wire code of this route.
    pub fn code(&self) -> (c: u8)
        ensures
            c == self.spec_code(),
    {
        match self {
            ServerRoute::Time => 0,
            ServerRoute::Register => 1,
            ServerRoute::Ack => 2,
            ServerRoute::CallbackUpdate => 3,
            ServerRoute::Rpc => 4,
            ServerRoute::PropertyRep => 5,
            ServerRoute::FunctionRep => 6,
            ServerRoute::Authority => 7,
            ServerRoute::State => 8,
            ServerRoute::Joined => 9,
            ServerRoute::Closed => 10,
            ServerRoute::SessionUpdate => 11,
            ServerRoute::PlayerStateUpdate => 12,
            ServerRoute::RegistrationSpawned => 13,
            ServerRoute::RegisterProperty => 14,
            ServerRoute::RequestUserState => 15,
            ServerRoute::RequestObjectState => 16,
            ServerRoute::RequestPropertyState => 17,
            ServerRoute::Rejoin => 18,
            ServerRoute::UnregisterObject => 19,
            ServerRoute::Voice => 20,
        }
    }

    /// Decodes a route byte. Only the codes 0 to 20 name a route.
    pub fn from(t: u8) -> (r: ServerRoute)
        requires
            t <= SR_VOICE,
        ensures
            r == ServerRoute::from_code(t),
            r.spec_code() == t,
    {
        if t == 0 { ServerRoute::Time }
        else if t == 1 { ServerRoute::Register }
        else if t == 2 { ServerRoute::Ack }
        else if t == 3 { ServerRoute::CallbackUpdate }
        else if t == 4 { ServerRoute::Rpc }
        else if t == 5 { ServerRoute::PropertyRep }
        else if t == 6 { ServerRoute::FunctionRep }
        else if t == 7 { ServerRoute::Authority }
        else if t == 8 { ServerRoute::State }
        else if t == 9 { ServerRoute::Joined }
        else if t == 10 { ServerRoute::Closed }
        else if t == 11 { ServerRoute::SessionUpdate }
        else if t == 12 { ServerRoute::PlayerStateUpdate }
        else if t == 13 { ServerRoute::RegistrationSpawned }
        else if t == 14 { ServerRoute::RegisterProperty }
        else if t == 15 { ServerRoute::RequestUserState }
        else if t == 16 { ServerRoute::RequestObjectState }
        else if t == 17 { ServerRoute::RequestPropertyState }
        else if t == 18 { ServerRoute::Rejoin }
        else if t == 19 { ServerRoute::UnregisterObject }
        else { ServerRoute::Voice }
    }
}

/// The message channels; the first byte of a datagram.
#[derive(PartialEq, Eq, Structural, Debug, Clone, Copy)]
pub enum ClientRoute {
    Ping,
    World,
    Avatar,
    ByteArray,
}

impl ClientRoute {
    /// The wire code of a channel.
    pub open spec fn spec_code(self) -> u8 {
        match self {
            ClientRoute::Ping => 0,
            ClientRoute::World => 1,
            ClientRoute::Avatar => 2,
            ClientRoute::ByteArray => 4,
        }
    }

    /// The codes that name a channel.
    pub open spec fn is_code(t: u8) -> bool {
        t == 0 || t == 1 || t == 2 || t == 4
    }

    /// The channel whose wire code is `t`.
    pub open spec fn from_code(t: u8) -> ClientRoute {
        if t == 0 { ClientRoute::Ping }
        else if t == 1 { ClientRoute::World }
        else if t == 2 { ClientRoute::Avatar }
        else { ClientRoute::ByteArray }
    }

    /// The wire code of this channel.
    pub fn code(&self) -> (c: u8)
        ensures
            c == self.spec_code(),
    {
        match self {
            ClientRoute::Ping => 0,
            ClientRoute::World => 1,
            ClientRoute::Avatar => 2,
            ClientRoute::ByteArray => 4,
        }
    }

    /// Decodes a channel byte. Only the codes 0, 1, 2 and 4 name a channel.
    pub fn from(t: u8) -> (r: ClientRoute)
        requires
            ClientRoute::is_code(t),
        ensures
            r == ClientRoute::from_code(t),
            r.spec_code() == t,
    {
        if t == 0 { ClientRoute::Ping }
        else if t == 1 { ClientRoute::World }
        else if t == 2 { ClientRoute::Avatar }
        else { ClientRoute::ByteArray }
    }
}

/// Which connections a replicated message goes to. The game names ten
/// conditions; the server carries out three of them (owner-only, skip-owner
/// and "none"), treats seven more as "none", and the responder's
/// `get_recipients` resolves only owner-only, skip-owner and "none".
#[derive(PartialEq, Eq, Structural, Debug, Clone, Copy)]
pub enum Relevancy {
    /// Meant for the initial bunch only; broadcast as "none".
    InitialOnly,
    /// To the owner of the actor: the sender alone.
    OwnerOnly,
    /// To every connection except the owner: every client not at the
    /// sender's address.
    SkipOwner,
    /// Meant for simulated actors only; broadcast as "none".
    SimulatedOnly,
    /// Meant for autonomous actors only; broadcast as "none".
    AutonomousOnly,
    /// Meant for simulated or physics-replicated actors; broadcast as "none".
    SimulatedOrPhysics,
    /// Meant for the initial packet or the owner; broadcast as "none".
    InitialOrOwner,
    /// No particular condition, toggled by the game; broadcast as "none".
    Custom,
    /// The "none" condition: to the sender and all listeners.
    Unconditional,
    /// Broadcast as "none".
    Skip,
}

impl Relevancy {
    /// The wire code of a condition.
    pub open spec fn spec_code(self) -> u8 {
        match self {
            Relevancy::InitialOnly => 0,
            Relevancy::OwnerOnly => 1,
            Relevancy::SkipOwner => 2,
            Relevancy::SimulatedOnly => 3,
            Relevancy::AutonomousOnly => 4,
            Relevancy::SimulatedOrPhysics => 5,
            Relevancy::InitialOrOwner => 6,
            Relevancy::Custom => 7,
            Relevancy::Unconditional => 8,
            Relevancy::Skip => 9,
        }
    }

    /// The wire code of this condition.
    pub fn code(&self) -> (c: u8)
        ensures
            c == self.spec_code(),
    {
        match self {
            Relevancy::InitialOnly => 0,
            Relevancy::OwnerOnly => 1,
            Relevancy::SkipOwner => 2,
            Relevancy::SimulatedOnly => 3,
            Relevancy::AutonomousOnly => 4,
            Relevancy::SimulatedOrPhysics => 5,
            Relevancy::InitialOrOwner => 6,
            Relevancy::Custom => 7,
            Relevancy::Unconditional => 8,
            Relevancy::Skip => 9,
        }
    }
}

/// Decoding a route's own code gives the route back, and every code from 0
/// to 20 is the code of the route it decodes to.
pub proof fn lemma_server_route_code_roundtrip(r: ServerRoute, t: u8)
    ensures
        ServerRoute::from_code(r.spec_code()) == r,
        r.spec_code() <= SR_VOICE,
        t <= SR_VOICE ==> ServerRoute::from_code(t).spec_code() == t,
{
}

/// Decoding a channel's own code gives the channel back, and every channel
/// code is the code of the channel it decodes to.
pub proof fn lemma_client_route_code_roundtrip(r: ClientRoute, t: u8)
    ensures
        ClientRoute::from_code(r.spec_code()) == r,
        ClientRoute::is_code(r.spec_code()),
        ClientRoute::is_code(t) ==> ClientRoute::from_code(t).spec_code() == t,
{
}

/// Distinct conditions have distinct codes, and the named condition
/// constants are the codes of the conditions of the same name.
pub proof fn lemma_relevancy_codes(a: Relevancy, b: Relevancy)
    ensures
        a.spec_code() == b.spec_code() ==> a == b,
        a.spec_code() <= COND_SKIP,
        Relevancy::OwnerOnly.spec_code() == COND_OWNERONLY,
        Relevancy::SkipOwner.spec_code() == COND_SKIPOWNER,
        Relevancy::Unconditional.spec_code() == COND_NONE,
        Relevancy::Skip.spec_code() == COND_SKIP,
{
}

} // verus!
