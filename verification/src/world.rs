//! The cache-backed world front end: decoding a datagram's channel and route,
//! building the client, object and property records a request registers, and
//! the cache keys they are stored under.

use crate::addr::PeerAddr;
use crate::definitions::{ClientRoute, ServerRoute, MSG_WORLD, SR_PROPERTYREP, SR_REGISTER,
    SR_REGISTER_PROPERTY, SR_REGISTRATION_SPAWNED, SR_VOICE};
use crate::objects::{ Client, ClientView, ObjectRep, ObjectView};
use crate::wire::{get_u32, spec_uid_of_port, tail, u32_at, uid_of_port};
use crate::sources::{precise_time_ns, random_u32};
use vstd::prelude::*;
use vstd::slice::slice_to_vec;

verus! {

/// The character of the decimal digit `d`.
pub open spec fn digit_char(d: nat) -> char {
    (48 + d) as char
}

/// The decimal digits of `n`, most significant first, without leading zeros.
pub open spec fn decimal(n: nat) -> Seq<char>
    decreases n,
{
    if n < 10 {
        seq![digit_char(n)]
    } else {
        decimal(n / 10).push(digit_char(n % 10))
    }
}

/// The string of the decimal digit `d`.
fn digit_str(d: u32) -> (s: &'static str)
    requires
        d < 10,
    ensures
        s@ == seq![digit_char(d as nat)],
{
    proof {
        reveal_strlit("0");
        reveal_strlit("1");
        reveal_strlit("2");
        reveal_strlit("3");
        reveal_strlit("4");
        reveal_strlit("5");
        reveal_strlit("6");
        reveal_strlit("7");
        reveal_strlit("8");
        reveal_strlit("9");
    }
    if d == 0 { "0" }
    else if d == 1 { "1" }
    else if d == 2 { "2" }
    else if d == 3 { "3" }
    else if d == 4 { "4" }
    else if d == 5 { "5" }
    else if d == 6 { "6" }
    else if d == 7 { "7" }
    else if d == 8 { "8" }
    else { "9" }
}

/// Appends the decimal digits of `n` to `out`.
fn push_decimal(out: &mut String, n: u32)
    ensures
        final(out)@ == old(out)@ + decimal(n as nat),
    decreases n,
{
    if n >= 10 {
        push_decimal(out, n / 10);
    }
    out.append(digit_str(n % 10));
    assert(final(out)@ =~= old(out)@ + decimal(n as nat));
}

/// The cache key of a client: `client_` and its id in decimal.
pub open spec fn client_key(id: u32) -> Seq<char> {
    "client_"@ + decimal(id as nat)
}

/// The cache key of a property: `property_` and its id in decimal.
pub open spec fn property_key(id: u32) -> Seq<char> {
    "property_"@ + decimal(id as nat)
}

/// The cache key of an object: `object_` and its id in decimal.
pub open spec fn object_key(id: u32) -> Seq<char> {
    "object_"@ + decimal(id as nat)
}

/// `prefix` followed by `id` in decimal.
fn keyed(prefix: &str, id: u32) -> (k: String)
    ensures
        k@ == prefix@ + decimal(id as nat),
{
    let mut k = String::from_str(prefix);
    push_decimal(&mut k, id);
    k
}

/// The channel and route of a world request; an error for any other
/// channel. A world request needs a route byte from 0 to 20.
pub fn parse_client_route(msg: Vec<u8>) -> (r: Result<(ClientRoute, ServerRoute), ()>)
    requires
        msg@.len() >= 1,
        msg@[0] == MSG_WORLD ==> msg@.len() >= 2 && msg@[1] <= SR_VOICE,
    ensures
        msg@[0] == MSG_WORLD ==> r == Ok::<(ClientRoute, ServerRoute), ()>(
            (ClientRoute::World, ServerRoute::from_code(msg@[1])),
        ),
        msg@[0] != MSG_WORLD ==> r == Err::<(ClientRoute, ServerRoute), ()>(()),
{
    if msg[0] == MSG_WORLD {
        return Ok((ClientRoute::from(msg[0]), ServerRoute::from(msg[1])));
    }
    Err(())
}

/// What a world request asks of the front end.
#[derive(PartialEq, Eq, Structural, Debug, Clone, Copy)]
pub enum WorldAction {
    /// Register the sending player.
    RegisterClient,
    /// Register a spawned object.
    RegisterObject,
    /// Replicate a property update.
    ReplicateProperty,
    /// Register a property.
    RegisterProperty,
    /// Nothing to do.
    Ignore,
}

/// The action a request asks for: for world requests, registration,
/// spawned-object registration, property replication and property
/// registration each have their own; every other world route asks for
/// nothing. No action (an error) for any other channel.
pub open spec fn spec_world_action(msg: Seq<u8>) -> Option<WorldAction> {
    if msg[0] != MSG_WORLD {
        None
    } else if msg[1] == SR_REGISTER {
        Some(WorldAction::RegisterClient)
    } else if msg[1] == SR_REGISTRATION_SPAWNED {
        Some(WorldAction::RegisterObject)
    } else if msg[1] == SR_PROPERTYREP {
        Some(WorldAction::ReplicateProperty)
    } else if msg[1] == SR_REGISTER_PROPERTY {
        Some(WorldAction::RegisterProperty)
    } else {
        Some(WorldAction::Ignore)
    }
}

/// The action the request `msg` asks for; `None` when it is not a world
/// request.
pub fn world_action(msg: &[u8]) -> (a: Option<WorldAction>)
    requires
        msg@.len() >= 1,
        msg@[0] == MSG_WORLD ==> msg@.len() >= 2 && msg@[1] <= SR_VOICE,
    ensures
        a == spec_world_action(msg@),
{
    match parse_client_route(slice_to_vec(msg)) {
        Ok((ClientRoute::World, ServerRoute::Register)) => Some(WorldAction::RegisterClient),
        Ok((ClientRoute::World, ServerRoute::RegistrationSpawned)) => Some(WorldAction::RegisterObject),
        Ok((ClientRoute::World, ServerRoute::PropertyRep)) => Some(WorldAction::ReplicateProperty),
        Ok((ClientRoute::World, ServerRoute::RegisterProperty)) => Some(WorldAction::RegisterProperty),
        Ok(_) => Some(WorldAction::Ignore),
        Err(_) => None,
    }
}

/// The player a registration `msg` from `addr` creates at the clock reading
/// `now`: the id its port gives, the settings `msg[4..]`.
pub open spec fn registered_client(msg: Seq<u8>, addr: PeerAddr, now: u64) -> ClientView {
    ClientView {
        instant: now,
        guid: spec_uid_of_port(addr.spec_port()),
        addr,
        settings: msg.subrange(4, msg.len() as int),
        last_message: now,
    }
}

/// Registers a player at the clock reading `now`: the client record and the
/// cache key it is stored under.
pub fn world_register_at(msg: Vec<u8>, addr: PeerAddr, now: u64) -> (r: (String, Client))
    requires
        msg@.len() >= 4,
    ensures
        r.1@ == registered_client(msg@, addr, now),
        r.0@ == client_key(r.1.guid),
{
    let oid = uid_of_port(addr.port());
    let client = Client::new_at(oid, addr, tail(msg.as_slice(), 4), now);
    proof {
        reveal_strlit("client_");
    }
    (keyed("client_", oid), client)
}

/// Registers a player, the client created at one reading of the clock.
pub fn world_register(msg: Vec<u8>, addr: PeerAddr) -> (r: (String, Client))
    requires
        msg@.len() >= 4,
    ensures
        exists|now: u64| r.1@ == registered_client(msg@, addr, now),
        r.0@ == client_key(r.1.guid),
{
    let now = precise_time_ns();
    world_register_at(msg, addr, now)
}

/// The property a registration `msg` creates under `new_id`: owner
/// `msg[0..4]`, parent `msg[4..8]`, requested id `msg[8..12]`, data `msg[12..]`.
pub open spec fn spec_property_record(msg: Seq<u8>, new_id: u32) -> ObjectView {
    ObjectView {
        id: new_id,
        parent_id: u32_at(msg, 4),
        bytes: msg.subrange(12, msg.len() as int),
        client_id: u32_at(msg, 0),
        original_id: u32_at(msg, 8),
    }
}

/// Registers a property under `new_id`: the property record and the cache
/// key it is stored under.
pub fn register_property_with_id(msg: Vec<u8>, new_id: u32) -> (r: (String, ObjectRep))
    requires
        msg@.len() >= 12,
    ensures
        r.1@ == spec_property_record(msg@, new_id),
        r.0@ == property_key(new_id),
{
    let sender = get_u32(msg.as_slice(), 0);
    let parent_id = get_u32(msg.as_slice(), 4);
    let id = get_u32(msg.as_slice(), 8);
    let data = tail(msg.as_slice(), 12);
    let property = ObjectRep::new(id, new_id, parent_id, data, sender);
    proof {
        reveal_strlit("property_");
    }
    (keyed("property_", new_id), property)
}

/// Registers a property under a randomly drawn id.
pub fn register_property(msg: Vec<u8>, addr: PeerAddr) -> (r: (String, ObjectRep))
    requires
        msg@.len() >= 12,
    ensures
        r.1@ == spec_property_record(msg@, r.1.id),
        r.0@ == property_key(r.1.id),
{
    let new_id = random_u32();
    register_property_with_id(msg, new_id)
}

/// A property update to replicate: the whole message, unchanged. The
/// message carries an owner in `msg[2..6]`, an id in `msg[6..10]` and a value
/// from `msg[11..]`.
pub fn replicate_property(msg: Vec<u8>, addr: PeerAddr) -> (r: Option<Vec<u8>>)
    requires
        msg@.len() >= 11,
    ensures
        r matches Some(echo) && echo@ == msg@,
{
    let _owner = get_u32(msg.as_slice(), 2);
    let _id = get_u32(msg.as_slice(), 6);
    Some(slice_to_vec(msg.as_slice()))
}

/// The object a spawn registration `msg` creates under `new_id`: owner
/// `msg[0..4]`, no parent, requested id `msg[4..8]`, data `msg[8..]`.
pub open spec fn spec_object_record(msg: Seq<u8>, new_id: u32) -> ObjectView {
    ObjectView {
        id: new_id,
        parent_id: 0,
        bytes: msg.subrange(8, msg.len() as int),
        client_id: u32_at(msg, 0),
        original_id: u32_at(msg, 4),
    }
}

/// Registers a spawned object under `new_id`: the object record and the
/// cache key it is stored under.
pub fn world_register_object_with_id(msg: Vec<u8>, new_id: u32) -> (r: (String, ObjectRep))
    requires
        msg@.len() >= 8,
    ensures
        r.1@ == spec_object_record(msg@, new_id),
        r.0@ == object_key(new_id),
{
    let client_id = get_u32(msg.as_slice(), 0);
    let obj_id = get_u32(msg.as_slice(), 4);
    let payload = tail(msg.as_slice(), 8);
    let object = ObjectRep::new(obj_id, new_id, 0, payload, client_id);
    proof {
        reveal_strlit("object_");
    }
    (keyed("object_", object.id), object)
}

/// Registers a spawned object under a randomly drawn id.
pub fn world_register_object(msg: Vec<u8>, addr: PeerAddr) -> (r: (String, ObjectRep))
    requires
        msg@.len() >= 8,
    ensures
        r.1@ == spec_object_record(msg@, r.1.id),
        r.0@ == object_key(r.1.id),
{
    let new_id = random_u32();
    world_register_object_with_id(msg, new_id)
}


} // verus!
