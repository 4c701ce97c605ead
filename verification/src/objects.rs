//! The records the server keeps: connected clients, replicated objects and
//! the keys under which both are cached.

use crate::addr::PeerAddr;
use crate::wire::{le32, push_tail, push_u32};
use crate::sources::precise_time_ns;
use vstd::prelude::*;
use vstd::slice::slice_to_vec;

verus! {


/// One second, in the nanoseconds of the clock readings.
pub const NANOS_PER_SEC: u64 = 1_000_000_000;

/// The whole seconds from `earlier` to `later`; zero when `later` comes first.
pub open spec fn whole_secs_between(later: u64, earlier: u64) -> int {
    if later >= earlier {
        (later - earlier) / (NANOS_PER_SEC as int)
    } else {
        0
    }
}

/// A cache key: the id of an entry and the kind of entry it names.
#[derive(Hash, Eq, PartialEq, Debug, Clone)]
pub struct ObjectKey {
    pub id: String,
    pub objtype: String,
}

/// The ids, in order, of the keys in `keys` whose kind is `kind`.
pub open spec fn ids_of_kind(keys: Seq<ObjectKey>, kind: Seq<char>) -> Seq<Seq<char>>
    decreases keys.len(),
{
    if keys.len() == 0 {
        Seq::empty()
    } else {
        let rest = ids_of_kind(keys.drop_last(), kind);
        if keys.last().objtype@ == kind {
            rest.push(keys.last().id@)
        } else {
            rest
        }
    }
}

/// The views of a sequence of strings.
pub open spec fn string_views(s: Seq<String>) -> Seq<Seq<char>> {
    s.map_values(|x: String| x@)
}

/// A list of cache keys.
#[derive(Hash, Eq, PartialEq, Debug, Clone)]
pub struct KeyStore {
    pub keys: Vec<ObjectKey>,
}

impl KeyStore {
    /// An empty list of keys.
    pub fn new() -> (ks: KeyStore)
        ensures
            ks.keys@ == Seq::<ObjectKey>::empty(),
    {
        KeyStore { keys: Vec::new() }
    }

    /// The ids, in order, of the keys whose kind is `kind`.
    fn ids_of(&self, kind: &String) -> (ids: Vec<String>)
        ensures
            string_views(ids@) == ids_of_kind(self.keys@, kind@),
    {
        let mut ids: Vec<String> = Vec::new();
        let mut i: usize = 0;
        while i < self.keys.len()
            invariant
                0 <= i <= self.keys@.len(),
                string_views(ids@) == ids_of_kind(self.keys@.subrange(0, i as int), kind@),
            decreases self.keys@.len() - i,
        {
            let key = &self.keys[i];
            let ghost before = ids@;
            if key.objtype == *kind {
                ids.push(key.id.clone());
            }
            i = i + 1;
            assert(self.keys@.subrange(0, i as int).drop_last() =~= self.keys@.subrange(0, i - 1));
            assert(string_views(ids@) =~= ids_of_kind(self.keys@.subrange(0, i as int), kind@));
        }
        assert(self.keys@.subrange(0, self.keys@.len() as int) =~= self.keys@);
        ids
    }

    /// The ids, in order, of the keys of kind `"client"`.
    pub fn get_client_ids(self) -> (ids: Vec<String>)
        ensures
            string_views(ids@) == ids_of_kind(self.keys@, "client"@),
    {
        let kind = String::from_str("client");
        self.ids_of(&kind)
    }

    /// The ids, in order, of the keys of kind `"property"`.
    pub fn get_property_ids(self) -> (ids: Vec<String>)
        ensures
            string_views(ids@) == ids_of_kind(self.keys@, "property"@),
    {
        let kind = String::from_str("property");
        self.ids_of(&kind)
    }

    /// The ids, in order, of the keys of kind `"object"`.
    pub fn get_object_ids(self) -> (ids: Vec<String>)
        ensures
            string_views(ids@) == ids_of_kind(self.keys@, "object"@),
    {
        let kind = String::from_str("object");
        self.ids_of(&kind)
    }
}

/// The bytes that announce a client: its id, little-endian, then its settings.
pub open spec fn client_record(guid: u32, settings: Seq<u8>) -> Seq<u8> {
    le32(guid) + settings
}

/// A connected player. The two moments are readings of the nanosecond
/// clock: when the client was created and when it was last heard from.
#[derive(Hash, Eq, PartialEq, Debug, Clone)]
pub struct Client {
    pub instant: u64,
    pub guid: u32,
    pub addr: PeerAddr,
    pub settings: Vec<u8>,
    pub last_message: u64,
}

/// What a client record holds, with its settings as a byte sequence.
pub struct ClientView {
    pub instant: u64,
    pub guid: u32,
    pub addr: PeerAddr,
    pub settings: Seq<u8>,
    pub last_message: u64,
}

impl View for Client {
    type V = ClientView;

    open spec fn view(&self) -> ClientView {
        ClientView {
            instant: self.instant,
            guid: self.guid,
            addr: self.addr,
            settings: self.settings@,
            last_message: self.last_message,
        }
    }
}

impl Client {
    /// A client created at the clock reading `now`.
    pub fn new_at(guid: u32, addr: PeerAddr, settings: Vec<u8>, now: u64) -> (c: Client)
        ensures
            c.guid == guid,
            c.addr == addr,
            c.settings@ == settings@,
            c.instant == now,
            c.last_message == now,
    {
        Client { instant: now, guid, addr, settings, last_message: now }
    }

    /// A client created now: both moments are one reading of the clock.
    pub fn new(guid: u32, addr: PeerAddr, settings: Vec<u8>) -> (c: Client)
        ensures
            c.guid == guid,
            c.addr == addr,
            c.settings@ == settings@,
            c.instant == c.last_message,
    {
        let now = precise_time_ns();
        Client::new_at(guid, addr, settings, now)
    }

    /// A copy of this client.
    pub fn duplicate(&self) -> (c: Client)
        ensures
            c@ == self@,
    {
        Client {
            instant: self.instant,
            guid: self.guid,
            addr: self.addr,
            settings: slice_to_vec(self.settings.as_slice()),
            last_message: self.last_message,
        }
    }

    /// The client's id followed by its settings, as announced to peers.
    pub fn record_bytes(&self) -> (out: Vec<u8>)
        ensures
            out@ == client_record(self.guid, self.settings@),
    {
        let mut out: Vec<u8> = Vec::new();
        push_u32(&mut out, self.guid);
        push_tail(&mut out, self.settings.as_slice(), 0);
        assert(self.settings@.subrange(0, self.settings@.len() as int) =~= self.settings@);
        out
    }

    /// Marks the client as heard from at `now`.
    pub fn last_update_at(&mut self, now: u64)
        ensures
            *final(self) == (Client { last_message: now, ..*old(self) }),
    {
        self.last_message = now;
    }

    /// Marks the client as heard from now.
    pub fn last_update(&mut self)
        ensures
            *final(self) == (Client { last_message: final(self).last_message, ..*old(self) }),
    {
        let now = precise_time_ns();
        self.last_update_at(now);
    }

    /// Marks the client as heard from at `now`, and tells whether at least a
    /// whole second has passed since it was last heard from.
    pub fn update_at(&mut self, now: u64) -> (b: bool)
        ensures
            b == (whole_secs_between(now, old(self).last_message) > 0),
            *final(self) == (Client { last_message: now, ..*old(self) }),
    {
        let b = now >= self.last_message && now - self.last_message >= NANOS_PER_SEC;
        self.last_message = now;
        b
    }

    /// Marks the client as heard from now, and tells whether at least a
    /// whole second has passed since it was last heard from.
    pub fn update(&mut self) -> (b: bool)
        ensures
            b == (whole_secs_between(final(self).last_message, old(self).last_message) > 0),
            *final(self) == (Client { last_message: final(self).last_message, ..*old(self) }),
    {
        let now = precise_time_ns();
        self.update_at(now)
    }

    /// Whether the client is at `addr`.
    pub fn is_same(&mut self, addr: PeerAddr) -> (b: bool)
        ensures
            b == (old(self).addr == addr),
            *final(self) == *old(self),
    {
        self.addr == addr
    }
}

/// A replicated object or property, registered by a client.
#[derive(Eq, PartialEq, Debug, Clone)]
pub struct ObjectRep {
    /// The id the server gave the object.
    pub id: u32,
    /// The owning object, if any.
    pub parent_id: u32,
    /// The object's data.
    pub bytes: Vec<u8>,
    /// The registering client.
    pub client_id: u32,
    /// The id the client asked for in its request.
    pub original_id: u32,
}

/// What an object record holds, with its data as a byte sequence.
pub struct ObjectView {
    pub id: u32,
    pub parent_id: u32,
    pub bytes: Seq<u8>,
    pub client_id: u32,
    pub original_id: u32,
}

impl View for ObjectRep {
    type V = ObjectView;

    open spec fn view(&self) -> ObjectView {
        ObjectView {
            id: self.id,
            parent_id: self.parent_id,
            bytes: self.bytes@,
            client_id: self.client_id,
            original_id: self.original_id,
        }
    }
}

impl ObjectRep {
    /// The record of object `new_id`, requested by client `client_id` under
    /// the id `object_id`.
    pub fn new(object_id: u32, new_id: u32, parent: u32, bytes: Vec<u8>, client_id: u32) -> (o:
        ObjectRep)
        ensures
            o.id == new_id,
            o.parent_id == parent,
            o.bytes@ == bytes@,
            o.client_id == client_id,
            o.original_id == object_id,
    {
        ObjectRep { id: new_id, parent_id: parent, bytes, client_id, original_id: object_id }
    }
}

} // verus!
