use mmo_server::addr::PeerAddr;
use mmo_server::definitions::{COND_INITIALONLY, COND_NONE, COND_OWNERONLY, COND_SKIPOWNER};
use mmo_server::model::RequestLog;
use mmo_server::objects::{Client, NANOS_PER_SEC};
use mmo_server::server::{Effect, Listener, Server};

fn addr(port: u16) -> PeerAddr {
    PeerAddr::V4 { ip: 0x7f000001, port }
}

fn le(n: u32) -> Vec<u8> {
    n.to_le_bytes().to_vec()
}

fn cat(parts: &[&[u8]]) -> Vec<u8> {
    parts.iter().flat_map(|p| p.iter().copied()).collect()
}

fn send(bytes: Vec<u8>, to: PeerAddr) -> Effect {
    Effect::Send { bytes, to }
}

const A_ID: u32 = 0x2923_0000; // port 9001 = 0x2329
const B_ID: u32 = 0x2a23_0000; // port 9002 = 0x232a

fn joined(id: u32, settings: &[u8]) -> Vec<u8> {
    cat(&[&[1, 9], &le(id), settings])
}

/// A server with a client at port 9001 (settings [10]) and one at 9002
/// (settings [20]), both connected at clock 1000, effects cleared.
fn two_clients() -> Server {
    let mut s = Server::new(addr(8000));
    assert!(s.add_connection_at(&[10], addr(9001), 1000));
    assert!(s.add_connection_at(&[20], addr(9002), 1000));
    s.take_effects();
    s
}

#[test]
fn new_server_is_empty() {
    let mut s = Server::new(addr(8000));
    assert_eq!(s.addr, addr(8000));
    assert!(s.connections.is_empty());
    assert!(s.objects.is_empty());
    assert!(s.take_effects().is_empty());
}

#[test]
fn first_connection_is_told_it_joined() {
    let mut s = Server::new(addr(8000));
    assert!(s.add_connection_at(&[10], addr(9001), 1000));
    assert_eq!(s.connections.len(), 1);
    assert_eq!(s.connections[0].guid, A_ID);
    assert_eq!(s.connections[0].settings, vec![10]);
    assert_eq!(s.take_effects(), vec![send(joined(A_ID, &[10]), addr(9001))]);
}

#[test]
fn second_connection_is_announced_both_ways() {
    let mut s = Server::new(addr(8000));
    s.add_connection_at(&[10], addr(9001), 1000);
    s.take_effects();
    s.add_connection_at(&[20], addr(9002), 1000);
    assert_eq!(s.connections.len(), 2);
    assert_eq!(
        s.take_effects(),
        vec![
            send(joined(B_ID, &[20]), addr(9001)),
            send(joined(A_ID, &[10]), addr(9002)),
            send(joined(B_ID, &[20]), addr(9001)),
            send(joined(B_ID, &[20]), addr(9002)),
        ]
    );
}

#[test]
fn reconnecting_from_the_same_port_replaces_the_client() {
    let mut s = two_clients();
    s.add_connection_at(&[30], addr(9001), 5000);
    assert_eq!(s.connections.len(), 2);
    assert_eq!(s.connections[0].guid, A_ID);
    assert_eq!(s.connections[0].settings, vec![30]);
    assert_eq!(s.connections[0].last_message, 5000);
}

#[test]
fn sender_ids() {
    let mut s = two_clients();
    assert_eq!(s.get_sender_id(addr(9001)), A_ID);
    assert_eq!(s.get_sender_id(addr(9002)), B_ID);
    assert_eq!(s.get_sender_id(addr(9999)), 0);
    assert_eq!(s.create_uid(addr(9001)), A_ID);
}

#[test]
fn broadcast_conditions() {
    let mut s = two_clients();
    assert!(s.broadcast(&[5], addr(9001), COND_OWNERONLY));
    assert_eq!(s.take_effects(), vec![send(vec![5], addr(9001))]);
    s.broadcast(&[5], addr(9001), COND_SKIPOWNER);
    assert_eq!(s.take_effects(), vec![send(vec![5], addr(9002))]);
    s.broadcast(&[5], addr(9001), COND_NONE);
    assert_eq!(s.take_effects(), vec![send(vec![5], addr(9001)), send(vec![5], addr(9002))]);
    s.broadcast(&[5], addr(9001), COND_INITIALONLY);
    assert_eq!(s.take_effects().len(), 2);
    assert!(s.broadcast(&[5], addr(9001), 42));
    assert!(s.take_effects().is_empty());
}

#[test]
fn none_reaches_the_sender_and_every_listener() {
    let mut s = Server::new(addr(0));
    assert!(s.broadcast(&[5], addr(9001), COND_NONE));
    assert_eq!(s.take_effects(), vec![send(vec![5], addr(9001))]);
    let mut s = two_clients();
    assert!(s.broadcast(&[5], addr(7000), COND_NONE));
    assert_eq!(
        s.take_effects(),
        vec![send(vec![5], addr(7000)), send(vec![5], addr(9001)), send(vec![5], addr(9002))]
    );
    for cond in [0u8, 3, 4, 5, 6, 7, 9] {
        assert!(s.broadcast(&[6], addr(9002), cond));
        assert_eq!(s.take_effects(), vec![send(vec![6], addr(9002)), send(vec![6], addr(9001))]);
    }
}

#[test]
fn userstate_answers_twice_or_not_at_all() {
    let mut s = two_clients();
    let req = cat(&[&le(0), &le(B_ID)]);
    assert!(s.userstate(&req, addr(7000)));
    assert_eq!(
        s.take_effects(),
        vec![send(joined(B_ID, &[20]), addr(7000)), send(joined(B_ID, &[20]), addr(7000))]
    );
    let req = cat(&[&le(0), &le(12345)]);
    assert!(!s.userstate(&req, addr(7000)));
    assert!(s.take_effects().is_empty());
}

#[test]
fn property_registration_then_state_request() {
    let mut s = two_clients();
    let msg = cat(&[&le(A_ID), &le(3), &le(8), b"hp"]);
    assert!(s.register_property_with_id(&msg, addr(9001), 555));
    let announce = cat(&[&[1, 14], &le(A_ID), &le(3), &le(8), &le(555), b"hp"]);
    assert_eq!(
        s.take_effects(),
        vec![send(announce.clone(), addr(9001)), send(announce.clone(), addr(9002))]
    );
    assert_eq!(s.objects.len(), 1);
    assert_eq!(s.objects[0].id, 555);
    assert_eq!(s.objects[0].client_id, A_ID);
    let req = cat(&[&le(0), &le(555)]);
    assert!(s.propertystate(&req, addr(9002)));
    assert_eq!(s.take_effects(), vec![send(announce, addr(9002))]);
    assert!(s.objectstate(&req, addr(9002)));
    let spawned = cat(&[&[1, 13], &le(3), &le(0), &le(555), b"hp"]);
    assert_eq!(s.take_effects(), vec![send(spawned, addr(9002))]);
    let missing = cat(&[&le(0), &le(556)]);
    assert!(!s.propertystate(&missing, addr(9002)));
    assert!(!s.objectstate(&missing, addr(9002)));
    assert!(s.take_effects().is_empty());
}

#[test]
fn property_registration_moves_the_owner() {
    let mut s = two_clients();
    let msg = cat(&[&le(B_ID), &le(0), &le(1), b""]);
    s.register_property_with_id(&msg, addr(9555), 1);
    assert_eq!(s.connections[1].addr, addr(9555));
}

#[test]
fn object_registration_defaults_the_owner_to_the_sender() {
    let mut s = two_clients();
    let msg = cat(&[&le(0), &le(44), &[5]]);
    assert!(s.register_object_with_id(&msg, addr(9002), 600));
    assert_eq!(s.objects[0].id, 600);
    assert_eq!(s.objects[0].client_id, B_ID);
    assert_eq!(s.objects[0].parent_id, B_ID);
    assert_eq!(s.objects[0].original_id, 44);
    let out = cat(&[&[1, 13], &le(B_ID), &le(44), &le(600), &[5]]);
    assert_eq!(s.take_effects(), vec![send(out.clone(), addr(9002)), send(out, addr(9001))]);
}

#[test]
fn fresh_ids_are_unused() {
    let mut s = two_clients();
    for i in 0..5u32 {
        let id = s.fresh_object_id();
        assert!(s.objects.iter().all(|o| o.id != id));
        let msg = cat(&[&le(A_ID), &le(0), &le(i), b""]);
        s.register_property_with_id(&msg, addr(9001), id);
    }
    assert_eq!(s.objects.len(), 5);
    let msg = cat(&[&le(A_ID), &le(0), &le(9), b""]);
    assert!(s.register_property(&msg, addr(9001)));
    let msg = cat(&[&le(0), &le(9)]);
    assert!(s.register_object(&msg, addr(9001)));
    assert_eq!(s.objects.len(), 7);
}

#[test]
fn unregister_and_close_connection() {
    let mut s = two_clients();
    s.register_property_with_id(&cat(&[&le(A_ID), &le(0), &le(1)]), addr(9001), 10);
    assert!(s.unregister_object(10));
    assert!(s.objects.is_empty());
    assert!(s.unregister_object(10));
    assert!(s.close_connection(&A_ID));
    assert_eq!(s.connections.len(), 1);
    assert_eq!(s.connections[0].guid, B_ID);
    assert!(s.close_connection(&A_ID));
    assert_eq!(s.connections.len(), 1);
}

#[test]
fn close_request_drops_the_sender_and_tells_the_rest() {
    let mut s = two_clients();
    assert!(s.closed_connection(&[], addr(9001)));
    assert_eq!(s.connections.len(), 1);
    assert_eq!(s.connections[0].guid, B_ID);
    let notice = cat(&[&[1, 10], &le(A_ID)]);
    assert_eq!(s.take_effects(), vec![send(notice, addr(9002))]);
}

#[test]
fn stale_clients_and_their_objects_are_dropped() {
    let mut s = two_clients();
    s.register_property_with_id(&cat(&[&le(A_ID), &le(0), &le(1)]), addr(9001), 1);
    s.register_property_with_id(&cat(&[&le(B_ID), &le(0), &le(2)]), addr(9002), 2);
    s.register_property_with_id(&cat(&[&le(77), &le(0), &le(3)]), addr(9002), 3);
    s.connections[1].update_at(1000 + 100 * NANOS_PER_SEC);
    assert!(s.close_stale_connections_at(1000 + 240 * NANOS_PER_SEC + 999));
    assert_eq!(s.connections.len(), 2);
    assert!(s.close_stale_connections_at(1000 + 241 * NANOS_PER_SEC));
    assert_eq!(s.connections.len(), 1);
    assert_eq!(s.connections[0].guid, B_ID);
    let ids: Vec<u32> = s.objects.iter().map(|o| o.id).collect();
    assert_eq!(ids, vec![2, 3]);
}

#[test]
fn update_client_marks_the_first_match() {
    let mut s = two_clients();
    assert!(!s.update_client_at(addr(9001), 1000 + NANOS_PER_SEC - 1));
    assert!(s.update_client_at(addr(9002), 1000 + NANOS_PER_SEC));
    assert_eq!(s.connections[1].last_message, 1000 + NANOS_PER_SEC);
    assert!(!s.update_client_at(addr(9999), 1));
}

#[test]
fn simple_handlers() {
    let mut s = two_clients();
    assert!(s.rpc_message(&[1], addr(9001)));
    assert!(s.callback_message(&[2], addr(9001)));
    assert!(s.function_message(&[3], addr(9001)));
    assert!(s.voicedata(&[4], addr(9001)));
    assert_eq!(s.take_effects().len(), 8);
    assert!(s.ping_message(&[1], addr(9001)));
    assert!(s.ack_message(&[1], addr(9001)));
    assert!(!s.notify_registered_object(1));
    assert_eq!(s.respond(&[1, 2], addr(9001)), Ok(true));
    assert!(s.take_effects().is_empty());
    assert!(s.time_message_at(&[], addr(9002), 0x0102030405060708));
    let reply = vec![1, 0, 0, 0, 0, 0, 0, 0, 0, 0, 8, 7, 6, 5, 4, 3, 2, 1];
    assert_eq!(s.take_effects(), vec![send(reply, addr(9002))]);
    assert!(s.time_message(&[], addr(9002)));
    let effects = s.take_effects();
    assert_eq!(effects.len(), 1);
    match &effects[0] {
        Effect::Send { bytes, to } => {
            assert_eq!(bytes.len(), 18);
            assert_eq!(&bytes[..10], &[1, 0, 0, 0, 0, 0, 0, 0, 0, 0]);
            assert_eq!(*to, addr(9002));
        }
        _ => panic!("expected a datagram"),
    }
}

#[test]
fn rejoin_and_notify() {
    let mut s = two_clients();
    let c = Client::new_at(7, addr(4000), vec![1, 2], 0);
    assert!(s.rejoin(c));
    assert_eq!(s.take_effects(), vec![send(cat(&[&[1, 18], &le(7), &[1, 2]]), addr(4000))]);
    assert!(s.notify_new_connection(A_ID));
    assert_eq!(s.take_effects(), vec![send(cat(&[&[1, 9], &le(A_ID)]), addr(9002))]);
}

#[test]
fn property_replication_from_an_unknown_address_moves_the_named_client() {
    let mut s = two_clients();
    let msg = cat(&[&[1, 5], &le(A_ID), &[9]]);
    assert!(s.property_message(&msg, addr(9100)));
    assert_eq!(s.connections[0].addr, addr(9100));
    assert_eq!(s.take_effects(), vec![send(msg, addr(9002))]);
}

#[test]
fn routing_classifies_requests() {
    let mut s = two_clients();
    assert!(s.parse_route_at(vec![1], addr(9001), 0, 0));
    assert!(!s.parse_route_at(vec![2, 1], addr(9001), 0, 0));
    assert!(!s.parse_route_at(vec![1, 9], addr(9001), 0, 0));
    assert!(!s.parse_route_at(vec![1, 18], addr(9001), 0, 0));
    assert!(!s.parse_route_at(vec![1, 21], addr(9001), 0, 0));
    assert!(s.parse_route_at(vec![1, 8], addr(9001), 0, 0));
    assert!(s.parse_route_at(vec![1, 19], addr(9001), 0, 0));
    assert!(s.take_effects().is_empty());
    assert!(s.route_fits_request(&[1, 1, 0, 0, 0, 0], addr(9001)));
    assert!(!s.route_fits_request(&[1, 1, 0], addr(9001)));
    assert!(!s.route_fits_request(&[1, 13, 0], addr(9001)));
    assert!(s.route_fits_request(&[1, 13, 0], addr(9999)));
    assert!(!s.route_fits_request(&[1, 14, 0, 0, 0, 0, 0, 0, 0, 0, 0, 0, 0], addr(9001)));
}

#[test]
fn routing_register_records_after_acting() {
    let mut s = Server::new(addr(8000));
    let msg = vec![1, 1, 0, 0, 0, 0, 7];
    assert!(s.parse_route_at(msg.clone(), addr(9001), 5, 0));
    assert_eq!(s.connections[0].settings, vec![7]);
    assert_eq!(
        s.take_effects(),
        vec![
            send(joined(A_ID, &[7]), addr(9001)),
            Effect::Record { peer: addr(9001), log: RequestLog::Register, bytes: msg },
        ]
    );
}

#[test]
fn routing_requires_a_known_sender_for_time() {
    let mut s = two_clients();
    assert!(s.parse_route_at(vec![1, 0], addr(9999), 7, 0));
    assert!(s.take_effects().is_empty());
    assert!(s.parse_route_at(vec![1, 0], addr(9001), 7, 0));
    let reply = vec![1, 0, 0, 0, 0, 0, 0, 0, 0, 0, 7, 0, 0, 0, 0, 0, 0, 0];
    assert_eq!(
        s.take_effects(),
        vec![
            send(reply, addr(9001)),
            Effect::Record { peer: addr(9001), log: RequestLog::Time, bytes: vec![1, 0] },
        ]
    );
}

#[test]
fn routing_rpc_and_voice() {
    let mut s = two_clients();
    assert!(s.parse_route_at(vec![1, 4, 9], addr(9001), 0, 0));
    assert_eq!(
        s.take_effects(),
        vec![
            send(vec![9], addr(9001)),
            send(vec![9], addr(9002)),
            Effect::Record { peer: addr(9001), log: RequestLog::Rpc, bytes: vec![1, 4, 9] },
        ]
    );
    assert!(s.parse_route_at(vec![1, 20, 3], addr(9999), 0, 0));
    assert_eq!(
        s.take_effects(),
        vec![
            Effect::Record { peer: addr(9999), log: RequestLog::Voice, bytes: vec![1, 20, 3] },
            send(vec![1, 20, 3], addr(9999)),
            send(vec![1, 20, 3], addr(9001)),
            send(vec![1, 20, 3], addr(9002)),
        ]
    );
}

#[test]
fn routing_userstate_records_before_acting() {
    let mut s = two_clients();
    let msg = cat(&[&[1, 15], &le(0), &le(A_ID)]);
    assert!(s.parse_route_at(msg.clone(), addr(9002), 0, 0));
    assert_eq!(
        s.take_effects(),
        vec![
            Effect::Record { peer: addr(9002), log: RequestLog::UserState, bytes: msg },
            send(joined(A_ID, &[10]), addr(9002)),
            send(joined(A_ID, &[10]), addr(9002)),
        ]
    );
}

#[test]
fn routing_registers_properties_and_objects() {
    let mut s = two_clients();
    let msg = cat(&[&[1, 14], &le(A_ID), &le(2), &le(3), b"n"]);
    assert!(s.parse_route_at(msg, addr(9001), 0, 99));
    assert_eq!(s.objects[0].id, 99);
    let msg = cat(&[&[1, 13], &le(0), &le(4), b"o"]);
    assert!(s.parse_route_at(msg, addr(9002), 0, 100));
    assert_eq!(s.objects[1].id, 100);
    assert_eq!(s.objects[1].client_id, B_ID);
    assert!(s.parse_route(cat(&[&[1, 14], &le(A_ID), &le(2), &le(3)]), addr(9001)));
    assert_eq!(s.objects.len(), 3);
    assert!(s.objects[2].id != 99 && s.objects[2].id != 100);
}

#[test]
fn receiving_drops_stale_clients_and_refreshes_the_sender() {
    let mut s = two_clients();
    assert_eq!(s.receive_at(&[1, 2, 3], addr(9001), 1000 + 10 * NANOS_PER_SEC), Ok(true));
    assert_eq!(s.connections[0].last_message, 1000 + 10 * NANOS_PER_SEC);
    assert_eq!(s.receive_at(&[1], addr(9001), 1000 + 241 * NANOS_PER_SEC), Ok(true));
    assert_eq!(s.connections.len(), 1);
    assert_eq!(s.connections[0].guid, A_ID);
    assert!(s.take_effects().is_empty());
    let mut l = Listener::new(s);
    assert_eq!(l.stream.receive(&[1], addr(9001)), Ok(true));
}
