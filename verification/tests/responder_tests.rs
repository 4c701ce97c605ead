use mmo_server::addr::PeerAddr;
use mmo_server::definitions::{Relevancy, COND_NONE, COND_OWNERONLY, COND_SKIPOWNER};
use mmo_server::server::{Effect, Server};
use mmo_server::objects::Client;
use mmo_server::responder::{CrudType, Handler, ObjectType, Response, RouteRequest, RouteResponder};

fn addr(port: u16) -> PeerAddr {
    PeerAddr::V4 { ip: 10, port }
}

fn clients() -> Vec<Client> {
    vec![
        Client::new_at(1, addr(1), vec![], 0),
        Client::new_at(2, addr(2), vec![], 0),
        Client::new_at(3, addr(1), vec![], 0),
        Client::new_at(4, addr(3), vec![], 0),
    ]
}

#[test]
fn recipients_by_condition() {
    let cs = clients();
    assert_eq!(Response::get_recipients(&cs, Relevancy::OwnerOnly, addr(9)), vec![addr(9)]);
    assert_eq!(Response::get_recipients(&cs, Relevancy::SkipOwner, addr(1)), vec![addr(2), addr(3)]);
    assert_eq!(Response::get_recipients(&cs, Relevancy::Unconditional, addr(1)), vec![addr(1), addr(2), addr(3)]);
    assert_eq!(Response::get_recipients(&cs, Relevancy::Unconditional, addr(9)), vec![addr(9), addr(1), addr(2), addr(1), addr(3)]);
    assert_eq!(Response::get_recipients(&[], Relevancy::Unconditional, addr(9)), vec![addr(9)]);
    assert_eq!(Response::get_recipients(&cs, Relevancy::Custom, addr(1)), vec![]);
    assert_eq!(Response::get_recipients(&[], Relevancy::SkipOwner, addr(1)), vec![]);
}

#[test]
fn empty_response() {
    let r = Response::empty();
    assert!(r.message.is_empty());
    assert_eq!(r.sender, 0);
    assert_eq!(r.condition, Relevancy::Unconditional);
    assert_eq!(r.operation, CrudType::Read);
    assert_eq!(r.object_type, ObjectType::Object);
    assert!(r.client.is_none() && r.obj.is_none());
}

#[test]
fn standard_table_routes() {
    let t = RouteResponder::new();
    assert_eq!(t.responders.len(), 9);
    assert_eq!(t.get_callback(vec![1, 1, 0]), Some(Handler::RegisterConnection));
    assert_eq!(t.get_callback(vec![1, 4, 0]), Some(Handler::Rpc));
    assert_eq!(t.get_callback(vec![1, 5, 0]), Some(Handler::Property));
    assert_eq!(t.get_callback(vec![1, 0, 0]), Some(Handler::Time));
    assert_eq!(t.get_callback(vec![1, 2, 0]), Some(Handler::Ack));
    assert_eq!(t.get_callback(vec![1, 10, 0]), Some(Handler::Close));
    assert_eq!(t.get_callback(vec![1, 11, 0]), Some(Handler::UpdateClient));
    assert_eq!(t.get_callback(vec![1, 14, 0]), Some(Handler::RegProperty));
    assert_eq!(t.get_callback(vec![1, 13, 0]), Some(Handler::RegObject));
    assert_eq!(t.get_callback(vec![1, 3, 0]), None);
    assert_eq!(t.get_callback(vec![2, 1, 0]), None);
    assert_eq!(t.get_callback(vec![1, 1]), None);
}

#[test]
fn adding_a_route_replaces_its_handler() {
    let mut t = RouteResponder::new();
    t.add_route((1, 1), Handler::Ack);
    assert_eq!(t.responders.len(), 9);
    assert_eq!(t.get_callback(vec![1, 1, 0]), Some(Handler::Ack));
    t.add_route((1, 3), Handler::Callback);
    assert_eq!(t.responders.len(), 10);
    assert_eq!(t.get_callback(vec![1, 3, 7]), Some(Handler::Callback));
}

#[test]
fn registration_handler_creates_or_finds_the_client() {
    // Port 256 gives id 0x00010000.
    let req = RouteRequest { clients: vec![], raw_message: vec![5, 6, 7, 8, 9], sender: addr(256) };
    let r = RouteResponder::call(Handler::RegisterConnection, req).unwrap();
    let c = r.client.clone().unwrap();
    assert_eq!(c.guid, 0x00010000);
    assert_eq!(c.settings, vec![5, 6, 7, 8, 9]);
    assert_eq!(r.message, vec![0, 0, 1, 0, 5, 6, 7, 8, 9]);
    assert_eq!(r.sender, 0x00010000);
    assert_eq!(r.condition, Relevancy::OwnerOnly);
    assert_eq!(r.object_type, ObjectType::Client);
    assert_eq!(r.operation, CrudType::Create);
    let known = Client::new_at(0x00010000, addr(77), vec![1], 3);
    let req = RouteRequest { clients: vec![known.clone()], raw_message: vec![0, 0, 0, 0], sender: addr(256) };
    let r = RouteResponder::register_connection(req).unwrap();
    assert_eq!(r.client, Some(known));
}

#[test]
fn other_handlers_answer_with_fixed_responses() {
    for (h, cond) in [
        (Handler::Rpc, Relevancy::Unconditional),
        (Handler::Callback, Relevancy::Unconditional),
        (Handler::Property, Relevancy::SkipOwner),
        (Handler::RegProperty, Relevancy::SkipOwner),
        (Handler::RegObject, Relevancy::SkipOwner),
        (Handler::Time, Relevancy::OwnerOnly),
        (Handler::Ack, Relevancy::OwnerOnly),
        (Handler::Close, Relevancy::OwnerOnly),
        (Handler::UpdateClient, Relevancy::OwnerOnly),
    ] {
        let req = RouteRequest { clients: vec![], raw_message: vec![], sender: addr(1) };
        let r = RouteResponder::call(h, req).unwrap();
        assert_eq!(r.message, vec![0, 0, 0]);
        assert_eq!(r.sender, 0);
        assert_eq!(r.condition, cond);
        assert_eq!(r.operation, CrudType::Read);
        assert!(r.client.is_none() && r.obj.is_none());
    }
}

#[test]
fn responder_recipients_agree_with_server_broadcast() {
    let mut s = Server::new(addr(0));
    s.add_connection_at(&[], addr(1), 0);
    s.add_connection_at(&[], addr(2), 0);
    s.add_connection_at(&[], addr(3), 0);
    s.take_effects();
    for (cond, rel) in [
        (COND_SKIPOWNER, Relevancy::SkipOwner),
        (COND_OWNERONLY, Relevancy::OwnerOnly),
        (COND_NONE, Relevancy::Unconditional),
    ] {
        s.broadcast(&[7], addr(2), cond);
        let sent: Vec<PeerAddr> = s
            .take_effects()
            .into_iter()
            .map(|e| match e {
                Effect::Send { to, .. } => to,
                _ => panic!("expected a datagram"),
            })
            .collect();
        assert_eq!(sent, Response::get_recipients(&s.connections, rel, addr(2)));
    }
}
