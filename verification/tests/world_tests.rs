use mmo_server::addr::PeerAddr;
use mmo_server::definitions::{ClientRoute, ServerRoute};
use mmo_server::world::{
    parse_client_route, register_property, register_property_with_id, replicate_property,
    world_action, world_register, world_register_at, world_register_object,
    world_register_object_with_id, WorldAction,
};

fn addr(port: u16) -> PeerAddr {
    PeerAddr::V6 { ip: 1, port, flowinfo: 0, scope_id: 0 }
}

#[test]
fn client_routes_of_world_requests() {
    assert_eq!(
        parse_client_route(vec![1, 13, 0]),
        Ok((ClientRoute::World, ServerRoute::RegistrationSpawned))
    );
    assert_eq!(parse_client_route(vec![1, 0]), Ok((ClientRoute::World, ServerRoute::Time)));
    assert_eq!(parse_client_route(vec![2, 99]), Err(()));
    assert_eq!(parse_client_route(vec![0]), Err(()));
}

#[test]
fn world_actions() {
    assert_eq!(world_action(&[1, 1]), Some(WorldAction::RegisterClient));
    assert_eq!(world_action(&[1, 13]), Some(WorldAction::RegisterObject));
    assert_eq!(world_action(&[1, 5]), Some(WorldAction::ReplicateProperty));
    assert_eq!(world_action(&[1, 14]), Some(WorldAction::RegisterProperty));
    assert_eq!(world_action(&[1, 20]), Some(WorldAction::Ignore));
    assert_eq!(world_action(&[4, 77]), None);
}

#[test]
fn player_registration_key_and_record() {
    let (key, client) = world_register_at(vec![1, 1, 0, 0, 7, 8], addr(8080), 55);
    assert_eq!(key, "client_2417950720");
    assert_eq!(client.guid, 2417950720);
    assert_eq!(client.settings, vec![7, 8]);
    assert_eq!(client.addr, addr(8080));
    assert_eq!(client.instant, 55);
    let (key, client) = world_register_at(vec![1, 1, 0, 0], addr(0), 1);
    assert_eq!(key, "client_0");
    assert!(client.settings.is_empty());
    let (key, c) = world_register(vec![1, 1, 0, 0, 9], addr(1));
    assert_eq!(key, "client_16777216");
    assert_eq!(c.settings, vec![9]);
}

#[test]
fn property_registration_key_and_record() {
    let msg = vec![1, 0, 0, 0, 2, 0, 0, 0, 3, 0, 0, 0, b'h', b'i'];
    let (key, p) = register_property_with_id(msg.clone(), 4294967295);
    assert_eq!(key, "property_4294967295");
    assert_eq!(p.id, 4294967295);
    assert_eq!(p.client_id, 1);
    assert_eq!(p.parent_id, 2);
    assert_eq!(p.original_id, 3);
    assert_eq!(p.bytes, b"hi".to_vec());
    let (key, p) = register_property(msg, addr(5));
    assert_eq!(key, format!("property_{}", p.id));
}

#[test]
fn object_registration_key_and_record() {
    let msg = vec![9, 0, 0, 0, 10, 0, 0, 0, 1, 2, 3];
    let (key, o) = world_register_object_with_id(msg.clone(), 1234);
    assert_eq!(key, "object_1234");
    assert_eq!(o.id, 1234);
    assert_eq!(o.client_id, 9);
    assert_eq!(o.original_id, 10);
    assert_eq!(o.parent_id, 0);
    assert_eq!(o.bytes, vec![1, 2, 3]);
    let (key, o) = world_register_object(msg, addr(5));
    assert_eq!(key, format!("object_{}", o.id));
}

#[test]
fn property_replication_echoes_the_message() {
    let msg: Vec<u8> = (0u8..12).collect();
    assert_eq!(replicate_property(msg.clone(), addr(3)), Some(msg));
}

#[test]
fn distinct_clients_get_distinct_keys() {
    let mut keys = Vec::new();
    for port in [0u16, 1, 2, 255, 256, 8080, 8081, 65535] {
        let (key, client) = world_register_at(vec![1, 1, 0, 0], addr(port), 0);
        assert_eq!(key, format!("client_{}", client.guid));
        keys.push(key);
    }
    let mut unique = keys.clone();
    unique.sort();
    unique.dedup();
    assert_eq!(unique.len(), keys.len());
}
