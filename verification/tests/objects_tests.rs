use mmo_server::addr::PeerAddr;
use mmo_server::objects::{Client, KeyStore, ObjectKey, ObjectRep, NANOS_PER_SEC};

fn key(id: &str, t: &str) -> ObjectKey {
    ObjectKey { id: id.to_string(), objtype: t.to_string() }
}

fn store() -> KeyStore {
    let mut ks = KeyStore::new();
    ks.keys.push(key("client_1", "client"));
    ks.keys.push(key("object_7", "object"));
    ks.keys.push(key("client_2", "client"));
    ks.keys.push(key("property_9", "property"));
    ks.keys.push(key("x", "other"));
    ks
}

#[test]
fn key_store_starts_empty() {
    let ks = KeyStore::new();
    assert!(ks.keys.is_empty());
    assert!(ks.get_client_ids().is_empty());
}

#[test]
fn key_store_filters_by_kind_in_order() {
    assert_eq!(store().get_client_ids(), vec!["client_1".to_string(), "client_2".to_string()]);
    assert_eq!(store().get_object_ids(), vec!["object_7".to_string()]);
    assert_eq!(store().get_property_ids(), vec!["property_9".to_string()]);
}

#[test]
fn key_store_ids_of_concatenated_stores() {
    let mut both = store();
    both.keys.extend(store().keys);
    let once = store().get_client_ids();
    let mut twice = once.clone();
    twice.extend(once);
    assert_eq!(both.get_client_ids(), twice);
}

#[test]
fn object_rep_fields() {
    let o = ObjectRep::new(5, 77, 3, vec![1, 2], 9);
    assert_eq!(o.id, 77);
    assert_eq!(o.parent_id, 3);
    assert_eq!(o.bytes, vec![1, 2]);
    assert_eq!(o.client_id, 9);
    assert_eq!(o.original_id, 5);
}

fn addr(port: u16) -> PeerAddr {
    PeerAddr::V4 { ip: 0x7f000001, port }
}

#[test]
fn client_update_reports_a_whole_second() {
    let mut c = Client::new_at(4, addr(9000), vec![1], 100);
    assert_eq!(c.instant, 100);
    assert_eq!(c.last_message, 100);
    assert!(!c.update_at(100 + NANOS_PER_SEC - 1));
    assert_eq!(c.last_message, 100 + NANOS_PER_SEC - 1);
    assert!(c.update_at(100 + 2 * NANOS_PER_SEC));
    assert!(!c.update_at(5));
    assert_eq!(c.last_message, 5);
    c.last_update_at(42);
    assert_eq!(c.last_message, 42);
    assert_eq!(c.instant, 100);
}

#[test]
fn client_identity_and_record() {
    let mut c = Client::new(0x01020304, addr(9000), vec![7, 8]);
    assert_eq!(c.instant, c.last_message);
    assert!(c.is_same(addr(9000)));
    assert!(!c.is_same(addr(9001)));
    assert_eq!(c.record_bytes(), vec![4, 3, 2, 1, 7, 8]);
    let d = c.duplicate();
    assert_eq!(d, c);
    let before = c.last_message;
    c.last_update();
    assert!(c.last_message >= before);
    let _ = c.update();
}
