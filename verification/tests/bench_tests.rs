use mmo_server::addr::PeerAddr;
use mmo_server::bench::{Server, ServerError};
use mmo_server::bench_client::{
    command_datagram, command_for_word, register, sr_ack, sr_callback, sr_close, sr_func, sr_property, sr_rpc,
    sr_time, DatagramCodec, FrameCodec,
};
use mmo_server::server::Effect;

fn addr(port: u16) -> PeerAddr {
    PeerAddr::V4 { ip: 3, port }
}

fn send(bytes: Vec<u8>, to: PeerAddr) -> Effect {
    Effect::Send { bytes, to }
}

#[test]
fn server_errors_are_distinct() {
    assert_ne!(ServerError::Variant1, ServerError::Variant2);
}

#[test]
fn client_requests() {
    assert_eq!(register(), vec![1, 1, 0, 0, 0, 0, 151, 0, 0, 0, 0, 0]);
    assert_eq!(sr_property(), vec![1, 5, 0, 0, 0, 0]);
    assert_eq!(sr_time(), vec![1, 0, 0, 0, 0, 0]);
    assert_eq!(sr_ack(), vec![1, 2, 0, 0, 0, 0]);
    assert_eq!(sr_callback(), vec![1, 3, 0, 0, 0, 0]);
    assert_eq!(sr_rpc(), vec![1, 4, 0, 0, 0, 0]);
    assert_eq!(sr_func(), vec![1, 6, 0, 0, 0, 0]);
    assert_eq!(sr_close(), vec![1, 8]);
}

#[test]
fn typed_commands_map_to_requests() {
    let a = addr(8080);
    assert_eq!(command_datagram(b"register\n".to_vec(), a), (a, register()));
    assert_eq!(command_datagram(b"  time \r\n".to_vec(), a), (a, sr_time()));
    assert_eq!(command_datagram(b"close".to_vec(), a), (a, sr_close()));
    assert_eq!(command_datagram(b"rpc\n".to_vec(), a), (a, sr_rpc()));
    assert_eq!(command_datagram(b"func\n".to_vec(), a), (a, sr_func()));
    assert_eq!(command_datagram(b"ack\n".to_vec(), a), (a, sr_ack()));
    assert_eq!(command_datagram(b"callback\n".to_vec(), a), (a, sr_callback()));
    assert_eq!(command_datagram(b"property\n".to_vec(), a), (a, sr_property()));
    assert_eq!(command_datagram(b"hello\n".to_vec(), a), (a, b"hello\n".to_vec()));
    assert_eq!(command_datagram(b"Register\n".to_vec(), a), (a, b"Register\n".to_vec()));
}

#[test]
fn frame_codec_ships_everything() {
    let mut codec = FrameCodec;
    let mut buf = vec![1u8, 2, 3];
    assert_eq!(codec.decode(&mut buf), Ok(Some(vec![1, 2, 3])));
    assert!(buf.is_empty());
    assert_eq!(codec.decode_eof(&mut buf), Ok(None));
    assert_eq!(codec.encode(vec![4, 5], &mut buf), Ok(()));
    assert_eq!(buf, vec![4, 5]);
    let mut d = DatagramCodec;
    assert_eq!(d.decode(&addr(1), &[7, 8]), Ok((addr(1), vec![7, 8])));
    let mut into = vec![0u8];
    assert_eq!(d.encode((addr(2), vec![9]), &mut into), addr(2));
    assert_eq!(into, vec![0, 9]);
}

fn id_field(id: u32) -> Vec<u8> {
    let mut v = id.to_le_bytes().to_vec();
    v.extend_from_slice(&[0, 0]);
    v
}

#[test]
fn bench_server_registers_and_keeps_the_id_of_an_address() {
    let mut s = Server::new();
    s.parse_route_at(vec![1, 1], addr(1), 10, 500);
    assert_eq!(s.connections.len(), 1);
    assert_eq!(s.connections[0].guid, 500);
    let mut reg = vec![1, 1];
    reg.extend(id_field(500));
    assert_eq!(s.take_effects(), vec![send(reg.clone(), addr(1))]);
    s.parse_route_at(vec![1, 1], addr(2), 11, 600);
    let mut joined = vec![1, 9];
    joined.extend(id_field(500));
    let mut reg600 = vec![1, 1];
    reg600.extend(id_field(600));
    assert_eq!(s.take_effects(), vec![send(joined, addr(2)), send(reg600, addr(2))]);
    // A second registration from the first address keeps its id.
    s.parse_route_at(vec![1, 1], addr(1), 12, 700);
    assert_eq!(s.connections.len(), 2);
    assert_eq!(s.connections[0].guid, 500);
    assert_eq!(s.connections[0].instant, 12);
}

#[test]
fn bench_server_routes_and_echoes_everything() {
    let mut s = Server::new();
    s.parse_route_at(vec![1, 1], addr(1), 10, 500);
    s.parse_route_at(vec![1, 1], addr(2), 10, 600);
    s.take_effects();
    assert_eq!(s.get_sender_id(addr(2)), 600);
    // An rpc goes to the sender, then to every other connection, then the
    // datagram is echoed back.
    s.receive_at(vec![1, 4, 9], addr(1), 0, 0);
    assert_eq!(
        s.take_effects(),
        vec![send(vec![9], addr(1)), send(vec![9], addr(2)), send(vec![1, 4, 9], addr(1))]
    );
    // From an unknown address the rpc is only echoed.
    s.receive_at(vec![1, 4, 9], addr(3), 0, 0);
    assert_eq!(s.take_effects(), vec![send(vec![1, 4, 9], addr(3))]);
    s.receive_at(vec![2, 4, 9], addr(3), 0, 0);
    assert_eq!(s.take_effects(), vec![send(vec![2, 4, 9], addr(3))]);
    s.receive_at(vec![1, 9], addr(3), 0, 0);
    assert_eq!(s.take_effects(), vec![send(vec![1, 9], addr(3))]);
    s.receive_at(vec![7], addr(3), 0, 0);
    assert_eq!(s.take_effects(), vec![send(vec![7], addr(3))]);
    s.receive_at(vec![1, 0], addr(2), 0x0102, 0);
    assert_eq!(
        s.take_effects(),
        vec![
            send(vec![1, 0, 0, 0, 0, 0, 0, 0, 0, 0, 2, 1, 0, 0, 0, 0, 0, 0], addr(2)),
            send(vec![1, 0], addr(2)),
        ]
    );
    s.receive_at(vec![1, 10], addr(1), 0, 0);
    assert_eq!(s.connections.len(), 1);
    let mut notice = vec![1, 10];
    notice.extend(id_field(500));
    assert_eq!(s.take_effects(), vec![send(notice, addr(2)), send(vec![1, 10], addr(1))]);
    assert!(s.broadcast(&[1], addr(2), 7));
    assert!(s.take_effects().is_empty());
    s.receive(vec![1, 2], addr(2));
    assert_eq!(s.take_effects(), vec![send(vec![1, 2], addr(2))]);
}

#[test]
fn fresh_bench_server_echoes_a_time_request() {
    let mut s = Server::new();
    s.receive_at(vec![1, 0], addr(4), 5, 0);
    assert_eq!(s.take_effects(), vec![send(vec![1, 0], addr(4))]);
}

#[test]
fn bench_none_reaches_a_sender_that_is_not_connected() {
    let mut s = Server::new();
    assert!(s.broadcast(&[5], addr(9), 8));
    assert_eq!(s.take_effects(), vec![send(vec![5], addr(9))]);
    s.parse_route_at(vec![1, 1], addr(1), 10, 500);
    s.take_effects();
    assert!(s.broadcast(&[5], addr(9), 8));
    assert_eq!(s.take_effects(), vec![send(vec![5], addr(9)), send(vec![5], addr(1))]);
    assert!(s.broadcast(&[5], addr(1), 8));
    assert_eq!(s.take_effects(), vec![send(vec![5], addr(1))]);
}

#[test]
fn typed_commands_trim_unicode_white_space() {
    let a = addr(8080);
    assert_eq!(command_datagram("\u{3000}rpc\u{a0}\t".as_bytes().to_vec(), a), (a, sr_rpc()));
    assert_eq!(command_datagram("\u{2003}time\u{2028}".as_bytes().to_vec(), a), (a, sr_time()));
    assert_eq!(command_for_word(&"ack".to_string(), vec![9]), sr_ack());
    assert_eq!(command_for_word(&" ack".to_string(), vec![9]), vec![9]);
}
