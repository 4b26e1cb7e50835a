use riscv_vm::net::backend::{
    receive, relay_address, relay_outcome, Libp2pBackend, Received, Route, ARP_DELAY, PING_DELAY,
};
use riscv_vm::net::checksum::{compute_checksum, set_checksum};
use riscv_vm::net::frames::{
    generate_arp_reply, generate_icmp_reply, generate_icmp_reply_for_external, is_external_ip,
    is_external_udp_packet, GATEWAY_IP, GATEWAY_MAC,
};
use riscv_vm::net::gateway::{process_icmp_outbound, NatGateway, SESSION_TIMEOUT};
use riscv_vm::net::link::{Command, Event, LinkAction, LinkState};

const MAC: [u8; 6] = [2, 0, 0, 0, 0, 1];
const IP: [u8; 4] = [10, 0, 2, 15];
const OUTSIDE: [u8; 4] = [8, 8, 8, 8];

/// A question for the hardware address of the gateway.
fn arp_request() -> Vec<u8> {
    let mut frame = vec![0xff; 6];
    frame.extend_from_slice(&MAC);
    frame.extend_from_slice(&[0x08, 0x06, 0, 1, 0x08, 0, 6, 4, 0, 1]);
    frame.extend_from_slice(&MAC);
    frame.extend_from_slice(&IP);
    frame.extend_from_slice(&[0; 6]);
    frame.extend_from_slice(&GATEWAY_IP);
    frame
}

/// An Ethernet frame with an IPv4 packet.
fn ip_frame(protocol: u8, to: [u8; 4], body: &[u8]) -> Vec<u8> {
    let mut frame = GATEWAY_MAC.to_vec();
    frame.extend_from_slice(&MAC);
    frame.extend_from_slice(&[0x08, 0x00]);
    let len = (20 + body.len()) as u16;
    let mut header = vec![0x45, 0, 0, 0, 0, 1, 0, 0, 64, protocol, 0, 0];
    header[2..4].copy_from_slice(&len.to_be_bytes());
    header.extend_from_slice(&IP);
    header.extend_from_slice(&to);
    set_checksum(&mut header, 10);
    frame.extend_from_slice(&header);
    frame.extend_from_slice(body);
    frame
}

fn ping(to: [u8; 4]) -> Vec<u8> {
    let mut body = vec![8, 0, 0, 0, 0x12, 0x34, 0, 7, b'h', b'i'];
    set_checksum(&mut body, 2);
    ip_frame(1, to, &body)
}

fn udp(to: [u8; 4], from_port: u16, to_port: u16, payload: &[u8]) -> Vec<u8> {
    let mut body = from_port.to_be_bytes().to_vec();
    body.extend_from_slice(&to_port.to_be_bytes());
    body.extend_from_slice(&((8 + payload.len()) as u16).to_be_bytes());
    body.extend_from_slice(&[0, 0]);
    body.extend_from_slice(payload);
    ip_frame(17, to, &body)
}

#[test]
fn checksums_verify() {
    assert_eq!(compute_checksum(&[]), 0xffff);
    assert_eq!(compute_checksum(&[0x12, 0x34]), 0xedcb);
    assert_eq!(compute_checksum(&[0x12]), 0xedff);
    assert_eq!(compute_checksum(&[0xff, 0xff, 0x00, 0x01]), 0xfffe);
    let mut data = vec![0x45, 0x00, 0x00, 0x00, 0xab, 0xcd];
    set_checksum(&mut data, 2);
    assert_eq!(compute_checksum(&data), 0);
}

#[test]
fn two_networks_are_inside() {
    assert!(!is_external_ip(&[10, 1, 2, 3]));
    assert!(is_external_ip(&[192, 168, 1, 1]));
    assert!(!is_external_ip(&[127, 0, 0, 1]));
    assert!(is_external_ip(&OUTSIDE));
    assert!(is_external_udp_packet(&udp(OUTSIDE, 1000, 53, b"x")));
    assert!(!is_external_udp_packet(&udp(GATEWAY_IP, 1000, 53, b"x")));
    assert!(!is_external_udp_packet(&[0; 10]));
}

#[test]
fn arp_replies_name_the_gateway() {
    let reply = generate_arp_reply(&arp_request());
    assert_eq!(&reply[0..6], &MAC);
    assert_eq!(&reply[6..12], &GATEWAY_MAC);
    assert_eq!(&reply[20..22], &[0, 2]);
    assert_eq!(&reply[22..28], &GATEWAY_MAC);
    assert_eq!(&reply[28..32], &GATEWAY_IP);
    assert_eq!(&reply[32..38], &MAC);
    assert_eq!(&reply[38..42], &IP);
}

#[test]
fn pings_of_the_gateway_are_echoed() {
    let request = ping(GATEWAY_IP);
    let reply = generate_icmp_reply(&request);
    assert_eq!(reply.len(), request.len());
    assert_eq!(&reply[0..6], &MAC);
    assert_eq!(&reply[26..30], &GATEWAY_IP);
    assert_eq!(&reply[30..34], &IP);
    assert_eq!(&reply[12..24], &request[12..24]);
    assert_eq!((reply[34], reply[35]), (0, request[35]));
    assert_eq!(&reply[38..], &request[38..]);
    assert_eq!(compute_checksum(&reply[14..34]), 0);
    assert_eq!(compute_checksum(&reply[34..]), 0);
}

#[test]
fn answers_from_outside_verify() {
    let reply = generate_icmp_reply_for_external(&MAC, &IP, &OUTSIDE, 0x1234, 7);
    assert_eq!(&reply[26..30], &OUTSIDE);
    assert_eq!(compute_checksum(&reply[14..34]), 0);
    assert_eq!(compute_checksum(&reply[34..]), 0);
    let asked = process_icmp_outbound(&ping(OUTSIDE)).unwrap();
    assert_eq!(asked.src_mac, MAC);
    assert_eq!(asked.src_ip, IP);
    assert_eq!(asked.dst_ip, OUTSIDE);
    assert_eq!((asked.ident, asked.seq), (0x1234, 7));
    assert!(process_icmp_outbound(&[0; 20]).is_none());
}

#[test]
fn answers_find_their_way_back() {
    let mut gateway = NatGateway::new();
    let forward = gateway.process_udp_outbound(&udp(OUTSIDE, 1000, 53, b"query"), 5).unwrap();
    assert_eq!(forward.dst_ip, OUTSIDE);
    assert_eq!(forward.dst_port, 53);
    assert_eq!(forward.src_port, 1000);
    assert_eq!(forward.payload, b"query".to_vec());
    let reply = gateway
        .accept_udp_response(Some(OUTSIDE), 53, b"answer", &GATEWAY_MAC, 6)
        .unwrap();
    assert_eq!(&reply[0..6], &MAC);
    assert_eq!(&reply[26..30], &OUTSIDE);
    assert_eq!(&reply[30..34], &IP);
    assert_eq!(&reply[34..38], &[0, 53, 0x03, 0xe8]);
    assert_eq!(&reply[42..], b"answer");
    assert_eq!(compute_checksum(&reply[14..34]), 0);
    assert!(gateway.accept_udp_response(Some(OUTSIDE), 54, b"x", &GATEWAY_MAC, 6).is_none());
    assert!(gateway.accept_udp_response(None, 53, b"x", &GATEWAY_MAC, 6).is_none());
}

#[test]
fn old_exchanges_are_forgotten() {
    let mut gateway = NatGateway::new();
    gateway.process_udp_outbound(&udp(OUTSIDE, 1000, 9999, b"x"), 5).unwrap();
    let last = 4 + SESSION_TIMEOUT;
    let answer = gateway.accept_udp_response(Some(OUTSIDE), 9999, b"y", &GATEWAY_MAC, last);
    assert!(answer.is_some());
    gateway.cleanup_expired(last + 1);
    let answer = gateway.accept_udp_response(Some(OUTSIDE), 9999, b"y", &GATEWAY_MAC, 5);
    assert!(answer.is_none());
}

#[test]
fn the_gateway_answers_by_itself() {
    let mut backend = Libp2pBackend::new("/ip4/127.0.0.1/tcp/9000");
    assert!(matches!(backend.send(&arp_request(), 100), Route::Answered));
    assert!(backend.take_ready(100 + ARP_DELAY - 1).is_none());
    let reply = backend.take_ready(100 + ARP_DELAY).unwrap();
    assert_eq!(reply, generate_arp_reply(&arp_request()));
    assert!(matches!(backend.send(&ping(GATEWAY_IP), 0), Route::Answered));
    assert_eq!(backend.take_ready(PING_DELAY).unwrap(), generate_icmp_reply(&ping(GATEWAY_IP)));
    assert!(backend.take_ready(u64::MAX).is_none());
}

#[test]
fn frames_find_their_route() {
    let mut backend = Libp2pBackend::new("relay");
    assert_eq!(backend.relay_addr(), "relay");
    match backend.send(&[1, 2, 3], 0) {
        Route::Refused(message) => assert_eq!(message, "libp2p not initialized"),
        other => panic!("{:?}", other),
    }
    backend.start();
    assert!(matches!(backend.send(&[1, 2, 3], 0), Route::Publish));
    assert!(matches!(backend.send(&udp(IP, 5, 6, b"x"), 0), Route::Publish));
    match backend.send(&ping(OUTSIDE), 0) {
        Route::Ping(asked) => assert_eq!(asked.dst_ip, OUTSIDE),
        other => panic!("{:?}", other),
    }
    match backend.send(&udp(OUTSIDE, 5, 6, b"x"), 0) {
        Route::Forward(forward) => assert_eq!(forward.payload, b"x".to_vec()),
        other => panic!("{:?}", other),
    }
}

#[test]
fn relay_addresses_are_read() {
    // The protocol numbers of ip4 and tcp are 4 and 6.
    assert_eq!(
        relay_address("/ip4/127.0.0.1/tcp/9000"),
        Ok(vec![4, 127, 0, 0, 1, 6, 0x23, 0x28])
    );
    let error = relay_address("nowhere").unwrap_err();
    assert!(error.starts_with("Invalid relay address: "), "{}", error);
    assert_eq!(relay_outcome(Ok(vec![1])), Ok(vec![1]));
    assert_eq!(
        relay_outcome(Err("bad".to_string())),
        Err("Invalid relay address: bad".to_string())
    );
}

#[test]
fn what_the_network_has_is_handed_over() {
    assert_eq!(receive(Received::Frame(vec![1])), Ok(Some(vec![1])));
    assert_eq!(receive(Received::Empty), Ok(None));
    assert_eq!(receive(Received::Disconnected), Err("libp2p disconnected".to_string()));
    assert_eq!(receive(Received::Absent), Ok(None));
}

#[test]
fn frames_wait_for_a_connection() {
    let mut link = LinkState::new();
    assert!(!link.is_connected());
    assert!(link.start_outcome().is_none());
    assert!(matches!(link.on_command(Command::Send(vec![1])), LinkAction::Nothing));
    assert!(matches!(link.on_command(Command::Send(vec![2])), LinkAction::Nothing));
    match link.on_event(Event::Connected) {
        LinkAction::Publish(frames) => assert_eq!(frames, vec![vec![1], vec![2]]),
        other => panic!("{:?}", other),
    }
    assert!(link.is_connected());
    assert!(matches!(link.start_outcome(), Some(Ok(()))));
    match link.on_command(Command::Send(vec![3])) {
        LinkAction::Publish(frames) => assert_eq!(frames, vec![vec![3]]),
        other => panic!("{:?}", other),
    }
    assert!(matches!(
        link.on_event(Event::Message { own: true, data: vec![9] }),
        LinkAction::Nothing
    ));
    match link.on_event(Event::Message { own: false, data: vec![9] }) {
        LinkAction::Deliver(frame) => assert_eq!(frame, vec![9]),
        other => panic!("{:?}", other),
    }
    assert!(matches!(link.on_event(Event::Closed { peers: 0 }), LinkAction::Nothing));
    assert!(!link.is_connected());
    assert!(matches!(link.on_command(Command::Shutdown), LinkAction::Stop));
    assert!(matches!(link.on_command(Command::Disconnected), LinkAction::Stop));
}

#[test]
fn failures_are_remembered() {
    let mut link = LinkState::new();
    let _ = link.on_event(Event::Failed { error: "refused".to_string() });
    let message = "Connection error: refused".to_string();
    assert_eq!(link.error_message(), Some(message.clone()));
    assert_eq!(link.start_outcome(), Some(Err(message)));
}

#[test]
fn answers_prefer_the_very_host() {
    let other = [9, 9, 9, 9];
    for order in [[OUTSIDE, other], [other, OUTSIDE]] {
        let mut gateway = NatGateway::new();
        for (i, host) in order.iter().enumerate() {
            gateway.process_udp_outbound(&udp(*host, 1000 + i as u16, 53, b"q"), 5).unwrap();
        }
        for (i, host) in order.iter().enumerate() {
            let reply = gateway
                .accept_udp_response(Some(*host), 53, b"a", &GATEWAY_MAC, 6)
                .unwrap();
            assert_eq!(&reply[26..30], host);
            assert_eq!(&reply[36..38], &(1000 + i as u16).to_be_bytes());
        }
        // Any name server may answer for another.
        let reply = gateway.accept_udp_response(Some([8, 8, 4, 4]), 53, b"a", &GATEWAY_MAC, 6);
        assert!(reply.is_some());
    }
}
