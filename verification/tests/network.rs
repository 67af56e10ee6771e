use webos::error::Error;
use webos::net::{
    alloc_ephemeral_port, build_eth_frame, build_ipv4_packet, checksum, finalize_checksum,
    handle_frame, listener_capacity, send_ipv4_packet, tcp_dispatch, tcp_segment, udp_bind,
    udp_segment, write_plan, ConnEntry, Inbound, NetStack, Outbound, SockAddr, TcpConn,
    TcpDispatch, TcpState, UdpSock,
};

#[test]
fn internet_checksum_known_value() {
    // The classic example header from RFC 1071's discussion.
    let h = [
        0x45u8, 0x00, 0x00, 0x73, 0x00, 0x00, 0x40, 0x00, 0x40, 0x11, 0x00, 0x00, 0xc0, 0xa8, 0x00,
        0x01, 0xc0, 0xa8, 0x00, 0xc7,
    ];
    assert_eq!(checksum(&h), 0xb861);
    assert_eq!(checksum(&[]), 0xffff);
    assert_eq!(checksum(&[0x01]), !0x0100u16);
    assert_eq!(finalize_checksum(0x1_fffe), 0x0000);
}

#[test]
fn built_ipv4_header_checks() {
    let p = build_ipv4_packet(17, [10, 0, 2, 15], [10, 0, 2, 2], &[1, 2, 3]);
    assert_eq!(p.len(), 23);
    assert_eq!(&p[..4], &[0x45, 0, 0, 23]);
    assert_eq!(p[8], 64);
    assert_eq!(p[9], 17);
    assert_eq!(checksum(&p[..20]), 0);
    assert_eq!(&p[20..], &[1, 2, 3]);
}

#[test]
fn udp_and_tcp_framing() {
    let u = udp_segment(1000, 53, &[9, 9]);
    assert_eq!(u, vec![0x03, 0xe8, 0, 53, 0, 10, 0, 0, 9, 9]);
    let t = tcp_segment([10, 0, 2, 15], [10, 0, 2, 2], 49152, 80, 1, 0, 0x02, &[]);
    assert_eq!(t.len(), 20);
    assert_eq!(&t[12..14], &[0x50, 0x02]);
    let mut pseudo = vec![10, 0, 2, 15, 10, 0, 2, 2, 0, 6, 0, 20];
    pseudo.extend_from_slice(&t);
    assert_eq!(checksum(&pseudo), 0);
    let f = build_eth_frame([1; 6], [2; 6], 0x0800, &[7]);
    assert_eq!(f, vec![1, 1, 1, 1, 1, 1, 2, 2, 2, 2, 2, 2, 8, 0, 7]);
}

fn arp_request_for(stack_ip: [u8; 4], from_mac: [u8; 6], from_ip: [u8; 4]) -> Vec<u8> {
    let mut p = vec![0, 1, 8, 0, 6, 4, 0, 1];
    p.extend_from_slice(&from_mac);
    p.extend_from_slice(&from_ip);
    p.extend_from_slice(&[0; 6]);
    p.extend_from_slice(&stack_ip);
    build_eth_frame([0xff; 6], from_mac, 0x0806, &p)
}

#[test]
fn arp_requests_are_learned_and_answered() {
    let mut s = NetStack::init([0x52, 0x54, 0, 0x12, 0x34, 0x56]);
    let peer_mac = [2, 0, 0, 0, 0, 9];
    let f = arp_request_for([10, 0, 2, 15], peer_mac, [10, 0, 2, 2]);
    match handle_frame(&mut s, &f) {
        Inbound::Arp { reply: Some(r) } => {
            assert_eq!(&r[..6], &peer_mac);
            assert_eq!(&r[12..14], &[0x08, 0x06]);
            assert_eq!(&r[20..22], &[0, 2]);
            assert_eq!(&r[38..42], &[10, 0, 2, 2]);
        }
        _ => panic!("expected an ARP reply"),
    }
    assert_eq!(s.lookup_arp([10, 0, 2, 2]), Some(peer_mac));
    let other = arp_request_for([10, 0, 2, 99], peer_mac, [10, 0, 2, 3]);
    assert!(matches!(handle_frame(&mut s, &other), Inbound::Arp { reply: None }));
    assert!(matches!(handle_frame(&mut s, &[0u8; 10]), Inbound::Ignore));
}

#[test]
fn udp_datagrams_for_us_are_picked_out() {
    let mut s = NetStack::init([0; 6]);
    let udp = udp_segment(5353, 9000, b"hey");
    let ip = build_ipv4_packet(17, [10, 0, 2, 2], [10, 0, 2, 15], &udp);
    let f = build_eth_frame([0; 6], [1; 6], 0x0800, &ip);
    match handle_frame(&mut s, &f) {
        Inbound::Udp { src_ip, src_port, dst_port, payload } => {
            assert_eq!(src_ip, [10, 0, 2, 2]);
            assert_eq!((src_port, dst_port), (5353, 9000));
            assert_eq!(payload, b"hey".to_vec());
        }
        _ => panic!("expected a datagram"),
    }
    let not_ours = build_ipv4_packet(17, [10, 0, 2, 2], [10, 0, 2, 16], &udp);
    let f2 = build_eth_frame([0; 6], [1; 6], 0x0800, &not_ours);
    assert!(matches!(handle_frame(&mut s, &f2), Inbound::Ignore));
}

#[test]
fn tcp_segments_for_us_are_picked_out() {
    let mut s = NetStack::init([0; 6]);
    let seg = tcp_segment([10, 0, 2, 2], [10, 0, 2, 15], 4000, 80, 7, 9, 0x18, b"ab");
    let ip = build_ipv4_packet(6, [10, 0, 2, 2], [10, 0, 2, 15], &seg);
    let f = build_eth_frame([0; 6], [1; 6], 0x0800, &ip);
    match handle_frame(&mut s, &f) {
        Inbound::Tcp { src_port, dst_port, seq, ack, flags, payload, .. } => {
            assert_eq!((src_port, dst_port, seq, ack, flags), (4000, 80, 7, 9, 0x18));
            assert_eq!(payload, b"ab".to_vec());
        }
        _ => panic!("expected a segment"),
    }
}

#[test]
fn sending_routes_and_resolves() {
    let mut s = NetStack::init([5; 6]);
    assert!(matches!(send_ipv4_packet(&s, 17, [10, 0, 2, 15], [10, 0, 2, 15], &[]), Outbound::Local));
    assert_eq!(s.route_ip([10, 0, 2, 7]), [10, 0, 2, 7]);
    assert_eq!(s.route_ip([8, 8, 8, 8]), [10, 0, 2, 2]);
    match send_ipv4_packet(&s, 17, [10, 0, 2, 15], [8, 8, 8, 8], &[1]) {
        Outbound::ArpMiss { request } => {
            assert_eq!(&request[..6], &[0xff; 6]);
            assert_eq!(&request[38..42], &[10, 0, 2, 2]);
        }
        _ => panic!("expected an address request"),
    }
    s.insert_arp([10, 0, 2, 2], [7; 6]);
    match send_ipv4_packet(&s, 17, [10, 0, 2, 15], [8, 8, 8, 8], &[1]) {
        Outbound::Frame { frame } => {
            assert_eq!(&frame[..6], &[7; 6]);
            assert_eq!(frame.len(), 14 + 21);
        }
        _ => panic!("expected a frame"),
    }
}

#[test]
fn arp_table_replaces_first_entry_when_full() {
    let mut s = NetStack::init([0; 6]);
    for i in 0..16u8 {
        s.insert_arp([10, 0, 3, i], [i; 6]);
    }
    s.insert_arp([10, 0, 3, 5], [99; 6]);
    assert_eq!(s.lookup_arp([10, 0, 3, 5]), Some([99; 6]));
    s.insert_arp([10, 0, 4, 1], [42; 6]);
    assert_eq!(s.lookup_arp([10, 0, 3, 0]), None);
    assert_eq!(s.lookup_arp([10, 0, 4, 1]), Some([42; 6]));
}

#[test]
fn tcp_active_open_then_data() {
    let mut c = TcpConn::new();
    let peer = SockAddr { ip: [10, 0, 2, 2], port: 80 };
    let syn = c.begin_connect([10, 0, 2, 15], 49152, peer).unwrap();
    assert_eq!((syn.seq, syn.ack, syn.flags, syn.src.port), (0, 0, 0x02, 49152));
    assert_eq!(c.state, TcpState::SynSent);
    let r = c.on_segment(peer, 1000, 1, 0x12, 0, 0);
    assert!(c.is_established());
    assert!(r.notify);
    let ack = r.send.unwrap();
    assert_eq!((ack.seq, ack.ack, ack.flags), (1, 1001, 0x10));
    let r = c.on_segment(peer, 1001, 1, 0x18, 5, 3);
    assert_eq!(r.deliver, 3);
    assert_eq!(c.rcv_nxt, 1006);
    assert_eq!(r.send.unwrap().ack, 1006);
    let r = c.on_segment(peer, 999, 1, 0x18, 5, 3);
    assert!(r.send.is_none());
    assert_eq!(c.rcv_nxt, 1006);
    assert!(c.begin_connect([10, 0, 2, 15], 1, peer).is_none());
}

#[test]
fn tcp_passive_open_hands_over_to_listener() {
    let local = SockAddr { ip: [10, 0, 2, 15], port: 80 };
    let remote = SockAddr { ip: [10, 0, 2, 2], port: 4000 };
    let (mut c, synack) = TcpConn::passive_open(local, remote, 80, u32::MAX);
    assert_eq!((synack.seq, synack.ack, synack.flags), (1, 0, 0x12));
    assert_eq!(c.snd_nxt, 2);
    let r = c.on_segment(remote, 0, 3, 0x10, 0, 0);
    assert_eq!(c.state, TcpState::SynReceived);
    assert!(r.to_listener.is_none());
    let r = c.on_segment(remote, 0, 2, 0x10, 0, 0);
    assert!(c.is_established());
    assert_eq!(r.to_listener, Some(80));
    assert!(c.listener.is_none());
}

#[test]
fn writes_split_into_segments() {
    let mut c = TcpConn::new();
    assert_eq!(write_plan(&c, 10).unwrap_err(), Error::NotConnected);
    let peer = SockAddr { ip: [1, 1, 1, 1], port: 1 };
    c.begin_connect([2, 2, 2, 2], 50000, peer);
    c.on_segment(peer, 0, 1, 0x12, 0, 0);
    let (chunks, next) = write_plan(&c, 1100).unwrap();
    assert_eq!(chunks, vec![(1, 512), (513, 512), (1025, 76)]);
    assert_eq!(next, 1101);
    assert_eq!(write_plan(&c, 0).unwrap(), (vec![], 1));
}

#[test]
fn ports_and_dispatch() {
    let mut next = 65535usize;
    assert_eq!(alloc_ephemeral_port(&mut next), 65535);
    assert_eq!(alloc_ephemeral_port(&mut next), 49152);
    assert_eq!(next, 65537);
    let mut ports = Vec::new();
    let mut u = UdpSock::new();
    assert_eq!(udp_bind(&mut ports, &mut u, 0, 0), Err(Error::InvalidArgument));
    assert_eq!(udp_bind(&mut ports, &mut u, 0, 53), Ok(()));
    let mut v = UdpSock::new();
    assert_eq!(udp_bind(&mut ports, &mut v, 1, 53), Err(Error::ResourceBusy));
    assert_eq!(u.local_port(), Some(53));
    assert!(u.write_target().is_err());
    let a = SockAddr { ip: [1, 2, 3, 4], port: 5 };
    u.on_read(a);
    assert_eq!(u.write_target().unwrap().port, 5);
    assert!(u.poll_writable());
    let remote = SockAddr { ip: [10, 0, 2, 2], port: 4000 };
    let conns = vec![ConnEntry { local_port: 80, remote, conn: 7 }];
    assert_eq!(tcp_dispatch(&conns, &vec![80], 80, remote, 0x10), TcpDispatch::ToConn(7));
    let other = SockAddr { ip: [10, 0, 2, 3], port: 4000 };
    assert_eq!(tcp_dispatch(&conns, &vec![80], 80, other, 0x02), TcpDispatch::PassiveOpen);
    assert_eq!(tcp_dispatch(&conns, &vec![80], 80, other, 0x10), TcpDispatch::Drop);
    assert_eq!(tcp_dispatch(&conns, &vec![], 80, other, 0x02), TcpDispatch::Drop);
    assert_eq!(listener_capacity(0), 1);
    assert_eq!(listener_capacity(40), 16);
    assert_eq!(listener_capacity(5), 5);
}
