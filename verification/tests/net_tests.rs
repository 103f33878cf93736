use kernel::drivers::net::arp::{self, ArpCache};
use kernel::drivers::net::ethernet::{self, FrameEvent, ETHERTYPE_ARP, ETHERTYPE_IPV4};
use kernel::drivers::net::icmp::{self, IcmpEvent};
use kernel::drivers::net::ipv4::{self, checksum, Ipv4Event, Ipv4Header, PROTOCOL_UDP};
use kernel::drivers::net::socket::{self, SocketAddrV4, SocketDomain, SocketState, SocketType};
use kernel::drivers::net::tcp::{self, TcpEvent, TcpTable, SYN};
use kernel::drivers::net::udp::{self, UdpEvent};
use kernel::drivers::net::{
    configure_interface, get_interface, list_interfaces, parse_ipv4, register_interface, send_packet,
    Interfaces, Ipv4Address, MacAddress, NetworkInterface,
};

const MAC_A: [u8; 6] = [0x52, 0x54, 0x00, 0x12, 0x34, 0x56];
const MAC_B: [u8; 6] = [0x52, 0x54, 0x00, 0xab, 0xcd, 0xef];

#[test]
fn internet_checksum_of_a_known_header() {
    let hdr = [
        0x45, 0x00, 0x00, 0x73, 0x00, 0x00, 0x40, 0x00, 0x40, 0x11, 0x00, 0x00, 0xc0, 0xa8, 0x00, 0x01,
        0xc0, 0xa8, 0x00, 0xc7,
    ];
    assert_eq!(checksum(&hdr), 0xb861);
    let mut with = hdr;
    with[10] = 0xb8;
    with[11] = 0x61;
    // a header holding its checksum sums to zero
    assert_eq!(checksum(&with), 0);
    // odd length: the last byte is padded
    assert_eq!(checksum(&[0x01]), !0x0100u16);
}

#[test]
fn created_packets_parse_and_verify() {
    let src = Ipv4Address::new(10, 0, 2, 15);
    let dst = Ipv4Address::new(10, 0, 2, 2);
    let p = ipv4::create_packet(src, dst, PROTOCOL_UDP, 64, b"payload");
    assert_eq!(p.len(), 27);
    let h = Ipv4Header::parse(&p).unwrap();
    assert_eq!(h.version(), 4);
    assert_eq!(h.header_length(), 20);
    assert_eq!(h.total_length(), 27);
    assert_eq!(h.source().0, [10, 0, 2, 15]);
    assert_eq!(h.destination().0, [10, 0, 2, 2]);
    assert!(h.verify_checksum());
    let mut bad = p.clone();
    bad[8] = 1;
    assert!(!Ipv4Header::parse(&bad).unwrap().verify_checksum());
    assert!(Ipv4Header::parse(&p[..19]).is_none());
}

#[test]
fn addresses() {
    let a = Ipv4Address::new(192, 168, 1, 20);
    assert_eq!(a.to_u32(), 0xc0a8_0114);
    assert_eq!(Ipv4Address::from_u32(0xc0a8_0114).0, [192, 168, 1, 20]);
    assert_eq!(a.to_text(), "192.168.1.20");
    assert!(a.is_private());
    assert!(Ipv4Address::localhost().is_loopback());
    assert!(Ipv4Address::broadcast().is_broadcast());
    assert!(Ipv4Address::unspecified().is_unspecified());
    assert_eq!(parse_ipv4("10.0.2.15").unwrap().0, [10, 0, 2, 15]);
    assert!(parse_ipv4("10.0.2").is_none());
    assert!(parse_ipv4("10.0.2.256").is_none());
    assert!(parse_ipv4("a.b.c.d").is_none());
    let m = MacAddress::new(MAC_A);
    assert_eq!(m.to_text(), "52:54:00:12:34:56");
    assert!(MacAddress::broadcast().is_broadcast());
    assert!(!m.is_multicast());
}

#[test]
fn arp_request_updates_the_cache() {
    let mut cache = ArpCache::new();
    let ip_b = Ipv4Address::new(10, 0, 0, 2);
    assert!(arp::lookup(&cache, ip_b).is_none());
    let req = arp::create_request(MacAddress::new(MAC_B), ip_b, Ipv4Address::new(10, 0, 0, 1));
    assert_eq!(req.len(), 28);
    let h = arp::parse_header(&req);
    assert_eq!(h.oper, [0, 1]);
    assert_eq!(h.spa, [10, 0, 0, 2]);
    arp::process_packet(&mut cache, &req, 5);
    assert_eq!(arp::lookup(&cache, ip_b).unwrap().0, MAC_B);
    assert_eq!(arp::list_cache(&cache).len(), 1);
    arp::remove_entry(&mut cache, ip_b);
    assert!(arp::lookup(&cache, ip_b).is_none());
    arp::add_entry(&mut cache, ip_b, MacAddress::new(MAC_A), 9);
    assert_eq!(arp::lookup(&cache, ip_b).unwrap().0, MAC_A);
    let reply = arp::create_reply(MacAddress::new(MAC_A), ip_b, MacAddress::new(MAC_B), Ipv4Address::new(10, 0, 0, 1));
    assert_eq!(arp::parse_header(&reply).oper, [0, 2]);
}

#[test]
fn frames_are_dispatched() {
    let mut cache = ArpCache::new();
    let mut tcpt = TcpTable::new();
    let req = arp::create_request(MacAddress::new(MAC_B), Ipv4Address::new(10, 0, 0, 2), Ipv4Address::new(10, 0, 0, 1));
    let f = ethernet::create_frame(MacAddress::broadcast(), MacAddress::new(MAC_B), ETHERTYPE_ARP, &req);
    assert_eq!(f.len(), 14 + 28);
    let (eh, payload) = ethernet::parse_frame(&f).unwrap();
    assert_eq!(eh.ether_type(), ETHERTYPE_ARP);
    assert_eq!(eh.source().0, MAC_B);
    assert_eq!(payload.len(), 28);
    assert!(matches!(ethernet::process_frame(&mut cache, &mut tcpt, &f, 1), FrameEvent::Arp));
    assert!(arp::lookup(&cache, Ipv4Address::new(10, 0, 0, 2)).is_some());
    // an ICMP echo request inside IPv4 inside Ethernet
    let src = Ipv4Address::new(10, 0, 0, 2);
    let dst = Ipv4Address::new(10, 0, 0, 1);
    let echo = icmp::create_echo_request(7, 1, b"ping");
    let ip = ipv4::create_packet(src, dst, 1, 64, &echo);
    let f = ethernet::create_frame(MacAddress::new(MAC_A), MacAddress::new(MAC_B), ETHERTYPE_IPV4, &ip);
    match ethernet::process_frame(&mut cache, &mut tcpt, &f, 2) {
        FrameEvent::Ipv4(Ipv4Event::Icmp(IcmpEvent::EchoRequest(a))) => assert_eq!(a.0, [10, 0, 0, 2]),
        _ => panic!("expected an echo request"),
    }
    assert!(ethernet::parse_frame(&f[..13]).is_none());
    assert!(matches!(ethernet::process_frame(&mut cache, &mut tcpt, &f[..13], 3), FrameEvent::Ignored));
}

#[test]
fn icmp_messages() {
    let a = Ipv4Address::new(1, 2, 3, 4);
    let b = Ipv4Address::new(5, 6, 7, 8);
    let reply = icmp::create_echo_reply(1, 0x0102, b"x");
    assert_eq!(checksum(&reply), 0);
    match icmp::process_packet(a, b, &reply) {
        IcmpEvent::EchoReply(from, seq) => {
            assert_eq!(from.0, [1, 2, 3, 4]);
            assert_eq!(seq, 0x0102);
        }
        _ => panic!("expected an echo reply"),
    }
    assert!(matches!(icmp::process_packet(a, b, &[3, 0, 0, 0, 0, 0, 0, 0]), IcmpEvent::DestUnreachable(_)));
    assert!(matches!(icmp::process_packet(a, b, &[3, 0]), IcmpEvent::Ignored));
}

#[test]
fn udp_and_tcp_segments() {
    let a = Ipv4Address::new(10, 0, 0, 2);
    let b = Ipv4Address::new(10, 0, 0, 1);
    let d = udp::create_packet(a, b, 5353, 53, b"query");
    assert_eq!(d.len(), 8 + 5);
    match udp::process_packet(a, b, &d) {
        UdpEvent::Datagram(from, sp, dp) => {
            assert_eq!(from.0, [10, 0, 0, 2]);
            assert_eq!((sp, dp), (5353, 53));
        }
        _ => panic!("expected a datagram"),
    }
    assert!(matches!(udp::process_packet(a, b, &d[..7]), UdpEvent::Ignored));
    let mut t = TcpTable::new();
    let syn = tcp::create_packet(a, b, 40000, 80, 1000, 0, SYN, 65535, b"");
    assert_eq!(syn.len(), 20);
    let h = tcp::TcpHeader::parse(&syn);
    assert_eq!(h.source_port(), 40000);
    assert_eq!(h.destination_port(), 80);
    assert_eq!(h.sequence_number(), 1000);
    assert_eq!(h.flags(), SYN);
    assert_eq!(h.data_offset(), 20);
    match tcp::process_packet(&mut t, a, b, &syn) {
        TcpEvent::Syn(from, sp, dp) => {
            assert_eq!(from.0, [10, 0, 0, 2]);
            assert_eq!((sp, dp), (40000, 80));
        }
        _ => panic!("expected a connection request"),
    }
    let p1 = tcp::alloc_port(&mut t);
    let p2 = tcp::alloc_port(&mut t);
    assert_eq!(p2, p1 + 1);
}

#[test]
fn socket_calls() {
    let mut st = socket::init();
    let fd = socket::socket(&mut st, SocketDomain::Inet, SocketType::Stream).unwrap();
    assert_eq!(fd, 3);
    assert_eq!(socket::get_socket(&st, fd), Some((SocketDomain::Inet, SocketType::Stream, SocketState::Closed)));
    assert_eq!(socket::listen(&mut st, fd, 4), Err("Socket not bound"));
    assert_eq!(socket::bind(&mut st, fd, SocketAddrV4::any(8080)), Ok(()));
    assert_eq!(socket::bind(&mut st, fd, SocketAddrV4::any(8081)), Err("Socket already bound"));
    let other = socket::socket(&mut st, SocketDomain::Inet, SocketType::Stream).unwrap();
    assert_eq!(socket::bind(&mut st, other, SocketAddrV4::any(8080)), Err("Address already in use"));
    assert_eq!(socket::listen(&mut st, fd, 4), Ok(()));
    assert_eq!(socket::get_socket(&st, fd).unwrap().2, SocketState::Listening);
    assert_eq!(socket::accept(&st, fd).err(), Some("No pending connections"));
    assert_eq!(socket::send(&mut st, other, b"x"), Err("Socket not connected"));
    assert_eq!(socket::list_sockets(&st), vec![3, 4]);
    assert_eq!(socket::close(&mut st, fd), Ok(()));
    assert_eq!(socket::get_socket(&st, fd), None);
}

#[test]
fn interfaces() {
    let mut ifs = Interfaces::new();
    register_interface(&mut ifs, NetworkInterface::new("eth0", MacAddress::new(MAC_A)));
    register_interface(&mut ifs, NetworkInterface::new("eth1", MacAddress::new(MAC_B)));
    assert_eq!(list_interfaces(&ifs), vec![String::from("eth0"), String::from("eth1")]);
    assert_eq!(send_packet(&mut ifs, "eth0", b"abc"), Err("Interface is down"));
    assert_eq!(send_packet(&mut ifs, "wlan0", b"abc"), Err("Interface not found"));
    assert!(configure_interface(&mut ifs, "eth0", Ipv4Address::new(10, 0, 2, 15), Ipv4Address::new(255, 255, 255, 0), None).is_ok());
    let e = get_interface(&ifs, "eth0").unwrap();
    assert_eq!(e.ipv4.unwrap().0, [10, 0, 2, 15]);
    assert_eq!(e.mtu, 1500);
}

#[test]
fn ipv4_hands_payload_on_by_protocol() {
    let a = Ipv4Address::new(10, 0, 0, 2);
    let b = Ipv4Address::new(10, 0, 0, 1);
    let d = udp::create_packet(a, b, 5353, 53, b"query");
    let mut pkt = vec![0x45u8, 0, 0, 0, 0, 0, 0, 0, 64, PROTOCOL_UDP, 0, 0, 10, 0, 0, 2, 10, 0, 0, 1];
    pkt.extend_from_slice(&d);
    let mut t = TcpTable::new();
    match ipv4::process_packet(&mut t, &pkt) {
        Ipv4Event::Udp(UdpEvent::Datagram(from, sp, dp)) => {
            assert_eq!(from.0, [10, 0, 0, 2]);
            assert_eq!((sp, dp), (5353, 53));
        }
        _ => panic!("expected a datagram"),
    }
    pkt[9] = 99;
    assert!(matches!(ipv4::process_packet(&mut t, &pkt), Ipv4Event::Ignored));
    let ack_only = tcp::create_packet(a, b, 40000, 80, 1, 1, 0x10, 100, b"");
    assert!(matches!(tcp::process_packet(&mut t, a, b, &ack_only), TcpEvent::Ignored));
}

#[test]
fn checksum_over_more_than_64_kib() {
    let data = vec![0xFFu8; 0x1_0002];
    assert_eq!(checksum(&data), 0);
    let mut d = vec![0u8; 0x1_8000];
    d[0x1_7FFE] = 0x12;
    d[0x1_7FFF] = 0x34;
    assert_eq!(checksum(&d), !0x1234u16);
}

#[test]
fn address_text_parses_back() {
    for (a, b, c, d) in [(0u8, 0u8, 0u8, 0u8), (192, 168, 1, 1), (255, 255, 255, 255), (10, 0, 2, 15), (1, 23, 45, 200)] {
        let ip = Ipv4Address::new(a, b, c, d);
        assert_eq!(parse_ipv4(&ip.to_text()).map(|p| p.0), Some(ip.0));
    }
    assert!(parse_ipv4("1.2.3").is_none());
    assert!(parse_ipv4("256.0.0.1").is_none());
    assert!(parse_ipv4("1..2.3").is_none());
}

#[test]
fn long_datagrams_wrap_their_length_field() {
    let src = Ipv4Address::new(10, 0, 0, 1);
    let dst = Ipv4Address::new(10, 0, 0, 2);
    let payload = vec![0u8; 70_000];
    let p = udp::create_packet(src, dst, 1000, 2000, &payload);
    assert_eq!(p.len(), 70_008);
    let field = (70_008u32 % 0x10000) as u16;
    assert_eq!([p[4], p[5]], field.to_be_bytes());
    let e = icmp::create_echo_request(1, 2, &payload);
    assert_eq!(e.len(), 70_008);
    assert_eq!(checksum(&e), 0);
    let t = tcp::create_packet(src, dst, 1, 2, 3, 4, SYN, 100, &payload);
    assert_eq!(t.len(), 70_020);
}
