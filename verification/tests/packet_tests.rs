use threat_engine::packet::{inspect_packet, PacketInspector, Verdict};
use threat_engine::threat_ips::ThreatIpSet;

/// A minimal IPv4 header: version 4, IHL 5, given protocol and
/// destination address, padded to `total_len` bytes.
fn ipv4_packet(protocol: u8, dst: [u8; 4], total_len: usize) -> Vec<u8> {
    let mut p = vec![0u8; total_len.max(20)];
    p[0] = 0x45;
    p[9] = protocol;
    p[16] = dst[0];
    p[17] = dst[1];
    p[18] = dst[2];
    p[19] = dst[3];
    p
}

fn set_tcp_ports(p: &mut [u8], src: u16, dst: u16) {
    p[20] = (src >> 8) as u8;
    p[21] = (src & 0xFF) as u8;
    p[22] = (dst >> 8) as u8;
    p[23] = (dst & 0xFF) as u8;
    // TCP data offset: 5 words = 20 bytes, so payload starts at 40.
    p[32] = 0x50;
}

fn set_udp_ports(p: &mut [u8], src: u16, dst: u16) {
    p[20] = (src >> 8) as u8;
    p[21] = (src & 0xFF) as u8;
    p[22] = (dst >> 8) as u8;
    p[23] = (dst & 0xFF) as u8;
}

#[test]
fn test_base64_detector() {
    let s = b"c29tZWJhc2U2NHN0cmluZw==";
    assert!(PacketInspector::looks_like_base64(s));
}

#[test]
fn short_packets_are_allowed() {
    let inspector = PacketInspector::new();
    for len in 0..20 {
        let p = vec![0x45u8; len];
        assert_eq!(inspector.analyze(&p), Verdict::Allow);
    }
}

#[test]
fn threat_destination_is_blocked_regardless_of_protocol() {
    let mut inspector = PacketInspector::new();
    // 10.1.2.3 as a 32-bit value.
    inspector.add_threat_ip(0x0A010203);
    for protocol in [1u8, 6, 17, 99] {
        let p = ipv4_packet(protocol, [10, 1, 2, 3], 60);
        assert_eq!(inspector.analyze(&p), Verdict::MaliciousDestination);
    }
}

#[test]
fn c2_port_fires_before_http_inspection() {
    let inspector = PacketInspector::new();
    let mut p = ipv4_packet(6, [93, 184, 216, 34], 60);
    set_tcp_ports(&mut p, 49152, 8080);
    assert_eq!(inspector.analyze(&p), Verdict::MaliciousDestination);
}

#[test]
fn http_payload_with_password_is_sensitive() {
    let inspector = PacketInspector::new();
    let mut p = ipv4_packet(6, [93, 184, 216, 34], 40);
    set_tcp_ports(&mut p, 49152, 80);
    p.extend_from_slice(b"POST / HTTP/1.1\r\n\r\nPaSsWoRd=hunter2");
    assert_eq!(inspector.analyze(&p), Verdict::SensitiveDataExposure);
}

#[test]
fn plain_http_payload_is_allowed() {
    let inspector = PacketInspector::new();
    let mut p = ipv4_packet(6, [93, 184, 216, 34], 40);
    set_tcp_ports(&mut p, 49152, 80);
    p.extend_from_slice(b"GET /index.html HTTP/1.1\r\n\r\n");
    assert_eq!(inspector.analyze(&p), Verdict::Allow);
}

#[test]
fn tls_handshake_without_bad_fingerprint_is_allowed() {
    let inspector = PacketInspector::new();
    let mut p = ipv4_packet(6, [93, 184, 216, 34], 40);
    set_tcp_ports(&mut p, 49152, 443);
    p.extend_from_slice(&[0x16, 0x03, 0x01, 0x00, 0x2F, 0x01, 0x00, 0x00, 0x2B]);
    assert_eq!(inspector.analyze(&p), Verdict::Allow);
}

#[test]
fn long_dns_query_suggests_tunneling() {
    let inspector = PacketInspector::new();
    // 20-byte IP header, 8-byte UDP header, 150-byte query.
    let mut p = ipv4_packet(17, [8, 8, 8, 8], 178);
    set_udp_ports(&mut p, 49152, 53);
    assert_eq!(inspector.analyze(&p), Verdict::DnsTunnelingSuspected);
}

#[test]
fn base64_dns_query_suggests_tunneling() {
    let inspector = PacketInspector::new();
    let mut p = ipv4_packet(17, [8, 8, 8, 8], 28);
    set_udp_ports(&mut p, 49152, 53);
    p.extend_from_slice(b"c29tZWJhc2U2NHN0cmluZw==");
    assert_eq!(inspector.analyze(&p), Verdict::DnsTunnelingSuspected);
}

#[test]
fn short_plain_dns_query_is_allowed() {
    let inspector = PacketInspector::new();
    let mut p = ipv4_packet(17, [8, 8, 8, 8], 28);
    set_udp_ports(&mut p, 49152, 53);
    // Header-like bytes, clearly not base64-like text.
    p.extend_from_slice(&[0x00, 0x01, 0x01, 0x00, 0x00, 0x01, 0x00, 0x00]);
    assert_eq!(inspector.analyze(&p), Verdict::Allow);
}

#[test]
fn large_udp_packet_is_suspicious() {
    let inspector = PacketInspector::new();
    let mut p = ipv4_packet(17, [8, 8, 8, 8], 600);
    set_udp_ports(&mut p, 49152, 4000);
    assert_eq!(inspector.analyze(&p), Verdict::SuspiciousLargeTransfer);
}

#[test]
fn icmp_is_allowed() {
    let inspector = PacketInspector::new();
    let p = ipv4_packet(1, [8, 8, 8, 8], 64);
    assert_eq!(inspector.analyze(&p), Verdict::Allow);
}

#[test]
fn ipv6_is_allowed() {
    let inspector = PacketInspector::new();
    let mut p = vec![0u8; 60];
    p[0] = 0x60;
    assert_eq!(inspector.analyze(&p), Verdict::Allow);
}

#[test]
fn free_function_matches_inspector() {
    let mut ips = ThreatIpSet::new();
    ips.add(0x0A010203);
    let p = ipv4_packet(6, [10, 1, 2, 3], 60);
    assert_eq!(inspect_packet(&p, &ips), Verdict::MaliciousDestination);
    let empty = ThreatIpSet::new();
    let mut q = ipv4_packet(6, [10, 1, 2, 3], 60);
    set_tcp_ports(&mut q, 49152, 4000);
    assert_eq!(inspect_packet(&q, &empty), Verdict::Allow);
}

#[test]
fn threat_set_load_replaces_contents() {
    let mut ips = ThreatIpSet::new();
    ips.add(1);
    ips.load(&vec![2, 3]);
    assert!(!ips.contains(1));
    assert!(ips.contains(2));
    assert!(ips.contains(3));
}
