//! The packet inspector: a stateless dissector over raw IP-layer frames.
//!
//! A frame is inspected as IPv4 -> TCP/UDP/ICMP -> application layer
//! (HTTP / TLS / DNS), and exactly one verdict comes back. Every length
//! check fails open: a truncated or malformed packet is allowed, never
//! blocked. Header offsets assume no IP options beyond the header-length
//! nibble and no IPv6 support; both are deliberate limitations.

use crate::search::{
    bytes_of_chars, contains_bytes, contains_chars, contains_seq, lower_bytes, str_to_bytes,
    str_to_chars, to_lower_bytes,
};
use crate::threat_ips::ThreatIpSet;
use vstd::prelude::*;

verus! {

/// The verdict of one packet inspection. `Allow` is the fail-open
/// default; every other variant names the rule that fired.
#[derive(Clone, Copy, Debug, PartialEq, Eq, Structural)]
pub enum Verdict {
    Allow,
    MaliciousDestination,
    SensitiveDataExposure,
    SuspiciousLargeTransfer,
    DnsTunnelingSuspected,
    MaliciousTlsFingerprint,
}

/// Top nibble of the first byte: the IP version.
pub open spec fn ip_version(p: Seq<u8>) -> int
    recommends
        p.len() >= 1,
{
    p[0] as int / 16
}

/// The IP header length in bytes, from the low nibble of byte 0.
pub open spec fn ihl_of(p: Seq<u8>) -> int
    recommends
        p.len() >= 1,
{
    (p[0] as int % 16) * 4
}

/// Destination address, bytes 16..20 big-endian.
pub open spec fn dst_ip_of(p: Seq<u8>) -> u32
    recommends
        p.len() >= 20,
{
    ((p[16] as int) * 0x1000000 + (p[17] as int) * 0x10000 + (p[18] as int) * 0x100 + (
    p[19] as int)) as u32
}

/// Big-endian 16-bit value at `off`.
pub open spec fn port_at(p: Seq<u8>, off: int) -> int
    recommends
        0 <= off && off + 2 <= p.len(),
{
    (p[off] as int) * 256 + (p[off + 1] as int)
}

/// The fixed set of destination ports treated as command-and-control.
pub open spec fn spec_is_c2_port(port: int) -> bool {
    port == 8080 || port == 8443 || port == 53 || port == 5353 || port == 1935 || port == 9999
        || port == 22 || port == 23
}

/// One of the four sensitive tokens occurs in the sample,
/// case-insensitively.
pub open spec fn spec_http_sensitive(sample: Seq<u8>) -> bool {
    contains_seq(lower_bytes(sample), lower_bytes(bytes_of_chars("password"@))) || contains_seq(
        lower_bytes(sample),
        lower_bytes(bytes_of_chars("api_key"@)),
    ) || contains_seq(lower_bytes(sample), lower_bytes(bytes_of_chars("token"@))) || contains_seq(
        lower_bytes(sample),
        lower_bytes(bytes_of_chars("authorization"@)),
    )
}

/// The HTTP sub-inspector: find the TCP payload through the IP and TCP
/// header-length nibbles, scan a bounded prefix for sensitive tokens,
/// then flag over-large samples; no decision otherwise.
pub open spec fn spec_inspect_http(p: Seq<u8>) -> Option<Verdict>
    recommends
        p.len() >= 1,
{
    let ihl = ihl_of(p);
    if p.len() <= ihl + 20 {
        None
    } else {
        let data_offset = (p[ihl + 12] as int / 16) * 4;
        let payload_offset = ihl + data_offset;
        if p.len() <= payload_offset {
            None
        } else {
            let end = if p.len() > payload_offset + 2048 {
                payload_offset + 2048
            } else {
                p.len() as int
            };
            let sample = p.subrange(payload_offset, end);
            if spec_http_sensitive(sample) {
                Some(Verdict::SensitiveDataExposure)
            } else if sample.len() > 1048576 {
                Some(Verdict::SuspiciousLargeTransfer)
            } else {
                None
            }
        }
    }
}

/// The decimal digit character for `0 <= d <= 9`.
pub open spec fn digit_char(d: int) -> char {
    ((48 + d) as u8) as char
}

/// Decimal representation of one byte, without leading zeros.
pub open spec fn dec_chars(b: u8) -> Seq<char> {
    if b < 10 {
        seq![digit_char(b as int)]
    } else if b < 100 {
        seq![digit_char(b as int / 10), digit_char(b as int % 10)]
    } else {
        seq![
            digit_char(b as int / 100),
            digit_char((b as int / 10) % 10),
            digit_char(b as int % 10),
        ]
    }
}

/// The pseudo-fingerprint of a TLS record prefix: the decimal values of
/// its bytes joined with '-'.
pub open spec fn fp_chars(bytes: Seq<u8>) -> Seq<char>
    decreases bytes.len(),
{
    if bytes.len() == 0 {
        Seq::<char>::empty()
    } else if bytes.len() == 1 {
        dec_chars(bytes[0])
    } else {
        fp_chars(bytes.drop_last()) + seq!['-'] + dec_chars(bytes.last())
    }
}

/// A fingerprint is malicious when it contains one of two known-bad
/// fingerprint fragments.
pub open spec fn spec_malicious_fingerprint(fp: Seq<char>) -> bool {
    contains_seq(fp, "771-52393-52392-49195-49199"@) || contains_seq(
        fp,
        "771-49195-49199-49196-49200"@,
    )
}

/// The TLS sub-inspector: locate the TCP payload, and when it starts
/// with a handshake record (0x16), fingerprint its first 32 bytes and
/// compare against the known-bad list; no decision otherwise.
pub open spec fn spec_inspect_tls(p: Seq<u8>) -> Option<Verdict>
    recommends
        p.len() >= 1,
{
    let ihl = ihl_of(p);
    if p.len() <= ihl + 20 {
        None
    } else {
        let data_offset = (p[ihl + 12] as int / 16) * 4;
        let payload_offset = ihl + data_offset;
        if p.len() <= payload_offset + 5 {
            None
        } else if p[payload_offset] == 0x16 {
            let end = if p.len() > payload_offset + 32 {
                payload_offset + 32
            } else {
                p.len() as int
            };
            if spec_malicious_fingerprint(fp_chars(p.subrange(payload_offset, end))) {
                Some(Verdict::MaliciousTlsFingerprint)
            } else {
                None
            }
        } else {
            None
        }
    }
}

/// Bytes counted as base64-like: alphanumerics and `+ / = - _`.
pub open spec fn is_b64_byte(c: u8) -> bool {
    (65 <= c <= 90) || (97 <= c <= 122) || (48 <= c <= 57) || c == 43 || c == 47 || c == 61
        || c == 45 || c == 95
}

/// How many of the bytes of `s` are base64-like.
pub open spec fn count_b64(s: Seq<u8>) -> nat
    decreases s.len(),
{
    if s.len() == 0 {
        0
    } else {
        count_b64(s.drop_last()) + if is_b64_byte(s.last()) {
            1nat
        } else {
            0nat
        }
    }
}

/// More than 90% of a sample of at most 128 bytes is base64-like.
pub open spec fn spec_looks_like_base64(s: Seq<u8>) -> bool
    recommends
        s.len() >= 1,
{
    let sample = s.take(if s.len() > 128 {
        128
    } else {
        s.len() as int
    });
    (count_b64(sample) * 100) as int / sample.len() as int > 90
}

/// The DNS sub-inspector: the query section starts 8 bytes past the UDP
/// header; a long query or a base64-looking one suggests tunneling.
pub open spec fn spec_inspect_dns(p: Seq<u8>) -> Verdict
    recommends
        p.len() >= 1,
{
    let ihl = ihl_of(p);
    if p.len() <= ihl + 8 {
        Verdict::Allow
    } else {
        let query = p.subrange(ihl + 8, p.len() as int);
        if query.len() > 100 || spec_looks_like_base64(query) {
            Verdict::DnsTunnelingSuspected
        } else {
            Verdict::Allow
        }
    }
}

/// TCP handling: C2 destination ports win outright; then the HTTP and
/// TLS sub-inspectors run when their ports are involved, in that order,
/// and the first decision is returned.
pub open spec fn spec_analyze_tcp(p: Seq<u8>) -> Verdict
    recommends
        p.len() >= 20,
{
    if p.len() < 40 {
        Verdict::Allow
    } else {
        let src_port = port_at(p, 20);
        let dst_port = port_at(p, 22);
        if spec_is_c2_port(dst_port) {
            Verdict::MaliciousDestination
        } else if (src_port == 80 || dst_port == 80) && spec_inspect_http(p).is_some() {
            spec_inspect_http(p)->Some_0
        } else if (src_port == 443 || dst_port == 443) && spec_inspect_tls(p).is_some() {
            spec_inspect_tls(p)->Some_0
        } else {
            Verdict::Allow
        }
    }
}

/// UDP handling: DNS ports go to the DNS sub-inspector; otherwise large
/// datagrams are flagged.
pub open spec fn spec_analyze_udp(p: Seq<u8>) -> Verdict
    recommends
        p.len() >= 20,
{
    if p.len() < 28 {
        Verdict::Allow
    } else {
        let dst_port = port_at(p, 22);
        if dst_port == 53 || dst_port == 5353 {
            spec_inspect_dns(p)
        } else if p.len() > 512 {
            Verdict::SuspiciousLargeTransfer
        } else {
            Verdict::Allow
        }
    }
}

/// IPv4 handling: a destination address in the threat set is malicious
/// before any payload is looked at; otherwise dispatch on the protocol.
pub open spec fn spec_analyze_ipv4(p: Seq<u8>, ips: Set<u32>) -> Verdict
    recommends
        p.len() >= 20,
{
    if ips.contains(dst_ip_of(p)) {
        Verdict::MaliciousDestination
    } else if p[9] == 6 {
        spec_analyze_tcp(p)
    } else if p[9] == 17 {
        spec_analyze_udp(p)
    } else {
        Verdict::Allow
    }
}

/// The whole inspection: packets shorter than the IPv4 header and
/// non-IPv4 packets (IPv6 included) are allowed.
pub open spec fn spec_inspect(p: Seq<u8>, ips: Set<u32>) -> Verdict {
    if p.len() < 20 {
        Verdict::Allow
    } else if ip_version(p) == 4 {
        spec_analyze_ipv4(p, ips)
    } else {
        Verdict::Allow
    }
}

/// Append the decimal digits of `b` to `out`.
fn push_decimal(out: &mut Vec<char>, b: u8)
    ensures
        final(out)@ == old(out)@ + dec_chars(b),
{
    if b >= 100 {
        out.push((48 + b / 100) as char);
        out.push((48 + (b / 10) % 10) as char);
        out.push((48 + b % 10) as char);
    } else if b >= 10 {
        out.push((48 + b / 10) as char);
        out.push((48 + b % 10) as char);
    } else {
        out.push((48 + b) as char);
    }
    assert(final(out)@ =~= old(out)@ + dec_chars(b));
}

/// The stateless per-packet dissector over a threat-IP set.
pub struct PacketInspector {
    threat_ips: ThreatIpSet,
}

impl View for PacketInspector {
    type V = Set<u32>;

    closed spec fn view(&self) -> Set<u32> {
        self.threat_ips@
    }
}

impl PacketInspector {
    /// An inspector with an empty threat set.
    pub fn new() -> (r: PacketInspector)
        ensures
            r@ == Set::<u32>::empty(),
    {
        PacketInspector { threat_ips: ThreatIpSet::new() }
    }

    /// Add one address to the threat set.
    pub fn add_threat_ip(&mut self, ip: u32)
        ensures
            final(self)@ == old(self)@.insert(ip),
    {
        self.threat_ips.add(ip);
    }

    /// Replace the threat set with the given addresses.
    pub fn load_threat_ips(&mut self, ips: &Vec<u32>)
        ensures
            final(self)@ == ips@.to_set(),
    {
        self.threat_ips.load(ips);
    }

    /// Inspect one raw frame and return the verdict.
    pub fn analyze(&self, packet: &[u8]) -> (v: Verdict)
        ensures
            v == spec_inspect(packet@, self@),
    {
        if packet.len() < 20 {
            return Verdict::Allow;
        }
        let version = packet[0] / 16;
        if version == 4 {
            self.analyze_ipv4(packet)
        } else {
            // IPv6 is intentionally not dissected; anything else is noise.
            Verdict::Allow
        }
    }

    fn analyze_ipv4(&self, packet: &[u8]) -> (v: Verdict)
        requires
            packet@.len() >= 20,
        ensures
            v == spec_analyze_ipv4(packet@, self@),
    {
        let protocol = packet[9];
        let dst_ip = (packet[16] as u32) * 0x1000000 + (packet[17] as u32) * 0x10000 + (
        packet[18] as u32) * 0x100 + (packet[19] as u32);
        if self.threat_ips.contains(dst_ip) {
            return Verdict::MaliciousDestination;
        }
        match protocol {
            6 => Self::analyze_tcp(packet),
            17 => Self::analyze_udp(packet),
            // ICMP is observed but never blocked.
            1 => Verdict::Allow,
            _ => Verdict::Allow,
        }
    }

    fn analyze_tcp(packet: &[u8]) -> (v: Verdict)
        requires
            packet@.len() >= 20,
        ensures
            v == spec_analyze_tcp(packet@),
    {
        if packet.len() < 40 {
            return Verdict::Allow;
        }
        let src_port = (packet[20] as u32) * 256 + (packet[21] as u32);
        let dst_port = (packet[22] as u32) * 256 + (packet[23] as u32);
        if Self::is_known_c2_port(dst_port) {
            return Verdict::MaliciousDestination;
        }
        if src_port == 80 || dst_port == 80 {
            match Self::inspect_http(packet) {
                Some(analysis) => {
                    return analysis;
                },
                None => {},
            }
        }
        if src_port == 443 || dst_port == 443 {
            match Self::inspect_tls(packet) {
                Some(analysis) => {
                    return analysis;
                },
                None => {},
            }
        }
        Verdict::Allow
    }

    fn analyze_udp(packet: &[u8]) -> (v: Verdict)
        requires
            packet@.len() >= 20,
        ensures
            v == spec_analyze_udp(packet@),
    {
        if packet.len() < 28 {
            return Verdict::Allow;
        }
        let dst_port = (packet[22] as u32) * 256 + (packet[23] as u32);
        if dst_port == 53 || dst_port == 5353 {
            return Self::inspect_dns(packet);
        }
        if packet.len() > 512 {
            return Verdict::SuspiciousLargeTransfer;
        }
        Verdict::Allow
    }

    fn inspect_http(packet: &[u8]) -> (v: Option<Verdict>)
        requires
            packet@.len() >= 1,
        ensures
            v == spec_inspect_http(packet@),
    {
        let ihl = (packet[0] % 16) as usize * 4;
        if packet.len() <= ihl + 20 {
            return None;
        }
        let data_offset = (packet[ihl + 12] / 16) as usize * 4;
        let payload_offset = ihl + data_offset;
        if packet.len() <= payload_offset {
            return None;
        }
        let end = if packet.len() > payload_offset + 2048 {
            payload_offset + 2048
        } else {
            packet.len()
        };
        let sample = vstd::slice::slice_subrange(packet, payload_offset, end);
        let lower_sample = to_lower_bytes(sample);
        if Self::contains_token_lower(&lower_sample, "password") || Self::contains_token_lower(
            &lower_sample,
            "api_key",
        ) || Self::contains_token_lower(&lower_sample, "token") || Self::contains_token_lower(
            &lower_sample,
            "authorization",
        ) {
            return Some(Verdict::SensitiveDataExposure);
        }
        if sample.len() > 1048576 {
            return Some(Verdict::SuspiciousLargeTransfer);
        }
        None
    }

    /// Search the already lower-cased sample for the lower-cased token.
    fn contains_token_lower(lower_sample: &Vec<u8>, token: &str) -> (r: bool)
        ensures
            r == contains_seq(lower_sample@, lower_bytes(bytes_of_chars(token@))),
    {
        let token_bytes = str_to_bytes(token);
        let lower_token = to_lower_bytes(token_bytes.as_slice());
        contains_bytes(lower_sample.as_slice(), lower_token.as_slice())
    }

    fn inspect_tls(packet: &[u8]) -> (v: Option<Verdict>)
        requires
            packet@.len() >= 1,
        ensures
            v == spec_inspect_tls(packet@),
    {
        let ihl = (packet[0] % 16) as usize * 4;
        if packet.len() <= ihl + 20 {
            return None;
        }
        let data_offset = (packet[ihl + 12] / 16) as usize * 4;
        let payload_offset = ihl + data_offset;
        if packet.len() <= payload_offset + 5 {
            return None;
        }
        if packet[payload_offset] == 0x16 {
            let end = if packet.len() > payload_offset + 32 {
                payload_offset + 32
            } else {
                packet.len()
            };
            let prefix = vstd::slice::slice_subrange(packet, payload_offset, end);
            let fingerprint = Self::calculate_tls_fingerprint(prefix);
            proof {
                assert(prefix@.len() <= 32);
                assert(prefix@.take(prefix@.len() as int) =~= prefix@);
            }
            if Self::is_malicious_fingerprint(&fingerprint) {
                return Some(Verdict::MaliciousTlsFingerprint);
            }
            return None;
        }
        None
    }

    /// The decimal-joined pseudo-fingerprint of the first 32 bytes.
    fn calculate_tls_fingerprint(payload: &[u8]) -> (r: Vec<char>)
        ensures
            r@ == fp_chars(
                payload@.take(
                    if payload@.len() > 32 {
                        32
                    } else {
                        payload@.len() as int
                    },
                ),
            ),
    {
        let n = if payload.len() > 32 {
            32
        } else {
            payload.len()
        };
        let mut out: Vec<char> = Vec::new();
        assert(payload@.take(0) =~= Seq::<u8>::empty());
        for i in 0..n
            invariant
                n <= payload@.len(),
                n == if payload@.len() > 32 {
                    32int
                } else {
                    payload@.len() as int
                },
                out@ == fp_chars(payload@.take(i as int)),
        {
            proof {
                assert(payload@.take(i + 1).drop_last() =~= payload@.take(i as int));
                assert(payload@.take(i + 1).last() == payload@[i as int]);
            }
            if i > 0 {
                out.push('-');
            }
            push_decimal(&mut out, payload[i]);
            proof {
                if i == 0 {
                    assert(out@ =~= fp_chars(payload@.take(1)));
                } else {
                    assert(out@ =~= fp_chars(payload@.take(i as int)) + seq!['-'] + dec_chars(
                        payload@[i as int],
                    ));
                }
            }
        }
        out
    }

    /// Compare a fingerprint against the known-bad fragments.
    fn is_malicious_fingerprint(fp: &Vec<char>) -> (r: bool)
        ensures
            r == spec_malicious_fingerprint(fp@),
    {
        let bad1 = str_to_chars("771-52393-52392-49195-49199");
        let bad2 = str_to_chars("771-49195-49199-49196-49200");
        contains_chars(fp.as_slice(), bad1.as_slice()) || contains_chars(
            fp.as_slice(),
            bad2.as_slice(),
        )
    }

    fn inspect_dns(packet: &[u8]) -> (v: Verdict)
        requires
            packet@.len() >= 1,
        ensures
            v == spec_inspect_dns(packet@),
    {
        let ihl = (packet[0] % 16) as usize * 4;
        if packet.len() <= ihl + 8 {
            return Verdict::Allow;
        }
        let query = vstd::slice::slice_subrange(packet, ihl + 8, packet.len());
        if query.len() > 100 || Self::looks_like_base64(query) {
            return Verdict::DnsTunnelingSuspected;
        }
        Verdict::Allow
    }

    /// More than 90% of a sample of at most 128 bytes drawn from the
    /// start of `slice` is base64-like.
    pub fn looks_like_base64(slice: &[u8]) -> (r: bool)
        requires
            slice@.len() >= 1,
        ensures
            r == spec_looks_like_base64(slice@),
    {
        let sample_len = if slice.len() > 128 {
            128
        } else {
            slice.len()
        };
        let mut alpha: usize = 0;
        assert(slice@.take(0) =~= Seq::<u8>::empty());
        for i in 0..sample_len
            invariant
                1 <= sample_len <= slice@.len(),
                sample_len == if slice@.len() > 128 {
                    128int
                } else {
                    slice@.len() as int
                },
                alpha == count_b64(slice@.take(i as int)),
                alpha <= i,
        {
            proof {
                assert(slice@.take(i + 1).drop_last() =~= slice@.take(i as int));
                assert(slice@.take(i + 1).last() == slice@[i as int]);
            }
            let c = slice[i];
            if (65 <= c && c <= 90) || (97 <= c && c <= 122) || (48 <= c && c <= 57) || c == 43
                || c == 47 || c == 61 || c == 45 || c == 95 {
                alpha = alpha + 1;
            }
        }
        alpha * 100 / sample_len > 90
    }

    /// Fixed command-and-control destination ports.
    fn is_known_c2_port(port: u32) -> (r: bool)
        ensures
            r == spec_is_c2_port(port as int),
    {
        port == 8080 || port == 8443 || port == 53 || port == 5353 || port == 1935 || port == 9999
            || port == 22 || port == 23
    }
}

/// Inspect one raw IP-layer frame against a threat set: the engine's
/// packet-side entry point. A non-`Allow` verdict means block.
pub fn inspect_packet(packet: &[u8], threat_ips: &ThreatIpSet) -> (v: Verdict)
    ensures
        v == spec_inspect(packet@, threat_ips@),
{
    if packet.len() < 20 {
        return Verdict::Allow;
    }
    let version = packet[0] / 16;
    if version == 4 {
        let protocol = packet[9];
        let dst_ip = (packet[16] as u32) * 0x1000000 + (packet[17] as u32) * 0x10000 + (
        packet[18] as u32) * 0x100 + (packet[19] as u32);
        if threat_ips.contains(dst_ip) {
            return Verdict::MaliciousDestination;
        }
        match protocol {
            6 => PacketInspector::analyze_tcp(packet),
            17 => PacketInspector::analyze_udp(packet),
            1 => Verdict::Allow,
            _ => Verdict::Allow,
        }
    } else {
        Verdict::Allow
    }
}

/// Every packet shorter than the 20-byte IPv4 header is allowed.
pub proof fn lemma_short_packet_allowed(p: Seq<u8>, ips: Set<u32>)
    requires
        p.len() < 20,
    ensures
        spec_inspect(p, ips) == Verdict::Allow,
{
}

/// For every IPv4 packet whose destination address is in the threat
/// set, the verdict is `MaliciousDestination`, whatever the protocol
/// and payload hold.
pub proof fn lemma_threat_destination_blocked(p: Seq<u8>, ips: Set<u32>)
    requires
        p.len() >= 20,
        ip_version(p) == 4,
        ips.contains(dst_ip_of(p)),
    ensures
        spec_inspect(p, ips) == Verdict::MaliciousDestination,
{
}

} // verus!
