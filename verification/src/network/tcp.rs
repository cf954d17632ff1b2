use vstd::prelude::*;

verus! {

/// Port of the handshake server.
pub const TCP_PORT: u16 = 19090;

/// Buffering time announced to a client in the handshake, in milliseconds.
pub const HANDSHAKE_BUFFER_MS: u32 = 80;

/// Address of a connecting peer: four octets, or eight 16-bit segments.
#[derive(Debug, Clone, Copy, PartialEq, Eq, Structural)]
pub enum PeerIp {
    V4(u8, u8, u8, u8),
    V6(u16, u16, u16, u16, u16, u16, u16, u16),
}

/// Private IPv4 address, by its first two octets: the RFC 1918 networks
/// 10/8, 172.16/12 and 192.168/16, and loopback 127/8.
pub open spec fn is_private_v4_spec(a: u8, b: u8) -> bool {
    a == 10 || (a == 172 && 16 <= b <= 31) || (a == 192 && b == 168) || a == 127
}

/// Peers that may connect. IPv4: the private networks above. IPv6: the
/// loopback `::1`, unique local `fc00::/7`, link-local `fe80::/10`, and an
/// IPv4-mapped address `::ffff:a.b.c.d` whose IPv4 address is private.
/// Every other address is refused.
pub open spec fn is_private_spec(ip: PeerIp) -> bool {
    match ip {
        PeerIp::V4(a, b, _, _) => is_private_v4_spec(a, b),
        PeerIp::V6(s0, s1, s2, s3, s4, s5, s6, s7) => {
            ||| (s0 == 0 && s1 == 0 && s2 == 0 && s3 == 0 && s4 == 0 && s5 == 0 && s6 == 0 && s7
                == 1)
            ||| (0xfc00 <= s0 <= 0xfdff)
            ||| (0xfe80 <= s0 <= 0xfebf)
            ||| (s0 == 0 && s1 == 0 && s2 == 0 && s3 == 0 && s4 == 0 && s5 == 0xffff
                && is_private_v4_spec((s6 / 256) as u8, (s6 % 256) as u8))
        },
    }
}

/// Whether an IPv4 address with these first two octets is private.
fn is_private_v4(a: u8, b: u8) -> (r: bool)
    ensures
        r == is_private_v4_spec(a, b),
{
    a == 10 || (a == 172 && 16 <= b && b <= 31) || (a == 192 && b == 168) || a == 127
}

/// Whether a peer may connect.
pub fn is_private_ip(ip: &PeerIp) -> (r: bool)
    ensures
        r == is_private_spec(*ip),
{
    match ip {
        PeerIp::V4(a, b, _, _) => is_private_v4(*a, *b),
        PeerIp::V6(s0, s1, s2, s3, s4, s5, s6, s7) => {
            let leading_zero = *s0 == 0 && *s1 == 0 && *s2 == 0 && *s3 == 0 && *s4 == 0;
            if leading_zero && *s5 == 0 && *s6 == 0 && *s7 == 1 {
                true
            } else if 0xfc00 <= *s0 && *s0 <= 0xfdff {
                true
            } else if 0xfe80 <= *s0 && *s0 <= 0xfebf {
                true
            } else if leading_zero && *s5 == 0xffff {
                is_private_v4((*s6 / 256) as u8, (*s6 % 256) as u8)
            } else {
                false
            }
        },
    }
}

/// Which peers are admitted, by address range: IPv4 10/8, 172.16/12,
/// 192.168/16 and 127/8; IPv6 `::1`, every unique-local address
/// (`fc00::/7`, first segment `0xfc00..=0xfdff`), every link-local address
/// (`fe80::/10`, first segment `0xfe80..=0xfebf`), and `::ffff:a.b.c.d`
/// for a private `a.b.c.d`.
pub proof fn law_private_ranges_admitted(ip: PeerIp)
    ensures
        ip matches PeerIp::V4(a, b, _, _) ==> (is_private_spec(ip) <==> (a == 10 || a == 127 || (
        a == 172 && 16 <= b && b <= 31) || (a == 192 && b == 168))),
        ip matches PeerIp::V6(s0, _, _, _, _, _, _, _) ==> (0xfc00 <= s0 && s0 <= 0xfdff
            ==> is_private_spec(ip)),
        ip matches PeerIp::V6(s0, _, _, _, _, _, _, _) ==> (0xfe80 <= s0 && s0 <= 0xfebf
            ==> is_private_spec(ip)),
        ip == PeerIp::V6(0, 0, 0, 0, 0, 0, 0, 1) ==> is_private_spec(ip),
        ip matches PeerIp::V6(s0, s1, s2, s3, s4, s5, s6, _) ==> (s0 == 0 && s1 == 0 && s2 == 0
            && s3 == 0 && s4 == 0 && s5 == 0xffff && (s6 / 256 == 10 || s6 / 256 == 127 || (s6
            / 256 == 172 && 16 <= s6 % 256 && s6 % 256 <= 31) || (s6 / 256 == 192 && s6 % 256
            == 168)) ==> is_private_spec(ip)),
        ip matches PeerIp::V6(s0, _, _, _, _, _, _, _) ==> (s0 != 0 && !(0xfc00 <= s0 && s0
            <= 0xfdff) && !(0xfe80 <= s0 && s0 <= 0xfebf) ==> !is_private_spec(ip)),
{
}

/// Public addresses are refused: every IPv6 global unicast address
/// (`2000::/3`) and every IPv4 address outside the private networks.
pub proof fn law_public_addresses_refused(ip: PeerIp)
    ensures
        (ip matches PeerIp::V6(s0, _, _, _, _, _, _, _) && 0x2000 <= s0 <= 0x3fff) ==> !is_private_spec(ip),
        (ip matches PeerIp::V4(a, b, _, _) && !is_private_v4_spec(a, b)) ==> !is_private_spec(ip),
{
}

/// Lower-case hexadecimal digit.
pub open spec fn is_lower_hex_digit(c: char) -> bool {
    ('0' <= c && c <= '9') || ('a' <= c && c <= 'f')
}

/// Text of a version-4 UUID in hyphenated lower-case form: 36 characters,
/// hyphens at positions 8, 13, 18 and 23, lower-case hex digits elsewhere,
/// the version digit `4` at position 14 and a variant digit of `8`, `9`,
/// `a` or `b` at position 19.
pub open spec fn is_hyphenated_uuid(s: Seq<char>) -> bool {
    &&& s.len() == 36
    &&& s[14] == '4'
    &&& (s[19] == '8' || s[19] == '9' || s[19] == 'a' || s[19] == 'b')
    &&& forall|i: int|
        0 <= i < 36 ==> if i == 8 || i == 13 || i == 18 || i == 23 {
            s[i] == '-'
        } else {
            is_lower_hex_digit(#[trigger] s[i])
        }
}

/// `uuid::Uuid::new_v4().to_string()`: a random version-4 UUID in its
/// `Display` form, which the uuid crate writes hyphenated and lower-case;
/// `new_v4` sets the version nibble to 4 and the two variant bits to `10`.
/// Which UUID comes out is left unsaid: it is random. The uuid crate panics
/// when the operating system's random source fails; no clause excludes that.
#[verifier::external_body]
fn new_session_token() -> (t: String)
    ensures
        is_hyphenated_uuid(t@),
{
    uuid::Uuid::new_v4().to_string()
}

/// What the handshake grants a client.
pub struct Handshake {
    /// UDP port on which the client streams.
    pub udp_port: u16,
    /// Buffering time announced to the client, in milliseconds.
    pub buffer_size_ms: u32,
    /// Session token.
    pub token: String,
}

/// Decides a handshake: a peer outside the private ranges is refused;
/// otherwise it is granted the next UDP port after `last_udp_port`, the
/// announced buffering time and a fresh session token.
pub fn accept_handshake(peer: &PeerIp, last_udp_port: u16) -> (r: Option<Handshake>)
    requires
        is_private_spec(*peer) ==> last_udp_port < u16::MAX,
    ensures
        r is None <==> !is_private_spec(*peer),
        r matches Some(h) ==> {
            &&& h.udp_port == last_udp_port + 1
            &&& h.buffer_size_ms == HANDSHAKE_BUFFER_MS
            &&& is_hyphenated_uuid(h.token@)
        },
{
    if !is_private_ip(peer) {
        return None;
    }
    let udp_port = last_udp_port + 1;
    let token = new_session_token();
    Some(Handshake { udp_port, buffer_size_ms: HANDSHAKE_BUFFER_MS, token })
}

} // verus!
