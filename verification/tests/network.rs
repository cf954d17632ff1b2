use audiocast::audio::jitter::JitterBuffer;
use audiocast::network::mdns::{decimal_text, service_announcement, service_display_name, service_host_name};
use audiocast::network::tcp::{accept_handshake, is_private_ip, PeerIp};
use audiocast::network::udp::{receive_datagram, DatagramOutcome};

#[test]
fn private_ranges_are_accepted() {
    assert!(is_private_ip(&PeerIp::V4(10, 1, 2, 3)));
    assert!(is_private_ip(&PeerIp::V4(172, 16, 0, 1)));
    assert!(is_private_ip(&PeerIp::V4(172, 31, 255, 255)));
    assert!(is_private_ip(&PeerIp::V4(192, 168, 1, 20)));
    assert!(is_private_ip(&PeerIp::V4(127, 0, 0, 1)));
    assert!(is_private_ip(&PeerIp::V6(0, 0, 0, 0, 0, 0, 0, 1)));
    assert!(is_private_ip(&PeerIp::V6(0xfd00, 0, 0, 0, 0, 0, 0, 1)));
    assert!(is_private_ip(&PeerIp::V6(0xfc12, 0x3456, 0, 0, 0, 0, 0, 9)));
    assert!(is_private_ip(&PeerIp::V6(0xfe80, 0, 0, 0, 0x1, 0x2, 0x3, 0x4)));
    assert!(is_private_ip(&PeerIp::V6(0, 0, 0, 0, 0, 0xffff, 0xc0a8, 0x0101)));
}

#[test]
fn public_addresses_are_refused() {
    assert!(!is_private_ip(&PeerIp::V4(8, 8, 8, 8)));
    assert!(!is_private_ip(&PeerIp::V4(172, 15, 0, 1)));
    assert!(!is_private_ip(&PeerIp::V4(172, 32, 0, 1)));
    assert!(!is_private_ip(&PeerIp::V4(192, 169, 0, 1)));
    assert!(!is_private_ip(&PeerIp::V4(11, 0, 0, 1)));
    assert!(!is_private_ip(&PeerIp::V6(0x2001, 0x4860, 0x4860, 0, 0, 0, 0, 0x8888)));
    assert!(!is_private_ip(&PeerIp::V6(0, 0, 0, 0, 0, 0, 0, 0)));
    assert!(!is_private_ip(&PeerIp::V6(0xfec0, 0, 0, 0, 0, 0, 0, 1)));
    assert!(!is_private_ip(&PeerIp::V6(0, 0, 0, 0, 0, 0xffff, 0x0808, 0x0808)));
}

#[test]
fn handshake_refuses_public_peer() {
    assert!(accept_handshake(&PeerIp::V4(1, 2, 3, 4), 19099).is_none());
}

#[test]
fn handshake_grants_next_port_and_token() {
    let h = accept_handshake(&PeerIp::V4(192, 168, 0, 5), 19099).unwrap();
    assert_eq!(h.udp_port, 19100);
    assert_eq!(h.buffer_size_ms, 80);
    assert_eq!(h.token.len(), 36);
    assert_eq!(h.token.chars().nth(14), Some('4'));
    assert!(matches!(h.token.chars().nth(19), Some('8' | '9' | 'a' | 'b')));
    for (i, c) in h.token.chars().enumerate() {
        if i == 8 || i == 13 || i == 18 || i == 23 {
            assert_eq!(c, '-');
        } else {
            assert!(c.is_ascii_digit() || ('a'..='f').contains(&c));
        }
    }
    assert!(accept_handshake(&PeerIp::V6(0x2001, 0xdb8, 0, 0, 0, 0, 0, 1), 19099).is_none());
    let h2 = accept_handshake(&PeerIp::V6(0xfd00, 0, 0, 0, 0, 0, 0, 2), 19100).unwrap();
    assert_eq!(h2.udp_port, 19101);
    assert_ne!(h.token, h2.token);
}

fn datagram(seq: u32, ts: u64, payload: &[u8]) -> Vec<u8> {
    let mut buf = Vec::new();
    buf.extend_from_slice(&seq.to_le_bytes());
    buf.extend_from_slice(&ts.to_le_bytes());
    buf.extend_from_slice(&(payload.len() as u16).to_le_bytes());
    buf.extend_from_slice(payload);
    buf
}

#[test]
fn datagram_outcomes() {
    let mut jb = JitterBuffer::new(80);
    assert_eq!(receive_datagram(&mut jb, &[0u8; 5]), DatagramOutcome::TooShort);
    let mut bad = datagram(1, 1, &[]);
    bad[12] = 9;
    assert_eq!(receive_datagram(&mut jb, &bad), DatagramOutcome::Malformed);
    assert_eq!(jb.packet_count(), 0);
    assert_eq!(receive_datagram(&mut jb, &datagram(1, 5, &[1, 2])), DatagramOutcome::Queued);
    assert_eq!(jb.packet_count(), 1);
    assert_eq!(jb.current_ms(), 10);
    assert_eq!(jb.packets_received(), 1);
}

#[test]
fn late_datagram_after_loss_is_queued() {
    let mut jb = JitterBuffer::new(80);
    assert_eq!(receive_datagram(&mut jb, &datagram(10, 1, &[])), DatagramOutcome::Queued);
    assert_eq!(receive_datagram(&mut jb, &datagram(12, 3, &[])), DatagramOutcome::Queued);
    assert_eq!(receive_datagram(&mut jb, &datagram(11, 2, &[])), DatagramOutcome::Queued);
    assert_eq!(jb.packets_received(), 3);
    assert_eq!(jb.packets_lost(), 1);
    assert_eq!(jb.packet_count(), 3);
    assert_eq!(jb.current_ms(), 30);
}

#[test]
fn display_name_with_and_without_host() {
    assert_eq!(service_display_name(""), "AudioCast Desktop");
    assert_eq!(service_display_name("box"), "AudioCast Desktop (box)");
    assert_eq!(service_host_name("box"), "box.local.");
}

#[test]
fn decimal_text_of_ports() {
    assert_eq!(decimal_text(0), "0");
    assert_eq!(decimal_text(7), "7");
    assert_eq!(decimal_text(10), "10");
    assert_eq!(decimal_text(19090), "19090");
    assert_eq!(decimal_text(u16::MAX), "65535");
}

#[test]
fn announcement_fields() {
    let a = service_announcement("studio", 19090);
    assert_eq!(a.service_type, "_audiocast._udp.local.");
    assert_eq!(a.instance_name, "AudioCast Desktop (studio)");
    assert_eq!(a.host_name, "studio.local.");
    assert_eq!(a.address, "0.0.0.0");
    assert_eq!(a.port, 19090);
    assert_eq!(
        a.properties,
        vec![
            ("name".to_string(), "AudioCast Desktop (studio)".to_string()),
            ("version".to_string(), "1.0".to_string()),
            ("tcp_port".to_string(), "19090".to_string()),
        ]
    );
}
