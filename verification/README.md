# audiocast

Receiving side of a LAN audio relay, verified with Verus.

- `src/protocol/packet.rs` — the UDP packet format (little-endian sequence,
  timestamp, payload length, payload) and its decoder.
- `src/audio/jitter.rs` — the jitter buffer: packets queued by timestamp,
  released once the buffered time reaches a target clamped to 60..=120 ms,
  with loss counting from sequence gaps; late, reordered packets are queued
  and count no loss.
- `src/audio/output.rs` — how decoded frames fill the device buffer.
- `src/audio/decoder.rs` — frame layout of the decoded audio.
- `src/network/` — handshake admission (private IPv4 networks,
  loopback, and IPv6 loopback, unique-local, link-local and IPv4-mapped
  private addresses), UDP
  datagram intake, and the mDNS announcement.
- `app/` — the desktop shell: Tauri commands, sockets, threads, the Opus
  decoder, the audio device, and the float parts (volume, loss rate).
