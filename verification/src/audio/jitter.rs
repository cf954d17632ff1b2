use vstd::prelude::*;
use crate::audio::decoder::FRAME_DURATION_MS;
use crate::protocol::packet::{AudioPacket, PacketView};

verus! {

/// Smallest buffering target, in milliseconds.
pub const MIN_TARGET_MS: u32 = 60;

/// Largest buffering target, in milliseconds.
pub const MAX_TARGET_MS: u32 = 120;

/// Ceiling of the accumulated buffering time, in milliseconds.
pub const MAX_ACCUMULATED_MS: u32 = 200;

/// Half of the sequence-number space. A packet whose sequence number lies
/// this far or farther ahead of the last one, counted modulo 2^32, is
/// behind it: a late, reordered packet.
pub const LATE_GAP: u32 = 0x8000_0000;

/// A packet held by the jitter buffer.
#[derive(Debug, Clone)]
pub struct JitterPacket {
    pub sequence: u32,
    pub timestamp: u64,
    pub payload: Vec<u8>,
}

impl View for JitterPacket {
    type V = PacketView;

    open spec fn view(&self) -> PacketView {
        PacketView { sequence: self.sequence, timestamp: self.timestamp, payload: self.payload@ }
    }
}

impl From<AudioPacket> for JitterPacket {
    fn from(p: AudioPacket) -> (r: Self) {
        JitterPacket { sequence: p.sequence, timestamp: p.timestamp, payload: p.payload }
    }
}

impl vstd::std_specs::convert::FromSpecImpl<AudioPacket> for JitterPacket {
    open spec fn obeys_from_spec() -> bool {
        true
    }

    open spec fn from_spec(p: AudioPacket) -> Self {
        JitterPacket { sequence: p.sequence, timestamp: p.timestamp, payload: p.payload }
    }
}

/// The buffering target that a requested value is clamped to.
pub open spec fn clamp_target(ms: nat) -> nat {
    if ms < MIN_TARGET_MS {
        MIN_TARGET_MS as nat
    } else if ms > MAX_TARGET_MS {
        MAX_TARGET_MS as nat
    } else {
        ms
    }
}

/// Packets are ordered by non-decreasing timestamp.
pub open spec fn sorted_by_timestamp(s: Seq<PacketView>) -> bool {
    forall|i: int, j: int| 0 <= i <= j < s.len() ==> s[i].timestamp <= s[j].timestamp
}

/// Where a packet with timestamp `ts` goes in a queue sorted by timestamp:
/// after every packet whose timestamp is at most `ts`.
pub open spec fn insert_position(s: Seq<PacketView>, ts: u64) -> int
    decreases s.len(),
{
    if s.len() == 0 {
        0
    } else if s.last().timestamp <= ts {
        s.len() as int
    } else {
        insert_position(s.drop_last(), ts)
    }
}

/// Number of sequence numbers from `last` to `seq`, counted modulo 2^32.
pub open spec fn sequence_gap(seq: u32, last: u32) -> nat {
    seq.wrapping_sub(last) as nat
}

/// The sequence number `seq` lies behind `last`, modulo 2^32.
pub open spec fn is_late(seq: u32, last: u32) -> bool {
    sequence_gap(seq, last) >= LATE_GAP
}

/// `x`, or `max` if `x` is larger.
pub open spec fn saturate(x: nat, max: nat) -> nat {
    if x <= max {
        x
    } else {
        max
    }
}

/// Abstract state of a jitter buffer.
pub struct JitterView {
    /// Queued packets, earliest timestamp first.
    pub packets: Seq<PacketView>,
    pub target_ms: nat,
    pub accumulated_ms: nat,
    /// Sequence number of the latest packet that was not late.
    pub last_seq: u32,
    pub received: nat,
    pub lost: nat,
    pub consec_lost: nat,
}

impl JitterView {
    /// What every reachable state satisfies.
    pub open spec fn valid(self) -> bool {
        &&& sorted_by_timestamp(self.packets)
        &&& MIN_TARGET_MS <= self.target_ms <= MAX_TARGET_MS
        &&& self.accumulated_ms <= MAX_ACCUMULATED_MS
        &&& self.received <= u64::MAX
        &&& self.lost <= u64::MAX
        &&& self.consec_lost <= u32::MAX
    }

    /// A fresh buffer with the requested target.
    pub open spec fn initial(target_ms: nat) -> JitterView {
        JitterView {
            packets: Seq::empty(),
            target_ms: clamp_target(target_ms),
            accumulated_ms: 0,
            last_seq: 0,
            received: 0,
            lost: 0,
            consec_lost: 0,
        }
    }

    pub open spec fn is_ready(self) -> bool {
        self.accumulated_ms >= self.target_ms
    }

    pub open spec fn has_underflow(self) -> bool {
        self.packets.len() == 0 && self.accumulated_ms < self.target_ms
    }

    /// A packet with sequence number `seq` arrives after a packet that
    /// follows it: it is late, and counts no loss.
    pub open spec fn arrives_late(self, seq: u32) -> bool {
        self.received >= 1 && is_late(seq, self.last_seq)
    }

    /// One more packet can be counted as received.
    pub open spec fn push_fits(self) -> bool {
        self.received < u64::MAX
    }

    /// State after pushing `p`. The packet is counted as received and is
    /// queued after every packet with a timestamp not later than its own.
    /// A late packet changes nothing else. Otherwise, when a packet came
    /// before, the sequence numbers skipped since it are counted as lost
    /// (both counters saturate at their machine maximum), a packet that
    /// skips none ends the run of losses, and `p` becomes the last packet.
    pub open spec fn after_push(self, p: PacketView) -> JitterView {
        let gap = sequence_gap(p.sequence, self.last_seq);
        let packets = self.packets.insert(insert_position(self.packets, p.timestamp), p);
        if self.arrives_late(p.sequence) {
            JitterView { packets, received: self.received + 1, ..self }
        } else {
            JitterView {
                packets,
                received: self.received + 1,
                lost: if self.received >= 1 && gap > 1 {
                    saturate((self.lost + gap - 1) as nat, u64::MAX as nat)
                } else {
                    self.lost
                },
                consec_lost: if self.received >= 1 {
                    if gap > 1 {
                        saturate((self.consec_lost + gap - 1) as nat, u32::MAX as nat)
                    } else {
                        0
                    }
                } else {
                    self.consec_lost
                },
                last_seq: p.sequence,
                ..self
            }
        }
    }

    /// The packet that a pop hands out: none until the buffer is ready,
    /// then the earliest queued packet.
    pub open spec fn popped(self) -> Option<PacketView> {
        if self.is_ready() && self.packets.len() > 0 {
            Some(self.packets[0])
        } else {
            None
        }
    }

    /// State after a pop: when a packet is handed out it leaves the queue
    /// and the accumulated time drops by one frame (not below zero);
    /// otherwise nothing changes.
    pub open spec fn after_pop(self) -> JitterView {
        if self.is_ready() && self.packets.len() > 0 {
            JitterView {
                packets: self.packets.drop_first(),
                accumulated_ms: if self.accumulated_ms >= FRAME_DURATION_MS {
                    (self.accumulated_ms - FRAME_DURATION_MS) as nat
                } else {
                    0
                },
                ..self
            }
        } else {
            self
        }
    }

    /// State after accumulating `frame_ms` of buffered time, capped.
    pub open spec fn after_accumulate(self, frame_ms: nat) -> JitterView {
        JitterView {
            accumulated_ms: if self.accumulated_ms + frame_ms < MAX_ACCUMULATED_MS {
                self.accumulated_ms + frame_ms
            } else {
                MAX_ACCUMULATED_MS as nat
            },
            ..self
        }
    }

    /// State after setting the target to `ms`, clamped.
    pub open spec fn after_set_target(self, ms: nat) -> JitterView {
        JitterView { target_ms: clamp_target(ms), ..self }
    }

    /// State after ending the run of losses.
    pub open spec fn after_reset_losses(self) -> JitterView {
        JitterView { consec_lost: 0, ..self }
    }

    /// State after one operation.
    pub open spec fn apply(self, op: BufferOp) -> JitterView {
        match op {
            BufferOp::Push(p) => self.after_push(p),
            BufferOp::Pop => self.after_pop(),
            BufferOp::Accumulate(ms) => self.after_accumulate(ms),
            BufferOp::SetTarget(ms) => self.after_set_target(ms),
            BufferOp::ResetLosses => self.after_reset_losses(),
        }
    }
}

/// An operation on a jitter buffer that changes its state.
pub enum BufferOp {
    Push(PacketView),
    Pop,
    Accumulate(nat),
    SetTarget(nat),
    ResetLosses,
}

/// State after applying `ops` in order, first to last.
pub open spec fn run_ops(v: JitterView, ops: Seq<BufferOp>) -> JitterView
    decreases ops.len(),
{
    if ops.len() == 0 {
        v
    } else {
        run_ops(v, ops.drop_last()).apply(ops.last())
    }
}

/// Number of pushes among `ops`.
pub open spec fn count_pushes(ops: Seq<BufferOp>) -> nat
    decreases ops.len(),
{
    if ops.len() == 0 {
        0
    } else {
        count_pushes(ops.drop_last()) + if ops.last() is Push {
            1nat
        } else {
            0nat
        }
    }
}

/// Number of pops among `ops`, applied from `v`, that hand out a packet.
pub open spec fn count_handed_out(v: JitterView, ops: Seq<BufferOp>) -> nat
    decreases ops.len(),
{
    if ops.len() == 0 {
        0
    } else {
        count_handed_out(v, ops.drop_last()) + if ops.last() is Pop && run_ops(
            v,
            ops.drop_last(),
        ).popped() is Some {
            1nat
        } else {
            0nat
        }
    }
}

/// The target requested last: the argument of the latest `SetTarget` in
/// `ops`, or `initial` if there is none.
pub open spec fn latest_target(initial: nat, ops: Seq<BufferOp>) -> nat
    decreases ops.len(),
{
    if ops.len() == 0 {
        initial
    } else {
        match ops.last() {
            BufferOp::SetTarget(ms) => ms,
            _ => latest_target(initial, ops.drop_last()),
        }
    }
}

/// Views of a queue of packets.
pub open spec fn packet_views(q: Seq<JitterPacket>) -> Seq<PacketView> {
    q.map_values(|p: JitterPacket| p@)
}

/// Jitter buffer that smooths network jitter: packets are queued by
/// timestamp and handed out once enough audio time has been buffered.
pub struct JitterBuffer {
    queue: Vec<JitterPacket>,
    target_ms: u32,
    accumulated_ms: u32,
    last_seq: u32,
    packets_received: u64,
    packets_lost: u64,
    consec_lost: u32,
}

impl View for JitterBuffer {
    type V = JitterView;

    closed spec fn view(&self) -> JitterView {
        JitterView {
            packets: packet_views(self.queue@),
            target_ms: self.target_ms as nat,
            accumulated_ms: self.accumulated_ms as nat,
            last_seq: self.last_seq,
            received: self.packets_received as nat,
            lost: self.packets_lost as nat,
            consec_lost: self.consec_lost as nat,
        }
    }
}

/// The position at which a packet is queued lies within the queue.
pub proof fn lemma_insert_position_bounds(s: Seq<PacketView>, ts: u64)
    ensures
        0 <= insert_position(s, ts) <= s.len(),
    decreases s.len(),
{
    if s.len() > 0 {
        lemma_insert_position_bounds(s.drop_last(), ts);
    }
}

/// Facts about the position at which a packet is queued.
pub proof fn lemma_insert_position(s: Seq<PacketView>, ts: u64)
    requires
        sorted_by_timestamp(s),
    ensures
        0 <= insert_position(s, ts) <= s.len(),
        forall|j: int| 0 <= j < insert_position(s, ts) ==> s[j].timestamp <= ts,
        forall|j: int| insert_position(s, ts) <= j < s.len() ==> s[j].timestamp > ts,
    decreases s.len(),
{
    if s.len() > 0 && s.last().timestamp > ts {
        let t = s.drop_last();
        assert(sorted_by_timestamp(t)) by {
            assert forall|i: int, j: int| 0 <= i <= j < t.len() implies t[i].timestamp
                <= t[j].timestamp by {
                assert(t[i] == s[i] && t[j] == s[j]);
            }
        }
        lemma_insert_position(t, ts);
        assert forall|j: int| 0 <= j < insert_position(s, ts) implies s[j].timestamp <= ts by {
            assert(s[j] == t[j]);
        }
        assert forall|j: int| insert_position(s, ts) <= j < s.len() implies s[j].timestamp
            > ts by {
            if j < t.len() {
                assert(s[j] == t[j]);
            }
        }
    } else if s.len() > 0 {
        assert forall|j: int| 0 <= j < insert_position(s, ts) implies s[j].timestamp <= ts by {
            assert(s[j].timestamp <= s[s.len() - 1].timestamp);
        }
    }
}

/// A push keeps the buffer valid when one more packet can be counted.
pub proof fn law_push_keeps_valid(v: JitterView, p: PacketView)
    requires
        v.valid(),
        v.push_fits(),
    ensures
        v.after_push(p).valid(),
{
    let k = insert_position(v.packets, p.timestamp);
    lemma_insert_position(v.packets, p.timestamp);
    let s = v.packets.insert(k, p);
    assert forall|i: int, j: int| 0 <= i <= j < s.len() implies s[i].timestamp <= s[j].timestamp by {
        if i < k && j < k {
        } else if i < k && j == k {
        } else if i < k {
            assert(s[j] == v.packets[j - 1]);
        } else if i == k && j == k {
        } else if i == k {
            assert(s[j] == v.packets[j - 1]);
        } else {
            assert(s[i] == v.packets[i - 1]);
            assert(s[j] == v.packets[j - 1]);
        }
    }
}

/// A push queues exactly the pushed packet: the multiset of queued packets
/// gains it, and nothing else changes in the queue.
pub proof fn law_push_adds_packet(v: JitterView, p: PacketView)
    requires
        v.valid(),
    ensures
        v.after_push(p).packets.to_multiset() == v.packets.to_multiset().insert(p),
        v.after_push(p).packets.len() == v.packets.len() + 1,
{
    let k = insert_position(v.packets, p.timestamp);
    lemma_insert_position(v.packets, p.timestamp);
    let s = v.packets.insert(k, p);
    assert(s.remove(k) =~= v.packets);
    broadcast use vstd::seq_lib::group_to_multiset_ensures;

    assert(s.to_multiset().remove(p) == v.packets.to_multiset());
    assert(s.to_multiset().contains(p)) by {
        assert(s[k] == p);
        assert(s.contains(p));
    }
    assert(s.to_multiset() =~= v.packets.to_multiset().insert(p));
}

/// A pop keeps the buffer valid.
pub proof fn law_pop_keeps_valid(v: JitterView)
    requires
        v.valid(),
    ensures
        v.after_pop().valid(),
{
    if v.is_ready() && v.packets.len() > 0 {
        let rest = v.packets.drop_first();
        assert forall|i: int, j: int| 0 <= i <= j < rest.len() implies rest[i].timestamp
            <= rest[j].timestamp by {
            assert(rest[i] == v.packets[i + 1]);
            assert(rest[j] == v.packets[j + 1]);
        }
    }
}

/// Packets leave in timestamp order: the timestamp of the packet a pop
/// hands out is not later than that of any packet still queued after it.
pub proof fn law_pop_returns_earliest(v: JitterView)
    requires
        v.valid(),
    ensures
        v.popped() matches Some(p) ==> forall|j: int|
            0 <= j < v.after_pop().packets.len() ==> p.timestamp
                <= #[trigger] v.after_pop().packets[j].timestamp,
{
    if v.is_ready() && v.packets.len() > 0 {
        assert forall|j: int| 0 <= j < v.after_pop().packets.len() implies v.packets[0].timestamp
            <= #[trigger] v.after_pop().packets[j].timestamp by {
            assert(v.after_pop().packets[j] == v.packets[j + 1]);
        }
    }
}

/// A pop loses no audio: every packet queued before it is either the one
/// handed out or still queued, in the same order.
pub proof fn law_pop_hands_out_every_packet(v: JitterView)
    ensures
        v.packets == match v.popped() {
            Some(p) => seq![p] + v.after_pop().packets,
            None => v.after_pop().packets,
        },
{
    if v.is_ready() && v.packets.len() > 0 {
        assert(seq![v.packets[0]] + v.packets.drop_first() =~= v.packets);
    }
}

/// Two pops in a row hand out packets in non-decreasing timestamp order.
pub proof fn law_consecutive_pops_in_order(v: JitterView)
    requires
        v.valid(),
    ensures
        v.popped() matches Some(p1) ==> (v.after_pop().popped() matches Some(p2) ==> p1.timestamp
            <= p2.timestamp),
{
    law_pop_returns_earliest(v);
}

/// Before the buffer is ready a pop hands out nothing and changes nothing.
pub proof fn law_pop_waits_until_ready(v: JitterView)
    requires
        !v.is_ready(),
    ensures
        v.popped() is None,
        v.after_pop() == v,
{
}

/// A packet that directly follows the previous one (modulo 2^32) counts no
/// loss and ends a run of consecutive losses.
pub proof fn law_in_order_packet_counts_no_loss(v: JitterView, p: PacketView)
    requires
        v.received >= 1,
        p.sequence == v.last_seq.wrapping_add(1),
    ensures
        v.after_push(p).lost == v.lost,
        v.after_push(p).consec_lost == 0,
        v.after_push(p).received == v.received + 1,
        v.after_push(p).last_seq == p.sequence,
{
}

/// A late, reordered packet is queued and counted as received, and leaves
/// the loss counters and the last sequence number as they were.
pub proof fn law_late_packet_counts_no_loss(v: JitterView, p: PacketView)
    requires
        v.valid(),
        v.push_fits(),
        v.arrives_late(p.sequence),
    ensures
        v.after_push(p).lost == v.lost,
        v.after_push(p).consec_lost == v.consec_lost,
        v.after_push(p).last_seq == v.last_seq,
        v.after_push(p).received == v.received + 1,
        v.after_push(p).packets.to_multiset() == v.packets.to_multiset().insert(p),
{
    law_push_adds_packet(v, p);
}

/// Loss accounting of one push, in plain arithmetic. Let `d` be the
/// distance from the last sequence number to the pushed one, modulo 2^32.
/// The first packet counts no loss. A packet with `d >= 2^31` is late: it
/// changes neither loss counter nor the last sequence number. Otherwise a
/// packet with `d >= 2` adds the `d - 1` skipped numbers to the total lost
/// and to the current run of losses (each saturating at its machine
/// maximum), and a packet with `d <= 1` ends the run. The received counter
/// grows by one, and target and buffered time stay as they were.
pub proof fn law_push_loss_accounting(v: JitterView, p: PacketView)
    ensures
        ({
            let d: int = if p.sequence >= v.last_seq {
                p.sequence - v.last_seq
            } else {
                p.sequence + 4294967296 - v.last_seq
            };
            let w = v.after_push(p);
            &&& w.received == v.received + 1
            &&& w.target_ms == v.target_ms
            &&& w.accumulated_ms == v.accumulated_ms
            &&& v.received == 0 ==> w.lost == v.lost && w.consec_lost == v.consec_lost
                && w.last_seq == p.sequence
            &&& (v.received >= 1 && d >= 2147483648) ==> w.lost == v.lost && w.consec_lost
                == v.consec_lost && w.last_seq == v.last_seq
            &&& (v.received >= 1 && 2 <= d < 2147483648) ==> {
                &&& w.lost == if v.lost + d - 1 <= 18446744073709551615 {
                    v.lost + d - 1
                } else {
                    18446744073709551615
                }
                &&& w.consec_lost == if v.consec_lost + d - 1 <= 4294967295 {
                    v.consec_lost + d - 1
                } else {
                    4294967295
                }
                &&& w.last_seq == p.sequence
            }
            &&& (v.received >= 1 && d <= 1) ==> w.lost == v.lost && w.consec_lost == 0
                && w.last_seq == p.sequence
        }),
{
}

/// A push can be made until 2^64 - 1 packets have been received.
pub proof fn law_push_fits_until_counter_full(v: JitterView)
    ensures
        v.push_fits() <==> v.received < 18446744073709551615,
{
}

/// Where a push puts the packet: the queue becomes the packets with a
/// timestamp not later than the pushed one, in their order, then the
/// pushed packet, then the packets with a later timestamp, in their order.
pub proof fn law_push_position(v: JitterView, p: PacketView)
    requires
        v.valid(),
    ensures
        exists|k: int|
            0 <= k <= v.packets.len() && v.after_push(p).packets == v.packets.take(k) + seq![p]
                + v.packets.skip(k) && (forall|j: int|
                0 <= j < k ==> #[trigger] v.packets[j].timestamp <= p.timestamp) && (forall|j: int|
                k <= j < v.packets.len() ==> #[trigger] v.packets[j].timestamp > p.timestamp),
{
    let k = insert_position(v.packets, p.timestamp);
    lemma_insert_position(v.packets, p.timestamp);
    assert(v.packets.insert(k, p) =~= v.packets.take(k) + seq![p] + v.packets.skip(k));
}

/// What a pop does, in plain terms. When the buffered time has reached the
/// target and a packet is queued, the earliest queued packet is handed out
/// and removed, and the buffered time drops by exactly 10 ms (to 0 if it
/// was below 10 ms); nothing else changes. Otherwise nothing is handed out
/// and nothing changes.
pub proof fn law_pop_effect(v: JitterView)
    ensures
        (v.accumulated_ms >= v.target_ms && v.packets.len() > 0) ==> {
            &&& v.popped() == Some(v.packets[0])
            &&& v.after_pop().packets == v.packets.drop_first()
            &&& v.after_pop().accumulated_ms == if v.accumulated_ms >= 10 {
                v.accumulated_ms - 10
            } else {
                0
            }
            &&& v.after_pop().target_ms == v.target_ms
            &&& v.after_pop().received == v.received
            &&& v.after_pop().lost == v.lost
            &&& v.after_pop().consec_lost == v.consec_lost
            &&& v.after_pop().last_seq == v.last_seq
        },
        !(v.accumulated_ms >= v.target_ms && v.packets.len() > 0) ==> v.popped() is None
            && v.after_pop() == v,
{
}

/// Accumulating adds the given time, capped at 200 ms; setting the target
/// clamps it to 60..=120 ms; ending the run of losses zeroes it. Each
/// changes nothing else.
pub proof fn law_accumulate_target_and_reset(v: JitterView, ms: nat)
    ensures
        v.after_accumulate(ms).accumulated_ms == if v.accumulated_ms + ms < 200 {
            v.accumulated_ms + ms
        } else {
            200
        },
        v.after_accumulate(ms) == (JitterView {
            accumulated_ms: v.after_accumulate(ms).accumulated_ms,
            ..v
        }),
        v.after_set_target(ms).target_ms == if ms < 60 {
            60
        } else if ms > 120 {
            120
        } else {
            ms
        },
        v.after_set_target(ms) == (JitterView { target_ms: v.after_set_target(ms).target_ms, ..v }),
        v.after_reset_losses().consec_lost == 0,
        v.after_reset_losses() == (JitterView { consec_lost: 0, ..v }),
{
}

/// A buffer in underflow has nothing to hand out; a push ends the
/// underflow.
pub proof fn law_underflow(v: JitterView, p: PacketView)
    ensures
        v.has_underflow() <==> (v.packets.len() == 0 && v.accumulated_ms < v.target_ms),
        v.has_underflow() ==> v.popped() is None,
        !v.after_push(p).has_underflow(),
{
    lemma_insert_position_bounds(v.packets, p.timestamp);
}

/// The buffer state after pushing `ps` in order, first to last.
pub open spec fn after_pushes(v: JitterView, ps: Seq<PacketView>) -> JitterView
    decreases ps.len(),
{
    if ps.len() == 0 {
        v
    } else {
        after_pushes(v, ps.drop_last()).after_push(ps.last())
    }
}

/// Sequence numbers strictly increase along `ps`, each step by less than
/// half the sequence-number space.
pub open spec fn advancing_sequences(ps: Seq<PacketView>) -> bool {
    &&& forall|i: int, j: int| 0 <= i < j < ps.len() ==> ps[i].sequence < ps[j].sequence
    &&& forall|i: int|
        1 <= i < ps.len() ==> #[trigger] ps[i].sequence - ps[i - 1].sequence < LATE_GAP
}

/// Loss accounting: when a fresh buffer receives packets whose sequence
/// numbers advance, every sequence number of the span from the first to the
/// last is counted exactly once, as received or as lost.
pub proof fn law_received_plus_lost_covers_span(target_ms: nat, ps: Seq<PacketView>)
    requires
        ps.len() > 0,
        advancing_sequences(ps),
    ensures
        after_pushes(JitterView::initial(target_ms), ps).received
            + after_pushes(JitterView::initial(target_ms), ps).lost == ps.last().sequence
            - ps[0].sequence + 1,
        after_pushes(JitterView::initial(target_ms), ps).received == ps.len(),
        after_pushes(JitterView::initial(target_ms), ps).last_seq == ps.last().sequence,
        after_pushes(JitterView::initial(target_ms), ps).consec_lost <= after_pushes(
            JitterView::initial(target_ms),
            ps,
        ).lost,
    decreases ps.len(),
{
    let v0 = JitterView::initial(target_ms);
    if ps.len() == 1 {
        assert(ps.drop_last().len() == 0);
        assert(after_pushes(v0, ps.drop_last()) == v0);
    } else {
        let front = ps.drop_last();
        assert(advancing_sequences(front)) by {
            assert forall|i: int, j: int| 0 <= i < j < front.len() implies front[i].sequence
                < front[j].sequence by {
                assert(front[i] == ps[i] && front[j] == ps[j]);
            }
            assert forall|i: int| 1 <= i < front.len() implies #[trigger] front[i].sequence
                - front[i - 1].sequence < LATE_GAP by {
                assert(front[i] == ps[i] && front[i - 1] == ps[i - 1]);
            }
        }
        law_received_plus_lost_covers_span(target_ms, front);
        let w = after_pushes(v0, front);
        let n = ps.len() as int;
        assert(front.last() == ps[n - 2]);
        assert(front[0] == ps[0]);
        assert(ps[n - 2].sequence < ps[n - 1].sequence);
        assert(ps[n - 1].sequence - ps[n - 2].sequence < LATE_GAP);
        assert(ps[0].sequence <= ps[n - 2].sequence) by {
            if n - 2 > 0 {
                assert(ps[0].sequence < ps[n - 2].sequence);
            }
        }
        assert(sequence_gap(ps.last().sequence, w.last_seq) == ps.last().sequence
            - w.last_seq);
    }
}

/// Operations other than pushes leave a suffix of the queue.
pub proof fn lemma_no_push_keeps_suffix(v: JitterView, ops: Seq<BufferOp>)
    requires
        forall|i: int| 0 <= i < ops.len() ==> !(#[trigger] ops[i] is Push),
    ensures
        exists|k: int|
            0 <= k <= v.packets.len() && run_ops(v, ops).packets == v.packets.subrange(
                k,
                v.packets.len() as int,
            ),
    decreases ops.len(),
{
    if ops.len() == 0 {
        assert(v.packets.subrange(0, v.packets.len() as int) =~= v.packets);
    } else {
        let front = ops.drop_last();
        assert forall|i: int| 0 <= i < front.len() implies !(#[trigger] front[i] is Push) by {
            assert(front[i] == ops[i]);
        }
        lemma_no_push_keeps_suffix(v, front);
        let k = choose|k: int|
            0 <= k <= v.packets.len() && run_ops(v, front).packets == v.packets.subrange(
                k,
                v.packets.len() as int,
            );
        let w = run_ops(v, front);
        assert(!(ops[ops.len() - 1] is Push));
        if ops.last() is Pop && w.is_ready() && w.packets.len() > 0 {
            assert(w.packets.drop_first() =~= v.packets.subrange(k + 1, v.packets.len() as int));
        }
    }
}

/// Packets leave in timestamp order across any calls other than pushes:
/// after a pop hands out `p1`, the next pop that hands out a packet `p2`,
/// with any pops, accumulations, target changes and loss resets between,
/// has `p1.timestamp <= p2.timestamp`.
pub proof fn law_pops_in_order_between_pushes(v: JitterView, ops: Seq<BufferOp>)
    requires
        v.valid(),
        forall|i: int| 0 <= i < ops.len() ==> !(#[trigger] ops[i] is Push),
    ensures
        v.popped() matches Some(p1) ==> (run_ops(v.after_pop(), ops).popped() matches Some(p2)
            ==> p1.timestamp <= p2.timestamp),
{
    law_pop_returns_earliest(v);
    let w = v.after_pop();
    lemma_no_push_keeps_suffix(w, ops);
    let k = choose|k: int|
        0 <= k <= w.packets.len() && run_ops(w, ops).packets == w.packets.subrange(
            k,
            w.packets.len() as int,
        );
    if v.popped() is Some && run_ops(w, ops).popped() is Some {
        assert(run_ops(w, ops).packets[0] == w.packets[k]);
    }
}

/// The received counter counts pushes: from a fresh buffer, after any
/// sequence of operations, it equals the number of pushes among them.
pub proof fn law_received_counts_pushes(target_ms: nat, ops: Seq<BufferOp>)
    ensures
        run_ops(JitterView::initial(target_ms), ops).received == count_pushes(ops),
    decreases ops.len(),
{
    if ops.len() > 0 {
        law_received_counts_pushes(target_ms, ops.drop_last());
    }
}

/// The target is the latest requested one, clamped: from a fresh buffer
/// created with `target_ms`, after any sequence of operations, the target
/// is the clamp to 60..=120 ms of the latest `SetTarget` argument, or of
/// `target_ms` if there was none.
pub proof fn law_target_is_latest_request(target_ms: nat, ops: Seq<BufferOp>)
    ensures
        run_ops(JitterView::initial(target_ms), ops).target_ms == clamp_target(
            latest_target(target_ms, ops),
        ),
        MIN_TARGET_MS <= run_ops(JitterView::initial(target_ms), ops).target_ms <= MAX_TARGET_MS,
    decreases ops.len(),
{
    if ops.len() > 0 {
        law_target_is_latest_request(target_ms, ops.drop_last());
    }
}

/// Queue accounting: from a fresh buffer, after any sequence of operations,
/// the queued packets plus the packets handed out equal the packets pushed.
pub proof fn law_queue_counts_pushes_minus_pops(target_ms: nat, ops: Seq<BufferOp>)
    ensures
        run_ops(JitterView::initial(target_ms), ops).packets.len() + count_handed_out(
            JitterView::initial(target_ms),
            ops,
        ) == count_pushes(ops),
    decreases ops.len(),
{
    if ops.len() > 0 {
        let v0 = JitterView::initial(target_ms);
        let w = run_ops(v0, ops.drop_last());
        law_queue_counts_pushes_minus_pops(target_ms, ops.drop_last());
        if let BufferOp::Push(p) = ops.last() {
            lemma_insert_position_bounds(w.packets, p.timestamp);
        }
    }
}

/// Clamps a requested buffering target to 60..=120 ms.
fn clamp_target_ms(ms: u32) -> (r: u32)
    ensures
        r == clamp_target(ms as nat),
{
    if ms < MIN_TARGET_MS {
        MIN_TARGET_MS
    } else if ms > MAX_TARGET_MS {
        MAX_TARGET_MS
    } else {
        ms
    }
}

impl JitterBuffer {
    /// Creates an empty buffer; the target is clamped to 60..=120 ms.
    pub fn new(target_ms: u32) -> (r: Self)
        ensures
            r@ == JitterView::initial(target_ms as nat),
            r@.valid(),
    {
        let r = JitterBuffer {
            queue: Vec::new(),
            target_ms: clamp_target_ms(target_ms),
            accumulated_ms: 0,
            last_seq: 0,
            packets_received: 0,
            packets_lost: 0,
            consec_lost: 0,
        };
        assert(r@.packets =~= Seq::<PacketView>::empty());
        r
    }

    /// Whether one more packet can be counted as received.
    pub fn can_push(&self) -> (r: bool)
        ensures
            r == self@.push_fits(),
    {
        self.packets_received < u64::MAX
    }

    /// Inserts `p` after every queued packet with a timestamp not later
    /// than its own.
    fn insert_by_timestamp(queue: &mut Vec<JitterPacket>, p: JitterPacket)
        requires
            sorted_by_timestamp(packet_views(old(queue)@)),
        ensures
            packet_views(final(queue)@) == packet_views(old(queue)@).insert(
                insert_position(packet_views(old(queue)@), p.timestamp),
                p@,
            ),
    {
        let ghost s = packet_views(queue@);
        let mut i = queue.len();
        assert(s.take(i as int) =~= s);
        while i > 0 && queue[i - 1].timestamp > p.timestamp
            invariant
                i <= queue.len(),
                s == packet_views(queue@),
                insert_position(s, p.timestamp) == insert_position(s.take(i as int), p.timestamp),
            decreases i,
        {
            assert(s.take(i as int).drop_last() =~= s.take(i - 1));
            assert(s.take(i as int).last() == s[i - 1]);
            i = i - 1;
        }
        proof {
            if i > 0 {
                assert(s.take(i as int).last() == s[i - 1]);
            }
        }
        queue.insert(i, p);
        assert(packet_views(queue@) =~= s.insert(i as int, p@));
    }

    /// Queues a packet and updates the loss statistics.
    pub fn push(&mut self, packet: AudioPacket)
        requires
            old(self)@.valid(),
            old(self)@.push_fits(),
        ensures
            final(self)@ == old(self)@.after_push(packet@),
            final(self)@.valid(),
            final(self)@.packets.len() == old(self)@.packets.len() + 1,
    {
        proof {
            law_push_keeps_valid(self@, packet@);
            law_push_adds_packet(self@, packet@);
        }
        self.packets_received = self.packets_received + 1;
        let mut late = false;
        if self.packets_received > 1 {
            let gap = packet.sequence.wrapping_sub(self.last_seq);
            if gap >= LATE_GAP {
                late = true;
            } else if gap > 1 {
                self.packets_lost = self.packets_lost.saturating_add((gap - 1) as u64);
                self.consec_lost = self.consec_lost.saturating_add(gap - 1);
            } else {
                self.consec_lost = 0;
            }
        }
        if !late {
            self.last_seq = packet.sequence;
        }
        let jp = JitterPacket::from(packet);
        Self::insert_by_timestamp(&mut self.queue, jp);
    }

    /// Hands out the earliest queued packet once the buffer is ready.
    pub fn pop(&mut self) -> (r: Option<JitterPacket>)
        requires
            old(self)@.valid(),
        ensures
            final(self)@ == old(self)@.after_pop(),
            final(self)@.valid(),
            match r {
                Some(p) => old(self)@.popped() == Some(p@),
                None => old(self)@.popped() is None,
            },
    {
        proof {
            law_pop_keeps_valid(self@);
        }
        if !self.is_ready() {
            return None;
        }
        if self.queue.len() > 0 {
            let ghost before = packet_views(self.queue@);
            let p = self.queue.remove(0);
            assert(packet_views(self.queue@) =~= before.drop_first());
            self.accumulated_ms = self.accumulated_ms.saturating_sub(FRAME_DURATION_MS);
            Some(p)
        } else {
            None
        }
    }

    /// Whether enough audio time has been buffered.
    pub fn is_ready(&self) -> (r: bool)
        ensures
            r == self@.is_ready(),
    {
        self.accumulated_ms >= self.target_ms
    }

    /// Adds `frame_ms` of buffered time, capped at 200 ms.
    pub fn accumulate(&mut self, frame_ms: u32)
        requires
            old(self)@.valid(),
        ensures
            final(self)@ == old(self)@.after_accumulate(frame_ms as nat),
            final(self)@.valid(),
    {
        let total = self.accumulated_ms.saturating_add(frame_ms);
        self.accumulated_ms = if total < MAX_ACCUMULATED_MS {
            total
        } else {
            MAX_ACCUMULATED_MS
        };
    }

    /// Sets the buffering target, clamped to 60..=120 ms.
    pub fn set_target_ms(&mut self, ms: u32)
        requires
            old(self)@.valid(),
        ensures
            final(self)@ == old(self)@.after_set_target(ms as nat),
            final(self)@.valid(),
    {
        self.target_ms = clamp_target_ms(ms);
    }

    /// Buffered time accumulated so far, in milliseconds.
    pub fn current_ms(&self) -> (r: u32)
        ensures
            r == self@.accumulated_ms,
    {
        self.accumulated_ms
    }

    /// The buffering target, in milliseconds.
    pub fn target_ms(&self) -> (r: u32)
        ensures
            r == self@.target_ms,
    {
        self.target_ms
    }

    /// Number of packets pushed so far.
    pub fn packets_received(&self) -> (r: u64)
        ensures
            r == self@.received,
    {
        self.packets_received
    }

    /// Number of packets counted as lost from sequence gaps.
    pub fn packets_lost(&self) -> (r: u64)
        ensures
            r == self@.lost,
    {
        self.packets_lost
    }

    /// Whether the queue is empty while less than the target is buffered.
    pub fn has_underflow(&self) -> (r: bool)
        ensures
            r == self@.has_underflow(),
    {
        self.queue.len() == 0 && self.accumulated_ms < self.target_ms
    }

    /// Number of queued packets.
    pub fn packet_count(&self) -> (r: usize)
        ensures
            r == self@.packets.len(),
    {
        self.queue.len()
    }

    /// Length of the current run of lost packets.
    pub fn consecutive_losses(&self) -> (r: u32)
        ensures
            r == self@.consec_lost,
    {
        self.consec_lost
    }

    /// Ends the current run of lost packets.
    pub fn reset_consecutive_losses(&mut self)
        ensures
            final(self)@ == old(self)@.after_reset_losses(),
    {
        self.consec_lost = 0;
    }
}

} // verus!
