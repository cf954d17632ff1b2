use vstd::prelude::*;
use std::collections::VecDeque;
use crate::audio::decoder::PcmFrame;

verus! {

/// Sample sequences of the queued frames.
pub open spec fn frame_samples(q: Seq<PcmFrame>) -> Seq<Seq<i16>> {
    q.map_values(|f: PcmFrame| f.samples@)
}

/// How `need` output slots are filled from queued frames: each frame at the
/// front of the queue gives its first samples, as many as it has or as many
/// as are still needed, and is then consumed whole; once the queue runs dry
/// the remaining slots are silent (`None`). The second component is the
/// number of frames consumed.
pub open spec fn drain_plan(frames: Seq<Seq<i16>>, need: nat) -> (Seq<Option<i16>>, nat)
    decreases frames.len(),
{
    if need == 0 {
        (Seq::empty(), 0)
    } else if frames.len() == 0 {
        (Seq::new(need, |i: int| None::<i16>), 0)
    } else {
        let f = frames[0];
        let n: nat = if f.len() < need {
            f.len()
        } else {
            need
        };
        let rest = drain_plan(frames.drop_first(), (need - n) as nat);
        (f.take(n as int).map_values(|s: i16| Some(s)) + rest.0, rest.1 + 1)
    }
}

/// The output buffer is always filled completely, and no more frames are
/// consumed than are queued.
pub proof fn law_drain_fills_output(frames: Seq<Seq<i16>>, need: nat)
    ensures
        drain_plan(frames, need).0.len() == need,
        drain_plan(frames, need).1 <= frames.len(),
    decreases frames.len(),
{
    if need != 0 && frames.len() != 0 {
        let f = frames[0];
        let n: nat = if f.len() < need {
            f.len()
        } else {
            need
        };
        law_drain_fills_output(frames.drop_first(), (need - n) as nat);
    }
}

/// Samples are played in queue order: the filled slots start with the
/// first frame's samples, in order.
pub proof fn law_drain_keeps_sample_order(frames: Seq<Seq<i16>>, need: nat, k: int)
    requires
        frames.len() > 0,
        0 <= k < need,
        k < frames[0].len(),
    ensures
        drain_plan(frames, need).0[k] == Some(frames[0][k]),
{
    let f = frames[0];
    let n: nat = if f.len() < need {
        f.len()
    } else {
        need
    };
    law_drain_fills_output(frames.drop_first(), (need - n) as nat);
}

/// What the device hears: slot `i` carries sample `i` of the queued frames
/// laid end to end, while there is one; after the last queued sample every
/// slot is silent.
pub proof fn law_drain_plays_queue_in_order(frames: Seq<Seq<i16>>, need: nat)
    ensures
        forall|i: int|
            0 <= i < need ==> #[trigger] drain_plan(frames, need).0[i] == if i
                < frames.flatten().len() {
                Some(frames.flatten()[i])
            } else {
                None
            },
    decreases frames.len(),
{
    law_drain_fills_output(frames, need);
    if need != 0 && frames.len() != 0 {
        let f = frames[0];
        let n: nat = if f.len() < need {
            f.len()
        } else {
            need
        };
        let rest = drain_plan(frames.drop_first(), (need - n) as nat);
        law_drain_plays_queue_in_order(frames.drop_first(), (need - n) as nat);
        law_drain_fills_output(frames.drop_first(), (need - n) as nat);
        let head = f.take(n as int).map_values(|x: i16| Some(x));
        assert(frames.flatten() == f + frames.drop_first().flatten());
        assert forall|i: int| 0 <= i < need implies #[trigger] drain_plan(frames, need).0[i] == if i
            < frames.flatten().len() {
            Some(frames.flatten()[i])
        } else {
            None
        } by {
            if i < n {
                assert(drain_plan(frames, need).0[i] == head[i]);
            } else {
                assert(drain_plan(frames, need).0[i] == rest.0[i - n]);
            }
        }
    } else if need != 0 {
        assert(frames.flatten().len() == 0);
    }
}

/// Exactly the frames that are needed are consumed: the least number of
/// frames from the front of the queue that together hold at least `need`
/// samples, or the whole queue when it holds fewer. In particular a first
/// frame that holds `need` samples or more is the only frame consumed.
pub proof fn law_drain_consumes_exactly_needed_frames(frames: Seq<Seq<i16>>, need: nat)
    ensures
        drain_plan(frames, need).1 <= frames.len(),
        drain_plan(frames, need).1 == frames.len() || frames.take(
            drain_plan(frames, need).1 as int,
        ).flatten().len() >= need,
        drain_plan(frames, need).1 > 0 ==> frames.take(drain_plan(frames, need).1 - 1).flatten().len()
            < need,
        (need > 0 && frames.len() > 0 && frames[0].len() >= need) ==> drain_plan(frames, need).1
            == 1,
    decreases frames.len(),
{
    let c = drain_plan(frames, need).1;
    if need == 0 {
        assert(frames.take(0).len() == 0);
        assert(frames.take(0).flatten().len() == 0);
    } else if frames.len() == 0 {
    } else {
        let f = frames[0];
        let n: nat = if f.len() < need {
            f.len()
        } else {
            need
        };
        let t = frames.drop_first();
        let need2 = (need - n) as nat;
        law_drain_consumes_exactly_needed_frames(t, need2);
        let c2 = drain_plan(t, need2).1;
        assert(c == c2 + 1);
        assert(frames.take(c as int).first() == f);
        assert(frames.take(c as int).drop_first() =~= t.take(c2 as int));
        assert(frames.take(c as int).flatten() == f + t.take(c2 as int).flatten());
        if c2 > 0 {
            assert(frames.take(c - 1).first() == f);
            assert(frames.take(c - 1).drop_first() =~= t.take(c2 - 1));
            assert(frames.take(c - 1).flatten() == f + t.take(c2 - 1).flatten());
        } else {
            assert(frames.take(0).len() == 0);
            assert(frames.take(c - 1).flatten().len() == 0);
        }
        if f.len() >= need {
            assert(need2 == 0);
        }
    }
}

/// Fills `out_len` output slots from the front of the frame queue, as
/// `drain_plan` describes, and removes the consumed frames from the queue.
pub fn drain_into_output(queue: &mut VecDeque<PcmFrame>, out_len: usize) -> (out: Vec<
    Option<i16>,
>)
    ensures
        out@ == drain_plan(frame_samples(old(queue)@), out_len as nat).0,
        final(queue)@ == old(queue)@.skip(
            drain_plan(frame_samples(old(queue)@), out_len as nat).1 as int,
        ),
{
    let ghost q0 = queue@;
    let ghost plan = drain_plan(frame_samples(q0), out_len as nat);
    let ghost mut consumed: nat = 0;
    let mut out: Vec<Option<i16>> = Vec::new();
    proof {
        assert(q0.skip(0) =~= q0);
        law_drain_fills_output(frame_samples(q0), out_len as nat);
    }
    while out.len() < out_len
        invariant
            out.len() <= out_len,
            consumed <= q0.len(),
            queue@ == q0.skip(consumed as int),
            plan.0 == out@ + drain_plan(frame_samples(queue@), (out_len - out.len()) as nat).0,
            plan.1 == consumed + drain_plan(frame_samples(queue@), (out_len - out.len()) as nat).1,
            plan == drain_plan(frame_samples(q0), out_len as nat),
        decreases queue@.len() + out_len - out.len(),
    {
        let ghost fs = frame_samples(queue@);
        let ghost need: nat = (out_len - out.len()) as nat;
        if queue.len() > 0 {
            let needed = out_len - out.len();
            let available = queue[0].samples.len();
            let to_copy = if available < needed {
                available
            } else {
                needed
            };
            let ghost start = out@;
            let ghost f = fs[0];
            assert(f == queue@[0].samples@);
            let mut i: usize = 0;
            while i < to_copy
                invariant
                    i <= to_copy,
                    to_copy <= queue@[0].samples@.len(),
                    queue@.len() > 0,
                    f == queue@[0].samples@,
                    out@ == start + f.take(i as int).map_values(|s: i16| Some(s)),
                decreases to_copy - i,
            {
                out.push(Some(queue[0].samples[i]));
                i = i + 1;
                assert(out@ =~= start + f.take(i as int).map_values(|s: i16| Some(s)));
            }
            let ghost before = queue@;
            queue.pop_front();
            proof {
                assert(frame_samples(queue@) =~= fs.drop_first());
                assert(queue@ =~= q0.skip(consumed + 1int));
                consumed = consumed + 1;
                let rest = drain_plan(fs.drop_first(), (need - to_copy) as nat);
                assert(drain_plan(fs, need).0 == f.take(to_copy as int).map_values(
                    |s: i16| Some(s),
                ) + rest.0);
                assert(plan.0 =~= out@ + rest.0);
            }
        } else {
            let ghost start = out@;
            while out.len() < out_len
                invariant
                    out.len() <= out_len,
                    start.len() <= out.len(),
                    out@ =~= start + Seq::new((out.len() - start.len()) as nat, |i: int| None::<i16>),
                decreases out_len - out.len(),
            {
                out.push(None);
                assert(out@ =~= start + Seq::new((out.len() - start.len()) as nat, |i: int| None::<i16>));
            }
            proof {
                assert(fs.len() == 0);
                assert(plan.0 =~= out@ + drain_plan(frame_samples(queue@), 0).0);
            }
        }
    }
    proof {
        assert(out@ =~= plan.0);
    }
    out
}

} // verus!
