//! Properties of the timeline scan: alternation of recorded transitions,
//! quantization of timestamps, and the round trip from a timeline back to the
//! per-frame silhouette it was built from.

use vstd::prelude::*;

use crate::frame::Frame;
use crate::pixel::is_solid_spec;
use crate::timeline::{
    grid_spec, quantize, scan_pixel, scan_step, states_of, step_of, TimelineModel,
};
use vstd::arithmetic::div_mod::{lemma_fundamental_div_mod, lemma_mod_multiples_basic};

verus! {

/// Number of recorded transitions with timestamp at most `t`.
pub open spec fn flips_through(delays: Seq<u16>, t: u16) -> nat
    decreases delays.len(),
{
    if delays.len() == 0 {
        0
    } else {
        flips_through(delays.drop_last(), t) + (if delays.last() <= t {
            1nat
        } else {
            0nat
        })
    }
}

/// The solid state a timeline implies at time `t`: fold the transitions up
/// to `t`, starting from the first-frame state.
pub open spec fn replay(m: TimelineModel, t: u16) -> bool {
    m.enabled_first_frame != (flips_through(m.delays, t) % 2 == 1)
}

proof fn lemma_flips_push(delays: Seq<u16>, d: u16, t: u16)
    ensures
        flips_through(delays.push(d), t) == flips_through(delays, t) + (if d <= t {
            1nat
        } else {
            0nat
        }),
{
    assert(delays.push(d).drop_last() =~= delays);
}

proof fn lemma_flips_single(d: u16, t: u16)
    ensures
        flips_through(seq![d], t) == (if d <= t {
            1nat
        } else {
            0nat
        }),
{
    assert(seq![d].drop_last() =~= Seq::<u16>::empty());
    assert(flips_through(Seq::<u16>::empty(), t) == 0);
}

proof fn lemma_flips_all(delays: Seq<u16>, t: u16)
    requires
        forall|k: int| 0 <= k < delays.len() ==> delays[k] <= t,
    ensures
        flips_through(delays, t) == delays.len(),
    decreases delays.len(),
{
    if delays.len() > 0 {
        lemma_flips_all(delays.drop_last(), t);
    }
}

/// Everything the scan guarantees after processing a prefix of `i` frames:
/// a slot exists iff the pixel was solid somewhere in the prefix; the flag
/// records frame 0's state; timestamps are strictly increasing multiples of
/// the step, between the first step and the last processed frame's
/// timestamp (frame 0 never records one); the running
/// state is the first-frame state flipped once per recorded transition; and
/// replaying the timeline at any processed frame's timestamp returns that
/// frame's classified state.
pub open spec fn scan_inv(states: Seq<bool>, step: u16, i: int) -> bool {
    let st = scan_pixel(states.take(i), step);
    &&& (st.slot is None <==> (forall|j: int| 0 <= j < i ==> !states[j]))
    &&& (i == 0 ==> !st.running)
    &&& (i >= 1 ==> st.running == states[i - 1])
    &&& match st.slot {
        Some(m) => {
            &&& i >= 1
            &&& m.enabled_first_frame == states[0]
            &&& (forall|k1: int, k2: int|
                0 <= k1 < k2 < m.delays.len() ==> m.delays[k1] < m.delays[k2])
            &&& (forall|k: int|
                0 <= k < m.delays.len() ==> (#[trigger] m.delays[k]) % step == 0 && step
                    <= m.delays[k] <= (i - 1) * step)
            &&& st.running == (m.enabled_first_frame != (m.delays.len() % 2 == 1))
            &&& (forall|j: int|
                0 <= j < i ==> replay(m, quantize(j, step)) == #[trigger] states[j])
        },
        None => true,
    }
}

/// The scan invariant holds of every prefix of the frame sequence.
pub proof fn lemma_scan_inv(states: Seq<bool>, step: u16, i: int)
    requires
        1 <= step,
        0 <= i <= states.len(),
        (states.len() - 1) * step <= u16::MAX,
    ensures
        scan_inv(states, step, i),
    decreases i,
{
    if i == 0 {
        assert(states.take(0) =~= Seq::<bool>::empty());
    } else {
        lemma_scan_inv(states, step, i - 1);
        let prev = scan_pixel(states.take(i - 1), step);
        let cur = scan_pixel(states.take(i), step);
        let solid = states[i - 1];
        assert(states.take(i).drop_last() =~= states.take(i - 1));
        assert(states.take(i).last() == states[i - 1]);
        assert(cur == scan_step(prev, solid, i - 1, step));
        assert((i - 1) * step <= (states.len() - 1) * step && (i - 2) * step <= (i - 1) * step)
            by (nonlinear_arith)
            requires
                1 <= i <= states.len(),
                step >= 0,
        ;
        if i >= 2 {
            assert(step <= (i - 1) * step) by (nonlinear_arith)
                requires
                    i >= 2,
                    step >= 1,
            ;
        }
        let q: u16 = quantize(i - 1, step);
        assert(q == (i - 1) * step);
        lemma_mod_multiples_basic(i - 1, step as int);
        assert(forall|j: int|
            0 <= j < i - 1 ==> #[trigger] quantize(j, step) == j * step && j * step < (i - 1)
                * step) by {
            assert forall|j: int| 0 <= j < i - 1 implies #[trigger] quantize(j, step) == j * step
                && j * step < (i - 1) * step by {
                assert(0 <= j * step && j * step < (i - 1) * step) by (nonlinear_arith)
                    requires
                        0 <= j < i - 1,
                        step >= 1,
                ;
            }
        }
        match prev.slot {
            None => {
                if solid {
                    if i - 1 == 0 {
                        let m = cur.slot->Some_0;
                        assert(m.delays =~= Seq::<u16>::empty());
                        assert(flips_through(m.delays, quantize(0, step)) == 0);
                    } else {
                        let m = cur.slot->Some_0;
                        assert(m.delays =~= seq![q]);
                        assert forall|j: int| 0 <= j < i implies replay(m, quantize(j, step))
                            == #[trigger] states[j] by {
                            lemma_flips_single(q, quantize(j, step));
                            if j < i - 1 {
                                assert(quantize(j, step) < q);
                                assert(flips_through(m.delays, quantize(j, step)) == 0);
                            } else {
                                assert(flips_through(m.delays, q) == 1);
                            }
                        }
                    }
                }
            },
            Some(mp) => {
                // a slot, once created, stays; the prefix has a solid frame
                assert(exists|j: int| 0 <= j < i - 1 && states[j]);
                if solid == prev.running {
                    // no transition recorded; extend the replay claim to i - 1
                    let m = cur.slot->Some_0;
                    assert(m == mp);
                    lemma_flips_all(m.delays, q);
                    assert(replay(m, q) == prev.running);
                } else {
                    // a transition is recorded at q
                    let m = cur.slot->Some_0;
                    assert(m.delays == mp.delays.push(q));
                    assert(forall|k: int| 0 <= k < mp.delays.len() ==> mp.delays[k] < q);
                    assert(forall|k: int|
                        0 <= k < m.delays.len() ==> (#[trigger] m.delays[k]) % step == 0
                            && m.delays[k] <= (i - 1) * step);
                    assert forall|j: int| 0 <= j < i implies replay(m, quantize(j, step))
                        == #[trigger] states[j] by {
                        lemma_flips_push(mp.delays, q, quantize(j, step));
                        if j == i - 1 {
                            lemma_flips_all(m.delays, q);
                        }
                    }
                    assert(cur.running == (m.enabled_first_frame != (m.delays.len() % 2 == 1)));
                }
            },
        }
    }
}

/// Alternation invariant: a timeline's recorded timestamps are strictly
/// increasing, and the state the timeline implies right at the k-th recorded
/// timestamp is the first-frame state flipped k + 1 times, so consecutive
/// entries always denote opposite states.
pub proof fn lemma_alternation(states: Seq<bool>, step: u16)
    requires
        1 <= step,
        (states.len() - 1) * step <= u16::MAX,
    ensures
        match scan_pixel(states, step).slot {
            Some(m) => {
                &&& (forall|k1: int, k2: int|
                    0 <= k1 < k2 < m.delays.len() ==> m.delays[k1] < m.delays[k2])
                &&& (forall|k: int|
                    0 <= k < m.delays.len() ==> replay(m, #[trigger] m.delays[k])
                        == (m.enabled_first_frame != ((k + 1) % 2 == 1)))
            },
            None => true,
        },
{
    lemma_scan_inv(states, step, states.len() as int);
    assert(states.take(states.len() as int) =~= states);
    match scan_pixel(states, step).slot {
        Some(m) => {
            assert forall|k: int| 0 <= k < m.delays.len() implies replay(
                m,
                #[trigger] m.delays[k],
            ) == (m.enabled_first_frame != ((k + 1) % 2 == 1)) by {
                lemma_flips_upto(m.delays, k);
            }
        },
        None => {},
    }
}

/// In a strictly increasing sequence, exactly the first k + 1 entries lie at
/// or below the k-th entry.
proof fn lemma_flips_upto(delays: Seq<u16>, k: int)
    requires
        0 <= k < delays.len(),
        forall|k1: int, k2: int| 0 <= k1 < k2 < delays.len() ==> delays[k1] < delays[k2],
    ensures
        flips_through(delays, delays[k]) == k + 1,
    decreases delays.len(),
{
    if k == delays.len() - 1 {
        lemma_flips_all(delays.drop_last(), delays[k]);
    } else {
        lemma_flips_upto(delays.drop_last(), k);
    }
}

/// Quantization: every recorded timestamp is an exact multiple `i * step` of
/// the frame step, for some frame index `1 <= i < frame count` (frame 0
/// never records a transition), and the step times the frame count never
/// exceeds the duration the step was computed from.
pub proof fn lemma_quantization(states: Seq<bool>, total_duration: u16)
    requires
        1 <= states.len() <= u16::MAX,
        step_of(total_duration, states.len() as int) >= 1,
    ensures
        step_of(total_duration, states.len() as int) * states.len() <= total_duration,
        match scan_pixel(states, step_of(total_duration, states.len() as int)).slot {
            Some(m) => forall|k: int|
                0 <= k < m.delays.len() ==> {
                    let step = step_of(total_duration, states.len() as int);
                    (#[trigger] m.delays[k]) % step == 0 && step <= m.delays[k] <= (states.len()
                        - 1) * step
                },
            None => true,
        },
{
    let n = states.len() as int;
    let step = step_of(total_duration, n);
    lemma_fundamental_div_mod(total_duration as int, n);
    assert((n - 1) * step <= n * step) by (nonlinear_arith)
        requires
            n >= 1,
            step >= 0,
    ;
    lemma_scan_inv(states, step, n);
    assert(states.take(n) =~= states);
}

/// Determinism: the grid model is a function of the frames and duration
/// alone, so repeated runs over one frame sequence agree everywhere.
pub proof fn lemma_deterministic(
    frames1: Seq<Frame>,
    frames2: Seq<Frame>,
    total_duration: u16,
    x: int,
    y: int,
)
    requires
        frames1 == frames2,
    ensures
        grid_spec(frames1, step_of(total_duration, frames1.len() as int), x, y) == grid_spec(
            frames2,
            step_of(total_duration, frames2.len() as int),
            x,
            y,
        ),
{
}

/// Round trip: for any time `t` whose nearest frame (by quantization) lies in
/// the animation, the state the timeline implies at `t` equals the state
/// classified in that frame; a pixel with no timeline is solid in no frame.
pub proof fn lemma_round_trip(states: Seq<bool>, step: u16, t: u16)
    requires
        1 <= step,
        (states.len() - 1) * step <= u16::MAX,
        (t as int) / (step as int) < states.len(),
    ensures
        match scan_pixel(states, step).slot {
            Some(m) => replay(m, t) == states[t as int / step as int],
            None => !states[t as int / step as int],
        },
{
    let n = states.len() as int;
    let j = t as int / step as int;
    lemma_fundamental_div_mod(t as int, step as int);
    vstd::arithmetic::div_mod::lemma_mod_bound(t as int, step as int);
    vstd::arithmetic::div_mod::lemma_div_pos_is_pos(t as int, step as int);
    let r = (t as int) % (step as int);
    assert(t == step * j + r);
    assert(0 <= j && j * step <= t && t < (j + 1) * step) by (nonlinear_arith)
        requires
            t as int == step * j + r,
            0 <= r < step as int,
            0 <= j,
    ;
    lemma_scan_inv(states, step, n);
    assert(states.take(n) =~= states);
    match scan_pixel(states, step).slot {
        Some(m) => {
            assert(replay(m, quantize(j, step)) == states[j]);
            assert(quantize(j, step) == j * step);
            lemma_mod_multiples_basic(j, step as int);
            lemma_flips_between(m.delays, step, (j * step) as u16, t);
        },
        None => {},
    }
}

/// Alternation at the grid level: every timeline the grid records has
/// strictly increasing timestamps that flip the state once each.
pub proof fn lemma_grid_alternation(frames: Seq<Frame>, half: u16, x: int, y: int)
    requires
        1 <= frames.len() <= u16::MAX,
        step_of(half, frames.len() as int) >= 1,
    ensures
        match grid_spec(frames, step_of(half, frames.len() as int), x, y) {
            Some(m) => {
                &&& (forall|k1: int, k2: int|
                    0 <= k1 < k2 < m.delays.len() ==> m.delays[k1] < m.delays[k2])
                &&& (forall|k: int|
                    0 <= k < m.delays.len() ==> replay(m, #[trigger] m.delays[k])
                        == (m.enabled_first_frame != ((k + 1) % 2 == 1)))
            },
            None => true,
        },
{
    let n = frames.len() as int;
    let step = step_of(half, n);
    lemma_fundamental_div_mod(half as int, n);
    assert((n - 1) * step <= n * step) by (nonlinear_arith)
        requires
            n >= 1,
            step >= 0,
    ;
    lemma_alternation(states_of(frames, x, y), step);
}

/// Round trip at the grid level: for any time `t` whose quantized frame
/// index lies in the animation, replaying the timeline recorded at `(x, y)`
/// yields exactly the solid state classified in that frame, and a coordinate
/// with no timeline is solid in no frame the quantization can reach.
pub proof fn lemma_grid_round_trip(frames: Seq<Frame>, half: u16, x: int, y: int, t: u16)
    requires
        1 <= frames.len() <= u16::MAX,
        step_of(half, frames.len() as int) >= 1,
        (t as int) / (step_of(half, frames.len() as int) as int) < frames.len(),
    ensures
        ({
            let step = step_of(half, frames.len() as int);
            let j = (t as int) / (step as int);
            match grid_spec(frames, step, x, y) {
                Some(m) => replay(m, t) == is_solid_spec(frames[j].pixels@[y]@[x]),
                None => !is_solid_spec(frames[j].pixels@[y]@[x]),
            }
        }),
{
    let n = frames.len() as int;
    let step = step_of(half, n);
    lemma_fundamental_div_mod(half as int, n);
    assert((n - 1) * step <= n * step) by (nonlinear_arith)
        requires
            n >= 1,
            step >= 0,
    ;
    lemma_round_trip(states_of(frames, x, y), step, t);
}

/// Two times between the same pair of adjacent step multiples see the same
/// set of recorded transitions.
proof fn lemma_flips_between(delays: Seq<u16>, step: u16, a: u16, b: u16)
    requires
        1 <= step,
        a <= b,
        a % step == 0,
        b < a + step,
        forall|k: int| 0 <= k < delays.len() ==> (#[trigger] delays[k]) % step == 0,
    ensures
        flips_through(delays, a) == flips_through(delays, b),
    decreases delays.len(),
{
    if delays.len() > 0 {
        lemma_flips_between(delays.drop_last(), step, a, b);
        let d = delays.last();
        assert(d % step == 0);
        if d <= b && !(d <= a) {
            assert(false) by (nonlinear_arith)
                requires
                    d % step == 0,
                    a % step == 0,
                    step >= 1,
                    a < d,
                    d <= b,
                    b < a + step,
            ;
        }
    }
}

} // verus!
