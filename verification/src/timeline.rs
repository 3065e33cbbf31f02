//! Timeline building: scans all frames in order and compresses, per pixel
//! coordinate, the solid/transparent history into a flag for "solid in the
//! first frame" plus an ordered list of transition timestamps, each a multiple
//! of the quantized frame step.

use vstd::prelude::*;

use crate::frame::{frames_wf, Frame};
use crate::pixel::{is_solid, is_solid_spec};
use vstd::arithmetic::div_mod::lemma_fundamental_div_mod;

verus! {

/// Per-pixel record: whether the pixel is solid in frame 0, and the ordered
/// timestamps at which its solid/transparent state flips.
pub struct PixelTimeline {
    pub enabled_first_frame: bool,
    pub delays: Vec<u16>,
}

/// Mathematical model of a pixel timeline.
pub struct TimelineModel {
    pub enabled_first_frame: bool,
    pub delays: Seq<u16>,
}

/// State of the per-pixel scan after some prefix of the frames: the timeline
/// recorded so far (absent while the pixel has never been solid) and whether
/// the pixel was solid in the frame just processed.
pub struct ScanState {
    pub slot: Option<TimelineModel>,
    pub running: bool,
}

/// The quantized timestamp assigned to frame `index`.
pub open spec fn quantize(index: int, step: u16) -> u16 {
    (index * step) as u16
}

/// How one classified frame advances the per-pixel scan: a transition is
/// recorded only when the classified state differs from the running state,
/// and a timeline is created the first time the pixel is solid.
pub open spec fn scan_step(st: ScanState, solid: bool, index: int, step: u16) -> ScanState {
    if solid {
        match st.slot {
            Some(t) => {
                if !st.running {
                    ScanState {
                        slot: Some(
                            TimelineModel {
                                enabled_first_frame: t.enabled_first_frame,
                                delays: t.delays.push(quantize(index, step)),
                            },
                        ),
                        running: true,
                    }
                } else {
                    st
                }
            },
            None => {
                if index == 0 {
                    ScanState {
                        slot: Some(TimelineModel { enabled_first_frame: true, delays: seq![] }),
                        running: true,
                    }
                } else {
                    ScanState {
                        slot: Some(
                            TimelineModel {
                                enabled_first_frame: false,
                                delays: seq![quantize(index, step)],
                            },
                        ),
                        running: true,
                    }
                }
            },
        }
    } else {
        match st.slot {
            Some(t) => {
                if st.running {
                    ScanState {
                        slot: Some(
                            TimelineModel {
                                enabled_first_frame: t.enabled_first_frame,
                                delays: t.delays.push(quantize(index, step)),
                            },
                        ),
                        running: false,
                    }
                } else {
                    st
                }
            },
            None => st,
        }
    }
}

/// The scan state after processing a whole sequence of per-frame solid
/// states for one pixel.
pub open spec fn scan_pixel(states: Seq<bool>, step: u16) -> ScanState
    decreases states.len(),
{
    if states.len() == 0 {
        ScanState { slot: None, running: false }
    } else {
        scan_step(scan_pixel(states.drop_last(), step), states.last(), states.len() - 1, step)
    }
}

/// The per-frame solid states of the pixel at `(x, y)`.
pub open spec fn states_of(frames: Seq<Frame>, x: int, y: int) -> Seq<bool> {
    Seq::new(frames.len(), |i: int| is_solid_spec(frames[i].pixels@[y]@[x]))
}

/// The frame step: the quantized time distance between adjacent frame
/// indices (integer division, truncating).
pub open spec fn step_of(total_duration: u16, frame_count: int) -> u16 {
    (total_duration as int / frame_count) as u16
}

/// What the grid holds at `(x, y)` once every frame has been processed.
pub open spec fn grid_spec(frames: Seq<Frame>, step: u16, x: int, y: int) -> Option<
    TimelineModel,
> {
    scan_pixel(states_of(frames, x, y), step).slot
}

/// An executable grid slot agrees with a model slot.
pub open spec fn slot_matches(slot: Option<PixelTimeline>, model: Option<TimelineModel>) -> bool {
    match slot {
        None => model is None,
        Some(t) => match model {
            Some(m) => t.enabled_first_frame == m.enabled_first_frame && t.delays@ == m.delays,
            None => false,
        },
    }
}

/// An executable slot together with the transient running state agree with a
/// scan state.
pub open spec fn state_matches(slot: Option<PixelTimeline>, running: bool, st: ScanState) -> bool {
    running == st.running && slot_matches(slot, st.slot)
}

/// Scans all frames for the pixel at `(x, y)` and returns its timeline, or
/// `None` if the pixel is never solid.
pub fn build_timeline(frames: &Vec<Frame>, x: usize, y: usize, step: u16) -> (slot: Option<
    PixelTimeline,
>)
    requires
        frames_wf(frames@),
        1 <= frames@.len() <= u16::MAX,
        x < frames@[0].width,
        y < frames@[0].height,
        (frames@.len() - 1) * step <= u16::MAX,
    ensures
        slot_matches(slot, grid_spec(frames@, step, x as int, y as int)),
{
    let ghost states = states_of(frames@, x as int, y as int);
    let n = frames.len();
    let mut slot: Option<PixelTimeline> = None;
    let mut running: bool = false;
    for i in 0..n
        invariant
            frames_wf(frames@),
            n == frames@.len(),
            1 <= n <= u16::MAX,
            x < frames@[0].width,
            y < frames@[0].height,
            (n - 1) * step <= u16::MAX,
            states == states_of(frames@, x as int, y as int),
            state_matches(slot, running, scan_pixel(states.take(i as int), step)),
    {
        proof {
            assert(states.take(i + 1).drop_last() =~= states.take(i as int));
            assert(states.take(i + 1).last() == states[i as int]);
            assert(i * step <= (n - 1) * step) by (nonlinear_arith)
                requires
                    i <= n - 1,
                    step >= 0,
            ;
        }
        let solid = is_solid(frames[i].pixels[y][x]);
        let ts: u16 = (i as u16) * step;
        if solid {
            match slot {
                None => {
                    if i == 0 {
                        slot = Some(PixelTimeline { enabled_first_frame: true, delays: Vec::new() });
                    } else {
                        let mut delays: Vec<u16> = Vec::new();
                        delays.push(ts);
                        slot = Some(PixelTimeline { enabled_first_frame: false, delays });
                    }
                    running = true;
                },
                Some(mut t) => {
                    if !running {
                        t.delays.push(ts);
                        running = true;
                    }
                    slot = Some(t);
                },
            }
        } else {
            match slot {
                Some(mut t) => {
                    if running {
                        t.delays.push(ts);
                        running = false;
                    }
                    slot = Some(t);
                },
                None => {
                    slot = None;
                },
            }
        }
    }
    proof {
        assert(states.take(n as int) =~= states);
    }
    slot
}

/// Builds the grid: one timeline slot per pixel coordinate of the first
/// frame's dimensions, each the run-length compression of that pixel's
/// classified history. `total_duration` is the already-halved duration.
pub fn build_grid(frames: &Vec<Frame>, total_duration: u16) -> (grid: Vec<
    Vec<Option<PixelTimeline>>,
>)
    requires
        frames_wf(frames@),
        1 <= frames@.len() <= u16::MAX,
    ensures
        grid@.len() == frames@[0].height,
        forall|y: int| 0 <= y < grid@.len() ==> (#[trigger] grid@[y])@.len() == frames@[0].width,
        forall|y: int, x: int|
            0 <= y < frames@[0].height && 0 <= x < frames@[0].width ==> slot_matches(
                #[trigger] grid@[y]@[x],
                grid_spec(frames@, step_of(total_duration, frames@.len() as int), x, y),
            ),
{
    let n = frames.len();
    let step: u16 = total_duration / (n as u16);
    proof {
        lemma_fundamental_div_mod(total_duration as int, n as int);
        assert((n - 1) * step <= n * step) by (nonlinear_arith)
            requires
                step >= 0,
                n >= 1,
        ;
    }
    let width = frames[0].width;
    let height = frames[0].height;
    let mut grid: Vec<Vec<Option<PixelTimeline>>> = Vec::new();
    for y in 0..height
        invariant
            frames_wf(frames@),
            1 <= n <= u16::MAX,
            n == frames@.len(),
            width == frames@[0].width,
            height == frames@[0].height,
            step == step_of(total_duration, n as int),
            (n - 1) * step <= u16::MAX,
            grid@.len() == y,
            forall|yy: int| 0 <= yy < y ==> (#[trigger] grid@[yy])@.len() == width,
            forall|yy: int, x: int|
                0 <= yy < y && 0 <= x < width ==> slot_matches(
                    #[trigger] grid@[yy]@[x],
                    grid_spec(frames@, step, x, yy),
                ),
    {
        let mut row: Vec<Option<PixelTimeline>> = Vec::new();
        for x in 0..width
            invariant
                frames_wf(frames@),
                1 <= n <= u16::MAX,
                n == frames@.len(),
                width == frames@[0].width,
                height == frames@[0].height,
                y < height,
                (n - 1) * step <= u16::MAX,
                row@.len() == x,
                forall|xx: int|
                    0 <= xx < x ==> slot_matches(
                        #[trigger] row@[xx],
                        grid_spec(frames@, step, xx, y as int),
                    ),
        {
            let slot = build_timeline(frames, x, y, step);
            row.push(slot);
        }
        grid.push(row);
    }
    grid
}

} // verus!
