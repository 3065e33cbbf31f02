//! Event synthesis: each pixel timeline becomes one object with a nested
//! periodic trigger per recorded transition, alternating between the visible
//! position and a fixed hidden offset position.

use vstd::prelude::*;

use crate::timeline::{PixelTimeline, TimelineModel};

verus! {

/// Horizontal displacement of the hidden anchor: larger than any plausible
/// scene width, so a hidden pixel never intersects visible content.
pub const OFFSCREEN_OFFSET: u32 = 800;

/// Units per source pixel in the target encoding.
pub const PIXEL_SCALE: u32 = 4;

/// The two positions a pixel object teleports between.
#[derive(Clone, Copy, PartialEq, Eq, Structural, Debug)]
pub enum Anchor {
    Visible,
    Hidden,
}

/// The anchor targeted by the transition at `index` (0-based): the starting
/// parity is 0 if the pixel begins visible and 1 otherwise, and an even
/// `index + parity` hides the pixel, so each successive transition flips the
/// anchor and the first one moves opposite to the initial placement.
pub open spec fn anchor_for_spec(index: int, parity: int) -> Anchor {
    if (index + parity) % 2 == 0 {
        Anchor::Hidden
    } else {
        Anchor::Visible
    }
}

/// Picks the anchor for one recorded transition.
pub fn anchor_for(index: usize, parity: usize) -> (a: Anchor)
    requires
        index < usize::MAX,
        parity <= 1,
    ensures
        a == anchor_for_spec(index as int, parity as int),
{
    if (index + parity) % 2 == 0 {
        Anchor::Hidden
    } else {
        Anchor::Visible
    }
}

/// The horizontal position of an anchor for a pixel whose visible position
/// starts at `x`.
pub open spec fn anchor_x_spec(x: u32, a: Anchor) -> u32 {
    match a {
        Anchor::Hidden => (x + OFFSCREEN_OFFSET) as u32,
        Anchor::Visible => x,
    }
}

/// One periodic trigger: fires at phase `offset` within each repetition of
/// `period`, teleporting its object to `(target_x, target_y)`.
#[derive(Clone, Copy, PartialEq, Eq, Structural, Debug)]
pub struct TriggerEvent {
    pub offset: u16,
    pub period: u16,
    pub target_x: u32,
    pub target_y: u32,
}

/// One synthesized pixel object: its initial position and the triggers that
/// replay its timeline.
#[derive(PartialEq, Eq, Debug)]
pub struct PixelObject {
    pub x: u32,
    pub y: u32,
    pub events: Vec<TriggerEvent>,
}

/// Mathematical model of a synthesized object.
pub struct ObjectModel {
    pub x: u32,
    pub y: u32,
    pub events: Seq<TriggerEvent>,
}

/// The triggers owed to a timeline whose visible position is `(x, y)`: first
/// a resync trigger at offset 0 targeting the starting anchor, then one
/// trigger per recorded transition, targeting alternating anchors.
pub open spec fn events_model(x: u32, y: u32, enabled: bool, delays: Seq<u16>, period: u16) -> Seq<
    TriggerEvent,
> {
    let parity: int = if enabled {
        0
    } else {
        1
    };
    Seq::new(
        delays.len() + 1,
        |k: int|
            if k == 0 {
                TriggerEvent {
                    offset: 0,
                    period,
                    target_x: if enabled {
                        x
                    } else {
                        (x + OFFSCREEN_OFFSET) as u32
                    },
                    target_y: y,
                }
            } else {
                TriggerEvent {
                    offset: delays[k - 1],
                    period,
                    target_x: anchor_x_spec(x, anchor_for_spec(k - 1, parity)),
                    target_y: y,
                }
            },
    )
}

/// The object owed to the timeline of source pixel `(px, py)`: placed at the
/// visible anchor if solid in frame 0 and at the hidden anchor otherwise,
/// with the timeline's triggers.
pub open spec fn object_model(px: int, py: int, m: TimelineModel, period: u16) -> ObjectModel {
    let sx = (PIXEL_SCALE * px) as u32;
    let sy = (PIXEL_SCALE * py) as u32;
    ObjectModel {
        x: if m.enabled_first_frame {
            sx
        } else {
            (sx + OFFSCREEN_OFFSET) as u32
        },
        y: sy,
        events: events_model(sx, sy, m.enabled_first_frame, m.delays, period),
    }
}

/// An executable object agrees with a model object.
pub open spec fn object_matches(o: PixelObject, m: ObjectModel) -> bool {
    o.x == m.x && o.y == m.y && o.events@ == m.events
}

/// Synthesizes the trigger list for one timeline; `x` and `y` are the
/// already-scaled visible position.
pub fn generate_events(x: u32, y: u32, t: &PixelTimeline, total_duration: u16) -> (events: Vec<
    TriggerEvent,
>)
    requires
        x + OFFSCREEN_OFFSET <= u32::MAX,
    ensures
        events@ == events_model(x, y, t.enabled_first_frame, t.delays@, total_duration),
{
    let ghost model = events_model(x, y, t.enabled_first_frame, t.delays@, total_duration);
    let mut events: Vec<TriggerEvent> = Vec::new();
    let resync_x = if t.enabled_first_frame {
        x
    } else {
        x + OFFSCREEN_OFFSET
    };
    events.push(
        TriggerEvent { offset: 0, period: total_duration, target_x: resync_x, target_y: y },
    );
    let parity: usize = if t.enabled_first_frame {
        0
    } else {
        1
    };
    let n = t.delays.len();
    for k in 0..n
        invariant
            n == t.delays@.len(),
            x + OFFSCREEN_OFFSET <= u32::MAX,
            parity == (if t.enabled_first_frame {
                0int
            } else {
                1int
            }),
            model == events_model(x, y, t.enabled_first_frame, t.delays@, total_duration),
            events@.len() == k + 1,
            forall|j: int| 0 <= j <= k ==> events@[j] == model[j],
    {
        let anchor = anchor_for(k, parity);
        let target_x = match anchor {
            Anchor::Hidden => x + OFFSCREEN_OFFSET,
            Anchor::Visible => x,
        };
        events.push(
            TriggerEvent {
                offset: t.delays[k],
                period: total_duration,
                target_x,
                target_y: y,
            },
        );
    }
    proof {
        assert(events@ =~= model);
    }
    events
}

/// Synthesizes the object for the timeline of source pixel `(px, py)`.
pub fn generate_pixel(px: u32, py: u32, t: &PixelTimeline, total_duration: u16) -> (o: PixelObject)
    requires
        px <= u16::MAX,
        py <= u16::MAX,
    ensures
        object_matches(
            o,
            object_model(
                px as int,
                py as int,
                TimelineModel { enabled_first_frame: t.enabled_first_frame, delays: t.delays@ },
                total_duration,
            ),
        ),
{
    let x = px * PIXEL_SCALE;
    let y = py * PIXEL_SCALE;
    let x_offset = if t.enabled_first_frame {
        0
    } else {
        OFFSCREEN_OFFSET
    };
    let events = generate_events(x, y, t, total_duration);
    PixelObject { x: x + x_offset, y, events }
}

/// Anchor parity: a pixel solid in frame 0 has its first recorded transition
/// target the hidden anchor; a pixel not solid in frame 0 is initially placed
/// at the hidden anchor and its resync trigger, at offset 0, targets the
/// hidden anchor as well.
pub proof fn lemma_anchor_parity(px: int, py: int, m: TimelineModel, period: u16)
    requires
        0 <= px <= u16::MAX,
        0 <= py <= u16::MAX,
    ensures
        m.enabled_first_frame && m.delays.len() >= 1 ==> object_model(
            px,
            py,
            m,
            period,
        ).events[1].target_x == PIXEL_SCALE * px + OFFSCREEN_OFFSET,
        !m.enabled_first_frame ==> {
            let o = object_model(px, py, m, period);
            &&& o.x == PIXEL_SCALE * px + OFFSCREEN_OFFSET
            &&& o.events[0].offset == 0
            &&& o.events[0].target_x == PIXEL_SCALE * px + OFFSCREEN_OFFSET
        },
{
}

} // verus!
