//! The whole pipeline: classify every frame, build the timeline grid,
//! synthesize one object per animated pixel, and assemble the output level.

use vstd::prelude::*;

use crate::decimal::{dec_str, u32_decimal};
use crate::events::{
    generate_pixel, object_matches, object_model, ObjectModel, PixelObject, TriggerEvent,
};
use crate::frame::{frame_wf, frames_wf, Frame};
use crate::iwb::{
    event_view, level_view, mk_event, mk_object, mk_param, new_level, object_view, param_view,
    push_object, EventView, LevelView, ObjectView, ParamView,
};
use crate::timeline::{build_grid, grid_spec, step_of, PixelTimeline};

verus! {

/// Object type identifier of a unit-sized pixel sprite.
pub const PIXEL_OBJECT_TYPE: u16 = 24;

/// Event identifier of a periodic trigger.
pub const TRIGGER_EVENT_ID: u16 = 17;

/// Event identifier of a set-absolute-position action.
pub const SET_POSITION_EVENT_ID: u16 = 122;

/// Background color encoding of the generated level.
pub const BLACK_BG: &'static str = "5A02000006000000050000000000000000000000000000000000000000000000000000000000000000000000000000000000000058B72CF87A2AD23F00000000000000000000000000000000000000000000000000000000000000000000000000000000000000000000000000000000000000000000000000000000000000000000000000000000000000000000F03F00000000000000000000F0BF00000000000000000000000000000000000000000000F03F000000000000000000000000000000000000000000000000000000000000000000000000000000000000000000000000000000000000000000000000000000000000000000000000000000000000000000000000000000000000000000000000000000000000000000000000000000000000000000000000000000000000000000000000000000000000000000000000000000000000000000000000000000000000000000000000000000000000000000000000000000000000000000000000";

/// Malformed-input failures of the pipeline.
#[derive(Clone, Copy, PartialEq, Eq, Structural, Debug)]
pub enum GifError {
    /// The animation has no frames.
    NoFrames,
    /// A frame's dimensions disagree with the first frame's, or a frame's
    /// pixel grid does not fill its stated dimensions.
    MismatchedDimensions,
    /// The halved total duration is zero, so no frame step can be assigned.
    ZeroDuration,
}

/// The inputs on which the pipeline succeeds.
pub open spec fn pipeline_ok(total_duration: u16, frames: Seq<Frame>) -> bool {
    &&& frames.len() >= 1
    &&& frames_wf(frames)
    &&& total_duration / 2 >= 1
}

/// The error owed to a malformed input, checked in this order: no frames,
/// inconsistent dimensions, zero halved duration.
pub open spec fn pipeline_error(total_duration: u16, frames: Seq<Frame>) -> GifError {
    if frames.len() == 0 {
        GifError::NoFrames
    } else if !frames_wf(frames) {
        GifError::MismatchedDimensions
    } else {
        GifError::ZeroDuration
    }
}

/// An executable object list agrees element-wise with a model list.
pub open spec fn objects_match_seq(objs: Seq<PixelObject>, models: Seq<ObjectModel>) -> bool {
    objs.len() == models.len() && forall|k: int|
        0 <= k < objs.len() ==> object_matches(#[trigger] objs[k], models[k])
}

/// The objects owed to row `y`, for pixel columns `[0, w)` in order: one per
/// coordinate whose timeline exists.
pub open spec fn row_objects_spec(
    frames: Seq<Frame>,
    step: u16,
    period: u16,
    y: int,
    w: int,
) -> Seq<ObjectModel>
    decreases w,
{
    if w <= 0 {
        seq![]
    } else {
        row_objects_spec(frames, step, period, y, w - 1) + match grid_spec(
            frames,
            step,
            w - 1,
            y,
        ) {
            Some(m) => seq![object_model(w - 1, y, m, period)],
            None => seq![],
        }
    }
}

/// The objects owed to pixel rows `[0, h)` in order, each row's objects in
/// column order.
pub open spec fn objects_spec(
    frames: Seq<Frame>,
    step: u16,
    period: u16,
    h: int,
    w: int,
) -> Seq<ObjectModel>
    decreases h,
{
    if h <= 0 {
        seq![]
    } else {
        objects_spec(frames, step, period, h - 1, w) + row_objects_spec(
            frames,
            step,
            period,
            h - 1,
            w,
        )
    }
}

/// Determinism: the synthesized objects are a function of the input alone,
/// so any two runs over one frame sequence yield objects that agree field by
/// field, events included.
pub proof fn lemma_pipeline_deterministic(
    objs1: Seq<PixelObject>,
    objs2: Seq<PixelObject>,
    models: Seq<ObjectModel>,
)
    requires
        objects_match_seq(objs1, models),
        objects_match_seq(objs2, models),
    ensures
        objs1.len() == objs2.len(),
        forall|k: int|
            0 <= k < objs1.len() ==> (#[trigger] objs1[k]).x == objs2[k].x && objs1[k].y
                == objs2[k].y && objs1[k].events@ == objs2[k].events@,
{
}

/// Checks that every frame is well formed and shares the first frame's
/// dimensions.
pub fn frames_consistent(frames: &Vec<Frame>) -> (ok: bool)
    ensures
        ok == frames_wf(frames@),
{
    let n = frames.len();
    if n == 0 {
        return true;
    }
    let w0 = frames[0].width;
    let h0 = frames[0].height;
    for i in 0..n
        invariant
            n == frames@.len(),
            n >= 1,
            w0 == frames@[0].width,
            h0 == frames@[0].height,
            forall|j: int|
                0 <= j < i ==> {
                    &&& frame_wf(#[trigger] frames@[j])
                    &&& frames@[j].width == w0
                    &&& frames@[j].height == h0
                },
    {
        let f = &frames[i];
        if f.width != w0 || f.height != h0 || f.pixels.len() != f.height {
            return false;
        }
        let rows = f.pixels.len();
        for y in 0..rows
            invariant
                n == frames@.len(),
                i < n,
                rows == frames@[i as int].pixels@.len(),
                rows == frames@[i as int].height,
                frames@[i as int].width == w0,
                forall|yy: int|
                    0 <= yy < y ==> (#[trigger] frames@[i as int].pixels@[yy])@.len()
                        == frames@[i as int].width,
        {
            if frames[i].pixels[y].len() != w0 {
                return false;
            }
        }
    }
    true
}

/// Runs the whole temporal encoding over already-decoded frames: halves the
/// duration, builds the timeline grid, and synthesizes one object per
/// animated pixel, rows outermost. `total_duration` is the un-halved sum of
/// frame durations.
pub fn build_pixel_objects(total_duration: u16, frames: &Vec<Frame>) -> (r: Result<
    Vec<PixelObject>,
    GifError,
>)
    requires
        frames@.len() <= u16::MAX,
        frames@.len() >= 1 ==> frames@[0].width <= u16::MAX && frames@[0].height <= u16::MAX,
    ensures
        match r {
            Ok(objs) => pipeline_ok(total_duration, frames@) && objects_match_seq(
                objs@,
                objects_spec(
                    frames@,
                    step_of((total_duration / 2) as u16, frames@.len() as int),
                    (total_duration / 2) as u16,
                    frames@[0].height as int,
                    frames@[0].width as int,
                ),
            ),
            Err(e) => !pipeline_ok(total_duration, frames@) && e == pipeline_error(
                total_duration,
                frames@,
            ),
        },
{
    if frames.len() == 0 {
        return Err(GifError::NoFrames);
    }
    if !frames_consistent(frames) {
        return Err(GifError::MismatchedDimensions);
    }
    let half: u16 = total_duration / 2;
    if half == 0 {
        return Err(GifError::ZeroDuration);
    }
    let ghost step = step_of(half, frames@.len() as int);
    let grid = build_grid(frames, half);
    let width = frames[0].width;
    let height = frames[0].height;
    let mut objs: Vec<PixelObject> = Vec::new();
    for y in 0..height
        invariant
            frames_wf(frames@),
            1 <= frames@.len() <= u16::MAX,
            width == frames@[0].width,
            height == frames@[0].height,
            width <= u16::MAX,
            height <= u16::MAX,
            grid@.len() == height,
            forall|yy: int| 0 <= yy < height ==> (#[trigger] grid@[yy])@.len() == width,
            forall|yy: int, x: int|
                0 <= yy < height && 0 <= x < width ==> crate::timeline::slot_matches(
                    #[trigger] grid@[yy]@[x],
                    grid_spec(frames@, step, x, yy),
                ),
            step == step_of(half, frames@.len() as int),
            objects_match_seq(objs@, objects_spec(frames@, step, half, y as int, width as int)),
    {
        for x in 0..width
            invariant
                frames_wf(frames@),
                1 <= frames@.len() <= u16::MAX,
                width == frames@[0].width,
                height == frames@[0].height,
                width <= u16::MAX,
                height <= u16::MAX,
                y < height,
                grid@.len() == height,
                forall|yy: int| 0 <= yy < height ==> (#[trigger] grid@[yy])@.len() == width,
                forall|yy: int, xx: int|
                    0 <= yy < height && 0 <= xx < width ==> crate::timeline::slot_matches(
                        #[trigger] grid@[yy]@[xx],
                        grid_spec(frames@, step, xx, yy),
                    ),
                step == step_of(half, frames@.len() as int),
                objects_match_seq(
                    objs@,
                    objects_spec(frames@, step, half, y as int, width as int)
                        + row_objects_spec(frames@, step, half, y as int, x as int),
                ),
        {
            let slot: &Option<PixelTimeline> = &grid[y][x];
            let ghost done = objects_spec(frames@, step, half, y as int, width as int)
                + row_objects_spec(frames@, step, half, y as int, x as int);
            match slot {
                Some(t) => {
                    let o = generate_pixel(x as u32, y as u32, t, half);
                    objs.push(o);
                    proof {
                        let m = grid_spec(frames@, step, x as int, y as int)->Some_0;
                        let next = objects_spec(frames@, step, half, y as int, width as int)
                            + row_objects_spec(frames@, step, half, y as int, x as int + 1);
                        assert(next =~= done + seq![object_model(x as int, y as int, m, half)]);
                    }
                },
                None => {
                    proof {
                        let next = objects_spec(frames@, step, half, y as int, width as int)
                            + row_objects_spec(frames@, step, half, y as int, x as int + 1);
                        assert(next =~= done);
                    }
                },
            }
        }
        proof {
            assert(objects_spec(frames@, step, half, y as int + 1, width as int) =~= objects_spec(
                frames@,
                step,
                half,
                y as int,
                width as int,
            ) + row_objects_spec(frames@, step, half, y as int, width as int));
        }
    }
    Ok(objs)
}

/// The rendered set-absolute-position action event: id 122, fixed speed and
/// axis parameters, the target coordinates as decimal strings, no children.
pub open spec fn move_event_view(x: u32, y: u32) -> EventView {
    EventView {
        id: SET_POSITION_EVENT_ID,
        params: seq![
            (ParamView { key: "speed"@, value: "5000"@ }),
            (ParamView { key: "position_y"@, value: dec_str(y as nat) }),
            (ParamView { key: "set_position"@, value: "0"@ }),
            (ParamView { key: "axis"@, value: "3"@ }),
            (ParamView { key: "position_x"@, value: dec_str(x as nat) }),
        ],
        nested_events: seq![],
    }
}

/// The rendered periodic trigger event: id 17, its phase offset and repeat
/// period as decimal strings, and exactly one nested move action.
pub open spec fn trigger_event_view(t: TriggerEvent) -> EventView {
    EventView {
        id: TRIGGER_EVENT_ID,
        params: seq![
            (ParamView { key: "offset"@, value: dec_str(t.offset as nat) }),
            (ParamView { key: "frames"@, value: dec_str(t.period as nat) }),
        ],
        nested_events: seq![move_event_view(t.target_x, t.target_y)],
    }
}

/// The rendered pixel sprite object: type 24 at `(x, y)`, no rotation, slot
/// or nested object, the four fixed parameters, and one rendered trigger per
/// model trigger.
pub open spec fn pixel_object_view(x: u32, y: u32, events: Seq<TriggerEvent>) -> ObjectView {
    ObjectView {
        type_id: PIXEL_OBJECT_TYPE,
        x,
        y,
        has_rotation: false,
        has_slot: false,
        has_nested_object: false,
        params: seq![
            (ParamView { key: "blend_color"@, value: "0"@ }),
            (ParamView { key: "scale"@, value: "0.2"@ }),
            (ParamView { key: "layer"@, value: "4"@ }),
            (ParamView { key: "tileset"@, value: "0"@ }),
        ],
        events: events.map_values(|t: TriggerEvent| trigger_event_view(t)),
    }
}

/// Emits one set-absolute-position action event.
fn emit_move(x: u32, y: u32) -> (e: i_wanna_build::map::Event)
    ensures
        event_view(e) == move_event_view(x, y),
{
    let mut params: Vec<i_wanna_build::map::Param> = Vec::new();
    params.push(mk_param("speed", "5000"));
    let ys = u32_decimal(y);
    params.push(mk_param("position_y", ys.as_str()));
    params.push(mk_param("set_position", "0"));
    params.push(mk_param("axis", "3"));
    let xs = u32_decimal(x);
    params.push(mk_param("position_x", xs.as_str()));
    let e = mk_event(SET_POSITION_EVENT_ID, params, Vec::new());
    proof {
        assert(params@.map_values(|p: i_wanna_build::map::Param| param_view(p)) =~= move_event_view(
            x,
            y,
        ).params);
        assert(Seq::<i_wanna_build::map::Event>::empty().map_values(
            |n: i_wanna_build::map::Event| event_view(n),
        ) =~= Seq::<EventView>::empty());
        assert(event_view(e) =~= move_event_view(x, y));
    }
    e
}

/// Emits one periodic trigger event whose single nested action teleports the
/// object to the trigger's target anchor.
fn emit_trigger(t: &TriggerEvent) -> (e: i_wanna_build::map::Event)
    ensures
        event_view(e) == trigger_event_view(*t),
{
    let mut params: Vec<i_wanna_build::map::Param> = Vec::new();
    let off = u32_decimal(t.offset as u32);
    params.push(mk_param("offset", off.as_str()));
    let per = u32_decimal(t.period as u32);
    params.push(mk_param("frames", per.as_str()));
    let mut nested: Vec<i_wanna_build::map::Event> = Vec::new();
    nested.push(emit_move(t.target_x, t.target_y));
    let e = mk_event(TRIGGER_EVENT_ID, params, nested);
    proof {
        assert(params@.map_values(|p: i_wanna_build::map::Param| param_view(p))
            =~= trigger_event_view(*t).params);
        assert(nested@.map_values(|n: i_wanna_build::map::Event| event_view(n))
            =~= trigger_event_view(*t).nested_events);
        assert(event_view(e) =~= trigger_event_view(*t));
    }
    e
}

/// Emits one pixel sprite object with its trigger events.
fn emit_object(o: &PixelObject) -> (obj: i_wanna_build::map::Object)
    ensures
        object_view(obj) == pixel_object_view(o.x, o.y, o.events@),
{
    let mut params: Vec<i_wanna_build::map::Param> = Vec::new();
    params.push(mk_param("blend_color", "0"));
    params.push(mk_param("scale", "0.2"));
    params.push(mk_param("layer", "4"));
    params.push(mk_param("tileset", "0"));
    let mut events: Vec<i_wanna_build::map::Event> = Vec::new();
    let n = o.events.len();
    for k in 0..n
        invariant
            n == o.events.len(),
            events@.len() == k,
            forall|j: int|
                0 <= j < k ==> event_view(#[trigger] events@[j]) == trigger_event_view(
                    o.events@[j],
                ),
    {
        events.push(emit_trigger(&o.events[k]));
    }
    let obj = mk_object(PIXEL_OBJECT_TYPE, o.x, o.y, params, events);
    proof {
        assert(params@.map_values(|p: i_wanna_build::map::Param| param_view(p))
            =~= pixel_object_view(o.x, o.y, o.events@).params);
        assert(events@.map_values(|e: i_wanna_build::map::Event| event_view(e)) =~= o.events@
            .map_values(|t: TriggerEvent| trigger_event_view(t)));
        assert(object_view(obj) =~= pixel_object_view(o.x, o.y, o.events@));
    }
    obj
}

/// What the assembled level owes to a model object list: the fixed name,
/// one map, the black background encoding, and the rendered objects in
/// model order.
pub open spec fn rendered_level(lv: LevelView, models: Seq<ObjectModel>) -> bool {
    &&& lv.name == "generated gif"@
    &&& lv.map_count == 1
    &&& lv.colors == BLACK_BG@
    &&& lv.objects.len() == models.len()
    &&& forall|k: int|
        0 <= k < models.len() ==> lv.objects[k] == pixel_object_view(
            (#[trigger] models[k]).x,
            models[k].y,
            models[k].events,
        )
}

/// Determinism at the container level: any two levels rendered from one
/// model object list agree on everything the level view describes, so they
/// serialize identically.
pub proof fn lemma_level_deterministic(lv1: LevelView, lv2: LevelView, models: Seq<ObjectModel>)
    requires
        rendered_level(lv1, models),
        rendered_level(lv2, models),
    ensures
        lv1 == lv2,
{
    assert forall|k: int| 0 <= k < lv1.objects.len() implies lv1.objects[k] == lv2.objects[k] by {
        assert(lv1.objects[k] == pixel_object_view(models[k].x, models[k].y, models[k].events));
        assert(lv2.objects[k] == pixel_object_view(models[k].x, models[k].y, models[k].events));
    }
    assert(lv1.objects =~= lv2.objects);
    assert(lv1 =~= lv2);
}

/// Assembles the output level for an animation: fails with the matching
/// malformed-input error exactly when the input is malformed, and otherwise
/// returns a level whose view holds the fixed name, one map, the black
/// background, and one rendered object per entry of the model object list
/// that `build_pixel_objects` describes, in order.
pub fn create_gif(total_duration: u16, frames: &Vec<Frame>) -> (r: Result<
    i_wanna_build::Level,
    GifError,
>)
    requires
        frames@.len() <= u16::MAX,
        frames@.len() >= 1 ==> frames@[0].width <= u16::MAX && frames@[0].height <= u16::MAX,
    ensures
        r is Ok <==> pipeline_ok(total_duration, frames@),
        r is Err ==> r->Err_0 == pipeline_error(total_duration, frames@),
        r is Ok ==> rendered_level(
            level_view(r->Ok_0),
            objects_spec(
                frames@,
                step_of((total_duration / 2) as u16, frames@.len() as int),
                (total_duration / 2) as u16,
                frames@[0].height as int,
                frames@[0].width as int,
            ),
        ),
{
    let objs = match build_pixel_objects(total_duration, frames) {
        Ok(objs) => objs,
        Err(e) => {
            return Err(e);
        },
    };
    let ghost models = objects_spec(
        frames@,
        step_of((total_duration / 2) as u16, frames@.len() as int),
        (total_duration / 2) as u16,
        frames@[0].height as int,
        frames@[0].width as int,
    );
    let mut level = new_level("generated gif", BLACK_BG);
    let n = objs.len();
    for i in 0..n
        invariant
            n == objs.len(),
            objects_match_seq(objs@, models),
            level_view(level).name == "generated gif"@,
            level_view(level).map_count == 1,
            level_view(level).colors == BLACK_BG@,
            level_view(level).objects.len() == i,
            forall|k: int|
                0 <= k < i ==> level_view(level).objects[k] == pixel_object_view(
                    (#[trigger] models[k]).x,
                    models[k].y,
                    models[k].events,
                ),
    {
        let obj = emit_object(&objs[i]);
        push_object(&mut level, obj);
    }
    Ok(level)
}

} // verus!
