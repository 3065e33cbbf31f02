use gif_level::events::PixelObject;
use gif_level::frame::Frame;
use gif_level::level::{build_pixel_objects, GifError};
use gif_level::pixel::Pixel;

fn px(solid: bool) -> Pixel {
    if solid {
        Pixel { r: 255, g: 255, b: 255, a: 255 }
    } else {
        Pixel { r: 0, g: 0, b: 0, a: 255 }
    }
}

fn frame(rows: &[&[bool]]) -> Frame {
    let height = rows.len();
    let width = if height == 0 { 0 } else { rows[0].len() };
    let pixels: Vec<Vec<Pixel>> = rows
        .iter()
        .map(|row| row.iter().map(|&s| px(s)).collect())
        .collect();
    Frame { width, height, pixels }
}

fn objects(total_duration: u16, rows_per_frame: &[&[&[bool]]]) -> Vec<PixelObject> {
    let frames: Vec<Frame> = rows_per_frame.iter().map(|r| frame(r)).collect();
    build_pixel_objects(total_duration, &frames).expect("pipeline should succeed")
}

#[test]
fn scenario_two_pixels_swap() {
    // 2x1, 2 frames, duration 10 each: total 20, halved 10, step 5.
    let objs = objects(20, &[&[&[true, false]], &[&[false, true]]]);
    assert_eq!(objs.len(), 2);

    // pixel (0,0): solid in frame 0 only.
    let a = &objs[0];
    assert_eq!((a.x, a.y), (0, 0));
    assert_eq!(a.events.len(), 2);
    assert_eq!(a.events[0].offset, 0);
    assert_eq!(a.events[0].period, 10);
    assert_eq!((a.events[0].target_x, a.events[0].target_y), (0, 0));
    assert_eq!(a.events[1].offset, 5);
    assert_eq!(a.events[1].period, 10);
    // first transition of an initially visible pixel hides it.
    assert_eq!(a.events[1].target_x, 800);

    // pixel (1,0): solid in frame 1 only; starts at the hidden anchor.
    let b = &objs[1];
    assert_eq!((b.x, b.y), (4 + 800, 0));
    assert_eq!(b.events.len(), 2);
    assert_eq!(b.events[0].offset, 0);
    assert_eq!(b.events[0].target_x, 4 + 800);
    assert_eq!(b.events[1].offset, 5);
    assert_eq!(b.events[1].target_x, 4);
}

#[test]
fn scenario_single_solid_frame() {
    // single-frame fully solid 1x1: one object, resync trigger only.
    let objs = objects(10, &[&[&[true]]]);
    assert_eq!(objs.len(), 1);
    let o = &objs[0];
    assert_eq!((o.x, o.y), (0, 0));
    assert_eq!(o.events.len(), 1);
    assert_eq!(o.events[0].offset, 0);
    assert_eq!(o.events[0].period, 5);
    assert_eq!((o.events[0].target_x, o.events[0].target_y), (0, 0));
}

#[test]
fn scenario_zero_frames_fails() {
    let frames: Vec<Frame> = vec![];
    assert_eq!(build_pixel_objects(10, &frames), Err(GifError::NoFrames));
}

#[test]
fn scenario_zero_duration_fails() {
    let frames = vec![frame(&[&[true]])];
    assert_eq!(build_pixel_objects(0, &frames), Err(GifError::ZeroDuration));
    // a duration of 1 is zero after halving.
    assert_eq!(build_pixel_objects(1, &frames), Err(GifError::ZeroDuration));
}

#[test]
fn mismatched_dimensions_fail() {
    let frames = vec![frame(&[&[true, false]]), frame(&[&[true]])];
    assert_eq!(
        build_pixel_objects(20, &frames),
        Err(GifError::MismatchedDimensions)
    );
}

#[test]
fn scenario_always_solid_records_no_transition() {
    // a pixel solid in every frame of a 5-frame animation: no delays at all.
    let f: &[&[bool]] = &[&[true]];
    let objs = objects(20, &[f, f, f, f, f]);
    assert_eq!(objs.len(), 1);
    assert_eq!(objs[0].events.len(), 1);
    assert_eq!(objs[0].events[0].offset, 0);
}

#[test]
fn never_solid_pixel_yields_no_object() {
    let objs = objects(20, &[&[&[false]], &[&[false]]]);
    assert_eq!(objs.len(), 0);
}

#[test]
fn blinking_pixel_alternates_and_quantizes() {
    // 1x1 over 5 frames: on, off, on, off, on; total 20, halved 10, step 2.
    let on: &[&[bool]] = &[&[true]];
    let off: &[&[bool]] = &[&[false]];
    let objs = objects(20, &[on, off, on, off, on]);
    assert_eq!(objs.len(), 1);
    let o = &objs[0];
    assert_eq!((o.x, o.y), (0, 0));
    let offsets: Vec<u16> = o.events.iter().skip(1).map(|e| e.offset).collect();
    // strictly increasing multiples of the step.
    assert_eq!(offsets, vec![2, 4, 6, 8]);
    let targets: Vec<u32> = o.events.iter().skip(1).map(|e| e.target_x).collect();
    // successive transitions alternate hidden / visible anchors.
    assert_eq!(targets, vec![800, 0, 800, 0]);
}

#[test]
fn reactivated_pixel_starts_hidden() {
    // 1x1 over 3 frames: off, on, off; total 12, halved 6, step 2.
    let objs = objects(12, &[&[&[false]], &[&[true]], &[&[false]]]);
    assert_eq!(objs.len(), 1);
    let o = &objs[0];
    assert_eq!(o.x, 800);
    assert_eq!(o.events.len(), 3);
    assert_eq!(o.events[0].target_x, 800);
    assert_eq!((o.events[1].offset, o.events[1].target_x), (2, 0));
    assert_eq!((o.events[2].offset, o.events[2].target_x), (4, 800));
}

#[test]
fn objects_come_out_row_major() {
    // 2x2 single frame: solid at (0,0) and (1,1).
    let objs = objects(10, &[&[&[true, false], &[false, true]]]);
    assert_eq!(objs.len(), 2);
    assert_eq!((objs[0].x, objs[0].y), (0, 0));
    assert_eq!((objs[1].x, objs[1].y), (4, 4));
}

#[test]
fn step_truncates_to_whole_units() {
    // 3 frames, total 11: halved 5, step 5 / 3 = 1; sub-step timing is lost.
    let objs = objects(11, &[&[&[true]], &[&[false]], &[&[true]]]);
    assert_eq!(objs.len(), 1);
    let o = &objs[0];
    assert_eq!(o.events.len(), 3);
    assert_eq!(o.events[0].period, 5);
    let offsets: Vec<u16> = o.events.iter().skip(1).map(|e| e.offset).collect();
    assert_eq!(offsets, vec![1, 2]);
}

#[test]
fn timeline_replays_the_source_silhouette() {
    // 1x1 over 4 frames: on, on, off, on; total 16, halved 8, step 2.
    let on: &[&[bool]] = &[&[true]];
    let off: &[&[bool]] = &[&[false]];
    let source = [true, true, false, true];
    let objs = objects(16, &[on, on, off, on]);
    assert_eq!(objs.len(), 1);
    let o = &objs[0];
    // initially visible iff placed at the visible anchor.
    let enabled = o.x < 800;
    assert!(enabled);
    let delays: Vec<u16> = o.events.iter().skip(1).map(|e| e.offset).collect();
    assert_eq!(delays, vec![4, 6]);
    let step = 2u16;
    for t in 0..8u16 {
        let flips = delays.iter().filter(|&&d| d <= t).count();
        let state = enabled ^ (flips % 2 == 1);
        assert_eq!(state, source[(t / step) as usize], "at time {}", t);
    }
}

#[test]
fn repeated_runs_agree() {
    let input: &[&[&[bool]]] = &[&[&[true, false]], &[&[false, true]]];
    let first = objects(20, input);
    let second = objects(20, input);
    assert_eq!(first.len(), second.len());
    for (a, b) in first.iter().zip(second.iter()) {
        assert_eq!((a.x, a.y), (b.x, b.y));
        assert_eq!(a.events, b.events);
    }
}
