use gif_level::frame::Frame;
use gif_level::level::{create_gif, GifError, BLACK_BG};
use gif_level::pixel::Pixel;

fn solid() -> Pixel {
    Pixel { r: 255, g: 255, b: 255, a: 255 }
}

fn clear() -> Pixel {
    Pixel { r: 0, g: 0, b: 0, a: 255 }
}

fn param_pairs(params: &[i_wanna_build::map::Param]) -> Vec<(String, String)> {
    params.iter().map(|p| (p.key.clone(), p.value.clone())).collect()
}

fn pairs(expected: &[(&str, &str)]) -> Vec<(String, String)> {
    expected.iter().map(|(k, v)| (k.to_string(), v.to_string())).collect()
}

#[test]
fn level_holds_the_synthesized_objects() {
    // 2x1, 2 frames of duration 10: total 20, halved 10, step 5.
    let frames = vec![
        Frame { width: 2, height: 1, pixels: vec![vec![solid(), clear()]] },
        Frame { width: 2, height: 1, pixels: vec![vec![clear(), solid()]] },
    ];
    let level = create_gif(20, &frames).expect("pipeline should succeed");

    assert_eq!(level.maps.len(), 1);
    assert_eq!(level.maps[0].head.colors, BLACK_BG);
    let objects = &level.maps[0].objects;
    assert_eq!(objects.len(), 2);

    let a = &objects[0];
    assert_eq!(a.type_id, 24);
    assert_eq!((a.x, a.y), (0, 0));
    assert!(a.rotation.is_none() && a.slot.is_none() && a.nested_object.is_none());
    assert_eq!(
        param_pairs(&a.params),
        pairs(&[("blend_color", "0"), ("scale", "0.2"), ("layer", "4"), ("tileset", "0")])
    );
    assert_eq!(a.events.len(), 2);

    let resync = &a.events[0];
    assert_eq!(resync.id, 17);
    assert_eq!(param_pairs(&resync.params), pairs(&[("offset", "0"), ("frames", "10")]));
    assert_eq!(resync.nested_events.len(), 1);
    let move_home = &resync.nested_events[0];
    assert_eq!(move_home.id, 122);
    assert_eq!(
        param_pairs(&move_home.params),
        pairs(&[
            ("speed", "5000"),
            ("position_y", "0"),
            ("set_position", "0"),
            ("axis", "3"),
            ("position_x", "0"),
        ])
    );
    assert!(move_home.nested_events.is_empty());

    let hide = &a.events[1];
    assert_eq!(hide.id, 17);
    assert_eq!(param_pairs(&hide.params), pairs(&[("offset", "5"), ("frames", "10")]));
    assert_eq!(hide.nested_events.len(), 1);
    let move_away = &hide.nested_events[0];
    assert_eq!(
        param_pairs(&move_away.params),
        pairs(&[
            ("speed", "5000"),
            ("position_y", "0"),
            ("set_position", "0"),
            ("axis", "3"),
            ("position_x", "800"),
        ])
    );

    // the second pixel starts hidden and is revealed at its transition.
    let b = &objects[1];
    assert_eq!((b.x, b.y), (804, 0));
    assert_eq!(b.events.len(), 2);
    assert_eq!(
        param_pairs(&b.events[0].nested_events[0].params),
        pairs(&[
            ("speed", "5000"),
            ("position_y", "0"),
            ("set_position", "0"),
            ("axis", "3"),
            ("position_x", "804"),
        ])
    );
    assert_eq!(
        param_pairs(&b.events[1].nested_events[0].params),
        pairs(&[
            ("speed", "5000"),
            ("position_y", "0"),
            ("set_position", "0"),
            ("axis", "3"),
            ("position_x", "4"),
        ])
    );
}

#[test]
fn level_serializes() {
    let frames = vec![Frame { width: 1, height: 1, pixels: vec![vec![solid()]] }];
    let level = create_gif(10, &frames).expect("pipeline should succeed");
    let xml = i_wanna_build::serialize_level(&level).expect("level should serialize");
    assert!(xml.contains("sfm_map"));
}

#[test]
fn create_gif_rejects_malformed_input() {
    let no_frames: Vec<Frame> = vec![];
    assert!(matches!(create_gif(10, &no_frames), Err(GifError::NoFrames)));
    let one = vec![Frame { width: 1, height: 1, pixels: vec![vec![solid()]] }];
    assert!(matches!(create_gif(0, &one), Err(GifError::ZeroDuration)));
    let ragged = vec![Frame { width: 2, height: 1, pixels: vec![vec![solid()]] }];
    assert!(matches!(create_gif(10, &ragged), Err(GifError::MismatchedDimensions)));
}
