use bevy_ruby::{
    DevicePoll, InputState, MeshData, MeshTransformData, RubyBridgeState, ShapeType, SpriteData,
    TextData, TextTransformData, TransformData,
};

const UNIT: i64 = 1_000_000;

#[test]
fn sprite_defaults_are_opaque_white_centered() {
    let d = SpriteData::default();
    assert_eq!(d.color_r, UNIT);
    assert_eq!(d.color_g, UNIT);
    assert_eq!(d.color_b, UNIT);
    assert_eq!(d.color_a, UNIT);
    assert!(!d.flip_x && !d.flip_y);
    assert_eq!(d.anchor_x, UNIT / 2);
    assert_eq!(d.anchor_y, UNIT / 2);
    assert!(!d.has_custom_size);
    assert_eq!((d.custom_size_x, d.custom_size_y), (0, 0));
}

#[test]
fn transform_defaults_are_identity() {
    let t = TransformData::default();
    assert_eq!((t.translation_x, t.translation_y, t.translation_z), (0, 0, 0));
    assert_eq!((t.rotation_x, t.rotation_y, t.rotation_z, t.rotation_w), (0, 0, 0, UNIT));
    assert_eq!((t.scale_x, t.scale_y, t.scale_z), (UNIT, UNIT, UNIT));

    let t = MeshTransformData::default();
    assert_eq!(t.rotation_w, UNIT);
    assert_eq!(t.scale_x, UNIT);

    let t = TextTransformData::default();
    assert_eq!((t.translation_x, t.translation_y, t.translation_z), (0, 0, 0));
    assert_eq!((t.scale_x, t.scale_y, t.scale_z), (UNIT, UNIT, UNIT));
}

#[test]
fn text_defaults_are_empty_at_24_units() {
    let d = TextData::default();
    assert_eq!(d.content, "");
    assert_eq!(d.font_size, 24 * UNIT);
    assert_eq!(d.color_a, UNIT);
}

#[test]
fn mesh_defaults_are_a_filled_rectangle() {
    let d = MeshData::default();
    assert_eq!(d.shape_type, ShapeType::Rectangle);
    assert_eq!(d.width, 100 * UNIT);
    assert_eq!(d.height, 100 * UNIT);
    assert_eq!(d.radius, 50 * UNIT);
    assert_eq!(d.sides, 6);
    assert_eq!(d.line_end_x, 100 * UNIT);
    assert_eq!(d.thickness, 2 * UNIT);
    assert!(d.fill);
}

#[test]
fn setters_populate_the_snapshot() {
    let mut input = InputState::new();
    input.set_pressed("A");
    input.set_just_pressed("A");
    input.set_just_released("B");
    input.set_mouse_pressed("LEFT");
    input.set_mouse_just_pressed("LEFT");
    assert!(input.key_pressed("A"));
    assert!(input.key_just_pressed("A"));
    assert!(input.key_just_released("B"));
    assert!(!input.key_pressed("B"));
    assert!(input.mouse_button_pressed("LEFT"));
    assert!(input.mouse_button_just_pressed("LEFT"));
    assert!(!input.mouse_button_just_released("LEFT"));
}

#[test]
fn gamepad_setters_build_one_slot_per_device() {
    let mut input = InputState::new();
    input.set_gamepad_connected(4, "Pad");
    input.set_gamepad_button_pressed(4, "South");
    input.set_gamepad_button_just_pressed(4, "South");
    input.set_gamepad_button_just_released(4, "North");
    input.set_gamepad_axis(4, "LeftStickX", -250_000);
    // A setter on an unseen id creates its slot too.
    input.set_gamepad_button_pressed(9, "West");

    let ids = {
        let mut ids = input.gamepad_ids();
        ids.sort();
        ids
    };
    assert_eq!(ids, vec![4, 9]);
    let g = input.gamepad_state(4).unwrap();
    assert_eq!(g.name, "Pad");
    assert!(g.buttons_pressed.contains("South"));
    assert!(g.buttons_just_pressed.contains("South"));
    assert!(g.buttons_just_released.contains("North"));
    assert_eq!(g.axes.get("LeftStickX"), Some(&-250_000));
    let g9 = input.gamepad_state(9).unwrap();
    assert_eq!(g9.name, "");
    assert!(g9.buttons_pressed.contains("West"));
    // Reconnecting only renames; the buttons stay.
    input.set_gamepad_connected(9, "Other");
    let g9 = input.gamepad_state(9).unwrap();
    assert_eq!(g9.name, "Other");
    assert!(g9.buttons_pressed.contains("West"));
}

#[test]
fn clear_empties_sets_but_keeps_the_cursor() {
    let mut input = InputState::new();
    let mut poll = DevicePoll::new();
    poll.keys_down.insert("A".to_string());
    poll.mouse_position = Some((3, 4));
    input.capture(&poll);
    input.clear();
    assert!(!input.key_pressed("A"));
    assert!(input.gamepad_ids().is_empty());
    assert_eq!(input.mouse_position, (3, 4));
}

#[test]
fn request_exit_is_immediate_and_sticky() {
    let mut bridge = RubyBridgeState::new();
    assert!(!bridge.should_exit);
    bridge.request_exit();
    assert!(bridge.should_exit);
    bridge.begin_frame(&DevicePoll::new(), Vec::new());
    assert!(bridge.should_exit);
}
