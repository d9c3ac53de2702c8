use bevy_ruby::{
    CameraUpdate, DevicePoll, GamepadPoll, InputState, KindStore, PickingEventData,
    PickingEventKind, PointerId, RubyBridgeState, RumbleOutcome, StagingArea, StrMap, StrSet,
};

fn poll_with_keys(keys: &[&str]) -> DevicePoll {
    let mut poll = DevicePoll::new();
    for k in keys {
        poll.keys_down.insert(k.to_string());
    }
    poll
}

fn event(target: u64) -> PickingEventData {
    PickingEventData {
        kind: PickingEventKind::Click,
        target_id: target,
        pointer_id: PointerId::Mouse,
        pointer_position: (0, 0),
        button: None,
        camera_id: None,
        depth: None,
        hit_position: None,
        hit_normal: None,
    }
}

#[test]
fn just_pressed_only_on_the_arriving_frame() {
    // Key absent, then present, then absent: just-pressed fires only on the
    // middle frame, just-released only on the last.
    let mut input = InputState::new();
    input.capture(&poll_with_keys(&[]));
    assert!(!input.key_just_pressed("A"));
    assert!(!input.key_just_released("A"));

    input.capture(&poll_with_keys(&["A"]));
    assert!(input.key_pressed("A"));
    assert!(input.key_just_pressed("A"));
    assert!(!input.key_just_released("A"));

    input.capture(&poll_with_keys(&[]));
    assert!(!input.key_pressed("A"));
    assert!(!input.key_just_pressed("A"));
    assert!(input.key_just_released("A"));
}

#[test]
fn held_key_is_not_just_pressed_again() {
    let mut input = InputState::new();
    input.capture(&poll_with_keys(&["SPACE"]));
    assert!(input.key_just_pressed("SPACE"));
    input.capture(&poll_with_keys(&["SPACE"]));
    assert!(input.key_pressed("SPACE"));
    assert!(!input.key_just_pressed("SPACE"));
    assert!(!input.key_just_released("SPACE"));
}

#[test]
fn mouse_delta_is_zero_on_first_sighting() {
    let mut input = InputState::new();
    let mut poll = DevicePoll::new();
    poll.mouse_position = Some((100, 50));
    input.capture(&poll);
    assert_eq!(input.mouse_position, (100, 50));
    assert_eq!(input.mouse_delta, (0, 0));

    let mut poll2 = DevicePoll::new();
    poll2.mouse_position = Some((110, 30));
    input.capture(&poll2);
    assert_eq!(input.mouse_position, (110, 30));
    assert_eq!(input.mouse_delta, (10, -20));

    // No cursor this frame: position sticks, delta is zero.
    input.capture(&DevicePoll::new());
    assert_eq!(input.mouse_position, (110, 30));
    assert_eq!(input.mouse_delta, (0, 0));
}

#[test]
fn gamepad_buttons_are_diffed_per_device() {
    let mut input = InputState::new();
    let mut poll = DevicePoll::new();
    let mut buttons = StrSet::new();
    buttons.insert("South".to_string());
    let mut axes = StrMap::new();
    axes.insert("LeftStickX".to_string(), 500_000i64);
    poll.gamepads.push(GamepadPoll {
        id: 3,
        name: "Pad".to_string(),
        buttons_down: buttons,
        axes,
    });
    input.capture(&poll);
    let gs = input.gamepad_state(3).unwrap();
    assert_eq!(gs.name, "Pad");
    assert!(gs.buttons_pressed.contains("South"));
    assert!(gs.buttons_just_pressed.contains("South"));
    assert!(!gs.buttons_just_released.contains("South"));

    // Same pad, button released.
    let mut poll2 = DevicePoll::new();
    poll2.gamepads.push(GamepadPoll {
        id: 3,
        name: "Pad".to_string(),
        buttons_down: StrSet::new(),
        axes: StrMap::new(),
    });
    input.capture(&poll2);
    let gs = input.gamepad_state(3).unwrap();
    assert!(!gs.buttons_pressed.contains("South"));
    assert!(!gs.buttons_just_pressed.contains("South"));
    assert!(gs.buttons_just_released.contains("South"));

    // A pad that stops reporting disappears from the snapshot.
    input.capture(&DevicePoll::new());
    assert!(input.gamepad_state(3).is_none());
}

#[test]
fn picking_buffer_reads_once() {
    // A second read without an intervening begin_frame yields nothing.
    let mut bridge = RubyBridgeState::new();
    bridge.begin_frame(&DevicePoll::new(), vec![event(5), event(6)]);
    let first = bridge.read_picking_events();
    assert_eq!(first.len(), 2);
    assert_eq!(first[0].target_id, 5);
    assert_eq!(first[1].target_id, 6);
    let second = bridge.read_picking_events();
    assert!(second.is_empty());

    // The next frame refills it.
    bridge.begin_frame(&DevicePoll::new(), vec![event(9)]);
    assert_eq!(bridge.read_picking_events().len(), 1);
}

#[test]
fn camera_writes_coalesce_to_the_last_value() {
    // Two position writes in one frame apply once, with the second value,
    // and the dirty flag is down right after the drain.
    let mut bridge = RubyBridgeState::new();
    let mut staging = StagingArea::new();
    let mut sprites = KindStore::new();
    let mut texts = KindStore::new();
    let mut meshes = KindStore::new();

    staging.set_camera_position(1, 2, 3);
    staging.set_camera_position(7, 8, 9);
    staging.set_camera_scale(2_000_000);
    staging.merge_into(&mut bridge);
    let out = bridge.end_frame(&mut sprites, &mut texts, &mut meshes);
    assert_eq!(
        out.camera,
        Some(CameraUpdate { position: (7, 8, 9), scale: 2_000_000 })
    );
    assert!(!bridge.camera_dirty);

    // Nothing staged: the next frame applies no camera update.
    staging.merge_into(&mut bridge);
    let out = bridge.end_frame(&mut sprites, &mut texts, &mut meshes);
    assert_eq!(out.camera, None);
}

#[test]
fn rumble_commands_drain_clamped_and_in_order() {
    let mut bridge = RubyBridgeState::new();
    let mut staging = StagingArea::new();
    let mut sprites = KindStore::new();
    let mut texts = KindStore::new();
    let mut meshes = KindStore::new();

    staging.stage_rumble(1, 2_000_000, 250_000, 500_000);
    staging.stage_rumble(2, 0, 0, 1_000_000);
    staging.merge_into(&mut bridge);
    let out = bridge.end_frame(&mut sprites, &mut texts, &mut meshes);
    assert_eq!(out.rumbles.len(), 2);
    assert_eq!(
        out.rumbles[0],
        RumbleOutcome::Add {
            gamepad_id: 1,
            strong_motor: 1_000_000,
            weak_motor: 250_000,
            duration_micros: 500_000,
        }
    );
    assert_eq!(out.rumbles[1], RumbleOutcome::Stop { gamepad_id: 2 });

    // The queue was consumed.
    let out = bridge.end_frame(&mut sprites, &mut texts, &mut meshes);
    assert!(out.rumbles.is_empty());
}

#[test]
fn exit_flag_rises_and_stays() {
    let mut bridge = RubyBridgeState::new();
    let mut staging = StagingArea::new();
    let mut sprites = KindStore::new();
    let mut texts = KindStore::new();
    let mut meshes = KindStore::new();

    let out = bridge.end_frame(&mut sprites, &mut texts, &mut meshes);
    assert!(!out.exit);

    staging.request_exit();
    staging.merge_into(&mut bridge);
    let out = bridge.end_frame(&mut sprites, &mut texts, &mut meshes);
    assert!(out.exit);
    // Once set, every later frame observes it set.
    let out = bridge.end_frame(&mut sprites, &mut texts, &mut meshes);
    assert!(out.exit);
}

#[test]
fn snapshot_is_readable_between_frames() {
    let mut bridge = RubyBridgeState::new();
    bridge.begin_frame(&poll_with_keys(&["W"]), Vec::new());
    assert!(bridge.read_input_snapshot().key_pressed("W"));
    let keys = bridge.read_input_snapshot().get_pressed_keys();
    assert_eq!(keys, vec!["W".to_string()]);
}
