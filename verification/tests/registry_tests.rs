use bevy_ruby::{
    AssetChangeType, AssetId, AssetLoadQueue, AssetLoadRequest, AssetLoadState, AssetMeta,
    AssetRegistry, AudioQueue, BevyRubyError, ComponentData, AttributeType, FileObservation,
    FileWatcher, ResourceWrapper, Schedule, ScheduleConfig, ScheduleLabel, Schedules, ShapeType,
    SystemDescriptor, SystemSet,
};

#[test]
fn schedule_label_parses_ignoring_case() {
    assert_eq!(ScheduleLabel::from_str("startup").unwrap(), ScheduleLabel::Startup);
    assert_eq!(ScheduleLabel::from_str("Startup").unwrap(), ScheduleLabel::Startup);
    assert_eq!(ScheduleLabel::from_str("UPDATE").unwrap(), ScheduleLabel::Update);
    assert_eq!(ScheduleLabel::from_str("fixed_update").unwrap(), ScheduleLabel::FixedUpdate);
    assert_eq!(ScheduleLabel::from_str("FixedUpdate").unwrap(), ScheduleLabel::FixedUpdate);
    assert_eq!(ScheduleLabel::from_str("post_update").unwrap(), ScheduleLabel::PostUpdate);
    assert_eq!(ScheduleLabel::from_str("POSTUPDATE").unwrap(), ScheduleLabel::PostUpdate);
}

#[test]
fn schedule_label_rejects_unknown_names() {
    let err = ScheduleLabel::from_str("render").unwrap_err();
    match err {
        BevyRubyError::SystemError(m) => assert_eq!(m, "Unknown schedule: render"),
        other => panic!("unexpected error {:?}", other),
    }
}

#[test]
fn systems_run_in_set_order_then_customs() {
    let mut s = Schedule::new(ScheduleLabel::Update);
    s.add_system("c", ScheduleConfig::new().in_set(SystemSet::Last));
    s.add_system("a", ScheduleConfig::new().in_set(SystemSet::First));
    s.add_system("b", ScheduleConfig::new());
    s.add_system("x", ScheduleConfig::new().in_set(SystemSet::Custom(1)));
    s.add_system("b2", ScheduleConfig::new().in_set(SystemSet::PreUpdate));
    assert_eq!(s.systems_in_order(), vec!["a", "b2", "b", "c", "x"]);
    assert_eq!(s.systems().len(), 5);
    assert_eq!(s.label(), ScheduleLabel::Update);
}

#[test]
fn custom_system_with_taken_name_is_not_repeated() {
    let mut s = Schedule::new(ScheduleLabel::Update);
    s.add_system("tick", ScheduleConfig::new());
    s.add_system("tick", ScheduleConfig::new().in_set(SystemSet::Custom(9)));
    s.add_system("extra", ScheduleConfig::new().in_set(SystemSet::Custom(9)));
    assert_eq!(s.systems_in_order(), vec!["tick", "extra"]);
}

#[test]
fn schedules_hold_one_schedule_per_label() {
    let mut schedules = Schedules::new();
    schedules.add_system(ScheduleLabel::Startup, "boot", ScheduleConfig::new());
    let s = schedules.get(ScheduleLabel::Startup).unwrap();
    assert_eq!(s.label(), ScheduleLabel::Startup);
    assert_eq!(s.systems().len(), 1);
    assert_eq!(s.systems()[0].0, "boot");
    assert!(schedules.get(ScheduleLabel::Update).unwrap().systems().is_empty());
}

#[test]
fn get_mut_edits_in_place() {
    let mut schedules = Schedules::new();
    schedules
        .get_mut(ScheduleLabel::FixedUpdate)
        .unwrap()
        .add_system("step", ScheduleConfig::new());
    assert_eq!(schedules.get(ScheduleLabel::FixedUpdate).unwrap().systems().len(), 1);

    let mut reg = AssetRegistry::new();
    let a = reg.register("a".to_string(), "t".to_string(), None);
    reg.get_mut(a).unwrap().state = AssetLoadState::Failed;
    assert_eq!(reg.get(a).unwrap().state, AssetLoadState::Failed);
    assert!(reg.get_mut(AssetId(99)).is_none());
}

#[test]
fn schedule_config_builder_accumulates() {
    let c = ScheduleConfig::new()
        .in_set(SystemSet::PostUpdate)
        .before("later")
        .after("earlier")
        .run_if("cond");
    assert_eq!(c.set, SystemSet::PostUpdate);
    assert_eq!(c.ordering.before, vec!["later".to_string()]);
    assert_eq!(c.ordering.after, vec!["earlier".to_string()]);
    assert_eq!(c.run_if.as_deref(), Some("cond"));
}

#[test]
fn system_descriptor_collects_params() {
    let d = SystemDescriptor::new(ScheduleLabel::Update).with_param("Query").with_param("Res");
    assert_eq!(d.schedule, ScheduleLabel::Update);
    assert_eq!(d.param_types, vec!["Query".to_string(), "Res".to_string()]);
}

#[test]
fn shape_codes_parse_exactly() {
    assert_eq!(ShapeType::from_code(0).unwrap(), ShapeType::Rectangle);
    assert_eq!(ShapeType::from_code(1).unwrap(), ShapeType::Circle);
    assert_eq!(ShapeType::from_code(2).unwrap(), ShapeType::RegularPolygon);
    assert_eq!(ShapeType::from_code(3).unwrap(), ShapeType::Line);
    assert_eq!(ShapeType::from_code(4).unwrap(), ShapeType::Ellipse);
    assert!(matches!(ShapeType::from_code(5), Err(BevyRubyError::SystemError(_))));
    assert!(matches!(ShapeType::from_code(-1), Err(BevyRubyError::SystemError(_))));
}

#[test]
fn registry_register_is_idempotent_per_path() {
    let mut reg = AssetRegistry::new();
    let a = reg.register("a.png".to_string(), "texture".to_string(), None);
    let b = reg.register("b.png".to_string(), "texture".to_string(), None);
    let a2 = reg.register("a.png".to_string(), "texture".to_string(), None);
    assert_eq!(a, AssetId(0));
    assert_eq!(b, AssetId(1));
    assert_eq!(a2, a);
    assert_eq!(reg.count(), 2);
    assert_eq!(reg.get_by_path("a.png").unwrap().id, a);
    assert_eq!(reg.get(a).unwrap().asset_type, "texture");
    assert_eq!(reg.get(a).unwrap().state, AssetLoadState::NotLoaded);

    reg.unregister(a);
    assert_eq!(reg.count(), 1);
    assert!(reg.get(a).is_none());
    assert!(reg.get_by_path("a.png").is_none());
    let mut ids = reg.all_ids();
    ids.sort_by_key(|i| i.0);
    assert_eq!(ids, vec![b]);
}

#[test]
fn registry_reports_changes_for_watched_assets() {
    let mut reg = AssetRegistry::new();
    reg.enable_hot_reload();
    assert!(reg.is_hot_reload_enabled());
    let a = reg.register("a.png".to_string(), "texture".to_string(), Some(100));
    let _b = reg.register("b.png".to_string(), "texture".to_string(), Some(100));

    // a.png got newer, b.png unchanged, c.png is not registered.
    let observed = vec![
        FileObservation { path: "a.png".to_string(), modified: Some(150) },
        FileObservation { path: "b.png".to_string(), modified: Some(100) },
        FileObservation { path: "c.png".to_string(), modified: Some(999) },
    ];
    let events = reg.check_for_changes(&observed);
    assert_eq!(events.len(), 1);
    assert_eq!(events[0].id, a);
    assert_eq!(events[0].path, "a.png");
    assert_eq!(events[0].change_type, AssetChangeType::Modified);

    // The stamp moved, so the same observation reports nothing more.
    let events = reg.check_for_changes(&observed);
    assert!(events.is_empty());

    // A vanished file is reported deleted, once.
    let gone = vec![FileObservation { path: "a.png".to_string(), modified: None }];
    let events = reg.check_for_changes(&gone);
    assert_eq!(events.len(), 1);
    assert_eq!(events[0].change_type, AssetChangeType::Deleted);
    assert!(reg.check_for_changes(&gone).is_empty());
}

#[test]
fn registry_without_hot_reload_reports_nothing() {
    let mut reg = AssetRegistry::new();
    let _ = reg.register("a.png".to_string(), "texture".to_string(), Some(1));
    let observed = vec![FileObservation { path: "a.png".to_string(), modified: Some(9) }];
    assert!(reg.check_for_changes(&observed).is_empty());
}

#[test]
fn reload_list_covers_transitive_dependents() {
    let mut reg = AssetRegistry::new();
    let a = reg.register("a".to_string(), "t".to_string(), None);
    let b = reg.register("b".to_string(), "t".to_string(), None);
    let c = reg.register("c".to_string(), "t".to_string(), None);
    let d = reg.register("d".to_string(), "t".to_string(), None);
    let _e = reg.register("e".to_string(), "t".to_string(), None);
    // b and c depend on a; d depends on both b and c (a diamond).
    reg.add_dependency(b, a);
    reg.add_dependency(c, a);
    reg.add_dependency(d, b);
    reg.add_dependency(d, c);
    assert_eq!(reg.get_dependents(a), vec![b, c]);

    let mut list = reg.get_reload_list(a);
    assert_eq!(list[0], a);
    list.sort_by_key(|i| i.0);
    assert_eq!(list, vec![a, b, c, d]);

    // A leaf reloads alone.
    assert_eq!(reg.get_reload_list(d), vec![d]);
}

#[test]
fn set_state_records_the_stamp_only_when_loaded() {
    let mut reg = AssetRegistry::new();
    let a = reg.register("a".to_string(), "t".to_string(), None);
    reg.set_state(a, AssetLoadState::Loading, Some(5));
    assert_eq!(reg.get(a).unwrap().state, AssetLoadState::Loading);
    assert_eq!(reg.get(a).unwrap().last_modified, None);
    reg.set_state(a, AssetLoadState::Loaded, Some(7));
    assert_eq!(reg.get(a).unwrap().state, AssetLoadState::Loaded);
    assert_eq!(reg.get(a).unwrap().last_modified, Some(7));
}

#[test]
fn extensions_fold_ascii_case() {
    let mut w = FileWatcher::new();
    w.add_extension("PNG".to_string());
    w.add_extension("png".to_string());
    w.add_extension("Png".to_string());
    assert_eq!(w.extension_count(), 1);
    w.add_extension("jpg".to_string());
    assert_eq!(w.extension_count(), 2);
}

#[test]
fn file_watcher_diffs_stamps() {
    let mut w = FileWatcher::new();
    w.add_base_path("assets".to_string());
    w.add_extension("png".to_string());
    assert!(w.watch("x", 10));
    assert!(w.watch("y", 20));
    assert_eq!(w.watched_count(), 2);

    let changes = w.check_changes(&vec![
        FileObservation { path: "x".to_string(), modified: Some(15) },
        FileObservation { path: "y".to_string(), modified: Some(20) },
        FileObservation { path: "z".to_string(), modified: Some(1) },
    ]);
    assert_eq!(changes, vec![("x".to_string(), AssetChangeType::Modified)]);

    w.unwatch("x");
    assert_eq!(w.watched_count(), 1);
    let changes = w.check_changes(&vec![FileObservation {
        path: "y".to_string(),
        modified: None,
    }]);
    assert_eq!(changes, vec![("y".to_string(), AssetChangeType::Deleted)]);
    assert_eq!(w.watched_count(), 0);
}

fn req(id: u64, priority: i32) -> AssetLoadRequest {
    AssetLoadRequest {
        id: AssetId(id),
        path: format!("{}", id),
        asset_type: "t".to_string(),
        priority,
    }
}

#[test]
fn load_queue_serves_highest_priority_first_in_fifo() {
    let mut q = AssetLoadQueue::new();
    assert!(q.is_empty());
    q.enqueue(req(1, 5));
    q.enqueue(req(2, 10));
    q.enqueue(req(3, 5));
    q.enqueue(req(4, 10));
    assert_eq!(q.len(), 4);
    assert_eq!(q.peek().unwrap().id, AssetId(2));
    // Higher priority first; equal priorities keep arrival order.
    assert_eq!(q.dequeue().unwrap().id, AssetId(2));
    assert_eq!(q.dequeue().unwrap().id, AssetId(4));
    assert_eq!(q.dequeue().unwrap().id, AssetId(1));
    assert_eq!(q.dequeue().unwrap().id, AssetId(3));
    assert!(q.dequeue().is_none());

    q.enqueue(req(5, 1));
    q.clear();
    assert!(q.is_empty());
    assert!(q.peek().is_none());
}

#[test]
fn asset_meta_starts_unloaded() {
    let m = AssetMeta::new(AssetId(3), "p".to_string(), "t".to_string());
    assert_eq!(m.id, AssetId(3));
    assert_eq!(m.path, "p");
    assert_eq!(m.state, AssetLoadState::NotLoaded);
    assert!(m.dependencies.is_empty());
    assert!(m.dependents.is_empty());
}

#[test]
fn audio_queue_walks_and_loops() {
    let mut q = AudioQueue::new();
    assert!(q.is_empty());
    assert!(q.current().is_none());
    q.add("one".to_string());
    q.add_all(vec!["two".to_string(), "three".to_string()]);
    assert_eq!(q.len(), 3);
    assert_eq!(q.current().unwrap(), "one");
    assert_eq!(q.next().unwrap(), "two");
    assert_eq!(q.next().unwrap(), "three");
    // Not looping: the end yields nothing and previous steps back.
    assert!(q.next().is_none());
    assert!(q.current().is_none());

    let mut lq = AudioQueue::new();
    lq.loop_queue = true;
    lq.add_all(vec!["a".to_string(), "b".to_string()]);
    assert_eq!(lq.next().unwrap(), "b");
    assert_eq!(lq.next().unwrap(), "a");
    assert_eq!(lq.previous().unwrap(), "b");
    assert_eq!(lq.previous().unwrap(), "a");

    lq.clear();
    assert!(lq.is_empty());
    assert!(lq.next().is_none());
    assert!(lq.previous().is_none());
}

#[test]
fn resource_wrapper_stores_fields() {
    let mut r = ResourceWrapper::new("settings");
    assert_eq!(r.name(), "settings");
    assert!(r.get("volume").is_none());
    r.set("volume", vec![1, 2, 3]);
    assert_eq!(r.get("volume").unwrap(), &vec![1, 2, 3]);
    r.set("volume", vec![9]);
    assert_eq!(r.get("volume").unwrap(), &vec![9]);
}

#[test]
fn component_data_declares_and_stores() {
    let mut c = ComponentData::new("Position").with_attribute("x", AttributeType::Integer)
        .with_attribute("y", AttributeType::Integer);
    assert_eq!(c.metadata.name, "Position");
    assert_eq!(c.metadata.attributes.len(), 2);
    assert_eq!(c.metadata.attributes[0].name, "x");
    assert!(c.get_data("x").is_none());
    c.set_data("x", vec![7]);
    assert_eq!(c.get_data("x").unwrap(), &vec![7]);
}
