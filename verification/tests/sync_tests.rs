use bevy_ruby::{
    EntityStore, KindStore, MeshData, MeshSync, MeshTransformData, RubyBridgeState, ShapeType,
    SpriteData, SpriteSync, StagingArea, TextData, TextSync, TextTransformData, TransformData,
};

fn sprite(r: i64) -> SpriteData {
    let mut d = SpriteData::default();
    d.color_r = r;
    d
}

fn at(x: i64) -> TransformData {
    let mut t = TransformData::default();
    t.translation_x = x;
    t
}

#[test]
fn upsert_twice_updates_in_place() {
    // Two upserts of the same id in two different frames end in exactly one
    // native entity, carrying the second payload.
    let mut sync: SpriteSync = SpriteSync::new();
    let mut store: KindStore<SpriteData, TransformData> = KindStore::new();

    sync.queue_upsert(7, sprite(1), at(10));
    sync.apply_pending(&mut store);
    assert_eq!(sync.synced_ids(), vec![7]);
    assert_eq!(store.len(), 1);

    sync.queue_upsert(7, sprite(2), at(20));
    sync.apply_pending(&mut store);
    assert_eq!(sync.synced_ids(), vec![7]);
    assert_eq!(store.len(), 1);
    // The model store hands out handle 0 first; the entity was updated, not
    // replaced.
    let (d, t) = store.get(0).unwrap();
    assert_eq!(d.color_r, 2);
    assert_eq!(t.translation_x, 20);
}

#[test]
fn removal_of_absent_id_is_noop() {
    let mut sync: SpriteSync = SpriteSync::new();
    let mut store: KindStore<SpriteData, TransformData> = KindStore::new();
    sync.queue_upsert(1, sprite(1), at(1));
    sync.apply_pending(&mut store);

    sync.queue_remove(42);
    sync.apply_pending(&mut store);
    assert_eq!(sync.synced_ids(), vec![1]);
    assert_eq!(store.len(), 1);

    // Clear on an empty synchronizer is just as harmless.
    let mut empty: SpriteSync = SpriteSync::new();
    let mut empty_store: KindStore<SpriteData, TransformData> = KindStore::new();
    empty.queue_clear();
    empty.queue_remove(7);
    empty.apply_pending(&mut empty_store);
    assert!(empty.is_empty());
    assert_eq!(empty_store.len(), 0);
}

#[test]
fn fifo_batch_equals_one_at_a_time() {
    // Draining [upsert 1, upsert 2, remove 1, upsert 3] in one go leaves the
    // same state as draining the same operations one per frame.
    let mut batched: SpriteSync = SpriteSync::new();
    let mut batched_store: KindStore<SpriteData, TransformData> = KindStore::new();
    batched.queue_upsert(1, sprite(1), at(1));
    batched.queue_upsert(2, sprite(2), at(2));
    batched.queue_remove(1);
    batched.queue_upsert(3, sprite(3), at(3));
    batched.apply_pending(&mut batched_store);

    let mut stepped: SpriteSync = SpriteSync::new();
    let mut stepped_store: KindStore<SpriteData, TransformData> = KindStore::new();
    stepped.queue_upsert(1, sprite(1), at(1));
    stepped.apply_pending(&mut stepped_store);
    stepped.queue_upsert(2, sprite(2), at(2));
    stepped.apply_pending(&mut stepped_store);
    stepped.queue_remove(1);
    stepped.apply_pending(&mut stepped_store);
    stepped.queue_upsert(3, sprite(3), at(3));
    stepped.apply_pending(&mut stepped_store);

    let mut a = batched.synced_ids();
    let mut b = stepped.synced_ids();
    a.sort();
    b.sort();
    assert_eq!(a, b);
    assert_eq!(a, vec![2, 3]);
    assert_eq!(batched_store.len(), stepped_store.len());
}

#[test]
fn ordering_within_one_queue_is_kept() {
    // An upsert queued after a clear survives it.
    let mut sync: SpriteSync = SpriteSync::new();
    let mut store: KindStore<SpriteData, TransformData> = KindStore::new();
    sync.queue_upsert(1, sprite(1), at(1));
    sync.queue_clear();
    sync.queue_upsert(2, sprite(2), at(2));
    sync.apply_pending(&mut store);
    assert_eq!(sync.synced_ids(), vec![2]);
    assert_eq!(store.len(), 1);
}

#[test]
fn end_to_end_frames() {
    // Frame 1: stage Upsert(7, A, T1) for the sprite kind; after the drain
    // the synced ids are {7}. Frame 2: Upsert(7, B, T2); still {7}, same
    // entity, updated payload. Frame 3: Remove(7); {}. Frame 4: three
    // upserts then Clear; {}.
    let mut bridge = RubyBridgeState::new();
    let mut staging = StagingArea::new();
    let mut sprites: KindStore<SpriteData, TransformData> = KindStore::new();
    let mut texts = KindStore::new();
    let mut meshes = KindStore::new();

    staging.stage_sprite_upsert(7, sprite(1), at(1));
    staging.merge_into(&mut bridge);
    bridge.end_frame(&mut sprites, &mut texts, &mut meshes);
    assert_eq!(bridge.sprite_sync.synced_ids(), vec![7]);
    assert_eq!(sprites.len(), 1);

    staging.stage_sprite_upsert(7, sprite(2), at(2));
    staging.merge_into(&mut bridge);
    bridge.end_frame(&mut sprites, &mut texts, &mut meshes);
    assert_eq!(bridge.sprite_sync.synced_ids(), vec![7]);
    assert_eq!(sprites.len(), 1);
    let (d, _) = sprites.get(0).unwrap();
    assert_eq!(d.color_r, 2);

    staging.stage_sprite_remove(7);
    staging.merge_into(&mut bridge);
    bridge.end_frame(&mut sprites, &mut texts, &mut meshes);
    assert!(bridge.sprite_sync.synced_ids().is_empty());
    assert_eq!(sprites.len(), 0);

    staging.stage_sprite_upsert(1, sprite(1), at(1));
    staging.stage_sprite_upsert(2, sprite(2), at(2));
    staging.stage_sprite_upsert(3, sprite(3), at(3));
    staging.stage_sprite_clear();
    staging.merge_into(&mut bridge);
    bridge.end_frame(&mut sprites, &mut texts, &mut meshes);
    assert!(bridge.sprite_sync.synced_ids().is_empty());
    assert_eq!(sprites.len(), 0);
}

#[test]
fn operations_staged_after_merge_wait_for_next_frame() {
    let mut bridge = RubyBridgeState::new();
    let mut staging = StagingArea::new();
    let mut sprites: KindStore<SpriteData, TransformData> = KindStore::new();
    let mut texts = KindStore::new();
    let mut meshes = KindStore::new();

    staging.stage_sprite_upsert(1, sprite(1), at(1));
    staging.merge_into(&mut bridge);
    // Staged after the merge: must not be applied this frame.
    staging.stage_sprite_upsert(2, sprite(2), at(2));
    bridge.end_frame(&mut sprites, &mut texts, &mut meshes);
    assert_eq!(bridge.sprite_sync.synced_ids(), vec![1]);

    // ... and must not be lost either.
    staging.merge_into(&mut bridge);
    bridge.end_frame(&mut sprites, &mut texts, &mut meshes);
    let mut ids = bridge.sprite_sync.synced_ids();
    ids.sort();
    assert_eq!(ids, vec![1, 2]);
}

#[test]
fn mesh_kind_shares_the_same_discipline() {
    let mut sync: MeshSync = MeshSync::new();
    let mut store: KindStore<MeshData, MeshTransformData> = KindStore::new();
    let mut data = MeshData::default();
    data.shape_type = ShapeType::Circle;
    sync.queue_upsert(9, data, MeshTransformData::default());
    sync.apply_pending(&mut store);
    assert_eq!(sync.synced_ids(), vec![9]);
    let (d, _) = store.get(0).unwrap();
    assert_eq!(d.shape_type, ShapeType::Circle);
}

#[test]
fn text_kind_carries_its_content() {
    let mut sync: TextSync = TextSync::new();
    let mut store: KindStore<TextData, TextTransformData> = KindStore::new();
    let mut data = TextData::default();
    data.content = "score: 10".to_string();
    sync.queue_upsert(4, data, TextTransformData::default());
    sync.apply_pending(&mut store);
    let (d, _) = store.get(0).unwrap();
    assert_eq!(d.content, "score: 10");
    sync.queue_clear();
    sync.apply_pending(&mut store);
    assert!(sync.is_empty());
    assert_eq!(store.len(), 0);
}

#[test]
fn handles_are_recycled_only_after_despawn() {
    let mut store: KindStore<SpriteData, TransformData> = KindStore::new();
    let a = store.create(sprite(1), at(1));
    let b = store.create(sprite(2), at(2));
    assert_ne!(a, b);
    store.despawn(a);
    let c = store.create(sprite(3), at(3));
    // The freed handle may come back, but never while it was live.
    assert_eq!(c, a);
    assert_eq!(store.len(), 2);
}
