//! The calling-context staging area.
//!
//! Script code issues commands at high frequency; to keep it from contending
//! on the bridge lock, each calling context owns a `StagingArea` and pushes
//! commands there without any lock. Once per frame, inside the locked drain
//! window, `merge_into` moves everything staged into the shared bridge in
//! one step: operations keep their order, camera writes coalesce to the last
//! value, and the exit request only ever rises.

use vstd::prelude::*;

use crate::entity_sync::PendingOperation;
use crate::mesh_renderer::{MeshData, MeshTransformData};
use crate::render_app::{GamepadRumbleCommand, RubyBridgeState};
use crate::sprite_renderer::{SpriteData, TransformData};
use crate::text_renderer::{TextData, TextTransformData};
use crate::units::UNIT;

verus! {

/// Not-yet-merged commands of one calling context. Nothing here is visible
/// to the engine until the next merge.
pub struct StagingArea {
    sprite_ops: Vec<PendingOperation<SpriteData, TransformData>>,
    text_ops: Vec<PendingOperation<TextData, TextTransformData>>,
    mesh_ops: Vec<PendingOperation<MeshData, MeshTransformData>>,
    rumbles: Vec<GamepadRumbleCommand>,
    camera_position: (i64, i64, i64),
    camera_scale: i64,
    camera_dirty: bool,
    exit_requested: bool,
}

impl StagingArea {
    /// The staged sprite operations, oldest first.
    pub closed spec fn staged_sprites(&self) -> Seq<PendingOperation<SpriteData, TransformData>> {
        self.sprite_ops@
    }

    /// The staged text operations, oldest first.
    pub closed spec fn staged_texts(&self) -> Seq<PendingOperation<TextData, TextTransformData>> {
        self.text_ops@
    }

    /// The staged mesh operations, oldest first.
    pub closed spec fn staged_meshes(&self) -> Seq<PendingOperation<MeshData, MeshTransformData>> {
        self.mesh_ops@
    }

    /// The staged rumble commands, oldest first.
    pub closed spec fn staged_rumbles(&self) -> Seq<GamepadRumbleCommand> {
        self.rumbles@
    }

    /// The camera position the last write staged.
    pub closed spec fn staged_camera_position(&self) -> (i64, i64, i64) {
        self.camera_position
    }

    /// The camera scale the last write staged.
    pub closed spec fn staged_camera_scale(&self) -> i64 {
        self.camera_scale
    }

    /// Whether a camera write is waiting to be merged.
    pub closed spec fn staged_camera_dirty(&self) -> bool {
        self.camera_dirty
    }

    /// Whether this context asked the loop to stop.
    pub closed spec fn exit_requested(&self) -> bool {
        self.exit_requested
    }

    /// An empty staging area: nothing staged, camera at the origin at unit
    /// scale and clean, no exit requested.
    pub fn new() -> (r: StagingArea)
        ensures
            r.staged_sprites() == Seq::<PendingOperation<SpriteData, TransformData>>::empty(),
            r.staged_texts() == Seq::<PendingOperation<TextData, TextTransformData>>::empty(),
            r.staged_meshes() == Seq::<PendingOperation<MeshData, MeshTransformData>>::empty(),
            r.staged_rumbles() == Seq::<GamepadRumbleCommand>::empty(),
            r.staged_camera_position() == (0i64, 0i64, 0i64),
            r.staged_camera_scale() == UNIT,
            !r.staged_camera_dirty(),
            !r.exit_requested(),
    {
        StagingArea {
            sprite_ops: Vec::new(),
            text_ops: Vec::new(),
            mesh_ops: Vec::new(),
            rumbles: Vec::new(),
            camera_position: (0, 0, 0),
            camera_scale: UNIT,
            camera_dirty: false,
            exit_requested: false,
        }
    }

    /// Stages a sprite upsert.
    pub fn stage_sprite_upsert(&mut self, id: u64, data: SpriteData, transform: TransformData)
        ensures
            final(self).staged_sprites() == old(self).staged_sprites().push(
                PendingOperation::Upsert { id, data, transform },
            ),
            unchanged_but_sprites(*old(self), *final(self)),
    {
        self.sprite_ops.push(PendingOperation::Upsert { id, data, transform });
    }

    /// Stages a sprite removal.
    pub fn stage_sprite_remove(&mut self, id: u64)
        ensures
            final(self).staged_sprites() == old(self).staged_sprites().push(
                PendingOperation::Remove { id },
            ),
            unchanged_but_sprites(*old(self), *final(self)),
    {
        self.sprite_ops.push(PendingOperation::Remove { id });
    }

    /// Stages a clear of all sprites.
    pub fn stage_sprite_clear(&mut self)
        ensures
            final(self).staged_sprites() == old(self).staged_sprites().push(
                PendingOperation::Clear,
            ),
            unchanged_but_sprites(*old(self), *final(self)),
    {
        self.sprite_ops.push(PendingOperation::Clear);
    }

    /// Stages a text upsert.
    pub fn stage_text_upsert(&mut self, id: u64, data: TextData, transform: TextTransformData)
        ensures
            final(self).staged_texts() == old(self).staged_texts().push(
                PendingOperation::Upsert { id, data, transform },
            ),
            unchanged_but_texts(*old(self), *final(self)),
    {
        self.text_ops.push(PendingOperation::Upsert { id, data, transform });
    }

    /// Stages a text removal.
    pub fn stage_text_remove(&mut self, id: u64)
        ensures
            final(self).staged_texts() == old(self).staged_texts().push(
                PendingOperation::Remove { id },
            ),
            unchanged_but_texts(*old(self), *final(self)),
    {
        self.text_ops.push(PendingOperation::Remove { id });
    }

    /// Stages a clear of all text labels.
    pub fn stage_text_clear(&mut self)
        ensures
            final(self).staged_texts() == old(self).staged_texts().push(PendingOperation::Clear),
            unchanged_but_texts(*old(self), *final(self)),
    {
        self.text_ops.push(PendingOperation::Clear);
    }

    /// Stages a mesh upsert.
    pub fn stage_mesh_upsert(&mut self, id: u64, data: MeshData, transform: MeshTransformData)
        ensures
            final(self).staged_meshes() == old(self).staged_meshes().push(
                PendingOperation::Upsert { id, data, transform },
            ),
            unchanged_but_meshes(*old(self), *final(self)),
    {
        self.mesh_ops.push(PendingOperation::Upsert { id, data, transform });
    }

    /// Stages a mesh removal.
    pub fn stage_mesh_remove(&mut self, id: u64)
        ensures
            final(self).staged_meshes() == old(self).staged_meshes().push(
                PendingOperation::Remove { id },
            ),
            unchanged_but_meshes(*old(self), *final(self)),
    {
        self.mesh_ops.push(PendingOperation::Remove { id });
    }

    /// Stages a clear of all meshes.
    pub fn stage_mesh_clear(&mut self)
        ensures
            final(self).staged_meshes() == old(self).staged_meshes().push(PendingOperation::Clear),
            unchanged_but_meshes(*old(self), *final(self)),
    {
        self.mesh_ops.push(PendingOperation::Clear);
    }

    /// Stages a force-feedback request. A request with both motors at zero
    /// stages a stop for that gamepad.
    pub fn stage_rumble(&mut self, gamepad_id: u64, strong: u32, weak: u32, duration_micros: u64)
        ensures
            final(self).staged_rumbles() == old(self).staged_rumbles().push(
                GamepadRumbleCommand {
                    gamepad_id,
                    strong_motor: strong,
                    weak_motor: weak,
                    duration_micros,
                    stop: strong == 0 && weak == 0,
                },
            ),
            unchanged_but_rumbles(*old(self), *final(self)),
    {
        let stop = strong == 0 && weak == 0;
        self.rumbles.push(
            GamepadRumbleCommand {
                gamepad_id,
                strong_motor: strong,
                weak_motor: weak,
                duration_micros,
                stop,
            },
        );
    }

    /// Stages a camera position; a later write before the merge wins.
    pub fn set_camera_position(&mut self, x: i64, y: i64, z: i64)
        ensures
            final(self).staged_camera_position() == (x, y, z),
            final(self).staged_camera_dirty(),
            final(self).staged_camera_scale() == old(self).staged_camera_scale(),
            unchanged_but_camera(*old(self), *final(self)),
    {
        self.camera_position = (x, y, z);
        self.camera_dirty = true;
    }

    /// Stages a camera scale; a later write before the merge wins.
    pub fn set_camera_scale(&mut self, scale: i64)
        ensures
            final(self).staged_camera_scale() == scale,
            final(self).staged_camera_dirty(),
            final(self).staged_camera_position() == old(self).staged_camera_position(),
            unchanged_but_camera(*old(self), *final(self)),
    {
        self.camera_scale = scale;
        self.camera_dirty = true;
    }

    /// The camera position the scripting side last staged.
    pub fn camera_position(&self) -> (r: (i64, i64, i64))
        ensures
            r == self.staged_camera_position(),
    {
        self.camera_position
    }

    /// The camera scale the scripting side last staged.
    pub fn camera_scale(&self) -> (r: i64)
        ensures
            r == self.staged_camera_scale(),
    {
        self.camera_scale
    }

    /// Requests a graceful stop; the request survives merges and cannot be
    /// taken back.
    pub fn request_exit(&mut self)
        ensures
            final(self).exit_requested(),
            final(self).staged_sprites() == old(self).staged_sprites(),
            final(self).staged_texts() == old(self).staged_texts(),
            final(self).staged_meshes() == old(self).staged_meshes(),
            final(self).staged_rumbles() == old(self).staged_rumbles(),
            final(self).staged_camera_position() == old(self).staged_camera_position(),
            final(self).staged_camera_scale() == old(self).staged_camera_scale(),
            final(self).staged_camera_dirty() == old(self).staged_camera_dirty(),
    {
        self.exit_requested = true;
    }

    /// Moves everything staged into the shared bridge: operations and rumble
    /// commands go to the back of the bridge queues in their staged order;
    /// a dirty camera overwrites the bridge latch; an exit request raises the
    /// bridge flag, which never falls. The input snapshot, picking buffer
    /// and id-to-handle maps of the bridge are untouched.
    pub fn merge_into(&mut self, bridge: &mut RubyBridgeState)
        requires
            old(bridge).wf(),
        ensures
            final(bridge).wf(),
            final(bridge).sprite_sync.pending() == old(bridge).sprite_sync.pending() + old(
                self,
            ).staged_sprites(),
            final(bridge).text_sync.pending() == old(bridge).text_sync.pending() + old(
                self,
            ).staged_texts(),
            final(bridge).mesh_sync.pending() == old(bridge).mesh_sync.pending() + old(
                self,
            ).staged_meshes(),
            final(bridge).sprite_sync.handles() == old(bridge).sprite_sync.handles(),
            final(bridge).text_sync.handles() == old(bridge).text_sync.handles(),
            final(bridge).mesh_sync.handles() == old(bridge).mesh_sync.handles(),
            final(bridge).pending_gamepad_rumble@ == old(bridge).pending_gamepad_rumble@ + old(
                self,
            ).staged_rumbles(),
            final(bridge).camera_dirty == (old(bridge).camera_dirty || old(
                self,
            ).staged_camera_dirty()),
            old(self).staged_camera_dirty() ==> final(bridge).camera_position == old(
                self,
            ).staged_camera_position() && final(bridge).camera_scale == old(
                self,
            ).staged_camera_scale(),
            !old(self).staged_camera_dirty() ==> final(bridge).camera_position == old(
                bridge,
            ).camera_position && final(bridge).camera_scale == old(bridge).camera_scale,
            final(bridge).should_exit == (old(bridge).should_exit || old(self).exit_requested()),
            final(bridge).input_state == old(bridge).input_state,
            final(bridge).picking_events == old(bridge).picking_events,
            final(self).staged_sprites() == Seq::<
                PendingOperation<SpriteData, TransformData>,
            >::empty(),
            final(self).staged_texts() == Seq::<
                PendingOperation<TextData, TextTransformData>,
            >::empty(),
            final(self).staged_meshes() == Seq::<
                PendingOperation<MeshData, MeshTransformData>,
            >::empty(),
            final(self).staged_rumbles() == Seq::<GamepadRumbleCommand>::empty(),
            !final(self).staged_camera_dirty(),
            final(self).staged_camera_position() == old(self).staged_camera_position(),
            final(self).staged_camera_scale() == old(self).staged_camera_scale(),
            final(self).exit_requested() == old(self).exit_requested(),
    {
        bridge.sprite_sync.enqueue_batch(&mut self.sprite_ops);
        bridge.text_sync.enqueue_batch(&mut self.text_ops);
        bridge.mesh_sync.enqueue_batch(&mut self.mesh_ops);
        bridge.pending_gamepad_rumble.append(&mut self.rumbles);
        if self.camera_dirty {
            bridge.camera_position = self.camera_position;
            bridge.camera_scale = self.camera_scale;
            bridge.camera_dirty = true;
            self.camera_dirty = false;
        }
        if self.exit_requested {
            bridge.should_exit = true;
        }
    }
}

/// Everything but the sprite queue is as it was.
pub open spec fn unchanged_but_sprites(a: StagingArea, b: StagingArea) -> bool {
    &&& b.staged_texts() == a.staged_texts()
    &&& b.staged_meshes() == a.staged_meshes()
    &&& b.staged_rumbles() == a.staged_rumbles()
    &&& b.staged_camera_position() == a.staged_camera_position()
    &&& b.staged_camera_scale() == a.staged_camera_scale()
    &&& b.staged_camera_dirty() == a.staged_camera_dirty()
    &&& b.exit_requested() == a.exit_requested()
}

/// Everything but the text queue is as it was.
pub open spec fn unchanged_but_texts(a: StagingArea, b: StagingArea) -> bool {
    &&& b.staged_sprites() == a.staged_sprites()
    &&& b.staged_meshes() == a.staged_meshes()
    &&& b.staged_rumbles() == a.staged_rumbles()
    &&& b.staged_camera_position() == a.staged_camera_position()
    &&& b.staged_camera_scale() == a.staged_camera_scale()
    &&& b.staged_camera_dirty() == a.staged_camera_dirty()
    &&& b.exit_requested() == a.exit_requested()
}

/// Everything but the mesh queue is as it was.
pub open spec fn unchanged_but_meshes(a: StagingArea, b: StagingArea) -> bool {
    &&& b.staged_sprites() == a.staged_sprites()
    &&& b.staged_texts() == a.staged_texts()
    &&& b.staged_rumbles() == a.staged_rumbles()
    &&& b.staged_camera_position() == a.staged_camera_position()
    &&& b.staged_camera_scale() == a.staged_camera_scale()
    &&& b.staged_camera_dirty() == a.staged_camera_dirty()
    &&& b.exit_requested() == a.exit_requested()
}

/// Everything but the rumble queue is as it was.
pub open spec fn unchanged_but_rumbles(a: StagingArea, b: StagingArea) -> bool {
    &&& b.staged_sprites() == a.staged_sprites()
    &&& b.staged_texts() == a.staged_texts()
    &&& b.staged_meshes() == a.staged_meshes()
    &&& b.staged_camera_position() == a.staged_camera_position()
    &&& b.staged_camera_scale() == a.staged_camera_scale()
    &&& b.staged_camera_dirty() == a.staged_camera_dirty()
    &&& b.exit_requested() == a.exit_requested()
}

/// Everything but the camera latch is as it was.
pub open spec fn unchanged_but_camera(a: StagingArea, b: StagingArea) -> bool {
    &&& b.staged_sprites() == a.staged_sprites()
    &&& b.staged_texts() == a.staged_texts()
    &&& b.staged_meshes() == a.staged_meshes()
    &&& b.staged_rumbles() == a.staged_rumbles()
    &&& b.exit_requested() == a.exit_requested()
}

} // verus!
