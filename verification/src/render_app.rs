//! The shared bridge state and its frame protocol.
//!
//! `RubyBridgeState` is the one object the engine tick context and the script
//! calling context share (under one lock, held by the caller — see the
//! runtime shell around this crate). Per frame, the engine calls
//! `begin_frame` to overwrite the input snapshot and the picking buffer,
//! invokes the script callback, and then calls `end_frame` to drain
//! everything the script staged: per-kind entity queues first (sprites, then
//! text, then meshes), then the camera latch, then the rumble queue, then
//! the exit check — in that fixed order.

use vstd::prelude::*;

use crate::entity_sync::{
    apply_ops, id_view, keeps, links_into, store_footprint, EntityStore, EntitySync,
    PendingOperation,
};
use crate::input_bridge::{captured, DevicePoll, InputState};
use crate::mesh_renderer::{MeshData, MeshSync, MeshTransformData};
use crate::sprite_renderer::{SpriteData, SpriteSync, TransformData};
use crate::text_renderer::{TextData, TextSync, TextTransformData};
use crate::units::UNIT;

verus! {

/// Full force-feedback intensity in fixed-point micro-units; intensities are
/// clamped to `0..=RUMBLE_UNIT` when the queue is drained.
pub const RUMBLE_UNIT: u32 = 1_000_000;

/// One queued force-feedback request for a gamepad. Intensities are
/// fixed-point micro-units of full strength; the duration is in
/// microseconds. A command with `stop` set, or with both motors at zero,
/// stops the gamepad's rumble instead.
#[derive(Debug, Clone, Copy, PartialEq, Eq, Structural)]
pub struct GamepadRumbleCommand {
    pub gamepad_id: u64,
    pub strong_motor: u32,
    pub weak_motor: u32,
    pub duration_micros: u64,
    pub stop: bool,
}

/// What the engine must send to a gamepad for one drained rumble command.
#[derive(Debug, Clone, Copy, PartialEq, Eq, Structural)]
pub enum RumbleOutcome {
    Stop { gamepad_id: u64 },
    Add { gamepad_id: u64, strong_motor: u32, weak_motor: u32, duration_micros: u64 },
}

/// The outcome a drained rumble command maps to: a stop for a stop command
/// or a dead one, else the intensities clamped to full strength.
pub open spec fn rumble_outcome(c: GamepadRumbleCommand) -> RumbleOutcome {
    if c.stop || (c.strong_motor == 0 && c.weak_motor == 0) {
        RumbleOutcome::Stop { gamepad_id: c.gamepad_id }
    } else {
        RumbleOutcome::Add {
            gamepad_id: c.gamepad_id,
            strong_motor: if c.strong_motor > RUMBLE_UNIT {
                RUMBLE_UNIT
            } else {
                c.strong_motor
            },
            weak_motor: if c.weak_motor > RUMBLE_UNIT {
                RUMBLE_UNIT
            } else {
                c.weak_motor
            },
            duration_micros: c.duration_micros,
        }
    }
}

/// How a pointer interacted with an entity.
#[derive(Debug, Clone, Copy, PartialEq, Eq, Structural)]
pub enum PickingEventKind {
    HoverEnter,
    HoverExit,
    Press,
    Release,
    Click,
}

/// Which pointer produced a picking event.
#[derive(Debug, Clone, Copy, PartialEq, Eq, Structural)]
pub enum PointerId {
    Mouse,
    Touch(u64),
    Custom(u64),
}

/// Which pointer button was involved.
#[derive(Debug, Clone, Copy, PartialEq, Eq, Structural)]
pub enum PointerButton {
    Primary,
    Secondary,
    Middle,
}

/// One pointer-interaction event, as accumulated during a frame's poll.
/// Positions, depths and normals are fixed-point micro-units.
#[derive(Debug, Clone, Copy, PartialEq, Eq)]
pub struct PickingEventData {
    pub kind: PickingEventKind,
    pub target_id: u64,
    pub pointer_id: PointerId,
    pub pointer_position: (i64, i64),
    pub button: Option<PointerButton>,
    pub camera_id: Option<u64>,
    pub depth: Option<i64>,
    pub hit_position: Option<(i64, i64, i64)>,
    pub hit_normal: Option<(i64, i64, i64)>,
}

/// The coalesced camera update a frame's drain applies, if the latch was
/// dirty: the last position and scale written before the drain.
#[derive(Debug, Clone, Copy, PartialEq, Eq)]
pub struct CameraUpdate {
    pub position: (i64, i64, i64),
    pub scale: i64,
}

/// Everything one `end_frame` hands back to the engine loop: at most one
/// camera update, the drained rumble outcomes in order, and whether the loop
/// should terminate after this frame.
pub struct FrameOutput {
    pub camera: Option<CameraUpdate>,
    pub rumbles: Vec<RumbleOutcome>,
    pub exit: bool,
}

/// The one object shared between the engine tick context and the script
/// calling context.
pub struct RubyBridgeState {
    pub input_state: InputState,
    pub sprite_sync: SpriteSync,
    pub text_sync: TextSync,
    pub mesh_sync: MeshSync,
    pub pending_gamepad_rumble: Vec<GamepadRumbleCommand>,
    pub picking_events: Vec<PickingEventData>,
    pub should_exit: bool,
    pub camera_position: (i64, i64, i64),
    pub camera_scale: i64,
    pub camera_dirty: bool,
}

impl RubyBridgeState {
    pub open spec fn wf(&self) -> bool {
        &&& self.input_state.wf()
        &&& self.sprite_sync.wf()
        &&& self.text_sync.wf()
        &&& self.mesh_sync.wf()
    }

    /// A bridge with empty snapshot, empty queues, camera at the origin at
    /// unit scale, latch clean, and no exit requested.
    pub fn new() -> (r: RubyBridgeState)
        ensures
            r.wf(),
            r.sprite_sync.handles() == Map::<u64, u64>::empty(),
            r.sprite_sync.pending() == Seq::<PendingOperation<SpriteData, TransformData>>::empty(),
            r.text_sync.handles() == Map::<u64, u64>::empty(),
            r.text_sync.pending() == Seq::<PendingOperation<TextData, TextTransformData>>::empty(),
            r.mesh_sync.handles() == Map::<u64, u64>::empty(),
            r.mesh_sync.pending() == Seq::<PendingOperation<MeshData, MeshTransformData>>::empty(),
            r.pending_gamepad_rumble@ == Seq::<GamepadRumbleCommand>::empty(),
            r.picking_events@ == Seq::<PickingEventData>::empty(),
            !r.should_exit,
            r.camera_position == (0i64, 0i64, 0i64),
            r.camera_scale == UNIT,
            !r.camera_dirty,
    {
        RubyBridgeState {
            input_state: InputState::new(),
            sprite_sync: EntitySync::new(),
            text_sync: EntitySync::new(),
            mesh_sync: EntitySync::new(),
            pending_gamepad_rumble: Vec::new(),
            picking_events: Vec::new(),
            should_exit: false,
            camera_position: (0, 0, 0),
            camera_scale: UNIT,
            camera_dirty: false,
        }
    }

    /// Overwrites the input snapshot from this frame's device poll and
    /// refills the picking buffer with this frame's events. Queues, latch
    /// and exit flag are untouched.
    pub fn begin_frame(&mut self, poll: &DevicePoll, picking: Vec<PickingEventData>)
        requires
            old(self).wf(),
            poll.wf(),
        ensures
            final(self).wf(),
            captured(old(self).input_state, *poll, final(self).input_state),
            final(self).picking_events@ == picking@,
            final(self).sprite_sync == old(self).sprite_sync,
            final(self).text_sync == old(self).text_sync,
            final(self).mesh_sync == old(self).mesh_sync,
            final(self).pending_gamepad_rumble == old(self).pending_gamepad_rumble,
            final(self).should_exit == old(self).should_exit,
            final(self).camera_position == old(self).camera_position,
            final(self).camera_scale == old(self).camera_scale,
            final(self).camera_dirty == old(self).camera_dirty,
    {
        self.input_state.capture(poll);
        self.picking_events = picking;
    }

    /// The snapshot of the last completed capture.
    pub fn read_input_snapshot(&self) -> (r: &InputState)
        ensures
            r == &self.input_state,
    {
        &self.input_state
    }

    /// Takes this frame's picking events, leaving the buffer empty: a second
    /// read before the next `begin_frame` returns nothing.
    pub fn read_picking_events(&mut self) -> (r: Vec<PickingEventData>)
        requires
            old(self).wf(),
        ensures
            final(self).wf(),
            r@ == old(self).picking_events@,
            final(self).picking_events@ == Seq::<PickingEventData>::empty(),
            final(self).input_state == old(self).input_state,
            final(self).sprite_sync == old(self).sprite_sync,
            final(self).text_sync == old(self).text_sync,
            final(self).mesh_sync == old(self).mesh_sync,
            final(self).pending_gamepad_rumble == old(self).pending_gamepad_rumble,
            final(self).should_exit == old(self).should_exit,
            final(self).camera_position == old(self).camera_position,
            final(self).camera_scale == old(self).camera_scale,
            final(self).camera_dirty == old(self).camera_dirty,
    {
        let mut out: Vec<PickingEventData> = Vec::new();
        core::mem::swap(&mut out, &mut self.picking_events);
        out
    }

    /// Requests a graceful stop. The flag only ever rises: once set, every
    /// later frame observes it set.
    pub fn request_exit(&mut self)
        requires
            old(self).wf(),
        ensures
            final(self).wf(),
            final(self).should_exit,
            final(self).input_state == old(self).input_state,
            final(self).sprite_sync == old(self).sprite_sync,
            final(self).text_sync == old(self).text_sync,
            final(self).mesh_sync == old(self).mesh_sync,
            final(self).pending_gamepad_rumble == old(self).pending_gamepad_rumble,
            final(self).picking_events == old(self).picking_events,
            final(self).camera_position == old(self).camera_position,
            final(self).camera_scale == old(self).camera_scale,
            final(self).camera_dirty == old(self).camera_dirty,
    {
        self.should_exit = true;
    }

    /// Drains the frame: applies the three entity queues against their
    /// stores in the fixed order sprites, text, meshes; consumes the camera
    /// latch if dirty and clears the flag; drains and clamps the rumble
    /// queue; and reports the exit flag, which persists.
    pub fn end_frame<SS, TS, MS>(
        &mut self,
        sprites: &mut SS,
        texts: &mut TS,
        meshes: &mut MS,
    ) -> (out: FrameOutput) where
        SS: EntityStore<SpriteData, TransformData>,
        TS: EntityStore<TextData, TextTransformData>,
        MS: EntityStore<MeshData, MeshTransformData>,

        requires
            old(self).wf(),
            old(sprites).inv(),
            old(texts).inv(),
            old(meshes).inv(),
            links_into(old(self).sprite_sync.handles(), old(sprites).view()),
            links_into(old(self).text_sync.handles(), old(texts).view()),
            links_into(old(self).mesh_sync.handles(), old(meshes).view()),
        ensures
            final(self).wf(),
            final(sprites).inv(),
            final(texts).inv(),
            final(meshes).inv(),
            links_into(final(self).sprite_sync.handles(), final(sprites).view()),
            links_into(final(self).text_sync.handles(), final(texts).view()),
            links_into(final(self).mesh_sync.handles(), final(meshes).view()),
            // Each kind's observed map is its queue folded over, in order.
            final(self).sprite_sync.pending() == Seq::<
                PendingOperation<SpriteData, TransformData>,
            >::empty(),
            id_view(final(self).sprite_sync.handles(), final(sprites).view()) == apply_ops(
                id_view(old(self).sprite_sync.handles(), old(sprites).view()),
                old(self).sprite_sync.pending(),
            ),
            final(self).text_sync.pending() == Seq::<
                PendingOperation<TextData, TextTransformData>,
            >::empty(),
            id_view(final(self).text_sync.handles(), final(texts).view()) == apply_ops(
                id_view(old(self).text_sync.handles(), old(texts).view()),
                old(self).text_sync.pending(),
            ),
            final(self).mesh_sync.pending() == Seq::<
                PendingOperation<MeshData, MeshTransformData>,
            >::empty(),
            id_view(final(self).mesh_sync.handles(), final(meshes).view()) == apply_ops(
                id_view(old(self).mesh_sync.handles(), old(meshes).view()),
                old(self).mesh_sync.pending(),
            ),
            // Each store holds exactly its never-owned old entries plus the
            // entities its links now own: removed and cleared entities are
            // despawned, and nothing unowned is spawned.
            store_footprint(
                old(sprites).view(),
                old(self).sprite_sync.handles(),
                final(self).sprite_sync.handles(),
                final(sprites).view(),
            ),
            store_footprint(
                old(texts).view(),
                old(self).text_sync.handles(),
                final(self).text_sync.handles(),
                final(texts).view(),
            ),
            store_footprint(
                old(meshes).view(),
                old(self).mesh_sync.handles(),
                final(self).mesh_sync.handles(),
                final(meshes).view(),
            ),
            // Ids whose handle no drained operation takes away keep it.
            forall|id: u64|
                old(self).sprite_sync.handles().dom().contains(id) && keeps(
                    old(self).sprite_sync.pending(),
                    id,
                ) ==> #[trigger] final(self).sprite_sync.handles().dom().contains(id)
                    && final(self).sprite_sync.handles()[id]
                    == old(self).sprite_sync.handles()[id],
            forall|id: u64|
                old(self).text_sync.handles().dom().contains(id) && keeps(
                    old(self).text_sync.pending(),
                    id,
                ) ==> #[trigger] final(self).text_sync.handles().dom().contains(id)
                    && final(self).text_sync.handles()[id]
                    == old(self).text_sync.handles()[id],
            forall|id: u64|
                old(self).mesh_sync.handles().dom().contains(id) && keeps(
                    old(self).mesh_sync.pending(),
                    id,
                ) ==> #[trigger] final(self).mesh_sync.handles().dom().contains(id)
                    && final(self).mesh_sync.handles()[id]
                    == old(self).mesh_sync.handles()[id],
            // The camera latch is consumed exactly once and cleared.
            out.camera == (if old(self).camera_dirty {
                Some(
                    CameraUpdate {
                        position: old(self).camera_position,
                        scale: old(self).camera_scale,
                    },
                )
            } else {
                Option::<CameraUpdate>::None
            }),
            !final(self).camera_dirty,
            final(self).camera_position == old(self).camera_position,
            final(self).camera_scale == old(self).camera_scale,
            // Every queued rumble command is drained, in order, clamped.
            out.rumbles@.len() == old(self).pending_gamepad_rumble@.len(),
            forall|i: int|
                0 <= i < out.rumbles@.len() ==> out.rumbles@[i] == rumble_outcome(
                    old(self).pending_gamepad_rumble@[i],
                ),
            final(self).pending_gamepad_rumble@ == Seq::<GamepadRumbleCommand>::empty(),
            // The exit flag is reported and persists.
            out.exit == old(self).should_exit,
            final(self).should_exit == old(self).should_exit,
            final(self).input_state == old(self).input_state,
            final(self).picking_events == old(self).picking_events,
    {
        self.sprite_sync.apply_pending(sprites);
        self.text_sync.apply_pending(texts);
        self.mesh_sync.apply_pending(meshes);

        let camera: Option<CameraUpdate> = if self.camera_dirty {
            self.camera_dirty = false;
            Some(CameraUpdate { position: self.camera_position, scale: self.camera_scale })
        } else {
            None
        };

        let mut rumbles: Vec<RumbleOutcome> = Vec::new();
        let n = self.pending_gamepad_rumble.len();
        let mut i: usize = 0;
        while i < n
            invariant
                n == self.pending_gamepad_rumble@.len(),
                i <= n,
                rumbles@.len() == i,
                forall|j: int|
                    0 <= j < i ==> rumbles@[j] == rumble_outcome(
                        self.pending_gamepad_rumble@[j],
                    ),
            decreases n - i,
        {
            let c = self.pending_gamepad_rumble[i];
            if c.stop || (c.strong_motor == 0 && c.weak_motor == 0) {
                rumbles.push(RumbleOutcome::Stop { gamepad_id: c.gamepad_id });
            } else {
                let strong = if c.strong_motor > RUMBLE_UNIT {
                    RUMBLE_UNIT
                } else {
                    c.strong_motor
                };
                let weak = if c.weak_motor > RUMBLE_UNIT {
                    RUMBLE_UNIT
                } else {
                    c.weak_motor
                };
                rumbles.push(
                    RumbleOutcome::Add {
                        gamepad_id: c.gamepad_id,
                        strong_motor: strong,
                        weak_motor: weak,
                        duration_micros: c.duration_micros,
                    },
                );
            }
            i = i + 1;
        }
        self.pending_gamepad_rumble.clear();

        FrameOutput { camera, rumbles, exit: self.should_exit }
    }
}

impl Default for RubyBridgeState {
    /// The same bridge `new` builds.
    fn default() -> (r: RubyBridgeState)
        ensures
            r.wf(),
            !r.should_exit,
            !r.camera_dirty,
    {
        RubyBridgeState::new()
    }
}

} // verus!
