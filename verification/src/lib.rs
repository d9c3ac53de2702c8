//! A frame-synchronization bridge between a real-time engine loop and a
//! scripting context, together with the small registries that surround it.
//!
//! The engine ticks once per frame. Each frame it publishes a snapshot of the
//! polled device state and the pointer-interaction events, hands control to a
//! script callback, and then drains the commands the script staged: entity
//! upserts and removals per kind, a coalesced camera update, force-feedback
//! requests, and an exit request. The modules here give that exchange exact
//! contracts: queued operations are applied in order, exactly once; each
//! external id owns at most one native handle; reads of the picking buffer
//! consume it; the exit flag only ever rises.

pub mod asset;
pub mod audio;
pub mod camera;
pub mod component;
pub mod entity_sync;
pub mod error;
pub mod event;
pub mod gamepad;
pub mod idmap;
pub mod input_bridge;
pub mod material;
pub mod mesh_renderer;
pub mod render_app;
pub mod resource;
pub mod schedule;
pub mod sprite_renderer;
pub mod staging;
pub mod store;
pub mod strcoll;
pub mod system;
pub mod text_renderer;
pub mod units;

pub use asset::{
    AssetChangeEvent, AssetChangeType, AssetId, AssetLoadQueue, AssetLoadRequest, AssetLoadState,
    AssetMeta, AssetRegistry, FileObservation, FileWatcher,
};
pub use audio::{AudioQueue, PlaybackMode};
pub use camera::ViewportConfig;
pub use component::{AttributeDescriptor, AttributeType, ComponentData, ComponentMetadata};
pub use entity_sync::{EntityStore, EntitySync, PendingOperation};
pub use error::BevyRubyError;
pub use event::{DynamicValue, Event, EventQueue, Events};
pub use gamepad::{GamepadAxisType, GamepadButton};
pub use idmap::IdMap;
pub use input_bridge::{DevicePoll, GamepadInputState, GamepadPoll, InputState};
pub use material::BlendMode;
pub use mesh_renderer::{MeshData, MeshSync, MeshTransformData, ShapeType};
pub use render_app::{
    CameraUpdate, FrameOutput, GamepadRumbleCommand, PickingEventData, PickingEventKind,
    PointerButton, PointerId, RubyBridgeState, RumbleOutcome,
};
pub use resource::ResourceWrapper;
pub use schedule::{Schedule, ScheduleConfig, Schedules, SystemOrdering, SystemSet};
pub use sprite_renderer::{SpriteData, SpriteSync, TransformData};
pub use staging::StagingArea;
pub use store::KindStore;
pub use strcoll::{StrMap, StrSet};
pub use system::{ScheduleLabel, SystemDescriptor};
pub use text_renderer::{TextData, TextSync, TextTransformData};
