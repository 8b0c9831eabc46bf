//! Verified core of a skeletal-animation engine.
//!
//! The crate models times, weights and animated component values as
//! fixed-point integers (thousandths, see [`math::SCALE`]), and proves the
//! behaviour of keyframe sampling, playback-time correction, blend-tree
//! evaluation and the animation state machine against exact contracts.
//! Host concerns (rendering, device resources, asset I/O) appear only as
//! plain data descriptors.

pub mod blend;
pub mod clip;
pub mod debug;
pub mod math;
pub mod player;
pub mod resources;
pub mod sampler;
pub mod skeleton;
pub mod state_machine;

pub use crate::math::{Mat4, Quat, Transform, Vec3, SCALE, VAL_MAX};
pub use crate::clip::{
    AnimationClip, AnimationEvent, AnimationTrack, ClipHandle, ClipLibrary, InterpolationType,
    Keyframe, KeyframeValue, LoopMode, PropertyType,
};
pub use crate::blend::{BlendNode, BlendParameter, BlendPose, BlendTree, BlendType};
pub use crate::debug::AnimationDebugVisualization;
pub use crate::player::{AnimationPlayer, SPEED_MAX, TIME_MAX};
pub use crate::resources::{
    AssetError, AudioError, GraphicsError, Renderable, Texture, VertexBuffer,
};
pub use crate::skeleton::{Joint, Skeleton};
pub use crate::state_machine::{
    AnimationState, AnimationStateMachine, Condition, Parameter, Transition,
};
