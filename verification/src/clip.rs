//! Animation clip data: keyframes, tracks, events and the clip library that
//! players, blend nodes and state machines resolve their handles against.
//!
//! Clips are immutable once stored in a [`ClipLibrary`]; the library only
//! accepts well-formed clips (bounded times and values, keyframe times in
//! non-decreasing order), which is what the sampling proofs rest on.

use vstd::prelude::*;

verus! {

use crate::math::{
    quat_in_range,
    transform_in_range,
    vec3_in_range,
    Mat4,
    Quat,
    Transform,
    Vec3,
    VAL_MAX,
};

/// A value carried by one keyframe.
#[derive(Clone, Copy, PartialEq, Eq, Structural, Debug)]
pub enum KeyframeValue {
    Transform(Transform),
    Translation(Vec3),
    Rotation(Quat),
    Scale(Vec3),
    Float(i64),
}

/// How the span from one keyframe to the next is interpolated. The mode of
/// the earlier keyframe of a bracketing pair governs the span.
#[derive(Clone, Copy, PartialEq, Eq, Structural, Debug)]
pub enum InterpolationType {
    Linear,
    Step,
    /// Without explicit tangent data this degrades to linear interpolation.
    CubicSpline,
    Bezier { control_point1: Vec3, control_point2: Vec3 },
}

/// A keyframe in an animation track.
#[derive(Clone, Copy, PartialEq, Eq, Structural, Debug)]
pub struct Keyframe {
    pub time: i64,
    pub value: KeyframeValue,
    pub interpolation: InterpolationType,
}

/// The kind of property a track animates.
#[derive(Clone, Debug)]
pub enum PropertyType {
    Transform,
    Translation,
    Rotation,
    Scale,
    Custom(String),
}

/// A track of keyframes animating one target property, addressed by the name
/// of the joint it drives.
#[derive(Clone, Debug)]
pub struct AnimationTrack {
    pub target_path: String,
    pub keyframes: Vec<Keyframe>,
    pub property_type: PropertyType,
}

/// An event fired at a point of the clip's timeline. The core stores these;
/// dispatching them is the host's concern.
#[derive(Clone, Debug)]
pub struct AnimationEvent {
    pub time: i64,
    pub event_type: String,
    pub parameters: Vec<(String, String)>,
}

/// How playback behaves when the cursor passes the clip's duration.
#[derive(Clone, Copy, PartialEq, Eq, Structural, Debug)]
pub enum LoopMode {
    Once,
    Loop,
    PingPong,
    ClampForever,
}

/// A complete animation clip.
#[derive(Clone, Debug)]
pub struct AnimationClip {
    pub name: String,
    pub duration: i64,
    pub tracks: Vec<AnimationTrack>,
    pub events: Vec<AnimationEvent>,
    pub loop_mode: LoopMode,
}

pub open spec fn value_in_range(v: KeyframeValue) -> bool {
    match v {
        KeyframeValue::Transform(t) => transform_in_range(t),
        KeyframeValue::Translation(p) => vec3_in_range(p),
        KeyframeValue::Rotation(q) => quat_in_range(q),
        KeyframeValue::Scale(s) => vec3_in_range(s),
        KeyframeValue::Float(x) => -VAL_MAX <= x <= VAL_MAX,
    }
}

pub open spec fn interpolation_in_range(m: InterpolationType) -> bool {
    match m {
        InterpolationType::Bezier { control_point1, control_point2 } => vec3_in_range(
            control_point1,
        ) && vec3_in_range(control_point2),
        _ => true,
    }
}

pub open spec fn keyframe_wf(k: Keyframe) -> bool {
    &&& 0 <= k.time <= VAL_MAX
    &&& value_in_range(k.value)
    &&& interpolation_in_range(k.interpolation)
}

/// A track is well formed when every keyframe is bounded and the keyframe
/// times never decrease.
pub open spec fn track_wf(t: AnimationTrack) -> bool {
    &&& forall|i: int| 0 <= i < t.keyframes@.len() ==> keyframe_wf(#[trigger] t.keyframes@[i])
    &&& forall|i: int|
        0 <= i < t.keyframes@.len() - 1 ==> (#[trigger] t.keyframes@[i].time)
            <= t.keyframes@[i + 1].time
}

pub open spec fn clip_wf(c: AnimationClip) -> bool {
    &&& 0 <= c.duration <= VAL_MAX
    &&& forall|i: int| 0 <= i < c.tracks@.len() ==> track_wf(#[trigger] c.tracks@[i])
}

fn value_valid(v: &KeyframeValue) -> (r: bool)
    ensures
        r == value_in_range(*v),
{
    match v {
        KeyframeValue::Transform(t) => {
            -VAL_MAX <= t.translation.x && t.translation.x <= VAL_MAX && -VAL_MAX
                <= t.translation.y && t.translation.y <= VAL_MAX && -VAL_MAX <= t.translation.z
                && t.translation.z <= VAL_MAX && -VAL_MAX <= t.rotation.x && t.rotation.x <= VAL_MAX
                && -VAL_MAX <= t.rotation.y && t.rotation.y <= VAL_MAX && -VAL_MAX <= t.rotation.z
                && t.rotation.z <= VAL_MAX && -VAL_MAX <= t.rotation.w && t.rotation.w <= VAL_MAX
                && -VAL_MAX <= t.scale.x && t.scale.x <= VAL_MAX && -VAL_MAX <= t.scale.y
                && t.scale.y <= VAL_MAX && -VAL_MAX <= t.scale.z && t.scale.z <= VAL_MAX
        },
        KeyframeValue::Translation(p) => {
            -VAL_MAX <= p.x && p.x <= VAL_MAX && -VAL_MAX <= p.y && p.y <= VAL_MAX && -VAL_MAX
                <= p.z && p.z <= VAL_MAX
        },
        KeyframeValue::Rotation(q) => {
            -VAL_MAX <= q.x && q.x <= VAL_MAX && -VAL_MAX <= q.y && q.y <= VAL_MAX && -VAL_MAX
                <= q.z && q.z <= VAL_MAX && -VAL_MAX <= q.w && q.w <= VAL_MAX
        },
        KeyframeValue::Scale(s) => {
            -VAL_MAX <= s.x && s.x <= VAL_MAX && -VAL_MAX <= s.y && s.y <= VAL_MAX && -VAL_MAX
                <= s.z && s.z <= VAL_MAX
        },
        KeyframeValue::Float(x) => -VAL_MAX <= *x && *x <= VAL_MAX,
    }
}

fn interpolation_valid(m: &InterpolationType) -> (r: bool)
    ensures
        r == interpolation_in_range(*m),
{
    match m {
        InterpolationType::Bezier { control_point1, control_point2 } => {
            -VAL_MAX <= control_point1.x && control_point1.x <= VAL_MAX && -VAL_MAX
                <= control_point1.y && control_point1.y <= VAL_MAX && -VAL_MAX <= control_point1.z
                && control_point1.z <= VAL_MAX && -VAL_MAX <= control_point2.x && control_point2.x
                <= VAL_MAX && -VAL_MAX <= control_point2.y && control_point2.y <= VAL_MAX
                && -VAL_MAX <= control_point2.z && control_point2.z <= VAL_MAX
        },
        _ => true,
    }
}

/// Whether a track satisfies [`track_wf`].
pub fn track_valid(t: &AnimationTrack) -> (r: bool)
    ensures
        r == track_wf(*t),
{
    let n: usize = t.keyframes.len();
    let mut i: usize = 0;
    while i < n
        invariant
            n == t.keyframes@.len(),
            0 <= i <= n,
            forall|j: int| 0 <= j < i ==> keyframe_wf(#[trigger] t.keyframes@[j]),
            forall|j: int|
                0 <= j < i && j + 1 < n ==> (#[trigger] t.keyframes@[j].time) <= t.keyframes@[j
                    + 1].time,
        decreases n - i,
    {
        let k = &t.keyframes[i];
        if !(0 <= k.time && k.time <= VAL_MAX) {
            return false;
        }
        if !value_valid(&k.value) {
            return false;
        }
        if !interpolation_valid(&k.interpolation) {
            return false;
        }
        if i + 1 < n {
            if k.time > t.keyframes[i + 1].time {
                return false;
            }
        }
        i = i + 1;
    }
    true
}

/// Whether a clip satisfies [`clip_wf`].
pub fn clip_valid(c: &AnimationClip) -> (r: bool)
    ensures
        r == clip_wf(*c),
{
    if !(0 <= c.duration && c.duration <= VAL_MAX) {
        return false;
    }
    let n: usize = c.tracks.len();
    let mut i: usize = 0;
    while i < n
        invariant
            n == c.tracks@.len(),
            0 <= i <= n,
            forall|j: int| 0 <= j < i ==> track_wf(#[trigger] c.tracks@[j]),
        decreases n - i,
    {
        if !track_valid(&c.tracks[i]) {
            return false;
        }
        i = i + 1;
    }
    true
}

/// The clip a handle resolves to in a library, if any.
pub open spec fn clip_of(clips: ClipLibrary, h: ClipHandle) -> Option<AnimationClip> {
    if h.id < clips.spec_clips().len() {
        Some(clips.spec_clips()[h.id as int])
    } else {
        None
    }
}

/// A stable reference to a clip stored in a [`ClipLibrary`].
#[derive(Clone, Copy, PartialEq, Eq, Structural, Debug)]
pub struct ClipHandle {
    pub id: usize,
}

/// Shared, immutable clip storage: the stand-in for the host's asset store.
/// Clips are only added, never mutated or removed, so a handle stays valid
/// for the library's lifetime.
#[derive(Clone, Debug)]
pub struct ClipLibrary {
    clips: Vec<AnimationClip>,
}

impl ClipLibrary {
    /// The clips stored so far, in insertion order.
    pub closed spec fn spec_clips(&self) -> Seq<AnimationClip> {
        self.clips@
    }

    /// Every stored clip is well formed.
    pub open spec fn wf(&self) -> bool {
        forall|i: int|
            0 <= i < self.spec_clips().len() ==> clip_wf(#[trigger] self.spec_clips()[i])
    }

    /// An empty library.
    pub fn new() -> (r: ClipLibrary)
        ensures
            r.spec_clips() =~= Seq::<AnimationClip>::empty(),
            r.wf(),
    {
        ClipLibrary { clips: Vec::new() }
    }

    /// Stores a clip and hands back its handle; rejects a clip that is not
    /// well formed, leaving the library unchanged.
    pub fn add(&mut self, clip: AnimationClip) -> (r: Option<ClipHandle>)
        requires
            old(self).wf(),
        ensures
            final(self).wf(),
            clip_wf(clip) ==> (r matches Some(h) && h.id == old(self).spec_clips().len()
                && final(self).spec_clips() =~= old(self).spec_clips().push(clip)),
            !clip_wf(clip) ==> (r is None && final(self).spec_clips() =~= old(self).spec_clips()),
    {
        if clip_valid(&clip) {
            let id: usize = self.clips.len();
            self.clips.push(clip);
            proof {
                assert(self.spec_clips() =~= old(self).spec_clips().push(clip));
                assert forall|i: int| 0 <= i < self.spec_clips().len() implies clip_wf(
                    #[trigger] self.spec_clips()[i],
                ) by {
                    if i < old(self).spec_clips().len() {
                        assert(clip_wf(old(self).spec_clips()[i]));
                    }
                }
            }
            Some(ClipHandle { id })
        } else {
            None
        }
    }

    /// Resolves a handle; `None` exactly when the handle is dangling.
    pub fn get(&self, handle: &ClipHandle) -> (r: Option<&AnimationClip>)
        ensures
            handle.id < self.spec_clips().len() ==> (r matches Some(c) && *c
                == self.spec_clips()[handle.id as int]),
            handle.id >= self.spec_clips().len() ==> r is None,
    {
        if handle.id < self.clips.len() {
            Some(&self.clips[handle.id])
        } else {
            None
        }
    }

    /// Number of stored clips.
    pub fn len(&self) -> (r: usize)
        ensures
            r == self.spec_clips().len(),
    {
        self.clips.len()
    }
}

} // verus!
