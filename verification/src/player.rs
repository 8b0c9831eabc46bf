//! Playback: the per-entity animation player, loop-mode time correction and
//! the per-tick update that samples the active clip's tracks into a
//! skeleton's joint transforms.

use vstd::prelude::*;

verus! {

use vstd::arithmetic::div_mod::lemma_fundamental_div_mod_converse;
use crate::clip::{
    clip_wf,
    track_wf,
    AnimationClip,
    AnimationTrack,
    ClipHandle,
    ClipLibrary,
    KeyframeValue,
    LoopMode,
};
use crate::math::{tdiv, tmod, Transform, SCALE, VAL_MAX};
use crate::sampler::{sample, sample_track_spec};
use crate::skeleton::{
    find_joint_by_path,
    joint_names,
    joint_transforms,
    name_index_of,
    same_structure,
    Skeleton,
};

/// Largest playback-speed magnitude: one thousand times real time.
pub const SPEED_MAX: i64 = 1_000_000;

/// Largest playback-cursor magnitude a player may carry into a tick.
pub const TIME_MAX: i64 = 1_000_000_000_000;

/// Per-entity playback cursor. `speed` is a fixed-point multiplier
/// (`SCALE` is real time). Stopping and pausing both clear the playing flag
/// and retain the cursor; `play` rewinds it to zero.
#[derive(Clone, Copy, Debug)]
pub struct AnimationPlayer {
    pub current_animation: Option<ClipHandle>,
    pub time: i64,
    pub speed: i64,
    pub is_playing: bool,
}

impl AnimationPlayer {
    /// A stopped player with no clip, at time zero and real-time speed.
    pub fn new() -> (r: AnimationPlayer)
        ensures
            r.current_animation is None,
            r.time == 0,
            r.speed == SCALE,
            !r.is_playing,
    {
        AnimationPlayer { current_animation: None, time: 0, speed: SCALE, is_playing: false }
    }

    /// Starts playing a clip from its beginning.
    pub fn play(&mut self, animation: ClipHandle)
        ensures
            final(self).current_animation == Some(animation),
            final(self).time == 0,
            final(self).is_playing,
            final(self).speed == old(self).speed,
    {
        self.current_animation = Some(animation);
        self.time = 0;
        self.is_playing = true;
    }

    /// Stops playback; the cursor is retained, not rewound.
    pub fn stop(&mut self)
        ensures
            !final(self).is_playing,
            final(self).current_animation == old(self).current_animation,
            final(self).time == old(self).time,
            final(self).speed == old(self).speed,
    {
        self.is_playing = false;
    }

    /// Freezes playback at the current cursor.
    pub fn pause(&mut self)
        ensures
            !final(self).is_playing,
            final(self).current_animation == old(self).current_animation,
            final(self).time == old(self).time,
            final(self).speed == old(self).speed,
    {
        self.is_playing = false;
    }

    /// Continues playback from the frozen cursor.
    pub fn resume(&mut self)
        ensures
            final(self).is_playing,
            final(self).current_animation == old(self).current_animation,
            final(self).time == old(self).time,
            final(self).speed == old(self).speed,
    {
        self.is_playing = true;
    }

    /// Moves the cursor directly, in any playback state.
    pub fn seek(&mut self, time: i64)
        ensures
            final(self).time == time,
            final(self).current_animation == old(self).current_animation,
            final(self).is_playing == old(self).is_playing,
            final(self).speed == old(self).speed,
    {
        self.time = time;
    }
}

/// The cursor after loop-mode correction. A non-positive duration is a
/// degenerate clip: looping modes pin it to time zero.
pub open spec fn corrected_time(mode: LoopMode, t: int, d: int) -> int {
    match mode {
        LoopMode::Once => if t >= d {
            d
        } else {
            t
        },
        LoopMode::Loop => if d <= 0 {
            0
        } else {
            tmod(t, d)
        },
        LoopMode::PingPong => if d <= 0 {
            0
        } else if tmod(tdiv(t, d), 2) == 0 {
            tmod(t, d)
        } else {
            d - tmod(t, d)
        },
        LoopMode::ClampForever => if t >= d {
            d
        } else {
            t
        },
    }
}

/// Whether playback continues after correction: only `Once` stops the
/// player, when the cursor has reached the duration. `ClampForever` freezes
/// at the final pose but stays playing.
pub open spec fn still_playing(mode: LoopMode, t: int, d: int) -> bool {
    !(mode is Once && t >= d)
}

/// The cursor advanced by one tick: `delta` scaled by the player's speed.
pub open spec fn advanced_time(t: int, speed: int, delta: int) -> int {
    t + tdiv(delta * speed, SCALE as int)
}

/// Applies loop-mode correction to an advanced cursor.
pub fn correct_time(mode: LoopMode, t: i64, d: i64) -> (r: i64)
    requires
        -4 * TIME_MAX <= t <= 4 * TIME_MAX,
        0 <= d <= VAL_MAX,
    ensures
        r == corrected_time(mode, t as int, d as int),
{
    match mode {
        LoopMode::Once => if t >= d {
            d
        } else {
            t
        },
        LoopMode::Loop => if d <= 0 {
            0
        } else {
            t % d
        },
        LoopMode::PingPong => {
            if d <= 0 {
                0
            } else {
                let cycle: i64 = t / d;
                if cycle % 2 == 0 {
                    t % d
                } else {
                    d - (t % d)
                }
            }
        },
        LoopMode::ClampForever => if t >= d {
            d
        } else {
            t
        },
    }
}

/// Advancing a looping clip of duration `d` just past a whole cycle wraps
/// the cursor back to the small remainder.
pub proof fn lemma_loop_wraps(d: int, eps: int)
    requires
        0 < eps < d,
    ensures
        corrected_time(LoopMode::Loop, d + eps, d) == eps,
{
    lemma_fundamental_div_mod_converse(d + eps, d, 1, eps);
}

/// Half way into the second cycle, ping-pong plays the first cycle
/// backward: the corrected cursor at `1.5 * d` equals `d - d / 2`.
pub proof fn lemma_pingpong_reverses(d: int)
    requires
        0 < d,
    ensures
        corrected_time(LoopMode::PingPong, d + d / 2, d) == d - d / 2,
{
    lemma_fundamental_div_mod_converse(d + d / 2, d, 1, d / 2);
}

/// At an exact whole multiple of the duration, ping-pong sits at an end of
/// the clip: time zero after even cycles, the full duration after odd ones.
pub proof fn lemma_pingpong_whole(d: int, k: int)
    requires
        0 < d,
        0 <= k,
    ensures
        k % 2 == 0 ==> corrected_time(LoopMode::PingPong, k * d, d) == 0,
        k % 2 == 1 ==> corrected_time(LoopMode::PingPong, k * d, d) == d,
{
    assert(k * d == d * k + 0) by (nonlinear_arith);
    assert(k * d >= 0) by (nonlinear_arith)
        requires
            k >= 0,
            d > 0,
    ;
    lemma_fundamental_div_mod_converse(k * d, d, k, 0);
}

/// A pose with one joint's animated property replaced by a sampled value.
/// A scalar sample does not address a transform property and leaves the
/// pose unchanged.
pub open spec fn apply_value_to_pose(pose: Seq<Transform>, j: int, v: KeyframeValue) -> Seq<
    Transform,
> {
    match v {
        KeyframeValue::Transform(t) => pose.update(j, t),
        KeyframeValue::Translation(p) => pose.update(
            j,
            Transform { translation: p, rotation: pose[j].rotation, scale: pose[j].scale },
        ),
        KeyframeValue::Rotation(q) => pose.update(
            j,
            Transform { translation: pose[j].translation, rotation: q, scale: pose[j].scale },
        ),
        KeyframeValue::Scale(s) => pose.update(
            j,
            Transform { translation: pose[j].translation, rotation: pose[j].rotation, scale: s },
        ),
        KeyframeValue::Float(x) => pose,
    }
}

/// The pose after one track has been sampled at time `t` and written to the
/// joint its target path names. A missing bracket, a missing joint or a
/// scalar value leaves the pose untouched.
pub open spec fn apply_track_to_pose(
    names: Seq<Seq<char>>,
    pose: Seq<Transform>,
    track: AnimationTrack,
    t: int,
) -> Seq<Transform> {
    match sample_track_spec(track, t) {
        None => pose,
        Some(v) => match name_index_of(names, track.target_path@) {
            None => pose,
            Some(j) => apply_value_to_pose(pose, j, v),
        },
    }
}

/// The pose after the first `k` tracks have been applied, in track order.
pub open spec fn apply_tracks_prefix(
    names: Seq<Seq<char>>,
    pose: Seq<Transform>,
    tracks: Seq<AnimationTrack>,
    t: int,
    k: int,
) -> Seq<Transform>
    decreases k,
{
    if k <= 0 {
        pose
    } else {
        apply_track_to_pose(
            names,
            apply_tracks_prefix(names, pose, tracks, t, k - 1),
            tracks[k - 1],
            t,
        )
    }
}

/// The pose after every track of a clip has been applied at time `t`.
pub open spec fn apply_clip_to_pose(
    names: Seq<Seq<char>>,
    pose: Seq<Transform>,
    tracks: Seq<AnimationTrack>,
    t: int,
) -> Seq<Transform> {
    apply_tracks_prefix(names, pose, tracks, t, tracks.len() as int)
}

/// Samples one track at `time` and writes the value into the joint the
/// track's target path names; a miss anywhere leaves the skeleton as it was.
pub fn apply_track(track: &AnimationTrack, time: i64, skeleton: &mut Skeleton)
    requires
        track_wf(*track),
    ensures
        same_structure(*old(skeleton), *final(skeleton)),
        joint_names(*final(skeleton)) =~= joint_names(*old(skeleton)),
        joint_transforms(*final(skeleton)) =~= apply_track_to_pose(
            joint_names(*old(skeleton)),
            joint_transforms(*old(skeleton)),
            *track,
            time as int,
        ),
{
    let sampled = sample(track, time);
    match sampled {
        None => {},
        Some(v) => {
            match find_joint_by_path(track.target_path.as_str(), skeleton) {
                None => {},
                Some(j) => {
                    match v {
                        KeyframeValue::Transform(t) => {
                            skeleton.joints[j].local_transform = t;
                        },
                        KeyframeValue::Translation(p) => {
                            skeleton.joints[j].local_transform.translation = p;
                        },
                        KeyframeValue::Rotation(q) => {
                            skeleton.joints[j].local_transform.rotation = q;
                        },
                        KeyframeValue::Scale(s) => {
                            skeleton.joints[j].local_transform.scale = s;
                        },
                        KeyframeValue::Float(x) => {},
                    }
                },
            }
        },
    }
    proof {
        assert(joint_names(*skeleton) =~= joint_names(*old(skeleton)));
        assert(joint_transforms(*skeleton) =~= apply_track_to_pose(
            joint_names(*old(skeleton)),
            joint_transforms(*old(skeleton)),
            *track,
            time as int,
        ));
    }
}

/// The clip a player's handle resolves to in a library, if any.
pub open spec fn active_clip(p: AnimationPlayer, clips: ClipLibrary) -> Option<AnimationClip> {
    match p.current_animation {
        None => None,
        Some(h) => if h.id < clips.spec_clips().len() {
            Some(clips.spec_clips()[h.id as int])
        } else {
            None
        },
    }
}

/// What one playback tick does to a playing player and its skeleton, given
/// the clip its handle resolved to: the cursor advances by `delta` at the
/// player's speed and is corrected by the clip's loop mode (a finished
/// `Once` clip stops the player), and every track of the clip is sampled at
/// the corrected cursor into the skeleton, in track order.
pub open spec fn tick_spec(
    p0: AnimationPlayer,
    s0: Skeleton,
    p1: AnimationPlayer,
    s1: Skeleton,
    clip: AnimationClip,
    delta: int,
) -> bool {
    let t1 = advanced_time(p0.time as int, p0.speed as int, delta);
    let t2 = corrected_time(clip.loop_mode, t1, clip.duration as int);
    &&& p1.time == t2
    &&& p1.is_playing == still_playing(clip.loop_mode, t1, clip.duration as int)
    &&& p1.speed == p0.speed
    &&& p1.current_animation == p0.current_animation
    &&& same_structure(s0, s1)
    &&& joint_transforms(s1) =~= apply_clip_to_pose(
        joint_names(s0),
        joint_transforms(s0),
        clip.tracks@,
        t2,
    )
}

/// One playback tick: if the player is playing a resolvable clip, advance
/// the cursor by `delta` at the player's speed, correct it by the clip's
/// loop mode (stopping a finished `Once` clip), and sample every track of
/// the clip at the corrected cursor into the skeleton. Anything else leaves
/// player and skeleton untouched.
pub fn animation_system(
    player: &mut AnimationPlayer,
    skeleton: &mut Skeleton,
    clips: &ClipLibrary,
    delta: i64,
)
    requires
        clips.wf(),
        -VAL_MAX <= delta <= VAL_MAX,
        -SPEED_MAX <= old(player).speed <= SPEED_MAX,
        -TIME_MAX <= old(player).time <= TIME_MAX,
    ensures
        !old(player).is_playing ==> (*final(player) == *old(player) && *final(skeleton) == *old(
            skeleton,
        )),
        old(player).is_playing ==> match active_clip(*old(player), *clips) {
            None => *final(player) == *old(player) && *final(skeleton) == *old(skeleton),
            Some(clip) => tick_spec(
                *old(player),
                *old(skeleton),
                *final(player),
                *final(skeleton),
                clip,
                delta as int,
            ),
        },
{
    if !player.is_playing {
        return ;
    }
    let handle = match &player.current_animation {
        None => {
            return ;
        },
        Some(h) => *h,
    };
    let clip = match clips.get(&handle) {
        None => {
            return ;
        },
        Some(c) => c,
    };
    let speed: i64 = player.speed;
    proof {
        assert(active_clip(*old(player), *clips) == Some(*clip));
        assert(-1_000_000_000_000_000 <= (delta as int) * (speed as int)
            <= 1_000_000_000_000_000) by (nonlinear_arith)
            requires
                -1_000_000_000 <= delta <= 1_000_000_000,
                -1_000_000 <= speed <= 1_000_000,
        ;
    }
    let scaled: i64 = delta * speed;
    let adv: i64 = scaled / SCALE;
    player.time = player.time + adv;
    let ghost t1 = player.time as int;
    match clip.loop_mode {
        LoopMode::Once => {
            if player.time >= clip.duration {
                player.is_playing = false;
                player.time = clip.duration;
            }
        },
        LoopMode::Loop => {
            player.time = correct_time(LoopMode::Loop, player.time, clip.duration);
        },
        LoopMode::PingPong => {
            player.time = correct_time(LoopMode::PingPong, player.time, clip.duration);
        },
        LoopMode::ClampForever => {
            player.time = correct_time(LoopMode::ClampForever, player.time, clip.duration);
        },
    }
    proof {
        assert(player.time == corrected_time(clip.loop_mode, t1, clip.duration as int));
        assert(player.is_playing == still_playing(clip.loop_mode, t1, clip.duration as int));
    }
    let t: i64 = player.time;
    let ghost names0 = joint_names(*skeleton);
    let ghost pose0 = joint_transforms(*skeleton);
    let ghost skel0 = *skeleton;
    let nt: usize = clip.tracks.len();
    let mut i: usize = 0;
    while i < nt
        invariant
            nt == clip.tracks@.len(),
            0 <= i <= nt,
            clip_wf(*clip),
            same_structure(skel0, *skeleton),
            names0 == joint_names(skel0),
            pose0 == joint_transforms(skel0),
            joint_names(*skeleton) =~= names0,
            joint_transforms(*skeleton) =~= apply_tracks_prefix(
                names0,
                pose0,
                clip.tracks@,
                t as int,
                i as int,
            ),
        decreases nt - i,
    {
        apply_track(&clip.tracks[i], t, skeleton);
        i = i + 1;
    }
}

} // verus!
