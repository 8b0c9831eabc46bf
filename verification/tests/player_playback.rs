use yuga::clip::{
    AnimationClip, AnimationTrack, ClipLibrary, InterpolationType, Keyframe, KeyframeValue,
    LoopMode, PropertyType,
};
use yuga::math::{Mat4, Quat, Transform, Vec3};
use yuga::player::{animation_system, AnimationPlayer};
use yuga::skeleton::{Joint, Skeleton};

fn v3(x: i64, y: i64, z: i64) -> Vec3 {
    Vec3 { x, y, z }
}

fn joint(name: &str, index: usize, parent_index: Option<usize>) -> Joint {
    Joint {
        name: name.to_string(),
        index,
        parent_index,
        local_transform: Transform::identity(),
        inverse_bind_pose: Mat4::identity(),
    }
}

fn two_bone_skeleton() -> Skeleton {
    Skeleton {
        joints: vec![joint("root", 0, None), joint("bone1", 1, Some(0))],
        bind_pose: vec![Mat4::identity(), Mat4::identity()],
        inverse_bind_pose: vec![Mat4::identity(), Mat4::identity()],
    }
}

fn clip(name: &str, duration: i64, loop_mode: LoopMode, tracks: Vec<AnimationTrack>) -> AnimationClip {
    AnimationClip { name: name.to_string(), duration, tracks, events: vec![], loop_mode }
}

fn bone1_translation_track() -> AnimationTrack {
    AnimationTrack {
        target_path: "bone1".to_string(),
        keyframes: vec![
            Keyframe {
                time: 0,
                value: KeyframeValue::Translation(v3(0, 0, 0)),
                interpolation: InterpolationType::Linear,
            },
            Keyframe {
                time: 2000,
                value: KeyframeValue::Translation(v3(2000, 0, 0)),
                interpolation: InterpolationType::Linear,
            },
        ],
        property_type: PropertyType::Translation,
    }
}

#[test]
fn player_state_transitions() {
    let mut player = AnimationPlayer::new();
    assert!(!player.is_playing);
    assert_eq!(player.time, 0);
    assert_eq!(player.speed, 1000);
    player.play(yuga::clip::ClipHandle { id: 0 });
    assert!(player.is_playing);
    assert_eq!(player.time, 0);
    player.seek(700);
    assert_eq!(player.time, 700);
    player.pause();
    assert!(!player.is_playing);
    assert_eq!(player.time, 700, "pausing retains the cursor");
    player.resume();
    assert!(player.is_playing);
    player.stop();
    assert!(!player.is_playing);
    assert_eq!(player.time, 700, "stopping retains the cursor");
}

#[test]
fn loop_mode_wraps_time() {
    // Clip "Idle", duration 2.0 s, Loop; one tick of 2.5 s leaves the
    // cursor at 0.5 s and playback running.
    let mut clips = ClipLibrary::new();
    let handle = clips
        .add(clip("Idle", 2000, LoopMode::Loop, vec![bone1_translation_track()]))
        .unwrap();
    let mut player = AnimationPlayer::new();
    let mut skeleton = two_bone_skeleton();
    player.play(handle);
    animation_system(&mut player, &mut skeleton, &clips, 2500);
    assert_eq!(player.time, 500);
    assert!(player.is_playing);
    assert_eq!(skeleton.joints[1].local_transform.translation, v3(500, 0, 0));
    assert_eq!(
        skeleton.joints[0].local_transform.translation,
        v3(0, 0, 0),
        "a track addresses only the joint its path names"
    );
}

#[test]
fn once_clamps_and_stops() {
    let mut clips = ClipLibrary::new();
    let handle = clips
        .add(clip("Jump", 800, LoopMode::Once, vec![]))
        .unwrap();
    let mut player = AnimationPlayer::new();
    let mut skeleton = two_bone_skeleton();
    player.play(handle);
    animation_system(&mut player, &mut skeleton, &clips, 1000);
    assert_eq!(player.time, 800);
    assert!(!player.is_playing);
}

#[test]
fn clamp_forever_freezes_but_keeps_playing() {
    let mut clips = ClipLibrary::new();
    let handle = clips
        .add(clip("Hold", 800, LoopMode::ClampForever, vec![]))
        .unwrap();
    let mut player = AnimationPlayer::new();
    let mut skeleton = two_bone_skeleton();
    player.play(handle);
    animation_system(&mut player, &mut skeleton, &clips, 1000);
    assert_eq!(player.time, 800);
    assert!(player.is_playing);
}

#[test]
fn ping_pong_reverses_on_odd_cycles() {
    let mut clips = ClipLibrary::new();
    let handle = clips
        .add(clip("Sway", 1000, LoopMode::PingPong, vec![]))
        .unwrap();
    let mut player = AnimationPlayer::new();
    let mut skeleton = two_bone_skeleton();
    player.play(handle);
    // 1.5 durations in: odd cycle, played backward: 1000 - 500.
    animation_system(&mut player, &mut skeleton, &clips, 1500);
    assert_eq!(player.time, 500);
    // Whole multiples sit at the clip ends by cycle parity.
    player.seek(0);
    animation_system(&mut player, &mut skeleton, &clips, 1000);
    assert_eq!(player.time, 1000, "an odd whole cycle sits at the far end");
    player.seek(0);
    animation_system(&mut player, &mut skeleton, &clips, 2000);
    assert_eq!(player.time, 0, "an even whole cycle sits at the start");
}

#[test]
fn speed_scales_the_advance() {
    let mut clips = ClipLibrary::new();
    let handle = clips
        .add(clip("Walk", 10000, LoopMode::Loop, vec![]))
        .unwrap();
    let mut player = AnimationPlayer::new();
    let mut skeleton = two_bone_skeleton();
    player.play(handle);
    player.speed = 2000;
    animation_system(&mut player, &mut skeleton, &clips, 300);
    assert_eq!(player.time, 600, "double speed advances twice the delta");
}

#[test]
fn stopped_player_is_untouched() {
    let mut clips = ClipLibrary::new();
    let handle = clips
        .add(clip("Idle", 2000, LoopMode::Loop, vec![bone1_translation_track()]))
        .unwrap();
    let mut player = AnimationPlayer::new();
    let mut skeleton = two_bone_skeleton();
    player.play(handle);
    player.stop();
    animation_system(&mut player, &mut skeleton, &clips, 500);
    assert_eq!(player.time, 0);
    assert_eq!(skeleton.joints[1].local_transform.translation, v3(0, 0, 0));
}

#[test]
fn dangling_handle_is_a_silent_no_op() {
    let clips = ClipLibrary::new();
    let mut player = AnimationPlayer::new();
    let mut skeleton = two_bone_skeleton();
    player.play(yuga::clip::ClipHandle { id: 7 });
    animation_system(&mut player, &mut skeleton, &clips, 500);
    assert_eq!(player.time, 0);
    assert!(player.is_playing);
}

#[test]
fn track_with_unknown_target_is_skipped() {
    let mut track = bone1_translation_track();
    track.target_path = "no_such_joint".to_string();
    let mut clips = ClipLibrary::new();
    let handle = clips.add(clip("Idle", 2000, LoopMode::Loop, vec![track])).unwrap();
    let mut player = AnimationPlayer::new();
    let mut skeleton = two_bone_skeleton();
    player.play(handle);
    animation_system(&mut player, &mut skeleton, &clips, 500);
    assert_eq!(skeleton.joints[0].local_transform.translation, v3(0, 0, 0));
    assert_eq!(skeleton.joints[1].local_transform.translation, v3(0, 0, 0));
}

#[test]
fn library_rejects_malformed_clips() {
    let mut clips = ClipLibrary::new();
    assert!(clips.add(clip("neg", -5, LoopMode::Loop, vec![])).is_none());
    let unsorted = AnimationTrack {
        target_path: "root".to_string(),
        keyframes: vec![
            Keyframe {
                time: 1000,
                value: KeyframeValue::Float(0),
                interpolation: InterpolationType::Linear,
            },
            Keyframe {
                time: 0,
                value: KeyframeValue::Float(1),
                interpolation: InterpolationType::Linear,
            },
        ],
        property_type: PropertyType::Custom("x".to_string()),
    };
    assert!(clips.add(clip("unsorted", 1000, LoopMode::Loop, vec![unsorted])).is_none());
    assert_eq!(clips.len(), 0);
    let ok = clips.add(clip("fine", 1000, LoopMode::Loop, vec![]));
    assert!(ok.is_some());
    assert_eq!(clips.len(), 1);
    assert!(clips.get(&ok.unwrap()).is_some());
    assert!(clips.get(&yuga::clip::ClipHandle { id: 9 }).is_none());
}

#[test]
fn tracks_apply_in_order_and_the_later_wins() {
    let early = AnimationTrack {
        target_path: "bone1".to_string(),
        keyframes: vec![
            Keyframe {
                time: 0,
                value: KeyframeValue::Translation(v3(111, 0, 0)),
                interpolation: InterpolationType::Step,
            },
            Keyframe {
                time: 2000,
                value: KeyframeValue::Translation(v3(111, 0, 0)),
                interpolation: InterpolationType::Step,
            },
        ],
        property_type: PropertyType::Translation,
    };
    let late = AnimationTrack {
        target_path: "bone1".to_string(),
        keyframes: vec![
            Keyframe {
                time: 0,
                value: KeyframeValue::Translation(v3(222, 0, 0)),
                interpolation: InterpolationType::Step,
            },
            Keyframe {
                time: 2000,
                value: KeyframeValue::Translation(v3(222, 0, 0)),
                interpolation: InterpolationType::Step,
            },
        ],
        property_type: PropertyType::Translation,
    };
    let mut clips = ClipLibrary::new();
    let handle = clips
        .add(clip("Layered", 2000, LoopMode::Loop, vec![early, late]))
        .unwrap();
    let mut player = AnimationPlayer::new();
    let mut skeleton = two_bone_skeleton();
    player.play(handle);
    animation_system(&mut player, &mut skeleton, &clips, 500);
    assert_eq!(skeleton.joints[1].local_transform.translation, v3(222, 0, 0));
}

#[test]
fn transform_track_replaces_whole_transform() {
    let target = Transform {
        translation: v3(10, 20, 30),
        rotation: Quat { x: 0, y: 0, z: 0, w: 1000 },
        scale: v3(2000, 2000, 2000),
    };
    let track = AnimationTrack {
        target_path: "root".to_string(),
        keyframes: vec![
            Keyframe {
                time: 0,
                value: KeyframeValue::Transform(target),
                interpolation: InterpolationType::Step,
            },
            Keyframe {
                time: 1000,
                value: KeyframeValue::Transform(Transform::identity()),
                interpolation: InterpolationType::Step,
            },
        ],
        property_type: PropertyType::Transform,
    };
    let mut clips = ClipLibrary::new();
    let handle = clips.add(clip("pose", 1000, LoopMode::Loop, vec![track])).unwrap();
    let mut player = AnimationPlayer::new();
    let mut skeleton = two_bone_skeleton();
    player.play(handle);
    animation_system(&mut player, &mut skeleton, &clips, 300);
    assert_eq!(skeleton.joints[0].local_transform, target);
}
