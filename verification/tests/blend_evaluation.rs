use yuga::blend::{
    advance_blend_node, blend_tree_system, crossfade_pose, evaluate_blend_node, BlendNode,
    BlendPose, BlendTree, BlendType,
};
use yuga::clip::{
    AnimationClip, AnimationTrack, ClipHandle, ClipLibrary, InterpolationType, Keyframe,
    KeyframeValue, LoopMode, PropertyType,
};
use yuga::math::{Mat4, Transform, Vec3};
use yuga::skeleton::{Joint, Skeleton};

fn v3(x: i64, y: i64, z: i64) -> Vec3 {
    Vec3 { x, y, z }
}

fn joint(name: &str, index: usize) -> Joint {
    Joint {
        name: name.to_string(),
        index,
        parent_index: None,
        local_transform: Transform::identity(),
        inverse_bind_pose: Mat4::identity(),
    }
}

fn one_bone_skeleton() -> Skeleton {
    Skeleton {
        joints: vec![joint("root", 0)],
        bind_pose: vec![Mat4::identity()],
        inverse_bind_pose: vec![Mat4::identity()],
    }
}

/// A clip whose single track pins the root translation to `v` at any time.
fn constant_clip(name: &str, v: Vec3) -> AnimationClip {
    AnimationClip {
        name: name.to_string(),
        duration: 1000,
        tracks: vec![AnimationTrack {
            target_path: "root".to_string(),
            keyframes: vec![
                Keyframe {
                    time: 0,
                    value: KeyframeValue::Translation(v),
                    interpolation: InterpolationType::Linear,
                },
                Keyframe {
                    time: 1000,
                    value: KeyframeValue::Translation(v),
                    interpolation: InterpolationType::Linear,
                },
            ],
            property_type: PropertyType::Translation,
        }],
        events: vec![],
        loop_mode: LoopMode::Loop,
    }
}

fn leaf(animation: ClipHandle, weight: i64) -> BlendNode {
    BlendNode {
        animation,
        weight,
        blend_type: BlendType::Linear,
        children: vec![],
        parameters: vec![],
        time: 0,
    }
}

#[test]
fn leaf_returns_its_own_clip_pose() {
    let mut clips = ClipLibrary::new();
    let h = clips.add(constant_clip("A", v3(100, 200, 300))).unwrap();
    let skeleton = one_bone_skeleton();
    let pose = evaluate_blend_node(&leaf(h, 1000), &clips, &skeleton).unwrap();
    assert_eq!(pose.joint_transforms[0].translation, v3(100, 200, 300));
    assert_eq!(pose.joint_transforms.len(), 1);
}

#[test]
fn unresolvable_clip_contributes_no_pose() {
    let clips = ClipLibrary::new();
    let skeleton = one_bone_skeleton();
    assert!(evaluate_blend_node(&leaf(ClipHandle { id: 3 }, 1000), &clips, &skeleton).is_none());
}

#[test]
fn equal_weight_identical_children_blend_to_the_same_pose() {
    // Two leaf children of weight 2.0 each (renormalized to 0.5 / 0.5) on
    // identical clips at the same time: the blended pose equals either
    // child's pose.
    let mut clips = ClipLibrary::new();
    let h = clips.add(constant_clip("A", v3(100, 200, 300))).unwrap();
    let root = BlendNode {
        animation: h,
        weight: 1000,
        blend_type: BlendType::Linear,
        children: vec![leaf(h, 2000), leaf(h, 2000)],
        parameters: vec![],
        time: 0,
    };
    let skeleton = one_bone_skeleton();
    let child_pose = evaluate_blend_node(&leaf(h, 2000), &clips, &skeleton).unwrap();
    let blended = evaluate_blend_node(&root, &clips, &skeleton).unwrap();
    assert_eq!(
        blended.joint_transforms[0], child_pose.joint_transforms[0],
        "equal-weight blending of identical poses is the identity"
    );
}

#[test]
fn linear_blend_interpolates_toward_children_in_order() {
    let mut clips = ClipLibrary::new();
    let a = clips.add(constant_clip("A", v3(0, 0, 0))).unwrap();
    let b = clips.add(constant_clip("B", v3(1000, 0, 0))).unwrap();
    let root = BlendNode {
        animation: a,
        weight: 1000,
        blend_type: BlendType::Linear,
        children: vec![leaf(b, 1000)],
        parameters: vec![],
        time: 0,
    };
    let skeleton = one_bone_skeleton();
    let pose = evaluate_blend_node(&root, &clips, &skeleton).unwrap();
    // One child of weight 1.0 renormalizes to factor 1.0: the child pose.
    assert_eq!(pose.joint_transforms[0].translation, v3(1000, 0, 0));
}

#[test]
fn override_selects_highest_weight_child_bit_for_bit() {
    let mut clips = ClipLibrary::new();
    let own = clips.add(constant_clip("Own", v3(-1, -1, -1))).unwrap();
    let lo = clips.add(constant_clip("Lo", v3(111, 0, 0))).unwrap();
    let hi = clips.add(constant_clip("Hi", v3(222, 0, 0))).unwrap();
    let root = BlendNode {
        animation: own,
        weight: 1000,
        blend_type: BlendType::Override,
        children: vec![leaf(lo, 300), leaf(hi, 700)],
        parameters: vec![],
        time: 0,
    };
    let skeleton = one_bone_skeleton();
    let pose = evaluate_blend_node(&root, &clips, &skeleton).unwrap();
    assert_eq!(
        pose.joint_transforms[0].translation,
        v3(222, 0, 0),
        "the higher-weight child wins whole"
    );
}

#[test]
fn override_tie_goes_to_the_first_child() {
    let mut clips = ClipLibrary::new();
    let own = clips.add(constant_clip("Own", v3(-1, -1, -1))).unwrap();
    let first = clips.add(constant_clip("First", v3(111, 0, 0))).unwrap();
    let second = clips.add(constant_clip("Second", v3(222, 0, 0))).unwrap();
    let root = BlendNode {
        animation: own,
        weight: 1000,
        blend_type: BlendType::Override,
        children: vec![leaf(first, 500), leaf(second, 500)],
        parameters: vec![],
        time: 0,
    };
    let skeleton = one_bone_skeleton();
    let pose = evaluate_blend_node(&root, &clips, &skeleton).unwrap();
    assert_eq!(pose.joint_transforms[0].translation, v3(111, 0, 0));
}

#[test]
fn zero_total_weight_skips_blending() {
    let mut clips = ClipLibrary::new();
    let own = clips.add(constant_clip("Own", v3(42, 0, 0))).unwrap();
    let child = clips.add(constant_clip("Child", v3(999, 0, 0))).unwrap();
    let root = BlendNode {
        animation: own,
        weight: 1000,
        blend_type: BlendType::Linear,
        children: vec![leaf(child, 0)],
        parameters: vec![],
        time: 0,
    };
    let skeleton = one_bone_skeleton();
    let pose = evaluate_blend_node(&root, &clips, &skeleton).unwrap();
    assert_eq!(pose.joint_transforms[0].translation, v3(42, 0, 0));
}

#[test]
fn failed_children_are_excluded_and_weights_renormalized() {
    let mut clips = ClipLibrary::new();
    let own = clips.add(constant_clip("Own", v3(0, 0, 0))).unwrap();
    let good = clips.add(constant_clip("Good", v3(600, 0, 0))).unwrap();
    let root = BlendNode {
        animation: own,
        weight: 1000,
        blend_type: BlendType::Linear,
        children: vec![leaf(ClipHandle { id: 99 }, 9000), leaf(good, 400)],
        parameters: vec![],
        time: 0,
    };
    let skeleton = one_bone_skeleton();
    let pose = evaluate_blend_node(&root, &clips, &skeleton).unwrap();
    // The dangling child is excluded; the surviving weight renormalizes to
    // 1.0, so the result is the surviving child's pose.
    assert_eq!(pose.joint_transforms[0].translation, v3(600, 0, 0));
}

#[test]
fn advance_ticks_every_cursor_under_its_loop_mode() {
    let mut clips = ClipLibrary::new();
    let h = clips.add(constant_clip("A", v3(0, 0, 0))).unwrap();
    let mut root = BlendNode {
        animation: h,
        weight: 1000,
        blend_type: BlendType::Linear,
        children: vec![leaf(h, 1000)],
        parameters: vec![],
        time: 800,
    };
    root.children[0].time = 900;
    advance_blend_node(&mut root, &clips, 500);
    // Duration 1000, Loop: 1300 wraps to 300; 1400 wraps to 400.
    assert_eq!(root.time, 300);
    assert_eq!(root.children[0].time, 400);
}

#[test]
fn blend_tree_system_writes_the_root_pose() {
    let mut clips = ClipLibrary::new();
    let moving = AnimationClip {
        name: "Move".to_string(),
        duration: 1000,
        tracks: vec![AnimationTrack {
            target_path: "root".to_string(),
            keyframes: vec![
                Keyframe {
                    time: 0,
                    value: KeyframeValue::Translation(v3(0, 0, 0)),
                    interpolation: InterpolationType::Linear,
                },
                Keyframe {
                    time: 1000,
                    value: KeyframeValue::Translation(v3(1000, 0, 0)),
                    interpolation: InterpolationType::Linear,
                },
            ],
            property_type: PropertyType::Translation,
        }],
        events: vec![],
        loop_mode: LoopMode::Loop,
    };
    let h = clips.add(moving).unwrap();
    let mut tree = BlendTree {
        root: BlendNode {
            animation: h,
            weight: 1000,
            blend_type: BlendType::Linear,
            children: vec![],
            parameters: vec![],
            time: 0,
        },
        parameters: vec![],
    };
    let mut skeleton = one_bone_skeleton();
    blend_tree_system(&mut tree, &mut skeleton, &clips, 250);
    assert_eq!(tree.root.time, 250, "the root cursor advanced");
    assert_eq!(
        skeleton.joints[0].local_transform.translation,
        v3(250, 0, 0),
        "the evaluated pose lands in the skeleton"
    );
}

#[test]
fn blend_tree_system_with_dangling_root_leaves_skeleton_alone() {
    let clips = ClipLibrary::new();
    let mut tree = BlendTree {
        root: leaf(ClipHandle { id: 11 }, 1000),
        parameters: vec![],
    };
    let mut skeleton = one_bone_skeleton();
    skeleton.joints[0].local_transform.translation = v3(5, 6, 7);
    blend_tree_system(&mut tree, &mut skeleton, &clips, 100);
    assert_eq!(skeleton.joints[0].local_transform.translation, v3(5, 6, 7));
}

#[test]
fn crossfade_interpolates_between_source_and_target() {
    let from = BlendPose {
        joint_transforms: vec![Transform {
            translation: v3(0, 0, 0),
            rotation: yuga::math::Quat { x: 0, y: 0, z: 0, w: 1000 },
            scale: v3(1000, 1000, 1000),
        }],
    };
    let to = BlendPose {
        joint_transforms: vec![Transform {
            translation: v3(900, 0, 0),
            rotation: yuga::math::Quat { x: 0, y: 0, z: 0, w: 1000 },
            scale: v3(1000, 1000, 1000),
        }],
    };
    let mid = crossfade_pose(&from, &to, 333);
    // 0 + (900 - 0) * 333 / 1000, truncating.
    assert_eq!(mid.joint_transforms[0].translation, v3(299, 0, 0));
    let start = crossfade_pose(&from, &to, 0);
    assert_eq!(start.joint_transforms[0], from.joint_transforms[0]);
    let end = crossfade_pose(&from, &to, 1000);
    assert_eq!(end.joint_transforms[0], to.joint_transforms[0]);
}

#[test]
fn pose_lerp_and_additive_arithmetic() {
    let base = BlendPose {
        joint_transforms: vec![Transform {
            translation: v3(0, 0, 0),
            rotation: yuga::math::Quat { x: 0, y: 0, z: 0, w: 1000 },
            scale: v3(1000, 1000, 1000),
        }],
    };
    let other = BlendPose {
        joint_transforms: vec![Transform {
            translation: v3(1000, -500, 0),
            rotation: yuga::math::Quat { x: 0, y: 0, z: 0, w: 1000 },
            scale: v3(3000, 1000, 1000),
        }],
    };
    let mid = base.lerp(&other, 500);
    assert_eq!(mid.joint_transforms[0].translation, v3(500, -250, 0));
    assert_eq!(mid.joint_transforms[0].scale, v3(2000, 1000, 1000));
    let added = base.add_weighted(&other, 500).unwrap();
    assert_eq!(
        added.joint_transforms[0].translation,
        v3(500, -250, 0),
        "half the contribution's translation is added"
    );
    assert_eq!(
        added.joint_transforms[0].scale,
        v3(2000, 1000, 1000),
        "half the contribution's scale delta from unit is added"
    );
    assert_eq!(
        added.joint_transforms[0].rotation,
        yuga::math::Quat { x: 0, y: 0, z: 0, w: 500 },
        "the weighted identity rotation composes at half magnitude"
    );
}
