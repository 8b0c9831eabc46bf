use yuga::blend::{BlendNode, BlendParameter, BlendTree, BlendType};
use yuga::debug::AnimationDebugVisualization;
use yuga::clip::{AnimationClip, ClipHandle, ClipLibrary, LoopMode};
use yuga::debug::{blend_tree_dump, fixed_to_string, state_status_text, transition_status_text,
    u64_to_string};
use yuga::player::AnimationPlayer;
use yuga::state_machine::{
    animation_state_machine_system as sm_system, AnimationStateMachine, Condition, Transition,
};

#[test]
fn debug_visualization_defaults() {
    let d = AnimationDebugVisualization::default();
    assert!(d.show_skeleton && d.show_joints && d.show_labels);
    assert!(!d.show_trails);
    assert_eq!(d.trail_length, 30);
}

#[test]
fn decimal_rendering() {
    assert_eq!(u64_to_string(0), "0");
    assert_eq!(u64_to_string(7), "7");
    assert_eq!(u64_to_string(12345), "12345");
    assert_eq!(u64_to_string(1000000), "1000000");
}

#[test]
fn fixed_point_rendering() {
    assert_eq!(fixed_to_string(0), "0.000");
    assert_eq!(fixed_to_string(1500), "1.500");
    assert_eq!(fixed_to_string(12), "0.012");
    assert_eq!(fixed_to_string(-250), "-0.250");
    assert_eq!(fixed_to_string(-12345), "-12.345");
}

#[test]
fn state_and_transition_status_lines() {
    let mut clips = ClipLibrary::new();
    let idle = clips
        .add(AnimationClip {
            name: "Idle".to_string(),
            duration: 2000,
            tracks: vec![],
            events: vec![],
            loop_mode: LoopMode::Loop,
        })
        .unwrap();
    let walk = clips
        .add(AnimationClip {
            name: "Walk".to_string(),
            duration: 1000,
            tracks: vec![],
            events: vec![],
            loop_mode: LoopMode::Loop,
        })
        .unwrap();
    let mut sm = AnimationStateMachine::new();
    sm.add_state("Idle".to_string(), idle);
    sm.add_state("Walk".to_string(), walk);
    sm.add_transition(Transition {
        from_state: "Idle".to_string(),
        to_state: "Walk".to_string(),
        conditions: vec![Condition::BoolEquals { name: "moving".to_string(), value: true }],
        duration: 300,
        offset: 0,
        has_exit_time: false,
        exit_time: 0,
    });
    let mut player = AnimationPlayer::new();
    assert_eq!(state_status_text(&sm), "Current State: <none>");
    assert_eq!(transition_status_text(&sm), "No active transition");
    sm_system(&mut sm, &mut player, &clips, 16);
    assert_eq!(state_status_text(&sm), "Current State: Idle");
    sm.set_bool("moving", true);
    sm_system(&mut sm, &mut player, &clips, 16);
    sm_system(&mut sm, &mut player, &clips, 100);
    assert_eq!(
        transition_status_text(&sm),
        "Transitioning: Idle -> Walk (33.3%)"
    );
}

#[test]
fn blend_tree_dump_lines() {
    let tree = BlendTree {
        root: BlendNode {
            animation: ClipHandle { id: 0 },
            weight: 1000,
            blend_type: BlendType::Linear,
            children: vec![BlendNode {
                animation: ClipHandle { id: 1 },
                weight: 2000,
                blend_type: BlendType::Override,
                children: vec![],
                parameters: vec![],
                time: 0,
            }],
            parameters: vec![BlendParameter {
                name: "speed".to_string(),
                value: 500,
                range: (0, 1000),
            }],
            time: 0,
        },
        parameters: vec![],
    };
    let lines = blend_tree_dump(&tree);
    assert_eq!(
        lines,
        vec![
            "Node: Weight=1.000, Type=Linear".to_string(),
            "  Parameter: speed = 0.500 (0.000..1.000)".to_string(),
            "  Node: Weight=2.000, Type=Override".to_string(),
        ]
    );
}
