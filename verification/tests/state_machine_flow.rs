use yuga::clip::{AnimationClip, ClipLibrary, LoopMode};
use yuga::player::AnimationPlayer;
use yuga::state_machine::{
    animation_state_machine_system, animation_state_machine_system as sm_system,
    AnimationStateMachine, Condition, Transition,
};

fn clip(name: &str, duration: i64, loop_mode: LoopMode) -> AnimationClip {
    AnimationClip { name: name.to_string(), duration, tracks: vec![], events: vec![], loop_mode }
}

fn transition(from: &str, to: &str, conditions: Vec<Condition>, duration: i64) -> Transition {
    Transition {
        from_state: from.to_string(),
        to_state: to.to_string(),
        conditions,
        duration,
        offset: 0,
        has_exit_time: false,
        exit_time: 0,
    }
}

fn idle_walk_machine(clips: &mut ClipLibrary) -> AnimationStateMachine {
    let idle = clips.add(clip("Idle", 2000, LoopMode::Loop)).unwrap();
    let walk = clips.add(clip("Walk", 1000, LoopMode::Loop)).unwrap();
    let mut sm = AnimationStateMachine::new();
    sm.add_state("Idle".to_string(), idle);
    sm.add_state("Walk".to_string(), walk);
    sm.add_transition(transition(
        "Idle",
        "Walk",
        vec![Condition::BoolEquals { name: "moving".to_string(), value: true }],
        300,
    ));
    sm
}

#[test]
fn first_added_state_seeds_the_machine() {
    let mut clips = ClipLibrary::new();
    let mut sm = idle_walk_machine(&mut clips);
    let mut player = AnimationPlayer::new();
    assert!(sm.current_state().is_none());
    sm_system(&mut sm, &mut player, &clips, 16);
    assert_eq!(sm.current_state().as_deref(), Some("Idle"));
    assert!(player.is_playing);
}

#[test]
fn bool_guard_starts_a_timed_crossfade() {
    // States Idle and Walk, Idle -> Walk on moving == true with a 0.3 s
    // crossfade: progress starts at 0, sits near a third after 0.1 s more,
    // and commits once the accumulated time reaches 0.3 s.
    let mut clips = ClipLibrary::new();
    let mut sm = idle_walk_machine(&mut clips);
    let mut player = AnimationPlayer::new();
    sm_system(&mut sm, &mut player, &clips, 16);
    // Not moving yet: no transition.
    sm_system(&mut sm, &mut player, &clips, 16);
    assert!(sm.current_transition().is_none());
    sm.set_bool("moving", true);
    sm_system(&mut sm, &mut player, &clips, 16);
    {
        let ct = sm.current_transition().as_ref().unwrap();
        assert_eq!(ct.0, "Idle");
        assert_eq!(ct.1, "Walk");
        assert_eq!(ct.2, 0, "a fresh transition starts at progress 0");
    }
    sm_system(&mut sm, &mut player, &clips, 100);
    {
        let ct = sm.current_transition().as_ref().unwrap();
        assert_eq!(ct.2, 333, "0.1 s of a 0.3 s crossfade is a third");
    }
    sm_system(&mut sm, &mut player, &clips, 100);
    sm_system(&mut sm, &mut player, &clips, 100);
    // 333 + 333 = 666, then 999: still in flight; one more tick commits.
    assert!(sm.current_transition().is_some());
    sm_system(&mut sm, &mut player, &clips, 100);
    assert!(sm.current_transition().is_none());
    assert_eq!(sm.current_state().as_deref(), Some("Walk"));
    assert!(player.is_playing);
    assert_eq!(player.time, 0, "committing starts the target clip from zero");
}

#[test]
fn trigger_is_consumed_by_one_search() {
    let mut clips = ClipLibrary::new();
    let idle = clips.add(clip("Idle", 2000, LoopMode::Loop)).unwrap();
    let jump = clips.add(clip("Jump", 800, LoopMode::Once)).unwrap();
    let mut sm = AnimationStateMachine::new();
    sm.add_state("Idle".to_string(), idle);
    sm.add_state("Jump".to_string(), jump);
    sm.add_transition(transition(
        "Idle",
        "Jump",
        vec![Condition::TriggerActive { name: "jump".to_string() }],
        0,
    ));
    sm.add_transition(transition(
        "Jump",
        "Idle",
        vec![Condition::TriggerActive { name: "jump".to_string() }],
        0,
    ));
    let mut player = AnimationPlayer::new();
    sm_system(&mut sm, &mut player, &clips, 16);
    assert_eq!(sm.current_state().as_deref(), Some("Idle"));
    sm.set_trigger("jump");
    sm_system(&mut sm, &mut player, &clips, 16);
    assert!(sm.current_transition().is_some(), "the armed trigger fires once");
    // Zero-duration crossfade commits on the next tick.
    sm_system(&mut sm, &mut player, &clips, 16);
    assert_eq!(sm.current_state().as_deref(), Some("Jump"));
    // The trigger was consumed when the first search saw it: the Jump ->
    // Idle transition guarded by the same trigger must not fire now.
    sm_system(&mut sm, &mut player, &clips, 16);
    assert!(sm.current_transition().is_none());
    assert_eq!(sm.current_state().as_deref(), Some("Jump"));
}

#[test]
fn missing_or_mismatched_parameters_block_conditions() {
    let mut clips = ClipLibrary::new();
    let mut sm = idle_walk_machine(&mut clips);
    let mut player = AnimationPlayer::new();
    sm_system(&mut sm, &mut player, &clips, 16);
    // No "moving" parameter at all.
    sm_system(&mut sm, &mut player, &clips, 16);
    assert!(sm.current_transition().is_none());
    // A parameter of the wrong kind evaluates false too.
    sm.set_int("moving", 1);
    sm_system(&mut sm, &mut player, &clips, 16);
    assert!(sm.current_transition().is_none());
    // The wrong value blocks as well.
    sm.set_bool("moving", false);
    sm_system(&mut sm, &mut player, &clips, 16);
    assert!(sm.current_transition().is_none());
}

#[test]
fn numeric_conditions_compare_strictly() {
    let mut clips = ClipLibrary::new();
    let a = clips.add(clip("A", 1000, LoopMode::Loop)).unwrap();
    let b = clips.add(clip("B", 1000, LoopMode::Loop)).unwrap();
    let c = clips.add(clip("C", 1000, LoopMode::Loop)).unwrap();
    let mut sm = AnimationStateMachine::new();
    sm.add_state("A".to_string(), a);
    sm.add_state("B".to_string(), b);
    sm.add_state("C".to_string(), c);
    sm.add_transition(transition(
        "A",
        "B",
        vec![Condition::FloatGreaterThan { name: "speed".to_string(), value: 1500 }],
        0,
    ));
    sm.add_transition(transition(
        "B",
        "C",
        vec![Condition::IntEquals { name: "gear".to_string(), value: 3 }],
        0,
    ));
    let mut player = AnimationPlayer::new();
    sm_system(&mut sm, &mut player, &clips, 16);
    sm.set_float("speed", 1500);
    sm_system(&mut sm, &mut player, &clips, 16);
    assert!(sm.current_transition().is_none(), "greater-than is strict");
    sm.set_float("speed", 1501);
    sm_system(&mut sm, &mut player, &clips, 16);
    assert!(sm.current_transition().is_some());
    sm_system(&mut sm, &mut player, &clips, 16);
    assert_eq!(sm.current_state().as_deref(), Some("B"));
    sm.set_int("gear", 2);
    sm_system(&mut sm, &mut player, &clips, 16);
    assert!(sm.current_transition().is_none(), "int equality is exact");
    sm.set_int("gear", 3);
    sm_system(&mut sm, &mut player, &clips, 16);
    assert!(sm.current_transition().is_some());
}

#[test]
fn all_conditions_must_hold_together() {
    let mut clips = ClipLibrary::new();
    let mut sm2 = AnimationStateMachine::new();
    let idle = clips.add(clip("Idle2", 2000, LoopMode::Loop)).unwrap();
    let walk = clips.add(clip("Walk2", 1000, LoopMode::Loop)).unwrap();
    sm2.add_state("Idle".to_string(), idle);
    sm2.add_state("Walk".to_string(), walk);
    sm2.add_transition(transition(
        "Idle",
        "Walk",
        vec![
            Condition::BoolEquals { name: "moving".to_string(), value: true },
            Condition::FloatGreaterThan { name: "speed".to_string(), value: 100 },
        ],
        0,
    ));
    let mut player = AnimationPlayer::new();
    sm_system(&mut sm2, &mut player, &clips, 16);
    sm2.set_bool("moving", true);
    sm_system(&mut sm2, &mut player, &clips, 16);
    assert!(sm2.current_transition().is_none(), "one of two conditions is not enough");
    sm2.set_float("speed", 200);
    sm_system(&mut sm2, &mut player, &clips, 16);
    assert!(sm2.current_transition().is_some());
}

#[test]
fn exit_time_holds_back_a_transition() {
    let mut clips = ClipLibrary::new();
    let idle = clips.add(clip("Idle", 2000, LoopMode::Loop)).unwrap();
    let walk = clips.add(clip("Walk", 1000, LoopMode::Loop)).unwrap();
    let mut sm = AnimationStateMachine::new();
    sm.add_state("Idle".to_string(), idle);
    sm.add_state("Walk".to_string(), walk);
    sm.add_transition(Transition {
        from_state: "Idle".to_string(),
        to_state: "Walk".to_string(),
        conditions: vec![Condition::BoolEquals { name: "moving".to_string(), value: true }],
        duration: 0,
        offset: 0,
        has_exit_time: true,
        exit_time: 500,
    });
    let mut player = AnimationPlayer::new();
    sm_system(&mut sm, &mut player, &clips, 16);
    sm.set_bool("moving", true);
    // Normalized time 16 / 2000 is far below the 0.5 exit fraction.
    sm_system(&mut sm, &mut player, &clips, 16);
    assert!(sm.current_transition().is_none(), "exit time holds back the ready transition");
    player.seek(1000);
    // Normalized time 1000 / 2000 == 0.5 reaches the exit fraction.
    sm_system(&mut sm, &mut player, &clips, 16);
    assert!(sm.current_transition().is_some());
}

#[test]
fn authored_order_decides_between_ready_transitions() {
    let mut clips = ClipLibrary::new();
    let a = clips.add(clip("A", 1000, LoopMode::Loop)).unwrap();
    let b = clips.add(clip("B", 1000, LoopMode::Loop)).unwrap();
    let c = clips.add(clip("C", 1000, LoopMode::Loop)).unwrap();
    let mut sm = AnimationStateMachine::new();
    sm.add_state("A".to_string(), a);
    sm.add_state("B".to_string(), b);
    sm.add_state("C".to_string(), c);
    let go = vec![Condition::BoolEquals { name: "go".to_string(), value: true }];
    sm.add_transition(transition("A", "B", go.clone(), 0));
    sm.add_transition(transition("A", "C", go, 0));
    let mut player = AnimationPlayer::new();
    sm_system(&mut sm, &mut player, &clips, 16);
    sm.set_bool("go", true);
    sm_system(&mut sm, &mut player, &clips, 16);
    let ct = sm.current_transition().as_ref().unwrap();
    assert_eq!(ct.1, "B", "the first authored ready transition wins");
}

#[test]
fn committing_adopts_the_target_state_speed() {
    let mut clips = ClipLibrary::new();
    let mut sm = idle_walk_machine(&mut clips);
    let mut player = AnimationPlayer::new();
    animation_state_machine_system(&mut sm, &mut player, &clips, 16);
    sm.set_bool("moving", true);
    sm_system(&mut sm, &mut player, &clips, 16);
    // Drive the 0.3 s crossfade to completion.
    sm_system(&mut sm, &mut player, &clips, 400);
    assert_eq!(sm.current_state().as_deref(), Some("Walk"));
    assert_eq!(player.speed, 1000, "states are added at real-time speed");
    assert!(player.is_playing);
}
