//! The animation state machine: named states bound to clips, transitions
//! guarded by parameter conditions, and timed crossfade progress.
//!
//! States and parameters live in insertion-ordered lists keyed by name (the
//! first match wins), so the "first state" that seeds an empty machine and
//! the authored order of transitions are both well defined.

use vstd::prelude::*;

verus! {

use crate::clip::{ClipHandle, ClipLibrary, LoopMode};
use crate::math::{tdiv, SCALE, VAL_MAX};
use crate::player::{AnimationPlayer, TIME_MAX};
use crate::skeleton::str_eq;

/// A parameter that conditions read: triggers are one-shot booleans, reset
/// after every transition search.
#[derive(Clone, Copy, PartialEq, Eq, Structural, Debug)]
pub enum Parameter {
    Bool(bool),
    Int(i32),
    Float(i64),
    Trigger(bool),
}

/// A guard on a transition, referencing a parameter by name. A missing or
/// type-mismatched parameter makes the condition false.
#[derive(Clone, Debug)]
pub enum Condition {
    BoolEquals { name: String, value: bool },
    IntEquals { name: String, value: i32 },
    FloatGreaterThan { name: String, value: i64 },
    FloatLessThan { name: String, value: i64 },
    TriggerActive { name: String },
}

/// A transition between two named states: all conditions must hold, and
/// with `has_exit_time` the source state's normalized playback time must
/// have reached `exit_time` (a fraction in `SCALE` units).
#[derive(Clone, Debug)]
pub struct Transition {
    pub from_state: String,
    pub to_state: String,
    pub conditions: Vec<Condition>,
    pub duration: i64,
    pub offset: i64,
    pub has_exit_time: bool,
    pub exit_time: i64,
}

/// A named state bound to a clip, with its playback speed and loop mode.
#[derive(Clone, Debug)]
pub struct AnimationState {
    pub name: String,
    pub clip: ClipHandle,
    pub speed: i64,
    pub loop_mode: LoopMode,
}

/// The state machine owned by one animated entity.
#[derive(Clone, Debug)]
pub struct AnimationStateMachine {
    states: Vec<AnimationState>,
    transitions: Vec<Transition>,
    parameters: Vec<(String, Parameter)>,
    current_state: Option<String>,
    current_transition: Option<(String, String, i64)>,
}

/// The mathematical content of a state machine: parameter names as
/// character sequences, everything else as stored.
pub struct SmView {
    pub states: Seq<AnimationState>,
    pub transitions: Seq<Transition>,
    pub params: Seq<(Seq<char>, Parameter)>,
    pub current_state: Option<Seq<char>>,
    pub current_transition: Option<(Seq<char>, Seq<char>, i64)>,
}

pub open spec fn opt_name_view(o: Option<String>) -> Option<Seq<char>> {
    match o {
        None => None,
        Some(s) => Some(s@),
    }
}

pub open spec fn opt_transition_view(o: Option<(String, String, i64)>) -> Option<
    (Seq<char>, Seq<char>, i64),
> {
    match o {
        None => None,
        Some(t) => Some((t.0@, t.1@, t.2)),
    }
}

/// The first parameter entry with the given name at or after `i`, if any.
pub open spec fn param_index_from(
    params: Seq<(Seq<char>, Parameter)>,
    name: Seq<char>,
    i: int,
) -> Option<int>
    decreases params.len() - i,
{
    if i < 0 || i >= params.len() {
        None
    } else if params[i].0 == name {
        Some(i)
    } else {
        param_index_from(params, name, i + 1)
    }
}

pub open spec fn param_index_of(params: Seq<(Seq<char>, Parameter)>, name: Seq<char>) -> Option<
    int,
> {
    param_index_from(params, name, 0)
}

/// The value of a named parameter, if present.
pub open spec fn param_of(params: Seq<(Seq<char>, Parameter)>, name: Seq<char>) -> Option<
    Parameter,
> {
    match param_index_of(params, name) {
        None => None,
        Some(i) => Some(params[i].1),
    }
}

/// The parameter list with the named entry replaced, or appended when the
/// name is new.
pub open spec fn set_param_spec(
    params: Seq<(Seq<char>, Parameter)>,
    name: Seq<char>,
    value: Parameter,
) -> Seq<(Seq<char>, Parameter)> {
    match param_index_of(params, name) {
        Some(i) => params.update(i, (name, value)),
        None => params.push((name, value)),
    }
}

/// Every trigger parameter reset to inactive; other kinds untouched.
pub open spec fn reset_triggers_spec(params: Seq<(Seq<char>, Parameter)>) -> Seq<
    (Seq<char>, Parameter),
> {
    params.map_values(
        |e: (Seq<char>, Parameter)|
            match e.1 {
                Parameter::Trigger(a) => (e.0, Parameter::Trigger(false)),
                _ => e,
            },
    )
}

/// The first state with the given name at or after `i`, if any.
pub open spec fn state_index_from(states: Seq<AnimationState>, name: Seq<char>, i: int) -> Option<
    int,
>
    decreases states.len() - i,
{
    if i < 0 || i >= states.len() {
        None
    } else if states[i].name@ == name {
        Some(i)
    } else {
        state_index_from(states, name, i + 1)
    }
}

pub open spec fn state_index_of(states: Seq<AnimationState>, name: Seq<char>) -> Option<int> {
    state_index_from(states, name, 0)
}

/// The state list with the named entry replaced, or appended when the name
/// is new.
pub open spec fn set_state_spec(states: Seq<AnimationState>, state: AnimationState) -> Seq<
    AnimationState,
> {
    match state_index_of(states, state.name@) {
        Some(i) => states.update(i, state),
        None => states.push(state),
    }
}

/// The first transition at or after `i` joining the given pair of states.
pub open spec fn pair_index_from(
    transitions: Seq<Transition>,
    from: Seq<char>,
    to: Seq<char>,
    i: int,
) -> Option<int>
    decreases transitions.len() - i,
{
    if i < 0 || i >= transitions.len() {
        None
    } else if transitions[i].from_state@ == from && transitions[i].to_state@ == to {
        Some(i)
    } else {
        pair_index_from(transitions, from, to, i + 1)
    }
}

pub open spec fn pair_index_of(transitions: Seq<Transition>, from: Seq<char>, to: Seq<char>) -> Option<
    int,
> {
    pair_index_from(transitions, from, to, 0)
}

/// Bounds on a transition's timing data.
pub open spec fn transition_wf(t: Transition) -> bool {
    &&& 0 <= t.duration <= VAL_MAX
    &&& 0 <= t.offset <= VAL_MAX
    &&& 0 <= t.exit_time <= VAL_MAX
}

fn find_state_index(states: &Vec<AnimationState>, name: &str) -> (r: Option<usize>)
    ensures
        match r {
            Some(j) => state_index_of(states@, name@) == Some(j as int) && j < states@.len(),
            None => state_index_of(states@, name@) is None,
        },
{
    let n: usize = states.len();
    let mut i: usize = 0;
    while i < n
        invariant
            n == states@.len(),
            0 <= i <= n,
            state_index_of(states@, name@) == state_index_from(states@, name@, i as int),
        decreases n - i,
    {
        if str_eq(name, states[i].name.as_str()) {
            return Some(i);
        }
        i = i + 1;
    }
    None
}

fn find_param_index(params: &Vec<(String, Parameter)>, name: &str) -> (r: Option<usize>)
    ensures
        match r {
            Some(j) => param_index_of(params_view(*params), name@) == Some(j as int) && j
                < params@.len(),
            None => param_index_of(params_view(*params), name@) is None,
        },
{
    let n: usize = params.len();
    let mut i: usize = 0;
    while i < n
        invariant
            n == params@.len(),
            0 <= i <= n,
            param_index_of(params_view(*params), name@) == param_index_from(
                params_view(*params),
                name@,
                i as int,
            ),
        decreases n - i,
    {
        if str_eq(name, params[i].0.as_str()) {
            return Some(i);
        }
        i = i + 1;
    }
    None
}

fn find_pair_index(transitions: &Vec<Transition>, from: &str, to: &str) -> (r: Option<usize>)
    ensures
        match r {
            Some(j) => pair_index_of(transitions@, from@, to@) == Some(j as int) && j
                < transitions@.len(),
            None => pair_index_of(transitions@, from@, to@) is None,
        },
{
    let n: usize = transitions.len();
    let mut i: usize = 0;
    while i < n
        invariant
            n == transitions@.len(),
            0 <= i <= n,
            pair_index_of(transitions@, from@, to@) == pair_index_from(
                transitions@,
                from@,
                to@,
                i as int,
            ),
        decreases n - i,
    {
        if str_eq(from, transitions[i].from_state.as_str()) && str_eq(
            to,
            transitions[i].to_state.as_str(),
        ) {
            return Some(i);
        }
        i = i + 1;
    }
    None
}

/// The parameter list as the view sees it.
pub open spec fn params_view(params: Vec<(String, Parameter)>) -> Seq<(Seq<char>, Parameter)> {
    params@.map_values(|e: (String, Parameter)| (e.0@, e.1))
}

impl AnimationStateMachine {
    pub closed spec fn view(&self) -> SmView {
        SmView {
            states: self.states@,
            transitions: self.transitions@,
            params: params_view(self.parameters),
            current_state: opt_name_view(self.current_state),
            current_transition: opt_transition_view(self.current_transition),
        }
    }

    /// Transition timing data is bounded and any in-flight crossfade
    /// progress lies in `[0, SCALE)`. Every method preserves this.
    pub open spec fn wf(&self) -> bool {
        &&& forall|i: int|
            0 <= i < self.view().transitions.len() ==> transition_wf(
                #[trigger] self.view().transitions[i],
            )
        &&& match self.view().current_transition {
            None => true,
            Some(ct) => 0 <= ct.2 < SCALE,
        }
    }

    /// An empty machine: no states, transitions or parameters, no current
    /// state and no transition in flight.
    pub fn new() -> (r: AnimationStateMachine)
        ensures
            r.view().states.len() == 0,
            r.view().transitions.len() == 0,
            r.view().params.len() == 0,
            r.view().current_state is None,
            r.view().current_transition is None,
            r.wf(),
    {
        AnimationStateMachine {
            states: Vec::new(),
            transitions: Vec::new(),
            parameters: Vec::new(),
            current_state: None,
            current_transition: None,
        }
    }

    /// Adds a state named `name` bound to `clip`, at real-time speed and
    /// looping playback; an existing state of that name is replaced.
    pub fn add_state(&mut self, name: String, clip: ClipHandle)
        requires
            old(self).wf(),
        ensures
            final(self).wf(),
            final(self).view().states =~= set_state_spec(
                old(self).view().states,
                AnimationState { name: name, clip: clip, speed: SCALE, loop_mode: LoopMode::Loop },
            ),
            final(self).view().transitions == old(self).view().transitions,
            final(self).view().params == old(self).view().params,
            final(self).view().current_state == old(self).view().current_state,
            final(self).view().current_transition == old(self).view().current_transition,
    {
        let found = find_state_index(&self.states, name.as_str());
        let state = AnimationState { name, clip, speed: SCALE, loop_mode: LoopMode::Loop };
        match found {
            Some(i) => {
                self.states[i] = state;
            },
            None => {
                self.states.push(state);
            },
        }
        proof {
            assert forall|i: int| 0 <= i < self.view().transitions.len() implies transition_wf(
                #[trigger] self.view().transitions[i],
            ) by {
                assert(transition_wf(old(self).view().transitions[i]));
            }
        }
    }

    /// Appends a transition; authored order decides which eligible
    /// transition fires first.
    pub fn add_transition(&mut self, transition: Transition)
        requires
            old(self).wf(),
            transition_wf(transition),
        ensures
            final(self).wf(),
            final(self).view().transitions =~= old(self).view().transitions.push(transition),
            final(self).view().states == old(self).view().states,
            final(self).view().params == old(self).view().params,
            final(self).view().current_state == old(self).view().current_state,
            final(self).view().current_transition == old(self).view().current_transition,
    {
        self.transitions.push(transition);
        proof {
            assert forall|i: int| 0 <= i < self.view().transitions.len() implies transition_wf(
                #[trigger] self.view().transitions[i],
            ) by {
                if i < old(self).view().transitions.len() {
                    assert(transition_wf(old(self).view().transitions[i]));
                } else {
                    assert(self.view().transitions[i] == transition);
                }
            }
        }
    }

    fn set_param(&mut self, name: &str, value: Parameter)
        requires
            old(self).wf(),
        ensures
            final(self).wf(),
            final(self).view().params =~= set_param_spec(old(self).view().params, name@, value),
            final(self).view().states == old(self).view().states,
            final(self).view().transitions == old(self).view().transitions,
            final(self).view().current_state == old(self).view().current_state,
            final(self).view().current_transition == old(self).view().current_transition,
    {
        let found = find_param_index(&self.parameters, name);
        match found {
            Some(i) => {
                self.parameters[i] = (name.to_owned(), value);
            },
            None => {
                self.parameters.push((name.to_owned(), value));
            },
        }
        proof {
            assert forall|i: int| 0 <= i < self.view().transitions.len() implies transition_wf(
                #[trigger] self.view().transitions[i],
            ) by {
                assert(transition_wf(old(self).view().transitions[i]));
            }
        }
    }

    /// Sets a boolean parameter, creating it if needed.
    pub fn set_bool(&mut self, name: &str, value: bool)
        requires
            old(self).wf(),
        ensures
            final(self).wf(),
            final(self).view().params =~= set_param_spec(
                old(self).view().params,
                name@,
                Parameter::Bool(value),
            ),
            final(self).view().states == old(self).view().states,
            final(self).view().transitions == old(self).view().transitions,
            final(self).view().current_state == old(self).view().current_state,
            final(self).view().current_transition == old(self).view().current_transition,
    {
        self.set_param(name, Parameter::Bool(value));
    }

    /// Sets an integer parameter, creating it if needed.
    pub fn set_int(&mut self, name: &str, value: i32)
        requires
            old(self).wf(),
        ensures
            final(self).wf(),
            final(self).view().params =~= set_param_spec(
                old(self).view().params,
                name@,
                Parameter::Int(value),
            ),
            final(self).view().states == old(self).view().states,
            final(self).view().transitions == old(self).view().transitions,
            final(self).view().current_state == old(self).view().current_state,
            final(self).view().current_transition == old(self).view().current_transition,
    {
        self.set_param(name, Parameter::Int(value));
    }

    /// Sets a fixed-point scalar parameter, creating it if needed.
    pub fn set_float(&mut self, name: &str, value: i64)
        requires
            old(self).wf(),
        ensures
            final(self).wf(),
            final(self).view().params =~= set_param_spec(
                old(self).view().params,
                name@,
                Parameter::Float(value),
            ),
            final(self).view().states == old(self).view().states,
            final(self).view().transitions == old(self).view().transitions,
            final(self).view().current_state == old(self).view().current_state,
            final(self).view().current_transition == old(self).view().current_transition,
    {
        self.set_param(name, Parameter::Float(value));
    }

    /// Arms a trigger parameter, creating it if needed. The next transition
    /// search consumes it.
    pub fn set_trigger(&mut self, name: &str)
        requires
            old(self).wf(),
        ensures
            final(self).wf(),
            final(self).view().params =~= set_param_spec(
                old(self).view().params,
                name@,
                Parameter::Trigger(true),
            ),
            final(self).view().states == old(self).view().states,
            final(self).view().transitions == old(self).view().transitions,
            final(self).view().current_state == old(self).view().current_state,
            final(self).view().current_transition == old(self).view().current_transition,
    {
        self.set_param(name, Parameter::Trigger(true));
    }

    /// Disarms a trigger parameter by name; a parameter of another kind, or
    /// a missing one, is left untouched.
    pub fn reset_trigger(&mut self, name: &str)
        requires
            old(self).wf(),
        ensures
            final(self).wf(),
            final(self).view().params =~= (match param_of(old(self).view().params, name@) {
                Some(Parameter::Trigger(a)) => set_param_spec(
                    old(self).view().params,
                    name@,
                    Parameter::Trigger(false),
                ),
                _ => old(self).view().params,
            }),
            final(self).view().states == old(self).view().states,
            final(self).view().transitions == old(self).view().transitions,
            final(self).view().current_state == old(self).view().current_state,
            final(self).view().current_transition == old(self).view().current_transition,
    {
        let found = find_param_index(&self.parameters, name);
        match found {
            Some(i) => {
                let is_trigger = matches!(self.parameters[i].1, Parameter::Trigger(_));
                if is_trigger {
                    self.parameters[i] = (name.to_owned(), Parameter::Trigger(false));
                }
            },
            None => {},
        }
        proof {
            assert forall|i: int| 0 <= i < self.view().transitions.len() implies transition_wf(
                #[trigger] self.view().transitions[i],
            ) by {
                assert(transition_wf(old(self).view().transitions[i]));
            }
        }
    }

    /// The current state's name, if the machine has started.
    pub fn current_state(&self) -> (r: &Option<String>)
        ensures
            opt_name_view(*r) == self.view().current_state,
    {
        &self.current_state
    }

    /// The transition in flight, as (from, to, progress in `SCALE` units).
    pub fn current_transition(&self) -> (r: &Option<(String, String, i64)>)
        ensures
            opt_transition_view(*r) == self.view().current_transition,
    {
        &self.current_transition
    }
}

/// Whether one condition holds against the parameters: exact or strict
/// comparison against the named parameter, false on a missing or
/// type-mismatched parameter.
pub open spec fn cond_holds(c: Condition, params: Seq<(Seq<char>, Parameter)>) -> bool {
    match c {
        Condition::BoolEquals { name, value } => match param_of(params, name@) {
            Some(Parameter::Bool(pv)) => pv == value,
            _ => false,
        },
        Condition::IntEquals { name, value } => match param_of(params, name@) {
            Some(Parameter::Int(pv)) => pv == value,
            _ => false,
        },
        Condition::FloatGreaterThan { name, value } => match param_of(params, name@) {
            Some(Parameter::Float(pv)) => pv > value,
            _ => false,
        },
        Condition::FloatLessThan { name, value } => match param_of(params, name@) {
            Some(Parameter::Float(pv)) => pv < value,
            _ => false,
        },
        Condition::TriggerActive { name } => match param_of(params, name@) {
            Some(Parameter::Trigger(pv)) => pv,
            _ => false,
        },
    }
}

/// All of a transition's conditions hold (logical AND; an empty list holds).
pub open spec fn all_conditions_hold(
    conds: Seq<Condition>,
    params: Seq<(Seq<char>, Parameter)>,
) -> bool {
    forall|i: int| 0 <= i < conds.len() ==> cond_holds(#[trigger] conds[i], params)
}

/// A transition is ready when its conditions hold and, with `has_exit_time`
/// set, the source state's normalized playback time `norm` has reached the
/// exit fraction: an implicit extra condition.
pub open spec fn transition_ready(
    t: Transition,
    params: Seq<(Seq<char>, Parameter)>,
    norm: int,
) -> bool {
    &&& all_conditions_hold(t.conditions@, params)
    &&& (t.has_exit_time ==> norm >= t.exit_time)
}

/// The first ready transition out of `current`, at or after `i`.
pub open spec fn ready_index_from(
    transitions: Seq<Transition>,
    current: Seq<char>,
    params: Seq<(Seq<char>, Parameter)>,
    norm: int,
    i: int,
) -> Option<int>
    decreases transitions.len() - i,
{
    if i < 0 || i >= transitions.len() {
        None
    } else if transitions[i].from_state@ == current && transition_ready(
        transitions[i],
        params,
        norm,
    ) {
        Some(i)
    } else {
        ready_index_from(transitions, current, params, norm, i + 1)
    }
}

pub open spec fn ready_index_of(
    transitions: Seq<Transition>,
    current: Seq<char>,
    params: Seq<(Seq<char>, Parameter)>,
    norm: int,
) -> Option<int> {
    ready_index_from(transitions, current, params, norm, 0)
}

/// The normalized playback time of the named state, in `SCALE` units:
/// the player's cursor over the state's clip duration. A missing state, a
/// dangling clip handle or a degenerate duration count as zero.
pub open spec fn norm_time_spec(
    states: Seq<AnimationState>,
    clips: ClipLibrary,
    cs: Seq<char>,
    ptime: int,
) -> int {
    match state_index_of(states, cs) {
        None => 0,
        Some(si) => {
            let h = states[si].clip;
            if h.id < clips.spec_clips().len() {
                let d = clips.spec_clips()[h.id as int].duration;
                if d <= 0 {
                    0
                } else {
                    tdiv(ptime * (SCALE as int), d as int)
                }
            } else {
                0
            }
        },
    }
}

/// The player after starting a state's clip at the state's speed.
pub open spec fn played(p: AnimationPlayer, s: AnimationState) -> AnimationPlayer {
    AnimationPlayer { current_animation: Some(s.clip), time: 0, speed: s.speed, is_playing: true }
}

/// Crossfade progress after one tick: `delta` over the transition's
/// duration, in `SCALE` units; a degenerate duration completes at once.
pub open spec fn progress_step(progress: int, duration: int, delta: int) -> int {
    if duration <= 0 {
        SCALE as int
    } else {
        progress + tdiv(delta * (SCALE as int), duration)
    }
}

/// What the tick does while no crossfade advances this tick: the machine
/// searches for a ready transition out of the current state (or seeds the
/// first state when none is current), and every trigger is consumed.
pub open spec fn search_outcome(
    v0: SmView,
    p0: AnimationPlayer,
    v1: SmView,
    p1: AnimationPlayer,
    clips: ClipLibrary,
) -> bool {
    &&& v1.params =~= reset_triggers_spec(v0.params)
    &&& match v0.current_state {
        Some(cs) => {
            let norm = norm_time_spec(v0.states, clips, cs, p0.time as int);
            match ready_index_of(v0.transitions, cs, v0.params, norm) {
                Some(ti) => v1.current_state == v0.current_state && v1.current_transition == Some(
                    (cs, v0.transitions[ti].to_state@, 0i64),
                ) && p1 == p0,
                None => v1.current_state == v0.current_state && v1.current_transition
                    == v0.current_transition && p1 == p0,
            }
        },
        None => if v0.states.len() > 0 {
            v1.current_state == Some(v0.states[0].name@) && v1.current_transition
                == v0.current_transition && p1 == played(p0, v0.states[0])
        } else {
            v1.current_state == v0.current_state && v1.current_transition == v0.current_transition
                && p1 == p0
        },
    }
}

/// What the tick does while a crossfade is in flight and its transition is
/// found: progress advances; reaching the end commits to the target state
/// and starts its clip. Triggers are not consumed this tick.
pub open spec fn crossfade_outcome(
    v0: SmView,
    p0: AnimationPlayer,
    v1: SmView,
    p1: AnimationPlayer,
    from: Seq<char>,
    to: Seq<char>,
    progress: int,
    ti: int,
    delta: int,
) -> bool {
    let np = progress_step(progress, v0.transitions[ti].duration as int, delta);
    &&& v1.params =~= v0.params
    &&& if np >= SCALE as int {
        &&& v1.current_state == Some(to)
        &&& v1.current_transition is None
        &&& match state_index_of(v0.states, to) {
            Some(si) => p1 == played(p0, v0.states[si]),
            None => p1 == p0,
        }
    } else {
        &&& v1.current_state == v0.current_state
        &&& v1.current_transition == Some((from, to, np as i64))
        &&& p1 == p0
    }
}

/// One state-machine tick, relating the machine and player before and
/// after. States and transitions never change; an in-flight crossfade whose
/// transition pair is found advances, anything else runs the search.
pub open spec fn sm_tick_spec(
    v0: SmView,
    p0: AnimationPlayer,
    v1: SmView,
    p1: AnimationPlayer,
    clips: ClipLibrary,
    delta: int,
) -> bool {
    &&& v1.states == v0.states
    &&& v1.transitions == v0.transitions
    &&& match v0.current_transition {
        Some(ct) => match pair_index_of(v0.transitions, ct.0, ct.1) {
            Some(ti) => crossfade_outcome(v0, p0, v1, p1, ct.0, ct.1, ct.2 as int, ti, delta),
            None => search_outcome(v0, p0, v1, p1, clips),
        },
        None => search_outcome(v0, p0, v1, p1, clips),
    }
}

/// Every trigger in the list is inactive.
pub open spec fn triggers_inactive(params: Seq<(Seq<char>, Parameter)>) -> bool {
    forall|i: int|
        0 <= i < params.len() ==> ((#[trigger] params[i]).1 is Trigger ==> params[i].1
            == Parameter::Trigger(false))
}

/// A successful parameter lookup lands inside the list, on the name.
proof fn lemma_param_index_valid(params: Seq<(Seq<char>, Parameter)>, name: Seq<char>, j: int, i: int)
    requires
        param_index_from(params, name, j) == Some(i),
        0 <= j,
    ensures
        0 <= i < params.len(),
        params[i].0 == name,
    decreases params.len() - j,
{
    if j < params.len() {
        if params[j].0 != name {
            lemma_param_index_valid(params, name, j + 1, i);
        }
    }
}

/// A tick whose transition search ran consumes every trigger: afterwards
/// no trigger parameter is active, so a second search without re-arming
/// sees every trigger condition false. A trigger is seen active by at most
/// one search.
pub proof fn lemma_triggers_consumed(
    v0: SmView,
    p0: AnimationPlayer,
    v1: SmView,
    p1: AnimationPlayer,
    clips: ClipLibrary,
    delta: int,
)
    requires
        sm_tick_spec(v0, p0, v1, p1, clips, delta),
        match v0.current_transition {
            None => true,
            Some(ct) => pair_index_of(v0.transitions, ct.0, ct.1) is None,
        },
    ensures
        triggers_inactive(v1.params),
{
    assert(v1.params =~= reset_triggers_spec(v0.params));
    assert forall|i: int|
        0 <= i < v1.params.len() implies ((#[trigger] v1.params[i]).1 is Trigger
        ==> v1.params[i].1 == Parameter::Trigger(false)) by {
        assert(v1.params[i] == (match v0.params[i].1 {
            Parameter::Trigger(a) => (v0.params[i].0, Parameter::Trigger(false)),
            _ => v0.params[i],
        }));
    }
}

/// Once every trigger is inactive, no trigger condition holds: the
/// transition search cannot fire on a consumed trigger.
pub proof fn lemma_inactive_trigger_blocks(c: Condition, params: Seq<(Seq<char>, Parameter)>)
    requires
        c is TriggerActive,
        triggers_inactive(params),
    ensures
        !cond_holds(c, params),
{
    match c {
        Condition::TriggerActive { name } => {
            match param_index_of(params, name@) {
                None => {},
                Some(i) => {
                    lemma_param_index_valid(params, name@, 0, i);
                },
            }
        },
        _ => {},
    }
}

fn eval_condition(c: &Condition, params: &Vec<(String, Parameter)>) -> (r: bool)
    ensures
        r == cond_holds(*c, params_view(*params)),
{
    match c {
        Condition::BoolEquals { name, value } => {
            match find_param_index(params, name.as_str()) {
                Some(i) => match params[i].1 {
                    Parameter::Bool(pv) => pv == *value,
                    _ => false,
                },
                None => false,
            }
        },
        Condition::IntEquals { name, value } => {
            match find_param_index(params, name.as_str()) {
                Some(i) => match params[i].1 {
                    Parameter::Int(pv) => pv == *value,
                    _ => false,
                },
                None => false,
            }
        },
        Condition::FloatGreaterThan { name, value } => {
            match find_param_index(params, name.as_str()) {
                Some(i) => match params[i].1 {
                    Parameter::Float(pv) => pv > *value,
                    _ => false,
                },
                None => false,
            }
        },
        Condition::FloatLessThan { name, value } => {
            match find_param_index(params, name.as_str()) {
                Some(i) => match params[i].1 {
                    Parameter::Float(pv) => pv < *value,
                    _ => false,
                },
                None => false,
            }
        },
        Condition::TriggerActive { name } => {
            match find_param_index(params, name.as_str()) {
                Some(i) => match params[i].1 {
                    Parameter::Trigger(pv) => pv,
                    _ => false,
                },
                None => false,
            }
        },
    }
}

fn all_conditions(conds: &Vec<Condition>, params: &Vec<(String, Parameter)>) -> (r: bool)
    ensures
        r == all_conditions_hold(conds@, params_view(*params)),
{
    let n: usize = conds.len();
    let mut i: usize = 0;
    while i < n
        invariant
            n == conds@.len(),
            0 <= i <= n,
            forall|j: int| 0 <= j < i ==> cond_holds(#[trigger] conds@[j], params_view(*params)),
        decreases n - i,
    {
        if !eval_condition(&conds[i], params) {
            return false;
        }
        i = i + 1;
    }
    true
}

fn transition_ready_exec(t: &Transition, params: &Vec<(String, Parameter)>, norm: i64) -> (r:
    bool)
    ensures
        r == transition_ready(*t, params_view(*params), norm as int),
{
    let conds_ok = all_conditions(&t.conditions, params);
    conds_ok && (!t.has_exit_time || norm >= t.exit_time)
}

fn find_ready_index(
    transitions: &Vec<Transition>,
    current: &str,
    params: &Vec<(String, Parameter)>,
    norm: i64,
) -> (r: Option<usize>)
    ensures
        match r {
            Some(j) => ready_index_of(transitions@, current@, params_view(*params), norm as int)
                == Some(j as int) && j < transitions@.len(),
            None => ready_index_of(transitions@, current@, params_view(*params), norm as int)
                is None,
        },
{
    let n: usize = transitions.len();
    let mut i: usize = 0;
    while i < n
        invariant
            n == transitions@.len(),
            0 <= i <= n,
            ready_index_of(transitions@, current@, params_view(*params), norm as int)
                == ready_index_from(
                transitions@,
                current@,
                params_view(*params),
                norm as int,
                i as int,
            ),
        decreases n - i,
    {
        if str_eq(current, transitions[i].from_state.as_str()) && transition_ready_exec(
            &transitions[i],
            params,
            norm,
        ) {
            return Some(i);
        }
        i = i + 1;
    }
    None
}

fn norm_time(states: &Vec<AnimationState>, clips: &ClipLibrary, cs: &str, ptime: i64) -> (r: i64)
    requires
        -TIME_MAX <= ptime <= TIME_MAX,
    ensures
        r == norm_time_spec(states@, *clips, cs@, ptime as int),
{
    match find_state_index(states, cs) {
        None => 0,
        Some(si) => {
            let h = states[si].clip;
            match clips.get(&h) {
                None => 0,
                Some(c) => {
                    if c.duration <= 0 {
                        0
                    } else {
                        (ptime * SCALE) / c.duration
                    }
                },
            }
        },
    }
}

/// One state-machine tick. An in-flight crossfade whose transition pair is
/// found advances by `delta` over its duration: reaching the end commits to
/// the target state and starts its clip at the state's speed; otherwise the
/// machine stays mid-transition and nothing else happens this tick. In
/// every other case the machine searches the transitions in authored order
/// for the first ready one out of the current state (seeding the first
/// added state when none is current), then consumes every trigger.
pub fn animation_state_machine_system(
    sm: &mut AnimationStateMachine,
    player: &mut AnimationPlayer,
    clips: &ClipLibrary,
    delta: i64,
)
    requires
        old(sm).wf(),
        0 <= delta <= VAL_MAX,
        -TIME_MAX <= old(player).time <= TIME_MAX,
    ensures
        final(sm).wf(),
        sm_tick_spec(
            old(sm).view(),
            *old(player),
            final(sm).view(),
            *final(player),
            *clips,
            delta as int,
        ),
{
    let ct: Option<(String, String, i64)> = match &sm.current_transition {
        None => None,
        Some(t) => Some((t.0.clone(), t.1.clone(), t.2)),
    };
    match ct {
        None => {},
        Some((from, to, progress)) => {
            match find_pair_index(&sm.transitions, from.as_str(), to.as_str()) {
                None => {
                    // The recorded pair matches no authored transition: fall
                    // through to the ordinary search.
                },
                Some(ti) => {
                    let t_dur: i64 = sm.transitions[ti].duration;
                    let np: i64 = if t_dur <= 0 {
                        SCALE
                    } else {
                        progress + (delta * SCALE) / t_dur
                    };
                    if np >= SCALE {
                        let si = find_state_index(&sm.states, to.as_str());
                        sm.current_state = Some(to);
                        sm.current_transition = None;
                        match si {
                            Some(si) => {
                                let clip_handle = sm.states[si].clip;
                                let sp: i64 = sm.states[si].speed;
                                player.play(clip_handle);
                                player.speed = sp;
                            },
                            None => {},
                        }
                    } else {
                        sm.current_transition = Some((from, to, np));
                    }
                    proof {
                        assert forall|i: int|
                            0 <= i < sm.view().transitions.len() implies transition_wf(
                            #[trigger] sm.view().transitions[i],
                        ) by {
                            assert(transition_wf(old(sm).view().transitions[i]));
                        }
                    }
                    return ;
                },
            }
        },
    }
    // Search for a ready transition out of the current state, or seed the
    // first state when none is current.
    let cs: Option<String> = match &sm.current_state {
        None => None,
        Some(s) => Some(s.clone()),
    };
    match cs {
        Some(cs) => {
            let norm: i64 = norm_time(&sm.states, clips, cs.as_str(), player.time);
            match find_ready_index(&sm.transitions, cs.as_str(), &sm.parameters, norm) {
                Some(ti) => {
                    let to = sm.transitions[ti].to_state.clone();
                    sm.current_transition = Some((cs, to, 0));
                },
                None => {},
            }
        },
        None => {
            if sm.states.len() > 0 {
                let name = sm.states[0].name.clone();
                let clip_handle = sm.states[0].clip;
                let sp: i64 = sm.states[0].speed;
                sm.current_state = Some(name);
                player.play(clip_handle);
                player.speed = sp;
            }
        },
    }
    // Consume every trigger: each is seen by at most one search.
    let ghost pre = *sm;
    let n: usize = sm.parameters.len();
    let mut i: usize = 0;
    while i < n
        invariant
            n == sm.parameters@.len(),
            0 <= i <= n,
            sm.states@ == pre.states@,
            sm.transitions@ == pre.transitions@,
            sm.current_state == pre.current_state,
            sm.current_transition == pre.current_transition,
            forall|j: int|
                0 <= j < i ==> (#[trigger] sm.parameters@[j]).0 == pre.parameters@[j].0 && sm.parameters@[j].1
                    == (match pre.parameters@[j].1 {
                    Parameter::Trigger(a) => Parameter::Trigger(false),
                    x => x,
                }),
            forall|j: int| i <= j < n ==> (#[trigger] sm.parameters@[j]) == pre.parameters@[j],
        decreases n - i,
    {
        let is_trigger = matches!(sm.parameters[i].1, Parameter::Trigger(_));
        if is_trigger {
            let nm = sm.parameters[i].0.clone();
            sm.parameters[i] = (nm, Parameter::Trigger(false));
        }
        i = i + 1;
    }
    proof {
        assert forall|j: int| 0 <= j < n implies params_view(sm.parameters)[j]
            == reset_triggers_spec(params_view(pre.parameters))[j] by {
            assert(sm.parameters@[j].0 == pre.parameters@[j].0);
        }
        assert(params_view(sm.parameters) =~= reset_triggers_spec(params_view(pre.parameters)));
        assert forall|i: int|
            0 <= i < sm.view().transitions.len() implies transition_wf(
            #[trigger] sm.view().transitions[i],
        ) by {
            assert(transition_wf(old(sm).view().transitions[i]));
        }
    }
}

} // verus!
