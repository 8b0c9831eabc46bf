//! Keyframe sampling: find the bracketing pair of keyframes for a time,
//! derive the interpolation factor, and interpolate the pair's values under
//! the earlier keyframe's interpolation mode.
//!
//! Sampling is total: a time outside every bracket, or a bracketing pair
//! whose value kinds disagree, yields no value, and the caller leaves the
//! target property untouched.

use vstd::prelude::*;

verus! {

use vstd::arithmetic::div_mod::{
    lemma_div_is_ordered,
    lemma_div_multiples_vanish,
    lemma_multiply_divide_lt,
};
use crate::clip::{
    keyframe_wf,
    track_wf,
    value_in_range,
    AnimationTrack,
    InterpolationType,
    Keyframe,
    KeyframeValue,
};
use crate::math::{
    tdiv,
    bezier_fixed,
    bezier_spec,
    lemma_bezier_between,
    lemma_lerp_between,
    lerp_fixed,
    lerp_quat,
    lerp_quat_spec,
    lerp_spec,
    lerp_transform_spec,
    lerp_vec3,
    lerp_vec3_spec,
    interpolate_transform,
    quat_in_range,
    transform_in_range,
    vec3_in_range,
    Quat,
    Transform,
    Vec3,
    SCALE,
    VAL_MAX,
};

/// `i` starts a bracketing pair for time `t`: the pair's times enclose `t`.
pub open spec fn is_bracket(keys: Seq<Keyframe>, t: int, i: int) -> bool {
    &&& 0 <= i
    &&& i + 1 < keys.len()
    &&& keys[i].time <= t
    &&& t <= keys[i + 1].time
}

/// The first bracketing pair at or after position `i`, if any.
pub open spec fn bracket_from(keys: Seq<Keyframe>, t: int, i: int) -> Option<int>
    decreases keys.len() - i,
{
    if i < 0 || i + 1 >= keys.len() {
        None
    } else if keys[i].time <= t && t <= keys[i + 1].time {
        Some(i)
    } else {
        bracket_from(keys, t, i + 1)
    }
}

/// The first bracketing pair of the track for time `t`, if any.
pub open spec fn bracket_of(keys: Seq<Keyframe>, t: int) -> Option<int> {
    bracket_from(keys, t, 0)
}

/// Finds the first pair of adjacent keyframes whose times enclose `time`.
pub fn find_bracket(keyframes: &Vec<Keyframe>, time: i64) -> (r: Option<usize>)
    ensures
        match r {
            Some(i) => bracket_of(keyframes@, time as int) == Some(i as int) && is_bracket(
                keyframes@,
                time as int,
                i as int,
            ),
            None => bracket_of(keyframes@, time as int) is None,
        },
{
    let n: usize = keyframes.len();
    if n < 2 {
        return None;
    }
    let mut i: usize = 0;
    while i + 1 < n
        invariant
            n == keyframes@.len(),
            0 <= i,
            i + 1 <= n,
            2 <= n,
            bracket_of(keyframes@, time as int) == bracket_from(keyframes@, time as int, i as int),
        decreases n - i,
    {
        if keyframes[i].time <= time && time <= keyframes[i + 1].time {
            return Some(i);
        }
        i = i + 1;
    }
    None
}

/// The interpolation factor for time `t` within the span `[t0, t1]`, in
/// fixed-point units of `SCALE`; a degenerate span yields factor 0.
pub open spec fn factor_spec(t: int, t0: int, t1: int) -> int {
    if t1 <= t0 {
        0
    } else {
        (t - t0) * (SCALE as int) / (t1 - t0)
    }
}

/// The factor reaches `SCALE` exactly at the end of a non-degenerate span.
pub proof fn lemma_factor_at_end(t: int, t0: int, t1: int)
    requires
        t0 <= t <= t1,
    ensures
        factor_spec(t, t0, t1) == SCALE as int <==> (t0 < t1 && t == t1),
        0 <= factor_spec(t, t0, t1) <= SCALE as int,
{
    if t0 < t1 {
        let d = t1 - t0;
        lemma_div_is_ordered(0, (t - t0) * (SCALE as int), d);
        assert((t - t0) * (SCALE as int) >= 0) by (nonlinear_arith)
            requires
                t >= t0,
        ;
        if t == t1 {
            lemma_div_multiples_vanish(SCALE as int, d);
            assert(d * (SCALE as int) == (t - t0) * (SCALE as int));
        } else {
            assert((t - t0) * (SCALE as int) < d * (SCALE as int)) by (nonlinear_arith)
                requires
                    t - t0 < d,
                    0 < SCALE as int,
            ;
            assert(d * (SCALE as int) == (SCALE as int) * d) by (nonlinear_arith);
            lemma_multiply_divide_lt((t - t0) * (SCALE as int), d, SCALE as int);
            assert((t - t0) * (SCALE as int) <= d * (SCALE as int)) by (nonlinear_arith)
                requires
                    0 <= t - t0 <= d,
                    0 < SCALE as int,
            ;
            lemma_div_is_ordered((t - t0) * (SCALE as int), d * (SCALE as int), d);
            lemma_div_multiples_vanish(SCALE as int, d);
        }
    }
}

/// Computes the interpolation factor for `t` within `[t0, t1]`.
pub fn interp_factor(t: i64, t0: i64, t1: i64) -> (r: i64)
    requires
        -VAL_MAX <= t0 <= VAL_MAX,
        -VAL_MAX <= t1 <= VAL_MAX,
        t0 <= t <= t1,
    ensures
        r == factor_spec(t as int, t0 as int, t1 as int),
        0 <= r <= SCALE,
{
    if t1 <= t0 {
        return 0;
    }
    proof {
        lemma_factor_at_end(t as int, t0 as int, t1 as int);
        assert(0 <= (t - t0) as int * (SCALE as int) <= 2_000_000_000_000) by (nonlinear_arith)
            requires
                0 <= t - t0 <= 2_000_000_000,
        ;
    }
    let num: i64 = (t - t0) * SCALE;
    num / (t1 - t0)
}

/// Picks `next` exactly when the factor has reached the end of the span;
/// the step rule for every value kind.
pub open spec fn step_pick(a: KeyframeValue, b: KeyframeValue, f: int) -> KeyframeValue {
    if f == SCALE as int {
        b
    } else {
        a
    }
}

pub open spec fn bezier_vec3_spec(a: Vec3, c1: Vec3, c2: Vec3, b: Vec3, f: int) -> Vec3 {
    Vec3 {
        x: bezier_spec(a.x as int, c1.x as int, c2.x as int, b.x as int, f) as i64,
        y: bezier_spec(a.y as int, c1.y as int, c2.y as int, b.y as int, f) as i64,
        z: bezier_spec(a.z as int, c1.z as int, c2.z as int, b.z as int, f) as i64,
    }
}

/// Interpolation of a vector-valued span under a given mode: linear for
/// `Linear` and (without tangent data) `CubicSpline`, the step rule for
/// `Step`, and the cubic curve through the two control points for `Bezier`.
pub open spec fn interp_vec3_mode(mode: InterpolationType, a: Vec3, b: Vec3, f: int) -> Vec3 {
    match mode {
        InterpolationType::Step => a,
        InterpolationType::Bezier { control_point1, control_point2 } => bezier_vec3_spec(
            a,
            control_point1,
            control_point2,
            b,
            f,
        ),
        _ => lerp_vec3_spec(a, b, f),
    }
}

/// The interpolated value of a bracketing pair at factor `f`, or `None` when
/// the pair's value kinds disagree. The mode of the earlier keyframe
/// governs; under `Step` the earlier value holds for the whole span and the
/// later one is taken exactly at the span's end.
pub open spec fn interp_value_spec(prev: Keyframe, next: Keyframe, f: int) -> Option<
    KeyframeValue,
> {
    let mode = prev.interpolation;
    match (prev.value, next.value) {
        (KeyframeValue::Transform(a), KeyframeValue::Transform(b)) => Some(
            if mode is Step {
                step_pick(prev.value, next.value, f)
            } else {
                KeyframeValue::Transform(lerp_transform_spec(a, b, f))
            },
        ),
        (KeyframeValue::Translation(a), KeyframeValue::Translation(b)) => Some(
            if mode is Step {
                step_pick(prev.value, next.value, f)
            } else {
                KeyframeValue::Translation(interp_vec3_mode(mode, a, b, f))
            },
        ),
        (KeyframeValue::Rotation(a), KeyframeValue::Rotation(b)) => Some(
            if mode is Step {
                step_pick(prev.value, next.value, f)
            } else {
                KeyframeValue::Rotation(lerp_quat_spec(a, b, f))
            },
        ),
        (KeyframeValue::Scale(a), KeyframeValue::Scale(b)) => Some(
            if mode is Step {
                step_pick(prev.value, next.value, f)
            } else {
                KeyframeValue::Scale(interp_vec3_mode(mode, a, b, f))
            },
        ),
        (KeyframeValue::Float(a), KeyframeValue::Float(b)) => Some(
            if mode is Step {
                step_pick(prev.value, next.value, f)
            } else {
                KeyframeValue::Float(lerp_spec(a as int, b as int, f) as i64)
            },
        ),
        _ => None,
    }
}

fn bezier_vec3(a: Vec3, c1: Vec3, c2: Vec3, b: Vec3, f: i64) -> (r: Vec3)
    requires
        vec3_in_range(a),
        vec3_in_range(c1),
        vec3_in_range(c2),
        vec3_in_range(b),
        0 <= f <= SCALE,
    ensures
        r == bezier_vec3_spec(a, c1, c2, b, f as int),
        vec3_in_range(r),
{
    Vec3 {
        x: bezier_fixed(a.x, c1.x, c2.x, b.x, f),
        y: bezier_fixed(a.y, c1.y, c2.y, b.y, f),
        z: bezier_fixed(a.z, c1.z, c2.z, b.z, f),
    }
}

fn interp_vec3_by_mode(mode: &InterpolationType, a: Vec3, b: Vec3, f: i64) -> (r: Vec3)
    requires
        vec3_in_range(a),
        vec3_in_range(b),
        ((*mode) matches InterpolationType::Bezier { control_point1, control_point2 }
            ==> vec3_in_range(control_point1) && vec3_in_range(control_point2)),
        0 <= f <= SCALE,
    ensures
        r == interp_vec3_mode(*mode, a, b, f as int),
        vec3_in_range(r),
{
    match mode {
        InterpolationType::Step => a,
        InterpolationType::Bezier { control_point1, control_point2 } => bezier_vec3(
            a,
            *control_point1,
            *control_point2,
            b,
            f,
        ),
        _ => lerp_vec3(a, b, f),
    }
}

/// Interpolates the values of a bracketing pair at factor `f`; `None` when
/// the two value kinds disagree.
pub fn interpolate_keyframes(prev: &Keyframe, next: &Keyframe, f: i64) -> (r: Option<
    KeyframeValue,
>)
    requires
        keyframe_wf(*prev),
        keyframe_wf(*next),
        0 <= f <= SCALE,
    ensures
        r == interp_value_spec(*prev, *next, f as int),
        (r matches Some(v) ==> value_in_range(v)),
{
    let is_step = matches!(prev.interpolation, InterpolationType::Step);
    match (&prev.value, &next.value) {
        (KeyframeValue::Transform(a), KeyframeValue::Transform(b)) => {
            if is_step {
                if f == SCALE {
                    Some(next.value)
                } else {
                    Some(prev.value)
                }
            } else {
                Some(KeyframeValue::Transform(interpolate_transform(a, b, f)))
            }
        },
        (KeyframeValue::Translation(a), KeyframeValue::Translation(b)) => {
            if is_step {
                if f == SCALE {
                    Some(next.value)
                } else {
                    Some(prev.value)
                }
            } else {
                Some(KeyframeValue::Translation(interp_vec3_by_mode(&prev.interpolation, *a, *b, f)))
            }
        },
        (KeyframeValue::Rotation(a), KeyframeValue::Rotation(b)) => {
            if is_step {
                if f == SCALE {
                    Some(next.value)
                } else {
                    Some(prev.value)
                }
            } else {
                Some(KeyframeValue::Rotation(lerp_quat(*a, *b, f)))
            }
        },
        (KeyframeValue::Scale(a), KeyframeValue::Scale(b)) => {
            if is_step {
                if f == SCALE {
                    Some(next.value)
                } else {
                    Some(prev.value)
                }
            } else {
                Some(KeyframeValue::Scale(interp_vec3_by_mode(&prev.interpolation, *a, *b, f)))
            }
        },
        (KeyframeValue::Float(a), KeyframeValue::Float(b)) => {
            if is_step {
                if f == SCALE {
                    Some(next.value)
                } else {
                    Some(prev.value)
                }
            } else {
                Some(KeyframeValue::Float(lerp_fixed(*a, *b, f)))
            }
        },
        _ => None,
    }
}

/// The value a track takes at time `t`: the interpolated value of its first
/// bracketing pair, or nothing when no pair encloses `t`.
pub open spec fn sample_track_spec(track: AnimationTrack, t: int) -> Option<KeyframeValue> {
    match bracket_of(track.keyframes@, t) {
        None => None,
        Some(i) => interp_value_spec(
            track.keyframes@[i],
            track.keyframes@[i + 1],
            factor_spec(t, track.keyframes@[i].time as int, track.keyframes@[i + 1].time as int),
        ),
    }
}

/// Two keyframe values of the same kind.
pub open spec fn same_kind(a: KeyframeValue, b: KeyframeValue) -> bool {
    match (a, b) {
        (KeyframeValue::Transform(x), KeyframeValue::Transform(y)) => true,
        (KeyframeValue::Translation(x), KeyframeValue::Translation(y)) => true,
        (KeyframeValue::Rotation(x), KeyframeValue::Rotation(y)) => true,
        (KeyframeValue::Scale(x), KeyframeValue::Scale(y)) => true,
        (KeyframeValue::Float(x), KeyframeValue::Float(y)) => true,
        _ => false,
    }
}

proof fn lemma_lerp_vec3_ends(a: Vec3, b: Vec3)
    ensures
        lerp_vec3_spec(a, b, 0) == a,
        lerp_vec3_spec(a, b, SCALE as int) == b,
{
    crate::math::lemma_lerp_ends(a.x as int, b.x as int);
    crate::math::lemma_lerp_ends(a.y as int, b.y as int);
    crate::math::lemma_lerp_ends(a.z as int, b.z as int);
}

proof fn lemma_lerp_quat_ends(a: Quat, b: Quat)
    ensures
        lerp_quat_spec(a, b, 0) == a,
        lerp_quat_spec(a, b, SCALE as int) == b,
{
    crate::math::lemma_lerp_ends(a.x as int, b.x as int);
    crate::math::lemma_lerp_ends(a.y as int, b.y as int);
    crate::math::lemma_lerp_ends(a.z as int, b.z as int);
    crate::math::lemma_lerp_ends(a.w as int, b.w as int);
}

proof fn lemma_lerp_transform_ends(a: Transform, b: Transform)
    ensures
        lerp_transform_spec(a, b, 0) == a,
        lerp_transform_spec(a, b, SCALE as int) == b,
{
    lemma_lerp_vec3_ends(a.translation, b.translation);
    lemma_lerp_quat_ends(a.rotation, b.rotation);
    lemma_lerp_vec3_ends(a.scale, b.scale);
}

proof fn lemma_bezier_vec3_ends(a: Vec3, c1: Vec3, c2: Vec3, b: Vec3)
    ensures
        bezier_vec3_spec(a, c1, c2, b, 0) == a,
        bezier_vec3_spec(a, c1, c2, b, SCALE as int) == b,
{
    crate::math::lemma_bezier_ends(a.x as int, c1.x as int, c2.x as int, b.x as int);
    crate::math::lemma_bezier_ends(a.y as int, c1.y as int, c2.y as int, b.y as int);
    crate::math::lemma_bezier_ends(a.z as int, c1.z as int, c2.z as int, b.z as int);
}

/// At factor 0 the interpolated value is exactly the earlier keyframe's,
/// whatever the interpolation mode, provided the value kinds agree.
pub proof fn lemma_interp_at_start(prev: Keyframe, next: Keyframe)
    requires
        same_kind(prev.value, next.value),
    ensures
        interp_value_spec(prev, next, 0) == Some(prev.value),
{
    match (prev.value, next.value) {
        (KeyframeValue::Transform(a), KeyframeValue::Transform(b)) => {
            lemma_lerp_transform_ends(a, b);
        },
        (KeyframeValue::Translation(a), KeyframeValue::Translation(b)) => {
            lemma_lerp_vec3_ends(a, b);
            match prev.interpolation {
                InterpolationType::Bezier { control_point1, control_point2 } => {
                    lemma_bezier_vec3_ends(a, control_point1, control_point2, b);
                },
                _ => {},
            }
        },
        (KeyframeValue::Rotation(a), KeyframeValue::Rotation(b)) => {
            lemma_lerp_quat_ends(a, b);
        },
        (KeyframeValue::Scale(a), KeyframeValue::Scale(b)) => {
            lemma_lerp_vec3_ends(a, b);
            match prev.interpolation {
                InterpolationType::Bezier { control_point1, control_point2 } => {
                    lemma_bezier_vec3_ends(a, control_point1, control_point2, b);
                },
                _ => {},
            }
        },
        (KeyframeValue::Float(a), KeyframeValue::Float(b)) => {
            crate::math::lemma_lerp_ends(a as int, b as int);
        },
        _ => {},
    }
}

/// At factor `SCALE` the interpolated value is exactly the later
/// keyframe's, whatever the interpolation mode, provided the value kinds
/// agree.
pub proof fn lemma_interp_at_end(prev: Keyframe, next: Keyframe)
    requires
        same_kind(prev.value, next.value),
    ensures
        interp_value_spec(prev, next, SCALE as int) == Some(next.value),
{
    match (prev.value, next.value) {
        (KeyframeValue::Transform(a), KeyframeValue::Transform(b)) => {
            lemma_lerp_transform_ends(a, b);
        },
        (KeyframeValue::Translation(a), KeyframeValue::Translation(b)) => {
            lemma_lerp_vec3_ends(a, b);
            match prev.interpolation {
                InterpolationType::Bezier { control_point1, control_point2 } => {
                    lemma_bezier_vec3_ends(a, control_point1, control_point2, b);
                },
                _ => {},
            }
        },
        (KeyframeValue::Rotation(a), KeyframeValue::Rotation(b)) => {
            lemma_lerp_quat_ends(a, b);
        },
        (KeyframeValue::Scale(a), KeyframeValue::Scale(b)) => {
            lemma_lerp_vec3_ends(a, b);
            match prev.interpolation {
                InterpolationType::Bezier { control_point1, control_point2 } => {
                    lemma_bezier_vec3_ends(a, control_point1, control_point2, b);
                },
                _ => {},
            }
        },
        (KeyframeValue::Float(a), KeyframeValue::Float(b)) => {
            crate::math::lemma_lerp_ends(a as int, b as int);
        },
        _ => {},
    }
}

/// With strictly increasing keyframe times, earlier keyframes carry
/// strictly earlier times.
proof fn lemma_times_strict(keys: Seq<Keyframe>, a: int, b: int)
    requires
        forall|j: int| 0 <= j < keys.len() - 1 ==> (#[trigger] keys[j].time) < keys[j + 1].time,
        0 <= a < b < keys.len(),
    ensures
        keys[a].time < keys[b].time,
    decreases b - a,
{
    if a + 1 < b {
        lemma_times_strict(keys, a + 1, b);
    }
}

/// The bracket search started anywhere at or before `i - 1` lands on the
/// window `(i - 1, i)` when `t` is keyframe `i`'s own time.
proof fn lemma_bracket_lands(keys: Seq<Keyframe>, i: int, j: int)
    requires
        forall|x: int| 0 <= x < keys.len() - 1 ==> (#[trigger] keys[x].time) < keys[x + 1].time,
        1 <= i < keys.len(),
        0 <= j <= i - 1,
    ensures
        bracket_from(keys, keys[i].time as int, j) == Some(i - 1),
    decreases i - j,
{
    let t = keys[i].time as int;
    if j == i - 1 {
        lemma_times_strict(keys, i - 1, i);
    } else {
        lemma_times_strict(keys, j + 1, i);
        lemma_bracket_lands(keys, i, j + 1);
    }
}

/// Sampling a track exactly at one of its keyframes' times yields that
/// keyframe's value exactly, whatever the interpolation modes: the factor
/// boundary cases are exact. Requires at least two keyframes, strictly
/// increasing times, and adjacent keyframes of the same value kind.
pub proof fn lemma_sample_at_keyframe_time(track: AnimationTrack, i: int)
    requires
        track_wf(track),
        2 <= track.keyframes@.len(),
        0 <= i < track.keyframes@.len(),
        forall|j: int|
            0 <= j < track.keyframes@.len() - 1 ==> (#[trigger] track.keyframes@[j].time)
                < track.keyframes@[j + 1].time,
        forall|j: int|
            0 <= j < track.keyframes@.len() - 1 ==> same_kind(
                (#[trigger] track.keyframes@[j]).value,
                track.keyframes@[j + 1].value,
            ),
    ensures
        sample_track_spec(track, track.keyframes@[i].time as int) == Some(
            track.keyframes@[i].value,
        ),
{
    let keys = track.keyframes@;
    let t = keys[i].time as int;
    if i == 0 {
        lemma_times_strict(keys, 0, 1);
        assert(bracket_of(keys, t) == Some(0int));
        let t0 = keys[0].time as int;
        let t1 = keys[1].time as int;
        assert((t - t0) * (SCALE as int) == 0) by (nonlinear_arith)
            requires
                t == t0,
        ;
        vstd::arithmetic::div_mod::lemma_div_of0(t1 - t0);
        assert(factor_spec(t, t0, t1) == 0);
        lemma_interp_at_start(keys[0], keys[1]);
    } else {
        lemma_bracket_lands(keys, i, 0);
        assert(bracket_of(keys, t) == Some(i - 1));
        lemma_times_strict(keys, i - 1, i);
        lemma_factor_at_end(t, keys[i - 1].time as int, keys[i].time as int);
        assert(factor_spec(t, keys[i - 1].time as int, keys[i].time as int) == SCALE as int);
        lemma_interp_at_end(keys[i - 1], keys[i]);
    }
}

/// Sampling a linear translation span at the exact midpoint of its time
/// interval yields the component-wise arithmetic midpoint of the two
/// translations, exactly, whenever each component difference is even.
pub proof fn lemma_linear_translation_midpoint(prev: Keyframe, next: Keyframe, a: Vec3, b: Vec3, t: int)
    requires
        prev.interpolation is Linear,
        prev.value == KeyframeValue::Translation(a),
        next.value == KeyframeValue::Translation(b),
        prev.time < next.time,
        2 * t == prev.time + next.time,
        (b.x - a.x) % 2 == 0,
        (b.y - a.y) % 2 == 0,
        (b.z - a.z) % 2 == 0,
    ensures
        interp_value_spec(prev, next, factor_spec(t, prev.time as int, next.time as int)) == Some(
            KeyframeValue::Translation(
                Vec3 {
                    x: ((a.x + b.x) / 2) as i64,
                    y: ((a.y + b.y) / 2) as i64,
                    z: ((a.z + b.z) / 2) as i64,
                },
            ),
        ),
{
    let t0 = prev.time as int;
    let t1 = next.time as int;
    let d = t1 - t0;
    assert((t - t0) * (SCALE as int) == 500 * d) by (nonlinear_arith)
        requires
            2 * t == t0 + t1,
            d == t1 - t0,
    ;
    assert(500 * d == d * 500) by (nonlinear_arith);
    lemma_div_multiples_vanish(500, d);
    assert(factor_spec(t, t0, t1) == 500);
    lemma_lerp_half(a.x as int, b.x as int);
    lemma_lerp_half(a.y as int, b.y as int);
    lemma_lerp_half(a.z as int, b.z as int);
}

/// Sampling a linear translation track at the midpoint of a bracketing
/// pair's time interval yields the component-wise arithmetic midpoint of
/// the pair's translations, exactly, whenever each component difference is
/// even.
pub proof fn lemma_sample_linear_midpoint(track: AnimationTrack, i: int, a: Vec3, b: Vec3, t: int)
    requires
        bracket_of(track.keyframes@, t) == Some(i),
        0 <= i,
        i + 1 < track.keyframes@.len(),
        track.keyframes@[i].interpolation is Linear,
        track.keyframes@[i].value == KeyframeValue::Translation(a),
        track.keyframes@[i + 1].value == KeyframeValue::Translation(b),
        track.keyframes@[i].time < track.keyframes@[i + 1].time,
        2 * t == track.keyframes@[i].time + track.keyframes@[i + 1].time,
        (b.x - a.x) % 2 == 0,
        (b.y - a.y) % 2 == 0,
        (b.z - a.z) % 2 == 0,
    ensures
        sample_track_spec(track, t) == Some(
            KeyframeValue::Translation(
                Vec3 {
                    x: ((a.x + b.x) / 2) as i64,
                    y: ((a.y + b.y) / 2) as i64,
                    z: ((a.z + b.z) / 2) as i64,
                },
            ),
        ),
{
    lemma_linear_translation_midpoint(track.keyframes@[i], track.keyframes@[i + 1], a, b, t);
}

/// Interpolating half way between scalars whose difference is even gives
/// the exact arithmetic mean.
pub proof fn lemma_lerp_half(a: int, b: int)
    requires
        (b - a) % 2 == 0,
    ensures
        lerp_spec(a, b, 500) == (a + b) / 2,
{
    let d = b - a;
    let h = d / 2;
    vstd::arithmetic::div_mod::lemma_fundamental_div_mod(d, 2);
    assert(d == 2 * h);
    assert(d * 500 == h * 1000) by (nonlinear_arith)
        requires
            d == 2 * h,
    ;
    assert(h * 1000 == 1000 * h) by (nonlinear_arith);
    lemma_div_multiples_vanish(h, 1000);
    if d < 0 {
        assert((-(d * 500)) == (-h) * 1000) by (nonlinear_arith)
            requires
                d == 2 * h,
        ;
        assert((-h) * 1000 == 1000 * (-h)) by (nonlinear_arith);
        lemma_div_multiples_vanish(-h, 1000);
    }
    assert(tdiv(d * 500, 1000) == h);
    assert(a + h == (a + b) / 2) by {
        assert(a + b == 2 * (a + h));
        vstd::arithmetic::div_mod::lemma_div_multiples_vanish(a + h, 2);
    }
}

/// With non-decreasing times, earlier keyframes never carry later times.
proof fn lemma_times_sorted(keys: Seq<Keyframe>, a: int, b: int)
    requires
        forall|j: int| 0 <= j < keys.len() - 1 ==> (#[trigger] keys[j].time) <= keys[j + 1].time,
        0 <= a <= b < keys.len(),
    ensures
        keys[a].time <= keys[b].time,
    decreases b - a,
{
    if a < b {
        lemma_times_sorted(keys, a + 1, b);
    }
}

/// The bracket search lands on window `i` for any time strictly inside it.
proof fn lemma_bracket_lands_inside(keys: Seq<Keyframe>, i: int, j: int, t: int)
    requires
        forall|x: int| 0 <= x < keys.len() - 1 ==> (#[trigger] keys[x].time) <= keys[x + 1].time,
        0 <= i,
        i + 1 < keys.len(),
        keys[i].time < t,
        t <= keys[i + 1].time,
        0 <= j <= i,
    ensures
        bracket_from(keys, t, j) == Some(i),
    decreases i - j,
{
    if j == i {
    } else {
        lemma_times_sorted(keys, j + 1, i);
        lemma_bracket_lands_inside(keys, i, j + 1, t);
    }
}

/// Step interpolation: sampling at any time in `[prev.time, next.time)`
/// returns exactly the earlier keyframe's value. Requires strictly
/// increasing keyframe times and adjacent keyframes of the same value kind.
pub proof fn lemma_step_holds_prev(track: AnimationTrack, i: int, t: int)
    requires
        track_wf(track),
        0 <= i,
        i + 1 < track.keyframes@.len(),
        forall|j: int|
            0 <= j < track.keyframes@.len() - 1 ==> (#[trigger] track.keyframes@[j].time)
                < track.keyframes@[j + 1].time,
        forall|j: int|
            0 <= j < track.keyframes@.len() - 1 ==> same_kind(
                (#[trigger] track.keyframes@[j]).value,
                track.keyframes@[j + 1].value,
            ),
        track.keyframes@[i].interpolation is Step,
        track.keyframes@[i].time <= t,
        t < track.keyframes@[i + 1].time,
    ensures
        sample_track_spec(track, t) == Some(track.keyframes@[i].value),
{
    let keys = track.keyframes@;
    if t == keys[i].time {
        lemma_sample_at_keyframe_time(track, i);
    } else {
        assert forall|x: int| 0 <= x < keys.len() - 1 implies (#[trigger] keys[x].time) <= keys[x
            + 1].time by {
            assert(keys[x].time < keys[x + 1].time);
        }
        lemma_bracket_lands_inside(keys, i, 0, t);
        let t0 = keys[i].time as int;
        let t1 = keys[i + 1].time as int;
        lemma_factor_at_end(t, t0, t1);
        assert(factor_spec(t, t0, t1) != SCALE as int);
    }
}

/// Samples a track at a time.
pub fn sample(track: &AnimationTrack, time: i64) -> (r: Option<KeyframeValue>)
    requires
        track_wf(*track),
    ensures
        r == sample_track_spec(*track, time as int),
        (r matches Some(v) ==> value_in_range(v)),
{
    match find_bracket(&track.keyframes, time) {
        None => None,
        Some(i) => {
            let n: usize = track.keyframes.len();
            proof {
                assert(is_bracket(track.keyframes@, time as int, i as int));
                assert(i + 1 < n);
            }
            let prev = &track.keyframes[i];
            let next = &track.keyframes[i + 1];
            let f: i64 = interp_factor(time, prev.time, next.time);
            interpolate_keyframes(prev, next, f)
        },
    }
}

} // verus!
