use yuga::clip::{AnimationTrack, InterpolationType, Keyframe, KeyframeValue, PropertyType};
use yuga::math::{bezier_fixed, lerp_fixed, quat_mul, quat_scale, Quat, Vec3, SCALE};
use yuga::sampler::sample;

fn v3(x: i64, y: i64, z: i64) -> Vec3 {
    Vec3 { x, y, z }
}

fn translation_key(time: i64, v: Vec3, interpolation: InterpolationType) -> Keyframe {
    Keyframe { time, value: KeyframeValue::Translation(v), interpolation }
}

fn linear_translation_track(keys: Vec<(i64, Vec3)>) -> AnimationTrack {
    AnimationTrack {
        target_path: "root".to_string(),
        keyframes: keys
            .into_iter()
            .map(|(t, v)| translation_key(t, v, InterpolationType::Linear))
            .collect(),
        property_type: PropertyType::Translation,
    }
}

#[test]
fn sample_at_keyframe_times_is_exact() {
    let a = v3(0, 0, 0);
    let b = v3(1000, 2000, 3000);
    let track = linear_translation_track(vec![(0, a), (1000, b)]);
    assert_eq!(sample(&track, 0), Some(KeyframeValue::Translation(a)));
    assert_eq!(sample(&track, 1000), Some(KeyframeValue::Translation(b)));
}

#[test]
fn linear_midpoint_is_arithmetic_mean() {
    let a = v3(0, 200, -400);
    let b = v3(1000, 400, 400);
    let track = linear_translation_track(vec![(0, a), (1000, b)]);
    assert_eq!(
        sample(&track, 500),
        Some(KeyframeValue::Translation(v3(500, 300, 0)))
    );
}

#[test]
fn step_holds_prev_until_next_time() {
    let a = v3(1, 2, 3);
    let b = v3(7, 8, 9);
    let track = AnimationTrack {
        target_path: "root".to_string(),
        keyframes: vec![
            translation_key(0, a, InterpolationType::Step),
            translation_key(1000, b, InterpolationType::Step),
        ],
        property_type: PropertyType::Translation,
    };
    assert_eq!(sample(&track, 0), Some(KeyframeValue::Translation(a)));
    assert_eq!(sample(&track, 500), Some(KeyframeValue::Translation(a)));
    assert_eq!(sample(&track, 999), Some(KeyframeValue::Translation(a)));
    assert_eq!(sample(&track, 1000), Some(KeyframeValue::Translation(b)));
}

#[test]
fn cubic_spline_degrades_to_linear() {
    let a = v3(0, 0, 0);
    let b = v3(1000, 1000, 1000);
    let track = AnimationTrack {
        target_path: "root".to_string(),
        keyframes: vec![
            translation_key(0, a, InterpolationType::CubicSpline),
            translation_key(1000, b, InterpolationType::CubicSpline),
        ],
        property_type: PropertyType::Translation,
    };
    assert_eq!(
        sample(&track, 250),
        Some(KeyframeValue::Translation(v3(250, 250, 250)))
    );
}

#[test]
fn bezier_matches_endpoints_and_curve() {
    let a = v3(0, 0, 0);
    let b = v3(1000, 1000, 1000);
    let bez = InterpolationType::Bezier {
        control_point1: v3(1000, 1000, 1000),
        control_point2: v3(1000, 1000, 1000),
    };
    let track = AnimationTrack {
        target_path: "root".to_string(),
        keyframes: vec![
            translation_key(0, a, bez.clone()),
            translation_key(1000, b, InterpolationType::Linear),
        ],
        property_type: PropertyType::Translation,
    };
    assert_eq!(sample(&track, 0), Some(KeyframeValue::Translation(a)));
    assert_eq!(sample(&track, 1000), Some(KeyframeValue::Translation(b)));
    // At the midpoint the cubic through (0, 1000, 1000, 1000) evaluates to
    // (125*0 + 375*1000 + 375*1000 + 125*1000) / 1000 = 875.
    assert_eq!(
        sample(&track, 500),
        Some(KeyframeValue::Translation(v3(875, 875, 875)))
    );
}

#[test]
fn sampling_before_first_keyframe_yields_nothing() {
    let track = linear_translation_track(vec![(500, v3(1, 1, 1)), (1000, v3(2, 2, 2))]);
    assert_eq!(sample(&track, 100), None);
    assert_eq!(sample(&track, 1500), None);
}

#[test]
fn single_keyframe_track_yields_nothing() {
    let track = linear_translation_track(vec![(0, v3(1, 1, 1))]);
    assert_eq!(sample(&track, 0), None);
}

#[test]
fn mismatched_value_kinds_skip_the_pair() {
    let track = AnimationTrack {
        target_path: "root".to_string(),
        keyframes: vec![
            translation_key(0, v3(0, 0, 0), InterpolationType::Linear),
            Keyframe {
                time: 1000,
                value: KeyframeValue::Float(500),
                interpolation: InterpolationType::Linear,
            },
        ],
        property_type: PropertyType::Translation,
    };
    assert_eq!(sample(&track, 500), None);
}

#[test]
fn degenerate_span_uses_prev_value() {
    let a = v3(1, 2, 3);
    let b = v3(9, 9, 9);
    let track = linear_translation_track(vec![(500, a), (500, b)]);
    assert_eq!(sample(&track, 500), Some(KeyframeValue::Translation(a)));
}

#[test]
fn float_track_interpolates_linearly() {
    let track = AnimationTrack {
        target_path: "root".to_string(),
        keyframes: vec![
            Keyframe {
                time: 0,
                value: KeyframeValue::Float(0),
                interpolation: InterpolationType::Linear,
            },
            Keyframe {
                time: 2000,
                value: KeyframeValue::Float(1000),
                interpolation: InterpolationType::Linear,
            },
        ],
        property_type: PropertyType::Custom("energy".to_string()),
    };
    assert_eq!(sample(&track, 500), Some(KeyframeValue::Float(250)));
}

#[test]
fn rotation_track_is_exact_at_keyframes() {
    let qa = Quat { x: 0, y: 0, z: 0, w: 1000 };
    let qb = Quat { x: 1000, y: 0, z: 0, w: 0 };
    let track = AnimationTrack {
        target_path: "root".to_string(),
        keyframes: vec![
            Keyframe {
                time: 0,
                value: KeyframeValue::Rotation(qa),
                interpolation: InterpolationType::Linear,
            },
            Keyframe {
                time: 1000,
                value: KeyframeValue::Rotation(qb),
                interpolation: InterpolationType::Linear,
            },
        ],
        property_type: PropertyType::Rotation,
    };
    assert_eq!(sample(&track, 0), Some(KeyframeValue::Rotation(qa)));
    assert_eq!(sample(&track, 1000), Some(KeyframeValue::Rotation(qb)));
    assert_eq!(
        sample(&track, 500),
        Some(KeyframeValue::Rotation(Quat { x: 500, y: 0, z: 0, w: 500 }))
    );
}

#[test]
fn lerp_fixed_covers_negatives() {
    assert_eq!(lerp_fixed(-1000, 1000, 500), 0);
    assert_eq!(lerp_fixed(0, -1000, 250), -250);
    assert_eq!(lerp_fixed(7, 7, 333), 7);
}

#[test]
fn bezier_fixed_formula() {
    assert_eq!(bezier_fixed(0, 1000, 1000, 1000, 500), 875);
    assert_eq!(bezier_fixed(-500, 0, 0, 500, 0), -500);
    assert_eq!(bezier_fixed(-500, 0, 0, 500, 1000), 500);
}

#[test]
fn quaternion_product_with_identity() {
    let q = Quat { x: 300, y: -400, z: 500, w: 600 };
    let identity = Quat { x: 0, y: 0, z: 0, w: SCALE };
    assert_eq!(quat_mul(q, identity), q);
    assert_eq!(quat_mul(identity, q), q);
}

#[test]
fn quaternion_scaling_is_componentwise() {
    let q = Quat { x: 1000, y: -500, z: 0, w: 250 };
    assert_eq!(quat_scale(q, 500), Quat { x: 500, y: -250, z: 0, w: 125 });
}
