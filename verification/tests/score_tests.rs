use rag_responder::score::{score_exceeds, DEFAULT_THRESHOLD_BITS, INFINITY_BITS, SIGN_BIT};

#[test]
fn default_threshold_is_three_quarters() {
    assert_eq!(DEFAULT_THRESHOLD_BITS, 0.75f32.to_bits());
    assert_eq!(INFINITY_BITS, f32::INFINITY.to_bits());
    assert_eq!(SIGN_BIT, (-0.0f32).to_bits());
}

#[test]
fn threshold_itself_is_excluded() {
    assert!(!score_exceeds(0.75f32.to_bits(), DEFAULT_THRESHOLD_BITS));
}

#[test]
fn just_above_threshold_is_included() {
    assert!(score_exceeds(0.7500001f32.to_bits(), DEFAULT_THRESHOLD_BITS));
    assert!(score_exceeds(0.9f32.to_bits(), DEFAULT_THRESHOLD_BITS));
}

#[test]
fn below_threshold_is_excluded() {
    assert!(!score_exceeds(0.5f32.to_bits(), DEFAULT_THRESHOLD_BITS));
    assert!(!score_exceeds(0.74999994f32.to_bits(), DEFAULT_THRESHOLD_BITS));
    assert!(!score_exceeds((-0.9f32).to_bits(), DEFAULT_THRESHOLD_BITS));
}

#[test]
fn agrees_with_the_numbers_on_a_grid() {
    let values: Vec<f32> = vec![
        f32::NEG_INFINITY,
        f32::MIN,
        -2.5,
        -1.0,
        -0.75,
        -f32::MIN_POSITIVE,
        -1.0e-45,
        -0.0,
        0.0,
        1.0e-45,
        f32::MIN_POSITIVE,
        0.5,
        0.74999994,
        0.75,
        0.7500001,
        1.0,
        3.0,
        f32::MAX,
        f32::INFINITY,
        f32::NAN,
        -f32::NAN,
    ];
    for a in values.iter() {
        for b in values.iter() {
            assert_eq!(score_exceeds(a.to_bits(), b.to_bits()), a > b, "{} > {}", a, b);
        }
    }
}
