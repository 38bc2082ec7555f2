use ring_codegen::numeric::{cast_integer, round_mantissa_i64, round_to_double};

/// The model of the double-precision path agrees with the machine's own
/// f64 rounding on a spread of values.
#[test]
fn double_rounding_matches_hardware() {
    let samples: [i64; 16] = [
        0,
        1,
        -1,
        12345,
        -987654321,
        (1i64 << 53) - 1,
        1i64 << 53,
        (1i64 << 53) + 1,
        (1i64 << 53) + 3,
        -((1i64 << 53) + 1),
        (1i64 << 60) + 123456,
        -((1i64 << 60) + 98765),
        i64::MAX,
        i64::MAX - 1,
        i64::MIN,
        i64::MIN + 1,
    ];
    for v in samples {
        let hw = (v as f64) as i64;
        assert_eq!(round_to_double(v), hw, "double rounding of {} diverges", v);
    }
}

/// Exact below 2^53: every magnitude in the exact range survives the
/// double-precision slot unchanged.
#[test]
fn exact_below_the_boundary() {
    assert_eq!(round_to_double((1i64 << 53) - 1), (1i64 << 53) - 1);
    assert_eq!(round_to_double(1i64 << 53), 1i64 << 53);
    assert_eq!(round_to_double(-(1i64 << 53)), -(1i64 << 53));
    assert_eq!(round_to_double(4503599627370495), 4503599627370495);
}

/// Lossy above 2^53: the halfway value rounds to the even neighbour.
#[test]
fn lossy_above_the_boundary() {
    assert_eq!(round_to_double((1i64 << 53) + 1), 1i64 << 53);
    assert_eq!(round_to_double((1i64 << 53) + 3), (1i64 << 53) + 4);
    // A power of two is exactly representable however large.
    assert_eq!(round_to_double(1i64 << 60), 1i64 << 60);
}

/// Single-precision narrowing agrees with the machine's f32 rounding.
#[test]
fn single_precision_rounding_matches_hardware() {
    let samples: [i64; 8] = [
        0,
        1,
        (1i64 << 24) - 1,
        (1i64 << 24) + 1,
        16777217,
        -16777217,
        123456789,
        -123456789,
    ];
    for v in samples {
        let hw = (v as f32) as i64;
        assert_eq!(round_mantissa_i64(v, 24), hw, "single rounding of {} diverges", v);
    }
}

/// The narrowing casts saturate exactly as a double-to-integer cast does.
#[test]
fn integer_casts_saturate() {
    assert_eq!(cast_integer(300, 8, false), 255);
    assert_eq!(cast_integer(-5, 8, false), 0);
    assert_eq!(cast_integer(-200, 8, true), -128);
    assert_eq!(cast_integer(200, 8, true), 127);
    assert_eq!(cast_integer(70000, 16, false), 65535);
    assert_eq!(cast_integer(-70000, 16, true), -32768);
    assert_eq!(cast_integer(5_000_000_000, 32, true), 2147483647);
    assert_eq!(cast_integer(-1, 32, false), 0);
    assert_eq!(cast_integer(i64::MIN, 64, true), i64::MIN);
    assert_eq!(cast_integer(i64::MAX, 128, true), i64::MAX);
    assert_eq!(cast_integer(-42, 64, false), 0);
}

/// The saturating model agrees with the machine's f64-to-integer casts on
/// in-range and out-of-range values.
#[test]
fn integer_casts_match_hardware() {
    let samples: [i64; 7] = [0, 1, -1, 300, -300, 70000, -70000];
    for v in samples {
        assert_eq!(cast_integer(v, 8, true), ((v as f64) as i8) as i64, "i8 cast of {}", v);
        assert_eq!(cast_integer(v, 8, false), ((v as f64) as u8) as i64, "u8 cast of {}", v);
        assert_eq!(cast_integer(v, 16, true), ((v as f64) as i16) as i64, "i16 cast of {}", v);
        assert_eq!(cast_integer(v, 32, false), ((v as f64) as u32) as i64, "u32 cast of {}", v);
    }
}
