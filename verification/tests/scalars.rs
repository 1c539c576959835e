use gravity_wars::event::MissileParams;
use gravity_wars::scalar::{Point2, Quaternion, Scalar, Vector3};

fn scalar(value: f32) -> Scalar {
    Scalar::from_bits(value.to_bits())
}

#[test]
fn scalar_keeps_its_bits() {
    assert_eq!(Scalar::from_bits(0x4049_0fdb).to_bits(), 0x4049_0fdb);
    assert_eq!(f32::from_bits(Scalar::one().to_bits()), 1.0);
    assert_eq!(f32::from_bits(Scalar::zero_value().to_bits()), 0.0);
}

#[test]
fn finite_numbers_are_finite() {
    for value in [0.0f32, -0.0, 1.0, -1.0, 10.0, f32::MAX, f32::MIN, f32::MIN_POSITIVE, 1e-45] {
        assert!(scalar(value).is_finite(), "{}", value);
        assert!(!scalar(value).is_nan(), "{}", value);
    }
}

#[test]
fn infinities_and_nan_are_not_finite() {
    assert!(!scalar(f32::INFINITY).is_finite());
    assert!(!scalar(f32::NEG_INFINITY).is_finite());
    assert!(!scalar(f32::NAN).is_finite());
    assert!(!Scalar::from_bits(0xffc0_0001).is_finite());
    assert!(scalar(f32::NAN).is_nan());
    assert!(Scalar::from_bits(0xffc0_0001).is_nan());
    assert!(!scalar(f32::INFINITY).is_nan());
    assert!(!scalar(f32::NEG_INFINITY).is_nan());
}

#[test]
fn is_finite_agrees_with_the_machine() {
    let mut bits: u32 = 0;
    loop {
        let value = f32::from_bits(bits);
        assert_eq!(Scalar::from_bits(bits).is_finite(), value.is_finite(), "{:#x}", bits);
        assert_eq!(Scalar::from_bits(bits).is_nan(), value.is_nan(), "{:#x}", bits);
        match bits.checked_add(0x0001_0001) {
            Some(next) => bits = next,
            None => break,
        }
    }
}

#[test]
fn range_check_agrees_with_the_machine() {
    let limit = 10.0f32;
    let mut bits: u32 = 0;
    loop {
        let value = f32::from_bits(bits);
        let expected = 0.0 <= value && value <= limit;
        assert_eq!(
            Scalar::from_bits(bits).is_between_zero_and(scalar(limit)),
            expected,
            "{:#x}",
            bits
        );
        match bits.checked_add(0x0000_fff1) {
            Some(next) => bits = next,
            None => break,
        }
    }
}

#[test]
fn range_check_at_its_edges() {
    let ten = scalar(10.0);
    assert!(scalar(0.0).is_between_zero_and(ten));
    assert!(scalar(-0.0).is_between_zero_and(ten));
    assert!(scalar(10.0).is_between_zero_and(ten));
    assert!(scalar(1e-45).is_between_zero_and(ten));
    assert!(!Scalar::from_bits(10.0f32.to_bits() + 1).is_between_zero_and(ten));
    assert!(!scalar(-1e-45).is_between_zero_and(ten));
    assert!(!scalar(-1.0).is_between_zero_and(ten));
    assert!(!scalar(f32::INFINITY).is_between_zero_and(ten));
    assert!(!scalar(f32::NAN).is_between_zero_and(ten));
    assert!(!scalar(-f32::NAN).is_between_zero_and(ten));
}

#[test]
fn missile_params_validity() {
    assert!(MissileParams::new(scalar(1.5), scalar(5.0)).has_valid_angle());
    assert!(MissileParams::new(scalar(-700.0), scalar(5.0)).has_valid_angle());
    assert!(!MissileParams::new(scalar(f32::NAN), scalar(5.0)).has_valid_angle());
    assert!(!MissileParams::new(scalar(f32::INFINITY), scalar(5.0)).has_valid_angle());
    assert!(!MissileParams::new(scalar(f32::NEG_INFINITY), scalar(5.0)).has_valid_angle());
    assert!(MissileParams::new(scalar(0.0), scalar(0.0)).has_valid_speed());
    assert!(MissileParams::new(scalar(0.0), scalar(10.0)).has_valid_speed());
    assert!(!MissileParams::new(scalar(0.0), scalar(10.000001)).has_valid_speed());
    assert!(!MissileParams::new(scalar(0.0), scalar(-1.0)).has_valid_speed());
    assert!(!MissileParams::new(scalar(0.0), scalar(f32::NAN)).has_valid_speed());
}

#[test]
fn vectors_hold_their_parts() {
    let v = Vector3::new(scalar(1.0), scalar(2.0), scalar(3.0));
    assert_eq!(f32::from_bits(v.x.bits), 1.0);
    assert_eq!(f32::from_bits(v.y.bits), 2.0);
    assert_eq!(f32::from_bits(v.z.bits), 3.0);
    assert_eq!(Vector3::zeros(), Vector3::new(scalar(0.0), scalar(0.0), scalar(0.0)));
    let p = Point2::new(scalar(4.0), scalar(5.0));
    assert_eq!((f32::from_bits(p.x.bits), f32::from_bits(p.y.bits)), (4.0, 5.0));
}

#[test]
fn identity_rotation() {
    let q = Quaternion::identity();
    assert_eq!(f32::from_bits(q.w.bits), 1.0);
    assert_eq!(f32::from_bits(q.i.bits), 0.0);
    assert_eq!(f32::from_bits(q.j.bits), 0.0);
    assert_eq!(f32::from_bits(q.k.bits), 0.0);
}
