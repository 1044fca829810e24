use vinox::marker::Marker;
use vinox::position::{FixedPoint, Position};
use vinox::scene::{SharedState, TestState};

#[test]
fn fixed_point_round_trip() {
    for bits in [0i64, 1, -1, 16, -16, 12345, -98765, i64::MAX, i64::MIN] {
        let v = FixedPoint { bits };
        assert_eq!(FixedPoint::decode(v.encode()), v);
        assert_eq!(FixedPoint::decode(bits).encode(), bits);
    }
}

#[test]
fn from_parts_scales_exactly() {
    let v = FixedPoint::from_parts(3, 8).unwrap();
    // 3 + 8/16 is stored as 3 * 16 + 8.
    assert_eq!(v.bits, 56);
    let neg = FixedPoint::from_parts(-2, 0).unwrap();
    assert_eq!(neg.bits, -32);
    assert!(FixedPoint::from_parts(i64::MAX, 15).is_none());
}

#[test]
fn ordering_follows_underlying_integer() {
    let a = FixedPoint { bits: -17 };
    let b = FixedPoint { bits: -16 };
    let c = FixedPoint { bits: 40 };
    assert!(a.lt(b));
    assert!(b.lt(c));
    assert!(a.le(a));
    assert!(!c.le(b));
    // The comparison operators follow the same total order.
    assert!(a < b && b < c);
    assert!(c > a);
    assert!(a <= a && a >= a);
    assert_eq!(a, FixedPoint { bits: -17 });
    assert_ne!(a, b);
}

#[test]
fn position_round_trip() {
    let p = Position::new(
        FixedPoint { bits: 160 },
        FixedPoint { bits: -48 },
        FixedPoint { bits: 7 },
    );
    let (x, y, z) = p.encode();
    assert_eq!((x, y, z), (160, -48, 7));
    assert_eq!(Position::decode(x, y, z), p);
}

#[test]
fn marker_is_plain() {
    let m = Marker::new();
    assert_eq!(m, Marker::default());
}

#[test]
fn scene_anchors_construct() {
    let s = SharedState::new();
    assert_eq!(s, SharedState::new());
    let t = TestState::new();
    assert_eq!(t, TestState::new());
}
