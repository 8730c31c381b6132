use core_lib::formula;
use core_lib::scalar::Real;
use core_lib::variable::{Variable, VariableKind};
use core_lib::ObjectId;

fn bits(v: f64) -> Real {
    Real::from_bits(v.to_bits())
}

#[test]
fn ids_with_same_value_are_equal() {
    assert_eq!(ObjectId::new(3), ObjectId::new(3));
}

#[test]
fn ids_order_by_value() {
    assert!(ObjectId::new(1) < ObjectId::new(2));
}

#[test]
fn formula_placeholder_text() {
    assert_eq!(formula::placeholder(), "formula engine not yet implemented");
}

#[test]
fn kind_matches_variant() {
    assert_eq!(Variable::Measurement { value: bits(1.0) }.kind(), VariableKind::Measurement);
    assert_eq!(
        Variable::Custom { formula: "1+1".to_string(), cached_value: bits(2.0) }.kind(),
        VariableKind::Custom
    );
    assert_eq!(Variable::LineLength { value: bits(1.0) }.kind(), VariableKind::LineLength);
    assert_eq!(Variable::LineAngle { value: bits(1.0) }.kind(), VariableKind::LineAngle);
    assert_eq!(Variable::CurveLength { value: bits(1.0) }.kind(), VariableKind::CurveLength);
    assert_eq!(Variable::ArcRadius { value: bits(1.0) }.kind(), VariableKind::ArcRadius);
}

#[test]
fn object_id_raw_round_trips() {
    assert_eq!(ObjectId::from_raw(17).raw(), 17);
    assert_eq!(ObjectId::new(4).raw(), 4);
}

#[test]
fn real_keeps_the_bit_pattern() {
    let v = Real::from_bits(2.5f64.to_bits());
    assert_eq!(f64::from_bits(v.to_bits()), 2.5);
}

#[test]
fn real_equality_follows_ieee() {
    assert_eq!(bits(0.0), bits(-0.0));
    assert_ne!(bits(f64::NAN), bits(f64::NAN));
    assert_eq!(bits(1.5), bits(1.5));
    assert_ne!(bits(1.5), bits(-1.5));
    assert_ne!(bits(f64::INFINITY), bits(f64::NEG_INFINITY));
    assert_eq!(bits(f64::INFINITY), bits(f64::INFINITY));
}
