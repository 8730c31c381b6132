use core_lib::container::PatternData;
use core_lib::error::ContainerError;
use core_lib::geo::{GeoObject, LineData, PointData};
use core_lib::scalar::Real;
use core_lib::variable::{Variable, VariableKind};
use core_lib::ObjectId;

fn bits(v: f64) -> Real {
    Real::from_bits(v.to_bits())
}

fn point(x: f64, y: f64) -> GeoObject {
    GeoObject::Point(PointData { x: bits(x), y: bits(y) })
}

#[test]
fn add_and_get_point_and_line() {
    let mut data = PatternData::default();
    let p1 = data.add_object(point(1.0, 2.0));
    let p2 = data.add_object(point(3.0, 4.0));
    let line = data.add_object(GeoObject::Line(LineData { p1, p2 }));

    let p = data.get_point(p1).unwrap();
    assert_eq!(f64::from_bits(p.x.to_bits()), 1.0);
    assert_eq!(f64::from_bits(p.y.to_bits()), 2.0);

    let line_data = data.get_line(line).unwrap();
    assert_eq!(line_data.p1, p1);
    assert_eq!(line_data.p2, p2);
}

#[test]
fn get_line_on_point_id_returns_wrong_object_type() {
    let mut data = PatternData::default();
    let p1 = data.add_object(point(0.0, 0.0));

    let err = data.get_line(p1).unwrap_err();
    assert!(matches!(
        err,
        ContainerError::WrongObjectType { id, .. } if id == p1
    ));
}

#[test]
fn get_point_on_line_id_returns_wrong_object_type() {
    let mut data = PatternData::default();
    let p1 = data.add_object(point(0.0, 0.0));
    let p2 = data.add_object(point(1.0, 1.0));
    let line = data.add_object(GeoObject::Line(LineData { p1, p2 }));

    let err = data.get_point(line).unwrap_err();
    assert!(matches!(
        err,
        ContainerError::WrongObjectType { id, .. } if id == line
    ));
}

#[test]
fn get_point_on_nonexistent_id_returns_object_not_found() {
    let mut data = PatternData::default();
    let real_id = data.add_object(point(0.0, 0.0));
    data.remove_object(real_id);

    let err = data.get_point(real_id).unwrap_err();
    assert_eq!(err, ContainerError::ObjectNotFound(real_id));
}

#[test]
fn get_line_on_nonexistent_id_returns_object_not_found() {
    let mut data = PatternData::default();
    let real_id = data.add_object(point(0.0, 0.0));
    data.remove_object(real_id);

    let err = data.get_line(real_id).unwrap_err();
    assert_eq!(err, ContainerError::ObjectNotFound(real_id));
}

#[test]
fn next_id_increases_strictly_across_add_object_calls() {
    let mut data = PatternData::default();
    let ids: Vec<ObjectId> = (0..5).map(|i| data.add_object(point(i as f64, 0.0))).collect();

    for pair in ids.windows(2) {
        assert!(pair[0] < pair[1]);
    }

    let mut unique = ids.clone();
    unique.sort();
    unique.dedup();
    assert_eq!(unique.len(), ids.len());
}

#[test]
fn clear_objects_resets_id_counter_to_initial_value() {
    let mut fresh = PatternData::default();
    let fresh_first_id = fresh.add_object(point(0.0, 0.0));

    let mut data = PatternData::default();
    data.add_object(point(0.0, 0.0));
    data.add_object(point(0.0, 0.0));
    data.clear_objects();

    let id_after_clear = data.add_object(point(0.0, 0.0));
    assert_eq!(id_after_clear, fresh_first_id);
}

#[test]
fn add_variable_twice_keeps_most_recent_value() {
    let mut data = PatternData::default();
    data.add_variable("waist", Variable::Measurement { value: bits(70.0) });
    data.add_variable("waist", Variable::Measurement { value: bits(72.5) });

    let var = data.get_variable("waist").unwrap();
    assert_eq!(var, &Variable::Measurement { value: bits(72.5) });
}

#[test]
fn clear_variables_removes_only_matching_kind() {
    let mut data = PatternData::default();
    data.add_variable("waist", Variable::Measurement { value: bits(70.0) });
    data.add_variable("hip", Variable::Measurement { value: bits(90.0) });
    data.add_variable(
        "half_waist",
        Variable::Custom { formula: "waist / 2".to_string(), cached_value: bits(35.0) },
    );
    data.add_variable("seam_len", Variable::LineLength { value: bits(12.0) });

    data.clear_variables(VariableKind::Measurement);

    assert_eq!(
        data.get_variable("waist").unwrap_err(),
        ContainerError::VariableNotFound("waist".to_string())
    );
    assert_eq!(
        data.get_variable("hip").unwrap_err(),
        ContainerError::VariableNotFound("hip".to_string())
    );
    assert_eq!(
        data.get_variable("half_waist").unwrap(),
        &Variable::Custom { formula: "waist / 2".to_string(), cached_value: bits(35.0) }
    );
    assert_eq!(data.get_variable("seam_len").unwrap(), &Variable::LineLength { value: bits(12.0) });
}

#[test]
fn cloning_pattern_data_is_deep_and_independent() {
    let original = PatternData::default();
    let mut clone = original.clone();

    let new_id = clone.add_object(point(5.0, 5.0));

    assert_eq!(original.get_point(new_id).unwrap_err(), ContainerError::ObjectNotFound(new_id));
    assert!(clone.get_point(new_id).is_ok());
}

#[test]
fn get_variable_on_missing_name_returns_variable_not_found() {
    let data = PatternData::default();
    let err = data.get_variable("does_not_exist").unwrap_err();
    assert_eq!(err, ContainerError::VariableNotFound("does_not_exist".to_string()));
}

#[test]
fn insert_with_id_keeps_objects_in_id_order_and_overwrites() {
    let mut data = PatternData::default();
    assert!(data.insert_with_id(ObjectId::new(5), point(5.0, 0.0)).is_none());
    assert!(data.insert_with_id(ObjectId::new(2), point(2.0, 0.0)).is_none());
    let ids: Vec<u32> = data.objects().iter().map(|(id, _)| id.raw()).collect();
    assert_eq!(ids, vec![2, 5]);

    let previous = data.insert_with_id(ObjectId::new(5), point(6.0, 0.0));
    assert_eq!(previous, Some(point(5.0, 0.0)));
    assert_eq!(data.get_point(ObjectId::new(5)).unwrap().x, bits(6.0));
    assert_eq!(data.objects().len(), 2);
}
