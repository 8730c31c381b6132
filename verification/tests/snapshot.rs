use core_lib::container::PatternData;
use core_lib::error::{ContainerError, PatternError};
use core_lib::formula::flatten_variables;
use core_lib::geo::{GeoObject, LineData, PointData};
use core_lib::output::{build_output, OutputLine, OutputPoint};
use core_lib::recompute::resolve_point;
use core_lib::scalar::Real;
use core_lib::variable::Variable;
use core_lib::ObjectId;

fn bits(v: f64) -> Real {
    Real::from_bits(v.to_bits())
}

fn point(x: f64, y: f64) -> GeoObject {
    GeoObject::Point(PointData { x: bits(x), y: bits(y) })
}

#[test]
fn build_output_resolves_line_endpoints() {
    let mut data = PatternData::default();
    let a = data.add_object(point(0.0, 0.0));
    let b = data.add_object(point(3.0, 4.0));
    let line = data.add_object(GeoObject::Line(LineData { p1: a, p2: b }));

    let output = build_output(&data).unwrap();
    assert_eq!(
        output.points,
        vec![
            OutputPoint { id: a.raw(), x: bits(0.0), y: bits(0.0) },
            OutputPoint { id: b.raw(), x: bits(3.0), y: bits(4.0) },
        ]
    );
    assert_eq!(
        output.lines,
        vec![OutputLine { id: line.raw(), p1: a.raw(), p2: b.raw(), x1: bits(0.0), y1: bits(0.0), x2: bits(3.0), y2: bits(4.0) }]
    );
}

#[test]
fn build_output_reports_a_dangling_line_endpoint() {
    let mut data = PatternData::default();
    let a = data.add_object(point(0.0, 0.0));
    let missing = ObjectId::new(50);
    data.add_object(GeoObject::Line(LineData { p1: a, p2: missing }));
    assert_eq!(build_output(&data).unwrap_err(), ContainerError::ObjectNotFound(missing));

    let mut data2 = PatternData::default();
    let p = data2.add_object(point(0.0, 0.0));
    let l = data2.add_object(GeoObject::Line(LineData { p1: p, p2: p }));
    data2.add_object(GeoObject::Line(LineData { p1: l, p2: p }));
    assert!(matches!(
        build_output(&data2).unwrap_err(),
        ContainerError::WrongObjectType { id, expected: "Point" } if id == l
    ));
}

#[test]
fn build_output_of_empty_data_is_empty() {
    let output = build_output(&PatternData::default()).unwrap();
    assert!(output.points.is_empty());
    assert!(output.lines.is_empty());
}

#[test]
fn resolve_point_maps_missing_ids_to_missing_dependency() {
    let mut data = PatternData::default();
    let a = data.add_object(point(2.0, 3.0));
    let l = data.add_object(GeoObject::Line(LineData { p1: a, p2: a }));
    assert_eq!(resolve_point(&data, a).unwrap(), &PointData { x: bits(2.0), y: bits(3.0) });
    assert_eq!(resolve_point(&data, ObjectId::new(9)).unwrap_err(), PatternError::MissingDependency(ObjectId::new(9)));
    assert!(matches!(
        resolve_point(&data, l).unwrap_err(),
        PatternError::Container(ContainerError::WrongObjectType { id, .. }) if id == l
    ));
}

#[test]
fn flatten_variables_extracts_every_kind() {
    let mut data = PatternData::default();
    data.add_variable("waist", Variable::Measurement { value: bits(70.0) });
    data.add_variable("half_waist", Variable::Custom { formula: "waist / 2".to_string(), cached_value: bits(35.0) });
    data.add_variable("seam_len", Variable::LineLength { value: bits(12.0) });

    let flat = flatten_variables(&data);
    let get = |name: &str| flat.iter().find(|(n, _)| n == name).map(|(_, v)| f64::from_bits(v.to_bits()));
    assert_eq!(get("waist"), Some(70.0));
    assert_eq!(get("half_waist"), Some(35.0));
    assert_eq!(get("seam_len"), Some(12.0));
    assert_eq!(flat.len(), 3);
}
