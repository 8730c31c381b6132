use core_lib::document::{references_of, Document, DocumentError, PieceNode, ToolKind, ToolRecord};
use core_lib::error::PatternError;
use core_lib::scalar::Real;
use core_lib::variable::Variable;
use core_lib::ObjectId;

fn bits(v: f64) -> Real {
    Real::from_bits(v.to_bits())
}

fn base(name: &str, x: f64, y: f64) -> ToolKind {
    ToolKind::BasePoint { name: name.to_string(), x: bits(x), y: bits(y) }
}

fn node(point: ObjectId) -> PieceNode {
    PieceNode { point, excluded_from_seam_allowance: false }
}

#[test]
fn add_base_point_registers_id_immediately() {
    let mut doc = Document::default();
    let id = doc.add_base_point("A", bits(1.0), bits(2.0));
    assert!(doc.contains(id));
}

#[test]
fn add_line_between_two_valid_points_succeeds() {
    let mut doc = Document::default();
    let a = doc.add_base_point("A", bits(0.0), bits(0.0));
    let b = doc.add_base_point("B", bits(1.0), bits(1.0));

    let line = doc.add_line(a, b).unwrap();
    assert!(line > a);
    assert!(line > b);
}

#[test]
fn add_line_with_unknown_second_point_fails_without_mutating_history() {
    let mut doc = Document::default();
    let a = doc.add_base_point("A", bits(0.0), bits(0.0));
    let bogus = ObjectId::new(9999);

    let len_before = doc.history().len();
    let err = doc.add_line(a, bogus).unwrap_err();
    let len_after = doc.history().len();

    assert_eq!(err, PatternError::MissingDependency(bogus));
    assert_eq!(len_before, len_after);
}

#[test]
fn add_end_line_with_unknown_base_point_fails_without_mutating_history() {
    let mut doc = Document::default();
    let bogus = ObjectId::new(9999);

    let len_before = doc.history().len();
    let err = doc.add_end_line("A1", bogus, "0", "10").unwrap_err();
    let len_after = doc.history().len();

    assert_eq!(err, PatternError::MissingDependency(bogus));
    assert_eq!(len_before, len_after);
}

#[test]
fn add_end_line_with_valid_base_point_succeeds() {
    let mut doc = Document::default();
    let a = doc.add_base_point("A", bits(0.0), bits(0.0));
    let result = doc.add_end_line("A1", a, "0", "10");
    assert!(result.is_ok());
}

#[test]
fn get_tool_finds_records_created_by_each_constructor() {
    let mut doc = Document::default();
    let a = doc.add_base_point("A", bits(1.0), bits(2.0));
    let a1 = doc.add_end_line("A1", a, "0", "10").unwrap();
    let line = doc.add_line(a, a1).unwrap();

    assert!(matches!(
        doc.get_tool(a).unwrap().kind,
        ToolKind::BasePoint { x, y, .. } if x == bits(1.0) && y == bits(2.0)
    ));
    assert!(matches!(
        doc.get_tool(a1).unwrap().kind,
        ToolKind::EndLine { base_point, .. } if base_point == a
    ));
    assert!(matches!(
        doc.get_tool(line).unwrap().kind,
        ToolKind::Line { p1, p2 } if p1 == a && p2 == a1
    ));
}

#[test]
fn get_tool_returns_none_for_an_id_never_created() {
    let doc = Document::default();
    assert!(doc.get_tool(ObjectId::new(123)).is_none());
}

#[test]
fn add_tool_returns_strictly_increasing_never_repeating_ids() {
    let mut doc = Document::default();
    let ids: Vec<ObjectId> = (0..5).map(|i| doc.add_tool(base(&format!("P{i}"), 0.0, 0.0))).collect();

    for pair in ids.windows(2) {
        assert!(pair[0] < pair[1]);
    }

    let mut unique = ids.clone();
    unique.sort();
    unique.dedup();
    assert_eq!(unique.len(), ids.len());
}

#[test]
fn add_tool_appends_to_history_in_order() {
    let mut doc = Document::default();
    let a = doc.add_tool(base("A", 0.0, 0.0));
    let b = doc.add_tool(ToolKind::Line { p1: a, p2: a });

    let history = doc.history();
    assert_eq!(history.len(), 2);
    assert_eq!(history[0].id, a);
    assert_eq!(history[1].id, b);
    assert!(matches!(history[1].kind, ToolKind::Line { .. }));
}

#[test]
fn set_variable_twice_keeps_most_recent_value() {
    let mut doc = Document::default();
    doc.set_variable("waist", Variable::Measurement { value: bits(70.0) });
    doc.set_variable("waist", Variable::Measurement { value: bits(72.5) });

    let stored: Vec<&Variable> =
        doc.base_variables().iter().filter(|(name, _)| name == "waist").map(|(_, var)| var).collect();
    assert_eq!(stored, vec![&Variable::Measurement { value: bits(72.5) }]);
}

#[test]
fn apply_measurements_replaces_rather_than_merges() {
    let mut doc = Document::default();
    doc.apply_measurements(vec![
        ("height_scapula".to_string(), bits(40.0)),
        ("waist_circ".to_string(), bits(72.5)),
    ]);
    doc.apply_measurements(vec![("waist_circ".to_string(), bits(70.0))]);

    let still_present = doc.base_variables().iter().any(|(name, _)| name == "height_scapula");
    assert!(!still_present);
    let waist: Vec<&Variable> =
        doc.base_variables().iter().filter(|(name, _)| name == "waist_circ").map(|(_, v)| v).collect();
    assert_eq!(waist, vec![&Variable::Measurement { value: bits(70.0) }]);
}

#[test]
fn apply_measurements_only_clears_measurement_kind_variables() {
    let mut doc = Document::default();
    doc.set_variable(
        "half_waist",
        Variable::Custom { formula: "waist_circ / 2".to_string(), cached_value: bits(36.25) },
    );

    doc.apply_measurements(vec![("waist_circ".to_string(), bits(72.5))]);

    let custom = doc.base_variables().iter().find(|(name, _)| name == "half_waist").map(|(_, var)| var.clone());
    assert_eq!(
        custom,
        Some(Variable::Custom { formula: "waist_circ / 2".to_string(), cached_value: bits(36.25) })
    );
}

#[test]
fn apply_measurements_keeps_the_last_of_a_repeated_name() {
    let mut doc = Document::default();
    doc.apply_measurements(vec![("w".to_string(), bits(1.0)), ("w".to_string(), bits(2.0))]);
    assert_eq!(doc.base_variables().len(), 1);
    assert_eq!(doc.base_variables()[0].1, Variable::Measurement { value: bits(2.0) });
}

#[test]
fn remove_tool_on_an_unreferenced_id_succeeds() {
    let mut doc = Document::default();
    let a = doc.add_base_point("A", bits(0.0), bits(0.0));
    let b = doc.add_base_point("B", bits(1.0), bits(1.0));

    let (removed, index) = doc.remove_tool(b).unwrap();
    assert_eq!(removed.id, b);
    assert_eq!(index, 1);
    assert!(!doc.contains(b));
    assert!(doc.get_tool(b).is_none());
    assert!(doc.contains(a));
}

#[test]
fn remove_tool_still_referenced_fails_without_mutating_history() {
    let mut doc = Document::default();
    let a = doc.add_base_point("A", bits(0.0), bits(0.0));
    let a1 = doc.add_end_line("A1", a, "0", "10").unwrap();

    let len_before = doc.history().len();
    let err = doc.remove_tool(a).unwrap_err();
    let len_after = doc.history().len();

    assert_eq!(err, DocumentError::ToolInUse { id: a, used_by: a1 });
    assert_eq!(len_before, len_after);
    assert!(doc.contains(a));
}

#[test]
fn remove_tool_of_an_unknown_id_is_tool_not_found() {
    let mut doc = Document::default();
    doc.add_base_point("A", bits(0.0), bits(0.0));
    assert_eq!(doc.remove_tool(ObjectId::new(77)).unwrap_err(), DocumentError::ToolNotFound(ObjectId::new(77)));
    assert_eq!(doc.history().len(), 1);
}

#[test]
fn replace_tool_kind_with_valid_kind_returns_the_previous_kind() {
    let mut doc = Document::default();
    let a = doc.add_base_point("A", bits(0.0), bits(0.0));

    let new_kind = base("A", 9.0, 9.0);
    let old_kind = doc.replace_tool_kind(a, new_kind.clone()).unwrap();

    assert_eq!(old_kind, base("A", 0.0, 0.0));
    assert_eq!(doc.get_tool(a).unwrap().kind, new_kind);
}

#[test]
fn replace_tool_kind_with_missing_dependency_fails_and_leaves_original_kind() {
    let mut doc = Document::default();
    let a = doc.add_base_point("A", bits(0.0), bits(0.0));
    let bogus = ObjectId::new(9999);

    let bad_kind = ToolKind::EndLine {
        name: "A1".to_string(),
        base_point: bogus,
        angle_formula: "0".to_string(),
        length_formula: "10".to_string(),
    };
    let err = doc.replace_tool_kind(a, bad_kind).unwrap_err();
    assert_eq!(err, DocumentError::MissingDependency(bogus));
    assert_eq!(doc.get_tool(a).unwrap().kind, base("A", 0.0, 0.0));
}

#[test]
fn replace_tool_kind_of_an_unknown_id_is_tool_not_found() {
    let mut doc = Document::default();
    let err = doc.replace_tool_kind(ObjectId::new(3), base("Z", 0.0, 0.0)).unwrap_err();
    assert_eq!(err, DocumentError::ToolNotFound(ObjectId::new(3)));
}

#[test]
fn insert_tool_record_at_with_duplicate_id_fails_without_mutating_history() {
    let mut doc = Document::default();
    let a = doc.add_base_point("A", bits(0.0), bits(0.0));

    let len_before = doc.history().len();
    let duplicate = ToolRecord { id: a, kind: base("Duplicate", 5.0, 5.0) };
    let err = doc.insert_tool_record_at(0, duplicate).unwrap_err();
    let len_after = doc.history().len();

    assert_eq!(err, DocumentError::DuplicateId(a));
    assert_eq!(len_before, len_after);
}

#[test]
fn insert_tool_record_at_puts_a_removed_record_back_in_place() {
    let mut doc = Document::default();
    let a = doc.add_base_point("A", bits(0.0), bits(0.0));
    let b = doc.add_base_point("B", bits(1.0), bits(0.0));
    let c = doc.add_base_point("C", bits(2.0), bits(0.0));
    let before = doc.clone();

    let (record, index) = doc.remove_tool(b).unwrap();
    let ids: Vec<ObjectId> = doc.history().iter().map(|r| r.id).collect();
    assert_eq!(ids, vec![a, c]);

    doc.insert_tool_record_at(index, record).unwrap();
    assert_eq!(doc, before);
}

#[test]
fn insert_tool_record_at_moves_the_counter_past_a_foreign_id() {
    let mut doc = Document::default();
    doc.insert_tool_record_at(0, ToolRecord { id: ObjectId::new(10), kind: base("X", 0.0, 0.0) }).unwrap();
    let next = doc.add_base_point("Y", bits(0.0), bits(0.0));
    assert_eq!(next, ObjectId::new(11));
}

#[test]
fn add_along_line_with_unknown_point_fails_without_mutating_history() {
    let mut doc = Document::default();
    let a = doc.add_base_point("A", bits(0.0), bits(0.0));
    let bogus = ObjectId::new(9999);

    let len_before = doc.history().len();
    let err = doc.add_along_line("N", a, bogus, "10").unwrap_err();
    let len_after = doc.history().len();

    assert_eq!(err, PatternError::MissingDependency(bogus));
    assert_eq!(len_before, len_after);
}

#[test]
fn add_normal_with_unknown_point_fails_without_mutating_history() {
    let mut doc = Document::default();
    let a = doc.add_base_point("A", bits(0.0), bits(0.0));
    let bogus = ObjectId::new(9999);

    let len_before = doc.history().len();
    let err = doc.add_normal("N", a, bogus, "10", "0").unwrap_err();
    let len_after = doc.history().len();

    assert_eq!(err, PatternError::MissingDependency(bogus));
    assert_eq!(len_before, len_after);
}

#[test]
fn add_bisector_with_unknown_point_fails_without_mutating_history() {
    let mut doc = Document::default();
    let a = doc.add_base_point("A", bits(0.0), bits(0.0));
    let b = doc.add_base_point("B", bits(1.0), bits(1.0));
    let bogus = ObjectId::new(9999);

    let len_before = doc.history().len();
    let err = doc.add_bisector("N", a, b, bogus, "10").unwrap_err();
    let len_after = doc.history().len();

    assert_eq!(err, PatternError::MissingDependency(bogus));
    assert_eq!(len_before, len_after);
}

#[test]
fn add_height_with_unknown_point_fails_without_mutating_history() {
    let mut doc = Document::default();
    let a = doc.add_base_point("A", bits(0.0), bits(0.0));
    let b = doc.add_base_point("B", bits(1.0), bits(1.0));
    let bogus = ObjectId::new(9999);

    let len_before = doc.history().len();
    let err = doc.add_height("N", a, b, bogus).unwrap_err();
    let len_after = doc.history().len();

    assert_eq!(err, PatternError::MissingDependency(bogus));
    assert_eq!(len_before, len_after);
}

#[test]
fn add_midpoint_with_unknown_point_fails_without_mutating_history() {
    let mut doc = Document::default();
    let a = doc.add_base_point("A", bits(0.0), bits(0.0));
    let bogus = ObjectId::new(9999);

    let len_before = doc.history().len();
    let err = doc.add_midpoint("N", a, bogus).unwrap_err();
    let len_after = doc.history().len();

    assert_eq!(err, PatternError::MissingDependency(bogus));
    assert_eq!(len_before, len_after);
}

#[test]
fn missing_dependencies_are_reported_in_argument_order() {
    let mut doc = Document::default();
    let a = doc.add_base_point("A", bits(0.0), bits(0.0));
    let first = ObjectId::new(500);
    let second = ObjectId::new(600);
    assert_eq!(
        doc.add_bisector("N", first, a, second, "1").unwrap_err(),
        PatternError::MissingDependency(first)
    );
    assert_eq!(
        doc.add_bisector("N", a, second, first, "1").unwrap_err(),
        PatternError::MissingDependency(second)
    );
}

#[test]
fn remove_tool_blocked_by_a_normal_tools_dependency() {
    let mut doc = Document::default();
    let a = doc.add_base_point("A", bits(0.0), bits(0.0));
    let b = doc.add_base_point("B", bits(1.0), bits(1.0));
    let n = doc.add_normal("N", a, b, "10", "0").unwrap();
    let c = doc.add_base_point("C", bits(5.0), bits(5.0));
    doc.add_line(n, c).unwrap();

    let err = doc.remove_tool(a).unwrap_err();
    assert_eq!(err, DocumentError::ToolInUse { id: a, used_by: n });
    assert!(doc.contains(a));
}

#[test]
fn add_piece_with_unknown_point_fails_without_mutating_history() {
    let mut doc = Document::default();
    let a = doc.add_base_point("A", bits(0.0), bits(0.0));
    let bogus = ObjectId::new(9999);

    let len_before = doc.history().len();
    let err = doc.add_piece("Piece1", vec![node(a), node(bogus)], "1.0").unwrap_err();
    let len_after = doc.history().len();

    assert_eq!(err, PatternError::MissingDependency(bogus));
    assert_eq!(len_before, len_after);
}

#[test]
fn remove_tool_blocked_by_a_piece_nodes_dependency() {
    let mut doc = Document::default();
    let a = doc.add_base_point("A", bits(0.0), bits(0.0));
    let b = doc.add_base_point("B", bits(10.0), bits(0.0));
    let c = doc.add_base_point("C", bits(0.0), bits(10.0));
    let piece = doc.add_piece("Piece1", vec![node(a), node(b), node(c)], "1.0").unwrap();
    doc.add_line(a, b).unwrap();

    let err = doc.remove_tool(a).unwrap_err();
    assert_eq!(err, DocumentError::ToolInUse { id: a, used_by: piece });
    assert!(doc.contains(a));
}

#[test]
fn remove_tool_blocked_by_a_shoulder_points_dependency() {
    let mut doc = Document::default();
    let p1_line = doc.add_base_point("P1Line", bits(0.0), bits(0.0));
    let p2_line = doc.add_base_point("P2Line", bits(10.0), bits(0.0));
    let shoulder = doc.add_base_point("Shoulder", bits(15.0), bits(8.0));
    let result = doc.add_shoulder_point("S", p1_line, p2_line, shoulder, "10").unwrap();

    let err = doc.remove_tool(shoulder).unwrap_err();
    assert_eq!(err, DocumentError::ToolInUse { id: shoulder, used_by: result });
    assert!(doc.contains(shoulder));
}

#[test]
fn remove_tool_blocked_by_a_line_intersects_dependency() {
    let mut doc = Document::default();
    let p1_line1 = doc.add_base_point("P1L1", bits(0.0), bits(0.0));
    let p2_line1 = doc.add_base_point("P2L1", bits(3.0), bits(3.0));
    let p1_line2 = doc.add_base_point("P1L2", bits(0.0), bits(4.0));
    let p2_line2 = doc.add_base_point("P2L2", bits(4.0), bits(0.0));
    let result = doc.add_line_intersect("X", p1_line1, p2_line1, p1_line2, p2_line2).unwrap();

    let err = doc.remove_tool(p2_line2).unwrap_err();
    assert_eq!(err, DocumentError::ToolInUse { id: p2_line2, used_by: result });
    assert!(doc.contains(p2_line2));
}

#[test]
fn remove_tool_blocked_by_a_point_of_intersections_dependency() {
    let mut doc = Document::default();
    let p1 = doc.add_base_point("P1", bits(3.0), bits(7.0));
    let p2 = doc.add_base_point("P2", bits(9.0), bits(-2.0));
    let result = doc.add_point_of_intersection("X", p1, p2).unwrap();

    let err = doc.remove_tool(p2).unwrap_err();
    assert_eq!(err, DocumentError::ToolInUse { id: p2, used_by: result });
    assert!(doc.contains(p2));
}

#[test]
fn remove_tool_blocked_by_a_triangles_dependency() {
    let mut doc = Document::default();
    let axis_p1 = doc.add_base_point("AxisP1", bits(0.0), bits(0.0));
    let axis_p2 = doc.add_base_point("AxisP2", bits(20.0), bits(0.0));
    let hyp_p1 = doc.add_base_point("HypP1", bits(8.0), bits(-3.0));
    let hyp_p2 = doc.add_base_point("HypP2", bits(14.0), bits(9.0));
    let result = doc.add_triangle("T", axis_p1, axis_p2, hyp_p1, hyp_p2).unwrap();

    let err = doc.remove_tool(hyp_p2).unwrap_err();
    assert_eq!(err, DocumentError::ToolInUse { id: hyp_p2, used_by: result });
    assert!(doc.contains(hyp_p2));
}

#[test]
fn remove_tool_blocked_by_a_point_of_contacts_dependency() {
    let mut doc = Document::default();
    let center = doc.add_base_point("Center", bits(5.0), bits(3.0));
    let p1 = doc.add_base_point("P1", bits(0.0), bits(0.0));
    let p2 = doc.add_base_point("P2", bits(10.0), bits(0.0));
    let result = doc.add_point_of_contact("X", center, p1, p2, "4").unwrap();

    let err = doc.remove_tool(center).unwrap_err();
    assert_eq!(err, DocumentError::ToolInUse { id: center, used_by: result });
    assert!(doc.contains(center));
}

#[test]
fn add_arc_with_unknown_center_fails_without_mutating_history() {
    let mut doc = Document::default();
    let bogus = ObjectId::new(9999);

    let len_before = doc.history().len();
    let err = doc.add_arc("A", bogus, "10", "0", "90").unwrap_err();
    let len_after = doc.history().len();

    assert_eq!(err, PatternError::MissingDependency(bogus));
    assert_eq!(len_before, len_after);
}

#[test]
fn add_arc_with_valid_center_succeeds() {
    let mut doc = Document::default();
    let center = doc.add_base_point("Center", bits(0.0), bits(0.0));
    let result = doc.add_arc("A", center, "10", "0", "90");
    assert!(result.is_ok());
}

#[test]
fn add_spline_with_unknown_point_fails_without_mutating_history() {
    let mut doc = Document::default();
    let a = doc.add_base_point("A", bits(0.0), bits(0.0));
    let bogus = ObjectId::new(9999);

    let len_before = doc.history().len();
    let err = doc.add_spline("S", a, bogus, "90", "3", "90", "3").unwrap_err();
    let len_after = doc.history().len();

    assert_eq!(err, PatternError::MissingDependency(bogus));
    assert_eq!(len_before, len_after);
}

#[test]
fn add_spline_with_valid_points_succeeds() {
    let mut doc = Document::default();
    let p1 = doc.add_base_point("P1", bits(0.0), bits(0.0));
    let p4 = doc.add_base_point("P4", bits(10.0), bits(0.0));
    let result = doc.add_spline("S", p1, p4, "90", "3", "90", "3");
    assert!(result.is_ok());
}

#[test]
fn remove_tool_blocked_by_an_arcs_dependency() {
    let mut doc = Document::default();
    let center = doc.add_base_point("Center", bits(0.0), bits(0.0));
    let result = doc.add_arc("A", center, "10", "0", "90").unwrap();

    let err = doc.remove_tool(center).unwrap_err();
    assert_eq!(err, DocumentError::ToolInUse { id: center, used_by: result });
    assert!(doc.contains(center));
}

#[test]
fn remove_tool_blocked_by_a_splines_dependency() {
    let mut doc = Document::default();
    let p1 = doc.add_base_point("P1", bits(0.0), bits(0.0));
    let p4 = doc.add_base_point("P4", bits(10.0), bits(0.0));
    let result = doc.add_spline("S", p1, p4, "90", "3", "90", "3").unwrap();

    let err = doc.remove_tool(p1).unwrap_err();
    assert_eq!(err, DocumentError::ToolInUse { id: p1, used_by: result });
    assert!(doc.contains(p1));
}

#[test]
fn from_parts_rejects_the_first_repeated_id() {
    let records = vec![
        ToolRecord { id: ObjectId::new(4), kind: base("A", 0.0, 0.0) },
        ToolRecord { id: ObjectId::new(2), kind: base("B", 0.0, 0.0) },
        ToolRecord { id: ObjectId::new(4), kind: base("C", 0.0, 0.0) },
        ToolRecord { id: ObjectId::new(2), kind: base("D", 0.0, 0.0) },
    ];
    assert_eq!(Document::from_parts(records, Vec::new()).unwrap_err(), DocumentError::DuplicateId(ObjectId::new(4)));
}

#[test]
fn from_parts_continues_the_counter_past_the_largest_id() {
    let records = vec![
        ToolRecord { id: ObjectId::new(7), kind: base("A", 0.0, 0.0) },
        ToolRecord { id: ObjectId::new(3), kind: base("B", 0.0, 0.0) },
    ];
    let vars = vec![("w".to_string(), Variable::Measurement { value: bits(1.0) })];
    let mut doc = Document::from_parts(records.clone(), vars.clone()).unwrap();
    assert_eq!(doc.history(), records.as_slice());
    assert_eq!(doc.base_variables(), vars.as_slice());
    assert_eq!(doc.add_base_point("C", bits(0.0), bits(0.0)), ObjectId::new(8));

    let mut empty = Document::from_parts(Vec::new(), Vec::new()).unwrap();
    assert_eq!(empty.add_base_point("A", bits(0.0), bits(0.0)), ObjectId::new(1));
}

#[test]
fn references_of_lists_dependencies_in_argument_order() {
    let a = ObjectId::new(1);
    let b = ObjectId::new(2);
    let c = ObjectId::new(3);
    assert_eq!(references_of(&base("A", 0.0, 0.0)), Vec::<ObjectId>::new());
    assert_eq!(
        references_of(&ToolKind::Bisector { name: "N".to_string(), p1: c, p2: a, p3: b, length_formula: "1".to_string() }),
        vec![c, a, b]
    );
    assert_eq!(
        references_of(&ToolKind::Piece {
            name: "P".to_string(),
            nodes: vec![node(b), node(a)],
            seam_allowance_formula: "0".to_string()
        }),
        vec![b, a]
    );
}
