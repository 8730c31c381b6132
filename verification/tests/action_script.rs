use core_lib::action_script::{
    execute_action_script, names_from_history, tool_kind_variant_name, tool_name, Action, ActionScript,
    ActionScriptError,
};
use core_lib::document::{Document, DocumentError, PieceNode, ToolKind};
use core_lib::error::PatternError;
use core_lib::scalar::Real;
use core_lib::variable::Variable;
use core_lib::ObjectId;

fn bits(v: f64) -> Real {
    Real::from_bits(v.to_bits())
}

fn script(actions: Vec<Action>) -> ActionScript {
    ActionScript { measurements_path: None, load_pattern_path: None, actions }
}

fn base_action(name: &str, x: f64, y: f64) -> Action {
    Action::AddBasePoint { name: name.to_string(), x: bits(x), y: bits(y) }
}

fn id_of(document: &Document, name: &str) -> ObjectId {
    document.history().iter().find(|r| tool_name(&r.kind) == Some(name)).unwrap().id
}

#[test]
fn execute_action_script_builds_correct_geometry_from_named_references() {
    let s = script(vec![
        base_action("A", 0.0, 0.0),
        Action::AddEndLine {
            name: "A1".to_string(),
            base_point: "A".to_string(),
            angle_formula: "0".to_string(),
            length_formula: "height_scapula/10".to_string(),
        },
        Action::AddLine { p1: "A".to_string(), p2: "A1".to_string() },
    ]);

    let document = execute_action_script(&s, None, None).unwrap();
    let a = id_of(&document, "A");
    let a1 = id_of(&document, "A1");
    assert_eq!(document.history().len(), 3);
    assert_eq!(
        document.get_tool(a1).unwrap().kind,
        ToolKind::EndLine {
            name: "A1".to_string(),
            base_point: a,
            angle_formula: "0".to_string(),
            length_formula: "height_scapula/10".to_string(),
        }
    );
    assert_eq!(document.history()[2].kind, ToolKind::Line { p1: a, p2: a1 });
}

#[test]
fn action_referencing_undefined_name_is_reported() {
    let s = script(vec![Action::AddEndLine {
        name: "A1".to_string(),
        base_point: "does_not_exist".to_string(),
        angle_formula: "0".to_string(),
        length_formula: "10".to_string(),
    }]);

    let err = execute_action_script(&s, None, None).unwrap_err();
    assert!(matches!(err, ActionScriptError::UnknownPointName(name) if name == "does_not_exist"));
}

#[test]
fn two_actions_defining_the_same_name_is_reported() {
    let s = script(vec![base_action("A", 0.0, 0.0), base_action("A", 1.0, 1.0)]);

    let err = execute_action_script(&s, None, None).unwrap_err();
    assert!(matches!(err, ActionScriptError::DuplicateName(name) if name == "A"));
}

#[test]
fn measurements_are_applied_before_the_actions() {
    let mut loaded = Document::default();
    loaded.set_variable("old", Variable::Measurement { value: bits(1.0) });
    loaded.set_variable("keep", Variable::Custom { formula: "2".to_string(), cached_value: bits(2.0) });
    let s = script(vec![base_action("A", 0.0, 0.0)]);
    let document =
        execute_action_script(&s, Some(loaded), Some(vec![("height_scapula".to_string(), bits(40.0))])).unwrap();
    let names: Vec<&str> = document.base_variables().iter().map(|(n, _)| n.as_str()).collect();
    assert_eq!(names, vec!["keep", "height_scapula"]);
    assert_eq!(document.base_variables()[1].1, Variable::Measurement { value: bits(40.0) });
}

#[test]
fn load_pattern_path_preserves_loaded_point_and_adds_a_new_one() {
    let mut loaded_doc = Document::default();
    let loaded_id = loaded_doc.add_base_point("Existing", bits(3.0), bits(4.0));

    let s = ActionScript {
        measurements_path: None,
        load_pattern_path: Some("loaded.xml".to_string()),
        actions: vec![base_action("New", 1.0, 1.0)],
    };

    let document = execute_action_script(&s, Some(loaded_doc), None).unwrap();
    assert_eq!(document.history().len(), 2);

    let preserved = document.get_tool(loaded_id).unwrap();
    assert_eq!(
        preserved.kind,
        ToolKind::BasePoint { name: "Existing".to_string(), x: bits(3.0), y: bits(4.0) }
    );

    let new_tool =
        document.history().iter().find(|r| matches!(&r.kind, ToolKind::BasePoint { name, .. } if name == "New")).unwrap();
    assert!(matches!(&new_tool.kind, ToolKind::BasePoint { x, y, .. } if *x == bits(1.0) && *y == bits(1.0)));
}

#[test]
fn actions_can_reference_a_loaded_points_original_name() {
    let mut loaded_doc = Document::default();
    let a = loaded_doc.add_base_point("A", bits(0.0), bits(0.0));

    let s = ActionScript {
        measurements_path: None,
        load_pattern_path: Some("loaded.xml".to_string()),
        actions: vec![Action::AddEndLine {
            name: "A1".to_string(),
            base_point: "A".to_string(),
            angle_formula: "0".to_string(),
            length_formula: "10".to_string(),
        }],
    };

    let document = execute_action_script(&s, Some(loaded_doc), None).unwrap();
    let a1 = id_of(&document, "A1");
    assert!(matches!(document.get_tool(a1).unwrap().kind, ToolKind::EndLine { base_point, .. } if base_point == a));
}

#[test]
fn remove_tool_removes_only_the_named_tool() {
    let mut loaded_doc = Document::default();
    let a = loaded_doc.add_base_point("A", bits(0.0), bits(0.0));
    let b = loaded_doc.add_base_point("B", bits(1.0), bits(1.0));

    let s = script(vec![Action::RemoveTool { name: "A".to_string() }]);

    let document = execute_action_script(&s, Some(loaded_doc), None).unwrap();
    assert!(document.get_tool(a).is_none());
    assert!(!document.history().iter().any(|r| matches!(&r.kind, ToolKind::BasePoint { name, .. } if name == "A")));

    let preserved_b = document.get_tool(b).unwrap();
    assert_eq!(preserved_b.kind, ToolKind::BasePoint { name: "B".to_string(), x: bits(1.0), y: bits(1.0) });
}

#[test]
fn a_removed_name_can_no_longer_be_referenced() {
    let s = script(vec![
        base_action("A", 0.0, 0.0),
        Action::RemoveTool { name: "A".to_string() },
        Action::AddEndLine {
            name: "B".to_string(),
            base_point: "A".to_string(),
            angle_formula: "0".to_string(),
            length_formula: "1".to_string(),
        },
    ]);
    assert!(matches!(
        execute_action_script(&s, None, None).unwrap_err(),
        ActionScriptError::UnknownPointName(name) if name == "A"
    ));
}

#[test]
fn remove_tool_still_referenced_fails_as_a_document_error_and_leaves_document_unchanged() {
    let mut loaded_doc = Document::default();
    let a = loaded_doc.add_base_point("A", bits(0.0), bits(0.0));
    let a1 = loaded_doc.add_end_line("A1", a, "0", "10").unwrap();

    let failing = script(vec![Action::RemoveTool { name: "A".to_string() }]);
    let err = execute_action_script(&failing, Some(loaded_doc.clone()), None).unwrap_err();
    assert!(matches!(
        err,
        ActionScriptError::Document(DocumentError::ToolInUse { id, used_by }) if id == a && used_by == a1
    ));

    let reload_only = script(vec![]);
    let reloaded = execute_action_script(&reload_only, Some(loaded_doc.clone()), None).unwrap();
    assert_eq!(reloaded.history(), loaded_doc.history());
}

#[test]
fn modify_base_point_overrides_only_the_provided_axis() {
    let mut loaded_doc = Document::default();
    let a = loaded_doc.add_base_point("A", bits(0.0), bits(0.0));

    let s = script(vec![Action::ModifyBasePoint { name: "A".to_string(), x: Some(bits(5.0)), y: None }]);

    let document = execute_action_script(&s, Some(loaded_doc), None).unwrap();
    let tool = document.get_tool(a).unwrap();
    assert_eq!(tool.kind, ToolKind::BasePoint { name: "A".to_string(), x: bits(5.0), y: bits(0.0) });
}

#[test]
fn modify_base_point_on_a_non_base_point_is_reported_as_wrong_tool_type() {
    let mut loaded_doc = Document::default();
    let a = loaded_doc.add_base_point("A", bits(0.0), bits(0.0));
    loaded_doc.add_end_line("B", a, "0", "10").unwrap();

    let s = script(vec![Action::ModifyBasePoint { name: "B".to_string(), x: Some(bits(1.0)), y: None }]);

    let err = execute_action_script(&s, Some(loaded_doc), None).unwrap_err();
    match err {
        ActionScriptError::WrongToolType { name, expected, found } => {
            assert_eq!(name, "B");
            assert_eq!(expected, "BasePoint");
            assert_eq!(found, "EndLine");
        }
        other => panic!("expected WrongToolType, got {other:?}"),
    }
}

#[test]
fn modify_end_line_overrides_only_the_provided_formula() {
    let mut loaded_doc = Document::default();
    let a = loaded_doc.add_base_point("A", bits(0.0), bits(0.0));
    let b = loaded_doc.add_end_line("B", a, "0", "10").unwrap();

    let s = script(vec![Action::ModifyEndLine {
        name: "B".to_string(),
        angle_formula: None,
        length_formula: Some("20".to_string()),
    }]);

    let document = execute_action_script(&s, Some(loaded_doc), None).unwrap();
    assert_eq!(
        document.get_tool(b).unwrap().kind,
        ToolKind::EndLine {
            name: "B".to_string(),
            base_point: a,
            angle_formula: "0".to_string(),
            length_formula: "20".to_string(),
        }
    );
}

#[test]
fn modify_end_line_on_a_base_point_is_reported_as_wrong_tool_type() {
    let s = script(vec![
        base_action("A", 0.0, 0.0),
        Action::ModifyEndLine { name: "A".to_string(), angle_formula: Some("1".to_string()), length_formula: None },
    ]);
    assert_eq!(
        execute_action_script(&s, None, None).unwrap_err(),
        ActionScriptError::WrongToolType {
            name: "A".to_string(),
            expected: "EndLine".to_string(),
            found: "BasePoint".to_string(),
        }
    );
}

#[test]
fn loading_l_shape_and_applying_l_to_rectangle_script_closes_it_additively() {
    let mut l_shape = Document::default();
    let a = l_shape.add_base_point("A", bits(0.0), bits(0.0));
    let b = l_shape.add_base_point("B", bits(10.0), bits(0.0));
    let c = l_shape.add_base_point("C", bits(10.0), bits(5.0));
    l_shape.add_line(a, b).unwrap();
    l_shape.add_line(b, c).unwrap();

    let s = ActionScript {
        measurements_path: None,
        load_pattern_path: Some("l_shape.xml".to_string()),
        actions: vec![
            base_action("D", 0.0, 5.0),
            Action::AddLine { p1: "C".to_string(), p2: "D".to_string() },
            Action::AddLine { p1: "D".to_string(), p2: "A".to_string() },
        ],
    };
    let document = execute_action_script(&s, Some(l_shape.clone()), None).unwrap();
    assert_eq!(document.history().len(), 8);
    for original in l_shape.history() {
        assert_eq!(&document.get_tool(original.id).unwrap().kind, &original.kind);
    }
    let d = id_of(&document, "D");
    let lines: Vec<ToolKind> = document
        .history()
        .iter()
        .filter(|r| matches!(r.kind, ToolKind::Line { .. }))
        .map(|r| r.kind.clone())
        .collect();
    assert_eq!(
        lines,
        vec![
            ToolKind::Line { p1: a, p2: b },
            ToolKind::Line { p1: b, p2: c },
            ToolKind::Line { p1: c, p2: d },
            ToolKind::Line { p1: d, p2: a },
        ]
    );
}

#[test]
fn add_shoulder_point_action_produces_correct_geometry() {
    let s = script(vec![
        base_action("P1Line", 0.0, 0.0),
        base_action("P2Line", 10.0, 0.0),
        base_action("Shoulder", 15.0, 8.0),
        Action::AddShoulderPoint {
            name: "S".to_string(),
            p1_line: "P1Line".to_string(),
            p2_line: "P2Line".to_string(),
            shoulder: "Shoulder".to_string(),
            length_formula: "10".to_string(),
        },
    ]);
    let document = execute_action_script(&s, None, None).unwrap();
    let sid = id_of(&document, "S");
    assert_eq!(
        document.get_tool(sid).unwrap().kind,
        ToolKind::ShoulderPoint {
            name: "S".to_string(),
            p1_line: id_of(&document, "P1Line"),
            p2_line: id_of(&document, "P2Line"),
            shoulder: id_of(&document, "Shoulder"),
            length_formula: "10".to_string(),
        }
    );
}

#[test]
fn add_line_intersect_action_produces_correct_geometry() {
    let s = script(vec![
        base_action("P1L1", 0.0, 0.0),
        base_action("P2L1", 3.0, 3.0),
        base_action("P1L2", 0.0, 4.0),
        base_action("P2L2", 4.0, 0.0),
        Action::AddLineIntersect {
            name: "X".to_string(),
            p1_line1: "P1L1".to_string(),
            p2_line1: "P2L1".to_string(),
            p1_line2: "P1L2".to_string(),
            p2_line2: "P2L2".to_string(),
        },
    ]);
    let document = execute_action_script(&s, None, None).unwrap();
    let x = id_of(&document, "X");
    assert_eq!(
        document.get_tool(x).unwrap().kind,
        ToolKind::LineIntersect {
            name: "X".to_string(),
            p1_line1: id_of(&document, "P1L1"),
            p2_line1: id_of(&document, "P2L1"),
            p1_line2: id_of(&document, "P1L2"),
            p2_line2: id_of(&document, "P2L2"),
        }
    );
}

#[test]
fn add_point_of_intersection_action_produces_correct_geometry() {
    let s = script(vec![
        base_action("P1", 3.0, 7.0),
        base_action("P2", 9.0, -2.0),
        Action::AddPointOfIntersection { name: "X".to_string(), p1: "P1".to_string(), p2: "P2".to_string() },
    ]);
    let document = execute_action_script(&s, None, None).unwrap();
    let x = id_of(&document, "X");
    assert_eq!(
        document.get_tool(x).unwrap().kind,
        ToolKind::PointOfIntersection { name: "X".to_string(), p1: id_of(&document, "P1"), p2: id_of(&document, "P2") }
    );
}

#[test]
fn add_triangle_action_produces_correct_geometry() {
    let s = script(vec![
        base_action("AxisP1", 0.0, 0.0),
        base_action("AxisP2", 20.0, 0.0),
        base_action("HypP1", 8.0, -3.0),
        base_action("HypP2", 14.0, 9.0),
        Action::AddTriangle {
            name: "T".to_string(),
            axis_p1: "AxisP1".to_string(),
            axis_p2: "AxisP2".to_string(),
            hypotenuse_p1: "HypP1".to_string(),
            hypotenuse_p2: "HypP2".to_string(),
        },
    ]);
    let document = execute_action_script(&s, None, None).unwrap();
    let t = id_of(&document, "T");
    assert_eq!(
        document.get_tool(t).unwrap().kind,
        ToolKind::Triangle {
            name: "T".to_string(),
            axis_p1: id_of(&document, "AxisP1"),
            axis_p2: id_of(&document, "AxisP2"),
            hypotenuse_p1: id_of(&document, "HypP1"),
            hypotenuse_p2: id_of(&document, "HypP2"),
        }
    );
}

#[test]
fn add_point_of_contact_action_depending_on_a_shoulder_point_action_produces_correct_geometry() {
    let s = script(vec![
        base_action("P1Line", 0.0, 0.0),
        base_action("P2Line", 10.0, 0.0),
        base_action("Shoulder", 15.0, 8.0),
        Action::AddShoulderPoint {
            name: "S".to_string(),
            p1_line: "P1Line".to_string(),
            p2_line: "P2Line".to_string(),
            shoulder: "Shoulder".to_string(),
            length_formula: "10".to_string(),
        },
        base_action("Center", 21.0, 3.0),
        Action::AddPointOfContact {
            name: "Contact".to_string(),
            center: "Center".to_string(),
            p1: "P1Line".to_string(),
            p2: "S".to_string(),
            radius_formula: "4".to_string(),
        },
    ]);
    let document = execute_action_script(&s, None, None).unwrap();
    let contact = id_of(&document, "Contact");
    assert_eq!(
        document.get_tool(contact).unwrap().kind,
        ToolKind::PointOfContact {
            name: "Contact".to_string(),
            center: id_of(&document, "Center"),
            p1: id_of(&document, "P1Line"),
            p2: id_of(&document, "S"),
            radius_formula: "4".to_string(),
        }
    );
}

#[test]
fn add_piece_resolves_every_point_name_in_order() {
    let s = script(vec![
        base_action("A", 0.0, 0.0),
        base_action("B", 1.0, 0.0),
        Action::AddPiece {
            name: "P".to_string(),
            points: vec!["B".to_string(), "A".to_string()],
            seam_allowance_formula: "0".to_string(),
        },
    ]);
    let document = execute_action_script(&s, None, None).unwrap();
    let (a, b) = (id_of(&document, "A"), id_of(&document, "B"));
    assert_eq!(
        document.history()[2].kind,
        ToolKind::Piece {
            name: "P".to_string(),
            nodes: vec![
                PieceNode { point: b, excluded_from_seam_allowance: false },
                PieceNode { point: a, excluded_from_seam_allowance: false },
            ],
            seam_allowance_formula: "0".to_string(),
        }
    );
    let bad = script(vec![
        base_action("A", 0.0, 0.0),
        Action::AddPiece {
            name: "P".to_string(),
            points: vec!["A".to_string(), "Q".to_string(), "R".to_string()],
            seam_allowance_formula: "0".to_string(),
        },
    ]);
    assert_eq!(
        execute_action_script(&bad, None, None).unwrap_err(),
        ActionScriptError::UnknownPointName("Q".to_string())
    );
}

#[test]
fn a_name_clash_is_reported_before_an_unknown_reference() {
    let s = script(vec![
        base_action("A", 0.0, 0.0),
        Action::AddMidpoint { name: "A".to_string(), p1: "nope".to_string(), p2: "A".to_string() },
    ]);
    assert_eq!(
        execute_action_script(&s, None, None).unwrap_err(),
        ActionScriptError::DuplicateName("A".to_string())
    );
}

#[test]
fn a_dangling_loaded_reference_blocks_a_modification() {
    let loaded = Document::from_parts(
        vec![core_lib::document::ToolRecord {
            id: ObjectId::new(0),
            kind: ToolKind::EndLine {
                name: "E".to_string(),
                base_point: ObjectId::new(42),
                angle_formula: "0".to_string(),
                length_formula: "1".to_string(),
            },
        }],
        Vec::new(),
    )
    .unwrap();
    let s = script(vec![Action::AddLine { p1: "E".to_string(), p2: "E".to_string() }]);
    let document = execute_action_script(&s, Some(loaded.clone()), None).unwrap();
    assert_eq!(document.history().len(), 2);
    let s2 = script(vec![Action::ModifyEndLine {
        name: "E".to_string(),
        angle_formula: Some("5".to_string()),
        length_formula: None,
    }]);
    assert_eq!(
        execute_action_script(&s2, Some(loaded), None).unwrap_err(),
        ActionScriptError::Document(DocumentError::MissingDependency(ObjectId::new(42)))
    );
    let _ = PatternError::MissingDependency(ObjectId::new(0));
}

#[test]
fn loaded_names_later_tools_take_over_a_shared_name() {
    let mut doc = Document::default();
    let first = doc.add_base_point("A", bits(0.0), bits(0.0));
    let second = doc.add_base_point("A", bits(1.0), bits(0.0));
    let line = doc.add_line(first, second).unwrap();
    let names = names_from_history(&doc);
    assert_eq!(names, vec![("A".to_string(), second)]);
    assert_eq!(tool_name(&doc.get_tool(line).unwrap().kind), None);
    assert_eq!(tool_kind_variant_name(&doc.get_tool(line).unwrap().kind), "Line");
}

#[test]
fn measurements_source_prefers_the_script_path() {
    let mut s = script(vec![]);
    assert_eq!(s.measurements_source(Some("embedded.json".to_string())), Some("embedded.json".to_string()));
    s.measurements_path = Some("script.json".to_string());
    assert_eq!(s.measurements_source(Some("embedded.json".to_string())), Some("script.json".to_string()));
    assert_eq!(s.measurements_source(None), Some("script.json".to_string()));
}
