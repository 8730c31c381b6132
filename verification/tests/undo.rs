use core_lib::document::{Document, ToolKind};
use core_lib::scalar::Real;
use core_lib::undo::{Edit, UndoStack};
use core_lib::variable::Variable;
use core_lib::ObjectId;

fn bits(v: f64) -> Real {
    Real::from_bits(v.to_bits())
}

#[test]
fn undo_all_then_redo_all_round_trips_through_empty_and_back() {
    let mut doc = Document::default();
    let mut stack = UndoStack::default();

    let a = stack.do_add_base_point(&mut doc, "A", bits(0.0), bits(0.0));
    let a1 = stack.do_add_end_line(&mut doc, "A1", a, "0", "10").unwrap();
    stack.do_add_line(&mut doc, a, a1).unwrap();
    stack
        .do_modify_formula(
            &mut doc,
            a1,
            ToolKind::EndLine {
                name: "A1".to_string(),
                base_point: a,
                angle_formula: "0".to_string(),
                length_formula: "20".to_string(),
            },
        )
        .unwrap();
    let b = stack.do_add_base_point(&mut doc, "B", bits(5.0), bits(5.0));
    stack.do_remove_tool(&mut doc, b).unwrap();

    let edit_count = stack.undo_len();
    assert_eq!(edit_count, 6);

    let after_edits = doc.clone();

    for _ in 0..edit_count {
        let undone = stack.undo(&mut doc).unwrap();
        assert!(undone);
    }
    assert_eq!(stack.undo_len(), 0);
    assert_eq!(doc.history().len(), 0);
    assert_eq!(doc.base_variables().len(), 0);

    for _ in 0..edit_count {
        let redone = stack.redo(&mut doc).unwrap();
        assert!(redone);
    }
    assert_eq!(stack.redo_len(), 0);
    assert_eq!(doc, after_edits);
}

#[test]
fn new_edit_after_undo_discards_the_stale_redo_entry() {
    let mut doc = Document::default();
    let mut stack = UndoStack::default();

    let _a = stack.do_add_base_point(&mut doc, "A", bits(0.0), bits(0.0));
    stack.do_add_base_point(&mut doc, "B", bits(1.0), bits(1.0));

    stack.undo(&mut doc).unwrap();
    assert_eq!(stack.redo_len(), 1);

    stack.do_add_base_point(&mut doc, "C", bits(2.0), bits(2.0));
    assert_eq!(stack.redo_len(), 0);

    let redone = stack.redo(&mut doc).unwrap();
    assert!(!redone);

    let names: Vec<String> = doc
        .history()
        .iter()
        .map(|record| match &record.kind {
            ToolKind::BasePoint { name, .. } => name.clone(),
            _ => unreachable!("this test only adds BasePoints"),
        })
        .collect();
    assert_eq!(names, vec!["A".to_string(), "C".to_string()]);
}

#[test]
fn undo_on_empty_stack_is_a_no_op() {
    let mut doc = Document::default();
    let mut stack = UndoStack::default();

    let undone = stack.undo(&mut doc).unwrap();
    assert!(!undone);
    assert_eq!(doc, Document::default());
}

#[test]
fn redo_on_empty_stack_is_a_no_op() {
    let mut doc = Document::default();
    let mut stack = UndoStack::default();

    let redone = stack.redo(&mut doc).unwrap();
    assert!(!redone);
    assert_eq!(doc, Document::default());
}

#[test]
fn failed_do_add_line_does_not_grow_the_undo_stack() {
    let mut doc = Document::default();
    let mut stack = UndoStack::default();

    let a = stack.do_add_base_point(&mut doc, "A", bits(0.0), bits(0.0));
    let bogus = ObjectId::new(9999);

    let len_before = stack.undo_len();
    let result = stack.do_add_line(&mut doc, a, bogus);
    let len_after = stack.undo_len();

    assert!(result.is_err());
    assert_eq!(len_before, len_after);
}

#[test]
fn undo_after_modify_formula_restores_prior_recompute_result() {
    let mut doc = Document::default();
    let mut stack = UndoStack::default();

    doc.set_variable("height_scapula", Variable::Measurement { value: bits(40.0) });
    let a = stack.do_add_base_point(&mut doc, "A", bits(0.0), bits(0.0));
    let a1 = stack.do_add_end_line(&mut doc, "A1", a, "0", "height_scapula/10").unwrap();

    let before = doc.clone();
    stack
        .do_modify_formula(
            &mut doc,
            a1,
            ToolKind::EndLine {
                name: "A1".to_string(),
                base_point: a,
                angle_formula: "0".to_string(),
                length_formula: "height_scapula/5".to_string(),
            },
        )
        .unwrap();
    assert_ne!(doc, before);

    let undone = stack.undo(&mut doc).unwrap();
    assert!(undone);
    assert_eq!(doc, before);
}

#[test]
fn undo_redo_along_line_matches_pre_and_post_add_recompute() {
    let mut doc = Document::default();
    let mut stack = UndoStack::default();

    let p1 = stack.do_add_base_point(&mut doc, "P1", bits(0.0), bits(0.0));
    let p2 = stack.do_add_base_point(&mut doc, "P2", bits(3.0), bits(4.0));
    let before_add = doc.history().to_vec();

    let along = stack.do_add_along_line(&mut doc, "AL", p1, p2, "10").unwrap();
    let after_add = doc.clone();
    assert!(doc.contains(along));

    assert!(stack.undo(&mut doc).unwrap());
    assert_eq!(doc.history(), before_add.as_slice());

    assert!(stack.redo(&mut doc).unwrap());
    assert_eq!(doc, after_add);
}

#[test]
fn undo_redo_midpoint_matches_pre_and_post_add_recompute() {
    let mut doc = Document::default();
    let mut stack = UndoStack::default();

    let p1 = stack.do_add_base_point(&mut doc, "P1", bits(1.0), bits(3.0));
    let p2 = stack.do_add_base_point(&mut doc, "P2", bits(7.0), bits(9.0));
    let before_add = doc.history().to_vec();

    let mid = stack.do_add_midpoint(&mut doc, "M", p1, p2).unwrap();
    let after_add = doc.clone();
    assert!(doc.contains(mid));

    assert!(stack.undo(&mut doc).unwrap());
    assert_eq!(doc.history(), before_add.as_slice());

    assert!(stack.redo(&mut doc).unwrap());
    assert_eq!(doc, after_add);
}

#[test]
fn undo_of_a_removal_puts_the_record_back_where_it_was() {
    let mut doc = Document::default();
    let mut stack = UndoStack::default();
    stack.do_add_base_point(&mut doc, "A", bits(0.0), bits(0.0));
    let b = stack.do_add_base_point(&mut doc, "B", bits(1.0), bits(0.0));
    stack.do_add_base_point(&mut doc, "C", bits(2.0), bits(0.0));
    let before = doc.clone();

    stack.do_remove_tool(&mut doc, b).unwrap();
    assert!(!doc.contains(b));
    stack.undo(&mut doc).unwrap();
    assert_eq!(doc, before);
    stack.redo(&mut doc).unwrap();
    assert!(!doc.contains(b));
    assert_eq!(doc.history().len(), 2);
}

#[test]
fn undoing_an_add_keeps_the_id_counter_advanced() {
    let mut doc = Document::default();
    let mut stack = UndoStack::default();
    let a = stack.do_add_base_point(&mut doc, "A", bits(0.0), bits(0.0));
    stack.undo(&mut doc).unwrap();
    assert!(!doc.contains(a));
    let b = doc.add_base_point("B", bits(0.0), bits(0.0));
    assert_ne!(a, b);
    assert!(b > a);
}

#[test]
fn a_refused_undo_reports_the_document_error_and_drops_the_edit() {
    let mut doc = Document::default();
    let mut stack = UndoStack::default();
    let a = stack.do_add_base_point(&mut doc, "A", bits(0.0), bits(0.0));
    // a tool added outside the stack now depends on A, so undoing A's addition is refused
    let user = doc.add_end_line("E", a, "0", "1").unwrap();
    let before = doc.clone();
    assert_eq!(
        stack.undo(&mut doc).unwrap_err(),
        core_lib::document::DocumentError::ToolInUse { id: a, used_by: user }
    );
    assert_eq!(doc, before);
    assert_eq!(stack.undo_len(), 0);
    assert_eq!(stack.redo_len(), 0);
}

#[test]
fn do_add_kind_commits_canvas_tools_and_ignores_others() {
    let mut doc = Document::default();
    let mut stack = UndoStack::default();
    stack.do_add_kind(&mut doc, ToolKind::BasePoint { name: "P".to_string(), x: bits(1.0), y: bits(2.0) }).unwrap();
    let p = doc.history()[0].id;
    stack.do_add_kind(&mut doc, ToolKind::Line { p1: p, p2: p }).unwrap();
    assert_eq!(doc.history().len(), 2);
    assert_eq!(stack.undo_len(), 2);

    let missing = ObjectId::new(99);
    assert!(stack.do_add_kind(&mut doc, ToolKind::Midpoint { name: "M".to_string(), p1: p, p2: missing }).is_err());
    assert_eq!(doc.history().len(), 2);

    stack
        .do_add_kind(
            &mut doc,
            ToolKind::Arc {
                name: "C".to_string(),
                center: p,
                radius_formula: "1".to_string(),
                start_angle_formula: "0".to_string(),
                end_angle_formula: "90".to_string(),
            },
        )
        .unwrap();
    assert_eq!(doc.history().len(), 2);
    assert_eq!(stack.undo_len(), 2);
}

#[test]
fn recorded_edits_carry_what_was_done() {
    let mut doc = Document::default();
    let mut stack = UndoStack::default();
    let a = stack.do_add_base_point(&mut doc, "A", bits(0.0), bits(0.0));
    let mut expected = UndoStack::default();
    expected.record(Edit::AddTool(doc.get_tool(a).unwrap().clone()));
    assert_eq!(stack, expected);
}

#[test]
fn redo_right_after_undo_restores_stack_and_document() {
    let mut doc = Document::default();
    let mut stack = UndoStack::default();

    let a = stack.do_add_base_point(&mut doc, "A", bits(0.0), bits(0.0));
    let b = stack.do_add_base_point(&mut doc, "B", bits(3.0), bits(4.0));
    let line = stack.do_add_line(&mut doc, a, b).unwrap();
    stack.do_remove_tool(&mut doc, line).unwrap();
    stack.undo(&mut doc).unwrap();
    stack.undo(&mut doc).unwrap();

    let doc_before = doc.clone();
    let stack_before = stack.clone();
    assert!(stack.undo(&mut doc).unwrap());
    assert_ne!(doc, doc_before);
    assert!(stack.redo(&mut doc).unwrap());
    assert_eq!(doc, doc_before);
    assert_eq!(stack, stack_before);
}
