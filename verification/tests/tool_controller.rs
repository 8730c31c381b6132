use core_lib::document::ToolKind;
use core_lib::scalar::Real;
use core_lib::tool_controller::{ClickOutcome, PendingDialog, ToolController, ToolKindSelector, ToolMode};
use core_lib::ObjectId;

fn bits(v: f64) -> Real {
    Real::from_bits(v.to_bits())
}

fn pos(x: f64, y: f64) -> (Real, Real) {
    (bits(x), bits(y))
}

#[test]
fn line_ignores_a_click_that_hits_nothing() {
    let mut controller = ToolController::default();
    controller.select_tool(ToolKindSelector::Line);

    let outcome = controller.handle_click(pos(5.0, 5.0), None);
    assert_eq!(outcome, ClickOutcome::Ignored);
    assert_eq!(controller.current_mode(), &ToolMode::Line { first: None });
}

#[test]
fn line_two_valid_clicks_complete_in_correct_order() {
    let mut controller = ToolController::default();
    controller.select_tool(ToolKindSelector::Line);
    let p1 = ObjectId::from_raw(1);
    let p2 = ObjectId::from_raw(2);

    let first_outcome = controller.handle_click(pos(0.0, 0.0), Some(p1));
    assert_eq!(first_outcome, ClickOutcome::NeedMoreInput);
    assert_eq!(controller.current_mode(), &ToolMode::Line { first: Some(p1) });

    let second_outcome = controller.handle_click(pos(10.0, 0.0), Some(p2));
    assert_eq!(second_outcome, ClickOutcome::Complete(ToolKind::Line { p1, p2 }));
    assert_eq!(controller.current_mode(), &ToolMode::Line { first: None });
}

#[test]
fn end_line_one_click_opens_dialog_with_empty_fields() {
    let mut controller = ToolController::default();
    controller.select_tool(ToolKindSelector::EndLine);
    let base = ObjectId::from_raw(1);

    let outcome = controller.handle_click(pos(0.0, 0.0), Some(base));
    assert_eq!(
        outcome,
        ClickOutcome::OpenDialog(PendingDialog::EndLine {
            base,
            name: String::new(),
            angle_formula: String::new(),
            length_formula: String::new(),
        })
    );
    assert_eq!(controller.current_mode(), &ToolMode::EndLine { base: None });
}

#[test]
fn base_point_always_completes_with_the_clicked_position_regardless_of_hit_point() {
    let mut controller = ToolController::default();
    controller.select_tool(ToolKindSelector::BasePoint);
    let bogus_hit = ObjectId::from_raw(42);

    let outcome_with_hit = controller.handle_click(pos(3.0, 4.0), Some(bogus_hit));
    assert_eq!(
        outcome_with_hit,
        ClickOutcome::Complete(ToolKind::BasePoint { name: "P".to_string(), x: bits(3.0), y: bits(4.0) })
    );

    let outcome_without_hit = controller.handle_click(pos(7.0, 8.0), None);
    assert_eq!(
        outcome_without_hit,
        ClickOutcome::Complete(ToolKind::BasePoint { name: "P".to_string(), x: bits(7.0), y: bits(8.0) })
    );
}

#[test]
fn cancel_mid_line_resets_to_the_tools_own_empty_state_not_idle() {
    let mut controller = ToolController::default();
    controller.select_tool(ToolKindSelector::Line);
    let p1 = ObjectId::from_raw(1);
    controller.handle_click(pos(0.0, 0.0), Some(p1));

    controller.cancel();
    assert_eq!(controller.current_mode(), &ToolMode::Line { first: None });

    let p3 = ObjectId::from_raw(3);
    let p4 = ObjectId::from_raw(4);
    let first = controller.handle_click(pos(1.0, 1.0), Some(p3));
    assert_eq!(first, ClickOutcome::NeedMoreInput);
    let second = controller.handle_click(pos(2.0, 2.0), Some(p4));
    assert_eq!(second, ClickOutcome::Complete(ToolKind::Line { p1: p3, p2: p4 }));
}

#[test]
fn finish_dialog_rejects_empty_name() {
    let controller = ToolController::default();
    let dialog = PendingDialog::EndLine {
        base: ObjectId::from_raw(1),
        name: String::new(),
        angle_formula: "0".to_string(),
        length_formula: "10".to_string(),
    };
    let result = controller.finish_dialog(dialog);
    assert!(result.is_err());
    assert_eq!(result.unwrap_err(), "name must not be empty");
}

#[test]
fn finish_dialog_accepts_non_empty_name_without_validating_formulas() {
    let controller = ToolController::default();
    let base = ObjectId::from_raw(1);
    let dialog = PendingDialog::EndLine {
        base,
        name: "A1".to_string(),
        angle_formula: "not a real formula at all".to_string(),
        length_formula: "10".to_string(),
    };
    let kind = controller.finish_dialog(dialog).unwrap();
    assert_eq!(
        kind,
        ToolKind::EndLine {
            name: "A1".to_string(),
            base_point: base,
            angle_formula: "not a real formula at all".to_string(),
            length_formula: "10".to_string(),
        }
    );
}

#[test]
fn bisector_three_valid_clicks_open_dialog_with_empty_fields() {
    let mut controller = ToolController::default();
    controller.select_tool(ToolKindSelector::Bisector);
    let p1 = ObjectId::from_raw(1);
    let p2 = ObjectId::from_raw(2);
    let p3 = ObjectId::from_raw(3);

    let first = controller.handle_click(pos(0.0, 0.0), Some(p1));
    assert_eq!(first, ClickOutcome::NeedMoreInput);
    let second = controller.handle_click(pos(1.0, 1.0), Some(p2));
    assert_eq!(second, ClickOutcome::NeedMoreInput);

    let third = controller.handle_click(pos(2.0, 2.0), Some(p3));
    assert_eq!(
        third,
        ClickOutcome::OpenDialog(PendingDialog::Bisector {
            p1,
            p2,
            p3,
            name: String::new(),
            length_formula: String::new(),
        })
    );
    assert_eq!(controller.current_mode(), &ToolMode::Bisector { first: None, second: None });
}

#[test]
fn height_three_valid_clicks_complete_immediately_with_no_dialog() {
    let mut controller = ToolController::default();
    controller.select_tool(ToolKindSelector::Height);
    let point = ObjectId::from_raw(1);
    let line_p1 = ObjectId::from_raw(2);
    let line_p2 = ObjectId::from_raw(3);

    let first = controller.handle_click(pos(0.0, 0.0), Some(point));
    assert_eq!(first, ClickOutcome::NeedMoreInput);
    let second = controller.handle_click(pos(1.0, 1.0), Some(line_p1));
    assert_eq!(second, ClickOutcome::NeedMoreInput);

    let third = controller.handle_click(pos(2.0, 2.0), Some(line_p2));
    assert_eq!(
        third,
        ClickOutcome::Complete(ToolKind::Height { name: "H".to_string(), point, line_p1, line_p2 })
    );
    assert_eq!(controller.current_mode(), &ToolMode::Height { first: None, second: None });
}

#[test]
fn bisector_ignores_a_click_that_hits_nothing() {
    let mut controller = ToolController::default();
    controller.select_tool(ToolKindSelector::Bisector);

    let outcome = controller.handle_click(pos(5.0, 5.0), None);
    assert_eq!(outcome, ClickOutcome::Ignored);
    assert_eq!(controller.current_mode(), &ToolMode::Bisector { first: None, second: None });
}

#[test]
fn idle_controller_ignores_every_click() {
    let mut controller = ToolController::default();
    assert_eq!(controller.handle_click(pos(1.0, 1.0), Some(ObjectId::from_raw(1))), ClickOutcome::Ignored);
    controller.cancel();
    assert_eq!(controller.current_mode(), &ToolMode::Idle);
}

#[test]
fn midpoint_normal_and_along_line_sequences() {
    let (a, b) = (ObjectId::from_raw(1), ObjectId::from_raw(2));
    let mut controller = ToolController::default();
    controller.select_tool(ToolKindSelector::Midpoint);
    assert_eq!(controller.handle_click(pos(0.0, 0.0), Some(a)), ClickOutcome::NeedMoreInput);
    assert_eq!(
        controller.handle_click(pos(0.0, 0.0), Some(b)),
        ClickOutcome::Complete(ToolKind::Midpoint { name: "M".to_string(), p1: a, p2: b })
    );

    controller.select_tool(ToolKindSelector::Normal);
    controller.handle_click(pos(0.0, 0.0), Some(a));
    assert_eq!(
        controller.handle_click(pos(0.0, 0.0), Some(b)),
        ClickOutcome::OpenDialog(PendingDialog::Normal {
            p1: a,
            p2: b,
            name: String::new(),
            length_formula: String::new(),
            angle_formula: String::new(),
        })
    );

    controller.select_tool(ToolKindSelector::AlongLine);
    controller.handle_click(pos(0.0, 0.0), Some(a));
    controller.select_tool(ToolKindSelector::AlongLine);
    assert_eq!(controller.current_mode(), &ToolMode::AlongLine { first: None, second: None });
}

#[test]
fn finish_dialog_maps_every_dialog_kind() {
    let controller = ToolController::default();
    let (a, b, c) = (ObjectId::from_raw(1), ObjectId::from_raw(2), ObjectId::from_raw(3));
    assert_eq!(
        controller
            .finish_dialog(PendingDialog::Bisector {
                p1: a,
                p2: b,
                p3: c,
                name: "B".to_string(),
                length_formula: "5".to_string(),
            })
            .unwrap(),
        ToolKind::Bisector { name: "B".to_string(), p1: a, p2: b, p3: c, length_formula: "5".to_string() }
    );
    assert!(controller
        .finish_dialog(PendingDialog::Normal {
            p1: a,
            p2: b,
            name: String::new(),
            length_formula: "1".to_string(),
            angle_formula: "0".to_string(),
        })
        .is_err());
    assert_eq!(
        controller
            .finish_dialog(PendingDialog::AlongLine { p1: a, p2: b, name: "L".to_string(), length_formula: "x".to_string() })
            .unwrap(),
        ToolKind::AlongLine { name: "L".to_string(), p1: a, p2: b, length_formula: "x".to_string() }
    );
}
