//! The tool-selection state machine of the drafting canvas: which
//! construction tool is active, which of its point clicks have been
//! collected, and what each click asks the user interface to do.
use vstd::prelude::*;

use crate::document::{ToolKind, ToolKindView};
use crate::id::ObjectId;
use crate::scalar::Real;

verus! {

/// Which construction tool is selected and the clicks collected so far.
#[derive(Debug, Clone, Copy, PartialEq, Eq, Structural)]
pub enum ToolMode {
    /// No tool selected: clicks do nothing.
    Idle,
    /// One click anywhere places a literal point.
    BasePoint,
    /// Two clicks on existing points.
    Line { first: Option<ObjectId> },
    /// Two clicks on existing points.
    Midpoint { first: Option<ObjectId> },
    /// One click on an existing point, then a formula dialog.
    EndLine { base: Option<ObjectId> },
    /// Two clicks on existing points, then a formula dialog.
    AlongLine { first: Option<ObjectId>, second: Option<ObjectId> },
    /// Two clicks on existing points, then a formula dialog.
    Normal { first: Option<ObjectId>, second: Option<ObjectId> },
    /// Three clicks on existing points, then a formula dialog.
    Bisector { first: Option<ObjectId>, second: Option<ObjectId> },
    /// Three clicks on existing points; no dialog.
    Height { first: Option<ObjectId>, second: Option<ObjectId> },
}

/// A dialog collecting a name and formulas; the point ids are fixed when
/// it opens, the text fields are edited by the user.
#[derive(Debug, Clone, PartialEq)]
pub enum PendingDialog {
    EndLine { base: ObjectId, name: String, angle_formula: String, length_formula: String },
    AlongLine { p1: ObjectId, p2: ObjectId, name: String, length_formula: String },
    Normal {
        p1: ObjectId,
        p2: ObjectId,
        name: String,
        length_formula: String,
        angle_formula: String,
    },
    Bisector { p1: ObjectId, p2: ObjectId, p3: ObjectId, name: String, length_formula: String },
}

/// The mathematical content of a [`PendingDialog`].
pub enum PendingDialogView {
    EndLine {
        base: ObjectId,
        name: Seq<char>,
        angle_formula: Seq<char>,
        length_formula: Seq<char>,
    },
    AlongLine { p1: ObjectId, p2: ObjectId, name: Seq<char>, length_formula: Seq<char> },
    Normal {
        p1: ObjectId,
        p2: ObjectId,
        name: Seq<char>,
        length_formula: Seq<char>,
        angle_formula: Seq<char>,
    },
    Bisector {
        p1: ObjectId,
        p2: ObjectId,
        p3: ObjectId,
        name: Seq<char>,
        length_formula: Seq<char>,
    },
}

impl View for PendingDialog {
    type V = PendingDialogView;

    open spec fn view(&self) -> PendingDialogView {
        match self {
            PendingDialog::EndLine { base, name, angle_formula, length_formula } =>
                PendingDialogView::EndLine {
                base: *base,
                name: name@,
                angle_formula: angle_formula@,
                length_formula: length_formula@,
            },
            PendingDialog::AlongLine { p1, p2, name, length_formula } =>
                PendingDialogView::AlongLine {
                p1: *p1,
                p2: *p2,
                name: name@,
                length_formula: length_formula@,
            },
            PendingDialog::Normal { p1, p2, name, length_formula, angle_formula } =>
                PendingDialogView::Normal {
                p1: *p1,
                p2: *p2,
                name: name@,
                length_formula: length_formula@,
                angle_formula: angle_formula@,
            },
            PendingDialog::Bisector { p1, p2, p3, name, length_formula } =>
                PendingDialogView::Bisector {
                p1: *p1,
                p2: *p2,
                p3: *p3,
                name: name@,
                length_formula: length_formula@,
            },
        }
    }
}

/// What the user interface should do after one canvas click.
#[derive(Debug, Clone, PartialEq)]
pub enum ClickOutcome {
    /// Keep the tool and wait for more clicks.
    NeedMoreInput,
    /// Show this dialog; nothing is committed yet.
    OpenDialog(PendingDialog),
    /// Commit this tool to the document now.
    Complete(ToolKind),
    /// The click was not usable for the current tool.
    Ignored,
}

/// The mathematical content of a [`ClickOutcome`].
pub enum ClickOutcomeView {
    NeedMoreInput,
    OpenDialog(PendingDialogView),
    Complete(ToolKindView),
    Ignored,
}

impl View for ClickOutcome {
    type V = ClickOutcomeView;

    open spec fn view(&self) -> ClickOutcomeView {
        match self {
            ClickOutcome::NeedMoreInput => ClickOutcomeView::NeedMoreInput,
            ClickOutcome::OpenDialog(d) => ClickOutcomeView::OpenDialog(d@),
            ClickOutcome::Complete(k) => ClickOutcomeView::Complete(k@),
            ClickOutcome::Ignored => ClickOutcomeView::Ignored,
        }
    }
}

/// Which toolbar button was pressed.
#[derive(Debug, Clone, Copy, PartialEq, Eq, Structural)]
pub enum ToolKindSelector {
    BasePoint,
    Line,
    Midpoint,
    EndLine,
    AlongLine,
    Normal,
    Bisector,
    Height,
}

/// The empty starting state of the tool behind `tool`.
pub open spec fn selected_mode(tool: ToolKindSelector) -> ToolMode {
    match tool {
        ToolKindSelector::BasePoint => ToolMode::BasePoint,
        ToolKindSelector::Line => ToolMode::Line { first: None },
        ToolKindSelector::Midpoint => ToolMode::Midpoint { first: None },
        ToolKindSelector::EndLine => ToolMode::EndLine { base: None },
        ToolKindSelector::AlongLine => ToolMode::AlongLine { first: None, second: None },
        ToolKindSelector::Normal => ToolMode::Normal { first: None, second: None },
        ToolKindSelector::Bisector => ToolMode::Bisector { first: None, second: None },
        ToolKindSelector::Height => ToolMode::Height { first: None, second: None },
    }
}

/// The same tool with its collected clicks discarded (`Idle` stays `Idle`).
pub open spec fn reset_mode(m: ToolMode) -> ToolMode {
    match m {
        ToolMode::Idle => ToolMode::Idle,
        ToolMode::BasePoint => ToolMode::BasePoint,
        ToolMode::Line { .. } => ToolMode::Line { first: None },
        ToolMode::Midpoint { .. } => ToolMode::Midpoint { first: None },
        ToolMode::EndLine { .. } => ToolMode::EndLine { base: None },
        ToolMode::AlongLine { .. } => ToolMode::AlongLine { first: None, second: None },
        ToolMode::Normal { .. } => ToolMode::Normal { first: None, second: None },
        ToolMode::Bisector { .. } => ToolMode::Bisector { first: None, second: None },
        ToolMode::Height { .. } => ToolMode::Height { first: None, second: None },
    }
}

/// The next mode and the outcome of a click at `pos` that hit the point
/// `hit` (if any), in mode `m`. A tool that needs existing points ignores
/// a click that hit none and keeps its state; a completed sequence (a
/// committed tool or an opened dialog) leaves the tool selected and empty.
pub open spec fn click_step(m: ToolMode, pos: (Real, Real), hit: Option<ObjectId>) -> (
    ToolMode,
    ClickOutcomeView,
) {
    match m {
        ToolMode::Idle => (m, ClickOutcomeView::Ignored),
        ToolMode::BasePoint => (
            m,
            ClickOutcomeView::Complete(
                ToolKindView::BasePoint { name: seq!['P'], x: pos.0, y: pos.1 },
            ),
        ),
        _ => match hit {
            None => (m, ClickOutcomeView::Ignored),
            Some(h) => match m {
                ToolMode::Line { first: None } => (
                    ToolMode::Line { first: Some(h) },
                    ClickOutcomeView::NeedMoreInput,
                ),
                ToolMode::Line { first: Some(p1) } => (
                    reset_mode(m),
                    ClickOutcomeView::Complete(ToolKindView::Line { p1, p2: h }),
                ),
                ToolMode::Midpoint { first: None } => (
                    ToolMode::Midpoint { first: Some(h) },
                    ClickOutcomeView::NeedMoreInput,
                ),
                ToolMode::Midpoint { first: Some(p1) } => (
                    reset_mode(m),
                    ClickOutcomeView::Complete(
                        ToolKindView::Midpoint { name: seq!['M'], p1, p2: h },
                    ),
                ),
                ToolMode::EndLine { .. } => (
                    reset_mode(m),
                    ClickOutcomeView::OpenDialog(
                        PendingDialogView::EndLine {
                            base: h,
                            name: Seq::empty(),
                            angle_formula: Seq::empty(),
                            length_formula: Seq::empty(),
                        },
                    ),
                ),
                ToolMode::AlongLine { first: None, .. } => (
                    ToolMode::AlongLine { first: Some(h), second: None },
                    ClickOutcomeView::NeedMoreInput,
                ),
                ToolMode::AlongLine { first: Some(p1), .. } => (
                    reset_mode(m),
                    ClickOutcomeView::OpenDialog(
                        PendingDialogView::AlongLine {
                            p1,
                            p2: h,
                            name: Seq::empty(),
                            length_formula: Seq::empty(),
                        },
                    ),
                ),
                ToolMode::Normal { first: None, .. } => (
                    ToolMode::Normal { first: Some(h), second: None },
                    ClickOutcomeView::NeedMoreInput,
                ),
                ToolMode::Normal { first: Some(p1), .. } => (
                    reset_mode(m),
                    ClickOutcomeView::OpenDialog(
                        PendingDialogView::Normal {
                            p1,
                            p2: h,
                            name: Seq::empty(),
                            length_formula: Seq::empty(),
                            angle_formula: Seq::empty(),
                        },
                    ),
                ),
                ToolMode::Bisector { first: None, .. } => (
                    ToolMode::Bisector { first: Some(h), second: None },
                    ClickOutcomeView::NeedMoreInput,
                ),
                ToolMode::Bisector { first: Some(p1), second: None } => (
                    ToolMode::Bisector { first: Some(p1), second: Some(h) },
                    ClickOutcomeView::NeedMoreInput,
                ),
                ToolMode::Bisector { first: Some(p1), second: Some(p2) } => (
                    reset_mode(m),
                    ClickOutcomeView::OpenDialog(
                        PendingDialogView::Bisector {
                            p1,
                            p2,
                            p3: h,
                            name: Seq::empty(),
                            length_formula: Seq::empty(),
                        },
                    ),
                ),
                ToolMode::Height { first: None, .. } => (
                    ToolMode::Height { first: Some(h), second: None },
                    ClickOutcomeView::NeedMoreInput,
                ),
                ToolMode::Height { first: Some(point), second: None } => (
                    ToolMode::Height { first: Some(point), second: Some(h) },
                    ClickOutcomeView::NeedMoreInput,
                ),
                ToolMode::Height { first: Some(point), second: Some(line_p1) } => (
                    reset_mode(m),
                    ClickOutcomeView::Complete(
                        ToolKindView::Height { name: seq!['H'], point, line_p1, line_p2: h },
                    ),
                ),
                _ => (m, ClickOutcomeView::Ignored),
            },
        },
    }
}

/// The message a dialog with an empty name is refused with.
pub open spec fn empty_name_message() -> Seq<char> {
    "name must not be empty"@
}

/// The tool a confirmed dialog describes, or the refusal when its name is
/// empty. Formulas are carried over as typed, without being checked.
pub open spec fn dialog_result(d: PendingDialogView) -> Result<ToolKindView, Seq<char>> {
    match d {
        PendingDialogView::EndLine { base, name, angle_formula, length_formula } => if name.len()
            == 0 {
            Err(empty_name_message())
        } else {
            Ok(ToolKindView::EndLine { name, base_point: base, angle_formula, length_formula })
        },
        PendingDialogView::AlongLine { p1, p2, name, length_formula } => if name.len() == 0 {
            Err(empty_name_message())
        } else {
            Ok(ToolKindView::AlongLine { name, p1, p2, length_formula })
        },
        PendingDialogView::Normal { p1, p2, name, length_formula, angle_formula } => if name.len()
            == 0 {
            Err(empty_name_message())
        } else {
            Ok(ToolKindView::Normal { name, p1, p2, length_formula, angle_formula })
        },
        PendingDialogView::Bisector { p1, p2, p3, name, length_formula } => if name.len() == 0 {
            Err(empty_name_message())
        } else {
            Ok(ToolKindView::Bisector { name, p1, p2, p3, length_formula })
        },
    }
}

/// The tool-selection state machine.
#[derive(Debug, Clone)]
pub struct ToolController {
    mode: ToolMode,
}

impl View for ToolController {
    type V = ToolMode;

    closed spec fn view(&self) -> ToolMode {
        self.mode
    }
}

impl Default for ToolController {
    /// No tool selected.
    fn default() -> (r: ToolController)
        ensures
            r@ == ToolMode::Idle,
    {
        ToolController { mode: ToolMode::Idle }
    }
}

/// A one-letter owned string.
fn letter(c: &str) -> (r: String)
    ensures
        r@ == c@,
{
    c.to_string()
}

impl ToolController {
    /// Selects `tool` in its empty starting state, discarding whatever was
    /// in progress.
    pub fn select_tool(&mut self, tool: ToolKindSelector)
        ensures
            final(self)@ == selected_mode(tool),
    {
        self.mode = match tool {
            ToolKindSelector::BasePoint => ToolMode::BasePoint,
            ToolKindSelector::Line => ToolMode::Line { first: None },
            ToolKindSelector::Midpoint => ToolMode::Midpoint { first: None },
            ToolKindSelector::EndLine => ToolMode::EndLine { base: None },
            ToolKindSelector::AlongLine => ToolMode::AlongLine { first: None, second: None },
            ToolKindSelector::Normal => ToolMode::Normal { first: None, second: None },
            ToolKindSelector::Bisector => ToolMode::Bisector { first: None, second: None },
            ToolKindSelector::Height => ToolMode::Height { first: None, second: None },
        };
    }

    /// Discards the clicks collected so far but keeps the tool selected,
    /// so a fresh sequence can start at once.
    pub fn cancel(&mut self)
        ensures
            final(self)@ == reset_mode(old(self)@),
    {
        self.mode = match self.mode {
            ToolMode::Idle => ToolMode::Idle,
            ToolMode::BasePoint => ToolMode::BasePoint,
            ToolMode::Line { .. } => ToolMode::Line { first: None },
            ToolMode::Midpoint { .. } => ToolMode::Midpoint { first: None },
            ToolMode::EndLine { .. } => ToolMode::EndLine { base: None },
            ToolMode::AlongLine { .. } => ToolMode::AlongLine { first: None, second: None },
            ToolMode::Normal { .. } => ToolMode::Normal { first: None, second: None },
            ToolMode::Bisector { .. } => ToolMode::Bisector { first: None, second: None },
            ToolMode::Height { .. } => ToolMode::Height { first: None, second: None },
        };
    }

    /// The current tool and click progress.
    pub fn current_mode(&self) -> (r: &ToolMode)
        ensures
            *r == self@,
    {
        &self.mode
    }

    /// Interprets one canvas click at `pattern_pos` (pattern space) that
    /// hit the existing point `hit_point`, if any.
    pub fn handle_click(&mut self, pattern_pos: (Real, Real), hit_point: Option<ObjectId>) -> (r:
        ClickOutcome)
        ensures
            (final(self)@, r@) == click_step(old(self)@, pattern_pos, hit_point),
    {
        proof {
            reveal_strlit("P");
            reveal_strlit("M");
            reveal_strlit("H");
            assert("P"@ =~= seq!['P']);
            assert("M"@ =~= seq!['M']);
            assert("H"@ =~= seq!['H']);
        }
        let mode = self.mode;
        match mode {
            ToolMode::Idle => ClickOutcome::Ignored,
            ToolMode::BasePoint => ClickOutcome::Complete(
                ToolKind::BasePoint { name: letter("P"), x: pattern_pos.0, y: pattern_pos.1 },
            ),
            _ => {
                let hit = match hit_point {
                    Some(h) => h,
                    None => {
                        return ClickOutcome::Ignored;
                    },
                };
                match mode {
                    ToolMode::Line { first: None } => {
                        self.mode = ToolMode::Line { first: Some(hit) };
                        ClickOutcome::NeedMoreInput
                    },
                    ToolMode::Line { first: Some(p1) } => {
                        self.mode = ToolMode::Line { first: None };
                        ClickOutcome::Complete(ToolKind::Line { p1, p2: hit })
                    },
                    ToolMode::Midpoint { first: None } => {
                        self.mode = ToolMode::Midpoint { first: Some(hit) };
                        ClickOutcome::NeedMoreInput
                    },
                    ToolMode::Midpoint { first: Some(p1) } => {
                        self.mode = ToolMode::Midpoint { first: None };
                        ClickOutcome::Complete(ToolKind::Midpoint { name: letter("M"), p1, p2: hit })
                    },
                    ToolMode::EndLine { .. } => {
                        self.mode = ToolMode::EndLine { base: None };
                        ClickOutcome::OpenDialog(
                            PendingDialog::EndLine {
                                base: hit,
                                name: String::new(),
                                angle_formula: String::new(),
                                length_formula: String::new(),
                            },
                        )
                    },
                    ToolMode::AlongLine { first: None, .. } => {
                        self.mode = ToolMode::AlongLine { first: Some(hit), second: None };
                        ClickOutcome::NeedMoreInput
                    },
                    ToolMode::AlongLine { first: Some(p1), .. } => {
                        self.mode = ToolMode::AlongLine { first: None, second: None };
                        ClickOutcome::OpenDialog(
                            PendingDialog::AlongLine {
                                p1,
                                p2: hit,
                                name: String::new(),
                                length_formula: String::new(),
                            },
                        )
                    },
                    ToolMode::Normal { first: None, .. } => {
                        self.mode = ToolMode::Normal { first: Some(hit), second: None };
                        ClickOutcome::NeedMoreInput
                    },
                    ToolMode::Normal { first: Some(p1), .. } => {
                        self.mode = ToolMode::Normal { first: None, second: None };
                        ClickOutcome::OpenDialog(
                            PendingDialog::Normal {
                                p1,
                                p2: hit,
                                name: String::new(),
                                length_formula: String::new(),
                                angle_formula: String::new(),
                            },
                        )
                    },
                    ToolMode::Bisector { first: None, .. } => {
                        self.mode = ToolMode::Bisector { first: Some(hit), second: None };
                        ClickOutcome::NeedMoreInput
                    },
                    ToolMode::Bisector { first: Some(p1), second: None } => {
                        self.mode = ToolMode::Bisector { first: Some(p1), second: Some(hit) };
                        ClickOutcome::NeedMoreInput
                    },
                    ToolMode::Bisector { first: Some(p1), second: Some(p2) } => {
                        self.mode = ToolMode::Bisector { first: None, second: None };
                        ClickOutcome::OpenDialog(
                            PendingDialog::Bisector {
                                p1,
                                p2,
                                p3: hit,
                                name: String::new(),
                                length_formula: String::new(),
                            },
                        )
                    },
                    ToolMode::Height { first: None, .. } => {
                        self.mode = ToolMode::Height { first: Some(hit), second: None };
                        ClickOutcome::NeedMoreInput
                    },
                    ToolMode::Height { first: Some(point), second: None } => {
                        self.mode = ToolMode::Height { first: Some(point), second: Some(hit) };
                        ClickOutcome::NeedMoreInput
                    },
                    ToolMode::Height { first: Some(point), second: Some(line_p1) } => {
                        self.mode = ToolMode::Height { first: None, second: None };
                        ClickOutcome::Complete(
                            ToolKind::Height { name: letter("H"), point, line_p1, line_p2: hit },
                        )
                    },
                    _ => ClickOutcome::Ignored,
                }
            },
        }
    }

    /// Turns a confirmed dialog into the tool it describes. Only the name
    /// is checked (it must not be empty); formulas are passed through
    /// unchecked.
    pub fn finish_dialog(&self, dialog: PendingDialog) -> (r: Result<ToolKind, String>)
        ensures
            match dialog_result(dialog@) {
                Ok(k) => r matches Ok(kind) && kind@ == k,
                Err(m) => r matches Err(s) && s@ == m,
            },
    {
        let message = "name must not be empty";
        match dialog {
            PendingDialog::EndLine { base, name, angle_formula, length_formula } => {
                if name.as_str().is_empty() {
                    return Err(message.to_string());
                }
                Ok(ToolKind::EndLine { name, base_point: base, angle_formula, length_formula })
            },
            PendingDialog::AlongLine { p1, p2, name, length_formula } => {
                if name.as_str().is_empty() {
                    return Err(message.to_string());
                }
                Ok(ToolKind::AlongLine { name, p1, p2, length_formula })
            },
            PendingDialog::Normal { p1, p2, name, length_formula, angle_formula } => {
                if name.as_str().is_empty() {
                    return Err(message.to_string());
                }
                Ok(ToolKind::Normal { name, p1, p2, length_formula, angle_formula })
            },
            PendingDialog::Bisector { p1, p2, p3, name, length_formula } => {
                if name.as_str().is_empty() {
                    return Err(message.to_string());
                }
                Ok(ToolKind::Bisector { name, p1, p2, p3, length_formula })
            },
        }
    }
}


/// How many clicks finish the tool `t`: clicks on existing points, except
/// for a base point, which takes one click anywhere.
pub open spec fn clicks_needed(t: ToolKindSelector) -> nat {
    match t {
        ToolKindSelector::BasePoint => 1,
        ToolKindSelector::Line => 2,
        ToolKindSelector::Midpoint => 2,
        ToolKindSelector::EndLine => 1,
        ToolKindSelector::AlongLine => 2,
        ToolKindSelector::Normal => 2,
        ToolKindSelector::Bisector => 3,
        ToolKindSelector::Height => 3,
    }
}

/// The state of tool `t` once it has collected the points `hs` (fewer
/// than it needs), in click order.
pub open spec fn collecting_mode(t: ToolKindSelector, hs: Seq<ObjectId>) -> ToolMode {
    if hs.len() == 0 {
        selected_mode(t)
    } else {
        match t {
            ToolKindSelector::Line => ToolMode::Line { first: Some(hs[0]) },
            ToolKindSelector::Midpoint => ToolMode::Midpoint { first: Some(hs[0]) },
            ToolKindSelector::AlongLine => ToolMode::AlongLine { first: Some(hs[0]), second: None },
            ToolKindSelector::Normal => ToolMode::Normal { first: Some(hs[0]), second: None },
            ToolKindSelector::Bisector => ToolMode::Bisector {
                first: Some(hs[0]),
                second: if hs.len() >= 2 {
                    Some(hs[1])
                } else {
                    None
                },
            },
            ToolKindSelector::Height => ToolMode::Height {
                first: Some(hs[0]),
                second: if hs.len() >= 2 {
                    Some(hs[1])
                } else {
                    None
                },
            },
            _ => selected_mode(t),
        }
    }
}

/// What the click at `pos` that finishes tool `t` asks for, given every
/// point `hs` the tool collected, in click order: the committed tool, or
/// the dialog that finishes it.
pub open spec fn finishing_outcome(t: ToolKindSelector, pos: (Real, Real), hs: Seq<ObjectId>) -> ClickOutcomeView {
    match t {
        ToolKindSelector::BasePoint => ClickOutcomeView::Complete(
            ToolKindView::BasePoint { name: seq!['P'], x: pos.0, y: pos.1 },
        ),
        ToolKindSelector::Line => ClickOutcomeView::Complete(ToolKindView::Line { p1: hs[0], p2: hs[1] }),
        ToolKindSelector::Midpoint => ClickOutcomeView::Complete(
            ToolKindView::Midpoint { name: seq!['M'], p1: hs[0], p2: hs[1] },
        ),
        ToolKindSelector::EndLine => ClickOutcomeView::OpenDialog(
            PendingDialogView::EndLine {
                base: hs[0],
                name: Seq::empty(),
                angle_formula: Seq::empty(),
                length_formula: Seq::empty(),
            },
        ),
        ToolKindSelector::AlongLine => ClickOutcomeView::OpenDialog(
            PendingDialogView::AlongLine {
                p1: hs[0],
                p2: hs[1],
                name: Seq::empty(),
                length_formula: Seq::empty(),
            },
        ),
        ToolKindSelector::Normal => ClickOutcomeView::OpenDialog(
            PendingDialogView::Normal {
                p1: hs[0],
                p2: hs[1],
                name: Seq::empty(),
                length_formula: Seq::empty(),
                angle_formula: Seq::empty(),
            },
        ),
        ToolKindSelector::Bisector => ClickOutcomeView::OpenDialog(
            PendingDialogView::Bisector {
                p1: hs[0],
                p2: hs[1],
                p3: hs[2],
                name: Seq::empty(),
                length_formula: Seq::empty(),
            },
        ),
        ToolKindSelector::Height => ClickOutcomeView::Complete(
            ToolKindView::Height { name: seq!['H'], point: hs[0], line_p1: hs[1], line_p2: hs[2] },
        ),
    }
}

/// The points hit by a sequence of clicks.
pub open spec fn hits_of(cs: Seq<((Real, Real), ObjectId)>) -> Seq<ObjectId> {
    cs.map_values(|c: ((Real, Real), ObjectId)| c.1)
}

/// The state and the outcomes, in order, of the clicks `cs` (each at a
/// position, on an existing point) made from the state `m`.
pub open spec fn run_clicks(m: ToolMode, cs: Seq<((Real, Real), ObjectId)>) -> (ToolMode, Seq<ClickOutcomeView>)
    decreases cs.len(),
{
    if cs.len() == 0 {
        (m, Seq::empty())
    } else {
        let (m1, outs) = run_clicks(m, cs.drop_last());
        let (m2, o) = click_step(m1, cs.last().0, Some(cs.last().1));
        (m2, outs.push(o))
    }
}

/// The outcome of the click at index `i` of `cs` made after selecting
/// `t`: every `clicks_needed(t)`-th click finishes the tool with the
/// points of the clicks since the last finish; the others ask for more.
pub open spec fn expected_outcome(t: ToolKindSelector, cs: Seq<((Real, Real), ObjectId)>, i: int) -> ClickOutcomeView {
    let n = clicks_needed(t) as int;
    if (i + 1) % n == 0 {
        finishing_outcome(t, cs[i].0, hits_of(cs).subrange(i + 1 - n, i + 1))
    } else {
        ClickOutcomeView::NeedMoreInput
    }
}

/// One click on a point while tool `t` is collecting.
proof fn lemma_collect_step(t: ToolKindSelector, hs: Seq<ObjectId>, pos: (Real, Real), h: ObjectId)
    requires
        hs.len() < clicks_needed(t),
    ensures
        click_step(collecting_mode(t, hs), pos, Some(h)) == if hs.len() + 1 == clicks_needed(t) {
            (selected_mode(t), finishing_outcome(t, pos, hs.push(h)))
        } else {
            (collecting_mode(t, hs.push(h)), ClickOutcomeView::NeedMoreInput)
        },
{
    let g = hs.push(h);
    assert(g[hs.len() as int] == h);
    if hs.len() > 0 {
        assert(g[0] == hs[0]);
    }
    if hs.len() > 1 {
        assert(g[1] == hs[1]);
    }
}

proof fn lemma_mod_step(k: int, n: int)
    requires
        1 <= n <= 3,
        k >= 1,
    ensures
        0 <= (k - 1) % n < n,
        ((k - 1) % n + 1 == n) == (k % n == 0),
        k % n != 0 ==> k % n == (k - 1) % n + 1,
{
    assert(0 <= (k - 1) % n < n && ((k - 1) % n + 1 == n) == (k % n == 0) && (k % n != 0 ==> k % n
        == (k - 1) % n + 1)) by (nonlinear_arith)
        requires
            1 <= n <= 3,
            k >= 1,
    {
        let q = (k - 1) / n;
        let r = (k - 1) % n;
        assert(k - 1 == q * n + r && 0 <= r < n);
        if r + 1 == n {
            assert(k == (q + 1) * n);
            assert(k % n == 0);
        } else {
            assert(k == q * n + (r + 1) && 0 <= r + 1 < n);
            assert(k % n == r + 1);
        }
    }
}

/// Clicking through a tool: after selecting `t`, a sequence of clicks on
/// existing points produces, click by click, what `expected_outcome`
/// says (every `clicks_needed(t)`-th click commits the tool or opens its
/// dialog with the points in click order, the others ask for more), the
/// tool stays selected throughout, and it ends holding the points of the
/// clicks since the last finish.
pub proof fn law_click_sequence(t: ToolKindSelector, cs: Seq<((Real, Real), ObjectId)>)
    ensures
        run_clicks(selected_mode(t), cs).1.len() == cs.len(),
        forall|i: int|
            0 <= i < cs.len() ==> #[trigger] run_clicks(selected_mode(t), cs).1[i]
                == expected_outcome(t, cs, i),
        run_clicks(selected_mode(t), cs).0 == collecting_mode(
            t,
            hits_of(cs).subrange(cs.len() - (cs.len() as int) % (clicks_needed(t) as int), cs.len() as int),
        ),
    decreases cs.len(),
{
    let n = clicks_needed(t) as int;
    let k = cs.len() as int;
    if k == 0 {
        assert(hits_of(cs).subrange(0, 0) =~= Seq::<ObjectId>::empty());
    } else {
        let p = cs.drop_last();
        law_click_sequence(t, p);
        lemma_mod_step(k, n);
        let (m1, outs) = run_clicks(selected_mode(t), p);
        let r = (k - 1) % n;
        let hs = hits_of(p).subrange(k - 1 - r, k - 1);
        let h = cs.last().1;
        let pos = cs.last().0;
        lemma_collect_step(t, hs, pos, h);
        assert(hits_of(p) =~= hits_of(cs).drop_last());
        assert(hs.push(h) =~= hits_of(cs).subrange(k - 1 - r, k));
        if r + 1 == n {
            assert(hits_of(cs).subrange(k, k) =~= Seq::<ObjectId>::empty());
        }
        let outs2 = run_clicks(selected_mode(t), cs).1;
        assert forall|i: int| 0 <= i < k implies #[trigger] outs2[i] == expected_outcome(t, cs, i) by {
            if i < k - 1 {
                assert(outs2[i] == outs[i]);
                assert(outs[i] == expected_outcome(t, p, i));
                assert(cs[i] == p[i]);
                if (i + 1) % n == 0 {
                    assert(hits_of(p).subrange(i + 1 - n, i + 1) =~= hits_of(cs).subrange(i + 1 - n, i + 1));
                }
            }
        }
    }
}


/// A confirmed dialog carries every field into the tool it builds: with a
/// non-empty name the tool is the dialog's kind, with the dialog's points
/// and each formula in the field of the same name (an angle stays the
/// angle, a length stays the length); with an empty name it is refused.
pub proof fn law_dialog_fields_carry_over(d: PendingDialogView)
    ensures
        match d {
            PendingDialogView::EndLine { base, name, angle_formula, length_formula } => if name.len()
                == 0 {
                dialog_result(d) is Err
            } else {
                dialog_result(d) matches Ok(k) && k is EndLine && k->EndLine_name == name
                    && k->EndLine_base_point == base && k->EndLine_angle_formula == angle_formula
                    && k->EndLine_length_formula == length_formula
            },
            PendingDialogView::AlongLine { p1, p2, name, length_formula } => if name.len() == 0 {
                dialog_result(d) is Err
            } else {
                dialog_result(d) matches Ok(k) && k is AlongLine && k->AlongLine_name == name
                    && k->AlongLine_p1 == p1 && k->AlongLine_p2 == p2 && k->AlongLine_length_formula
                    == length_formula
            },
            PendingDialogView::Normal { p1, p2, name, length_formula, angle_formula } => if name.len()
                == 0 {
                dialog_result(d) is Err
            } else {
                dialog_result(d) matches Ok(k) && k is Normal && k->Normal_name == name && k->Normal_p1
                    == p1 && k->Normal_p2 == p2 && k->Normal_length_formula == length_formula
                    && k->Normal_angle_formula == angle_formula
            },
            PendingDialogView::Bisector { p1, p2, p3, name, length_formula } => if name.len() == 0 {
                dialog_result(d) is Err
            } else {
                dialog_result(d) matches Ok(k) && k is Bisector && k->Bisector_name == name
                    && k->Bisector_p1 == p1 && k->Bisector_p2 == p2 && k->Bisector_p3 == p3
                    && k->Bisector_length_formula == length_formula
            },
        },
{
}

} // verus!
