use vstd::prelude::*;

use crate::scalar::Real;
use crate::text::str_equals;

verus! {

/// A named value a formula may reference: a measurement, a user-defined
/// custom variable, or a length/angle/radius derived from geometry.
#[derive(Debug, Clone, PartialEq)]
pub enum Variable {
    /// A value read from a measurement file.
    Measurement { value: Real },
    /// A user formula with its last evaluated value.
    Custom { formula: String, cached_value: Real },
    /// The length of a line object.
    LineLength { value: Real },
    /// The angle of a line object.
    LineAngle { value: Real },
    /// The length of a curve.
    CurveLength { value: Real },
    /// The radius of an arc.
    ArcRadius { value: Real },
}

/// The variant of a [`Variable`], without its payload.
#[derive(Debug, Clone, Copy, PartialEq, Eq, Structural)]
pub enum VariableKind {
    Measurement,
    Custom,
    LineLength,
    LineAngle,
    CurveLength,
    ArcRadius,
}

/// The mathematical content of a [`Variable`].
pub enum VariableView {
    Measurement { value: Real },
    Custom { formula: Seq<char>, cached_value: Real },
    LineLength { value: Real },
    LineAngle { value: Real },
    CurveLength { value: Real },
    ArcRadius { value: Real },
}

impl View for Variable {
    type V = VariableView;

    open spec fn view(&self) -> VariableView {
        match self {
            Variable::Measurement { value } => VariableView::Measurement { value: *value },
            Variable::Custom { formula, cached_value } => VariableView::Custom {
                formula: formula@,
                cached_value: *cached_value,
            },
            Variable::LineLength { value } => VariableView::LineLength { value: *value },
            Variable::LineAngle { value } => VariableView::LineAngle { value: *value },
            Variable::CurveLength { value } => VariableView::CurveLength { value: *value },
            Variable::ArcRadius { value } => VariableView::ArcRadius { value: *value },
        }
    }
}

/// The kind of a variable's view.
pub open spec fn kind_of(v: VariableView) -> VariableKind {
    match v {
        VariableView::Measurement { .. } => VariableKind::Measurement,
        VariableView::Custom { .. } => VariableKind::Custom,
        VariableView::LineLength { .. } => VariableKind::LineLength,
        VariableView::LineAngle { .. } => VariableKind::LineAngle,
        VariableView::CurveLength { .. } => VariableKind::CurveLength,
        VariableView::ArcRadius { .. } => VariableKind::ArcRadius,
    }
}

impl Variable {
    /// Which [`VariableKind`] this variable belongs to.
    pub fn kind(&self) -> (r: VariableKind)
        ensures
            r == kind_of(self@),
    {
        match self {
            Variable::Measurement { .. } => VariableKind::Measurement,
            Variable::Custom { .. } => VariableKind::Custom,
            Variable::LineLength { .. } => VariableKind::LineLength,
            Variable::LineAngle { .. } => VariableKind::LineAngle,
            Variable::CurveLength { .. } => VariableKind::CurveLength,
            Variable::ArcRadius { .. } => VariableKind::ArcRadius,
        }
    }

    /// A copy with the same content.
    pub fn duplicate(&self) -> (r: Variable)
        ensures
            r@ == self@,
    {
        match self {
            Variable::Measurement { value } => Variable::Measurement { value: *value },
            Variable::Custom { formula, cached_value } => Variable::Custom {
                formula: formula.clone(),
                cached_value: *cached_value,
            },
            Variable::LineLength { value } => Variable::LineLength { value: *value },
            Variable::LineAngle { value } => Variable::LineAngle { value: *value },
            Variable::CurveLength { value } => Variable::CurveLength { value: *value },
            Variable::ArcRadius { value } => Variable::ArcRadius { value: *value },
        }
    }
}

// ---------------------------------------------------------------------------
// Name -> variable tables, shared by `PatternData` and `Document`.
// A table is a sequence of (name, variable) entries with distinct names.
// ---------------------------------------------------------------------------

/// The views of a table's entries.
pub open spec fn table_view(t: Seq<(String, Variable)>) -> Seq<(Seq<char>, VariableView)> {
    t.map_values(|e: (String, Variable)| (e.0@, e.1@))
}

/// No two entries share a name.
pub open spec fn names_distinct(t: Seq<(Seq<char>, VariableView)>) -> bool {
    forall|i: int, j: int| 0 <= i < t.len() && 0 <= j < t.len() && i != j ==> t[i].0 != t[j].0
}

/// Whether some entry is named `name`.
pub open spec fn has_name(t: Seq<(Seq<char>, VariableView)>, name: Seq<char>) -> bool {
    exists|i: int| 0 <= i < t.len() && t[i].0 == name
}

/// The index of the entry named `name` (meaningful when `has_name`).
pub open spec fn name_index(t: Seq<(Seq<char>, VariableView)>, name: Seq<char>) -> int {
    choose|i: int| 0 <= i < t.len() && t[i].0 == name
}

/// The variable stored under `name`, if any.
pub open spec fn lookup_name(t: Seq<(Seq<char>, VariableView)>, name: Seq<char>) -> Option<VariableView> {
    if has_name(t, name) {
        Some(t[name_index(t, name)].1)
    } else {
        None
    }
}

/// The table after storing `v` under `name`: the existing entry of that
/// name is overwritten in place, otherwise a new entry is appended.
pub open spec fn table_set(t: Seq<(Seq<char>, VariableView)>, name: Seq<char>, v: VariableView) -> Seq<(Seq<char>, VariableView)> {
    if has_name(t, name) {
        t.update(name_index(t, name), (name, v))
    } else {
        t.push((name, v))
    }
}

/// The table without the entries of kind `kind`, order kept.
pub open spec fn table_without_kind(t: Seq<(Seq<char>, VariableView)>, kind: VariableKind) -> Seq<(Seq<char>, VariableView)> {
    t.filter(|e: (Seq<char>, VariableView)| kind_of(e.1) != kind)
}

/// Finds the entry named `name`.
pub fn table_find(t: &Vec<(String, Variable)>, name: &str) -> (r: Option<usize>)
    ensures
        match r {
            Some(i) => i < t@.len() && t@[i as int].0@ == name@,
            None => !has_name(table_view(t@), name@),
        },
{
    let mut i: usize = 0;
    while i < t.len()
        invariant
            i <= t@.len(),
            forall|j: int| 0 <= j < i ==> t@[j].0@ != name@,
        decreases t@.len() - i,
    {
        if str_equals(t[i].0.as_str(), name) {
            return Some(i);
        }
        i = i + 1;
    }
    assert forall|j: int| 0 <= j < table_view(t@).len() implies table_view(t@)[j].0 != name@ by {
        assert(table_view(t@)[j] == (t@[j].0@, t@[j].1@));
    }
    None
}

proof fn lemma_index_unique(t: Seq<(Seq<char>, VariableView)>, name: Seq<char>, i: int)
    requires
        names_distinct(t),
        0 <= i < t.len(),
        t[i].0 == name,
    ensures
        has_name(t, name),
        name_index(t, name) == i,
{
    assert(has_name(t, name));
    let k = name_index(t, name);
    assert(t[k].0 == name);
}

/// Stores `var` under `name`, overwriting an entry of the same name.
pub fn table_insert(t: &mut Vec<(String, Variable)>, name: &str, var: Variable)
    requires
        names_distinct(table_view(old(t)@)),
    ensures
        table_view(final(t)@) == table_set(table_view(old(t)@), name@, var@),
        names_distinct(table_view(final(t)@)),
{
    let ghost tv = table_view(t@);
    match table_find(t, name) {
        Some(i) => {
            proof {
                assert(tv[i as int] == (t@[i as int].0@, t@[i as int].1@));
                lemma_index_unique(tv, name@, i as int);
            }
            let entry = (t[i].0.clone(), var);
            t.set(i, entry);
            proof {
                assert(table_view(t@) =~= tv.update(i as int, (name@, var@)));
            }
        },
        None => {
            t.push((name.to_string(), var));
            proof {
                assert(table_view(t@) =~= tv.push((name@, var@)));
                assert forall|a: int, b: int|
                    0 <= a < table_view(t@).len() && 0 <= b < table_view(t@).len() && a != b
                        implies table_view(t@)[a].0 != table_view(t@)[b].0 by {
                    if a < tv.len() && b < tv.len() {
                    } else if a == tv.len() {
                        assert(!(tv[b].0 == name@));
                    } else {
                        assert(!(tv[a].0 == name@));
                    }
                }
            }
        },
    }
}

/// Removes every entry of kind `kind`, keeping the others in order.
pub fn table_remove_kind(t: &mut Vec<(String, Variable)>, kind: VariableKind)
    requires
        names_distinct(table_view(old(t)@)),
    ensures
        table_view(final(t)@) == table_without_kind(table_view(old(t)@), kind),
        names_distinct(table_view(final(t)@)),
{
    let ghost tv = table_view(t@);
    let ghost f = |e: (Seq<char>, VariableView)| kind_of(e.1) != kind;
    let mut kept: Vec<(String, Variable)> = Vec::new();
    let mut i: usize = 0;
    while i < t.len()
        invariant
            tv == table_view(t@),
            names_distinct(tv),
            f == (|e: (Seq<char>, VariableView)| kind_of(e.1) != kind),
            i <= t@.len(),
            table_view(kept@) == tv.subrange(0, i as int).filter(f),
            names_distinct(table_view(kept@)),
            forall|a: int|
                0 <= a < kept@.len() ==> exists|j: int|
                    0 <= j < i && #[trigger] table_view(kept@)[a].0 == tv[j].0,
        decreases t@.len() - i,
    {
        let ghost before = table_view(kept@);
        proof {
            let sub = tv.subrange(0, i as int);
            assert(tv.subrange(0, i + 1).drop_last() =~= sub);
            assert(tv.subrange(0, i + 1).last() == tv[i as int]);
            assert(tv[i as int] == (t@[i as int].0@, t@[i as int].1@));
            reveal(Seq::filter);
            assert(tv.subrange(0, i + 1).filter(f) == if f(tv[i as int]) {
                sub.filter(f).push(tv[i as int])
            } else {
                sub.filter(f)
            });
        }
        if t[i].1.kind() != kind {
            let entry = (t[i].0.clone(), t[i].1.duplicate());
            kept.push(entry);
            proof {
                assert(table_view(kept@) =~= before.push(tv[i as int]));
                assert forall|a: int, b: int|
                    0 <= a < table_view(kept@).len() && 0 <= b < table_view(kept@).len() && a
                        != b implies table_view(kept@)[a].0 != table_view(kept@)[b].0 by {
                    if a < before.len() && b < before.len() {
                        assert(before[a] == table_view(kept@)[a]);
                        assert(before[b] == table_view(kept@)[b]);
                    } else if a == before.len() {
                        assert(table_view(kept@)[b] == before[b]);
                        let j = choose|j: int| 0 <= j < i && before[b].0 == tv[j].0;
                        assert(tv[j].0 != tv[i as int].0);
                    } else {
                        assert(table_view(kept@)[a] == before[a]);
                        let j = choose|j: int| 0 <= j < i && before[a].0 == tv[j].0;
                        assert(tv[j].0 != tv[i as int].0);
                    }
                }
                assert forall|a: int| 0 <= a < kept@.len() implies exists|j: int|
                    0 <= j < i + 1 && #[trigger] table_view(kept@)[a].0 == tv[j].0 by {
                    if a < before.len() {
                        assert(table_view(kept@)[a] == before[a]);
                        let j = choose|j: int| 0 <= j < i && before[a].0 == tv[j].0;
                        assert(table_view(kept@)[a].0 == tv[j].0);
                    } else {
                        assert(table_view(kept@)[a].0 == tv[i as int].0);
                    }
                }
            }
        }
        i = i + 1;
    }
    proof {
        assert(tv.subrange(0, t@.len() as int) =~= tv);
    }
    *t = kept;
}

} // verus!
