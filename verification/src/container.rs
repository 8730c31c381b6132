use vstd::prelude::*;

use crate::error::ContainerError;
use crate::geo::{GeoObject, LineData, PointData};
use crate::id::ObjectId;
use crate::variable::{
    has_name, lookup_name, name_index, names_distinct, table_find, table_insert,
    table_remove_kind, table_set, table_view, table_without_kind, Variable, VariableKind,
    VariableView,
};

verus! {

/// Entries whose ids strictly increase.
pub open spec fn ids_increasing(s: Seq<(ObjectId, GeoObject)>) -> bool {
    forall|i: int, j: int| 0 <= i < j < s.len() ==> s[i].0.0 < s[j].0.0
}

/// Whether some entry has id `id`.
pub open spec fn has_object(s: Seq<(ObjectId, GeoObject)>, id: ObjectId) -> bool {
    exists|i: int| 0 <= i < s.len() && s[i].0 == id
}

/// The index of the entry with id `id` (meaningful when `has_object`).
pub open spec fn object_index(s: Seq<(ObjectId, GeoObject)>, id: ObjectId) -> int {
    choose|i: int| 0 <= i < s.len() && s[i].0 == id
}

/// The object stored under `id`, if any.
pub open spec fn object_entry(s: Seq<(ObjectId, GeoObject)>, id: ObjectId) -> Option<GeoObject> {
    if has_object(s, id) {
        Some(s[object_index(s, id)].1)
    } else {
        None
    }
}

/// `s` with `(id, obj)` placed at index `k`, the position that keeps ids
/// increasing.
pub open spec fn inserted_in_order(
    s: Seq<(ObjectId, GeoObject)>,
    r: Seq<(ObjectId, GeoObject)>,
    id: ObjectId,
    obj: GeoObject,
) -> bool {
    exists|k: int|
        0 <= k <= s.len() && r == s.insert(k, (id, obj)) && (forall|j: int|
            0 <= j < k ==> s[j].0.0 < id.0) && (forall|j: int| k <= j < s.len() ==> id.0 < s[j].0.0)
}

/// A store mapping ids to geometric objects and names to variables: the
/// resolved geometry of a pattern.
#[derive(Debug, Clone, PartialEq)]
pub struct PatternData {
    objects: Vec<(ObjectId, GeoObject)>,
    variables: Vec<(String, Variable)>,
    next_id: u32,
}

impl PatternData {
    /// The stored objects with their ids, in increasing id order.
    pub closed spec fn entries(&self) -> Seq<(ObjectId, GeoObject)> {
        self.objects@
    }

    /// The stored variables with their names.
    pub closed spec fn vars(&self) -> Seq<(Seq<char>, VariableView)> {
        table_view(self.variables@)
    }

    /// The id the next `add_object` hands out.
    pub closed spec fn next_object_id(&self) -> u32 {
        self.next_id
    }

    /// The store's invariant: ids increase and are all below the counter,
    /// and variable names are distinct.
    pub closed spec fn wf(&self) -> bool {
        &&& ids_increasing(self.objects@)
        &&& forall|i: int| 0 <= i < self.objects@.len() ==> self.objects@[i].0.0 < self.next_id
        &&& names_distinct(table_view(self.variables@))
    }

    /// An empty store whose first id will be 0.
    pub fn new() -> (r: PatternData)
        ensures
            r.wf(),
            r.entries() == Seq::<(ObjectId, GeoObject)>::empty(),
            r.vars() == Seq::<(Seq<char>, VariableView)>::empty(),
            r.next_object_id() == 0,
    {
        let r = PatternData { objects: Vec::new(), variables: Vec::new(), next_id: 0 };
        proof {
            assert(table_view(r.variables@) =~= Seq::<(Seq<char>, VariableView)>::empty());
        }
        r
    }

    /// Stores `obj` under a fresh id (the counter's value) and returns it.
    pub fn add_object(&mut self, obj: GeoObject) -> (id: ObjectId)
        requires
            old(self).wf(),
            old(self).next_object_id() < u32::MAX,
        ensures
            final(self).wf(),
            id.0 == old(self).next_object_id(),
            final(self).entries() == old(self).entries().push((id, obj)),
            final(self).vars() == old(self).vars(),
            final(self).next_object_id() == old(self).next_object_id() + 1,
    {
        let id = ObjectId::new(self.next_id);
        self.next_id = self.next_id + 1;
        self.objects.push((id, obj));
        id
    }

    /// Stores `obj` under `id`, replacing (and returning) whatever was
    /// stored there; ids stay in increasing order and the counter moves
    /// past `id`.
    pub fn insert_with_id(&mut self, id: ObjectId, obj: GeoObject) -> (r: Option<GeoObject>)
        requires
            old(self).wf(),
            id.0 < u32::MAX,
        ensures
            final(self).wf(),
            r == object_entry(old(self).entries(), id),
            has_object(old(self).entries(), id) ==> final(self).entries() == old(
                self,
            ).entries().update(object_index(old(self).entries(), id), (id, obj)),
            !has_object(old(self).entries(), id) ==> inserted_in_order(
                old(self).entries(),
                final(self).entries(),
                id,
                obj,
            ),
            final(self).vars() == old(self).vars(),
            final(self).next_object_id() == if id.0 < old(self).next_object_id() {
                old(self).next_object_id()
            } else {
                (id.0 + 1) as u32
            },
    {
        let ghost s = self.objects@;
        let mut k: usize = 0;
        while k < self.objects.len() && self.objects[k].0.0 < id.0
            invariant
                s == self.objects@,
                ids_increasing(s),
                k <= s.len(),
                forall|j: int| 0 <= j < k ==> s[j].0.0 < id.0,
            decreases s.len() - k,
        {
            k = k + 1;
        }
        if id.0 >= self.next_id {
            self.next_id = id.0 + 1;
        }
        if k < self.objects.len() && self.objects[k].0.0 == id.0 {
            proof {
                assert(has_object(s, id));
                let m = object_index(s, id);
                assert(s[m].0 == id);
                assert(m == k as int) by {
                    if m < k {
                    } else if m > k {
                        assert(s[k as int].0.0 < s[m].0.0);
                    }
                }
            }
            let (_, previous) = self.objects.remove(k);
            self.objects.insert(k, (id, obj));
            proof {
                assert(self.objects@ =~= s.update(k as int, (id, obj)));
            }
            Some(previous)
        } else {
            proof {
                assert(forall|j: int| k <= j < s.len() ==> id.0 < s[j].0.0) by {
                    assert forall|j: int| k <= j < s.len() implies id.0 < s[j].0.0 by {
                        if j > k {
                            assert(s[k as int].0.0 < s[j].0.0);
                        }
                    }
                }
                assert(!has_object(s, id)) by {
                    if has_object(s, id) {
                        let m = object_index(s, id);
                        assert(s[m].0.0 == id.0);
                    }
                }
            }
            self.objects.insert(k, (id, obj));
            proof {
                assert(self.objects@ =~= s.insert(k as int, (id, obj)));
                assert forall|a: int, b: int| 0 <= a < b < self.objects@.len() implies self.objects@[a].0.0
                    < self.objects@[b].0.0 by {
                    if b < k {
                    } else if a > k {
                        assert(self.objects@[a] == s[a - 1]);
                        assert(self.objects@[b] == s[b - 1]);
                    } else if a == k {
                        assert(self.objects@[b] == s[b - 1]);
                    } else if b == k {
                    } else {
                        assert(self.objects@[b] == s[b - 1]);
                    }
                }
            }
            None
        }
    }

    fn find_object(&self, id: ObjectId) -> (r: Option<usize>)
        requires
            self.wf(),
        ensures
            match r {
                Some(i) => i < self.entries().len() && has_object(self.entries(), id)
                    && object_index(self.entries(), id) == i,
                None => !has_object(self.entries(), id),
            },
    {
        let mut i: usize = 0;
        while i < self.objects.len()
            invariant
                i <= self.objects@.len(),
                ids_increasing(self.objects@),
                forall|j: int| 0 <= j < i ==> self.objects@[j].0 != id,
            decreases self.objects@.len() - i,
        {
            if self.objects[i].0.0 == id.0 {
                proof {
                    let s = self.objects@;
                    assert(has_object(s, id));
                    let m = object_index(s, id);
                    assert(m == i as int) by {
                        if m < i {
                        } else if m > i {
                            assert(s[i as int].0.0 < s[m].0.0);
                        }
                    }
                }
                return Some(i);
            }
            i = i + 1;
        }
        None
    }

    /// The point stored under `id`: `ObjectNotFound` when nothing is stored
    /// there, `WrongObjectType` (expecting "Point") when something else is.
    pub fn get_point(&self, id: ObjectId) -> (r: Result<&PointData, ContainerError>)
        requires
            self.wf(),
        ensures
            match object_entry(self.entries(), id) {
                None => r == Err::<&PointData, ContainerError>(ContainerError::ObjectNotFound(id)),
                Some(GeoObject::Point(p)) => r == Ok::<&PointData, ContainerError>(&p),
                Some(_) => r matches Err(ContainerError::WrongObjectType { id: i, expected })
                    && i == id && expected@ == "Point"@,
            },
    {
        proof {
            reveal_strlit("Point");
        }
        match self.find_object(id) {
            None => Err(ContainerError::ObjectNotFound(id)),
            Some(i) => match &self.objects[i].1 {
                GeoObject::Point(point) => Ok(point),
                _ => Err(ContainerError::WrongObjectType { id, expected: "Point" }),
            },
        }
    }

    /// The line stored under `id`: `ObjectNotFound` when nothing is stored
    /// there, `WrongObjectType` (expecting "Line") when something else is.
    pub fn get_line(&self, id: ObjectId) -> (r: Result<&LineData, ContainerError>)
        requires
            self.wf(),
        ensures
            match object_entry(self.entries(), id) {
                None => r == Err::<&LineData, ContainerError>(ContainerError::ObjectNotFound(id)),
                Some(GeoObject::Line(l)) => r == Ok::<&LineData, ContainerError>(&l),
                Some(_) => r matches Err(ContainerError::WrongObjectType { id: i, expected })
                    && i == id && expected@ == "Line"@,
            },
    {
        proof {
            reveal_strlit("Line");
        }
        match self.find_object(id) {
            None => Err(ContainerError::ObjectNotFound(id)),
            Some(i) => match &self.objects[i].1 {
                GeoObject::Line(line) => Ok(line),
                _ => Err(ContainerError::WrongObjectType { id, expected: "Line" }),
            },
        }
    }

    /// Removes and returns the object stored under `id`, if any; the other
    /// entries keep their order.
    pub fn remove_object(&mut self, id: ObjectId) -> (r: Option<GeoObject>)
        requires
            old(self).wf(),
        ensures
            final(self).wf(),
            r == object_entry(old(self).entries(), id),
            final(self).entries() == if has_object(old(self).entries(), id) {
                old(self).entries().remove(object_index(old(self).entries(), id))
            } else {
                old(self).entries()
            },
            final(self).vars() == old(self).vars(),
            final(self).next_object_id() == old(self).next_object_id(),
    {
        match self.find_object(id) {
            None => None,
            Some(i) => {
                let ghost s = self.objects@;
                let (_, obj) = self.objects.remove(i);
                proof {
                    assert forall|a: int, b: int| 0 <= a < b < self.objects@.len() implies self.objects@[a].0.0
                        < self.objects@[b].0.0 by {
                        if a >= i {
                            assert(self.objects@[a] == s[a + 1]);
                        }
                        if b >= i {
                            assert(self.objects@[b] == s[b + 1]);
                        }
                    }
                    assert forall|a: int| 0 <= a < self.objects@.len() implies self.objects@[a].0.0
                        < self.next_id by {
                        if a >= i {
                            assert(self.objects@[a] == s[a + 1]);
                        }
                    }
                }
                Some(obj)
            },
        }
    }

    /// Stores `var` under `name`, overwriting a variable of the same name
    /// (a name is a variable's identity: same name, new value).
    pub fn add_variable(&mut self, name: &str, var: Variable)
        requires
            old(self).wf(),
        ensures
            final(self).wf(),
            final(self).vars() == table_set(old(self).vars(), name@, var@),
            final(self).entries() == old(self).entries(),
            final(self).next_object_id() == old(self).next_object_id(),
    {
        table_insert(&mut self.variables, name, var);
    }

    /// The variable stored under `name`, or `VariableNotFound(name)`.
    pub fn get_variable(&self, name: &str) -> (r: Result<&Variable, ContainerError>)
        requires
            self.wf(),
        ensures
            match lookup_name(self.vars(), name@) {
                None => r matches Err(ContainerError::VariableNotFound(n)) && n@ == name@,
                Some(v) => r matches Ok(var) && var@ == v,
            },
    {
        match table_find(&self.variables, name) {
            None => Err(ContainerError::VariableNotFound(name.to_string())),
            Some(i) => {
                proof {
                    let t = table_view(self.variables@);
                    assert(t[i as int] == (self.variables@[i as int].0@, self.variables@[i as int].1@));
                    assert(has_name(t, name@));
                    let m = name_index(t, name@);
                    assert(m == i as int);
                }
                Ok(&self.variables[i].1)
            },
        }
    }

    /// Removes every variable of kind `kind`, keeping all others.
    pub fn clear_variables(&mut self, kind: VariableKind)
        requires
            old(self).wf(),
        ensures
            final(self).wf(),
            final(self).vars() == table_without_kind(old(self).vars(), kind),
            final(self).entries() == old(self).entries(),
            final(self).next_object_id() == old(self).next_object_id(),
    {
        table_remove_kind(&mut self.variables, kind);
    }

    /// Removes every object and resets the id counter to 0, so the store
    /// hands out ids as a new one would.
    pub fn clear_objects(&mut self)
        requires
            old(self).wf(),
        ensures
            final(self).wf(),
            final(self).entries() == Seq::<(ObjectId, GeoObject)>::empty(),
            final(self).vars() == old(self).vars(),
            final(self).next_object_id() == 0,
    {
        self.objects = Vec::new();
        self.next_id = 0;
    }

    /// Removes every object and every variable, resetting the id counter.
    pub fn clear_all(&mut self)
        requires
            old(self).wf(),
        ensures
            final(self).wf(),
            final(self).entries() == Seq::<(ObjectId, GeoObject)>::empty(),
            final(self).vars() == Seq::<(Seq<char>, VariableView)>::empty(),
            final(self).next_object_id() == 0,
    {
        self.clear_objects();
        self.variables = Vec::new();
        proof {
            assert(table_view(self.variables@) =~= Seq::<(Seq<char>, VariableView)>::empty());
        }
    }

    /// Every stored object with its id, in increasing id order.
    pub fn objects(&self) -> (r: &[(ObjectId, GeoObject)])
        ensures
            r@ == self.entries(),
    {
        self.objects.as_slice()
    }

    /// Every stored variable with its name.
    pub fn variables(&self) -> (r: &[(String, Variable)])
        ensures
            table_view(r@) == self.vars(),
    {
        self.variables.as_slice()
    }
}

impl Default for PatternData {
    /// An empty store whose first id will be 0.
    fn default() -> (r: PatternData)
        ensures
            r.wf(),
            r.entries() == Seq::<(ObjectId, GeoObject)>::empty(),
            r.vars() == Seq::<(Seq<char>, VariableView)>::empty(),
            r.next_object_id() == 0,
    {
        PatternData::new()
    }
}

} // verus!
