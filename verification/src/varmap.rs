//! The type variables that the names of one declaration stand for.

use vstd::prelude::*;
use crate::ast::TypeVariable;

verus! {

/// What a table of type variables is in specifications: names and the
/// numbers of their variables, in the order in which the names came up.
pub type VarMapV = Seq<(Seq<char>, int)>;

/// The variable that the table holds for `name`.
pub open spec fn lookup(map: VarMapV, name: Seq<char>) -> Option<int>
    decreases map.len(),
{
    if map.len() == 0 {
        None
    } else if map[0].0 == name {
        Some(map[0].1)
    } else {
        lookup(map.drop_first(), name)
    }
}

/// The variable for `name` and the table behind the request. A name that is
/// new to the table gets the variable `id`, unless the table is `strict`:
/// then the name is undefined.
pub open spec fn resolve(map: VarMapV, name: Seq<char>, id: int, strict: bool) -> Option<(int, VarMapV)> {
    match lookup(map, name) {
        Some(found) => Some((found, map)),
        None => if strict {
            None
        } else {
            Some((id, map.push((name, id))))
        },
    }
}

pub struct TypeVariables {
    pub entries: Vec<(String, TypeVariable)>,
}

impl View for TypeVariables {
    type V = VarMapV;

    open spec fn view(&self) -> VarMapV {
        Seq::new(self.entries@.len(), |i: int| (self.entries@[i].0@, self.entries@[i].1.id as int))
    }
}

impl TypeVariables {
    pub fn new() -> (r: TypeVariables)
        ensures
            r@ == Seq::<(Seq<char>, int)>::empty(),
    {
        let r = TypeVariables { entries: Vec::new() };
        assert(r@ =~= Seq::empty());
        r
    }

    /// The variable of `name`, if the table holds one.
    pub fn find(&self, name: &str) -> (r: Option<TypeVariable>)
        ensures
            match r {
                Some(v) => lookup(self@, name@) == Some(v.id as int),
                None => lookup(self@, name@).is_none(),
            },
    {
        let mut i: usize = 0;
        assert(self@.subrange(0, self@.len() as int) =~= self@);
        while i < self.entries.len()
            invariant
                i <= self.entries.len(),
                self@.len() == self.entries@.len(),
                lookup(self@, name@) == lookup(self@.subrange(i as int, self@.len() as int), name@),
            decreases self.entries.len() - i,
        {
            let ghost rest = self@.subrange(i as int, self@.len() as int);
            assert(rest[0] == self@[i as int]);
            assert(rest.drop_first() =~= self@.subrange(i + 1, self@.len() as int));
            if *self.entries[i].0.as_str() == *name {
                return Some(self.entries[i].1);
            }
            i += 1;
        }
        None
    }

    /// The variable of `name`. A new name is entered with the variable
    /// `value`, unless `strict` forbids new names.
    pub fn find_or_insert(&mut self, name: String, value: TypeVariable, strict: bool) -> (r: Option<TypeVariable>)
        ensures
            match resolve(old(self)@, name@, value.id as int, strict) {
                Some((id, map)) => r == Some(TypeVariable { id: id as isize }) && r.unwrap().id == id
                    && final(self)@ == map,
                None => r.is_none() && final(self)@ == old(self)@,
            },
    {
        match self.find(name.as_str()) {
            Some(v) => Some(v),
            None => {
                if strict {
                    None
                } else {
                    self.entries.push((name, value));
                    assert(self@ =~= old(self)@.push((name@, value.id as int)));
                    Some(value)
                }
            },
        }
    }
}

} // verus!
