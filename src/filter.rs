//! The filter and pagination contract: page size, page number, offset, cursor, and a
//! backend-neutral conjunctive predicate built from the fields a caller supplied.

use crate::model::Record;
use crate::value::{Value, ValueView};
use vstd::prelude::*;

verus! {

/// Page size when the caller gives none.
pub const DEFAULT_LIMIT: usize = 20;

/// A conjunction of "column equals value" constraints.
#[derive(Debug)]
pub struct Condition {
    pub constraints: Vec<(usize, Value)>,
}

impl View for Condition {
    type V = Seq<(int, ValueView)>;

    open spec fn view(&self) -> Seq<(int, ValueView)> {
        self.constraints@.map_values(|c: (usize, Value)| (c.0 as int, c.1@))
    }
}

/// Whether a record meets every constraint.
pub open spec fn meets(row: Seq<ValueView>, cond: Seq<(int, ValueView)>) -> bool {
    forall|j: int|
        0 <= j < cond.len() ==> 0 <= (#[trigger] cond[j]).0 < row.len() && row[cond[j].0]
            == cond[j].1
}

/// The constraints of the criteria that were supplied, in order; absent ones add none.
pub open spec fn supplied(criteria: Seq<(int, Option<ValueView>)>) -> Seq<(int, ValueView)>
    decreases criteria.len(),
{
    if criteria.len() == 0 {
        Seq::empty()
    } else {
        let prev = supplied(criteria.drop_last());
        match criteria.last().1 {
            Some(v) => prev.push((criteria.last().0, v)),
            None => prev,
        }
    }
}

/// When no criterion is supplied, the condition has no constraint.
pub proof fn lemma_supplied_none(criteria: Seq<(int, Option<ValueView>)>)
    requires
        forall|i: int| 0 <= i < criteria.len() ==> (#[trigger] criteria[i]).1 is None,
    ensures
        supplied(criteria) == Seq::<(int, ValueView)>::empty(),
    decreases criteria.len(),
{
    if criteria.len() > 0 {
        let prev = criteria.drop_last();
        assert forall|i: int| 0 <= i < prev.len() implies (#[trigger] prev[i]).1 is None by {
            assert(prev[i] == criteria[i]);
        }
        lemma_supplied_none(prev);
        assert(criteria.last() == criteria[criteria.len() - 1]);
    }
}

/// The value given, or the default when none is.
pub open spec fn or_default(o: Option<usize>, d: usize) -> usize {
    match o {
        Some(v) => v,
        None => d,
    }
}

impl Condition {
    /// The condition with no constraint, which every record meets.
    pub fn all() -> (c: Condition)
        ensures
            c@ == Seq::<(int, ValueView)>::empty(),
    {
        let c = Condition { constraints: Vec::new() };
        assert(c@ =~= Seq::<(int, ValueView)>::empty());
        c
    }

    /// Adds the constraint that `column` equals `value`.
    pub fn add(self, column: usize, value: Value) -> (c: Condition)
        ensures
            c@ == self@.push((column as int, value@)),
    {
        let mut constraints = self.constraints;
        constraints.push((column, value));
        let c = Condition { constraints };
        assert(c@ =~= self@.push((column as int, value@)));
        c
    }

    /// Adds the constraint when the criterion was supplied.
    pub fn add_option(self, column: usize, value: Option<Value>) -> (c: Condition)
        ensures
            c@ == match value {
                Some(v) => self@.push((column as int, v@)),
                None => self@,
            },
    {
        match value {
            Some(v) => self.add(column, v),
            None => self,
        }
    }

    /// Whether the record meets every constraint.
    pub fn accepts(&self, row: &Record) -> (r: bool)
        ensures
            r == meets(row@, self@),
    {
        let mut i: usize = 0;
        while i < self.constraints.len()
            invariant
                i <= self.constraints.len(),
                forall|j: int|
                    0 <= j < i ==> 0 <= (#[trigger] self@[j]).0 < row@.len() && row@[self@[j].0]
                        == self@[j].1,
            decreases self.constraints.len() - i,
        {
            let c = &self.constraints[i];
            assert(self@[i as int] == (c.0 as int, c.1@));
            if c.0 >= row.values.len() {
                return false;
            }
            assert(row@[c.0 as int] == row.values@[c.0 as int]@);
            if !row.values[c.0].same(&c.1) {
                return false;
            }
            i += 1;
        }
        true
    }
}

/// The capability a filter payload provides: every field optional, with defaults applied
/// when a field is absent.
pub trait Filter {
    spec fn spec_limit(&self) -> Option<usize>;

    spec fn spec_offset(&self) -> Option<usize>;

    spec fn spec_page(&self) -> Option<usize>;

    spec fn spec_cursor(&self) -> Option<Seq<char>>;

    /// Each predicate field's column, with the value if the caller supplied it.
    spec fn spec_criteria(&self) -> Seq<(int, Option<ValueView>)>;

    /// Page size; 20 when not given.
    fn limit(&self) -> (r: usize)
        ensures
            r == or_default(self.spec_limit(), DEFAULT_LIMIT),
    ;

    /// Offset; 0 when not given.
    fn offset(&self) -> (r: usize)
        ensures
            r == or_default(self.spec_offset(), 0),
    ;

    /// Page number, from 0; 0 when not given.
    fn page(&self) -> (r: usize)
        ensures
            r == or_default(self.spec_page(), 0),
    ;

    /// Cursor for forward-only pagination, if given.
    fn cursor(&self) -> (r: Option<&str>)
        ensures
            match r {
                Some(c) => self.spec_cursor() == Some(c@),
                None => self.spec_cursor() is None,
            },
    ;

    /// The conjunction of "column equals value" for the supplied fields only.
    fn condition(&self) -> (c: Condition)
        ensures
            c@ == supplied(self.spec_criteria()),
    ;
}

} // verus!
