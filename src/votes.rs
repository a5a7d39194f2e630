//! Votes: a user's up or down vote on a post, keyed by the pair (post, voter).

use crate::entity::{Column, EntityDescriptor, EntityView};
use crate::filter::{supplied, Condition, Filter, DEFAULT_LIMIT};
use crate::model::{fields_diff, ActiveModel, Create, Update};
use crate::rest::Rest;
use crate::value::{bool_opt, bool_value, uuid_opt, uuid_value, Value, ValueKind, ValueView};
use vstd::prelude::*;

verus! {

pub const POST: usize = 0;

pub const VOTER: usize = 1;

pub const POSITIVE: usize = 2;

pub const WIDTH: usize = 3;

pub open spec fn spec_descriptor() -> EntityView {
    EntityView {
        table: "votes"@,
        columns: seq![
            ("post"@, ValueKind::Uuid),
            ("voter"@, ValueKind::Uuid),
            ("positive"@, ValueKind::Bool),
        ],
        key: seq![POST as int, VOTER as int],
    }
}

pub fn descriptor() -> (d: EntityDescriptor)
    ensures
        d@ == spec_descriptor(),
{
    let mut columns: Vec<Column> = Vec::new();
    columns.push(Column { name: String::from_str("post"), kind: ValueKind::Uuid });
    columns.push(Column { name: String::from_str("voter"), kind: ValueKind::Uuid });
    columns.push(Column { name: String::from_str("positive"), kind: ValueKind::Bool });
    let mut key: Vec<usize> = Vec::new();
    key.push(POST);
    key.push(VOTER);
    let d = EntityDescriptor { table: String::from_str("votes"), columns, key };
    assert(d@.columns =~= spec_descriptor().columns);
    assert(d@.key =~= spec_descriptor().key);
    d
}

/// A new vote: every field given, the key included.
#[derive(Clone, Debug, PartialEq, Eq)]
pub struct CreateModel {
    pub voter: u128,
    pub post: u128,
    pub positive: bool,
}

impl Create for CreateModel {
    open spec fn spec_width() -> nat {
        WIDTH as nat
    }

    open spec fn spec_fields(&self) -> Seq<(int, Option<ValueView>)> {
        seq![
            (VOTER as int, Some(ValueView::Uuid(self.voter))),
            (POST as int, Some(ValueView::Uuid(self.post))),
            (POSITIVE as int, Some(ValueView::Bool(self.positive))),
        ]
    }

    fn into_active_model(self) -> (m: ActiveModel) {
        let ghost fields = self.spec_fields();
        let mut m = ActiveModel::unset(WIDTH);
        m.set_column(VOTER, Value::Uuid(self.voter));
        m.set_column(POST, Value::Uuid(self.post));
        m.set_column(POSITIVE, Value::Bool(self.positive));
        proof {
            reveal_with_fuel(fields_diff, 4);
            assert(fields.drop_last().drop_last().drop_last() =~= Seq::empty());
            assert(fields.drop_last().drop_last() =~= seq![fields[0]]);
            assert(fields.drop_last() =~= seq![fields[0], fields[1]]);
        }
        assert(m@ =~= fields_diff(WIDTH as nat, fields));
        m
    }
}

/// Changes to a vote: each field optional.
#[derive(Clone, Debug, PartialEq, Eq)]
pub struct UpdateModel {
    pub positive: Option<bool>,
}

impl Update for UpdateModel {
    open spec fn spec_width() -> nat {
        WIDTH as nat
    }

    open spec fn spec_fields(&self) -> Seq<(int, Option<ValueView>)> {
        seq![(POSITIVE as int, bool_opt(self.positive))]
    }

    fn into_active_model(self) -> (m: ActiveModel) {
        let ghost fields = self.spec_fields();
        let mut m = ActiveModel::unset(WIDTH);
        match self.positive {
            Some(v) => m.set_column(POSITIVE, Value::Bool(v)),
            None => {},
        }
        proof {
            reveal_with_fuel(fields_diff, 2);
            assert(fields.drop_last() =~= Seq::empty());
        }
        assert(m@ =~= fields_diff(WIDTH as nat, fields));
        m
    }
}

/// A listing query over votes.
#[derive(Clone, Debug, PartialEq, Eq)]
pub struct FilterModel {
    pub limit: Option<usize>,
    pub offset: Option<usize>,
    pub page: Option<usize>,
    pub cursor: Option<String>,
    pub positive: Option<bool>,
    pub voter: Option<u128>,
    pub post: Option<u128>,
}

impl Filter for FilterModel {
    open spec fn spec_limit(&self) -> Option<usize> {
        self.limit
    }

    open spec fn spec_offset(&self) -> Option<usize> {
        self.offset
    }

    open spec fn spec_page(&self) -> Option<usize> {
        self.page
    }

    open spec fn spec_cursor(&self) -> Option<Seq<char>> {
        match self.cursor {
            Some(c) => Some(c@),
            None => None,
        }
    }

    open spec fn spec_criteria(&self) -> Seq<(int, Option<ValueView>)> {
        seq![(POSITIVE as int, bool_opt(self.positive)), (VOTER as int, uuid_opt(self.voter)), (POST as int, uuid_opt(self.post))]
    }

    fn limit(&self) -> (r: usize) {
        match self.limit {
            Some(l) => l,
            None => DEFAULT_LIMIT,
        }
    }

    fn offset(&self) -> (r: usize) {
        match self.offset {
            Some(o) => o,
            None => 0,
        }
    }

    fn page(&self) -> (r: usize) {
        match self.page {
            Some(p) => p,
            None => 0,
        }
    }

    fn cursor(&self) -> (r: Option<&str>) {
        match &self.cursor {
            Some(c) => Some(c.as_str()),
            None => None,
        }
    }

    fn condition(&self) -> (c: Condition) {
        let ghost criteria = self.spec_criteria();
        let c = Condition::all().add_option(POSITIVE, bool_value(&self.positive)).add_option(VOTER, uuid_value(&self.voter)).add_option(POST, uuid_value(&self.post));
        proof {
            reveal_with_fuel(supplied, 4);
            assert(criteria.drop_last().drop_last().drop_last() =~= Seq::empty());
            assert(criteria.drop_last().drop_last() =~= seq![criteria[0]]);
            assert(criteria.drop_last() =~= seq![criteria[0], criteria[1]]);
        }
        assert(c@ =~= supplied(criteria));
        c
    }
}

/// The REST capabilities of votes.
pub struct RestModel;

impl Rest for RestModel {
    type Create = CreateModel;

    type Update = UpdateModel;

    type Filter = FilterModel;

    open spec fn spec_descriptor() -> EntityView {
        spec_descriptor()
    }

    fn descriptor() -> (d: EntityDescriptor) {
        descriptor()
    }

    proof fn lemma_capabilities() {
        reveal_strlit("post");
        reveal_strlit("voter");
        assert("post"@.len() == 4);
        assert("voter"@.len() == 5);
        let e = spec_descriptor();
        assert(e.key_name(0) != e.key_name(1));
        assert(spec_descriptor().columns.len() == WIDTH);
        assert(<CreateModel as Create>::spec_width() == WIDTH);
        assert(<UpdateModel as Update>::spec_width() == WIDTH);
        assert(<RestModel as Rest>::spec_descriptor() == spec_descriptor());
    }
}

} // verus!
