//! Users: a username and an email address, keyed by a UUID the database generates.

use crate::entity::{Column, EntityDescriptor, EntityView};
use crate::filter::{supplied, Condition, Filter, DEFAULT_LIMIT};
use crate::model::{fields_diff, ActiveModel, Create, Update};
use crate::rest::Rest;
use crate::value::{text_opt, text_value, Value, ValueKind, ValueView};
use vstd::prelude::*;

verus! {

pub const ID: usize = 0;

pub const USERNAME: usize = 1;

pub const EMAIL: usize = 2;

pub const WIDTH: usize = 3;

pub open spec fn spec_descriptor() -> EntityView {
    EntityView {
        table: "users"@,
        columns: seq![
            ("id"@, ValueKind::Uuid),
            ("username"@, ValueKind::Text),
            ("email"@, ValueKind::Text),
        ],
        key: seq![ID as int],
    }
}

pub fn descriptor() -> (d: EntityDescriptor)
    ensures
        d@ == spec_descriptor(),
{
    let mut columns: Vec<Column> = Vec::new();
    columns.push(Column { name: String::from_str("id"), kind: ValueKind::Uuid });
    columns.push(Column { name: String::from_str("username"), kind: ValueKind::Text });
    columns.push(Column { name: String::from_str("email"), kind: ValueKind::Text });
    let mut key: Vec<usize> = Vec::new();
    key.push(ID);
    let d = EntityDescriptor { table: String::from_str("users"), columns, key };
    assert(d@.columns =~= spec_descriptor().columns);
    assert(d@.key =~= spec_descriptor().key);
    d
}

/// A new user: every field given; the id is generated.
#[derive(Clone, Debug, PartialEq, Eq)]
pub struct CreateModel {
    pub username: String,
    pub email: String,
}

impl Create for CreateModel {
    open spec fn spec_width() -> nat {
        WIDTH as nat
    }

    open spec fn spec_fields(&self) -> Seq<(int, Option<ValueView>)> {
        seq![
            (USERNAME as int, Some(ValueView::Text(self.username@))),
            (EMAIL as int, Some(ValueView::Text(self.email@))),
        ]
    }

    fn into_active_model(self) -> (m: ActiveModel) {
        let ghost fields = self.spec_fields();
        let mut m = ActiveModel::unset(WIDTH);
        m.set_column(USERNAME, Value::Text(self.username));
        m.set_column(EMAIL, Value::Text(self.email));
        proof {
            reveal_with_fuel(fields_diff, 3);
            assert(fields.drop_last().drop_last() =~= Seq::empty());
            assert(fields.drop_last() =~= seq![fields[0]]);
        }
        assert(m@ =~= fields_diff(WIDTH as nat, fields));
        m
    }
}

/// Changes to a user: each field optional.
#[derive(Clone, Debug, PartialEq, Eq)]
pub struct UpdateModel {
    pub username: Option<String>,
    pub email: Option<String>,
}

impl Update for UpdateModel {
    open spec fn spec_width() -> nat {
        WIDTH as nat
    }

    open spec fn spec_fields(&self) -> Seq<(int, Option<ValueView>)> {
        seq![(USERNAME as int, text_opt(self.username)), (EMAIL as int, text_opt(self.email))]
    }

    fn into_active_model(self) -> (m: ActiveModel) {
        let ghost fields = self.spec_fields();
        let mut m = ActiveModel::unset(WIDTH);
        match self.username {
            Some(v) => m.set_column(USERNAME, Value::Text(v)),
            None => {},
        }
        match self.email {
            Some(v) => m.set_column(EMAIL, Value::Text(v)),
            None => {},
        }
        proof {
            reveal_with_fuel(fields_diff, 3);
            assert(fields.drop_last().drop_last() =~= Seq::empty());
            assert(fields.drop_last() =~= seq![fields[0]]);
        }
        assert(m@ =~= fields_diff(WIDTH as nat, fields));
        m
    }
}

/// A listing query over users.
#[derive(Clone, Debug, PartialEq, Eq)]
pub struct FilterModel {
    pub limit: Option<usize>,
    pub offset: Option<usize>,
    pub page: Option<usize>,
    pub cursor: Option<String>,
    pub email: Option<String>,
    pub username: Option<String>,
}

impl Filter for FilterModel {
    open spec fn spec_limit(&self) -> Option<usize> {
        self.limit
    }

    open spec fn spec_offset(&self) -> Option<usize> {
        self.offset
    }

    open spec fn spec_page(&self) -> Option<usize> {
        self.page
    }

    open spec fn spec_cursor(&self) -> Option<Seq<char>> {
        match self.cursor {
            Some(c) => Some(c@),
            None => None,
        }
    }

    open spec fn spec_criteria(&self) -> Seq<(int, Option<ValueView>)> {
        seq![(EMAIL as int, text_opt(self.email)), (USERNAME as int, text_opt(self.username))]
    }

    fn limit(&self) -> (r: usize) {
        match self.limit {
            Some(l) => l,
            None => DEFAULT_LIMIT,
        }
    }

    fn offset(&self) -> (r: usize) {
        match self.offset {
            Some(o) => o,
            None => 0,
        }
    }

    fn page(&self) -> (r: usize) {
        match self.page {
            Some(p) => p,
            None => 0,
        }
    }

    fn cursor(&self) -> (r: Option<&str>) {
        match &self.cursor {
            Some(c) => Some(c.as_str()),
            None => None,
        }
    }

    fn condition(&self) -> (c: Condition) {
        let ghost criteria = self.spec_criteria();
        let c = Condition::all().add_option(EMAIL, text_value(&self.email)).add_option(USERNAME, text_value(&self.username));
        proof {
            reveal_with_fuel(supplied, 3);
            assert(criteria.drop_last().drop_last() =~= Seq::empty());
            assert(criteria.drop_last() =~= seq![criteria[0]]);
        }
        assert(c@ =~= supplied(criteria));
        c
    }
}

/// The REST capabilities of users.
pub struct RestModel;

impl Rest for RestModel {
    type Create = CreateModel;

    type Update = UpdateModel;

    type Filter = FilterModel;

    open spec fn spec_descriptor() -> EntityView {
        spec_descriptor()
    }

    fn descriptor() -> (d: EntityDescriptor) {
        descriptor()
    }

    proof fn lemma_capabilities() {
        assert(spec_descriptor().columns.len() == WIDTH);
        assert(<CreateModel as Create>::spec_width() == WIDTH);
        assert(<UpdateModel as Update>::spec_width() == WIDTH);
        assert(<RestModel as Rest>::spec_descriptor() == spec_descriptor());
    }
}

} // verus!
