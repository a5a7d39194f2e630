//! Posts: a title, a body and an author, keyed by a UUID the database generates.

use crate::entity::{Column, EntityDescriptor, EntityView};
use crate::filter::{supplied, Condition, Filter, DEFAULT_LIMIT};
use crate::model::{fields_diff, ActiveModel, Create, Update};
use crate::rest::Rest;
use crate::value::{text_opt, text_value, uuid_opt, uuid_value, Value, ValueKind, ValueView};
use vstd::prelude::*;

verus! {

pub const ID: usize = 0;

pub const TITLE: usize = 1;

pub const CONTENT: usize = 2;

pub const AUTHOR: usize = 3;

pub const WIDTH: usize = 4;

pub open spec fn spec_descriptor() -> EntityView {
    EntityView {
        table: "posts"@,
        columns: seq![
            ("id"@, ValueKind::Uuid),
            ("title"@, ValueKind::Text),
            ("content"@, ValueKind::Text),
            ("author"@, ValueKind::Uuid),
        ],
        key: seq![ID as int],
    }
}

pub fn descriptor() -> (d: EntityDescriptor)
    ensures
        d@ == spec_descriptor(),
{
    let mut columns: Vec<Column> = Vec::new();
    columns.push(Column { name: String::from_str("id"), kind: ValueKind::Uuid });
    columns.push(Column { name: String::from_str("title"), kind: ValueKind::Text });
    columns.push(Column { name: String::from_str("content"), kind: ValueKind::Text });
    columns.push(Column { name: String::from_str("author"), kind: ValueKind::Uuid });
    let mut key: Vec<usize> = Vec::new();
    key.push(ID);
    let d = EntityDescriptor { table: String::from_str("posts"), columns, key };
    assert(d@.columns =~= spec_descriptor().columns);
    assert(d@.key =~= spec_descriptor().key);
    d
}

/// A new post: every field given; the id is generated.
#[derive(Clone, Debug, PartialEq, Eq)]
pub struct CreateModel {
    pub title: String,
    pub content: String,
    pub author: u128,
}

impl Create for CreateModel {
    open spec fn spec_width() -> nat {
        WIDTH as nat
    }

    open spec fn spec_fields(&self) -> Seq<(int, Option<ValueView>)> {
        seq![
            (TITLE as int, Some(ValueView::Text(self.title@))),
            (CONTENT as int, Some(ValueView::Text(self.content@))),
            (AUTHOR as int, Some(ValueView::Uuid(self.author))),
        ]
    }

    fn into_active_model(self) -> (m: ActiveModel) {
        let ghost fields = self.spec_fields();
        let mut m = ActiveModel::unset(WIDTH);
        m.set_column(TITLE, Value::Text(self.title));
        m.set_column(CONTENT, Value::Text(self.content));
        m.set_column(AUTHOR, Value::Uuid(self.author));
        proof {
            reveal_with_fuel(fields_diff, 4);
            assert(fields.drop_last().drop_last().drop_last() =~= Seq::empty());
            assert(fields.drop_last().drop_last() =~= seq![fields[0]]);
            assert(fields.drop_last() =~= seq![fields[0], fields[1]]);
        }
        assert(m@ =~= fields_diff(WIDTH as nat, fields));
        m
    }
}

/// Changes to a post: each field optional.
#[derive(Clone, Debug, PartialEq, Eq)]
pub struct UpdateModel {
    pub title: Option<String>,
    pub content: Option<String>,
}

impl Update for UpdateModel {
    open spec fn spec_width() -> nat {
        WIDTH as nat
    }

    open spec fn spec_fields(&self) -> Seq<(int, Option<ValueView>)> {
        seq![(TITLE as int, text_opt(self.title)), (CONTENT as int, text_opt(self.content))]
    }

    fn into_active_model(self) -> (m: ActiveModel) {
        let ghost fields = self.spec_fields();
        let mut m = ActiveModel::unset(WIDTH);
        match self.title {
            Some(t) => m.set_column(TITLE, Value::Text(t)),
            None => {},
        }
        match self.content {
            Some(c) => m.set_column(CONTENT, Value::Text(c)),
            None => {},
        }
        proof {
            reveal_with_fuel(fields_diff, 3);
            assert(fields.drop_last().drop_last() =~= Seq::empty());
            assert(fields.drop_last() =~= seq![fields[0]]);
        }
        assert(m@ =~= fields_diff(WIDTH as nat, fields));
        m
    }
}

/// A listing query over posts.
#[derive(Clone, Debug, PartialEq, Eq)]
pub struct FilterModel {
    pub limit: Option<usize>,
    pub offset: Option<usize>,
    pub page: Option<usize>,
    pub cursor: Option<String>,
    pub title: Option<String>,
    pub author: Option<u128>,
}

impl Filter for FilterModel {
    open spec fn spec_limit(&self) -> Option<usize> {
        self.limit
    }

    open spec fn spec_offset(&self) -> Option<usize> {
        self.offset
    }

    open spec fn spec_page(&self) -> Option<usize> {
        self.page
    }

    open spec fn spec_cursor(&self) -> Option<Seq<char>> {
        match self.cursor {
            Some(c) => Some(c@),
            None => None,
        }
    }

    open spec fn spec_criteria(&self) -> Seq<(int, Option<ValueView>)> {
        seq![(TITLE as int, text_opt(self.title)), (AUTHOR as int, uuid_opt(self.author))]
    }

    fn limit(&self) -> (r: usize) {
        match self.limit {
            Some(l) => l,
            None => DEFAULT_LIMIT,
        }
    }

    fn offset(&self) -> (r: usize) {
        match self.offset {
            Some(o) => o,
            None => 0,
        }
    }

    fn page(&self) -> (r: usize) {
        match self.page {
            Some(p) => p,
            None => 0,
        }
    }

    fn cursor(&self) -> (r: Option<&str>) {
        match &self.cursor {
            Some(c) => Some(c.as_str()),
            None => None,
        }
    }

    fn condition(&self) -> (c: Condition) {
        let ghost criteria = self.spec_criteria();
        let c = Condition::all().add_option(TITLE, text_value(&self.title)).add_option(
            AUTHOR,
            uuid_value(&self.author),
        );
        proof {
            reveal_with_fuel(supplied, 3);
            assert(criteria.drop_last().drop_last() =~= Seq::empty());
            assert(criteria.drop_last() =~= seq![criteria[0]]);
        }
        assert(c@ =~= supplied(criteria));
        c
    }
}

/// The REST capabilities of posts.
pub struct RestModel;

impl Rest for RestModel {
    type Create = CreateModel;

    type Update = UpdateModel;

    type Filter = FilterModel;

    open spec fn spec_descriptor() -> EntityView {
        spec_descriptor()
    }

    fn descriptor() -> (d: EntityDescriptor) {
        descriptor()
    }

    proof fn lemma_capabilities() {
        assert(spec_descriptor().columns.len() == WIDTH);
        assert(<CreateModel as Create>::spec_width() == WIDTH);
        assert(<UpdateModel as Update>::spec_width() == WIDTH);
        assert(<RestModel as Rest>::spec_descriptor() == spec_descriptor());
    }
}

} // verus!
