//! The resource builder and the generic CRUD handlers, written once for every entity that
//! provides the [`Rest`] capabilities.

use crate::codec::{decode, join_template, key_segment_names};
use crate::error::{Error, ErrorView};
use crate::extractors::PrimaryKey;
use crate::filter::{lemma_supplied_none, or_default, supplied, Filter, DEFAULT_LIMIT};
use crate::model::{
    apply_diff, fields_diff, fields_fit, key_of, lemma_absent_fields_change_nothing,
    lemma_fields_diff, lemma_single_field_changes_its_column, lemma_with_key, set_primary_key,
    with_key, Create, Record, Update,
};
use crate::pagination::PageNumberPagination;
use crate::rest::Rest;
use crate::store::{
    delete_spec, diff_key, find_spec, insert_outcome, insert_rows, key_is_set, lemma_matching_all,
    lemma_position, matching, position, outcome_view, page_of,
    records_view, table_wf, update_outcome, update_rows, upsert_outcome, upsert_rows, with_generated,
    MemoryStore, Rows,
};
use crate::codec::PathParams;
use crate::value::ValueView;
use core::marker::PhantomData;
use vstd::prelude::*;

verus! {

/// Status of a response with no body.
pub const NO_CONTENT: u16 = 204;

/// An HTTP method of the route table.
#[derive(Clone, Copy, Debug, PartialEq, Eq, Structural)]
pub enum Method {
    Get,
    Post,
    Patch,
    Put,
    Delete,
}

/// The generic handler a route is bound to.
#[derive(Clone, Copy, Debug, PartialEq, Eq, Structural)]
pub enum Handler {
    List,
    Create,
    Get,
    Update,
    Replace,
    Delete,
}

/// One route: method, full path template, and handler.
#[derive(Debug)]
pub struct Route {
    pub method: Method,
    pub path: String,
    pub handler: Handler,
}

pub open spec fn route_view(r: Route) -> (Method, Seq<char>, Handler) {
    (r.method, r.path@, r.handler)
}

/// The canonical route table of a resource at `base` whose key template is `id`.
pub open spec fn route_table(base: Seq<char>, id: Seq<char>) -> Seq<(Method, Seq<char>, Handler)> {
    seq![
        (Method::Get, base, Handler::List),
        (Method::Post, base + "/new"@, Handler::Create),
        (Method::Get, base + "/"@ + id, Handler::Get),
        (Method::Patch, base + "/"@ + id, Handler::Update),
        (Method::Put, base + "/"@ + id, Handler::Replace),
        (Method::Delete, base + "/"@ + id, Handler::Delete),
    ]
}

/// What `get` answers: the record with the key, or `NotFound`.
pub open spec fn get_outcome(
    e: crate::entity::EntityView,
    rows: Rows,
    k: Seq<ValueView>,
) -> Result<Seq<ValueView>, ErrorView> {
    match find_spec(e, rows, k) {
        Some(row) => Ok(row),
        None => Err(ErrorView::NotFound),
    }
}

/// With no filter field supplied, listing answers the first page: the first 20 records in
/// table order (all of them when there are fewer), with a total equal to the number of
/// records.
pub proof fn lemma_default_listing<F: Filter>(query: F, rows: Rows)
    requires
        query.spec_limit() is None,
        query.spec_page() is None,
        forall|i: int|
            0 <= i < query.spec_criteria().len() ==> (#[trigger] query.spec_criteria()[i]).1 is None,
    ensures
        matching(rows, supplied(query.spec_criteria())).len() == rows.len(),
        page_of(
            rows,
            supplied(query.spec_criteria()),
            or_default(query.spec_limit(), DEFAULT_LIMIT) as int,
            or_default(query.spec_page(), 0) as int,
        ) == rows.take(
            if rows.len() < 20 {
                rows.len() as int
            } else {
                20
            },
        ),
{
    lemma_supplied_none(query.spec_criteria());
    lemma_matching_all(rows);
    assert(page_of(rows, Seq::empty(), 20, 0) =~= rows.take(
        if rows.len() < 20 {
            rows.len() as int
        } else {
            20
        },
    ));
}

/// An update addresses the record whose key the path gave, and no other: it answers
/// `NotFound` exactly when no record has that key, and otherwise the changed record, which
/// keeps that key whatever the payload holds.
pub proof fn lemma_update_addresses_path_key(
    e: crate::entity::EntityView,
    rows: Rows,
    d: Seq<Option<ValueView>>,
    k: Seq<ValueView>,
)
    requires
        e.wf(),
        table_wf(e, rows),
        d.len() == e.width(),
        k.len() == e.key.len(),
    ensures
        position(e, rows, k) is None ==> update_outcome(e, rows, with_key(e, d, k)) == Err::<
            Seq<ValueView>,
            ErrorView,
        >(ErrorView::NotFound),
        position(e, rows, k) matches Some(i) ==> update_outcome(e, rows, with_key(e, d, k))
            == Ok::<Seq<ValueView>, ErrorView>(apply_diff(rows[i], with_key(e, d, k))),
        update_outcome(e, rows, with_key(e, d, k)) matches Ok(r) ==> key_of(e, r) == k,
{
    lemma_with_key(e, d, k);
    let w = with_key(e, d, k);
    assert(key_is_set(e, w));
    assert(diff_key(e, w) =~= k);
    lemma_position(e, rows, k);
    if let Some(i) = position(e, rows, k) {
        assert(rows[i].len() == e.width());
        assert(key_of(e, apply_diff(rows[i], w)) =~= k);
    }
}

/// What an update answers for the record with the path's key, when the payload's fields name
/// non-key columns: with no field present, the record unchanged; with exactly one field
/// present, the record with that field's column set to the field's value and every other
/// column as it was.
pub proof fn lemma_update_payload_effect(
    e: crate::entity::EntityView,
    rows: Rows,
    fields: Seq<(int, Option<ValueView>)>,
    k: Seq<ValueView>,
    p: int,
)
    requires
        e.wf(),
        table_wf(e, rows),
        fields_fit(e.width(), fields),
        forall|j: int| 0 <= j < fields.len() ==> !e.key.contains(#[trigger] fields[j].0),
        0 <= p < rows.len(),
        key_of(e, rows[p]) == k,
    ensures
        (forall|j: int| 0 <= j < fields.len() ==> (#[trigger] fields[j]).1 is None) ==> update_outcome(
            e,
            rows,
            with_key(e, fields_diff(e.width(), fields), k),
        ) == Ok::<Seq<ValueView>, ErrorView>(rows[p]),
        forall|i: int|
            0 <= i < fields.len() && (#[trigger] fields[i]).1 is Some && (forall|j: int|
                0 <= j < fields.len() && j != i ==> (#[trigger] fields[j]).1 is None)
                ==> update_outcome(e, rows, with_key(e, fields_diff(e.width(), fields), k))
                == Ok::<Seq<ValueView>, ErrorView>(rows[p].update(fields[i].0, fields[i].1->0)),
{
    let d = fields_diff(e.width(), fields);
    lemma_fields_diff(e.width(), fields);
    lemma_with_key(e, d, k);
    lemma_position(e, rows, k);
    lemma_update_addresses_path_key(e, rows, d, k);
    let row = rows[p];
    assert(row.len() == e.width());
    assert forall|c: int| 0 <= c < e.width() && e.key.contains(c) implies (#[trigger] d[c]) is None by {
        if exists|j: int| 0 <= j < fields.len() && fields[j].0 == c {
            let j = choose|j: int| 0 <= j < fields.len() && fields[j].0 == c;
            assert(!e.key.contains(fields[j].0));
        }
    }
    assert(apply_diff(row, with_key(e, d, k)) =~= apply_diff(row, d)) by {
        assert forall|c: int| 0 <= c < row.len() implies apply_diff(row, with_key(e, d, k))[c]
            == apply_diff(row, d)[c] by {
            if e.key.contains(c) {
                let i = choose|i: int| 0 <= i < e.key.len() && e.key[i] == c;
                assert(key_of(e, row)[i] == row[c]);
            }
        }
    }
    if forall|j: int| 0 <= j < fields.len() ==> (#[trigger] fields[j]).1 is None {
        lemma_absent_fields_change_nothing(e.width(), fields, row);
    }
    assert forall|i: int|
        0 <= i < fields.len() && (#[trigger] fields[i]).1 is Some && (forall|j: int|
            0 <= j < fields.len() && j != i ==> (#[trigger] fields[j]).1 is None) implies update_outcome(
        e,
        rows,
        with_key(e, d, k),
    ) == Ok::<Seq<ValueView>, ErrorView>(rows[p].update(fields[i].0, fields[i].1->0)) by {
        lemma_single_field_changes_its_column(e.width(), fields, row, i);
    }
}

/// The REST resource of the entity `T`, mounted at a base path.
#[derive(Debug)]
pub struct RestModel<T> {
    path: String,
    entity: PhantomData<T>,
}

impl<T: Rest> RestModel<T> {
    /// The base path the resource is mounted at.
    pub closed spec fn base(&self) -> Seq<char> {
        self.path@
    }

    pub fn new(path: &str) -> (r: Self)
        ensures
            r.base() == path@,
    {
        RestModel { path: String::from_str(path), entity: PhantomData }
    }

    /// The route table: list at the base, create at `<base>/new`, and get, update, replace
    /// and delete at `<base>/<id-path>`, the key template taken with no scope.
    pub fn as_service(&self) -> (routes: Vec<Route>)
        ensures
            routes@.map_values(|r: Route| route_view(r)) == route_table(
                self.base(),
                join_template(key_segment_names(T::spec_descriptor(), None)),
            ),
    {
        let id = T::id_path(None);
        let item = self.path.clone().concat("/").concat(id.as_str());
        let mut routes: Vec<Route> = Vec::new();
        routes.push(Route { method: Method::Get, path: self.path.clone(), handler: Handler::List });
        routes.push(
            Route {
                method: Method::Post,
                path: self.path.clone().concat("/new"),
                handler: Handler::Create,
            },
        );
        routes.push(Route { method: Method::Get, path: item.clone(), handler: Handler::Get });
        routes.push(Route { method: Method::Patch, path: item.clone(), handler: Handler::Update });
        routes.push(Route { method: Method::Put, path: item.clone(), handler: Handler::Replace });
        routes.push(Route { method: Method::Delete, path: item, handler: Handler::Delete });
        assert(routes@.map_values(|r: Route| route_view(r)) =~= route_table(
            self.base(),
            join_template(key_segment_names(T::spec_descriptor(), None)),
        ));
        routes
    }

    /// Answers the record with the request's key, or `NotFound`.
    pub fn get(id: &PrimaryKey<T>, store: &MemoryStore) -> (r: Result<Record, Error>)
        requires
            table_wf(T::spec_descriptor(), store@),
            id@.len() == T::spec_descriptor().key.len(),
        ensures
            outcome_view(r) == get_outcome(T::spec_descriptor(), store@, id@),
    {
        proof {
            T::lemma_capabilities();
        }
        let desc = T::descriptor();
        match store.find_by_id(&desc, id.value()) {
            Some(rec) => Ok(rec),
            None => Err(Error::NotFound),
        }
    }

    /// Deletes the record with the request's key and answers "no content"; deleting a key
    /// that no record has is not an error.
    pub fn delete(id: &PrimaryKey<T>, store: &mut MemoryStore) -> (status: u16)
        requires
            table_wf(T::spec_descriptor(), old(store)@),
            id@.len() == T::spec_descriptor().key.len(),
        ensures
            status == NO_CONTENT,
            final(store)@ == delete_spec(T::spec_descriptor(), old(store)@, id@),
            table_wf(T::spec_descriptor(), final(store)@),
    {
        proof {
            T::lemma_capabilities();
        }
        let desc = T::descriptor();
        store.delete_by_id(&desc, id.value());
        NO_CONTENT
    }

    /// Inserts the record the payload describes and answers it.
    pub fn create(body: T::Create, store: &mut MemoryStore) -> (r: Result<Record, Error>)
        requires
            table_wf(T::spec_descriptor(), old(store)@),
        ensures
            outcome_view(r) == insert_outcome(
                T::spec_descriptor(),
                old(store)@,
                with_generated(
                    T::spec_descriptor(),
                    fields_diff(T::spec_descriptor().width(), body.spec_fields()),
                    old(store).next_id(),
                ),
            ),
            final(store)@ == insert_rows(
                T::spec_descriptor(),
                old(store)@,
                with_generated(
                    T::spec_descriptor(),
                    fields_diff(T::spec_descriptor().width(), body.spec_fields()),
                    old(store).next_id(),
                ),
            ),
            table_wf(T::spec_descriptor(), final(store)@),
    {
        proof {
            T::lemma_capabilities();
        }
        let desc = T::descriptor();
        let active_model = body.into_active_model();
        store.insert(&desc, &active_model)
    }

    /// Applies the payload's present fields to the record with the request's key and
    /// answers the result. The key comes from the path alone: an update cannot move a
    /// record to another key.
    pub fn update(id: &PrimaryKey<T>, body: T::Update, store: &mut MemoryStore) -> (r: Result<
        Record,
        Error,
    >)
        requires
            table_wf(T::spec_descriptor(), old(store)@),
            id@.len() == T::spec_descriptor().key.len(),
        ensures
            outcome_view(r) == update_outcome(
                T::spec_descriptor(),
                old(store)@,
                with_key(
                    T::spec_descriptor(),
                    fields_diff(T::spec_descriptor().width(), body.spec_fields()),
                    id@,
                ),
            ),
            final(store)@ == update_rows(
                T::spec_descriptor(),
                old(store)@,
                with_key(
                    T::spec_descriptor(),
                    fields_diff(T::spec_descriptor().width(), body.spec_fields()),
                    id@,
                ),
            ),
            table_wf(T::spec_descriptor(), final(store)@),
    {
        proof {
            T::lemma_capabilities();
        }
        let desc = T::descriptor();
        let ghost fields = body.spec_fields();
        let mut active_model = body.into_active_model();
        proof {
            lemma_fields_diff(T::spec_descriptor().width(), fields);
        }
        set_primary_key(&desc, id.value(), &mut active_model);
        store.update(&desc, &active_model)
    }

    /// Replaces, or creates, the record with the path's key by the one the payload
    /// describes, and answers it.
    pub fn replace(path: &PathParams, body: T::Create, store: &mut MemoryStore) -> (r: Result<
        Record,
        Error,
    >)
        requires
            table_wf(T::spec_descriptor(), old(store)@),
        ensures
            table_wf(T::spec_descriptor(), final(store)@),
            match decode(T::spec_descriptor(), None, path@) {
                Err(err) => outcome_view(r) == Err::<Seq<ValueView>, ErrorView>(err)
                    && final(store)@ == old(store)@,
                Ok(k) => outcome_view(r) == upsert_outcome(
                    T::spec_descriptor(),
                    old(store)@,
                    with_key(
                        T::spec_descriptor(),
                        fields_diff(T::spec_descriptor().width(), body.spec_fields()),
                        k,
                    ),
                ) && final(store)@ == upsert_rows(
                    T::spec_descriptor(),
                    old(store)@,
                    with_key(
                        T::spec_descriptor(),
                        fields_diff(T::spec_descriptor().width(), body.spec_fields()),
                        k,
                    ),
                ),
            },
    {
        proof {
            T::lemma_capabilities();
        }
        let desc = T::descriptor();
        let ghost fields = body.spec_fields();
        let mut active_model = body.into_active_model();
        proof {
            lemma_fields_diff(T::spec_descriptor().width(), fields);
            crate::codec::lemma_decode_len(T::spec_descriptor(), None, path@);
        }
        let id = match T::id_from_path(None, path) {
            Ok(id) => id,
            Err(e) => {
                return Err(e);
            },
        };
        set_primary_key(&desc, &id, &mut active_model);
        store.upsert(&desc, &active_model)
    }

    /// Answers one page of the records that meet the query's supplied criteria, with the
    /// count of all of them.
    pub fn list(query: &T::Filter, store: &MemoryStore) -> (r: PageNumberPagination<Record>)
        ensures
            r.total == matching(store@, supplied(query.spec_criteria())).len(),
            records_view(r.items@) == page_of(
                store@,
                supplied(query.spec_criteria()),
                or_default(query.spec_limit(), DEFAULT_LIMIT) as int,
                or_default(query.spec_page(), 0) as int,
            ),
    {
        let page = query.page();
        let limit = query.limit();
        let condition = query.condition();
        let total = store.count(&condition);
        let items = store.fetch_page(&condition, limit, page);
        PageNumberPagination { total, items }
    }
}

} // verus!
