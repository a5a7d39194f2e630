use woof::codec::PathParams;
use woof::middleware;
use woof::model::{ActiveModel, Record};
use woof::rest_model::{Handler, Method, NO_CONTENT};
use woof::store::MemoryStore;
use woof::value::Value;
use woof::{comments, posts, users, votes, Error, PrimaryKey, RestModel};

const POST_ID: u128 = 0xa1a2a3a4_b1b2_c1c2_d1d2_d3d4d5d6d7d8;
const USER_ID: u128 = 0x67e55044_10b1_426f_9247_bb680e5fe0c8;
const POST_TEXT: &str = "a1a2a3a4-b1b2-c1c2-d1d2-d3d4d5d6d7d8";
const USER_TEXT: &str = "67e55044-10b1-426f-9247-bb680e5fe0c8";

fn path(entries: &[(&str, &str)]) -> PathParams {
    let mut p = PathParams::new();
    for (name, segment) in entries {
        p.add(name, segment);
    }
    p
}

fn text(s: &str) -> Value {
    Value::Text(s.to_string())
}

fn post_record(id: u128, title: &str, content: &str, author: u128) -> Record {
    Record { values: vec![Value::Uuid(id), text(title), text(content), Value::Uuid(author)] }
}

fn store_with_post() -> MemoryStore {
    let mut store = MemoryStore::new();
    let created = RestModel::<posts::RestModel>::replace(
        &path(&[("id", POST_TEXT)]),
        posts::CreateModel { title: "A".to_string(), content: "x".to_string(), author: USER_ID },
        &mut store,
    )
    .unwrap();
    assert_eq!(created, post_record(POST_ID, "A", "x", USER_ID));
    store
}

fn no_filter() -> posts::FilterModel {
    posts::FilterModel {
        limit: None,
        offset: None,
        page: None,
        cursor: None,
        title: None,
        author: None,
    }
}

#[test]
fn patch_changes_only_the_given_field() {
    let mut store = store_with_post();
    let id = PrimaryKey::<posts::RestModel>::from_request(None, &path(&[("id", POST_TEXT)])).unwrap();
    let body = posts::UpdateModel { title: Some("B".to_string()), content: None };
    let updated = RestModel::<posts::RestModel>::update(&id, body, &mut store).unwrap();
    assert_eq!(updated, post_record(POST_ID, "B", "x", USER_ID));
    let fetched = RestModel::<posts::RestModel>::get(&id, &store).unwrap();
    assert_eq!(fetched, post_record(POST_ID, "B", "x", USER_ID));
}

#[test]
fn patch_of_absent_record_is_not_found() {
    let mut store = MemoryStore::new();
    let id = PrimaryKey::<posts::RestModel>::from_request(None, &path(&[("id", POST_TEXT)])).unwrap();
    let body = posts::UpdateModel { title: Some("B".to_string()), content: None };
    let r = RestModel::<posts::RestModel>::update(&id, body, &mut store);
    assert!(matches!(r, Err(Error::NotFound)));
    assert_eq!(store.len(), 0);
}

#[test]
fn vote_by_composite_key_is_absent_then_created() {
    let mut store = MemoryStore::new();
    let p = path(&[("post", POST_TEXT), ("voter", USER_TEXT)]);
    let id = PrimaryKey::<votes::RestModel>::from_request(None, &p).unwrap();
    let before = RestModel::<votes::RestModel>::get(&id, &store);
    assert!(matches!(before, Err(Error::NotFound)));
    assert_eq!(before.unwrap_err().status_code(), 404);
    let body = votes::CreateModel { post: POST_ID, voter: USER_ID, positive: true };
    let created = RestModel::<votes::RestModel>::create(body, &mut store).unwrap();
    let expected = Record { values: vec![Value::Uuid(POST_ID), Value::Uuid(USER_ID), Value::Bool(true)] };
    assert_eq!(created, expected);
    assert_eq!(RestModel::<votes::RestModel>::get(&id, &store).unwrap(), expected);
}

#[test]
fn delete_of_absent_record_is_no_content() {
    let mut store = MemoryStore::new();
    let id = PrimaryKey::<users::RestModel>::from_request(None, &path(&[("id", USER_TEXT)])).unwrap();
    assert_eq!(RestModel::<users::RestModel>::delete(&id, &mut store), 204);
    assert_eq!(NO_CONTENT, 204);
}

#[test]
fn delete_removes_the_record() {
    let mut store = store_with_post();
    let id = PrimaryKey::<posts::RestModel>::from_request(None, &path(&[("id", POST_TEXT)])).unwrap();
    assert_eq!(RestModel::<posts::RestModel>::delete(&id, &mut store), NO_CONTENT);
    assert_eq!(store.len(), 0);
    assert!(matches!(RestModel::<posts::RestModel>::get(&id, &store), Err(Error::NotFound)));
}

#[test]
fn create_twice_with_same_key_conflicts() {
    let mut store = MemoryStore::new();
    let body = votes::CreateModel { post: POST_ID, voter: USER_ID, positive: true };
    RestModel::<votes::RestModel>::create(body.clone(), &mut store).unwrap();
    let again = RestModel::<votes::RestModel>::create(body, &mut store);
    assert!(matches!(again, Err(Error::Conflict(_))));
    assert_eq!(store.len(), 1);
}

#[test]
fn create_generates_the_missing_key() {
    let mut store = MemoryStore::new();
    let body = posts::CreateModel { title: "A".to_string(), content: "x".to_string(), author: USER_ID };
    let first = RestModel::<posts::RestModel>::create(body.clone(), &mut store).unwrap();
    assert_eq!(first, post_record(1, "A", "x", USER_ID));
    let second = RestModel::<posts::RestModel>::create(body, &mut store).unwrap();
    assert_eq!(second, post_record(2, "A", "x", USER_ID));
    assert_eq!(store.len(), 2);
}

#[test]
fn generated_key_that_is_taken_conflicts() {
    let mut store = MemoryStore::new();
    RestModel::<users::RestModel>::replace(
        &path(&[("id", "00000000-0000-0000-0000-000000000001")]),
        users::CreateModel { username: "a".to_string(), email: "a@x".to_string() },
        &mut store,
    )
    .unwrap();
    let body = users::CreateModel { username: "b".to_string(), email: "b@x".to_string() };
    let r = RestModel::<users::RestModel>::create(body.clone(), &mut store);
    assert!(matches!(r, Err(Error::Conflict(_))));
    assert_eq!(r.unwrap_err().status_code(), 409);
    let again = RestModel::<users::RestModel>::create(body, &mut store).unwrap();
    assert_eq!(again.values[0], Value::Uuid(2));
}

#[test]
fn replace_overwrites_every_column() {
    let mut store = store_with_post();
    let replaced = RestModel::<posts::RestModel>::replace(
        &path(&[("id", POST_TEXT)]),
        posts::CreateModel { title: "C".to_string(), content: "y".to_string(), author: POST_ID },
        &mut store,
    )
    .unwrap();
    assert_eq!(replaced, post_record(POST_ID, "C", "y", POST_ID));
    assert_eq!(store.len(), 1);
}

#[test]
fn replace_with_bad_path_changes_nothing() {
    let mut store = store_with_post();
    let r = RestModel::<posts::RestModel>::replace(
        &path(&[("id", "POST_ID")]),
        posts::CreateModel { title: "C".to_string(), content: "y".to_string(), author: POST_ID },
        &mut store,
    );
    assert!(matches!(r, Err(Error::InvalidPathSegment(_))));
    let missing = RestModel::<posts::RestModel>::replace(
        &PathParams::new(),
        posts::CreateModel { title: "C".to_string(), content: "y".to_string(), author: POST_ID },
        &mut store,
    );
    assert!(matches!(missing, Err(Error::MissingPathSegment(_))));
    let id = PrimaryKey::<posts::RestModel>::from_request(None, &path(&[("id", POST_TEXT)])).unwrap();
    assert_eq!(RestModel::<posts::RestModel>::get(&id, &store).unwrap(), post_record(POST_ID, "A", "x", USER_ID));
}

#[test]
fn list_without_filters_is_first_page_of_twenty() {
    let mut store = MemoryStore::new();
    for i in 0..25u128 {
        let p = path(&[("id", &format!("00000000-0000-0000-0000-{:012x}", i + 1))]);
        RestModel::<posts::RestModel>::replace(
            &p,
            posts::CreateModel { title: format!("t{i}"), content: "c".to_string(), author: USER_ID },
            &mut store,
        )
        .unwrap();
    }
    let page = RestModel::<posts::RestModel>::list(&no_filter(), &store);
    assert_eq!(page.total, 25);
    assert_eq!(page.items.len(), 20);
    assert_eq!(page.items[0], post_record(1, "t0", "c", USER_ID));
    assert_eq!(page.items[19], post_record(20, "t19", "c", USER_ID));
}

#[test]
fn list_with_fewer_records_than_a_page() {
    let store = store_with_post();
    let page = RestModel::<posts::RestModel>::list(&no_filter(), &store);
    assert_eq!(page.total, 1);
    assert_eq!(page.items, vec![post_record(POST_ID, "A", "x", USER_ID)]);
}

#[test]
fn list_filters_and_pages() {
    let mut store = MemoryStore::new();
    for i in 0..5u128 {
        let p = path(&[("id", &format!("00000000-0000-0000-0000-{:012x}", i + 1))]);
        let author = if i % 2 == 0 { USER_ID } else { POST_ID };
        RestModel::<posts::RestModel>::replace(
            &p,
            posts::CreateModel { title: format!("t{i}"), content: "c".to_string(), author },
            &mut store,
        )
        .unwrap();
    }
    let mut query = no_filter();
    query.author = Some(USER_ID);
    query.limit = Some(2);
    query.page = Some(1);
    let page = RestModel::<posts::RestModel>::list(&query, &store);
    assert_eq!(page.total, 3);
    assert_eq!(page.items, vec![post_record(5, "t4", "c", USER_ID)]);
    let mut by_title = no_filter();
    by_title.title = Some("t1".to_string());
    let page = RestModel::<posts::RestModel>::list(&by_title, &store);
    assert_eq!(page.total, 1);
    assert_eq!(page.items, vec![post_record(2, "t1", "c", POST_ID)]);
    let mut far = no_filter();
    far.page = Some(usize::MAX);
    let page = RestModel::<posts::RestModel>::list(&far, &store);
    assert_eq!(page.total, 5);
    assert!(page.items.is_empty());
}

#[test]
fn route_table_is_canonical() {
    let routes = RestModel::<votes::RestModel>::new("/votes").as_service();
    let got: Vec<(Method, String, Handler)> =
        routes.into_iter().map(|r| (r.method, r.path, r.handler)).collect();
    assert_eq!(
        got,
        vec![
            (Method::Get, "/votes".to_string(), Handler::List),
            (Method::Post, "/votes/new".to_string(), Handler::Create),
            (Method::Get, "/votes/{post}/{voter}".to_string(), Handler::Get),
            (Method::Patch, "/votes/{post}/{voter}".to_string(), Handler::Update),
            (Method::Put, "/votes/{post}/{voter}".to_string(), Handler::Replace),
            (Method::Delete, "/votes/{post}/{voter}".to_string(), Handler::Delete),
        ]
    );
    let routes = RestModel::<comments::RestModel>::new("/comments").as_service();
    assert_eq!(routes[2].path, "/comments/{id}");
}

#[test]
fn extraction_step_caches_or_omits() {
    let step = middleware::PrimaryKey::<votes::RestModel>::new().new_transform();
    let good = path(&[("post", POST_TEXT), ("voter", USER_TEXT)]);
    let cached = step.call(&good);
    assert_eq!(cached.as_ref().unwrap().values, vec![Value::Uuid(POST_ID), Value::Uuid(USER_ID)]);
    let id = PrimaryKey::<votes::RestModel>::from_request(cached, &good).unwrap();
    assert_eq!(id.value().values, vec![Value::Uuid(POST_ID), Value::Uuid(USER_ID)]);
    let bad = path(&[("post", POST_TEXT)]);
    assert!(step.call(&bad).is_none());
    match PrimaryKey::<votes::RestModel>::from_request(None, &bad) {
        Err(Error::MissingPathSegment(name)) => assert_eq!(name, "voter"),
        other => panic!("unexpected {:?}", other.map(|k| k.value().values.len())),
    }
}

#[test]
fn store_insert_requires_every_column() {
    let desc = votes::descriptor();
    let mut store = MemoryStore::new();
    let mut am = ActiveModel::unset(3);
    am.set_column(0, Value::Uuid(POST_ID));
    assert!(matches!(store.insert(&desc, &am), Err(Error::Backend(_))));
    am.set_column(1, Value::Uuid(USER_ID));
    am.set_column(2, Value::Bool(false));
    assert!(store.insert(&desc, &am).is_ok());
    assert_eq!(store.len(), 1);
}

#[test]
fn list_with_largest_limit() {
    let store = store_with_post();
    let mut query = no_filter();
    query.limit = Some(usize::MAX);
    let page = RestModel::<posts::RestModel>::list(&query, &store);
    assert_eq!(page.total, 1);
    assert_eq!(page.items.len(), 1);
    query.page = Some(1);
    let page = RestModel::<posts::RestModel>::list(&query, &store);
    assert_eq!(page.total, 1);
    assert!(page.items.is_empty());
    query.limit = Some(0);
    query.page = None;
    let page = RestModel::<posts::RestModel>::list(&query, &store);
    assert!(page.items.is_empty());
}
