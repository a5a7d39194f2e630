use woof::filter::{Condition, DEFAULT_LIMIT};
use woof::model::{ActiveModel, ActiveValue};
use woof::value::Value;
use woof::{comments, posts, users, votes, Create, Filter, Update};

const USER_ID: u128 = 0x67e55044_10b1_426f_9247_bb680e5fe0c8;

fn set_columns(m: &ActiveModel) -> Vec<usize> {
    m.values
        .iter()
        .enumerate()
        .filter(|(_, v)| matches!(v, ActiveValue::SetTo(_)))
        .map(|(i, _)| i)
        .collect()
}

fn value_at(m: &ActiveModel, i: usize) -> Option<Value> {
    match &m.values[i] {
        ActiveValue::SetTo(v) => Some(v.clone()),
        ActiveValue::Unset => None,
    }
}

#[test]
fn empty_update_sets_no_column() {
    let m = posts::UpdateModel { title: None, content: None }.into_active_model();
    assert_eq!(m.values.len(), 4);
    assert!(set_columns(&m).is_empty());
    let m = users::UpdateModel { username: None, email: None }.into_active_model();
    assert!(set_columns(&m).is_empty());
    let m = votes::UpdateModel { positive: None }.into_active_model();
    assert!(set_columns(&m).is_empty());
    let m = comments::UpdateModel { content: None }.into_active_model();
    assert!(set_columns(&m).is_empty());
}

#[test]
fn single_field_update_sets_that_column_only() {
    let m = posts::UpdateModel { title: None, content: Some("new".to_string()) }.into_active_model();
    assert_eq!(set_columns(&m), vec![posts::CONTENT]);
    assert_eq!(value_at(&m, posts::CONTENT), Some(Value::Text("new".to_string())));
    let m = users::UpdateModel { username: Some("ann".to_string()), email: None }.into_active_model();
    assert_eq!(set_columns(&m), vec![users::USERNAME]);
    let m = votes::UpdateModel { positive: Some(false) }.into_active_model();
    assert_eq!(set_columns(&m), vec![votes::POSITIVE]);
    assert_eq!(value_at(&m, votes::POSITIVE), Some(Value::Bool(false)));
}

#[test]
fn create_sets_every_given_field_and_leaves_generated_key_unset() {
    let m = posts::CreateModel { title: "A".to_string(), content: "x".to_string(), author: USER_ID }
        .into_active_model();
    assert_eq!(set_columns(&m), vec![posts::TITLE, posts::CONTENT, posts::AUTHOR]);
    assert_eq!(value_at(&m, posts::AUTHOR), Some(Value::Uuid(USER_ID)));
    let m = votes::CreateModel { voter: USER_ID, post: 7, positive: true }.into_active_model();
    assert_eq!(set_columns(&m), vec![votes::POST, votes::VOTER, votes::POSITIVE]);
    assert_eq!(value_at(&m, votes::POST), Some(Value::Uuid(7)));
    assert_eq!(value_at(&m, votes::VOTER), Some(Value::Uuid(USER_ID)));
    let m = comments::CreateModel { content: "c".to_string(), author: 1, post: 2 }.into_active_model();
    assert_eq!(set_columns(&m), vec![comments::CONTENT, comments::AUTHOR, comments::POST]);
    let m = users::CreateModel { username: "u".to_string(), email: "e".to_string() }.into_active_model();
    assert_eq!(set_columns(&m), vec![users::USERNAME, users::EMAIL]);
}

#[test]
fn filter_defaults_apply_when_fields_are_absent() {
    let f = votes::FilterModel {
        limit: None,
        offset: None,
        page: None,
        cursor: None,
        positive: None,
        voter: None,
        post: None,
    };
    assert_eq!(f.limit(), 20);
    assert_eq!(DEFAULT_LIMIT, 20);
    assert_eq!(f.offset(), 0);
    assert_eq!(f.page(), 0);
    assert_eq!(f.cursor(), None);
    assert!(f.condition().constraints.is_empty());
}

#[test]
fn filter_fields_are_read_from_their_own_values() {
    let f = users::FilterModel {
        limit: Some(5),
        offset: Some(10),
        page: Some(3),
        cursor: Some("c1".to_string()),
        email: Some("a@b".to_string()),
        username: None,
    };
    assert_eq!(f.limit(), 5);
    assert_eq!(f.offset(), 10);
    assert_eq!(f.page(), 3);
    assert_eq!(f.cursor(), Some("c1"));
    let c = f.condition();
    assert_eq!(c.constraints, vec![(users::EMAIL, Value::Text("a@b".to_string()))]);
}

#[test]
fn condition_holds_supplied_criteria_in_order() {
    let f = votes::FilterModel {
        limit: None,
        offset: None,
        page: None,
        cursor: None,
        positive: Some(true),
        voter: None,
        post: Some(9),
    };
    assert_eq!(
        f.condition().constraints,
        vec![(votes::POSITIVE, Value::Bool(true)), (votes::POST, Value::Uuid(9))]
    );
    let f = comments::FilterModel {
        limit: None,
        offset: None,
        page: None,
        cursor: None,
        title: Some("ignored".to_string()),
        author: Some(4),
        post: None,
    };
    assert_eq!(f.condition().constraints, vec![(comments::AUTHOR, Value::Uuid(4))]);
    let c = Condition::all().add(0, Value::Bool(true));
    assert_eq!(c.constraints.len(), 1);
}
