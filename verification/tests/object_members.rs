use notification_bridge::json::Json;
use notification_bridge::members::{
    alike, has_distinct_keys, last_index_of, put, settle, without_key,
};

fn member(key: &str, value: i64) -> (String, Json) {
    (String::from(key), Json::Int(value))
}

#[test]
fn last_index_of_finds_the_last_member_of_a_key() {
    let members = vec![member("a", 1), member("b", 2), member("a", 3)];
    assert_eq!(last_index_of(&members, 3, "a"), Some(2));
    assert_eq!(last_index_of(&members, 2, "a"), Some(0));
    assert_eq!(last_index_of(&members, 3, "b"), Some(1));
    assert_eq!(last_index_of(&members, 1, "b"), None);
    assert_eq!(last_index_of(&members, 0, "a"), None);
    assert_eq!(last_index_of(&members, 3, "c"), None);
}

#[test]
fn without_key_leaves_the_other_members_in_order() {
    let members = vec![member("a", 1), member("b", 2), member("a", 3), member("c", 4)];
    assert_eq!(without_key(&members, "a"), vec![member("b", 2), member("c", 4)]);
    assert_eq!(without_key(&members, "z"), members);
    assert_eq!(without_key(&vec![], "a"), vec![]);
}

#[test]
fn put_replaces_and_appends() {
    let members = vec![member("a", 1), member("b", 2)];
    assert_eq!(put(&members, "a", Json::Int(9)), vec![member("b", 2), member("a", 9)]);
    assert_eq!(
        put(&members, "c", Json::Int(3)),
        vec![member("a", 1), member("b", 2), member("c", 3)]
    );
}

#[test]
fn settle_keeps_the_last_member_of_each_key() {
    let members = vec![member("a", 1), member("b", 2), member("a", 3), member("b", 4), member("c", 5)];
    assert_eq!(settle(&members), vec![member("a", 3), member("b", 4), member("c", 5)]);
    let distinct = vec![member("x", 1), member("y", 2)];
    assert_eq!(settle(&distinct), distinct);
}

#[test]
fn has_distinct_keys_finds_a_repeated_key() {
    assert!(has_distinct_keys(&vec![]));
    assert!(has_distinct_keys(&vec![member("a", 1), member("b", 1)]));
    assert!(!has_distinct_keys(&vec![member("a", 1), member("b", 1), member("a", 1)]));
}

fn object(members: Vec<(&str, Json)>) -> Json {
    Json::Object(members.into_iter().map(|(k, v)| (String::from(k), v)).collect())
}

#[test]
fn alike_does_not_look_at_the_order_of_members() {
    let a = object(vec![("x", Json::Int(1)), ("y", object(vec![("p", Json::Null), ("q", Json::Bool(true))]))]);
    let b = object(vec![("y", object(vec![("q", Json::Bool(true)), ("p", Json::Null)])), ("x", Json::Int(1))]);
    assert!(alike(&a, &b));
    assert!(alike(&b, &a));
    assert!(alike(&a, &a));
    assert_ne!(a, b);
}

#[test]
fn alike_goes_by_the_last_member_of_a_key() {
    let a = object(vec![("x", Json::Int(1)), ("x", Json::Int(2))]);
    assert!(alike(&a, &object(vec![("x", Json::Int(2))])));
    assert!(alike(&object(vec![("x", Json::Int(2))]), &a));
    assert!(!alike(&a, &object(vec![("x", Json::Int(1))])));
}

#[test]
fn alike_tells_documents_apart() {
    let a = object(vec![("x", Json::Int(1))]);
    assert!(!alike(&a, &object(vec![("x", Json::Int(1)), ("y", Json::Int(2))])));
    assert!(!alike(&object(vec![("x", Json::Int(1)), ("y", Json::Int(2))]), &a));
    assert!(!alike(&a, &object(vec![("y", Json::Int(1))])));
    assert!(!alike(&a, &Json::Array(vec![])));
    assert!(!alike(&Json::Null, &Json::Bool(false)));
    assert!(!alike(&Json::Int(1), &Json::Decimal(String::from("1"))));
    let list = Json::Array(vec![Json::Int(1), Json::Int(2)]);
    assert!(alike(&list, &Json::Array(vec![Json::Int(1), Json::Int(2)])));
    assert!(!alike(&list, &Json::Array(vec![Json::Int(2), Json::Int(1)])));
    assert!(!alike(&list, &Json::Array(vec![Json::Int(1)])));
    assert!(alike(&Json::Text(String::from("t")), &Json::Text(String::from("t"))));
    assert!(!alike(&Json::Text(String::from("t")), &Json::Text(String::from("u"))));
}
