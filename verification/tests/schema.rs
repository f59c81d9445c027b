use tudu_auth::errors::ServiceError;
use tudu_auth::schema::{Sessions, Users};

fn time(seconds: i64) -> chrono::NaiveDateTime {
    chrono::DateTime::from_timestamp(seconds, 0).unwrap().naive_utc()
}

#[test]
fn users_create_assigns_ids_from_one() {
    let mut users = Users::new();
    let a = users.create("a@x.com".to_string(), vec![1], time(1)).unwrap();
    let b = users.create("b@x.com".to_string(), vec![2], time(2)).unwrap();
    assert_eq!((a.user_id, b.user_id), (1, 2));
    assert_eq!(a.email, "a@x.com");
    assert_eq!(a.password, vec![1]);
    assert_eq!(a.created_at, time(1));
    assert!(users.contains_id(1));
    assert!(users.contains_id(2));
    assert!(!users.contains_id(0));
    assert!(!users.contains_id(3));
}

#[test]
fn users_create_refuses_a_taken_email() {
    let mut users = Users::new();
    let first = users.create("a@x.com".to_string(), vec![1], time(1)).unwrap();
    let again = users.create("a@x.com".to_string(), vec![9], time(9));
    assert_eq!(again, Err(ServiceError::InternalError));
    assert_eq!(users.find_by_email("a@x.com"), Some(first));
    // The refused row took no id.
    assert_eq!(users.create("b@x.com".to_string(), vec![2], time(2)).unwrap().user_id, 2);
}

#[test]
fn users_find_by_email_is_exact() {
    let mut users = Users::new();
    assert_eq!(users.find_by_email("a@x.com"), None);
    let a = users.create("a@x.com".to_string(), vec![1], time(1)).unwrap();
    let b = users.create("b@x.com".to_string(), vec![2], time(2)).unwrap();
    assert_eq!(users.find_by_email("a@x.com"), Some(a));
    assert_eq!(users.find_by_email("b@x.com"), Some(b));
    assert_eq!(users.find_by_email("B@x.com"), None);
    assert_eq!(users.find_by_email("a@x.co"), None);
    assert_eq!(users.find_by_email(""), None);
}

#[test]
fn sessions_create_refuses_a_taken_token() {
    let mut sessions = Sessions::new();
    let s = sessions.create(1, "one".to_string(), time(1)).unwrap();
    assert_eq!((s.session_id.as_str(), s.user_id, s.created_at), ("one", 1, time(1)));
    assert_eq!(sessions.create(2, "one".to_string(), time(2)), Err(ServiceError::InternalError));
    assert_eq!(sessions.owner("one"), Some(1));
}

#[test]
fn sessions_table_does_not_limit_sessions_per_account() {
    let mut sessions = Sessions::new();
    sessions.create(1, "one".to_string(), time(1)).unwrap();
    sessions.create(1, "uno".to_string(), time(2)).unwrap();
    assert_eq!(sessions.owner("one"), Some(1));
    assert_eq!(sessions.owner("uno"), Some(1));
}

#[test]
fn sessions_delete_by_user_removes_all_of_one_account() {
    let mut sessions = Sessions::new();
    sessions.create(1, "one".to_string(), time(1)).unwrap();
    sessions.create(2, "two".to_string(), time(2)).unwrap();
    sessions.create(1, "uno".to_string(), time(3)).unwrap();
    sessions.create(1, "eins".to_string(), time(4)).unwrap();
    sessions.create(3, "three".to_string(), time(5)).unwrap();
    sessions.delete_by_user(1);
    assert_eq!(sessions.owner("one"), None);
    assert_eq!(sessions.owner("uno"), None);
    assert_eq!(sessions.owner("eins"), None);
    assert_eq!(sessions.owner("two"), Some(2));
    assert_eq!(sessions.owner("three"), Some(3));
    // Deleting again, or for an account without sessions, is no error.
    sessions.delete_by_user(1);
    sessions.delete_by_user(42);
    assert_eq!(sessions.owner("two"), Some(2));
    assert_eq!(sessions.owner("three"), Some(3));
}

#[test]
fn sessions_delete_by_session_id_says_whether_a_row_existed() {
    let mut sessions = Sessions::new();
    sessions.create(1, "one".to_string(), time(1)).unwrap();
    sessions.create(2, "two".to_string(), time(2)).unwrap();
    assert!(!sessions.delete_by_session_id("three"));
    assert!(sessions.delete_by_session_id("one"));
    assert!(!sessions.delete_by_session_id("one"));
    assert_eq!(sessions.owner("one"), None);
    assert_eq!(sessions.owner("two"), Some(2));
    // The token is free again.
    assert!(sessions.create(3, "one".to_string(), time(3)).is_ok());
}
