use tudu_auth::api::{
    check_registration, index, is_email_valid, is_password_good, login_user, logout_user,
    policy_outcome, register_user, CredentialPolicy, Permissive, UserCreds, UserInfo,
};
use tudu_auth::db::{
    authenticate, logout_outcome, new_session, prepare_user, DbExecutor, Login, Logout, NewUser,
    Register, Session, User,
};
use tudu_auth::errors::ServiceError;
use tudu_auth::hasher::Hasher;

/// A worker whose hasher is fast enough for tests.
fn quick_db() -> DbExecutor {
    DbExecutor::with_hasher(Hasher::with_cost(4))
}

fn creds(email: &str, password: &str) -> UserCreds {
    UserCreds { email: email.to_string(), password: password.to_string() }
}

fn info(email: &str, password: &str) -> UserInfo {
    UserInfo { email: email.to_string(), password: password.to_string() }
}

fn time(seconds: i64) -> chrono::NaiveDateTime {
    chrono::DateTime::from_timestamp(seconds, 0).unwrap().naive_utc()
}

/// Refuses short passwords and emails without an `@`.
struct Strict;

impl CredentialPolicy for Strict {
    fn is_password_good(&self, pw: &str) -> bool {
        pw.chars().count() >= 8
    }

    fn is_email_valid(&self, email: &str) -> bool {
        email.contains('@')
    }
}

#[test]
fn register_login_logout_walkthrough() {
    let mut db = quick_db();

    let account = register_user(&Permissive, &mut db, creds("a@x.com", "pw1")).unwrap();
    assert_eq!(account.user_id, 1);
    assert_eq!(account.email, "a@x.com");

    let session = login_user(&mut db, info("a@x.com", "pw1")).unwrap();
    assert_eq!(session.user_id, 1);

    let wrong = login_user(&mut db, info("a@x.com", "wrong"));
    assert_eq!(wrong.unwrap_err(), ServiceError::InvalidCredentials);

    assert_eq!(logout_user(&mut db, session.clone()), Ok(()));
    assert_eq!(logout_user(&mut db, session), Err(ServiceError::InvalidSession));
}

#[test]
fn register_then_login_refers_to_the_account() {
    let mut db = quick_db();
    let pairs = [
        ("a@x.com", "pw1"),
        ("b@x.com", ""),
        ("c@x.com", "pässwörd with ünicode"),
        ("", "empty email"),
        (
            "long@x.com",
            "0123456789012345678901234567890123456789012345678901234567890123456789-72+",
        ),
    ];
    for (i, (email, password)) in pairs.iter().enumerate() {
        let account = register_user(&Permissive, &mut db, creds(email, password)).unwrap();
        assert_eq!(account.user_id, i as i32 + 1);
        let session = login_user(&mut db, info(email, password)).unwrap();
        assert_eq!(session.user_id, account.user_id);
        assert_eq!(db.session_owner(&session.session_id), Some(account.user_id));
    }
}

#[test]
fn wrong_password_and_unknown_email_fail_alike() {
    let mut db = quick_db();
    register_user(&Permissive, &mut db, creds("a@x.com", "pw1")).unwrap();
    let wrong_password = login_user(&mut db, info("a@x.com", "pw2")).unwrap_err();
    let unknown_email = login_user(&mut db, info("nobody@x.com", "pw1")).unwrap_err();
    assert_eq!(wrong_password, ServiceError::InvalidCredentials);
    assert_eq!(unknown_email, wrong_password);
    assert_eq!(unknown_email.status_code(), wrong_password.status_code());
    assert_eq!(unknown_email.message(), wrong_password.message());
}

#[test]
fn email_is_compared_exactly() {
    let mut db = quick_db();
    register_user(&Permissive, &mut db, creds("a@x.com", "pw1")).unwrap();
    let other_case = login_user(&mut db, info("A@x.com", "pw1"));
    assert_eq!(other_case.unwrap_err(), ServiceError::InvalidCredentials);
    let spaced = login_user(&mut db, info("a@x.com ", "pw1"));
    assert_eq!(spaced.unwrap_err(), ServiceError::InvalidCredentials);
    assert!(db.find_user("a@x.com").is_some());
    assert!(db.find_user("A@x.com").is_none());
}

#[test]
fn second_login_ends_the_first_session() {
    let mut db = quick_db();
    register_user(&Permissive, &mut db, creds("a@x.com", "pw1")).unwrap();
    let first = login_user(&mut db, info("a@x.com", "pw1")).unwrap();
    let second = login_user(&mut db, info("a@x.com", "pw1")).unwrap();
    assert_ne!(first.session_id, second.session_id);
    assert_eq!(db.session_owner(&first.session_id), None);
    assert_eq!(db.session_owner(&second.session_id), Some(1));
    assert_eq!(logout_user(&mut db, first), Err(ServiceError::InvalidSession));
    assert_eq!(logout_user(&mut db, second), Ok(()));
}

#[test]
fn logout_of_a_token_never_issued_is_invalid() {
    let mut db = quick_db();
    register_user(&Permissive, &mut db, creds("a@x.com", "pw1")).unwrap();
    let live = login_user(&mut db, info("a@x.com", "pw1")).unwrap();
    let forged = Session {
        session_id: "00000000000000000000000000000000".to_string(),
        user_id: live.user_id,
        created_at: live.created_at,
    };
    assert_eq!(logout_user(&mut db, forged), Err(ServiceError::InvalidSession));
    assert_eq!(db.session_owner(&live.session_id), Some(1));
}

#[test]
fn logout_succeeds_exactly_once() {
    let mut db = quick_db();
    register_user(&Permissive, &mut db, creds("a@x.com", "pw1")).unwrap();
    let session = login_user(&mut db, info("a@x.com", "pw1")).unwrap();
    assert_eq!(db.handle_logout(Logout { session: session.clone() }), Ok(()));
    assert_eq!(
        db.handle_logout(Logout { session: session.clone() }),
        Err(ServiceError::InvalidSession)
    );
    assert_eq!(db.handle_logout(Logout { session }), Err(ServiceError::InvalidSession));
}

#[test]
fn logout_only_looks_at_the_token() {
    let mut db = quick_db();
    register_user(&Permissive, &mut db, creds("a@x.com", "pw1")).unwrap();
    let session = login_user(&mut db, info("a@x.com", "pw1")).unwrap();
    let altered = Session { session_id: session.session_id, user_id: 99, created_at: time(0) };
    assert_eq!(logout_user(&mut db, altered), Ok(()));
}

#[test]
fn many_logins_leave_one_session() {
    let mut db = quick_db();
    register_user(&Permissive, &mut db, creds("a@x.com", "pw1")).unwrap();
    register_user(&Permissive, &mut db, creds("b@x.com", "pw2")).unwrap();
    let other = login_user(&mut db, info("b@x.com", "pw2")).unwrap();
    let mut issued = Vec::new();
    for _ in 0..5 {
        issued.push(login_user(&mut db, info("a@x.com", "pw1")).unwrap());
    }
    let live: Vec<&Session> =
        issued.iter().filter(|s| db.session_owner(&s.session_id).is_some()).collect();
    assert_eq!(live.len(), 1);
    assert_eq!(live[0].session_id, issued[4].session_id);
    assert_eq!(db.session_owner(&other.session_id), Some(2));
}

#[test]
fn taken_email_is_an_invalid_email() {
    let mut db = quick_db();
    let first = register_user(&Permissive, &mut db, creds("a@x.com", "pw1")).unwrap();
    let again = register_user(&Permissive, &mut db, creds("a@x.com", "other"));
    assert_eq!(again.unwrap_err(), ServiceError::InvalidEmail);
    // The first account is as it was, and the next one gets the next id.
    assert_eq!(db.find_user("a@x.com"), Some(first));
    assert!(login_user(&mut db, info("a@x.com", "other")).is_err());
    let next = register_user(&Permissive, &mut db, creds("b@x.com", "pw")).unwrap();
    assert_eq!(next.user_id, 2);
}

#[test]
fn strict_policy_reports_weak_password_first() {
    let mut db = quick_db();
    let refused = register_user(&Strict, &mut db, creds("no-at-sign", "short"));
    assert_eq!(refused.unwrap_err(), ServiceError::WeakPassword);
    let refused = register_user(&Strict, &mut db, creds("no-at-sign", "long enough"));
    assert_eq!(refused.unwrap_err(), ServiceError::InvalidEmail);
    let refused = register_user(&Strict, &mut db, creds("a@x.com", "short"));
    assert_eq!(refused.unwrap_err(), ServiceError::WeakPassword);
    assert!(db.find_user("a@x.com").is_none());
    let account = register_user(&Strict, &mut db, creds("a@x.com", "long enough")).unwrap();
    assert_eq!(account.user_id, 1);
}

#[test]
fn policy_outcome_maps_each_answer() {
    assert_eq!(policy_outcome(true, true), Ok(()));
    assert_eq!(policy_outcome(false, true), Err(ServiceError::WeakPassword));
    assert_eq!(policy_outcome(false, false), Err(ServiceError::WeakPassword));
    assert_eq!(policy_outcome(true, false), Err(ServiceError::InvalidEmail));
}

#[test]
fn permissive_policy_accepts_everything() {
    for text in ["", "a", "not an email", "pw", "\u{0}"] {
        assert!(is_password_good(text));
        assert!(is_email_valid(text));
        assert!(Permissive.is_password_good(text));
        assert!(Permissive.is_email_valid(text));
    }
    let msg = check_registration(&Permissive, creds("", "")).unwrap();
    assert_eq!(msg, Register { email: String::new(), password: String::new() });
}

#[test]
fn check_registration_hands_the_fields_on() {
    let msg = check_registration(&Strict, creds("a@x.com", "long enough")).unwrap();
    assert_eq!(msg.email, "a@x.com");
    assert_eq!(msg.password, "long enough");
    assert_eq!(
        check_registration(&Strict, creds("a@x.com", "short")),
        Err(ServiceError::WeakPassword)
    );
    assert_eq!(
        check_registration(&Strict, creds("a.x.com", "long enough")),
        Err(ServiceError::InvalidEmail)
    );
}

#[test]
fn unsupported_cost_is_an_internal_error() {
    for cost in [0, 3, 32, 1000] {
        let mut db = DbExecutor::with_hasher(Hasher::with_cost(cost));
        let refused = register_user(&Permissive, &mut db, creds("a@x.com", "pw1"));
        assert_eq!(refused.unwrap_err(), ServiceError::InternalError);
        assert!(db.find_user("a@x.com").is_none());
    }
}

#[test]
fn stored_account_holds_a_hash_not_the_password() {
    let mut db = quick_db();
    let account = register_user(&Permissive, &mut db, creds("a@x.com", "pw1")).unwrap();
    assert_eq!(account.password.len(), 60);
    assert_ne!(account.password, b"pw1".to_vec());
    assert!(account.password.starts_with(b"$2b$04$"));
    assert!(Hasher::with_cost(4).verify("pw1", &account.password));
    let shown = account.account();
    assert_eq!(shown.user_id, account.user_id);
    assert_eq!(shown.email, account.email);
    assert_eq!(shown.created_at, account.created_at);
}

#[test]
fn insert_user_assigns_ids_in_order() {
    let mut db = quick_db();
    let new_user = |email: &str| NewUser {
        email: email.to_string(),
        password: vec![1, 2, 3],
        created_at: time(1_500_000_000),
    };
    let a = db.insert_user(new_user("a@x.com")).unwrap();
    let b = db.insert_user(new_user("b@x.com")).unwrap();
    assert_eq!(
        a,
        User {
            user_id: 1,
            email: "a@x.com".to_string(),
            password: vec![1, 2, 3],
            created_at: time(1_500_000_000),
        }
    );
    assert_eq!(b.user_id, 2);
    assert_eq!(db.insert_user(new_user("a@x.com")), Err(ServiceError::InvalidEmail));
    assert_eq!(db.insert_user(new_user("c@x.com")).unwrap().user_id, 3);
    assert_eq!(db.find_user("b@x.com"), Some(b));
    assert_eq!(db.find_user("d@x.com"), None);
}

#[test]
fn open_session_replaces_the_session_of_the_account() {
    let mut db = quick_db();
    let new_user = |email: &str| NewUser {
        email: email.to_string(),
        password: Vec::new(),
        created_at: time(0),
    };
    db.insert_user(new_user("a@x.com")).unwrap();
    db.insert_user(new_user("b@x.com")).unwrap();

    let s1 = db.open_session(1, "one".to_string(), time(10)).unwrap();
    assert_eq!(s1, Session { session_id: "one".to_string(), user_id: 1, created_at: time(10) });
    let s2 = db.open_session(2, "two".to_string(), time(20)).unwrap();
    assert_eq!(s2.user_id, 2);

    // A token that another account's session holds is refused; nothing changes.
    assert_eq!(db.open_session(1, "two".to_string(), time(30)), Err(ServiceError::InternalError));
    assert_eq!(db.session_owner("one"), Some(1));
    assert_eq!(db.session_owner("two"), Some(2));

    // An id that no account has is refused.
    assert_eq!(
        db.open_session(3, "three".to_string(), time(30)),
        Err(ServiceError::InternalError)
    );
    assert_eq!(db.session_owner("three"), None);

    // The account's own token may come again: the old row goes first.
    let again = db.open_session(1, "one".to_string(), time(40)).unwrap();
    assert_eq!(again.created_at, time(40));
    assert_eq!(db.session_owner("one"), Some(1));

    let s3 = db.open_session(1, "uno".to_string(), time(50)).unwrap();
    assert_eq!(s3.session_id, "uno");
    assert_eq!(db.session_owner("one"), None);
    assert_eq!(db.session_owner("uno"), Some(1));
    assert_eq!(db.session_owner("two"), Some(2));
}

#[test]
fn authenticate_decides_from_what_was_found() {
    let hasher = Hasher::with_cost(4);
    let user = User {
        user_id: 7,
        email: "a@x.com".to_string(),
        password: hasher.hash("pw1").unwrap(),
        created_at: time(0),
    };
    assert_eq!(authenticate(&hasher, Some(user.clone()), "pw1"), Ok(user.clone()));
    assert_eq!(
        authenticate(&hasher, Some(user), "pw2"),
        Err(ServiceError::InvalidCredentials)
    );
    assert_eq!(authenticate(&hasher, None, "pw1"), Err(ServiceError::InvalidCredentials));
    let garbled = User {
        user_id: 8,
        email: "b@x.com".to_string(),
        password: vec![0xff, 0xfe, 0x00],
        created_at: time(0),
    };
    assert_eq!(
        authenticate(&hasher, Some(garbled), "pw1"),
        Err(ServiceError::InvalidCredentials)
    );
}

#[test]
fn prepare_user_hashes_and_refuses_a_taken_email() {
    let hasher = Hasher::with_cost(4);
    let msg = || Register { email: "a@x.com".to_string(), password: "pw1".to_string() };
    let prepared = prepare_user(&hasher, None, msg()).unwrap();
    assert_eq!(prepared.email, "a@x.com");
    assert_eq!(prepared.password.len(), 60);
    assert!(hasher.verify("pw1", &prepared.password));
    let existing = User {
        user_id: 1,
        email: "a@x.com".to_string(),
        password: Vec::new(),
        created_at: time(0),
    };
    assert_eq!(
        prepare_user(&hasher, Some(existing), msg()).unwrap_err(),
        ServiceError::InvalidEmail
    );
    assert_eq!(
        prepare_user(&Hasher::with_cost(3), None, msg()).unwrap_err(),
        ServiceError::InternalError
    );
}

#[test]
fn new_session_draws_a_fresh_token() {
    let a = new_session(7);
    let b = new_session(7);
    assert_eq!(a.user_id, 7);
    assert_ne!(a.session_id, b.session_id);
    for session in [&a, &b] {
        assert_eq!(session.session_id.len(), 32);
        assert!(session
            .session_id
            .chars()
            .all(|c| c.is_ascii_digit() || ('a'..='f').contains(&c)));
    }
}

#[test]
fn new_session_takes_the_time_of_the_clock() {
    let before = chrono::Local::now().naive_local();
    let session = new_session(1);
    let after = chrono::Local::now().naive_local();
    assert!(before <= session.created_at && session.created_at <= after);
}

#[test]
fn logout_outcome_maps_both_answers() {
    assert_eq!(logout_outcome(true), Ok(()));
    assert_eq!(logout_outcome(false), Err(ServiceError::InvalidSession));
}

#[test]
fn handlers_take_messages() {
    let mut db = quick_db();
    let account = db
        .handle_register(Register { email: "a@x.com".to_string(), password: "pw1".to_string() })
        .unwrap();
    assert_eq!(account.user_id, 1);
    let session = db
        .handle_login(Login { email: "a@x.com".to_string(), password: "pw1".to_string() })
        .unwrap();
    assert_eq!(session.user_id, 1);
    assert_eq!(
        db.handle_login(Login { email: "a@x.com".to_string(), password: "pw".to_string() }),
        Err(ServiceError::InvalidCredentials)
    );
    assert_eq!(db.handle_logout(Logout { session }), Ok(()));
}

#[test]
fn index_greets() {
    assert_eq!(index(), "hello world");
}

#[test]
fn new_executor_is_empty() {
    let mut db = DbExecutor::new();
    assert_eq!(db.find_user("a@x.com"), None);
    assert_eq!(db.session_owner("00000000000000000000000000000000"), None);
    let nobody = Session {
        session_id: "00000000000000000000000000000000".to_string(),
        user_id: 1,
        created_at: time(0),
    };
    assert_eq!(logout_user(&mut db, nobody), Err(ServiceError::InvalidSession));
    assert_eq!(
        login_user(&mut db, info("a@x.com", "pw1")),
        Err(ServiceError::InvalidCredentials)
    );
}
