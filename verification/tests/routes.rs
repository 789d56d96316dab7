use ovenmitts::crypto::{hash_password, verify_password};
use ovenmitts::db::{Change, Store};
use ovenmitts::errors::{OMError, PasswordHashError};
use ovenmitts::objects::{Admission, SendableUser, Streams, User, UserLogin, UserUpdate};
use ovenmitts::routes::{
    admission, apply_changes, authorize_update, check_credentials, check_registration,
    choose_target, list_users, listing, login, login_with, logout, new_account, password_change,
    plan_update, register, register_with, stream_resp, streams, streams_url, update_user,
    update_user_with, user,
};

fn creds(username: &str, password: &str) -> UserLogin {
    UserLogin { username: username.to_string(), password: password.to_string() }
}

fn no_update() -> UserUpdate {
    UserUpdate {
        username: None,
        display_name: None,
        new_password: None,
        old_password: None,
        stream_title: None,
        permissions: None,
    }
}

/// A store with `alice` (administrator) and `bobby`, both with the password `pw`, and a
/// session for each: `tok_alice` and `tok_bobby`.
fn store() -> Store {
    let mut db = Store::new();
    let hash = hash_password(b"pw").unwrap();
    let mut alice = new_account("alice", hash.clone(), "stream_alice".to_string());
    alice.permissions = Some("IS_ADMIN".to_string());
    db.insert_user(alice).unwrap();
    let mut bobby = new_account("bobby", hash, "stream_bobby".to_string());
    bobby.permissions = Some("CAN_STREAM".to_string());
    db.insert_user(bobby).unwrap();
    db.insert_session("tok_alice".to_string(), "alice".to_string(), 1).unwrap();
    db.insert_session("tok_bobby".to_string(), "bobby".to_string(), 1).unwrap();
    db
}

#[test]
fn register_scenario() {
    let mut db = Store::new();
    assert!(register(&mut db, &creds("alice", "secret")).is_ok());
    assert!(matches!(register(&mut db, &creds("alice", "other")), Err(OMError::NameTaken)));
    assert!(matches!(register(&mut db, &creds("ALICE", "other")), Err(OMError::NameTaken)));
    assert!(matches!(register(&mut db, &creds("a", "secret")), Err(OMError::InvalidUsername)));
    let users = db.list_users();
    assert_eq!(users.len(), 1);
    let alice = &users[0];
    assert_eq!(alice.username, "alice");
    assert_eq!(alice.display_name, "alice");
    assert_eq!(alice.permissions, None);
    assert_eq!(alice.stream_title, None);
    assert!(alice.stream_key.starts_with("stream_"));
    assert_eq!(alice.stream_key.len(), 46);
    assert_ne!(alice.password, "secret");
    assert!(verify_password(&alice.password, b"secret"));
    assert!(!verify_password(&alice.password, b"other"));
}

#[test]
fn register_rejects_malformed_names() {
    let mut db = Store::new();
    for name in ["", "abc", "bad name", "a2345678901234567890123456", "älice"] {
        assert!(matches!(register(&mut db, &creds(name, "pw")), Err(OMError::InvalidUsername)));
    }
    assert!(db.list_users().is_empty());
}

#[test]
fn taken_name_is_reported_before_malformed_name() {
    let mut db = Store::new();
    db.insert_user(new_account("abc", "h".to_string(), "k".to_string())).unwrap();
    assert!(matches!(register(&mut db, &creds("ABC", "pw")), Err(OMError::NameTaken)));
    assert!(matches!(
        check_registration(db.find_by_username("abc").as_ref(), "abc"),
        Err(OMError::NameTaken)
    ));
    assert!(matches!(check_registration(None, "abc"), Err(OMError::InvalidUsername)));
    assert!(check_registration(None, "abcd").is_ok());
}

#[test]
fn register_with_given_hash_and_key() {
    let mut db = Store::new();
    register_with(&mut db, &creds("alice", "x"), Ok("HASH".to_string()), "KEY".to_string()).unwrap();
    let alice = User::from_name("alice", &db).unwrap();
    assert_eq!(alice.password, "HASH");
    assert_eq!(alice.stream_key, "KEY");
    let r = register_with(&mut db, &creds("bobby", "x"), Ok("H2".to_string()), "KEY".to_string());
    assert!(matches!(r, Err(OMError::SqlxError(_))));
    let r = register_with(
        &mut db,
        &creds("bobby", "x"),
        Err(PasswordHashError::Other("no memory".to_string())),
        "KEY2".to_string(),
    );
    match r {
        Err(OMError::ArgonError(text)) => assert_eq!(text, "no memory"),
        other => panic!("{:?}", other),
    }
    assert_eq!(db.list_users().len(), 1);
}

#[test]
fn login_scenario() {
    let mut db = Store::new();
    register(&mut db, &creds("alice", "secret")).unwrap();
    let cookie = login(&mut db, None, &creds("alice", "secret"), 1_700_000_000).unwrap().unwrap();
    assert_eq!(cookie.name, "om_session");
    assert_eq!(cookie.path, "/");
    assert!(cookie.http_only && cookie.secure);
    assert_eq!(cookie.expires_at, Some(1_700_000_000 + 14 * 24 * 3600));
    assert_eq!(cookie.value.len(), 88);
    let token = cookie.value;
    assert_eq!(User::from_session(&token, &db).unwrap().username, "alice");
    assert_eq!(user(&db, Some(&token)).unwrap().username, "alice");
    let removal = logout(&mut db, Some(&token)).unwrap().unwrap();
    assert_eq!(removal.value, "");
    assert!(User::from_session(&token, &db).is_none());
    assert!(matches!(user(&db, Some(&token)), Err(OMError::InvalidSession)));
    assert!(logout(&mut db, Some(&token)).is_ok());
    assert!(logout(&mut db, Some("never issued")).is_ok());
    assert!(logout(&mut db, None).unwrap().is_none());
}

#[test]
fn login_is_case_insensitive_in_the_name() {
    let mut db = Store::new();
    register(&mut db, &creds("Alice", "secret")).unwrap();
    let cookie = login(&mut db, None, &creds("aLiCe", "secret"), 5).unwrap().unwrap();
    assert_eq!(User::from_session(&cookie.value, &db).unwrap().username, "Alice");
    assert_eq!(db.find_session(&cookie.value).unwrap().user_id, "Alice");
    assert_eq!(db.find_session(&cookie.value).unwrap().created_at, 5);
}

#[test]
fn login_with_wrong_password_fails() {
    let mut db = store();
    assert!(matches!(login(&mut db, None, &creds("alice", "wrong"), 5), Err(OMError::InvalidPassword)));
    assert!(matches!(login(&mut db, None, &creds("alice", ""), 5), Err(OMError::InvalidPassword)));
    let r = login_with(&mut db, None, &creds("alice", "wrong"), "T".to_string(), 5);
    assert!(matches!(r, Err(OMError::InvalidPassword)));
    assert!(db.find_session("T").is_none());
}

#[test]
fn login_of_unknown_account_fails() {
    let mut db = store();
    match login(&mut db, None, &creds("carol", "pw"), 5) {
        Err(OMError::NotFound(name)) => assert_eq!(name, "carol"),
        other => panic!("{:?}", other.map(|c| c.map(|c| c.value))),
    }
}

#[test]
fn login_against_a_broken_hash_fails() {
    let mut db = Store::new();
    db.insert_user(new_account("alice", "not a hash".to_string(), "k".to_string())).unwrap();
    assert!(matches!(login(&mut db, None, &creds("alice", "pw"), 5), Err(OMError::InvalidPassword)));
    assert!(matches!(
        login(&mut db, None, &creds("alice", "not a hash"), 5),
        Err(OMError::InvalidPassword)
    ));
}

#[test]
fn login_with_a_valid_session_opens_no_other() {
    let mut db = store();
    let r = login_with(&mut db, Some("tok_alice"), &creds("nobody", "wrong"), "T".to_string(), 5);
    assert!(r.unwrap().is_none());
    assert!(db.find_session("T").is_none());
    let r = login_with(&mut db, Some("stale"), &creds("bobby", "pw"), "T".to_string(), 5);
    assert_eq!(r.unwrap().unwrap().value, "T");
    assert_eq!(User::from_session("T", &db).unwrap().username, "bobby");
}

#[test]
fn login_with_a_token_in_use_fails() {
    let mut db = store();
    let r = login_with(&mut db, None, &creds("bobby", "pw"), "tok_alice".to_string(), 5);
    assert!(matches!(r, Err(OMError::SqlxError(_))));
    assert_eq!(User::from_session("tok_alice", &db).unwrap().username, "alice");
}

#[test]
fn check_credentials_decides_on_the_account() {
    let db = store();
    let alice = User::from_name("alice", &db);
    assert_eq!(check_credentials(alice.clone(), &creds("alice", "pw")).unwrap().username, "alice");
    assert!(matches!(check_credentials(alice, &creds("alice", "pW")), Err(OMError::InvalidPassword)));
    assert!(matches!(check_credentials(None, &creds("zed", "pw")), Err(OMError::NotFound(_))));
}

#[test]
fn permissions_scenario() {
    let mut db = store();
    let mut body = no_update();
    body.username = Some("alice".to_string());
    body.permissions = Some("IS_ADMIN".to_string());
    assert!(matches!(update_user(&mut db, Some("tok_bobby"), &body), Err(OMError::NoPermission)));
    assert_eq!(User::from_name("alice", &db).unwrap().permissions, Some("IS_ADMIN".to_string()));

    let mut body = no_update();
    body.username = Some("bobby".to_string());
    body.permissions = Some("CAN_STREAM,CAN_RESTREAM".to_string());
    assert!(update_user(&mut db, Some("tok_alice"), &body).is_ok());
    assert_eq!(
        User::from_name("bobby", &db).unwrap().permissions,
        Some("CAN_STREAM,CAN_RESTREAM".to_string())
    );
}

#[test]
fn non_admin_cannot_name_even_itself() {
    let mut db = store();
    let mut body = no_update();
    body.username = Some("bobby".to_string());
    body.display_name = Some("Bob".to_string());
    assert!(matches!(update_user(&mut db, Some("tok_bobby"), &body), Err(OMError::NoPermission)));
    assert_eq!(User::from_name("bobby", &db).unwrap().display_name, "bobby");
}

#[test]
fn update_needs_a_session() {
    let mut db = store();
    let mut body = no_update();
    body.display_name = Some("X".to_string());
    assert!(matches!(update_user(&mut db, None, &body), Err(OMError::InvalidSession)));
    assert!(matches!(update_user(&mut db, Some("stale"), &body), Err(OMError::InvalidSession)));
}

#[test]
fn update_of_unknown_account_is_not_found() {
    let mut db = store();
    let mut body = no_update();
    body.username = Some("carol".to_string());
    match update_user(&mut db, Some("tok_alice"), &body) {
        Err(OMError::NotFound(name)) => assert_eq!(name, "carol"),
        other => panic!("{:?}", other),
    }
}

#[test]
fn own_profile_can_be_updated() {
    let mut db = store();
    let mut body = no_update();
    body.display_name = Some("Bob the Streamer".to_string());
    body.stream_title = Some("Speedrun".to_string());
    assert!(update_user(&mut db, Some("tok_bobby"), &body).is_ok());
    let bobby = User::from_name("bobby", &db).unwrap();
    assert_eq!(bobby.display_name, "Bob the Streamer");
    assert_eq!(bobby.stream_title, Some("Speedrun".to_string()));
    assert_eq!(bobby.username, "bobby");
    assert_eq!(bobby.stream_key, "stream_bobby");
    assert_eq!(bobby.permissions, Some("CAN_STREAM".to_string()));
    assert_eq!(User::from_name("alice", &db).unwrap().display_name, "alice");
}

#[test]
fn own_permissions_cannot_be_set_without_being_admin() {
    let mut db = store();
    let mut body = no_update();
    body.display_name = Some("Bob".to_string());
    body.permissions = Some("IS_ADMIN".to_string());
    assert!(matches!(update_user(&mut db, Some("tok_bobby"), &body), Err(OMError::NoPermission)));
    let bobby = User::from_name("bobby", &db).unwrap();
    assert_eq!(bobby.permissions, Some("CAN_STREAM".to_string()));
    // The changes before the permissions were made already.
    assert_eq!(bobby.display_name, "Bob");
}

#[test]
fn password_changes_with_the_old_password() {
    let mut db = store();
    let mut body = no_update();
    body.old_password = Some("pw".to_string());
    body.new_password = Some("new pw".to_string());
    assert!(update_user(&mut db, Some("tok_bobby"), &body).is_ok());
    let bobby = User::from_name("bobby", &db).unwrap();
    assert!(verify_password(&bobby.password, b"new pw"));
    assert!(!verify_password(&bobby.password, b"pw"));
    assert!(login(&mut db, None, &creds("bobby", "new pw"), 9).unwrap().is_some());
}

#[test]
fn password_does_not_change_with_a_wrong_old_password() {
    let mut db = store();
    let mut body = no_update();
    body.stream_title = Some("before".to_string());
    body.old_password = Some("guess".to_string());
    body.new_password = Some("new pw".to_string());
    body.permissions = Some("X".to_string());
    assert!(matches!(update_user(&mut db, Some("tok_alice"), &body), Err(OMError::InvalidPassword)));
    let alice = User::from_name("alice", &db).unwrap();
    assert!(verify_password(&alice.password, b"pw"));
    assert_eq!(alice.stream_title, Some("before".to_string()));
    assert_eq!(alice.permissions, Some("IS_ADMIN".to_string()));
}

#[test]
fn password_without_the_old_one_is_for_administrators() {
    let mut db = store();
    let mut body = no_update();
    body.new_password = Some("new pw".to_string());
    assert!(matches!(update_user(&mut db, Some("tok_bobby"), &body), Err(OMError::NoPermission)));
    assert!(verify_password(&User::from_name("bobby", &db).unwrap().password, b"pw"));
    body.username = Some("bobby".to_string());
    assert!(update_user(&mut db, Some("tok_alice"), &body).is_ok());
    assert!(verify_password(&User::from_name("bobby", &db).unwrap().password, b"new pw"));
}

#[test]
fn old_password_alone_changes_nothing() {
    let mut db = store();
    let mut body = no_update();
    body.old_password = Some("whatever".to_string());
    assert!(update_user(&mut db, Some("tok_bobby"), &body).is_ok());
    assert!(verify_password(&User::from_name("bobby", &db).unwrap().password, b"pw"));
}

#[test]
fn update_with_given_hash() {
    let mut db = store();
    let mut body = no_update();
    body.username = Some("bobby".to_string());
    body.new_password = Some("ignored here".to_string());
    update_user_with(&mut db, Some("tok_alice"), &body, Ok("GIVEN".to_string())).unwrap();
    assert_eq!(User::from_name("bobby", &db).unwrap().password, "GIVEN");
    let r = update_user_with(
        &mut db,
        Some("tok_alice"),
        &body,
        Err(PasswordHashError::Other("boom".to_string())),
    );
    assert!(r.is_ok());
    assert_eq!(User::from_name("bobby", &db).unwrap().password, "GIVEN");
    let mut body = no_update();
    body.display_name = Some("B".to_string());
    update_user_with(&mut db, Some("tok_bobby"), &body, Ok("UNUSED".to_string())).unwrap();
    assert_eq!(User::from_name("bobby", &db).unwrap().password, "GIVEN");
}

#[test]
fn steps_of_an_update() {
    let db = store();
    let alice = User::from_name("alice", &db).unwrap();
    let bobby = User::from_name("bobby", &db).unwrap();
    let mut body = no_update();
    assert!(authorize_update(&bobby, &body).is_ok());
    assert_eq!(choose_target(&bobby, &body, None).unwrap().username, "bobby");
    body.username = Some("alice".to_string());
    assert!(matches!(authorize_update(&bobby, &body), Err(OMError::NoPermission)));
    assert!(authorize_update(&alice, &body).is_ok());
    assert_eq!(choose_target(&alice, &body, Some(bobby.clone())).unwrap().username, "bobby");
    assert!(matches!(choose_target(&alice, &body, None), Err(OMError::NotFound(_))));

    let mut body = no_update();
    assert_eq!(password_change(&bobby, &bobby, &body).unwrap(), None);
    body.new_password = Some("n".to_string());
    assert!(matches!(password_change(&bobby, &bobby, &body), Err(OMError::NoPermission)));
    assert_eq!(password_change(&alice, &bobby, &body).unwrap(), Some(&"n".to_string()));
    body.old_password = Some("pw".to_string());
    assert_eq!(password_change(&bobby, &bobby, &body).unwrap(), Some(&"n".to_string()));
    body.old_password = Some("bad".to_string());
    assert!(matches!(password_change(&alice, &bobby, &body), Err(OMError::InvalidPassword)));
}

#[test]
fn plan_lists_changes_in_order() {
    let mut body = no_update();
    body.display_name = Some("D".to_string());
    body.stream_title = Some("T".to_string());
    body.permissions = Some("P".to_string());
    let plan = plan_update(true, &body, Ok(Some("H".to_string())));
    assert!(plan.result.is_ok());
    let shown: Vec<String> = plan.changes.iter().map(|c| format!("{:?}", c)).collect();
    assert_eq!(
        shown,
        vec![
            "DisplayName(\"D\")".to_string(),
            "StreamTitle(\"T\")".to_string(),
            "Password(\"H\")".to_string(),
            "Permissions(\"P\")".to_string()
        ]
    );
    let plan = plan_update(false, &body, Ok(None));
    assert!(matches!(plan.result, Err(OMError::NoPermission)));
    assert_eq!(plan.changes.len(), 2);
    let plan = plan_update(true, &body, Err(OMError::InvalidPassword));
    assert!(matches!(plan.result, Err(OMError::InvalidPassword)));
    assert_eq!(plan.changes.len(), 2);
    let plan = plan_update(false, &no_update(), Ok(None));
    assert!(plan.result.is_ok());
    assert!(plan.changes.is_empty());
}

#[test]
fn changes_are_applied_one_after_the_other() {
    let mut db = store();
    let changes = vec![
        Change::DisplayName("first".to_string()),
        Change::DisplayName("second".to_string()),
        Change::StreamTitle("t".to_string()),
    ];
    apply_changes(&mut db, "bobby", &changes);
    let bobby = User::from_name("bobby", &db).unwrap();
    assert_eq!(bobby.display_name, "second");
    assert_eq!(bobby.stream_title, Some("t".to_string()));
    apply_changes(&mut db, "bobby", &Vec::new());
    assert_eq!(User::from_name("bobby", &db).unwrap().display_name, "second");
}

#[test]
fn user_shows_everything_but_the_password() {
    let db = store();
    let sent: SendableUser = user(&db, Some("tok_bobby")).unwrap();
    assert_eq!(sent.username, "bobby");
    assert_eq!(sent.display_name, "bobby");
    assert_eq!(sent.stream_key, "stream_bobby");
    assert_eq!(sent.permissions, Some("CAN_STREAM".to_string()));
    assert_eq!(sent.stream_title, None);
    assert!(matches!(user(&db, None), Err(OMError::InvalidSession)));
}

#[test]
fn list_of_users_is_for_administrators() {
    let db = store();
    assert!(matches!(list_users(&db, Some("tok_bobby")), Err(OMError::NoPermission)));
    assert!(matches!(list_users(&db, Some("stale")), Err(OMError::InvalidSession)));
    assert!(matches!(list_users(&db, None), Err(OMError::InvalidSession)));
    let list = list_users(&db, Some("tok_alice")).unwrap();
    assert_eq!(list.len(), 2);
    assert_eq!(list[0].username, "alice");
    assert_eq!(list[1].username, "bobby");
    assert_eq!(list[1].permissions, Some("CAN_STREAM".to_string()));
    for sent in &list {
        assert_eq!(sent.stream_key, "");
    }
    let shown = listing(&User::from_name("bobby", &db).unwrap());
    assert_eq!(shown.stream_key, "");
    assert_eq!(shown.display_name, "bobby");
}

#[test]
fn streams_of_registered_names() {
    let mut db = store();
    db.update("bobby", &Change::StreamTitle("Speedrun".to_string()));
    db.update("bobby", &Change::DisplayName("Bob".to_string()));
    let live = Streams {
        response: vec!["BOBBY".to_string(), "ghost".to_string(), "alice".to_string(), "bobby".to_string()],
    };
    let list = streams(&db, &live);
    assert_eq!(list.len(), 3);
    assert_eq!(list[0].username, "bobby");
    assert_eq!(list[0].display_name, "Bob");
    assert_eq!(list[0].title, Some("Speedrun".to_string()));
    assert_eq!(list[1].username, "alice");
    assert_eq!(list[1].title, None);
    assert_eq!(list[2].username, "bobby");
    assert!(streams(&db, &Streams { response: Vec::new() }).is_empty());
    let resp = stream_resp(User::from_name("alice", &db).unwrap());
    assert_eq!(resp.username, "alice");
}

#[test]
fn streams_url_points_at_the_list() {
    assert_eq!(
        streams_url("http://ome.example:8081/"),
        Some("http://ome.example:8081/v1/vhosts/default/apps/stream/streams".to_string())
    );
    assert_eq!(
        streams_url("http://ome.example:8081/old/path?x=1"),
        Some("http://ome.example:8081/v1/vhosts/default/apps/stream/streams?x=1".to_string())
    );
    assert_eq!(streams_url("no url"), None);
}

#[test]
fn admission_over_the_store() {
    let db = store();
    let adm = Admission::new("rtmp://example.com/app/stream_bobby".to_string());
    let answer = admission(&db, &adm);
    assert!(answer.allowed());
    assert_eq!(answer.new_url(), Some(&"rtmp://example.com/app/bobby".to_string()));
    // The administrator token stands for the capability to stream.
    let adm = Admission::new("rtmp://example.com/app/stream_alice".to_string());
    assert_eq!(admission(&db, &adm).new_url(), Some(&"rtmp://example.com/app/alice".to_string()));
}

#[test]
fn admission_denials_look_alike() {
    let mut db = store();
    db.insert_user(new_account("carol", "h".to_string(), "stream_carol".to_string())).unwrap();
    let unknown = admission(&db, &Admission::new("rtmp://example.com/app/stream_nobody".to_string()));
    let unauthorized = admission(&db, &Admission::new("rtmp://example.com/app/stream_carol".to_string()));
    let unparseable = admission(&db, &Admission::new("mailto:stream_bobby".to_string()));
    let empty = admission(&db, &Admission::new("rtmp://example.com".to_string()));
    for answer in [&unknown, &unauthorized, &unparseable, &empty] {
        assert!(!answer.allowed());
        assert_eq!(answer.new_url(), None);
        assert_eq!(format!("{:?}", answer), format!("{:?}", unknown));
    }
}

#[test]
fn admission_rewrites_only_the_last_segment() {
    let db = store();
    let adm = Admission::new("rtmp://example.com/a/b/c/stream_bobby?token=1#frag".to_string());
    assert_eq!(
        admission(&db, &adm).new_url(),
        Some(&"rtmp://example.com/a/b/c/bobby?token=1#frag".to_string())
    );
    let adm = Admission::new("rtmp://example.com/stream_bobby".to_string());
    assert_eq!(admission(&db, &adm).new_url(), Some(&"rtmp://example.com/bobby".to_string()));
    // A key in the middle of the path is no key.
    let adm = Admission::new("rtmp://example.com/stream_bobby/other".to_string());
    assert!(!admission(&db, &adm).allowed());
    // A trailing slash presents the empty key.
    let adm = Admission::new("rtmp://example.com/app/stream_bobby/".to_string());
    assert!(!admission(&db, &adm).allowed());
}
