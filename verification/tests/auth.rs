use ovenmitts::auth::{extract_permissions, holds_capability, split_tokens, CAN_STREAM, IS_ADMIN};
use ovenmitts::db::Store;
use ovenmitts::objects::User;

fn holder(permissions: Option<&str>) -> User {
    User {
        username: "alice".to_string(),
        display_name: "Alice".to_string(),
        password: String::new(),
        stream_key: "key".to_string(),
        permissions: permissions.map(str::to_string),
        stream_title: None,
    }
}

#[test]
fn exact_token_grants_capability() {
    assert!(holder(Some("CAN_STREAM")).has_permission("CAN_STREAM"));
    assert!(holder(Some("CAN_RESTREAM,CAN_STREAM")).has_permission("CAN_STREAM"));
    assert!(holder(Some("CAN_STREAM CAN_RESTREAM")).has_permission("CAN_RESTREAM"));
    assert!(holder(Some(" ,CAN_STREAM, ")).has_permission(CAN_STREAM));
}

#[test]
fn administrator_token_grants_everything() {
    let admin = holder(Some("IS_ADMIN"));
    assert!(admin.has_permission("CAN_STREAM"));
    assert!(admin.has_permission("ANYTHING_AT_ALL"));
    assert!(admin.has_permission(""));
    assert!(admin.is_admin());
    assert!(holder(Some("CAN_STREAM,IS_ADMIN")).is_admin());
}

#[test]
fn account_without_list_holds_nothing() {
    let nobody = holder(None);
    assert!(!nobody.has_permission("CAN_STREAM"));
    assert!(!nobody.has_permission(IS_ADMIN));
    assert!(!nobody.is_admin());
    assert!(!holder(Some("")).has_permission("CAN_STREAM"));
    assert!(!holder(Some("")).has_permission(""));
}

#[test]
fn substring_of_a_token_grants_nothing() {
    assert!(!holder(Some("THIS_ADMIN")).is_admin());
    assert!(!holder(Some("NOT_IS_ADMIN_AT_ALL")).is_admin());
    assert!(!holder(Some("XIS_ADMIN")).has_permission("CAN_STREAM"));
    assert!(!holder(Some("IS_ADMINX")).is_admin());
    assert!(!holder(Some("CAN_STREAMING")).has_permission("CAN_STREAM"));
    assert!(!holder(Some("CAN_STREAM")).has_permission("CAN"));
    assert!(!holder(Some("CAN_STREAM")).has_permission("STREAM"));
    assert!(!holder(Some("CAN_STREAM")).is_admin());
    assert!(!holder(Some("IS_AMDIN")).is_admin());
}

#[test]
fn capability_with_separator_is_never_held() {
    assert!(!holder(Some("A,B")).has_permission("A,B"));
    assert!(!holder(Some("A B")).has_permission("A B"));
    assert!(!holder(Some("A,B")).has_permission(""));
}

#[test]
fn tokens_are_case_sensitive() {
    assert!(!holder(Some("can_stream")).has_permission("CAN_STREAM"));
    assert!(!holder(Some("is_admin")).is_admin());
}

#[test]
fn holds_capability_on_bare_list() {
    assert!(holds_capability(&Some("CAN_STREAM".to_string()), "CAN_STREAM"));
    assert!(!holds_capability(&None, "CAN_STREAM"));
}

#[test]
fn permission_list_splits_into_tokens() {
    let want = |v: &[&str]| v.iter().map(|s| s.to_string()).collect::<Vec<String>>();
    assert_eq!(split_tokens("CAN_STREAM,IS_ADMIN"), want(&["CAN_STREAM", "IS_ADMIN"]));
    assert_eq!(split_tokens("  a ,, b,c  "), want(&["a", "b", "c"]));
    assert_eq!(split_tokens(""), want(&[]));
    assert_eq!(split_tokens(", ,"), want(&[]));
    assert_eq!(split_tokens("one"), want(&["one"]));
    assert_eq!(split_tokens("a a"), want(&["a", "a"]));
    assert_eq!(split_tokens("é,ü b"), want(&["é", "ü", "b"]));
    assert_eq!(holder(Some("x y")).permission_vec(), Some(want(&["x", "y"])));
    assert_eq!(holder(None).permission_vec(), None);
}

#[test]
fn tokens_agree_with_has_permission() {
    for list in ["", "A", "A,B", " A  B,", "IS_ADMIN,A", "AB,A"] {
        let user = holder(Some(list));
        let tokens = user.permission_vec().unwrap();
        for wanted in ["A", "B", "AB", "", "IS_ADMIN", "C"] {
            let named = tokens.iter().any(|t| t == wanted) || tokens.iter().any(|t| t == "IS_ADMIN");
            assert_eq!(user.has_permission(wanted), named, "{:?} {:?}", list, wanted);
        }
    }
}

#[test]
fn permissions_of_the_requester() {
    let mut db = Store::new();
    db.insert_user(holder(Some("CAN_STREAM,X"))).unwrap();
    db.insert_session("tok".to_string(), "alice".to_string(), 1).unwrap();
    assert_eq!(
        extract_permissions(&db, Some("tok")),
        Some(vec!["CAN_STREAM".to_string(), "X".to_string()])
    );
    assert_eq!(extract_permissions(&db, Some("other")), None);
    assert_eq!(extract_permissions(&db, None), None);
}
