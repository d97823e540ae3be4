use whitematter::auth::manager::AuthManager as PermissionManager;
use whitematter::auth::{AuthError, AuthManager};
use whitematter::query::parser::QueryType;

#[test]
fn manager_test_auth_manager() {
    let mut auth_manager = PermissionManager::new();

    auth_manager.add_user("user1", vec!["select".to_string(), "insert".to_string()]);
    assert!(auth_manager.is_authorized("user1", "select"));
    assert!(auth_manager.is_authorized("user1", "insert"));
    assert!(!auth_manager.is_authorized("user1", "delete"));

    auth_manager.update_permissions("user1", vec!["select".to_string(), "delete".to_string()]).unwrap();
    assert!(auth_manager.is_authorized("user1", "select"));
    assert!(!auth_manager.is_authorized("user1", "insert"));
    assert!(auth_manager.is_authorized("user1", "delete"));

    auth_manager.add_permission("user1", "update".to_string()).unwrap();
    assert!(auth_manager.is_authorized("user1", "update"));

    auth_manager.remove_permission("user1", "delete").unwrap();
    assert!(!auth_manager.is_authorized("user1", "delete"));

    auth_manager.remove_user("user1").unwrap();
    assert!(!auth_manager.is_authorized("user1", "select"));
}

#[test]
fn mod_test_auth_manager() {
    let mut auth_manager = AuthManager::new();

    auth_manager.add_user("user1", vec![QueryType::Select, QueryType::Insert]);
    assert!(auth_manager.is_authorized("user1", &QueryType::Select));
    assert!(auth_manager.is_authorized("user1", &QueryType::Insert));
    assert!(!auth_manager.is_authorized("user1", &QueryType::Delete));

    auth_manager.update_permissions("user1", vec![QueryType::Select, QueryType::Delete]).unwrap();
    assert!(auth_manager.is_authorized("user1", &QueryType::Select));
    assert!(!auth_manager.is_authorized("user1", &QueryType::Insert));
    assert!(auth_manager.is_authorized("user1", &QueryType::Delete));

    auth_manager.remove_user("user1").unwrap();
    assert!(!auth_manager.is_authorized("user1", &QueryType::Select));
}

#[test]
fn check_is_false_before_grant_true_after_false_after_revoke() {
    let mut auth = PermissionManager::new();
    assert!(!auth.is_authorized("alice", "insert"));
    auth.add_user("alice", vec!["insert".to_string(), "select".to_string()]);
    assert!(auth.is_authorized("alice", "insert"));
    assert!(!auth.is_authorized("bob", "insert"));
    auth.remove_user("alice").unwrap();
    assert!(!auth.is_authorized("alice", "insert"));
    assert!(!auth.is_authorized("alice", "select"));
}

#[test]
fn changes_to_unknown_user_fail_with_user_not_found() {
    let mut auth = PermissionManager::new();
    assert_eq!(auth.remove_user("ghost"), Err(AuthError::UserNotFound));
    assert_eq!(auth.update_permissions("ghost", vec!["select".to_string()]), Err(AuthError::UserNotFound));
    assert_eq!(auth.add_permission("ghost", "select".to_string()), Err(AuthError::UserNotFound));
    assert_eq!(auth.remove_permission("ghost", "select"), Err(AuthError::UserNotFound));
    assert!(!auth.is_authorized("ghost", "select"));

    let mut kinds = AuthManager::new();
    assert_eq!(kinds.remove_user("ghost"), Err(AuthError::UserNotFound));
    assert_eq!(kinds.update_permissions("ghost", vec![QueryType::Join]), Err(AuthError::UserNotFound));
    assert!(!kinds.is_authorized("ghost", &QueryType::Join));
}

#[test]
fn removing_a_permission_removes_every_copy_and_keeps_the_rest() {
    let mut auth = PermissionManager::new();
    auth.add_user("u", vec!["a".to_string(), "b".to_string(), "a".to_string()]);
    auth.remove_permission("u", "a").unwrap();
    assert!(!auth.is_authorized("u", "a"));
    assert!(auth.is_authorized("u", "b"));
    auth.add_permission("u", "a".to_string()).unwrap();
    assert!(auth.is_authorized("u", "a"));
}

#[test]
fn add_user_replaces_an_earlier_grant() {
    let mut auth = PermissionManager::new();
    auth.add_user("u", vec!["a".to_string()]);
    auth.add_user("u", vec!["b".to_string()]);
    assert!(!auth.is_authorized("u", "a"));
    assert!(auth.is_authorized("u", "b"));
}
