use provision_core::auth::{AdminUser, AuthServer, AuthType};

#[test]
fn admin_allows_every_flag() {
    let capsule = AdminUser::create("root".to_string());
    for flag in [0u32, 1, 2, 7, 1 << 31, u32::MAX] {
        assert!(capsule.is_allowed(flag));
    }
    assert!(capsule.get_server().is_none());
    assert_eq!(capsule.get_user().map(|u| u.username().clone()), Some("root".to_string()));
    assert!(capsule.is_type(AuthType::User));
    assert!(!capsule.is_type(AuthType::Server));
}

#[test]
fn server_capsule_holds_only_server_identity() {
    let capsule = AuthServer::create("lobby-1".to_string());
    assert!(capsule.get_user().is_none());
    assert_eq!(capsule.get_server().map(|s| s.server().clone()), Some("lobby-1".to_string()));
    assert!(capsule.is_type(AuthType::Server));
    assert!(!capsule.is_type(AuthType::User));
    assert!(!capsule.is_allowed(1));
}

#[test]
fn recreate_keeps_variant_and_capabilities() {
    for capsule in [AdminUser::create("root".to_string()), AuthServer::create("lobby-1".to_string())] {
        let copy = capsule.recreate();
        for kind in [AuthType::User, AuthType::Server] {
            assert_eq!(copy.is_type(kind), capsule.is_type(kind));
        }
        for flag in [0u32, 1, 5, u32::MAX] {
            assert_eq!(copy.is_allowed(flag), capsule.is_allowed(flag));
        }
    }
    let admin = AdminUser::create("root".to_string());
    let again = admin.recreate();
    assert_eq!(again.get_user().map(|u| u.username().as_str().to_string()), Some("root".to_string()));
}

#[test]
fn admin_user_methods() {
    let capsule = AdminUser::create("ops".to_string());
    let admin = capsule.get_user().expect("admin capsule");
    assert!(admin.is_allowed(42));
    assert!(admin.get_server().is_none());
    assert!(admin.get_user().is_some());
    assert!(admin.is_type(AuthType::User));
    assert!(admin.recreate().is_type(AuthType::User));
}
