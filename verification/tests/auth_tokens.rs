use logpose::auth::{authorize, check_permission};
use logpose::strutil::{parse_dec, u64_to_dec};
use logpose::errors::AuthError;
use logpose::token::{issue_token, validate_token};
use logpose::{Claims, Identity, Permission, Role};

fn permission_set(role: Role) -> Vec<Permission> {
    let mut v = role.permissions();
    v.sort();
    v
}

#[test]
fn permission_table_matches_the_fixed_sets() {
    let mut admin = vec![
        Permission::ServiceRead,
        Permission::ServiceWrite,
        Permission::InstanceRead,
        Permission::InstanceWrite,
        Permission::UserManage,
    ];
    admin.sort();
    assert_eq!(permission_set(Role::Admin), admin);

    let mut agent = vec![
        Permission::ServiceRead,
        Permission::InstanceRead,
        Permission::InstanceWrite,
    ];
    agent.sort();
    assert_eq!(permission_set(Role::Agent), agent);

    let mut viewer = vec![Permission::ServiceRead, Permission::InstanceRead];
    viewer.sort();
    assert_eq!(permission_set(Role::Viewer), viewer);
}

#[test]
fn has_permission_agrees_with_the_table() {
    for role in [Role::Admin, Role::Agent, Role::Viewer] {
        for p in [
            Permission::ServiceRead,
            Permission::ServiceWrite,
            Permission::InstanceRead,
            Permission::InstanceWrite,
            Permission::UserManage,
        ] {
            assert_eq!(role.has_permission(p), role.permissions().contains(&p));
        }
    }
}

#[test]
fn authorize_is_true_iff_some_role_grants() {
    let agent = Claims { sub: "a".to_string(), roles: vec![Role::Agent], exp: 10 };
    assert!(authorize(&agent, Permission::InstanceWrite));
    assert!(!authorize(&agent, Permission::ServiceWrite));
    assert!(!authorize(&agent, Permission::UserManage));

    let mixed = Claims { sub: "m".to_string(), roles: vec![Role::Viewer, Role::Admin], exp: 10 };
    assert!(authorize(&mixed, Permission::UserManage));

    let nobody = Claims { sub: "n".to_string(), roles: vec![], exp: 10 };
    assert!(!authorize(&nobody, Permission::ServiceRead));
}

#[test]
fn check_permission_gates_with_insufficient_permission() {
    let viewer = Claims { sub: "v".to_string(), roles: vec![Role::Viewer], exp: 10 };
    assert!(check_permission(&viewer, Permission::ServiceRead).is_ok());
    assert_eq!(
        check_permission(&viewer, Permission::ServiceWrite),
        Err(AuthError::InsufficientPermission)
    );
}

fn admin_identity() -> Identity {
    Identity {
        common_name: "admin.registry.local".to_string(),
        organization: Some("Registry".to_string()),
        roles: vec![Role::Admin, Role::Viewer],
    }
}

#[test]
fn issued_token_validates_to_the_issued_claims() {
    let secret: &[u8] = b"a-test-signing-key";
    let token = issue_token(&admin_identity(), secret, 1_000, 3_600);
    let claims = validate_token(&token, secret, 2_000).expect("token should validate");
    assert_eq!(claims.sub, "admin.registry.local");
    assert_eq!(claims.roles, vec![Role::Admin, Role::Viewer]);
    assert_eq!(claims.exp, 4_600);
}

#[test]
fn subject_with_dots_survives_the_round_trip() {
    let ident = Identity {
        common_name: "agent.node-3.mesh.local".to_string(),
        organization: None,
        roles: vec![Role::Agent],
    };
    let secret: &[u8] = b"k";
    let token = issue_token(&ident, secret, 0, 100);
    let claims = validate_token(&token, secret, 99).unwrap();
    assert_eq!(claims.sub, "agent.node-3.mesh.local");
    assert_eq!(claims.roles, vec![Role::Agent]);
}

#[test]
fn expired_token_is_unauthenticated() {
    let secret: &[u8] = b"k";
    let token = issue_token(&admin_identity(), secret, 1_000, 60);
    // Valid strictly before the expiry second, invalid from it on.
    assert!(validate_token(&token, secret, 1_059).is_ok());
    assert!(matches!(validate_token(&token, secret, 1_060), Err(AuthError::Unauthenticated)));
    assert!(matches!(validate_token(&token, secret, 9_999), Err(AuthError::Unauthenticated)));
}

#[test]
fn wrong_secret_is_unauthenticated() {
    let token = issue_token(&admin_identity(), b"right", 0, 100);
    assert!(validate_token(&token, b"right", 50).is_ok());
    assert!(matches!(validate_token(&token, b"wrong", 50), Err(AuthError::Unauthenticated)));
}

#[test]
fn tampered_token_is_unauthenticated() {
    let secret: &[u8] = b"k";
    let token = issue_token(&admin_identity(), secret, 0, 100);
    // Raise the expiry digit by one without re-signing.
    let tampered = token.replacen("100", "900", 1);
    assert_ne!(token, tampered);
    assert!(matches!(validate_token(&tampered, secret, 50), Err(AuthError::Unauthenticated)));
}

#[test]
fn malformed_tokens_are_unauthenticated() {
    let secret: &[u8] = b"k";
    for bad in ["", "nodots", "a.b", "12.AG", "x.A.sub.sig", "99.Z.sub.sig"] {
        assert!(matches!(validate_token(bad, secret, 0), Err(AuthError::Unauthenticated)));
    }
}

#[test]
fn decimal_codec_round_trips() {
    for n in [0u64, 7, 10, 99, 1_000, u64::MAX] {
        let s = u64_to_dec(n);
        assert_eq!(parse_dec(&s), Some(n));
    }
    assert_eq!(u64_to_dec(0), "0");
    assert_eq!(u64_to_dec(1_234_567_890), "1234567890");
    assert_eq!(parse_dec(""), None);
    assert_eq!(parse_dec("12a"), None);
    // One past u64::MAX overflows.
    assert_eq!(parse_dec("18446744073709551616"), None);
    assert_eq!(parse_dec("18446744073709551615"), Some(u64::MAX));
}
