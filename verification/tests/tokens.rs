use catalyst::auth_flow::{
    complete_login, get_logout, refresh_session, reissue_tokens, switching_clears_auth, FlashKind,
};
use catalyst::bootstrap::JwtSettings;
use catalyst::guards::{TenantAdminGuard, TenantUserGuard};
use catalyst::jwt::{authenticate, jwt_to_id, missing_token_refusal, AuthSystem, Claims, TokenType, JWT};
use catalyst::jwt_service::{
    check_decoded_claims, generate_access_token, generate_refresh_token, generate_token_pair,
    generate_token_pair_for_vessel, get_jwt_settings, token_encoding_error, validate_refresh_token, UserIdentity,
    Vessel,
};
use catalyst::meltdown::{MeltDown, MeltType};
use catalyst::token_registry::{
    clear_used_refresh_tokens, discover_tenants, get_registered_tenants, get_token_version, initialize_tenant,
    invalidate_user_tokens, is_refresh_token_used, is_token_valid, mark_refresh_token_used, registry_size,
    register_user, remove_user, seed_tenant, tenant_registry_size, used_refresh_token_count, TokenRegistry,
};

fn user(id: i32, role: &str) -> UserIdentity {
    UserIdentity { id, username: format!("user{}", id), role: role.to_string() }
}

fn claims(sub: &str, tenant: Option<&str>, token_type: TokenType, ver: u32) -> Claims {
    Claims {
        sub: sub.to_string(),
        exp: 2_000_000_000,
        jti: "jti-1".to_string(),
        iat: 1_000_000_000,
        nbf: 1_000_000_000,
        ver,
        remember: false,
        role: "user".to_string(),
        username: "alice".to_string(),
        token_type,
        refresh_jti: None,
        device_info: None,
        tenant_name: tenant.map(|t| t.to_string()),
        auth_system: AuthSystem::Tenant,
    }
}

#[test]
fn versions_start_at_one_and_rise_on_revocation() {
    let mut r = TokenRegistry::new();
    assert_eq!(get_token_version(&r, "acme", 7), 1);
    register_user(&mut r, "acme", 7);
    assert_eq!(get_token_version(&r, "acme", 7), 1);
    assert_eq!(invalidate_user_tokens(&mut r, "acme", 7), 2);
    assert!(!is_token_valid(&r, "acme", 7, 1));
    assert!(is_token_valid(&r, "acme", 7, 2));
    assert_eq!(get_token_version(&r, "other", 7), 1);
    remove_user(&mut r, "acme", 7);
    assert_eq!(get_token_version(&r, "acme", 7), 1);
}

#[test]
fn refresh_tokens_are_spent_once() {
    let mut r = TokenRegistry::new();
    assert!(mark_refresh_token_used(&mut r, "acme", 1, "a"));
    assert!(!mark_refresh_token_used(&mut r, "acme", 1, "a"));
    assert!(is_refresh_token_used(&r, "acme", 1, "a"));
    assert!(!is_refresh_token_used(&r, "acme", 2, "a"));
    assert_eq!(used_refresh_token_count(&r, "acme", 1), 1);
    clear_used_refresh_tokens(&mut r, "acme", 1);
    assert!(!is_refresh_token_used(&r, "acme", 1, "a"));
}

#[test]
fn revocation_forgets_spent_tokens() {
    let mut r = TokenRegistry::new();
    register_user(&mut r, "acme", 1);
    mark_refresh_token_used(&mut r, "acme", 1, "a");
    invalidate_user_tokens(&mut r, "acme", 1);
    assert_eq!(used_refresh_token_count(&r, "acme", 1), 0);
}

#[test]
fn sizes_and_tenants() {
    let mut r = TokenRegistry::new();
    seed_tenant(&mut r, "acme", &vec![1, 2, 3]);
    register_user(&mut r, "beta", 9);
    assert_eq!(tenant_registry_size(&r, "acme"), 3);
    assert_eq!(registry_size(&r), 4);
    let mut tenants = get_registered_tenants(&r);
    tenants.sort();
    assert_eq!(tenants, vec!["acme".to_string(), "beta".to_string()]);
}

#[test]
fn tenants_are_discovered() {
    assert_eq!(discover_tenants(None, None), vec!["postgres".to_string()]);
    assert_eq!(
        discover_tenants(Some(" acme, beta ,,postgres,acme"), Some("postgres://u:p@h/vessel_db ")),
        vec!["postgres".to_string(), "acme".to_string(), "beta".to_string(), "vessel_db".to_string()]
    );
    let mut r = TokenRegistry::new();
    initialize_tenant(&mut r, "acme", &Ok(vec![4, 5]));
    initialize_tenant(&mut r, "broken", &Err(MeltDown::db_connection("down")));
    assert_eq!(tenant_registry_size(&r, "acme"), 2);
    assert_eq!(tenant_registry_size(&r, "broken"), 0);
    assert_eq!(get_registered_tenants(&r).len(), 2);
}

#[test]
fn issued_tokens_carry_the_session() {
    let mut r = TokenRegistry::new();
    let settings = JwtSettings::default();
    let u = user(42, "admin");
    let (refresh, access) = generate_token_pair(&mut r, &u, "acme", &settings, true, Some("laptop".to_string()));
    assert_eq!(refresh.token_type, TokenType::Refresh);
    assert_eq!(access.token_type, TokenType::Access);
    assert_eq!(access.refresh_jti, Some(refresh.jti.clone()));
    assert_eq!(refresh.sub, "42");
    assert_eq!(access.sub, "42");
    assert_eq!(refresh.jti.len(), 36);
    assert_ne!(refresh.jti, access.jti);
    assert!(refresh.remember);
    assert_eq!(refresh.tenant_name.as_deref(), Some("acme"));
    assert_eq!(refresh.exp - refresh.iat, 30 * 86400);
    assert_eq!(access.exp - access.iat, 30 * 60);
    assert_eq!(access.iat, access.nbf);
    assert_eq!(refresh.ver, 1);
    assert_eq!(get_token_version(&r, "acme", 42), 1);
    assert_eq!(tenant_registry_size(&r, "acme"), 1);
}

#[test]
fn single_tokens_and_vessel_tokens() {
    let mut r = TokenRegistry::new();
    let settings = JwtSettings::default();
    let a = generate_access_token(&mut r, &user(-3, "user"), "acme", &settings, None, None);
    assert_eq!(a.sub, "-3");
    assert_eq!(a.auth_system, AuthSystem::Tenant);
    let f = generate_refresh_token(&mut r, &user(3, "user"), "acme", &settings, false, None);
    assert_eq!(f.exp - f.iat, 7 * 86400);
    let v = Vessel { id: 5, name: "shipyard".to_string(), username: "captain".to_string() };
    let (vr, va) = generate_token_pair_for_vessel(&mut r, &v, &settings, false, None);
    assert_eq!(va.role, "vessel");
    assert_eq!(va.auth_system, AuthSystem::Vessel);
    assert_eq!(vr.tenant_name.as_deref(), Some("shipyard"));
    assert_eq!(get_jwt_settings(None), JwtSettings::default());
}

#[test]
fn decoded_claims_are_checked_against_versions() {
    let mut r = TokenRegistry::new();
    register_user(&mut r, "acme", 7);
    let ok = check_decoded_claims(&r, Ok(claims("7", Some("acme"), TokenType::Access, 1)));
    assert!(ok.is_ok());
    invalidate_user_tokens(&mut r, "acme", 7);
    let e = check_decoded_claims(&r, Ok(claims("7", Some("acme"), TokenType::Access, 1))).unwrap_err();
    assert_eq!(e.melt_type, MeltType::ExpiredToken);
    assert_eq!(e.details, "Token version is outdated, please login again");
    let e = check_decoded_claims(&r, Ok(claims("x7", Some("acme"), TokenType::Access, 9))).unwrap_err();
    assert_eq!(e.melt_type, MeltType::ValidationFailed);
    let e = check_decoded_claims(&r, Err("InvalidSignature".to_string())).unwrap_err();
    assert_eq!(e.melt_type, MeltType::Unauthorized);
    assert_eq!(e.context, Some(vec![("error".to_string(), "Error validating JWT: InvalidSignature".to_string())]));
}

#[test]
fn refresh_tokens_are_validated() {
    let mut r = TokenRegistry::new();
    register_user(&mut r, "acme", 7);
    let info = validate_refresh_token(&r, Ok(claims("7", Some("acme"), TokenType::Refresh, 1))).unwrap();
    assert_eq!(info.user_id, 7);
    assert_eq!(info.jti, "jti-1");
    let e = validate_refresh_token(&r, Ok(claims("7", Some("acme"), TokenType::Access, 1))).unwrap_err();
    assert_eq!(e.details, "Invalid token type");
    mark_refresh_token_used(&mut r, "acme", 7, "jti-1");
    let e = validate_refresh_token(&r, Ok(claims("7", Some("acme"), TokenType::Refresh, 1))).unwrap_err();
    assert_eq!(e.melt_type, MeltType::Unauthorized);
    assert_eq!(e.details, "Refresh token has already been used, please login again");
}

#[test]
fn a_refreshed_session_cannot_be_refreshed_twice() {
    let mut r = TokenRegistry::new();
    register_user(&mut r, "acme", 7);
    let first = refresh_session(&mut r, "acme", Some(Ok(claims("7", Some("acme"), TokenType::Refresh, 1))));
    let info = first.unwrap();
    let second = refresh_session(&mut r, "acme", Some(Ok(claims("7", Some("acme"), TokenType::Refresh, 1))));
    let refusal = second.unwrap_err();
    assert!(refusal.clear_cookies);
    assert_eq!(refusal.redirect.location, "/acme/auth/login");
    assert_eq!(refusal.redirect.message, "Session expired. Please log in again.");
    let missing = refresh_session(&mut r, "acme", None).unwrap_err();
    assert!(!missing.clear_cookies);
    let (fresh, access) = reissue_tokens(&mut r, "acme", &user(7, "user"), info, &JwtSettings::default());
    assert_eq!(access.refresh_jti, Some(fresh.jti.clone()));
}

#[test]
fn requests_are_authenticated() {
    let ok = authenticate(Ok(claims("7", Some("acme"), TokenType::Access, 1)), Some("7")).ok().unwrap();
    assert_eq!(ok.user_id(), 7);
    assert_eq!(jwt_to_id(&ok).ok(), Some(7));
    let refusal = authenticate(Ok(claims("7", None, TokenType::Refresh, 1)), None).err().unwrap();
    assert_eq!(refusal.error.details, "Refresh token cannot be used for authentication");
    assert!(!refusal.clear_cookies);
    let refusal = authenticate(Ok(claims("7", None, TokenType::Access, 1)), Some("8")).err().unwrap();
    assert_eq!(refusal.error.details, "JWT/Cookie User ID mismatch: Cookie='8', JWT='7'");
    assert!(refusal.clear_cookies);
    let m = missing_token_refusal();
    assert_eq!(m.error.melt_type, MeltType::MissingToken);
    let bad = JWT(claims("seven", None, TokenType::Access, 1));
    let e = jwt_to_id(&bad).err().unwrap();
    assert_eq!(e.melt_type, MeltType::InvalidToken);
    assert!(e.details.starts_with("Invalid user ID in JWT: "));
    assert!(e.details.len() > "Invalid user ID in JWT: ".len());
}

#[test]
fn logins_issue_tokens_or_refuse() {
    let mut r = TokenRegistry::new();
    let settings = JwtSettings::default();
    let grant =
        complete_login(&mut r, "acme", &user(3, "admin"), Ok(true), None, "2024-01-01T00:00:00Z", &settings).ok().unwrap();
    assert_eq!(grant.redirect.kind, FlashKind::Success);
    assert_eq!(grant.redirect.location, "/acme/admin/dashboard");
    assert_eq!(grant.redirect.message, "Successfully logged in.");
    assert_eq!(grant.refresh_claims.device_info.as_deref(), Some("Login at 2024-01-01T00:00:00Z for tenant: acme"));
    assert!(!grant.refresh_claims.remember);
    let refused = complete_login(&mut r, "acme", &user(4, "user"), Ok(false), None, "t", &settings).err().unwrap();
    assert_eq!(refused.kind, FlashKind::Error);
    assert_eq!(refused.location, "/acme/auth/login");
    assert_eq!(refused.message, "Invalid username or password.");
    assert_eq!(tenant_registry_size(&r, "acme"), 1);
}

#[test]
fn a_login_session_is_good_for_its_tenant() {
    let mut r = TokenRegistry::new();
    let settings = JwtSettings::default();
    let grant =
        complete_login(&mut r, "acme", &user(9, "admin"), Ok(true), Some(true), "now", &settings).ok().unwrap();
    let access = grant.access_claims;
    let refresh = grant.refresh_claims;
    assert_eq!(access.username, "user9");
    assert_eq!(access.role, "admin");
    assert_eq!(refresh.exp - refresh.iat, 30 * 86400);
    let checked = check_decoded_claims(&r, Ok(access)).ok().unwrap();
    let jwt = authenticate(Ok(checked), Some("9")).ok().unwrap();
    assert_eq!(TenantUserGuard::from_request(&jwt, "/acme/user/dashboard").ok().unwrap().tenant_name, "acme");
    assert_eq!(TenantUserGuard::from_request(&jwt, "/").ok().unwrap().tenant_name, "acme");
    assert_eq!(TenantAdminGuard::from_request(&jwt, "/acme/admin/dashboard").ok().unwrap().tenant_name, "acme");
    assert!(TenantUserGuard::from_request(&jwt, "/beta/user/dashboard").is_err());
    let info = validate_refresh_token(&r, Ok(refresh)).ok().unwrap();
    assert_eq!(info.user_id, 9);
    assert!(info.remember);
}

#[test]
fn logins_to_another_tenant_drop_the_session() {
    let mut c = claims("1", Some("acme"), TokenType::Access, 1);
    assert!(!switching_clears_auth(Some(&JWT(claims("1", Some("acme"), TokenType::Access, 1))), "acme"));
    assert!(switching_clears_auth(Some(&JWT(claims("1", Some("beta"), TokenType::Access, 1))), "acme"));
    c.auth_system = AuthSystem::Vessel;
    assert!(switching_clears_auth(Some(&JWT(c)), "acme"));
    assert!(!switching_clears_auth(None, "acme"));
}

#[test]
fn logout_clears_every_session_cookie() {
    let jwt = JWT(claims("1", Some("beta"), TokenType::Access, 1));
    let (removals, redirect) = get_logout("acme", Some(&jwt));
    assert_eq!(removals.len(), 6 * 8 + 6 + 6 * 4);
    assert_eq!(removals[0], ("access_token".to_string(), Some("/".to_string())));
    assert!(removals.contains(&("csrf_token".to_string(), None)));
    assert!(removals.contains(&("user_id".to_string(), Some("/acme/admin".to_string()))));
    assert!(removals.contains(&("tenant".to_string(), Some("/beta/user".to_string()))));
    assert_eq!(redirect.location, "/acme/auth/login");
    assert_eq!(redirect.message, "Successfully logged out.");
    let (same_tenant, _) = get_logout("acme", None);
    assert_eq!(same_tenant.len(), 6 * 8 + 6);
}

#[test]
fn encoding_failures_are_unknown_errors() {
    let e = token_encoding_error("bad key");
    assert_eq!(e.melt_type, MeltType::Unknown);
    assert_eq!(e.user_message(), "An unexpected error occurred.");
    assert_eq!(e.context, Some(vec![("error".to_string(), "Error encoding JWT: bad key".to_string())]));
}

#[test]
fn registering_and_removing_users_changes_tenant_sizes() {
    let mut r = TokenRegistry::new();
    register_user(&mut r, "acme", 1);
    register_user(&mut r, "acme", 2);
    assert_eq!(tenant_registry_size(&r, "acme"), 2);
    invalidate_user_tokens(&mut r, "acme", 1);
    register_user(&mut r, "acme", 1);
    assert_eq!(tenant_registry_size(&r, "acme"), 2);
    assert_eq!(get_token_version(&r, "acme", 1), 2);
    remove_user(&mut r, "acme", 1);
    assert_eq!(tenant_registry_size(&r, "acme"), 1);
    remove_user(&mut r, "acme", 42);
    assert_eq!(tenant_registry_size(&r, "acme"), 1);
    remove_user(&mut r, "nowhere", 1);
    assert_eq!(get_registered_tenants(&r), vec!["acme".to_string()]);
}

#[test]
fn the_spent_count_counts_distinct_tokens() {
    let mut r = TokenRegistry::new();
    for jti in ["a", "b", "a", "c", "b"] {
        mark_refresh_token_used(&mut r, "acme", 3, jti);
    }
    assert_eq!(used_refresh_token_count(&r, "acme", 3), 3);
    assert_eq!(used_refresh_token_count(&r, "acme", 4), 0);
    assert_eq!(used_refresh_token_count(&r, "beta", 3), 0);
    assert!(!is_refresh_token_used(&r, "beta", 3, "a"));
    assert_eq!(get_token_version(&r, "acme", 3), 1);
}

#[test]
fn the_registry_size_adds_up_its_tenants() {
    let mut r = TokenRegistry::new();
    assert_eq!(registry_size(&r), 0);
    seed_tenant(&mut r, "acme", &vec![1, 2]);
    seed_tenant(&mut r, "beta", &vec![1, 2, 3]);
    mark_refresh_token_used(&mut r, "gamma", 1, "x");
    assert_eq!(registry_size(&r), 5);
    assert_eq!(tenant_registry_size(&r, "gamma"), 0);
    assert_eq!(get_registered_tenants(&r).len(), 3);
}

#[test]
fn revocation_holds_through_later_calls() {
    let mut r = TokenRegistry::new();
    register_user(&mut r, "acme", 1);
    let v = invalidate_user_tokens(&mut r, "acme", 1);
    register_user(&mut r, "acme", 1);
    register_user(&mut r, "acme", 2);
    mark_refresh_token_used(&mut r, "acme", 1, "j");
    clear_used_refresh_tokens(&mut r, "acme", 1);
    invalidate_user_tokens(&mut r, "acme", 2);
    seed_tenant(&mut r, "beta", &vec![1]);
    assert!(!is_token_valid(&r, "acme", 1, v - 1));
    assert!(is_token_valid(&r, "acme", 1, v));
    assert!(is_token_valid(&r, "acme", 1, v + 1));
}

#[test]
fn spent_tokens_survive_calls_for_others() {
    let mut r = TokenRegistry::new();
    mark_refresh_token_used(&mut r, "acme", 1, "j");
    register_user(&mut r, "acme", 2);
    invalidate_user_tokens(&mut r, "acme", 2);
    remove_user(&mut r, "acme", 2);
    clear_used_refresh_tokens(&mut r, "beta", 1);
    seed_tenant(&mut r, "acme", &vec![3, 4]);
    mark_refresh_token_used(&mut r, "beta", 1, "k");
    assert!(is_refresh_token_used(&r, "acme", 1, "j"));
    assert!(!is_refresh_token_used(&r, "beta", 1, "j"));
    assert!(!is_refresh_token_used(&r, "acme", 1, "k"));
    register_user(&mut r, "acme", 1);
    assert!(!is_refresh_token_used(&r, "acme", 1, "j"));
}

#[test]
fn the_spent_count_ignores_calls_for_others() {
    let mut r = TokenRegistry::new();
    register_user(&mut r, "acme", 3);
    mark_refresh_token_used(&mut r, "acme", 3, "a");
    register_user(&mut r, "acme", 4);
    mark_refresh_token_used(&mut r, "acme", 4, "b");
    invalidate_user_tokens(&mut r, "acme", 4);
    mark_refresh_token_used(&mut r, "beta", 3, "c");
    mark_refresh_token_used(&mut r, "acme", 3, "b");
    clear_used_refresh_tokens(&mut r, "beta", 3);
    seed_tenant(&mut r, "acme", &vec![5]);
    mark_refresh_token_used(&mut r, "acme", 3, "a");
    assert_eq!(used_refresh_token_count(&r, "acme", 3), 2);
}
