use catalyst::catchers::{
    accepts_json, extract_tenant_name, forbidden, internal_error, not_found, unauthorized, unprocessable_entity,
    ErrorReply,
};
use catalyst::guards::{
    api_key_request, extract_tenant_from_path, uri_tenant_name, AdminGuard, Referer, TenantAdminGuard,
    TenantUserGuard,
};
use catalyst::jwt::{AuthSystem, Claims, TokenType, JWT};
use catalyst::meltdown::{MeltDown, MeltType};

fn token(role: &str, tenant: Option<&str>, system: AuthSystem) -> JWT {
    JWT(Claims {
        sub: "1".to_string(),
        exp: 0,
        jti: "j".to_string(),
        iat: 0,
        nbf: 0,
        ver: 1,
        remember: false,
        role: role.to_string(),
        username: "u".to_string(),
        token_type: TokenType::Access,
        refresh_jti: None,
        device_info: None,
        tenant_name: tenant.map(|t| t.to_string()),
        auth_system: system,
    })
}

#[test]
fn path_tenants_are_read() {
    assert_eq!(uri_tenant_name("/acme/dashboard"), Some("acme".to_string()));
    assert_eq!(uri_tenant_name("/"), None);
    assert_eq!(uri_tenant_name("/a.b/x"), None);
    assert_eq!(uri_tenant_name("/me@x/x"), None);
    assert_eq!(extract_tenant_from_path("/acme/api/v1/status"), Some("acme".to_string()));
    assert_eq!(extract_tenant_from_path("//acme//api/v1"), Some("acme".to_string()));
    assert_eq!(extract_tenant_from_path("/admin/api/x"), None);
    assert_eq!(extract_tenant_from_path("/acme/web"), None);
}

#[test]
fn admin_guard_admits_admins_only() {
    assert!(AdminGuard::from_request(&token("admin", None, AuthSystem::Tenant)).is_ok());
    let e = AdminGuard::from_request(&token("user", None, AuthSystem::Tenant)).err().unwrap();
    assert_eq!(e.melt_type, MeltType::Forbidden);
    assert_eq!(e.details, "Insufficient permissions to access admin area");
}

#[test]
fn referer_is_required() {
    assert_eq!(Referer::from_request(Some("/back")).ok().unwrap().0, "/back");
    let e = Referer::from_request(None).err().unwrap();
    assert_eq!(e.melt_type, MeltType::MissingField);
    assert_eq!(e.user_message(), "Missing Referer header is required.");
}

#[test]
fn api_keys_are_read_from_bearer_headers() {
    let (key, tenant) = api_key_request(Some("Bearer  abc123 "), "/acme/api/v1").ok().unwrap();
    assert_eq!(key, "abc123");
    assert_eq!(tenant, "acme");
    let (key, tenant) = api_key_request(Some("Bearer Bearer k"), "/other").ok().unwrap();
    assert_eq!(key, "k");
    assert_eq!(tenant, "main");
    let e = api_key_request(Some("Bearer   "), "/").err().unwrap();
    assert_eq!(e.details, "Empty API key provided");
    let e = api_key_request(Some("Basic x"), "/").err().unwrap();
    assert_eq!(e.details, "Missing Authorization header");
    assert_eq!(api_key_request(None, "/").err().unwrap().melt_type, MeltType::Unauthorized);
}

#[test]
fn tenant_users_keep_to_their_tenant() {
    let g = TenantUserGuard::from_request(&token("user", Some("acme"), AuthSystem::Tenant), "/acme/home").ok().unwrap();
    assert_eq!(g.tenant_name, "acme");
    let e = TenantUserGuard::from_request(&token("user", Some("acme"), AuthSystem::Tenant), "/beta/home").err().unwrap();
    assert_eq!(e.details, "User has no access to tenant: beta");
    let e = TenantUserGuard::from_request(&token("admin", Some("acme"), AuthSystem::Tenant), "/beta/x").err().unwrap();
    assert_eq!(e.details, "Admin is authenticated for tenant 'acme', not for tenant 'beta'");
    let g = TenantUserGuard::from_request(&token("user", None, AuthSystem::Tenant), "/").ok().unwrap();
    assert_eq!(g.tenant_name, "main");
    let e = TenantUserGuard::from_request(&token("user", None, AuthSystem::Tenant), "/acme").err().unwrap();
    assert_eq!(e.details, "Tenant-specific access requires tenant association");
    let e = TenantUserGuard::from_request(&token("user", Some("acme"), AuthSystem::Vessel), "/acme").err().unwrap();
    assert_eq!(e.melt_type, MeltType::Forbidden);
    assert_eq!(e.status_code().code, 403);
}

#[test]
fn tenant_admins_keep_to_their_tenant() {
    let g = TenantAdminGuard::from_request(&token("admin", Some("acme"), AuthSystem::Tenant), "/acme/admin").ok().unwrap();
    assert_eq!(g.tenant_name, "acme");
    let e = TenantAdminGuard::from_request(&token("admin", Some("acme"), AuthSystem::Tenant), "/").err().unwrap();
    assert_eq!(e.details, "Authentication is for tenant 'acme', not for tenant 'main'");
    let e = TenantAdminGuard::from_request(&token("user", Some("acme"), AuthSystem::Tenant), "/acme").err().unwrap();
    assert_eq!(e.details, "Insufficient permissions to access admin area");
    let e = TenantAdminGuard::from_request(&token("admin", None, AuthSystem::Tenant), "/acme").err().unwrap();
    assert_eq!(e.details, "Invalid authentication token - missing tenant information");
}

#[test]
fn error_pages_belong_to_the_path_tenant() {
    assert_eq!(extract_tenant_name("/acme/x"), "acme");
    assert_eq!(extract_tenant_name("/api/x"), "main");
    assert_eq!(extract_tenant_name("/public/x"), "main");
    assert_eq!(extract_tenant_name("/"), "main");
    assert!(accepts_json(&vec!["text/html".to_string(), "application/json; q=1".to_string()]));
    assert!(!accepts_json(&vec!["text/html".to_string()]));
}

#[test]
fn catchers_answer_api_clients_with_json() {
    let none: Vec<String> = vec![];
    match unauthorized("/api/x", &none) {
        ErrorReply::Json { code, message } => {
            assert_eq!(code, 401);
            assert_eq!(message, "Unauthorized: Authentication required");
        },
        other => panic!("unexpected {:?}", other),
    }
    match forbidden("/acme/admin/x", &none) {
        ErrorReply::Redirect(l) => assert_eq!(l, "/acme/auth/login"),
        other => panic!("unexpected {:?}", other),
    }
    match not_found("/acme/missing", &none) {
        ErrorReply::Page { title, flash, tenant } => {
            assert_eq!(title, "Page Not Found");
            assert!(flash.is_none());
            assert_eq!(tenant, "acme");
        },
        other => panic!("unexpected {:?}", other),
    }
    match not_found("/x", &vec!["application/json".to_string()]) {
        ErrorReply::Json { code, message } => {
            assert_eq!(code, 404);
            assert_eq!(message, "Resource not found.");
        },
        other => panic!("unexpected {:?}", other),
    }
    match unprocessable_entity("/acme/auth/register", &none, None) {
        ErrorReply::Redirect(l) => assert_eq!(l, "/acme/auth/register"),
        other => panic!("unexpected {:?}", other),
    }
    match unprocessable_entity("/api/x", &none, Some("age")) {
        ErrorReply::Json { code, message } => {
            assert_eq!(code, 422);
            assert_eq!(message, "Validation failed: age");
        },
        other => panic!("unexpected {:?}", other),
    }
    match internal_error("/acme/x", &none) {
        ErrorReply::Redirect(l) => assert_eq!(l, "/acme/not-found"),
        other => panic!("unexpected {:?}", other),
    }
}

#[test]
fn errors_respond_by_status() {
    let none: Vec<String> = vec![];
    match MeltDown::new(MeltType::Unknown, "boom").respond_to("/acme/x", &none) {
        ErrorReply::Page { title, flash, tenant } => {
            assert_eq!(title, "Error");
            assert_eq!(flash, Some(("error".to_string(), "An unexpected error occurred.".to_string())));
            assert_eq!(tenant, "acme");
        },
        other => panic!("unexpected {:?}", other),
    }
    match MeltDown::expired_token().respond_to("/acme/x", &none) {
        ErrorReply::Redirect(l) => assert_eq!(l, "/acme/auth/login"),
        other => panic!("unexpected {:?}", other),
    }
    match MeltDown::invalid_input("x").respond_to("/api/v1", &none) {
        ErrorReply::Json { code, message } => {
            assert_eq!(code, 400);
            assert_eq!(message, "Invalid input: x");
        },
        other => panic!("unexpected {:?}", other),
    }
}
