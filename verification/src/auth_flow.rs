//! The decisions of the tenant pages and the login, logout and refresh flows:
//! which page to show, where to redirect with which flash message, which
//! cookies to drop and which tokens to issue. The requests, the database and
//! the cookie jar stay with the caller, which performs each decided step.
use vstd::prelude::*;

use crate::bootstrap::JwtSettings;
use crate::jwt::{AuthSystem, Claims, JWT};
use crate::jwt_service::{
    generate_token_pair, refresh_verdict, session_claims, settings_fit, validate_refresh_token, RefreshTokenInfo,
    UserIdentity,
};
use crate::meltdown::{default_user_message, MeltDown, MeltType};
use crate::text::{opt_string_view, str_eq, strings_view};
use crate::token_registry::{after_mark, after_register, mark_refresh_token_used, TokenRegistry};

verus! {

/// The kind of a flash message.
#[derive(Clone, Copy, Debug, PartialEq, Eq, Structural)]
pub enum FlashKind {
    Success,
    Error,
}

/// A redirect that carries a flash message.
#[derive(Debug)]
pub struct FlashRedirect {
    pub kind: FlashKind,
    pub location: String,
    pub message: String,
}

/// The redirect has this kind, location and message.
pub open spec fn flash_is(f: FlashRedirect, kind: FlashKind, location: Seq<char>, message: Seq<char>) -> bool {
    f.kind == kind && f.location@ == location && f.message@ == message
}

fn flash(kind: FlashKind, location: &str, message: &str) -> (r: FlashRedirect)
    ensures
        flash_is(r, kind, location@, message@),
{
    FlashRedirect { kind, location: String::from_str(location), message: String::from_str(message) }
}

/// A tenant's path: `/<tenant>` followed by `suffix`.
pub open spec fn tenant_path(tenant: Seq<char>, suffix: Seq<char>) -> Seq<char> {
    "/"@ + tenant + suffix
}

fn tenant_path_exec(tenant: &str, suffix: &str) -> (r: String)
    ensures
        r@ == tenant_path(tenant@, suffix@),
{
    String::from_str("/").concat(tenant).concat(suffix)
}

/// A tenant's login page.
pub fn login_location(tenant: &str) -> (r: String)
    ensures
        r@ == tenant_path(tenant@, "/auth/login"@),
{
    tenant_path_exec(tenant, "/auth/login")
}

/// A tenant's registration page.
pub fn register_location(tenant: &str) -> (r: String)
    ensures
        r@ == tenant_path(tenant@, "/auth/register"@),
{
    tenant_path_exec(tenant, "/auth/register")
}

/// The dashboard a user lands on: the admin dashboard for admins.
pub open spec fn dashboard_path(tenant: Seq<char>, is_admin: bool) -> Seq<char> {
    if is_admin {
        tenant_path(tenant, "/admin/dashboard"@)
    } else {
        tenant_path(tenant, "/user/dashboard"@)
    }
}

/// The dashboard a user lands on.
pub fn dashboard_location(tenant: &str, is_admin: bool) -> (r: String)
    ensures
        r@ == dashboard_path(tenant@, is_admin),
{
    if is_admin {
        tenant_path_exec(tenant, "/admin/dashboard")
    } else {
        tenant_path_exec(tenant, "/user/dashboard")
    }
}

/// An error flash that shows the error's user message at `location`.
pub fn error_flash(location: &str, error: &MeltDown) -> (r: FlashRedirect)
    ensures
        flash_is(r, FlashKind::Error, location@, error.user_message_view()),
{
    let m = error.user_message();
    flash(FlashKind::Error, location, m.as_str())
}

/// Where requests for an unknown tenant, or whose tenant could not be
/// checked, are sent.
pub open spec fn vessel_login() -> Seq<char> {
    "/vessel/auth/login"@
}

/// Lets a request through when its tenant exists; otherwise sends it to the
/// hosting login with "tenant not found", or "database error" when the check
/// itself failed.
pub fn tenant_gate(tenant_found: Result<bool, MeltDown>) -> (r: Result<(), FlashRedirect>)
    ensures
        match tenant_found {
            Ok(true) => (r is Ok),
            Ok(false) => r matches Err(f) && flash_is(
                f,
                FlashKind::Error,
                vessel_login(),
                default_user_message(MeltType::NotFound, "Tenant not found"@),
            ),
            Err(_) => r matches Err(f) && flash_is(
                f,
                FlashKind::Error,
                vessel_login(),
                default_user_message(MeltType::DatabaseError, "Database error"@),
            ),
        },
{
    match tenant_found {
        Ok(true) => Ok(()),
        Ok(false) => {
            let e = MeltDown::new(MeltType::NotFound, "Tenant not found");
            Err(error_flash("/vessel/auth/login", &e))
        },
        Err(_) => {
            let e = MeltDown::new(MeltType::DatabaseError, "Database error");
            Err(error_flash("/vessel/auth/login", &e))
        },
    }
}

/// Lets a tenant's admin dashboard render when the tenant exists; an unknown
/// tenant is a not-found error and a failed check a database error.
pub fn get_admin_dashboard(tenant_found: Result<bool, MeltDown>) -> (r: Result<(), MeltDown>)
    ensures
        match tenant_found {
            Ok(true) => r is Ok,
            Ok(false) => r matches Err(e) && crate::guards::refusal(e, MeltType::NotFound, "Tenant not found"@),
            Err(_) => r matches Err(e) && crate::guards::refusal(e, MeltType::DatabaseError, "Database error"@),
        },
{
    match tenant_found {
        Ok(true) => Ok(()),
        Ok(false) => Err(MeltDown::new(MeltType::NotFound, "Tenant not found")),
        Err(_) => Err(MeltDown::new(MeltType::DatabaseError, "Database error")),
    }
}

// ---------------------------------------------------------------------------
// CSRF
// ---------------------------------------------------------------------------

/// The outcome of a state-changing request's CSRF check: passed when no
/// check is required or the token verifies; otherwise a validation error,
/// with context and the given user message. `verification` is `None` when
/// the request has no CSRF token, else the token check's result (its error
/// described in text).
pub open spec fn csrf_verdict_holds(
    r: Result<(), MeltDown>,
    requires_csrf: bool,
    verification: Option<Result<(), Seq<char>>>,
    user_message: Option<Seq<char>>,
) -> bool {
    if !requires_csrf {
        r is Ok
    } else {
        match verification {
            Some(Ok(())) => r is Ok,
            Some(Err(text)) => r matches Err(e) && e.melt_type == MeltType::ValidationFailed && e.details@
                == "CSRF verification failed"@ && e.context_entries() == seq![("error"@, text)]
                && opt_string_view(e.user_message) == user_message,
            None => r matches Err(e) && e.melt_type == MeltType::ValidationFailed && e.details@
                == "CSRF token missing"@ && e.context_entries() == seq![("request_type"@, "state_changing"@)]
                && opt_string_view(e.user_message) == user_message,
        }
    }
}

/// The method of a request.
#[derive(Clone, Copy, Debug, PartialEq, Eq, Structural)]
pub enum HttpMethod {
    Get,
    Put,
    Post,
    Delete,
    Options,
    Head,
    Trace,
    Connect,
    Patch,
}

/// Whether requests of this method change state and so must carry a CSRF
/// token: POST, PUT, PATCH and DELETE.
pub fn requires_csrf(method: HttpMethod) -> (r: bool)
    ensures
        r == (method == HttpMethod::Post || method == HttpMethod::Put || method == HttpMethod::Patch || method
            == HttpMethod::Delete),
{
    match method {
        HttpMethod::Post | HttpMethod::Put | HttpMethod::Patch | HttpMethod::Delete => true,
        _ => false,
    }
}

/// The views of an optional check result.
pub open spec fn verification_view(v: Option<Result<(), String>>) -> Option<Result<(), Seq<char>>> {
    match v {
        Some(Ok(())) => Some(Ok(())),
        Some(Err(t)) => Some(Err(t@)),
        None => None,
    }
}

fn single_context(melt_type: MeltType, details: &str, key: &str, value: &str) -> (r: MeltDown)
    ensures
        r.melt_type == melt_type,
        r.details@ == details@,
        r.user_message is None,
        r.context_entries() == seq![(key@, value@)],
        r.wf(),
{
    let e = MeltDown::new(melt_type, details).with_context(key, value);
    proof {
        assert(Seq::<(Seq<char>, Seq<char>)>::empty().push((key@, value@)) =~= seq![(key@, value@)]);
        assert(!crate::meltdown::has_key(Seq::<(Seq<char>, Seq<char>)>::empty(), key@));
    }
    e
}

/// The CSRF check of a state-changing page request; a refused request is
/// told "Invalid request. Please try again."
pub fn verify_csrf_for_state_change(requires_csrf: bool, verification: Option<Result<(), String>>) -> (r: Result<
    (),
    MeltDown,
>)
    ensures
        csrf_verdict_holds(
            r,
            requires_csrf,
            verification_view(verification),
            Some("Invalid request. Please try again."@),
        ),
{
    if !requires_csrf {
        return Ok(());
    }
    match verification {
        Some(Ok(())) => Ok(()),
        Some(Err(text)) => Err(
            single_context(MeltType::ValidationFailed, "CSRF verification failed", "error", text.as_str()).with_user_message(
                "Invalid request. Please try again.",
            ),
        ),
        None => Err(
            single_context(
                MeltType::ValidationFailed,
                "CSRF token missing",
                "request_type",
                "state_changing",
            ).with_user_message("Invalid request. Please try again."),
        ),
    }
}

/// The CSRF check of a request context: a failed token check is told
/// "Invalid request token. Please try again."; a missing token keeps the
/// default message.
pub fn verify_csrf_token(requires_csrf: bool, verification: Option<Result<(), String>>) -> (r: Result<
    (),
    MeltDown,
>)
    ensures
        !requires_csrf ==> r is Ok,
        requires_csrf ==> match verification_view(verification) {
            Some(Err(_)) => csrf_verdict_holds(
                r,
                requires_csrf,
                verification_view(verification),
                Some("Invalid request token. Please try again."@),
            ),
            _ => csrf_verdict_holds(r, requires_csrf, verification_view(verification), None),
        },
{
    if !requires_csrf {
        return Ok(());
    }
    match verification {
        Some(Ok(())) => Ok(()),
        Some(Err(text)) => Err(
            single_context(MeltType::ValidationFailed, "CSRF verification failed", "error", text.as_str()).with_user_message(
                "Invalid request token. Please try again.",
            ),
        ),
        None => Err(single_context(MeltType::ValidationFailed, "CSRF token missing", "request_type", "state_changing")),
    }
}

// ---------------------------------------------------------------------------
// Login
// ---------------------------------------------------------------------------

/// A token held when logging in to `tenant` is dropped first when it comes
/// from the hosting system or from another tenant's login.
pub open spec fn clears_previous_auth(c: Claims, tenant: Seq<char>) -> bool {
    if c.auth_system == AuthSystem::Vessel {
        true
    } else {
        match c.tenant_name {
            Some(t) => t@ != tenant,
            None => false,
        }
    }
}

/// Whether logging in to `tenant` first drops the session the request holds.
pub fn switching_clears_auth(jwt: Option<&JWT>, tenant: &str) -> (r: bool)
    ensures
        r == match jwt {
            Some(j) => clears_previous_auth(j.0, tenant@),
            None => false,
        },
{
    match jwt {
        None => false,
        Some(j) => {
            if j.is_vessel_auth() {
                true
            } else {
                match j.get_tenant_name() {
                    Some(t) => !str_eq(t.as_str(), tenant),
                    None => false,
                }
            }
        },
    }
}

/// The answer to a login with an unknown user or a wrong password.
pub fn invalid_credentials_flash(tenant: &str) -> (r: FlashRedirect)
    ensures
        flash_is(
            r,
            FlashKind::Error,
            tenant_path(tenant@, "/auth/login"@),
            default_user_message(MeltType::InvalidCredentials, "Invalid username or password"@),
        ),
{
    let e = MeltDown::invalid_credentials();
    error_flash(login_location(tenant).as_str(), &e)
}

/// The device a login's tokens record.
pub open spec fn login_device(login_time: Seq<char>, tenant: Seq<char>) -> Seq<char> {
    "Login at "@ + login_time + " for tenant: "@ + tenant
}

/// A granted login: the refresh and access token claims to encode into
/// cookies, and the redirect to the user's dashboard.
#[derive(Debug)]
pub struct LoginGrant {
    pub refresh_claims: Claims,
    pub access_claims: Claims,
    pub redirect: FlashRedirect,
}

/// Completes a login once the password was checked (`verified`): a
/// verified password issues a token pair for the tenant (remembered when
/// asked, with the login's time and tenant as device) and sends admins to the
/// admin dashboard and others to the user dashboard; anything else is
/// refused as invalid credentials.
pub fn complete_login(
    registry: &mut TokenRegistry,
    tenant: &str,
    user: &UserIdentity,
    verified: Result<bool, MeltDown>,
    remember: Option<bool>,
    login_time: &str,
    settings: &JwtSettings,
) -> (r: Result<LoginGrant, FlashRedirect>)
    requires
        old(registry).wf(),
        settings_fit(*settings),
    ensures
        final(registry).wf(),
        verified matches Ok(true) ==> {
            &&& final(registry)@ == after_register(old(registry)@, tenant@, user.id)
            &&& r matches Ok(g) && {
                &&& g.refresh_claims.token_type == crate::jwt::TokenType::Refresh
                &&& g.access_claims.token_type == crate::jwt::TokenType::Access
                &&& opt_string_view(g.access_claims.refresh_jti) == Some(g.refresh_claims.jti@)
                &&& g.refresh_claims.remember == match remember {
                    Some(b) => b,
                    None => false,
                }
                &&& g.refresh_claims.ver == crate::token_registry::token_version(old(registry)@, tenant@, user.id)
                &&& g.access_claims.ver == crate::token_registry::token_version(old(registry)@, tenant@, user.id)
                &&& g.refresh_claims.sub@ == crate::text::signed_decimal(user.id as int)
                &&& g.access_claims.sub@ == crate::text::signed_decimal(user.id as int)
                &&& opt_string_view(g.refresh_claims.tenant_name) == Some(tenant@)
                &&& opt_string_view(g.access_claims.tenant_name) == Some(tenant@)
                &&& opt_string_view(g.refresh_claims.device_info) == Some(login_device(login_time@, tenant@))
                &&& session_claims(
                    g.refresh_claims,
                    g.access_claims,
                    old(registry)@,
                    *user,
                    tenant@,
                    *settings,
                    match remember {
                        Some(b) => b,
                        None => false,
                    },
                    Some(login_device(login_time@, tenant@)),
                )
                &&& flash_is(
                    g.redirect,
                    FlashKind::Success,
                    dashboard_path(tenant@, user.role@ == "admin"@),
                    "Successfully logged in."@,
                )
            }
        },
        !(verified matches Ok(true)) ==> {
            &&& final(registry)@ == old(registry)@
            &&& r matches Err(f) && flash_is(
                f,
                FlashKind::Error,
                tenant_path(tenant@, "/auth/login"@),
                default_user_message(MeltType::InvalidCredentials, "Invalid username or password"@),
            )
        },
{
    match verified {
        Ok(true) => {},
        _ => {
            return Err(invalid_credentials_flash(tenant));
        },
    }
    let keep = match remember {
        Some(b) => b,
        None => false,
    };
    let device = String::from_str("Login at ").concat(login_time).concat(" for tenant: ").concat(tenant);
    let (refresh_claims, access_claims) = generate_token_pair(registry, user, tenant, settings, keep, Some(device));
    let is_admin = str_eq(user.role.as_str(), "admin");
    let location = dashboard_location(tenant, is_admin);
    Ok(
        LoginGrant {
            refresh_claims,
            access_claims,
            redirect: flash(FlashKind::Success, location.as_str(), "Successfully logged in."),
        },
    )
}

// ---------------------------------------------------------------------------
// Logout
// ---------------------------------------------------------------------------

/// The cookies a logout removes.
pub open spec fn session_cookie_names() -> Seq<Seq<char>> {
    seq![
        "access_token"@,
        "refresh_token"@,
        "user_id"@,
        "tenant"@,
        "tenant_id"@,
        "csrf_token"@,
    ]
}

/// The paths under a tenant where its cookies may have been set.
pub open spec fn tenant_cookie_paths(tenant: Seq<char>) -> Seq<Seq<char>> {
    seq![
        tenant_path(tenant, ""@),
        tenant_path(tenant, "/auth"@),
        tenant_path(tenant, "/admin"@),
        tenant_path(tenant, "/user"@),
    ]
}

/// The paths a logout clears cookies on, besides the tenant's own.
pub open spec fn shared_cookie_paths() -> Seq<Seq<char>> {
    seq!["/"@, "/vessel"@, "/vessel/auth"@, "/auth"@]
}

/// Every name removed at one path (or without a path).
pub open spec fn removals_at(names: Seq<Seq<char>>, path: Option<Seq<char>>) -> Seq<
    (Seq<char>, Option<Seq<char>>),
> {
    Seq::new(names.len(), |i: int| (names[i], path))
}

/// Every name removed at each path, path by path.
pub open spec fn removals_on(names: Seq<Seq<char>>, paths: Seq<Seq<char>>) -> Seq<
    (Seq<char>, Option<Seq<char>>),
>
    decreases paths.len(),
{
    if paths.len() == 0 {
        seq![]
    } else {
        removals_on(names, paths.drop_last()) + removals_at(names, Some(paths.last()))
    }
}

/// The cookie removals of a logout from `tenant`: every session cookie on
/// the shared and tenant paths, then without a path, then on the paths of the
/// token's own tenant when that is another one.
pub open spec fn logout_removals(tenant: Seq<char>, token_tenant: Option<Seq<char>>) -> Seq<
    (Seq<char>, Option<Seq<char>>),
> {
    let names = session_cookie_names();
    let first = removals_on(names, shared_cookie_paths() + tenant_cookie_paths(tenant)) + removals_at(
        names,
        None,
    );
    match token_tenant {
        Some(t) => if t != tenant {
            first + removals_on(names, tenant_cookie_paths(t))
        } else {
            first
        },
        None => first,
    }
}

/// The removals, viewed.
pub open spec fn removals_view(v: Seq<(String, Option<String>)>) -> Seq<(Seq<char>, Option<Seq<char>>)> {
    v.map_values(|e: (String, Option<String>)| (e.0@, opt_string_view(e.1)))
}

fn cookie_names() -> (r: Vec<String>)
    ensures
        strings_view(r@) == session_cookie_names(),
{
    let mut v: Vec<String> = Vec::new();
    v.push(String::from_str("access_token"));
    v.push(String::from_str("refresh_token"));
    v.push(String::from_str("user_id"));
    v.push(String::from_str("tenant"));
    v.push(String::from_str("tenant_id"));
    v.push(String::from_str("csrf_token"));
    assert(strings_view(v@) =~= session_cookie_names());
    v
}

fn tenant_paths_exec(tenant: &str) -> (r: Vec<String>)
    ensures
        strings_view(r@) == tenant_cookie_paths(tenant@),
{
    let mut v: Vec<String> = Vec::new();
    v.push(tenant_path_exec(tenant, ""));
    v.push(tenant_path_exec(tenant, "/auth"));
    v.push(tenant_path_exec(tenant, "/admin"));
    v.push(tenant_path_exec(tenant, "/user"));
    assert(strings_view(v@) =~= tenant_cookie_paths(tenant@));
    v
}

fn push_removals_at(out: &mut Vec<(String, Option<String>)>, names: &Vec<String>, path: Option<&str>)
    ensures
        removals_view(final(out)@) == removals_view(old(out)@) + removals_at(
            strings_view(names@),
            match path {
                Some(p) => Some(p@),
                None => None,
            },
        ),
{
    let ghost start = removals_view(out@);
    let ghost pv = match path {
        Some(p) => Some(p@),
        None => None,
    };
    let mut i: usize = 0;
    while i < names.len()
        invariant
            i <= names@.len(),
            removals_view(out@) == start + removals_at(strings_view(names@.subrange(0, i as int)), pv),
            pv == match path {
                Some(p) => Some(p@),
                None => None::<Seq<char>>,
            },
        decreases names@.len() - i,
    {
        let p = match path {
            Some(p) => Some(String::from_str(p)),
            None => None,
        };
        let ghost before = removals_view(out@);
        out.push((names[i].clone(), p));
        proof {
            assert(removals_view(out@) =~= before.push((names@[i as int]@, pv)));
            assert(removals_at(strings_view(names@.subrange(0, i + 1)), pv) =~= removals_at(
                strings_view(names@.subrange(0, i as int)),
                pv,
            ).push((names@[i as int]@, pv)));
        }
        i = i + 1;
    }
    assert(names@.subrange(0, names@.len() as int) =~= names@);
}

fn push_removals_on(out: &mut Vec<(String, Option<String>)>, names: &Vec<String>, paths: &Vec<String>)
    ensures
        removals_view(final(out)@) == removals_view(old(out)@) + removals_on(strings_view(names@), strings_view(paths@)),
{
    let ghost start = removals_view(out@);
    let mut i: usize = 0;
    while i < paths.len()
        invariant
            i <= paths@.len(),
            removals_view(out@) == start + removals_on(strings_view(names@), strings_view(paths@.subrange(0, i as int))),
        decreases paths@.len() - i,
    {
        let ghost before = removals_view(out@);
        push_removals_at(out, names, Some(paths[i].as_str()));
        proof {
            let s = strings_view(paths@.subrange(0, i + 1));
            assert(s.drop_last() =~= strings_view(paths@.subrange(0, i as int)));
            assert(s.last() == paths@[i as int]@);
            assert(removals_view(out@) =~= start + removals_on(strings_view(names@), s));
        }
        i = i + 1;
    }
    assert(paths@.subrange(0, paths@.len() as int) =~= paths@);
}

/// A logout from `tenant`: the cookies to remove (each by name and, where
/// given, path), and the redirect to the tenant's login.
pub fn get_logout(tenant: &str, jwt: Option<&JWT>) -> (r: (Vec<(String, Option<String>)>, FlashRedirect))
    ensures
        removals_view(r.0@) == logout_removals(
            tenant@,
            match jwt {
                Some(j) => opt_string_view(j.0.tenant_name),
                None => None,
            },
        ),
        flash_is(r.1, FlashKind::Success, tenant_path(tenant@, "/auth/login"@), "Successfully logged out."@),
{
    let names = cookie_names();
    let mut paths: Vec<String> = Vec::new();
    paths.push(String::from_str("/"));
    paths.push(String::from_str("/vessel"));
    paths.push(String::from_str("/vessel/auth"));
    paths.push(String::from_str("/auth"));
    let own = tenant_paths_exec(tenant);
    let mut k: usize = 0;
    while k < own.len()
        invariant
            k <= own@.len(),
            strings_view(own@) == tenant_cookie_paths(tenant@),
            strings_view(paths@) == shared_cookie_paths() + strings_view(own@.subrange(0, k as int)),
        decreases own@.len() - k,
    {
        let ghost before = paths@;
        let item = own[k].clone();
        paths.push(item);
        proof {
            assert(paths@ =~= before.push(item));
            assert(strings_view(paths@) =~= strings_view(before).push(item@));
            assert(strings_view(own@.subrange(0, k + 1)) =~= strings_view(own@.subrange(0, k as int)).push(own@[k as int]@));
            assert(strings_view(paths@) =~= shared_cookie_paths() + strings_view(own@.subrange(0, k + 1)));
        }
        k = k + 1;
    }
    assert(own@.subrange(0, own@.len() as int) =~= own@);
    let mut out: Vec<(String, Option<String>)> = Vec::new();
    assert(removals_view(out@) =~= Seq::<(Seq<char>, Option<Seq<char>>)>::empty());
    push_removals_on(&mut out, &names, &paths);
    push_removals_at(&mut out, &names, None);
    let ghost first = removals_view(out@);
    let token_tenant = match jwt {
        Some(j) => j.get_tenant_name(),
        None => None,
    };
    match token_tenant {
        Some(t) => {
            if !str_eq(t.as_str(), tenant) {
                let other = tenant_paths_exec(t.as_str());
                push_removals_on(&mut out, &names, &other);
            }
        },
        None => {},
    }
    let redirect = flash(FlashKind::Success, login_location(tenant).as_str(), "Successfully logged out.");
    (out, redirect)
}

// ---------------------------------------------------------------------------
// Pages
// ---------------------------------------------------------------------------

/// What a page request gets: the page, with its title, the token's facts to
/// show and whether the session cookies are dropped first; or a redirect.
#[derive(Debug)]
pub enum PageDecision {
    Render { title: String, extras: Vec<(String, String)>, clear_auth: bool },
    Redirect(FlashRedirect),
}

/// The facts a page shows about a hosting-system token: its role, its login
/// system and, when it names one, its tenant.
pub open spec fn token_extras(c: Claims) -> Seq<(Seq<char>, Seq<char>)> {
    let base = seq![("jwt_role"@, c.role@), ("jwt_auth_system"@, auth_system_name(c.auth_system))];
    match c.tenant_name {
        Some(t) => base.push(("jwt_tenant"@, t@)),
        None => base,
    }
}

/// The lower-case name of a login system.
pub open spec fn auth_system_name(a: AuthSystem) -> Seq<char> {
    match a {
        AuthSystem::Tenant => "tenant"@,
        AuthSystem::Vessel => "vessel"@,
    }
}

fn token_extras_exec(jwt: &JWT) -> (r: Vec<(String, String)>)
    ensures
        crate::meltdown::entries_view(r@) == token_extras(jwt.0),
{
    let mut v: Vec<(String, String)> = Vec::new();
    v.push((String::from_str("jwt_role"), String::from_str(jwt.get_role())));
    let name = match jwt.get_auth_system() {
        AuthSystem::Tenant => "tenant",
        AuthSystem::Vessel => "vessel",
    };
    proof {
        reveal_strlit("tenant");
        reveal_strlit("vessel");
    }
    v.push((String::from_str("jwt_auth_system"), String::from_str(name)));
    match jwt.get_tenant_name() {
        Some(t) => {
            v.push((String::from_str("jwt_tenant"), t.clone()));
        },
        None => {},
    }
    assert(crate::meltdown::entries_view(v@) =~= token_extras(jwt.0));
    v
}

/// The page is rendered with this title, these extras and this cookie choice.
pub open spec fn renders(d: PageDecision, title: Seq<char>, extras: Seq<(Seq<char>, Seq<char>)>, clear: bool) -> bool {
    d matches PageDecision::Render { title: t, extras: x, clear_auth: c } && t@ == title
        && crate::meltdown::entries_view(x@) == extras && c == clear
}

/// The login page of `tenant`: a user already logged in to this tenant is
/// sent to their dashboard; one logged in to another tenant gets the form
/// with the session dropped; a hosting-system user gets the form with the
/// token's facts; anyone else gets the form.
pub fn get_login(tenant: &str, jwt: Option<&JWT>) -> (r: PageDecision)
    ensures
        match jwt {
            None => renders(r, tenant@ + " Login"@, seq![], false),
            Some(j) => if j.0.auth_system == AuthSystem::Tenant {
                if j.0.tenant_name matches Some(t) && t@ != tenant@ {
                    renders(r, tenant@ + " Login"@, seq![], true)
                } else {
                    r matches PageDecision::Redirect(f) && flash_is(
                        f,
                        FlashKind::Success,
                        dashboard_path(tenant@, j.0.role@ == "admin"@),
                        "Already logged in to tenant system."@,
                    )
                }
            } else {
                renders(r, tenant@ + " Login"@, token_extras(j.0), false)
            },
        },
{
    let title = String::from_str(tenant).concat(" Login");
    let none: Vec<(String, String)> = Vec::new();
    assert(crate::meltdown::entries_view(none@) =~= Seq::<(Seq<char>, Seq<char>)>::empty());
    match jwt {
        None => PageDecision::Render { title, extras: none, clear_auth: false },
        Some(j) => {
            if j.is_tenant_auth() {
                match j.get_tenant_name() {
                    Some(t) => {
                        if !str_eq(t.as_str(), tenant) {
                            return PageDecision::Render { title, extras: none, clear_auth: true };
                        }
                    },
                    None => {},
                }
                let location = dashboard_location(tenant, j.is_admin());
                PageDecision::Redirect(
                    flash(FlashKind::Success, location.as_str(), "Already logged in to tenant system."),
                )
            } else {
                PageDecision::Render { title, extras: token_extras_exec(j), clear_auth: false }
            }
        },
    }
}

/// The home page of `tenant`: a user logged in to a tenant is sent to their
/// dashboard; a hosting-system user gets the page with the token's facts;
/// anyone else gets the page.
pub fn get_home(tenant: &str, jwt: Option<&JWT>) -> (r: PageDecision)
    ensures
        match jwt {
            None => renders(r, "Welcome to "@ + tenant@, seq![], false),
            Some(j) => if j.0.auth_system == AuthSystem::Tenant {
                r matches PageDecision::Redirect(f) && flash_is(
                    f,
                    FlashKind::Success,
                    dashboard_path(tenant@, j.0.role@ == "admin"@),
                    "Already logged in to tenant system."@,
                )
            } else {
                renders(r, "Welcome to "@ + tenant@, token_extras(j.0), false)
            },
        },
{
    let title = String::from_str("Welcome to ").concat(tenant);
    let none: Vec<(String, String)> = Vec::new();
    assert(crate::meltdown::entries_view(none@) =~= Seq::<(Seq<char>, Seq<char>)>::empty());
    match jwt {
        None => PageDecision::Render { title, extras: none, clear_auth: false },
        Some(j) => {
            if j.is_tenant_auth() {
                let location = dashboard_location(tenant, j.is_admin());
                PageDecision::Redirect(
                    flash(FlashKind::Success, location.as_str(), "Already logged in to tenant system."),
                )
            } else {
                PageDecision::Render { title, extras: token_extras_exec(j), clear_auth: false }
            }
        },
    }
}

/// The answer to a finished registration: back to the login, or back to the
/// form with the error's user message.
pub fn registration_result(tenant: &str, result: Result<(), MeltDown>) -> (r: Result<FlashRedirect, FlashRedirect>)
    ensures
        match result {
            Ok(()) => r matches Ok(f) && flash_is(
                f,
                FlashKind::Success,
                tenant_path(tenant@, "/auth/login"@),
                "Successfully registered."@,
            ),
            Err(e) => r matches Err(f) && flash_is(
                f,
                FlashKind::Error,
                tenant_path(tenant@, "/auth/register"@),
                e.user_message_view(),
            ),
        },
{
    match result {
        Ok(()) => Ok(flash(FlashKind::Success, login_location(tenant).as_str(), "Successfully registered.")),
        Err(e) => Err(error_flash(register_location(tenant).as_str(), &e)),
    }
}

// ---------------------------------------------------------------------------
// Refresh
// ---------------------------------------------------------------------------

/// The answer to a refresh without a usable refresh token.
pub fn session_expired_flash(tenant: &str) -> (r: FlashRedirect)
    ensures
        flash_is(r, FlashKind::Error, tenant_path(tenant@, "/auth/login"@), "Session expired. Please log in again."@),
{
    flash(FlashKind::Error, login_location(tenant).as_str(), "Session expired. Please log in again.")
}

/// The answer to a refresh whose user cannot be loaded.
pub fn account_issue_flash(tenant: &str) -> (r: FlashRedirect)
    ensures
        flash_is(
            r,
            FlashKind::Error,
            tenant_path(tenant@, "/auth/login"@),
            "User account issue. Please log in again."@,
        ),
{
    flash(FlashKind::Error, login_location(tenant).as_str(), "User account issue. Please log in again.")
}

/// The answer to a refresh whose new tokens cannot be encoded.
pub fn authentication_error_flash(tenant: &str) -> (r: FlashRedirect)
    ensures
        flash_is(
            r,
            FlashKind::Error,
            tenant_path(tenant@, "/auth/login"@),
            "Authentication error. Please log in again."@,
        ),
{
    flash(FlashKind::Error, login_location(tenant).as_str(), "Authentication error. Please log in again.")
}

/// A refused refresh: the answer, and whether the session cookies are dropped.
#[derive(Debug)]
pub struct RefreshRefusal {
    pub redirect: FlashRedirect,
    pub clear_cookies: bool,
}

/// Accepts the refresh token a request to `tenant` presents (`presented` is
/// `None` without a refresh cookie, else the result of checking the token)
/// and records it as spent for the tenant; a missing or refused token ends
/// the session, and a refused one also drops the cookies.
pub fn refresh_session(
    registry: &mut TokenRegistry,
    tenant: &str,
    presented: Option<Result<Claims, MeltDown>>,
) -> (r: Result<RefreshTokenInfo, RefreshRefusal>)
    requires
        old(registry).wf(),
    ensures
        final(registry).wf(),
        match presented {
            None => final(registry)@ == old(registry)@ && (r matches Err(x) && !x.clear_cookies && flash_is(
                x.redirect,
                FlashKind::Error,
                tenant_path(tenant@, "/auth/login"@),
                "Session expired. Please log in again."@,
            )),
            Some(Err(_)) => final(registry)@ == old(registry)@ && (r matches Err(x) && x.clear_cookies && flash_is(
                x.redirect,
                FlashKind::Error,
                tenant_path(tenant@, "/auth/login"@),
                "Session expired. Please log in again."@,
            )),
            Some(Ok(c)) => match refresh_verdict(old(registry)@, c) {
                Ok(user) => (r matches Ok(info) && info.user_id == user && info.jti@ == c.jti@ && info.remember
                    == c.remember && opt_string_view(info.device_info) == opt_string_view(c.device_info) && final(registry)@
                    == after_mark(old(registry)@, tenant@, user, c.jti@)),
                Err(_) => final(registry)@ == old(registry)@ && (r matches Err(x) && x.clear_cookies && flash_is(
                    x.redirect,
                    FlashKind::Error,
                    tenant_path(tenant@, "/auth/login"@),
                    "Session expired. Please log in again."@,
                )),
            },
        },
{
    let checked = match presented {
        None => {
            return Err(RefreshRefusal { redirect: session_expired_flash(tenant), clear_cookies: false });
        },
        Some(c) => c,
    };
    let info = match validate_refresh_token(registry, checked) {
        Ok(info) => info,
        Err(_) => {
            return Err(RefreshRefusal { redirect: session_expired_flash(tenant), clear_cookies: true });
        },
    };
    mark_refresh_token_used(registry, tenant, info.user_id, info.jti.as_str());
    Ok(info)
}

/// The new token pair of a refreshed session: remembered as before, for the
/// same device.
pub fn reissue_tokens(
    registry: &mut TokenRegistry,
    tenant: &str,
    user: &UserIdentity,
    info: RefreshTokenInfo,
    settings: &JwtSettings,
) -> (r: (Claims, Claims))
    requires
        old(registry).wf(),
        settings_fit(*settings),
    ensures
        final(registry).wf(),
        final(registry)@ == after_register(old(registry)@, tenant@, user.id),
        r.0.token_type == crate::jwt::TokenType::Refresh,
        r.1.token_type == crate::jwt::TokenType::Access,
        opt_string_view(r.1.refresh_jti) == Some(r.0.jti@),
        r.0.remember == info.remember,
        opt_string_view(r.0.device_info) == opt_string_view(info.device_info),
        opt_string_view(r.1.device_info) == opt_string_view(info.device_info),
        r.0.sub@ == crate::text::signed_decimal(user.id as int),
        r.1.sub@ == crate::text::signed_decimal(user.id as int),
        opt_string_view(r.0.tenant_name) == Some(tenant@),
        opt_string_view(r.1.tenant_name) == Some(tenant@),
        r.0.ver == crate::token_registry::token_version(old(registry)@, tenant@, user.id),
        r.1.ver == crate::token_registry::token_version(old(registry)@, tenant@, user.id),
        session_claims(r.0, r.1, old(registry)@, *user, tenant@, *settings, info.remember, opt_string_view(info.device_info)),
{
    generate_token_pair(registry, user, tenant, settings, info.remember, info.device_info)
}

// ---------------------------------------------------------------------------
// API status
// ---------------------------------------------------------------------------

/// The body of the API status of a tenant.
#[derive(Debug)]
pub enum ApiStatus {
    /// `{"success": true, "data": {"status": "ok", "version": version, "tenant": tenant}}`.
    Ready { version: String, tenant: String },
    /// `{"success": false, "error": {"code": code, "message": message}}`.
    Failed { code: String, message: String },
}

/// The API status of a tenant, given whether it exists.
pub fn get_api_status(tenant: &str, tenant_found: Result<bool, MeltDown>) -> (r: ApiStatus)
    ensures
        match tenant_found {
            Ok(true) => (r matches ApiStatus::Ready { version: v, tenant: t } && v@ == "1.0.0"@ && t@ == tenant@),
            Ok(false) => (r matches ApiStatus::Failed { code: c, message: m } && c@ == "not_found"@ && m@
                == "Tenant not found"@),
            Err(_) => (r matches ApiStatus::Failed { code: c, message: m } && c@ == "database_error"@ && m@
                == "Database error"@),
        },
{
    match tenant_found {
        Ok(true) => ApiStatus::Ready { version: String::from_str("1.0.0"), tenant: String::from_str(tenant) },
        Ok(false) => ApiStatus::Failed {
            code: String::from_str("not_found"),
            message: String::from_str("Tenant not found"),
        },
        Err(_) => ApiStatus::Failed {
            code: String::from_str("database_error"),
            message: String::from_str("Database error"),
        },
    }
}

// ---------------------------------------------------------------------------
// Laws
// ---------------------------------------------------------------------------

/// A refreshed session cannot be refreshed again with the same token: once
/// `refresh_session` has accepted a refresh token for the tenant it was
/// issued for, the same token is refused.
pub proof fn law_refresh_token_single_use(r: Map<Seq<char>, crate::token_registry::TenantView>, c: Claims, user: i32)
    requires
        refresh_verdict(r, c) == Ok::<i32, (MeltType, Seq<char>)>(user),
    ensures
        refresh_verdict(after_mark(r, crate::jwt_service::claims_tenant(c), user, c.jti@), c) is Err,
{
}

/// Logging out always removes every session cookie without a path, and on the
/// tenant's own paths.
pub proof fn law_logout_clears_session(tenant: Seq<char>, token_tenant: Option<Seq<char>>, name: Seq<char>)
    requires
        session_cookie_names().contains(name),
    ensures
        logout_removals(tenant, token_tenant).contains((name, None)),
        logout_removals(tenant, token_tenant).contains((name, Some(tenant_path(tenant, ""@)))),
{
    let names = session_cookie_names();
    let i = names.index_of(name);
    let paths = shared_cookie_paths() + tenant_cookie_paths(tenant);
    let on = removals_on(names, paths);
    let none = removals_at(names, None);
    let first = on + none;
    assert(none[i] == (name, None::<Seq<char>>));
    assert(first[on.len() + i] == (name, None::<Seq<char>>));
    assert(paths.last() == tenant_path(tenant, "/user"@));
    let upto = removals_on(names, paths.subrange(0, 5));
    assert(paths.subrange(0, 5).last() == tenant_path(tenant, ""@));
    lemma_removals_on_prefix(names, paths, 5);
    assert(upto =~= removals_on(names, paths.subrange(0, 4)) + removals_at(names, Some(tenant_path(tenant, ""@)))) by {
        assert(paths.subrange(0, 5).drop_last() =~= paths.subrange(0, 4));
    }
    let j = removals_on(names, paths.subrange(0, 4)).len() + i;
    assert(upto[j] == (name, Some(tenant_path(tenant, ""@))));
    assert(on[j] == upto[j]);
    assert(first[j] == on[j]);
    match token_tenant {
        Some(t) => if t != tenant {
            let all = first + removals_on(names, tenant_cookie_paths(t));
            assert(all[on.len() + i] == first[on.len() + i]);
            assert(all[j] == first[j]);
        },
        None => {},
    }
}

/// The removals on a prefix of the paths are a prefix of the removals on all
/// of them.
proof fn lemma_removals_on_prefix(names: Seq<Seq<char>>, paths: Seq<Seq<char>>, k: int)
    requires
        0 <= k <= paths.len(),
    ensures
        removals_on(names, paths.subrange(0, k)).len() <= removals_on(names, paths).len(),
        forall|j: int|
            0 <= j < removals_on(names, paths.subrange(0, k)).len() ==> removals_on(names, paths)[j]
                == #[trigger] removals_on(names, paths.subrange(0, k))[j],
    decreases paths.len() - k,
{
    if k < paths.len() {
        lemma_removals_on_prefix(names, paths, k + 1);
        let a = removals_on(names, paths.subrange(0, k));
        let b = removals_on(names, paths.subrange(0, k + 1));
        assert(paths.subrange(0, k + 1).drop_last() =~= paths.subrange(0, k));
        assert(b == a + removals_at(names, Some(paths.subrange(0, k + 1).last())));
        assert forall|j: int| 0 <= j < a.len() implies removals_on(names, paths)[j] == #[trigger] a[j] by {
            assert(b[j] == a[j]);
        }
    } else {
        assert(paths.subrange(0, k) =~= paths);
    }
}

/// A completed login's session is good for its own tenant: the access token
/// passes the claims check, authenticates together with the session's user-id
/// cookie, and is admitted to the tenant's pages (and, for an admin, to the
/// tenant's admin area); the refresh token, while unspent, refreshes the
/// session for the user.
pub proof fn law_login_session_accepted(
    r: Map<Seq<char>, crate::token_registry::TenantView>,
    user: UserIdentity,
    tenant: Seq<char>,
    settings: JwtSettings,
    remember: bool,
    device_info: Option<Seq<char>>,
    refresh: Claims,
    access: Claims,
    path: Seq<char>,
)
    requires
        session_claims(refresh, access, r, user, tenant, settings, remember, device_info),
    ensures
        crate::jwt_service::claims_verdict(after_register(r, tenant, user.id), access) is Ok,
        crate::jwt::authentication_verdict(
            Ok::<Claims, MeltDown>(access),
            Some(crate::text::signed_decimal(user.id as int)),
        ) is Ok,
        crate::guards::uri_tenant(path) == Some(tenant) || crate::guards::uri_tenant(path) is None
            ==> crate::guards::tenant_user_verdict(access, path) == Ok::<Seq<char>, Seq<char>>(tenant),
        user.role@ == "admin"@ && crate::guards::uri_tenant(path) == Some(tenant)
            ==> crate::guards::tenant_admin_verdict(access, path) == Ok::<Seq<char>, Seq<char>>(tenant),
        !crate::token_registry::refresh_used(after_register(r, tenant, user.id), tenant, user.id, refresh.jti@)
            ==> crate::jwt_service::refresh_verdict(after_register(r, tenant, user.id), refresh)
            == Ok::<i32, (MeltType, Seq<char>)>(user.id),
{
    crate::jwt_service::law_subject_round_trip(user.id);
    crate::token_registry::law_register_keeps_version(r, tenant, user.id);
}

} // verus!
