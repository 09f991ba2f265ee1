//! Issuing token claims and checking the claims of presented tokens against
//! the token registry.
use vstd::prelude::*;

use crate::bootstrap::{default_jwt_settings, JwtSettings};
use crate::jwt::{AuthSystem, Claims, TokenType};
use crate::meltdown::{MeltDown, MeltType};
use crate::text::{opt_string_view, parse_i32, push_signed_decimal, signed_decimal, str_parse_i32};
use crate::token_registry::{
    after_register, get_token_version, is_refresh_token_used, refresh_used, register_user,
    token_version, TokenRegistry,
};

verus! {

/// The fields of a user account that tokens carry.
#[derive(Debug)]
pub struct UserIdentity {
    pub id: i32,
    pub username: String,
    pub role: String,
}

/// A hosted tenant (vessel) account: its id, its tenant name and its login name.
#[derive(Debug)]
pub struct Vessel {
    pub id: i32,
    pub name: String,
    pub username: String,
}

/// An encoded access and refresh token, with their claims.
#[derive(Debug)]
pub struct TokenPair {
    pub access_token: String,
    pub refresh_token: String,
    pub access_claims: Claims,
    pub refresh_claims: Claims,
}

/// What a valid refresh token tells about its session.
#[derive(Debug)]
pub struct RefreshTokenInfo {
    pub jti: String,
    pub user_id: i32,
    pub token_version: u32,
    pub remember: bool,
    pub device_info: Option<String>,
}

/// The token settings in use: the configured ones, or the defaults when the
/// configuration is not loaded.
pub fn get_jwt_settings(configured: Option<&JwtSettings>) -> (r: JwtSettings)
    ensures
        r == match configured {
            Some(s) => *s,
            None => default_jwt_settings(),
        },
{
    match configured {
        Some(s) => *s,
        None => JwtSettings::default(),
    }
}

/// Seconds in a minute and in a day.
pub open spec fn minute_secs() -> int {
    60
}

/// Seconds in a day.
pub open spec fn day_secs() -> int {
    86400
}

/// A lifetime can be turned into a time span: its milliseconds fit an `i64`.
pub open spec fn lifetime_fits(secs: int) -> bool {
    0 <= secs && secs * 1000 <= i64::MAX
}

/// A new token identifier: a random version-4 UUID in its hyphenated form.
/// The form has 36 characters; nothing else is claimed of the value, which is
/// random.
#[verifier::external_body]
fn new_token_id() -> (r: String)
    ensures
        r@.len() == 36,
{
    uuid::Uuid::new_v4().to_string()
}

/// The current time and the time `secs` seconds later, as Unix timestamps
/// (`chrono::Utc::now`, `DateTime::checked_add_signed`, `DateTime::timestamp`).
/// The later time falls back to the current one when the sum leaves chrono's
/// date range, which covers every instant within 8·10^12 seconds of the epoch.
/// The current time itself is whatever the clock says.
#[verifier::external_body]
fn now_and_later(secs: i64) -> (r: (i64, i64))
    requires
        0 <= secs,
        secs * 1000 <= i64::MAX,
    ensures
        r.1 == r.0 + secs || r.1 == r.0,
        -8_000_000_000_000 <= r.0 + secs <= 8_000_000_000_000 ==> r.1 == r.0 + secs,
{
    let now = chrono::Utc::now();
    let later = now.checked_add_signed(chrono::TimeDelta::seconds(secs)).unwrap_or(now);
    (now.timestamp(), later.timestamp())
}

/// A token issued at `now` for `lifetime` seconds expires at `expires`: that
/// many seconds later, or at `now` itself when the later time leaves the
/// clock's date range, which is never the case within 8·10^12 seconds of the
/// epoch.
pub open spec fn expiry_after(now: i64, lifetime: int, expires: i64) -> bool {
    &&& (expires == now + lifetime || expires == now)
    &&& (-8_000_000_000_000 <= now + lifetime <= 8_000_000_000_000 ==> expires == now + lifetime)
}

/// The claims of a token issued at `now` that expires at `expires`.
pub open spec fn issued_claims(
    c: Claims,
    subject: i32,
    username: Seq<char>,
    role: Seq<char>,
    now: i64,
    expires: i64,
    version: u32,
    token_type: TokenType,
    remember: bool,
    refresh_jti: Option<Seq<char>>,
    device_info: Option<Seq<char>>,
    tenant: Seq<char>,
    auth_system: AuthSystem,
) -> bool {
    &&& c.sub@ == signed_decimal(subject as int)
    &&& c.username@ == username
    &&& c.role@ == role
    &&& c.exp == expires as usize
    &&& c.iat == now as usize
    &&& c.nbf == now as usize
    &&& c.ver == version
    &&& c.token_type == token_type
    &&& c.remember == remember
    &&& opt_string_view(c.refresh_jti) == refresh_jti
    &&& opt_string_view(c.device_info) == device_info
    &&& opt_string_view(c.tenant_name) == Some(tenant)
    &&& c.auth_system == auth_system
}

/// Issues the claims of a token for a user of a tenant: the user's current
/// token version (the user is registered with the tenant when new), a fresh
/// identifier, and an expiry `lifetime_secs` after the current time.
fn issue_claims(
    registry: &mut TokenRegistry,
    subject: i32,
    username: &str,
    role: &str,
    tenant: &str,
    auth_system: AuthSystem,
    token_type: TokenType,
    lifetime_secs: i64,
    remember: bool,
    refresh_jti: Option<String>,
    device_info: Option<String>,
) -> (r: Claims)
    requires
        old(registry).wf(),
        lifetime_fits(lifetime_secs as int),
    ensures
        final(registry).wf(),
        final(registry)@ == after_register(old(registry)@, tenant@, subject),
        r.jti@.len() == 36,
        exists|now: i64, expires: i64|
            expiry_after(now, lifetime_secs as int, expires) && issued_claims(
                r,
                subject,
                username@,
                role@,
                now,
                expires,
                token_version(old(registry)@, tenant@, subject),
                token_type,
                remember,
                opt_string_view(refresh_jti),
                opt_string_view(device_info),
                tenant@,
                auth_system,
            ),
{
    let (now, expires) = now_and_later(lifetime_secs);
    let jti = new_token_id();
    let version = get_token_version(registry, tenant, subject);
    register_user(registry, tenant, subject);
    let mut sub = String::new();
    push_signed_decimal(&mut sub, subject as i64);
    let ghost rj = opt_string_view(refresh_jti);
    let ghost di = opt_string_view(device_info);
    let c = Claims {
        sub,
        exp: expires as usize,
        jti,
        iat: now as usize,
        nbf: now as usize,
        ver: version,
        remember,
        role: String::from_str(role),
        username: String::from_str(username),
        token_type,
        refresh_jti,
        device_info,
        tenant_name: Some(String::from_str(tenant)),
        auth_system,
    };
    proof {
        assert(expiry_after(now, lifetime_secs as int, expires));
        assert(issued_claims(
            c,
            subject,
            username@,
            role@,
            now,
            expires,
            token_version(old(registry)@, tenant@, subject),
            token_type,
            remember,
            rj,
            di,
            tenant@,
            auth_system,
        ));
    }
    c
}

/// The lifetime of a refresh token: the remembered or the normal number of days.
pub open spec fn refresh_lifetime(settings: JwtSettings, remember: bool) -> int {
    if remember {
        settings.refresh_token_expiry_days_remember * day_secs()
    } else {
        settings.refresh_token_expiry_days * day_secs()
    }
}

/// The token settings can be turned into time spans.
pub open spec fn settings_fit(settings: JwtSettings) -> bool {
    &&& lifetime_fits(settings.access_token_expiry_mins * minute_secs())
    &&& lifetime_fits(settings.refresh_token_expiry_days * day_secs())
    &&& lifetime_fits(settings.refresh_token_expiry_days_remember * day_secs())
}

/// The claims of an access token for a user of a tenant, valid for the
/// configured number of minutes.
pub fn generate_access_token(
    registry: &mut TokenRegistry,
    user: &UserIdentity,
    tenant: &str,
    settings: &JwtSettings,
    refresh_jti: Option<String>,
    device_info: Option<String>,
) -> (r: Claims)
    requires
        old(registry).wf(),
        settings_fit(*settings),
    ensures
        final(registry).wf(),
        final(registry)@ == after_register(old(registry)@, tenant@, user.id),
        r.jti@.len() == 36,
        exists|now: i64, expires: i64|
            expiry_after(now, settings.access_token_expiry_mins * minute_secs(), expires) && issued_claims(
                r,
                user.id,
                user.username@,
                user.role@,
                now,
                expires,
                token_version(old(registry)@, tenant@, user.id),
                TokenType::Access,
                false,
                opt_string_view(refresh_jti),
                opt_string_view(device_info),
                tenant@,
                AuthSystem::Tenant,
            ),
{
    let secs = (settings.access_token_expiry_mins * 60) as i64;
    assert(secs as int == settings.access_token_expiry_mins * minute_secs());
    issue_claims(
        registry,
        user.id,
        user.username.as_str(),
        user.role.as_str(),
        tenant,
        AuthSystem::Tenant,
        TokenType::Access,
        secs,
        false,
        refresh_jti,
        device_info,
    )
}

/// The claims of an access token for a vessel account: its tenant is the
/// vessel's name and its role is `vessel`.
pub fn generate_access_token_for_vessel(
    registry: &mut TokenRegistry,
    vessel: &Vessel,
    settings: &JwtSettings,
    refresh_jti: Option<String>,
    device_info: Option<String>,
) -> (r: Claims)
    requires
        old(registry).wf(),
        settings_fit(*settings),
    ensures
        final(registry).wf(),
        final(registry)@ == after_register(old(registry)@, vessel.name@, vessel.id),
        r.jti@.len() == 36,
        exists|now: i64, expires: i64|
            expiry_after(now, settings.access_token_expiry_mins * minute_secs(), expires) && issued_claims(
                r,
                vessel.id,
                vessel.username@,
                "vessel"@,
                now,
                expires,
                token_version(old(registry)@, vessel.name@, vessel.id),
                TokenType::Access,
                false,
                opt_string_view(refresh_jti),
                opt_string_view(device_info),
                vessel.name@,
                AuthSystem::Vessel,
            ),
{
    let secs = (settings.access_token_expiry_mins * 60) as i64;
    assert(secs as int == settings.access_token_expiry_mins * minute_secs());
    issue_claims(
        registry,
        vessel.id,
        vessel.username.as_str(),
        "vessel",
        vessel.name.as_str(),
        AuthSystem::Vessel,
        TokenType::Access,
        secs,
        false,
        refresh_jti,
        device_info,
    )
}

/// The claims of a refresh token for a user of a tenant, valid for the
/// configured number of days (more when the session is remembered).
pub fn generate_refresh_token(
    registry: &mut TokenRegistry,
    user: &UserIdentity,
    tenant: &str,
    settings: &JwtSettings,
    remember: bool,
    device_info: Option<String>,
) -> (r: Claims)
    requires
        old(registry).wf(),
        settings_fit(*settings),
    ensures
        final(registry).wf(),
        final(registry)@ == after_register(old(registry)@, tenant@, user.id),
        r.jti@.len() == 36,
        exists|now: i64, expires: i64|
            expiry_after(now, refresh_lifetime(*settings, remember), expires) && issued_claims(
                r,
                user.id,
                user.username@,
                user.role@,
                now,
                expires,
                token_version(old(registry)@, tenant@, user.id),
                TokenType::Refresh,
                remember,
                None,
                opt_string_view(device_info),
                tenant@,
                AuthSystem::Tenant,
            ),
{
    let days = if remember {
        settings.refresh_token_expiry_days_remember
    } else {
        settings.refresh_token_expiry_days
    };
    let secs = (days * 86400) as i64;
    assert(secs as int == refresh_lifetime(*settings, remember));
    issue_claims(
        registry,
        user.id,
        user.username.as_str(),
        user.role.as_str(),
        tenant,
        AuthSystem::Tenant,
        TokenType::Refresh,
        secs,
        remember,
        None,
        device_info,
    )
}

/// The claims of a refresh token for a vessel account.
pub fn generate_refresh_token_for_vessel(
    registry: &mut TokenRegistry,
    vessel: &Vessel,
    settings: &JwtSettings,
    remember: bool,
    device_info: Option<String>,
) -> (r: Claims)
    requires
        old(registry).wf(),
        settings_fit(*settings),
    ensures
        final(registry).wf(),
        final(registry)@ == after_register(old(registry)@, vessel.name@, vessel.id),
        r.jti@.len() == 36,
        exists|now: i64, expires: i64|
            expiry_after(now, refresh_lifetime(*settings, remember), expires) && issued_claims(
                r,
                vessel.id,
                vessel.username@,
                "vessel"@,
                now,
                expires,
                token_version(old(registry)@, vessel.name@, vessel.id),
                TokenType::Refresh,
                remember,
                None,
                opt_string_view(device_info),
                vessel.name@,
                AuthSystem::Vessel,
            ),
{
    let days = if remember {
        settings.refresh_token_expiry_days_remember
    } else {
        settings.refresh_token_expiry_days
    };
    let secs = (days * 86400) as i64;
    assert(secs as int == refresh_lifetime(*settings, remember));
    issue_claims(
        registry,
        vessel.id,
        vessel.username.as_str(),
        "vessel",
        vessel.name.as_str(),
        AuthSystem::Vessel,
        TokenType::Refresh,
        secs,
        remember,
        None,
        device_info,
    )
}

/// A copy of an optional string.
fn clone_opt(o: &Option<String>) -> (r: Option<String>)
    ensures
        r == *o,
{
    match o {
        Some(s) => Some(s.clone()),
        None => None,
    }
}

/// The claims of a user's session: a refresh token and an access token that
/// names it, both issued to the user for the tenant at the user's current
/// token version, each with its lifetime from the settings.
pub open spec fn session_claims(
    refresh: Claims,
    access: Claims,
    registry: Map<Seq<char>, crate::token_registry::TenantView>,
    user: UserIdentity,
    tenant: Seq<char>,
    settings: JwtSettings,
    remember: bool,
    device_info: Option<Seq<char>>,
) -> bool {
    &&& exists|now: i64, expires: i64|
        expiry_after(now, refresh_lifetime(settings, remember), expires) && issued_claims(
            refresh,
            user.id,
            user.username@,
            user.role@,
            now,
            expires,
            token_version(registry, tenant, user.id),
            TokenType::Refresh,
            remember,
            None,
            device_info,
            tenant,
            AuthSystem::Tenant,
        )
    &&& exists|now: i64, expires: i64|
        expiry_after(now, settings.access_token_expiry_mins * minute_secs(), expires) && issued_claims(
            access,
            user.id,
            user.username@,
            user.role@,
            now,
            expires,
            token_version(registry, tenant, user.id),
            TokenType::Access,
            false,
            Some(refresh.jti@),
            device_info,
            tenant,
            AuthSystem::Tenant,
        )
}

/// The claims of a token pair for a user: first the refresh token, then an
/// access token that names the refresh token's identifier.
pub fn generate_token_pair(
    registry: &mut TokenRegistry,
    user: &UserIdentity,
    tenant: &str,
    settings: &JwtSettings,
    remember: bool,
    device_info: Option<String>,
) -> (r: (Claims, Claims))
    requires
        old(registry).wf(),
        settings_fit(*settings),
    ensures
        final(registry).wf(),
        final(registry)@ == after_register(old(registry)@, tenant@, user.id),
        r.0.token_type == TokenType::Refresh,
        r.1.token_type == TokenType::Access,
        opt_string_view(r.1.refresh_jti) == Some(r.0.jti@),
        r.0.remember == remember,
        r.0.ver == token_version(old(registry)@, tenant@, user.id),
        r.1.ver == token_version(old(registry)@, tenant@, user.id),
        opt_string_view(r.0.device_info) == opt_string_view(device_info),
        opt_string_view(r.1.device_info) == opt_string_view(device_info),
        r.0.sub@ == signed_decimal(user.id as int),
        r.1.sub@ == signed_decimal(user.id as int),
        opt_string_view(r.0.tenant_name) == Some(tenant@),
        opt_string_view(r.1.tenant_name) == Some(tenant@),
        session_claims(r.0, r.1, old(registry)@, *user, tenant@, *settings, remember, opt_string_view(device_info)),
{
    let refresh = generate_refresh_token(registry, user, tenant, settings, remember, clone_opt(&device_info));
    let ghost mid = registry@;
    let access = generate_access_token(registry, user, tenant, settings, Some(refresh.jti.clone()), device_info);
    proof {
        crate::token_registry::law_register_keeps_version(old(registry)@, tenant@, user.id);
        assert(after_register(mid, tenant@, user.id) =~= mid);
    }
    (refresh, access)
}

/// The claims of a token pair for a vessel account: first the refresh token,
/// then an access token that names the refresh token's identifier.
pub fn generate_token_pair_for_vessel(
    registry: &mut TokenRegistry,
    vessel: &Vessel,
    settings: &JwtSettings,
    remember: bool,
    device_info: Option<String>,
) -> (r: (Claims, Claims))
    requires
        old(registry).wf(),
        settings_fit(*settings),
    ensures
        final(registry).wf(),
        final(registry)@ == after_register(old(registry)@, vessel.name@, vessel.id),
        r.0.token_type == TokenType::Refresh,
        r.1.token_type == TokenType::Access,
        opt_string_view(r.1.refresh_jti) == Some(r.0.jti@),
        r.0.remember == remember,
        r.0.ver == token_version(old(registry)@, vessel.name@, vessel.id),
        r.1.ver == token_version(old(registry)@, vessel.name@, vessel.id),
        opt_string_view(r.0.device_info) == opt_string_view(device_info),
        opt_string_view(r.1.device_info) == opt_string_view(device_info),
        r.0.sub@ == signed_decimal(vessel.id as int),
        r.1.sub@ == signed_decimal(vessel.id as int),
        opt_string_view(r.0.tenant_name) == Some(vessel.name@),
        opt_string_view(r.1.tenant_name) == Some(vessel.name@),
        exists|now: i64, expires: i64|
            expiry_after(now, refresh_lifetime(*settings, remember), expires) && issued_claims(
                r.0,
                vessel.id,
                vessel.username@,
                "vessel"@,
                now,
                expires,
                token_version(old(registry)@, vessel.name@, vessel.id),
                TokenType::Refresh,
                remember,
                None,
                opt_string_view(device_info),
                vessel.name@,
                AuthSystem::Vessel,
            ),
        exists|now: i64, expires: i64|
            expiry_after(now, settings.access_token_expiry_mins * minute_secs(), expires) && issued_claims(
                r.1,
                vessel.id,
                vessel.username@,
                "vessel"@,
                now,
                expires,
                token_version(old(registry)@, vessel.name@, vessel.id),
                TokenType::Access,
                false,
                Some(r.0.jti@),
                opt_string_view(device_info),
                vessel.name@,
                AuthSystem::Vessel,
            ),
{
    let refresh = generate_refresh_token_for_vessel(registry, vessel, settings, remember, clone_opt(&device_info));
    let ghost mid = registry@;
    let access = generate_access_token_for_vessel(registry, vessel, settings, Some(refresh.jti.clone()), device_info);
    proof {
        crate::token_registry::law_register_keeps_version(old(registry)@, vessel.name@, vessel.id);
        assert(after_register(mid, vessel.name@, vessel.id) =~= mid);
    }
    (refresh, access)
}

/// The error of a token that could not be encoded: an unknown error, with the
/// encoder's description of the failure as context.
pub fn token_encoding_error(description: &str) -> (r: MeltDown)
    ensures
        r.melt_type == MeltType::Unknown,
        r.details@ == "Failed to generate JWT token"@,
        r.user_message is None,
        r.context_entries() == seq![("error"@, "Error encoding JWT: "@ + description@)],
{
    let detail = String::from_str("Error encoding JWT: ").concat(description);
    let e = MeltDown::new(MeltType::Unknown, "Failed to generate JWT token").with_context("error", detail.as_str());
    proof {
        assert(Seq::<(Seq<char>, Seq<char>)>::empty().push(("error"@, detail@)) =~= seq![("error"@, detail@)]);
        assert(!crate::meltdown::has_key(Seq::<(Seq<char>, Seq<char>)>::empty(), "error"@));
    }
    e
}

/// The tenant a token's claims belong to: the one it names, else `postgres`.
pub open spec fn claims_tenant(c: Claims) -> Seq<char> {
    match c.tenant_name {
        Some(t) => t@,
        None => "postgres"@,
    }
}

/// The tenant a token's claims belong to.
fn claims_tenant_exec(c: &Claims) -> (r: String)
    ensures
        r@ == claims_tenant(*c),
{
    match &c.tenant_name {
        Some(t) => t.clone(),
        None => String::from_str("postgres"),
    }
}

/// How decoded claims are judged: the subject must be a user id, and an access
/// token must not carry a version older than the user's current one.
pub open spec fn claims_verdict(r: Map<Seq<char>, crate::token_registry::TenantView>, c: Claims) -> Result<
    (),
    (MeltType, Seq<char>),
> {
    match parse_i32(c.sub@) {
        None => Err((MeltType::ValidationFailed, "Invalid user ID in token"@)),
        Some(user) => if c.token_type == TokenType::Access && c.ver < token_version(r, claims_tenant(c), user) {
            Err((MeltType::ExpiredToken, "Token version is outdated, please login again"@))
        } else {
            Ok(())
        },
    }
}

/// Judges the result of decoding a token: a decoding failure (described by
/// `decoded`'s error text) is an unauthorized error that keeps the text as
/// context; decoded claims are accepted as `claims_verdict` says.
pub fn check_decoded_claims(registry: &TokenRegistry, decoded: Result<Claims, String>) -> (r: Result<
    Claims,
    MeltDown,
>)
    requires
        registry.wf(),
    ensures
        match decoded {
            Err(text) => r matches Err(e) && e.melt_type == MeltType::Unauthorized && e.details@
                == "Invalid token"@ && e.context_entries() == seq![("error"@, "Error validating JWT: "@ + text@)],
            Ok(c) => match claims_verdict(registry@, c) {
                Ok(()) => r matches Ok(c2) && c2 == c,
                Err((t, d)) => r matches Err(e) && e.melt_type == t && e.details@ == d && e.context is None,
            },
        },
{
    match decoded {
        Err(text) => {
            let detail = String::from_str("Error validating JWT: ").concat(text.as_str());
            let e = MeltDown::new(MeltType::Unauthorized, "Invalid token").with_context("error", detail.as_str());
            proof {
                assert(Seq::<(Seq<char>, Seq<char>)>::empty().push(("error"@, detail@)) =~= seq![("error"@, detail@)]);
                assert(!crate::meltdown::has_key(Seq::<(Seq<char>, Seq<char>)>::empty(), "error"@));
            }
            Err(e)
        },
        Ok(claims) => {
            let tenant = claims_tenant_exec(&claims);
            match str_parse_i32(claims.sub.as_str()) {
                None => Err(MeltDown::new(MeltType::ValidationFailed, "Invalid user ID in token")),
                Some(user) => {
                    if claims.token_type == TokenType::Access {
                        let current = get_token_version(registry, tenant.as_str(), user);
                        if claims.ver < current {
                            return Err(
                                MeltDown::new(MeltType::ExpiredToken, "Token version is outdated, please login again"),
                            );
                        }
                    }
                    Ok(claims)
                },
            }
        },
    }
}

/// How a refresh token's checked claims are judged.
pub open spec fn refresh_verdict(r: Map<Seq<char>, crate::token_registry::TenantView>, c: Claims) -> Result<
    i32,
    (MeltType, Seq<char>),
> {
    if c.token_type != TokenType::Refresh {
        Err((MeltType::Unauthorized, "Invalid token type"@))
    } else {
        match parse_i32(c.sub@) {
            None => Err((MeltType::ValidationFailed, "Invalid user ID in token"@)),
            Some(user) => if refresh_used(r, claims_tenant(c), user, c.jti@) {
                Err((MeltType::Unauthorized, "Refresh token has already been used, please login again"@))
            } else if c.ver < token_version(r, claims_tenant(c), user) {
                Err((MeltType::ExpiredToken, "Token version is outdated, please login again"@))
            } else {
                Ok(user)
            },
        }
    }
}

/// Accepts a refresh token whose claims passed the general check: it must be a
/// refresh token naming a user, not spent before, and of the user's current
/// version. Returns what the token tells about its session.
pub fn validate_refresh_token(registry: &TokenRegistry, checked: Result<Claims, MeltDown>) -> (r: Result<
    RefreshTokenInfo,
    MeltDown,
>)
    requires
        registry.wf(),
    ensures
        match checked {
            Err(e) => r matches Err(e2) && e2.melt_type == e.melt_type && e2.details == e.details,
            Ok(c) => match refresh_verdict(registry@, c) {
                Ok(user) => r matches Ok(info) && info.jti@ == c.jti@ && info.user_id == user
                    && info.token_version == c.ver && info.remember == c.remember && opt_string_view(info.device_info)
                    == opt_string_view(c.device_info),
                Err((t, d)) => r matches Err(e) && e.melt_type == t && e.details@ == d,
            },
        },
{
    let claims = match checked {
        Ok(c) => c,
        Err(e) => {
            return Err(e);
        },
    };
    if claims.token_type != TokenType::Refresh {
        return Err(MeltDown::new(MeltType::Unauthorized, "Invalid token type"));
    }
    let user = match str_parse_i32(claims.sub.as_str()) {
        Some(u) => u,
        None => {
            return Err(MeltDown::new(MeltType::ValidationFailed, "Invalid user ID in token"));
        },
    };
    let tenant = claims_tenant_exec(&claims);
    if is_refresh_token_used(registry, tenant.as_str(), user, claims.jti.as_str()) {
        return Err(
            MeltDown::new(MeltType::Unauthorized, "Refresh token has already been used, please login again"),
        );
    }
    let current = get_token_version(registry, tenant.as_str(), user);
    if claims.ver < current {
        return Err(MeltDown::new(MeltType::ExpiredToken, "Token version is outdated, please login again"));
    }
    Ok(
        RefreshTokenInfo {
            jti: claims.jti,
            user_id: user,
            token_version: claims.ver,
            remember: claims.remember,
            device_info: claims.device_info,
        },
    )
}

// ---------------------------------------------------------------------------
// Laws
// ---------------------------------------------------------------------------

/// A refresh token is accepted at most once: once the registry records it as
/// spent, the same claims are refused.
pub proof fn law_spent_refresh_token_refused(
    r: Map<Seq<char>, crate::token_registry::TenantView>,
    c: Claims,
    user: i32,
)
    requires
        c.token_type == TokenType::Refresh,
        parse_i32(c.sub@) == Some(user),
    ensures
        refresh_verdict(
            crate::token_registry::after_mark(r, claims_tenant(c), user, c.jti@),
            c,
        ) matches Err((t, _)) && t == MeltType::Unauthorized,
{
}

/// Revoking a user's tokens refuses the refresh tokens and access tokens that
/// were issued before.
pub proof fn law_revocation_refuses_earlier_tokens(
    r: Map<Seq<char>, crate::token_registry::TenantView>,
    c: Claims,
    user: i32,
)
    requires
        parse_i32(c.sub@) == Some(user),
        c.ver == token_version(r, claims_tenant(c), user),
        token_version(r, claims_tenant(c), user) < u32::MAX,
    ensures
        c.token_type == TokenType::Refresh ==> refresh_verdict(
            crate::token_registry::after_invalidate(r, claims_tenant(c), user),
            c,
        ) is Err,
        c.token_type == TokenType::Access ==> claims_verdict(
            crate::token_registry::after_invalidate(r, claims_tenant(c), user),
            c,
        ) is Err,
{
}

/// Claims of the current version, naming a user, are accepted until the
/// user's tokens are revoked: issuing tokens (which registers the user) does
/// not invalidate them.
pub proof fn law_issued_access_claims_accepted(
    r: Map<Seq<char>, crate::token_registry::TenantView>,
    c: Claims,
    user: i32,
)
    requires
        parse_i32(c.sub@) == Some(user),
        c.ver == token_version(r, claims_tenant(c), user),
    ensures
        claims_verdict(after_register(r, claims_tenant(c), user), c) is Ok,
{
    crate::token_registry::law_register_keeps_version(r, claims_tenant(c), user);
}

/// The decimal subject written into issued claims reads back as the user id.
pub proof fn law_subject_round_trip(subject: i32)
    ensures
        parse_i32(signed_decimal(subject as int)) == Some(subject),
{
    crate::text::lemma_signed_decimal_parses(subject);
}

} // verus!
