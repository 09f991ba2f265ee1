//! Request guards: who may reach admin areas, tenant areas and the API, decided
//! from the request's authenticated token, its path and its headers.
use vstd::prelude::*;

use crate::jwt::{AuthSystem, Claims, JWT};
use crate::meltdown::{MeltDown, MeltType};
use crate::text::{chars_of, contains, contains_exec, split, split_exec, starts_with, str_eq, string_of, trim, trim_exec};

verus! {

/// A refusal of the given kind with the given details and nothing else.
pub open spec fn refusal(e: MeltDown, t: MeltType, details: Seq<char>) -> bool {
    &&& e.melt_type == t
    &&& e.details@ == details
    &&& e.user_message is None
    &&& e.context is None
}

// ---------------------------------------------------------------------------
// Paths
// ---------------------------------------------------------------------------

/// The pieces of a path between slashes.
pub open spec fn path_parts(path: Seq<char>) -> Seq<Seq<char>> {
    split(path, seq!['/'])
}

fn path_parts_exec(path: &str) -> (r: Vec<Vec<char>>)
    ensures
        r@.len() == path_parts(path@).len(),
        forall|i: int| 0 <= i < r@.len() ==> #[trigger] r@[i]@ == path_parts(path@)[i],
{
    let v = chars_of(path);
    let sep: Vec<char> = vec!['/'];
    assert(sep@ =~= seq!['/']);
    split_exec(&v, &sep)
}

/// The tenant a path names: its first segment, unless that is empty or holds
/// `@` or `.`.
pub open spec fn uri_tenant(path: Seq<char>) -> Option<Seq<char>> {
    let parts = path_parts(path);
    if parts.len() > 1 && parts[1].len() > 0 && !contains(parts[1], seq!['@']) && !contains(
        parts[1],
        seq!['.'],
    ) {
        Some(parts[1])
    } else {
        None
    }
}

/// The tenant a path names, if any.
pub fn uri_tenant_name(path: &str) -> (r: Option<String>)
    ensures
        match r {
            Some(t) => uri_tenant(path@) == Some(t@),
            None => uri_tenant(path@) is None,
        },
{
    let parts = path_parts_exec(path);
    if parts.len() <= 1 {
        return None;
    }
    let seg = &parts[1];
    let at: Vec<char> = vec!['@'];
    let dot: Vec<char> = vec!['.'];
    assert(at@ =~= seq!['@']);
    assert(dot@ =~= seq!['.']);
    if seg.len() == 0 || contains_exec(seg, &at) || contains_exec(seg, &dot) {
        None
    } else {
        Some(string_of(seg))
    }
}

/// The non-empty pieces of a path between slashes, in order.
pub open spec fn nonempty_parts(parts: Seq<Seq<char>>) -> Seq<Seq<char>>
    decreases parts.len(),
{
    if parts.len() == 0 {
        seq![]
    } else {
        let rest = nonempty_parts(parts.drop_last());
        if parts.last().len() > 0 {
            rest.push(parts.last())
        } else {
            rest
        }
    }
}

/// A first path segment that names no tenant.
pub open spec fn reserved_segment(s: Seq<char>) -> bool {
    s == "api"@ || s == "auth"@ || s == "vessel"@ || s == "admin"@ || s == "user"@
}

/// The tenant of an API path `/<tenant>/api/...`: the first non-empty
/// segment when the second is `api` and the first is not reserved.
pub open spec fn api_path_tenant(path: Seq<char>) -> Option<Seq<char>> {
    let parts = nonempty_parts(path_parts(path));
    if parts.len() >= 2 && parts[1] == "api"@ && !reserved_segment(parts[0]) {
        Some(parts[0])
    } else {
        None
    }
}

/// The tenant of an API path, if it names one.
pub fn extract_tenant_from_path(path: &str) -> (r: Option<String>)
    ensures
        match r {
            Some(t) => api_path_tenant(path@) == Some(t@),
            None => api_path_tenant(path@) is None,
        },
{
    let all = path_parts_exec(path);
    let mut parts: Vec<String> = Vec::new();
    let mut i: usize = 0;
    while i < all.len()
        invariant
            i <= all@.len(),
            all@.len() == path_parts(path@).len(),
            forall|j: int| 0 <= j < all@.len() ==> #[trigger] all@[j]@ == path_parts(path@)[j],
            parts@.map_values(|p: String| p@) == nonempty_parts(path_parts(path@).subrange(0, i as int)),
        decreases all@.len() - i,
    {
        let ghost before = parts@.map_values(|p: String| p@);
        proof {
            let s = path_parts(path@).subrange(0, i + 1);
            assert(s.drop_last() =~= path_parts(path@).subrange(0, i as int));
            assert(s.last() == all@[i as int]@);
        }
        if all[i].len() > 0 {
            let p = string_of(&all[i]);
            parts.push(p);
            assert(parts@.map_values(|p: String| p@) =~= before.push(p@));
        }
        i = i + 1;
    }
    assert(path_parts(path@).subrange(0, all@.len() as int) =~= path_parts(path@));
    let ghost view = parts@.map_values(|p: String| p@);
    if parts.len() >= 2 && str_eq(parts[1].as_str(), "api") {
        assert(view[1] == parts@[1]@);
        assert(view[0] == parts@[0]@);
        let first = parts[0].as_str();
        if str_eq(first, "api") || str_eq(first, "auth") || str_eq(first, "vessel") || str_eq(first, "admin")
            || str_eq(first, "user") {
            None
        } else {
            Some(String::from_str(first))
        }
    } else {
        proof {
            if parts@.len() >= 2 {
                assert(view[1] == parts@[1]@);
            }
        }
        None
    }
}

// ---------------------------------------------------------------------------
// Role guards
// ---------------------------------------------------------------------------

/// Admits admins only.
pub struct AdminGuard;

/// Admits any authenticated user.
pub struct UserGuard;

impl AdminGuard {
    /// Admits the token's holder when its role is `admin`; refuses everyone
    /// else as forbidden.
    pub fn from_request(jwt: &JWT) -> (r: Result<AdminGuard, MeltDown>)
        ensures
            r is Ok <==> jwt.0.role@ == "admin"@,
            r matches Err(e) ==> refusal(e, MeltType::Forbidden, "Insufficient permissions to access admin area"@),
    {
        if jwt.is_admin() {
            Ok(AdminGuard)
        } else {
            Err(MeltDown::new(MeltType::Forbidden, "Insufficient permissions to access admin area"))
        }
    }
}

/// The request's `Referer` header.
pub struct Referer(pub String);

impl Referer {
    /// The referer, or a missing-field error when the header is absent.
    pub fn from_request(header: Option<&str>) -> (r: Result<Referer, MeltDown>)
        ensures
            match header {
                Some(h) => r matches Ok(x) && x.0@ == h@,
                None => r matches Err(e) && refusal(e, MeltType::MissingField, "Missing Referer header"@),
            },
    {
        match header {
            Some(h) => Ok(Referer(String::from_str(h))),
            None => Err(MeltDown::new(MeltType::MissingField, "Missing Referer header")),
        }
    }
}

// ---------------------------------------------------------------------------
// API keys
// ---------------------------------------------------------------------------

/// `s` with every leading copy of `p` removed (as `str::trim_start_matches`).
pub open spec fn strip_leading(s: Seq<char>, p: Seq<char>) -> Seq<char>
    decreases s.len(),
{
    if p.len() > 0 && starts_with(s, p) {
        strip_leading(s.subrange(p.len() as int, s.len() as int), p)
    } else {
        s
    }
}

/// The key an `Authorization` header carries: after `Bearer `, every leading
/// `Bearer ` removed and the rest trimmed.
pub open spec fn bearer_key(header: Seq<char>) -> Seq<char> {
    trim(strip_leading(header, "Bearer "@))
}

/// How an API request's credentials are read: the key and the tenant (from
/// the path, else `main`), or the refusal's kind and details.
pub open spec fn api_key_request_verdict(header: Option<Seq<char>>, path: Seq<char>) -> Result<
    (Seq<char>, Seq<char>),
    (MeltType, Seq<char>),
> {
    match header {
        Some(h) => if starts_with(h, "Bearer "@) {
            if bearer_key(h).len() == 0 {
                Err((MeltType::Unauthorized, "Empty API key provided"@))
            } else {
                Ok(
                    (
                        bearer_key(h),
                        match api_path_tenant(path) {
                            Some(t) => t,
                            None => "main"@,
                        },
                    ),
                )
            }
        } else {
            Err((MeltType::Unauthorized, "Missing Authorization header"@))
        },
        None => Err((MeltType::Unauthorized, "Missing Authorization header"@)),
    }
}

/// Reads an API request's credentials from its `Authorization` header and
/// path: the key to check and the tenant to check it in.
pub fn api_key_request(header: Option<&str>, path: &str) -> (r: Result<(String, String), MeltDown>)
    ensures
        match api_key_request_verdict(
            match header {
                Some(h) => Some(h@),
                None => None,
            },
            path@,
        ) {
            Ok((k, t)) => r matches Ok(p) && p.0@ == k && p.1@ == t,
            Err((kind, d)) => r matches Err(e) && refusal(e, kind, d),
        },
{
    let h = match header {
        Some(h) => h,
        None => {
            return Err(MeltDown::new(MeltType::Unauthorized, "Missing Authorization header"));
        },
    };
    if !crate::text::str_starts_with(h, "Bearer ") {
        return Err(MeltDown::new(MeltType::Unauthorized, "Missing Authorization header"));
    }
    let key = bearer_token(h);
    if key.as_str().unicode_len() == 0 {
        return Err(MeltDown::new(MeltType::Unauthorized, "Empty API key provided"));
    }
    let tenant = match extract_tenant_from_path(path) {
        Some(t) => t,
        None => String::from_str("main"),
    };
    Ok((key, tenant))
}

/// The key an `Authorization` header carries.
pub fn bearer_token(header: &str) -> (r: String)
    ensures
        r@ == bearer_key(header@),
{
    let v = chars_of(header);
    let prefix = chars_of("Bearer ");
    proof {
        reveal_strlit("Bearer ");
    }
    let stripped = strip_leading_exec(&v, &prefix);
    let key = trim_exec(&stripped);
    string_of(&key)
}

fn strip_leading_exec(v: &Vec<char>, p: &Vec<char>) -> (r: Vec<char>)
    requires
        p@.len() > 0,
    ensures
        r@ == strip_leading(v@, p@),
{
    let mut rest = crate::text::slice_vec(v, 0, v.len());
    assert(rest@ =~= v@);
    while crate::text::starts_with_exec(&rest, p)
        invariant
            p@.len() > 0,
            strip_leading(v@, p@) == strip_leading(rest@, p@),
        decreases rest@.len(),
    {
        let next = crate::text::slice_vec(&rest, p.len(), rest.len());
        rest = next;
    }
    rest
}

/// The refusal of an API key that the database does not accept.
pub fn invalid_api_key() -> (r: MeltDown)
    ensures
        refusal(r, MeltType::Forbidden, "Invalid API key"@),
{
    MeltDown::new(MeltType::Forbidden, "Invalid API key")
}

// ---------------------------------------------------------------------------
// Tenant guards
// ---------------------------------------------------------------------------

/// Admits an authenticated user to one tenant's pages.
pub struct TenantUserGuard {
    pub tenant_name: String,
}

/// Admits a tenant's admin to that tenant's admin area.
pub struct TenantAdminGuard {
    pub tenant_name: String,
}

/// Which tenant a token may see on a path, or why it is refused (always as
/// forbidden). Tokens of the hosting system are refused; an admin keeps to
/// the tenant the token names; another user keeps to the token's tenant when
/// the path names one, and to the token's tenant (else `main`) otherwise.
pub open spec fn tenant_user_verdict(c: Claims, path: Seq<char>) -> Result<Seq<char>, Seq<char>> {
    if c.auth_system == AuthSystem::Vessel {
        Err("Tenant access requires tenant login. Vessel authentication is not sufficient."@)
    } else if c.role@ == "admin"@ {
        match c.tenant_name {
            Some(jt) => match uri_tenant(path) {
                Some(ut) => if jt@ != ut {
                    Err("Admin is authenticated for tenant '"@ + jt@ + "', not for tenant '"@ + ut + "'"@)
                } else {
                    Ok(jt@)
                },
                None => Ok(jt@),
            },
            None => Err("Invalid authentication token - missing tenant information"@),
        }
    } else {
        match uri_tenant(path) {
            Some(ut) => match c.tenant_name {
                Some(jt) => if jt@ != ut {
                    Err("User has no access to tenant: "@ + ut)
                } else {
                    Ok(ut)
                },
                None => Err("Tenant-specific access requires tenant association"@),
            },
            None => Ok(
                match c.tenant_name {
                    Some(jt) => jt@,
                    None => "main"@,
                },
            ),
        }
    }
}

impl TenantUserGuard {
    /// Admits the token's holder to the tenant `tenant_user_verdict` names,
    /// or refuses it as forbidden with the verdict's details.
    pub fn from_request(jwt: &JWT, path: &str) -> (r: Result<TenantUserGuard, MeltDown>)
        ensures
            match tenant_user_verdict(jwt.0, path@) {
                Ok(t) => r matches Ok(g) && g.tenant_name@ == t,
                Err(d) => r matches Err(e) && refusal(e, MeltType::Forbidden, d),
            },
    {
        let uri = uri_tenant_name(path);
        if jwt.is_vessel_auth() {
            return Err(
                MeltDown::new(
                    MeltType::Forbidden,
                    "Tenant access requires tenant login. Vessel authentication is not sufficient.",
                ),
            );
        }
        if jwt.is_admin() {
            return match jwt.get_tenant_name() {
                Some(jt) => {
                    match &uri {
                        Some(ut) => {
                            if !str_eq(jt.as_str(), ut.as_str()) {
                                let d = String::from_str("Admin is authenticated for tenant '").concat(
                                    jt.as_str(),
                                ).concat("', not for tenant '").concat(ut.as_str()).concat("'");
                                return Err(MeltDown::new(MeltType::Forbidden, d.as_str()));
                            }
                        },
                        None => {},
                    }
                    Ok(TenantUserGuard { tenant_name: jt.clone() })
                },
                None => Err(
                    MeltDown::new(MeltType::Forbidden, "Invalid authentication token - missing tenant information"),
                ),
            };
        }
        match uri {
            Some(ut) => {
                match jwt.get_tenant_name() {
                    Some(jt) => {
                        if !str_eq(jt.as_str(), ut.as_str()) {
                            let d = String::from_str("User has no access to tenant: ").concat(ut.as_str());
                            return Err(MeltDown::new(MeltType::Forbidden, d.as_str()));
                        }
                    },
                    None => {
                        return Err(
                            MeltDown::new(MeltType::Forbidden, "Tenant-specific access requires tenant association"),
                        );
                    },
                }
                Ok(TenantUserGuard { tenant_name: ut })
            },
            None => {
                let tenant = match jwt.get_tenant_name() {
                    Some(jt) => jt.clone(),
                    None => String::from_str("main"),
                };
                Ok(TenantUserGuard { tenant_name: tenant })
            },
        }
    }
}

/// Which tenant's admin area a token may enter on a path, or why it is
/// refused (always as forbidden): hosting-system tokens and non-admins are
/// refused, and the token's tenant must be the path's (else `main`).
pub open spec fn tenant_admin_verdict(c: Claims, path: Seq<char>) -> Result<Seq<char>, Seq<char>> {
    if c.auth_system == AuthSystem::Vessel {
        Err("Admin access requires tenant admin login. Vessel authentication is not sufficient."@)
    } else if c.role@ != "admin"@ {
        Err("Insufficient permissions to access admin area"@)
    } else {
        let tenant = match uri_tenant(path) {
            Some(t) => t,
            None => "main"@,
        };
        match c.tenant_name {
            Some(jt) => if jt@ != tenant {
                Err("Authentication is for tenant '"@ + jt@ + "', not for tenant '"@ + tenant + "'"@)
            } else {
                Ok(tenant)
            },
            None => Err("Invalid authentication token - missing tenant information"@),
        }
    }
}

impl TenantAdminGuard {
    /// Admits the token's holder to the admin area `tenant_admin_verdict`
    /// names, or refuses it as forbidden with the verdict's details.
    pub fn from_request(jwt: &JWT, path: &str) -> (r: Result<TenantAdminGuard, MeltDown>)
        ensures
            match tenant_admin_verdict(jwt.0, path@) {
                Ok(t) => r matches Ok(g) && g.tenant_name@ == t,
                Err(d) => r matches Err(e) && refusal(e, MeltType::Forbidden, d),
            },
    {
        let uri = uri_tenant_name(path);
        if jwt.is_vessel_auth() {
            return Err(
                MeltDown::new(
                    MeltType::Forbidden,
                    "Admin access requires tenant admin login. Vessel authentication is not sufficient.",
                ),
            );
        }
        if !jwt.is_admin() {
            return Err(MeltDown::new(MeltType::Forbidden, "Insufficient permissions to access admin area"));
        }
        let tenant = match uri {
            Some(t) => t,
            None => String::from_str("main"),
        };
        match jwt.get_tenant_name() {
            Some(jt) => {
                if !str_eq(jt.as_str(), tenant.as_str()) {
                    let d = String::from_str("Authentication is for tenant '").concat(jt.as_str()).concat(
                        "', not for tenant '",
                    ).concat(tenant.as_str()).concat("'");
                    return Err(MeltDown::new(MeltType::Forbidden, d.as_str()));
                }
            },
            None => {
                return Err(
                    MeltDown::new(MeltType::Forbidden, "Invalid authentication token - missing tenant information"),
                );
            },
        }
        Ok(TenantAdminGuard { tenant_name: tenant })
    }
}

// ---------------------------------------------------------------------------
// Laws
// ---------------------------------------------------------------------------

/// Tenant isolation: a token that names a tenant is only ever admitted to
/// that tenant's pages and admin area.
pub proof fn law_tenant_isolation(c: Claims, path: Seq<char>)
    ensures
        c.tenant_name is Some ==> match tenant_user_verdict(c, path) {
            Ok(t) => t == c.tenant_name->0@,
            Err(_) => true,
        },
        match tenant_admin_verdict(c, path) {
            Ok(t) => c.tenant_name is Some && t == c.tenant_name->0@,
            Err(_) => true,
        },
{
}

/// Tokens of the hosting system never enter a tenant's pages or admin area.
pub proof fn law_vessel_tokens_refused(c: Claims, path: Seq<char>)
    requires
        c.auth_system == AuthSystem::Vessel,
    ensures
        tenant_user_verdict(c, path) is Err,
        tenant_admin_verdict(c, path) is Err,
{
}

/// Only admins enter an admin area.
pub proof fn law_admin_area_needs_admin(c: Claims, path: Seq<char>)
    requires
        tenant_admin_verdict(c, path) is Ok,
    ensures
        c.role@ == "admin"@,
{
}

} // verus!
