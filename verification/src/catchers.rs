//! How errors are answered: a JSON body for API clients, otherwise a redirect
//! to the tenant's login or an error page.
use vstd::prelude::*;

use crate::guards::path_parts;
use crate::meltdown::{default_user_message, melt_type_status, MeltDown, MeltType};
use crate::text::{contains, starts_with, str_contains, str_starts_with};

verus! {

/// How an error is answered.
#[derive(Debug)]
pub enum ErrorReply {
    /// A JSON body `{"error": {"code": code, "message": message}}`.
    Json { code: u16, message: String },
    /// A redirect to a location.
    Redirect(String),
    /// The error page with a title, an optional flash message (kind, text),
    /// for a tenant.
    Page { title: String, flash: Option<(String, String)>, tenant: String },
}

/// The tenant an error page belongs to: the path's first segment, unless it
/// is empty or starts with `api` or `public`; `main` otherwise.
pub open spec fn page_tenant(path: Seq<char>) -> Seq<char> {
    let parts = path_parts(path);
    if parts.len() > 1 && parts[1].len() > 0 && !starts_with(parts[1], "api"@) && !starts_with(
        parts[1],
        "public"@,
    ) {
        parts[1]
    } else {
        "main"@
    }
}

/// The tenant an error page belongs to.
pub fn extract_tenant_name(path: &str) -> (r: String)
    ensures
        r@ == page_tenant(path@),
{
    let v = crate::text::chars_of(path);
    let sep: Vec<char> = vec!['/'];
    assert(sep@ =~= seq!['/']);
    let parts = crate::text::split_exec(&v, &sep);
    if parts.len() > 1 {
        let seg = &parts[1];
        let api = crate::text::chars_of("api");
        let public = crate::text::chars_of("public");
        if seg.len() > 0 && !crate::text::starts_with_exec(seg, &api) && !crate::text::starts_with_exec(
            seg,
            &public,
        ) {
            return crate::text::string_of(seg);
        }
    }
    String::from_str("main")
}

/// Some `Accept` header value asks for JSON.
pub open spec fn accepts_json_spec(accept: Seq<String>) -> bool {
    exists|i: int| 0 <= i < accept.len() && contains((#[trigger] accept[i])@, "application/json"@)
}

/// Whether some `Accept` header value contains `application/json`.
pub fn accepts_json(accept: &Vec<String>) -> (r: bool)
    ensures
        r == accepts_json_spec(accept@),
{
    let mut i: usize = 0;
    while i < accept.len()
        invariant
            i <= accept@.len(),
            forall|j: int| 0 <= j < i ==> !contains((#[trigger] accept@[j])@, "application/json"@),
        decreases accept@.len() - i,
    {
        if str_contains(accept[i].as_str(), "application/json") {
            return true;
        }
        i = i + 1;
    }
    false
}

/// An API client: the path is under `/api` or JSON is accepted.
pub open spec fn wants_json_spec(path: Seq<char>, accept: Seq<String>) -> bool {
    starts_with(path, "/api"@) || accepts_json_spec(accept)
}

/// Whether the request comes from an API client.
pub fn wants_json(path: &str, accept: &Vec<String>) -> (r: bool)
    ensures
        r == wants_json_spec(path@, accept@),
{
    str_starts_with(path, "/api") || accepts_json(accept)
}

/// The tenant's path with `suffix` after it: `/<tenant><suffix>`.
pub open spec fn tenant_location(tenant: Seq<char>, suffix: Seq<char>) -> Seq<char> {
    "/"@ + tenant + suffix
}

fn tenant_location_exec(tenant: &str, suffix: &str) -> (r: String)
    ensures
        r@ == tenant_location(tenant@, suffix@),
{
    String::from_str("/").concat(tenant).concat(suffix)
}

/// The reply is the JSON body with this code and message.
pub open spec fn is_json(r: ErrorReply, code: u16, message: Seq<char>) -> bool {
    r matches ErrorReply::Json { code: c, message: m } && c == code && m@ == message
}

/// The reply redirects to this location.
pub open spec fn is_redirect(r: ErrorReply, location: Seq<char>) -> bool {
    r matches ErrorReply::Redirect(l) && l@ == location
}

/// The reply is the error page with this title and tenant, and no flash message.
pub open spec fn is_plain_page(r: ErrorReply, title: Seq<char>, tenant: Seq<char>) -> bool {
    r matches ErrorReply::Page { title: t, flash: f, tenant: n } && t@ == title && f is None && n@ == tenant
}

impl MeltDown {
    /// How the error answers a request for `path` with the given `Accept`
    /// values: API clients get its status code and user message as JSON;
    /// others are sent to their tenant's login on 401 and 403, get the
    /// not-found page on 404, and otherwise the error page flashing the user
    /// message.
    pub fn respond_to(&self, path: &str, accept: &Vec<String>) -> (r: ErrorReply)
        ensures
            wants_json_spec(path@, accept@) ==> is_json(r, melt_type_status(self.melt_type), self.user_message_view()),
            !wants_json_spec(path@, accept@) ==> {
                let code = melt_type_status(self.melt_type);
                let tenant = page_tenant(path@);
                if code == 401 || code == 403 {
                    is_redirect(r, tenant_location(tenant, "/auth/login"@))
                } else if code == 404 {
                    is_plain_page(r, "Page Not Found"@, tenant)
                } else {
                    r matches ErrorReply::Page { title: t, flash: Some(f), tenant: n } && t@ == "Error"@ && f.0@
                        == "error"@ && f.1@ == self.user_message_view() && n@ == tenant
                }
            },
    {
        let status = self.status_code();
        if wants_json(path, accept) {
            return ErrorReply::Json { code: status.code, message: self.user_message() };
        }
        let tenant = extract_tenant_name(path);
        if status.code == 401 || status.code == 403 {
            ErrorReply::Redirect(tenant_location_exec(tenant.as_str(), "/auth/login"))
        } else if status.code == 404 {
            ErrorReply::Page { title: String::from_str("Page Not Found"), flash: None, tenant }
        } else {
            ErrorReply::Page {
                title: String::from_str("Error"),
                flash: Some((String::from_str("error"), self.user_message())),
                tenant,
            }
        }
    }
}

/// The answer to an unauthorized request: JSON for API clients, otherwise the
/// tenant's login.
pub fn unauthorized(path: &str, accept: &Vec<String>) -> (r: ErrorReply)
    ensures
        wants_json_spec(path@, accept@) ==> is_json(
            r,
            401,
            default_user_message(MeltType::Unauthorized, "Authentication required"@),
        ),
        !wants_json_spec(path@, accept@) ==> is_redirect(r, tenant_location(page_tenant(path@), "/auth/login"@)),
{
    if wants_json(path, accept) {
        let error = MeltDown::new(MeltType::Unauthorized, "Authentication required");
        return ErrorReply::Json { code: 401, message: error.user_message() };
    }
    let tenant = extract_tenant_name(path);
    ErrorReply::Redirect(tenant_location_exec(tenant.as_str(), "/auth/login"))
}

/// The answer to a forbidden request: JSON for API clients, otherwise the
/// tenant's login.
pub fn forbidden(path: &str, accept: &Vec<String>) -> (r: ErrorReply)
    ensures
        wants_json_spec(path@, accept@) ==> is_json(
            r,
            403,
            default_user_message(MeltType::Forbidden, "Insufficient permissions"@),
        ),
        !wants_json_spec(path@, accept@) ==> is_redirect(r, tenant_location(page_tenant(path@), "/auth/login"@)),
{
    if wants_json(path, accept) {
        let error = MeltDown::new(MeltType::Forbidden, "Insufficient permissions");
        return ErrorReply::Json { code: 403, message: error.user_message() };
    }
    let tenant = extract_tenant_name(path);
    ErrorReply::Redirect(tenant_location_exec(tenant.as_str(), "/auth/login"))
}

/// The answer to a request for a missing page: JSON for API clients,
/// otherwise the not-found page.
pub fn not_found(path: &str, accept: &Vec<String>) -> (r: ErrorReply)
    ensures
        wants_json_spec(path@, accept@) ==> is_json(r, 404, default_user_message(MeltType::NotFound, "Resource"@)),
        !wants_json_spec(path@, accept@) ==> is_plain_page(r, "Page Not Found"@, page_tenant(path@)),
{
    if wants_json(path, accept) {
        let error = MeltDown::new(MeltType::NotFound, "Resource");
        return ErrorReply::Json { code: 404, message: error.user_message() };
    }
    ErrorReply::Page { title: String::from_str("Page Not Found"), flash: None, tenant: extract_tenant_name(path) }
}

/// Where a form that failed validation sends its user back to: the login or
/// registration form it came from, else the tenant's home.
pub open spec fn form_return(path: Seq<char>) -> Seq<char> {
    if contains(path, "/auth/login"@) {
        tenant_location(page_tenant(path), "/auth/login"@)
    } else if contains(path, "/auth/register"@) {
        tenant_location(page_tenant(path), "/auth/register"@)
    } else {
        tenant_location(page_tenant(path), ""@)
    }
}

/// The answer to a form that failed validation, with the reason recorded for
/// the request if any: JSON for API clients, otherwise back to the form.
pub fn unprocessable_entity(path: &str, accept: &Vec<String>, form_error: Option<&str>) -> (r: ErrorReply)
    ensures
        wants_json_spec(path@, accept@) ==> is_json(
            r,
            422,
            default_user_message(
                MeltType::ValidationFailed,
                match form_error {
                    Some(m) => m@,
                    None => "The form has invalid data"@,
                },
            ),
        ),
        !wants_json_spec(path@, accept@) ==> is_redirect(r, form_return(path@)),
{
    let reason = match form_error {
        Some(m) => m,
        None => "The form has invalid data",
    };
    let error = MeltDown::validation_failed(reason);
    if wants_json(path, accept) {
        return ErrorReply::Json { code: 422, message: error.user_message() };
    }
    let tenant = extract_tenant_name(path);
    if str_contains(path, "/auth/login") {
        ErrorReply::Redirect(tenant_location_exec(tenant.as_str(), "/auth/login"))
    } else if str_contains(path, "/auth/register") {
        ErrorReply::Redirect(tenant_location_exec(tenant.as_str(), "/auth/register"))
    } else {
        ErrorReply::Redirect(tenant_location_exec(tenant.as_str(), ""))
    }
}

/// The answer to an internal error: JSON for API clients, otherwise the
/// tenant's not-found page.
pub fn internal_error(path: &str, accept: &Vec<String>) -> (r: ErrorReply)
    ensures
        wants_json_spec(path@, accept@) ==> is_json(
            r,
            500,
            default_user_message(MeltType::Unknown, "Internal server error"@),
        ),
        !wants_json_spec(path@, accept@) ==> is_redirect(r, tenant_location(page_tenant(path@), "/not-found"@)),
{
    if wants_json(path, accept) {
        let error = MeltDown::new(MeltType::Unknown, "Internal server error");
        return ErrorReply::Json { code: 500, message: error.user_message() };
    }
    let tenant = extract_tenant_name(path);
    ErrorReply::Redirect(tenant_location_exec(tenant.as_str(), "/not-found"))
}

} // verus!
