//! Token claims, the authenticated token, and the decisions that accept or
//! refuse a request's token.
use vstd::prelude::*;

use crate::meltdown::{MeltDown, MeltType};
use crate::text::{opt_str_view, parse_i32, str_eq, str_parse_i32};

verus! {

/// Whether a token grants access or only allows new tokens to be issued.
#[derive(Clone, Copy, Debug, PartialEq, Eq, Structural)]
pub enum TokenType {
    Access,
    Refresh,
}

impl Default for TokenType {
    /// Tokens without a type are access tokens.
    fn default() -> (r: Self)
        ensures
            r == TokenType::Access,
    {
        TokenType::Access
    }
}

/// The login system that issued a token: a tenant's own, or the hosting
/// (vessel) system.
#[derive(Clone, Copy, Debug, PartialEq, Eq, Structural)]
pub enum AuthSystem {
    Tenant,
    Vessel,
}

/// The claims a token carries.
#[derive(Debug)]
pub struct Claims {
    /// The user id, in decimal.
    pub sub: String,
    pub exp: usize,
    pub jti: String,
    pub iat: usize,
    pub nbf: usize,
    pub ver: u32,
    pub remember: bool,
    pub role: String,
    pub username: String,
    pub token_type: TokenType,
    pub refresh_jti: Option<String>,
    pub device_info: Option<String>,
    pub tenant_name: Option<String>,
    pub auth_system: AuthSystem,
}

/// The version a token has when its claims name none.
pub fn default_version() -> (r: u32)
    ensures
        r == 1,
{
    1
}

/// An authenticated request's token.
pub struct JWT(pub Claims);

impl JWT {
    /// The user id the token names; its subject must be a decimal `i32`.
    pub fn user_id(&self) -> (r: i32)
        requires
            parse_i32(self.0.sub@) is Some,
        ensures
            parse_i32(self.0.sub@) == Some(r),
    {
        match str_parse_i32(self.0.sub.as_str()) {
            Some(v) => v,
            None => 0,
        }
    }

    /// Whether the token's role is `admin`.
    pub fn is_admin(&self) -> (r: bool)
        ensures
            r == (self.0.role@ == "admin"@),
    {
        str_eq(self.0.role.as_str(), "admin")
    }

    /// The token's role.
    pub fn get_role(&self) -> (r: &str)
        ensures
            r@ == self.0.role@,
    {
        self.0.role.as_str()
    }

    /// The token's user name.
    pub fn get_username(&self) -> (r: &str)
        ensures
            r@ == self.0.username@,
    {
        self.0.username.as_str()
    }

    /// The token's identifier.
    pub fn get_jti(&self) -> (r: &str)
        ensures
            r@ == self.0.jti@,
    {
        self.0.jti.as_str()
    }

    /// The token's version.
    pub fn get_version(&self) -> (r: u32)
        ensures
            r == self.0.ver,
    {
        self.0.ver
    }

    /// When the token expires, in seconds since the epoch.
    pub fn get_expiration(&self) -> (r: usize)
        ensures
            r == self.0.exp,
    {
        self.0.exp
    }

    /// When the token was issued, in seconds since the epoch.
    pub fn get_issued_at(&self) -> (r: usize)
        ensures
            r == self.0.iat,
    {
        self.0.iat
    }

    /// Whether the token is an access token.
    pub fn is_access_token(&self) -> (r: bool)
        ensures
            r == (self.0.token_type == TokenType::Access),
    {
        self.0.token_type == TokenType::Access
    }

    /// Whether the token is a refresh token.
    pub fn is_refresh_token(&self) -> (r: bool)
        ensures
            r == (self.0.token_type == TokenType::Refresh),
    {
        self.0.token_type == TokenType::Refresh
    }

    /// The token's type.
    pub fn get_token_type(&self) -> (r: &TokenType)
        ensures
            *r == self.0.token_type,
    {
        &self.0.token_type
    }

    /// The identifier of the refresh token issued with this token, if any.
    pub fn get_refresh_jti(&self) -> (r: Option<&String>)
        ensures
            match r {
                Some(s) => self.0.refresh_jti == Some(*s),
                None => self.0.refresh_jti is None,
            },
    {
        match &self.0.refresh_jti {
            Some(s) => Some(s),
            None => None,
        }
    }

    /// The device description recorded in the token, if any.
    pub fn get_device_info(&self) -> (r: Option<&String>)
        ensures
            match r {
                Some(s) => self.0.device_info == Some(*s),
                None => self.0.device_info is None,
            },
    {
        match &self.0.device_info {
            Some(s) => Some(s),
            None => None,
        }
    }

    /// The tenant the token was issued for, if any.
    pub fn get_tenant_name(&self) -> (r: Option<&String>)
        ensures
            match r {
                Some(s) => self.0.tenant_name == Some(*s),
                None => self.0.tenant_name is None,
            },
    {
        match &self.0.tenant_name {
            Some(s) => Some(s),
            None => None,
        }
    }

    /// The login system that issued the token.
    pub fn get_auth_system(&self) -> (r: AuthSystem)
        ensures
            r == self.0.auth_system,
    {
        self.0.auth_system
    }

    /// Whether the hosting (vessel) system issued the token.
    pub fn is_vessel_auth(&self) -> (r: bool)
        ensures
            r == (self.0.auth_system == AuthSystem::Vessel),
    {
        self.0.auth_system == AuthSystem::Vessel
    }

    /// Whether a tenant's own login issued the token.
    pub fn is_tenant_auth(&self) -> (r: bool)
        ensures
            r == (self.0.auth_system == AuthSystem::Tenant),
    {
        self.0.auth_system == AuthSystem::Tenant
    }
}

/// The text that describes why a string is not a decimal `i32`.
pub uninterp spec fn int_parse_error_text(s: Seq<char>) -> Seq<char>;

/// The description of why `s` does not parse as an `i32`: the `Display` text
/// of the error that `str::parse::<i32>` returns for it. Nothing is claimed
/// of what the text says; it is a function of `s` alone.
#[verifier::external_body]
fn i32_parse_error_text(s: &str) -> (r: String)
    requires
        parse_i32(s@) is None,
    ensures
        r@ == int_parse_error_text(s@),
{
    match s.parse::<i32>() {
        Err(e) => e.to_string(),
        Ok(_) => String::new(),
    }
}

/// The user id a token names, or an invalid-token error that says why the
/// subject is not a decimal `i32`.
pub fn jwt_to_id(jwt: &JWT) -> (r: Result<i32, MeltDown>)
    ensures
        match r {
            Ok(v) => parse_i32(jwt.0.sub@) == Some(v),
            Err(e) => parse_i32(jwt.0.sub@) is None && e.melt_type == MeltType::InvalidToken
                && e.details@ == "Invalid user ID in JWT: "@ + int_parse_error_text(jwt.0.sub@)
                && e.user_message is None && e.context is None,
        },
{
    match str_parse_i32(jwt.0.sub.as_str()) {
        Some(v) => Ok(v),
        None => {
            let text = i32_parse_error_text(jwt.0.sub.as_str());
            let details = String::from_str("Invalid user ID in JWT: ").concat(text.as_str());
            Err(MeltDown::new(MeltType::InvalidToken, details.as_str()))
        },
    }
}

/// A refused authentication: the error, and whether the token and user-id
/// cookies are to be removed.
pub struct AuthRefusal {
    pub error: MeltDown,
    pub clear_cookies: bool,
}

/// The refusal of a request without an access-token cookie; its cookies are removed.
pub fn missing_token_refusal() -> (r: AuthRefusal)
    ensures
        r.error.melt_type == MeltType::MissingToken,
        r.error.details@ == "No access token in cookies"@,
        r.clear_cookies,
{
    AuthRefusal { error: MeltDown::new(MeltType::MissingToken, "No access token in cookies"), clear_cookies: true }
}

/// How a request whose access token was checked is answered.
pub open spec fn authentication_verdict(
    checked: Result<Claims, MeltDown>,
    user_id_cookie: Option<Seq<char>>,
) -> Result<(), (MeltType, Seq<char>, bool)> {
    match checked {
        Err(e) => Err((e.melt_type, e.details@, true)),
        Ok(c) => if c.token_type == TokenType::Refresh {
            Err((MeltType::InvalidToken, "Refresh token cannot be used for authentication"@, false))
        } else if parse_i32(c.sub@) is None {
            Err((MeltType::InvalidToken, "Invalid user ID format in JWT"@, false))
        } else {
            match user_id_cookie {
                Some(u) => if u != c.sub@ {
                    Err((
                        MeltType::InvalidToken,
                        "JWT/Cookie User ID mismatch: Cookie='"@ + u + "', JWT='"@ + c.sub@ + "'"@,
                        true,
                    ))
                } else {
                    Ok(())
                },
                None => Ok(()),
            }
        },
    }
}

/// Decides on a request's access token once it has been checked: a refresh
/// token, a subject that is no user id, or a user-id cookie that names another
/// user is refused; otherwise the token authenticates the request. Errors of
/// the check itself, and a mismatching cookie, also remove the cookies.
pub fn authenticate(checked: Result<Claims, MeltDown>, user_id_cookie: Option<&str>) -> (r: Result<
    JWT,
    AuthRefusal,
>)
    ensures
        match r {
            Ok(jwt) => {
                &&& authentication_verdict(checked, opt_str_view(user_id_cookie)) is Ok
                &&& checked matches Ok(c) && jwt.0 == c
            },
            Err(refusal) => authentication_verdict(checked, opt_str_view(user_id_cookie)) == Err::<
                (),
                (MeltType, Seq<char>, bool),
            >((refusal.error.melt_type, refusal.error.details@, refusal.clear_cookies)),
        },
{
    let ghost c0 = checked;
    match checked {
        Err(e) => Err(AuthRefusal { error: e, clear_cookies: true }),
        Ok(claims) => {
            if claims.token_type == TokenType::Refresh {
                return Err(
                    AuthRefusal {
                        error: MeltDown::new(MeltType::InvalidToken, "Refresh token cannot be used for authentication"),
                        clear_cookies: false,
                    },
                );
            }
            if str_parse_i32(claims.sub.as_str()).is_none() {
                return Err(
                    AuthRefusal {
                        error: MeltDown::new(MeltType::InvalidToken, "Invalid user ID format in JWT"),
                        clear_cookies: false,
                    },
                );
            }
            match user_id_cookie {
                Some(u) => {
                    if !str_eq(u, claims.sub.as_str()) {
                        let details = String::from_str("JWT/Cookie User ID mismatch: Cookie='").concat(
                            u,
                        ).concat("', JWT='").concat(claims.sub.as_str()).concat("'");
                        return Err(
                            AuthRefusal {
                                error: MeltDown::new(MeltType::InvalidToken, details.as_str()),
                                clear_cookies: true,
                            },
                        );
                    }
                    Ok(JWT(claims))
                },
                None => Ok(JWT(claims)),
            }
        },
    }
}

} // verus!
