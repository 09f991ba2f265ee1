//! Password hashing and checking with bcrypt.
use vstd::prelude::*;

use crate::meltdown::{MeltDown, MeltType};

verus! {

/// What `bcrypt::verify` answers for a password and a stored hash: whether
/// they match, or the description of why the hash cannot be checked.
pub uninterp spec fn bcrypt_verdict(password: Seq<char>, hash: Seq<char>) -> Result<bool, Seq<char>>;

/// `bcrypt::verify`: checks a password against a stored hash. The answer is
/// named `bcrypt_verdict`; its error is described by its `Display` text.
#[verifier::external_body]
fn bcrypt_verify(password: &str, hash: &str) -> (r: Result<bool, String>)
    ensures
        match r {
            Ok(b) => bcrypt_verdict(password@, hash@) == Ok::<bool, Seq<char>>(b),
            Err(e) => bcrypt_verdict(password@, hash@) == Err::<bool, Seq<char>>(e@),
        },
{
    match bcrypt::verify(password, hash) {
        Ok(b) => Ok(b),
        Err(e) => Err(e.to_string()),
    }
}

/// `bcrypt::hash`: hashes a password with a random salt at the given cost.
/// As bcrypt's source shows, a cost outside 4..=31 is refused; a hash is the
/// 60-character `$2b$` form, and checking the same password against it
/// succeeds. The salt, and so the hash itself, is random.
#[verifier::external_body]
fn bcrypt_hash(password: &str, cost: u32) -> (r: Result<String, String>)
    ensures
        match r {
            Ok(h) => 4 <= cost && cost <= 31 && h@.len() == 60 && bcrypt_verdict(password@, h@) == Ok::<
                bool,
                Seq<char>,
            >(true),
            Err(_) => true,
        },
{
    match bcrypt::hash(password, cost) {
        Ok(h) => Ok(h),
        Err(e) => Err(e.to_string()),
    }
}

/// How a password check is answered: a match, or an invalid-credentials
/// error for a mismatch, or a hashing error for a hash that cannot be checked;
/// each error notes the password check as its operation.
pub open spec fn password_verdict_holds(r: Result<bool, MeltDown>, verdict: Result<bool, Seq<char>>) -> bool {
    match verdict {
        Ok(true) => r == Ok::<bool, MeltDown>(true),
        Ok(false) => r matches Err(e) && e.melt_type == MeltType::InvalidCredentials && e.details@
            == "Invalid username or password"@ && e.context_entries() == seq![
            ("operation"@, "password_verification"@),
        ],
        Err(text) => r matches Err(e) && e.melt_type == MeltType::ConfigurationError && e.details@
            == "Password hashing error: "@ + text && e.context_entries() == seq![
            ("operation"@, "password_verification"@),
        ],
    }
}

fn with_operation(e: MeltDown, operation: &str) -> (r: MeltDown)
    requires
        e.context is None,
    ensures
        r.melt_type == e.melt_type,
        r.details == e.details,
        r.user_message == e.user_message,
        r.context_entries() == seq![("operation"@, operation@)],
{
    let r = e.with_context("operation", operation);
    proof {
        assert(Seq::<(Seq<char>, Seq<char>)>::empty().push(("operation"@, operation@)) =~= seq![
            ("operation"@, operation@),
        ]);
        assert(!crate::meltdown::has_key(Seq::<(Seq<char>, Seq<char>)>::empty(), "operation"@));
    }
    r
}

/// Checks a password against a user's stored hash.
pub fn verify_password(password: &str, password_hash: &str) -> (r: Result<bool, MeltDown>)
    ensures
        password_verdict_holds(r, bcrypt_verdict(password@, password_hash@)),
{
    match bcrypt_verify(password, password_hash) {
        Ok(true) => Ok(true),
        Ok(false) => Err(with_operation(MeltDown::invalid_credentials(), "password_verification")),
        Err(text) => Err(with_operation(MeltDown::from_password_hash_error(text.as_str()), "password_verification")),
    }
}

/// Hashes a new password at bcrypt's default cost; a failure is a hashing
/// error that notes the hashing as its operation.
pub fn hash_password(password: &str) -> (r: Result<String, MeltDown>)
    ensures
        match r {
            Ok(h) => h@.len() == 60 && bcrypt_verdict(password@, h@) == Ok::<bool, Seq<char>>(true),
            Err(e) => e.melt_type == MeltType::ConfigurationError && e.context_entries() == seq![
                ("operation"@, "password_hashing"@),
            ],
        },
{
    match bcrypt_hash(password, 12) {
        Ok(h) => Ok(h),
        Err(text) => Err(with_operation(MeltDown::from_password_hash_error(text.as_str()), "password_hashing")),
    }
}

/// A password checks out against the hash made of it.
pub proof fn law_password_round_trip(password: Seq<char>, hash: Seq<char>, r: Result<bool, MeltDown>)
    requires
        bcrypt_verdict(password, hash) == Ok::<bool, Seq<char>>(true),
        password_verdict_holds(r, bcrypt_verdict(password, hash)),
    ensures
        r == Ok::<bool, MeltDown>(true),
{
}

} // verus!
