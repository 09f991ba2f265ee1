//! The application's error type: what went wrong, what users are told, and
//! which HTTP status answers it.
use vstd::prelude::*;

use crate::logger::LogLevel;
use crate::text::{contains, opt_string_view, str_contains, str_eq};

verus! {

/// The kind of an application error; it decides the HTTP status and the
/// message that users see.
#[derive(Clone, Copy, Debug, PartialEq, Eq, Structural)]
pub enum MeltType {
    DatabaseConnection,
    DatabaseError,
    RecordNotFound,
    UniqueViolation,
    ForeignKeyViolation,
    CheckViolation,
    NotNullViolation,
    InvalidCredentials,
    ExpiredToken,
    InvalidToken,
    MissingToken,
    InsufficientPermissions,
    ValidationFailed,
    InvalidInput,
    MissingField,
    FileNotFound,
    FilePermissionDenied,
    FileOperationFailed,
    BadRequest,
    Unauthorized,
    Forbidden,
    NotFound,
    MethodNotAllowed,
    TemplateRenderFailed,
    SerializationFailed,
    DeserializationFailed,
    ConfigurationError,
    EnvironmentError,
    ExternalServiceError,
    Unknown,
}

/// The name of an error kind, as it appears in log lines and API bodies.
pub open spec fn melt_type_name(t: MeltType) -> Seq<char> {
    match t {
        MeltType::DatabaseConnection => "DatabaseConnection"@,
        MeltType::DatabaseError => "DatabaseError"@,
        MeltType::RecordNotFound => "RecordNotFound"@,
        MeltType::UniqueViolation => "UniqueViolation"@,
        MeltType::ForeignKeyViolation => "ForeignKeyViolation"@,
        MeltType::CheckViolation => "CheckViolation"@,
        MeltType::NotNullViolation => "NotNullViolation"@,
        MeltType::InvalidCredentials => "InvalidCredentials"@,
        MeltType::ExpiredToken => "ExpiredToken"@,
        MeltType::InvalidToken => "InvalidToken"@,
        MeltType::MissingToken => "MissingToken"@,
        MeltType::InsufficientPermissions => "InsufficientPermissions"@,
        MeltType::ValidationFailed => "ValidationFailed"@,
        MeltType::InvalidInput => "InvalidInput"@,
        MeltType::MissingField => "MissingField"@,
        MeltType::FileNotFound => "FileNotFound"@,
        MeltType::FilePermissionDenied => "FilePermissionDenied"@,
        MeltType::FileOperationFailed => "FileOperationFailed"@,
        MeltType::BadRequest => "BadRequest"@,
        MeltType::Unauthorized => "Unauthorized"@,
        MeltType::Forbidden => "Forbidden"@,
        MeltType::NotFound => "NotFound"@,
        MeltType::MethodNotAllowed => "MethodNotAllowed"@,
        MeltType::TemplateRenderFailed => "TemplateRenderFailed"@,
        MeltType::SerializationFailed => "SerializationFailed"@,
        MeltType::DeserializationFailed => "DeserializationFailed"@,
        MeltType::ConfigurationError => "ConfigurationError"@,
        MeltType::EnvironmentError => "EnvironmentError"@,
        MeltType::ExternalServiceError => "ExternalServiceError"@,
        MeltType::Unknown => "Unknown"@,
    }
}

/// The HTTP status code that answers an error kind.
pub open spec fn melt_type_status(t: MeltType) -> u16 {
    match t {
        MeltType::DatabaseConnection => 500,
        MeltType::DatabaseError => 500,
        MeltType::RecordNotFound => 404,
        MeltType::UniqueViolation => 409,
        MeltType::ForeignKeyViolation => 409,
        MeltType::CheckViolation => 400,
        MeltType::NotNullViolation => 400,
        MeltType::InvalidCredentials => 401,
        MeltType::ExpiredToken => 401,
        MeltType::InvalidToken => 401,
        MeltType::MissingToken => 401,
        MeltType::InsufficientPermissions => 403,
        MeltType::ValidationFailed => 400,
        MeltType::InvalidInput => 400,
        MeltType::MissingField => 400,
        MeltType::FileNotFound => 404,
        MeltType::FilePermissionDenied => 403,
        MeltType::FileOperationFailed => 500,
        MeltType::BadRequest => 400,
        MeltType::Unauthorized => 401,
        MeltType::Forbidden => 403,
        MeltType::NotFound => 404,
        MeltType::MethodNotAllowed => 405,
        MeltType::TemplateRenderFailed => 500,
        MeltType::SerializationFailed => 500,
        MeltType::DeserializationFailed => 500,
        MeltType::ConfigurationError => 500,
        MeltType::EnvironmentError => 500,
        MeltType::ExternalServiceError => 503,
        MeltType::Unknown => 500,
    }
}

/// The message shown to users for an error kind and its details, when no
/// message of its own was given.
pub open spec fn default_user_message(t: MeltType, details: Seq<char>) -> Seq<char> {
    match t {
        MeltType::DatabaseConnection => "Unable to connect to database. Please try again later."@,
        MeltType::DatabaseError => "A database error occurred. Please try again later."@,
        MeltType::RecordNotFound => details + " not found."@,
        MeltType::UniqueViolation => details + " already exists."@,
        MeltType::ForeignKeyViolation => "Referenced data does not exist."@,
        MeltType::CheckViolation => "Data validation constraints were not met."@,
        MeltType::NotNullViolation => details + " is required."@,
        MeltType::InvalidCredentials => "Invalid username or password."@,
        MeltType::ExpiredToken => "Your session has expired. Please login again."@,
        MeltType::InvalidToken => "Invalid authentication token."@,
        MeltType::MissingToken => "Authentication required."@,
        MeltType::InsufficientPermissions => "You don't have permission to perform this action."@,
        MeltType::ValidationFailed => if details.len() == 0 {
            "Validation failed"@
        } else {
            "Validation failed: "@ + details
        },
        MeltType::InvalidInput => "Invalid input: "@ + details,
        MeltType::MissingField => details + " is required."@,
        MeltType::FileNotFound => "File not found: "@ + details,
        MeltType::FilePermissionDenied => "Permission denied accessing file."@,
        MeltType::FileOperationFailed => "File operation failed."@,
        MeltType::BadRequest => "Bad request: "@ + details,
        MeltType::Unauthorized => "Unauthorized: "@ + details,
        MeltType::Forbidden => "Forbidden: "@ + details,
        MeltType::NotFound => details + " not found."@,
        MeltType::MethodNotAllowed => "Method "@ + details + " not allowed."@,
        MeltType::TemplateRenderFailed => "Unable to render page."@,
        MeltType::SerializationFailed => "Data processing error."@,
        MeltType::DeserializationFailed => "Data processing error."@,
        MeltType::ConfigurationError => "Application configuration error."@,
        MeltType::EnvironmentError => "Environment setup error."@,
        MeltType::ExternalServiceError => "External service error."@,
        MeltType::Unknown => "An unexpected error occurred."@,
    }
}

/// The name of an error kind.
pub fn melt_type_str_of(t: &MeltType) -> (r: &'static str)
    ensures
        r@ == melt_type_name(*t),
{
    match t {
        MeltType::DatabaseConnection => "DatabaseConnection",
        MeltType::DatabaseError => "DatabaseError",
        MeltType::RecordNotFound => "RecordNotFound",
        MeltType::UniqueViolation => "UniqueViolation",
        MeltType::ForeignKeyViolation => "ForeignKeyViolation",
        MeltType::CheckViolation => "CheckViolation",
        MeltType::NotNullViolation => "NotNullViolation",
        MeltType::InvalidCredentials => "InvalidCredentials",
        MeltType::ExpiredToken => "ExpiredToken",
        MeltType::InvalidToken => "InvalidToken",
        MeltType::MissingToken => "MissingToken",
        MeltType::InsufficientPermissions => "InsufficientPermissions",
        MeltType::ValidationFailed => "ValidationFailed",
        MeltType::InvalidInput => "InvalidInput",
        MeltType::MissingField => "MissingField",
        MeltType::FileNotFound => "FileNotFound",
        MeltType::FilePermissionDenied => "FilePermissionDenied",
        MeltType::FileOperationFailed => "FileOperationFailed",
        MeltType::BadRequest => "BadRequest",
        MeltType::Unauthorized => "Unauthorized",
        MeltType::Forbidden => "Forbidden",
        MeltType::NotFound => "NotFound",
        MeltType::MethodNotAllowed => "MethodNotAllowed",
        MeltType::TemplateRenderFailed => "TemplateRenderFailed",
        MeltType::SerializationFailed => "SerializationFailed",
        MeltType::DeserializationFailed => "DeserializationFailed",
        MeltType::ConfigurationError => "ConfigurationError",
        MeltType::EnvironmentError => "EnvironmentError",
        MeltType::ExternalServiceError => "ExternalServiceError",
        MeltType::Unknown => "Unknown",
    }
}

/// The HTTP status code of an error kind.
pub fn status_of(t: &MeltType) -> (r: u16)
    ensures
        r == melt_type_status(*t),
{
    match t {
        MeltType::DatabaseConnection => 500,
        MeltType::DatabaseError => 500,
        MeltType::RecordNotFound => 404,
        MeltType::UniqueViolation => 409,
        MeltType::ForeignKeyViolation => 409,
        MeltType::CheckViolation => 400,
        MeltType::NotNullViolation => 400,
        MeltType::InvalidCredentials => 401,
        MeltType::ExpiredToken => 401,
        MeltType::InvalidToken => 401,
        MeltType::MissingToken => 401,
        MeltType::InsufficientPermissions => 403,
        MeltType::ValidationFailed => 400,
        MeltType::InvalidInput => 400,
        MeltType::MissingField => 400,
        MeltType::FileNotFound => 404,
        MeltType::FilePermissionDenied => 403,
        MeltType::FileOperationFailed => 500,
        MeltType::BadRequest => 400,
        MeltType::Unauthorized => 401,
        MeltType::Forbidden => 403,
        MeltType::NotFound => 404,
        MeltType::MethodNotAllowed => 405,
        MeltType::TemplateRenderFailed => 500,
        MeltType::SerializationFailed => 500,
        MeltType::DeserializationFailed => 500,
        MeltType::ConfigurationError => 500,
        MeltType::EnvironmentError => 500,
        MeltType::ExternalServiceError => 503,
        MeltType::Unknown => 500,
    }
}

/// The message shown to users for an error kind and its details.
pub fn default_user_message_of(t: &MeltType, details: &str) -> (r: String)
    ensures
        r@ == default_user_message(*t, details@),
{
    match t {
        MeltType::DatabaseConnection => String::from_str("Unable to connect to database. Please try again later."),
        MeltType::DatabaseError => String::from_str("A database error occurred. Please try again later."),
        MeltType::RecordNotFound => String::from_str(details).concat(" not found."),
        MeltType::UniqueViolation => String::from_str(details).concat(" already exists."),
        MeltType::ForeignKeyViolation => String::from_str("Referenced data does not exist."),
        MeltType::CheckViolation => String::from_str("Data validation constraints were not met."),
        MeltType::NotNullViolation => String::from_str(details).concat(" is required."),
        MeltType::InvalidCredentials => String::from_str("Invalid username or password."),
        MeltType::ExpiredToken => String::from_str("Your session has expired. Please login again."),
        MeltType::InvalidToken => String::from_str("Invalid authentication token."),
        MeltType::MissingToken => String::from_str("Authentication required."),
        MeltType::InsufficientPermissions => String::from_str("You don't have permission to perform this action."),
        MeltType::ValidationFailed => if details.is_empty() {
            String::from_str("Validation failed")
        } else {
            String::from_str("Validation failed: ").concat(details)
        },
        MeltType::InvalidInput => String::from_str("Invalid input: ").concat(details),
        MeltType::MissingField => String::from_str(details).concat(" is required."),
        MeltType::FileNotFound => String::from_str("File not found: ").concat(details),
        MeltType::FilePermissionDenied => String::from_str("Permission denied accessing file."),
        MeltType::FileOperationFailed => String::from_str("File operation failed."),
        MeltType::BadRequest => String::from_str("Bad request: ").concat(details),
        MeltType::Unauthorized => String::from_str("Unauthorized: ").concat(details),
        MeltType::Forbidden => String::from_str("Forbidden: ").concat(details),
        MeltType::NotFound => String::from_str(details).concat(" not found."),
        MeltType::MethodNotAllowed => String::from_str("Method ").concat(details).concat(" not allowed."),
        MeltType::TemplateRenderFailed => String::from_str("Unable to render page."),
        MeltType::SerializationFailed => String::from_str("Data processing error."),
        MeltType::DeserializationFailed => String::from_str("Data processing error."),
        MeltType::ConfigurationError => String::from_str("Application configuration error."),
        MeltType::EnvironmentError => String::from_str("Environment setup error."),
        MeltType::ExternalServiceError => String::from_str("External service error."),
        MeltType::Unknown => String::from_str("An unexpected error occurred."),
    }
}


/// An HTTP status code.
#[derive(Clone, Copy, Debug, PartialEq, Eq, Structural)]
pub struct Status {
    pub code: u16,
}

/// Two optional context lists hold the same entries.
pub open spec fn same_context(a: Option<Vec<ContextEntry>>, b: Option<Vec<ContextEntry>>) -> bool {
    match (a, b) {
        (Some(x), Some(y)) => x@ == y@,
        (None, None) => true,
        _ => false,
    }
}

/// One `key=value` pair of an error's context.
pub type ContextEntry = (String, String);

/// The views of context entries.
pub open spec fn entries_view(v: Seq<ContextEntry>) -> Seq<(Seq<char>, Seq<char>)> {
    v.map_values(|e: ContextEntry| (e.0@, e.1@))
}

/// No key occurs twice among the entries.
pub open spec fn keys_distinct(v: Seq<(Seq<char>, Seq<char>)>) -> bool {
    forall|i: int, j: int|
        0 <= i < v.len() && 0 <= j < v.len() && i != j ==> #[trigger] v[i].0 != #[trigger] v[j].0
}

/// Some entry has the key `k`.
pub open spec fn has_key(v: Seq<(Seq<char>, Seq<char>)>, k: Seq<char>) -> bool {
    exists|i: int| 0 <= i < v.len() && #[trigger] v[i].0 == k
}

/// The entries after setting `k` to `val`: an entry with that key gets the new
/// value in its place, otherwise the pair is appended.
pub open spec fn assoc_insert(
    v: Seq<(Seq<char>, Seq<char>)>,
    k: Seq<char>,
    val: Seq<char>,
) -> Seq<(Seq<char>, Seq<char>)> {
    if has_key(v, k) {
        v.update(choose|i: int| 0 <= i < v.len() && #[trigger] v[i].0 == k, (k, val))
    } else {
        v.push((k, val))
    }
}

/// The entries as a map from key to value.
pub open spec fn entries_map(v: Seq<(Seq<char>, Seq<char>)>) -> Map<Seq<char>, Seq<char>>
    decreases v.len(),
{
    if v.len() == 0 {
        Map::empty()
    } else {
        entries_map(v.drop_last()).insert(v.last().0, v.last().1)
    }
}

/// The ` | key=value` suffix that the entries add to a log line.
pub open spec fn context_suffix(v: Seq<(Seq<char>, Seq<char>)>) -> Seq<char>
    decreases v.len(),
{
    if v.len() == 0 {
        seq![]
    } else {
        context_suffix(v.drop_last()) + " | "@ + v.last().0 + "="@ + v.last().1
    }
}

/// An application error: its kind, details for the log, an optional message
/// for users that replaces the default one, and optional context pairs.
#[derive(Debug)]
pub struct MeltDown {
    pub melt_type: MeltType,
    pub details: String,
    pub user_message: Option<String>,
    pub context: Option<Vec<ContextEntry>>,
}

/// The result of converting an error into the API's JSON error body.
#[derive(Debug)]
pub struct ApiError {
    pub error: ApiErrorDetail,
}

/// The fields of an API error body.
#[derive(Debug)]
pub struct ApiErrorDetail {
    pub code: u16,
    pub melt_type: String,
    pub message: String,
    pub context: Option<Vec<ContextEntry>>,
}

impl MeltDown {
    /// The context entries, viewed; empty when there is no context.
    pub open spec fn context_entries(&self) -> Seq<(Seq<char>, Seq<char>)> {
        match self.context {
            Some(v) => entries_view(v@),
            None => seq![],
        }
    }

    /// Well-formed: no context key occurs twice.
    pub open spec fn wf(&self) -> bool {
        keys_distinct(self.context_entries())
    }

    /// The message users see.
    pub open spec fn user_message_view(&self) -> Seq<char> {
        match self.user_message {
            Some(m) => m@,
            None => default_user_message(self.melt_type, self.details@),
        }
    }

    /// The line written to the log.
    pub open spec fn log_line(&self) -> Seq<char> {
        "["@ + melt_type_name(self.melt_type) + "] "@ + self.details@ + context_suffix(
            self.context_entries(),
        )
    }

    /// The level an error is logged at: warnings for client errors (4xx),
    /// errors otherwise.
    pub open spec fn log_level_of(&self) -> LogLevel {
        let code = melt_type_status(self.melt_type);
        if 400 <= code && code <= 499 {
            LogLevel::Warning
        } else {
            LogLevel::Error
        }
    }

    /// A new error of the given kind, with no user message and no context.
    pub fn new(melt_type: MeltType, details: &str) -> (r: Self)
        ensures
            r.melt_type == melt_type,
            r.details@ == details@,
            r.user_message is None,
            r.context is None,
            r.wf(),
    {
        MeltDown { melt_type, details: String::from_str(details), user_message: None, context: None }
    }

    /// The error with its user message replaced.
    pub fn with_user_message(self, message: &str) -> (r: Self)
        requires
            self.wf(),
        ensures
            r.melt_type == self.melt_type,
            r.details == self.details,
            r.user_message matches Some(m) && m@ == message@,
            r.context == self.context,
            r.wf(),
    {
        MeltDown { user_message: Some(String::from_str(message)), ..self }
    }

    /// The error with the context pair `key=value` set: a present key gets the
    /// new value, a new key is added after the others.
    pub fn with_context(self, key: &str, value: &str) -> (r: Self)
        requires
            self.wf(),
        ensures
            r.melt_type == self.melt_type,
            r.details == self.details,
            r.user_message == self.user_message,
            r.context is Some,
            r.context_entries() == assoc_insert(self.context_entries(), key@, value@),
            r.wf(),
    {
        let mut entries: Vec<ContextEntry> = match self.context {
            Some(v) => v,
            None => Vec::new(),
        };
        assert(entries_view(entries@) == self.context_entries());
        set_entry(&mut entries, key, value);
        MeltDown {
            melt_type: self.melt_type,
            details: self.details,
            user_message: self.user_message,
            context: Some(entries),
        }
    }

    /// The message users see: the error's own message if it has one, otherwise
    /// the default message of its kind.
    pub fn user_message(&self) -> (r: String)
        ensures
            r@ == self.user_message_view(),
    {
        match &self.user_message {
            Some(m) => m.clone(),
            None => default_user_message_of(&self.melt_type, self.details.as_str()),
        }
    }

    /// The log line: `[Kind] details`, then ` | key=value` for each context pair.
    pub fn log_message(&self) -> (r: String)
        ensures
            r@ == self.log_line(),
    {
        let mut message = String::from_str("[");
        message.append(self.melt_type_str());
        message.append("] ");
        message.append(self.details.as_str());
        let ghost prefix = message@;
        match &self.context {
            Some(entries) => {
                let mut i: usize = 0;
                while i < entries.len()
                    invariant
                        i <= entries@.len(),
                        message@ == prefix + context_suffix(entries_view(entries@.subrange(0, i as int))),
                    decreases entries@.len() - i,
                {
                    message.append(" | ");
                    message.append(entries[i].0.as_str());
                    message.append("=");
                    message.append(entries[i].1.as_str());
                    proof {
                        let s = entries_view(entries@.subrange(0, i + 1));
                        assert(s.drop_last() =~= entries_view(entries@.subrange(0, i as int)));
                        assert(s.last() == (entries@[i as int].0@, entries@[i as int].1@));
                    }
                    i = i + 1;
                }
                assert(entries@.subrange(0, entries@.len() as int) =~= entries@);
            },
            None => {
                assert(context_suffix(seq![]) =~= Seq::<char>::empty());
                assert(message@ =~= prefix + context_suffix(seq![]));
            },
        }
        message
    }

    /// The name of the error's kind.
    pub fn melt_type_str(&self) -> (r: &'static str)
        ensures
            r@ == melt_type_name(self.melt_type),
    {
        melt_type_str_of(&self.melt_type)
    }

    /// The HTTP status that answers the error.
    pub fn status_code(&self) -> (r: Status)
        ensures
            r.code == melt_type_status(self.melt_type),
    {
        Status { code: status_of(&self.melt_type) }
    }

    /// What the error writes to the log: its level (warning for 4xx statuses,
    /// error otherwise) and its log line.
    pub fn log(&self) -> (r: (LogLevel, String))
        ensures
            r.0 == self.log_level_of(),
            r.1@ == self.log_line(),
    {
        let code = self.status_code().code;
        let level = if 400 <= code && code <= 499 {
            LogLevel::Warning
        } else {
            LogLevel::Error
        };
        (level, self.log_message())
    }

    /// An error of unknown kind carrying a plain message.
    pub fn from_message(message: &str) -> (r: Self)
        ensures
            r.melt_type == MeltType::Unknown,
            r.details@ == message@,
            r.user_message is None,
            r.context is None,
    {
        Self::new(MeltType::Unknown, message)
    }

    /// A database connection error.
    pub fn db_connection(details: &str) -> (r: Self)
        ensures
            r == (MeltDown { melt_type: MeltType::DatabaseConnection, ..r }),
            r.details@ == details@,
            r.user_message is None && r.context is None,
    {
        Self::new(MeltType::DatabaseConnection, details)
    }

    /// A missing record, named by `entity`.
    pub fn record_not_found(entity: &str) -> (r: Self)
        ensures
            r.melt_type == MeltType::RecordNotFound,
            r.details@ == entity@,
            r.user_message is None && r.context is None,
    {
        Self::new(MeltType::RecordNotFound, entity)
    }

    /// A value that must be unique already exists; `field` names it.
    pub fn unique_violation(field: &str) -> (r: Self)
        ensures
            r.melt_type == MeltType::UniqueViolation,
            r.details@ == field@,
            r.user_message is None && r.context is None,
    {
        Self::new(MeltType::UniqueViolation, field)
    }

    /// Wrong username or password.
    pub fn invalid_credentials() -> (r: Self)
        ensures
            r.melt_type == MeltType::InvalidCredentials,
            r.details@ == "Invalid username or password"@,
            r.user_message is None && r.context is None,
    {
        Self::new(MeltType::InvalidCredentials, "Invalid username or password")
    }

    /// An expired token.
    pub fn expired_token() -> (r: Self)
        ensures
            r.melt_type == MeltType::ExpiredToken,
            r.details@ == "Token has expired"@,
            r.user_message is None && r.context is None,
    {
        Self::new(MeltType::ExpiredToken, "Token has expired")
    }

    /// An invalid token.
    pub fn invalid_token(details: &str) -> (r: Self)
        ensures
            r.melt_type == MeltType::InvalidToken,
            r.details@ == details@,
            r.user_message is None && r.context is None,
    {
        Self::new(MeltType::InvalidToken, details)
    }

    /// A request without a token.
    pub fn missing_token() -> (r: Self)
        ensures
            r.melt_type == MeltType::MissingToken,
            r.details@ == "Authentication token is missing"@,
            r.user_message is None && r.context is None,
    {
        Self::new(MeltType::MissingToken, "Authentication token is missing")
    }

    /// The user may not perform the action.
    pub fn insufficient_permissions() -> (r: Self)
        ensures
            r.melt_type == MeltType::InsufficientPermissions,
            r.details@ == "Insufficient permissions for this action"@,
            r.user_message is None && r.context is None,
    {
        Self::new(MeltType::InsufficientPermissions, "Insufficient permissions for this action")
    }

    /// Input failed validation.
    pub fn validation_failed(details: &str) -> (r: Self)
        ensures
            r.melt_type == MeltType::ValidationFailed,
            r.details@ == details@,
            r.user_message is None && r.context is None,
    {
        Self::new(MeltType::ValidationFailed, details)
    }

    /// Input is malformed.
    pub fn invalid_input(details: &str) -> (r: Self)
        ensures
            r.melt_type == MeltType::InvalidInput,
            r.details@ == details@,
            r.user_message is None && r.context is None,
    {
        Self::new(MeltType::InvalidInput, details)
    }

    /// A required field is missing; `field` names it.
    pub fn missing_field(field: &str) -> (r: Self)
        ensures
            r.melt_type == MeltType::MissingField,
            r.details@ == field@,
            r.user_message is None && r.context is None,
    {
        Self::new(MeltType::MissingField, field)
    }
}

impl ApiError {
    /// The API error body of an error: its status code, kind name, user
    /// message and context.
    pub fn from_meltdown(error: &MeltDown) -> (r: ApiError)
        ensures
            r.error.code == melt_type_status(error.melt_type),
            r.error.melt_type@ == melt_type_name(error.melt_type),
            r.error.message@ == error.user_message_view(),
            same_context(r.error.context, error.context),
    {
        ApiError {
            error: ApiErrorDetail {
                code: error.status_code().code,
                melt_type: String::from_str(error.melt_type_str()),
                message: error.user_message(),
                context: clone_context(&error.context),
            },
        }
    }
}

/// A copy of an optional list of context entries.
pub fn clone_context(c: &Option<Vec<ContextEntry>>) -> (r: Option<Vec<ContextEntry>>)
    ensures
        same_context(r, *c),
{
    match c {
        None => None,
        Some(v) => {
            let mut out: Vec<ContextEntry> = Vec::new();
            let mut i: usize = 0;
            while i < v.len()
                invariant
                    i <= v@.len(),
                    out@ == v@.subrange(0, i as int),
                decreases v@.len() - i,
            {
                let e = (v[i].0.clone(), v[i].1.clone());
                out.push(e);
                i = i + 1;
                assert(out@ =~= v@.subrange(0, i as int));
            }
            assert(out@ =~= v@);
            Some(out)
        },
    }
}

/// Sets `key` to `value` among the entries.
fn set_entry(entries: &mut Vec<ContextEntry>, key: &str, value: &str)
    requires
        keys_distinct(entries_view(old(entries)@)),
    ensures
        entries_view(final(entries)@) == assoc_insert(entries_view(old(entries)@), key@, value@),
        keys_distinct(entries_view(final(entries)@)),
{
    let ghost v = entries_view(entries@);
    let mut i: usize = 0;
    while i < entries.len()
        invariant
            i <= entries@.len(),
            v == entries_view(entries@),
            v == entries_view(old(entries)@),
            keys_distinct(v),
            forall|j: int| 0 <= j < i ==> v[j].0 != key@,
        decreases entries@.len() - i,
    {
        if str_eq(entries[i].0.as_str(), key) {
            assert(v[i as int].0 == key@);
            assert(has_key(v, key@));
            let ghost c = choose|j: int| 0 <= j < v.len() && #[trigger] v[j].0 == key@;
            assert(c == i);
            entries.set(i, (String::from_str(key), String::from_str(value)));
            assert(entries_view(entries@) =~= v.update(i as int, (key@, value@)));
            assert(assoc_insert(v, key@, value@) == v.update(c, (key@, value@)));
            assert(keys_distinct(entries_view(entries@))) by {
                let w = entries_view(entries@);
                assert forall|a: int, b: int|
                    0 <= a < w.len() && 0 <= b < w.len() && a != b implies #[trigger] w[a].0
                    != #[trigger] w[b].0 by {
                    if a != i && b != i {
                        assert(w[a] == v[a] && w[b] == v[b]);
                    } else if a == i {
                        assert(w[b] == v[b]);
                        assert(v[a].0 == key@);
                    } else {
                        assert(w[a] == v[a]);
                        assert(v[b].0 == key@);
                    }
                }
            }
            return;
        }
        i = i + 1;
    }
    assert(!has_key(v, key@));
    entries.push((String::from_str(key), String::from_str(value)));
    assert(entries_view(entries@) =~= v.push((key@, value@)));
}


/// The kinds of database error that the mapping to application errors tells apart.
#[derive(Clone, Copy, Debug, PartialEq, Eq, Structural)]
pub enum DatabaseErrorKind {
    UniqueViolation,
    ForeignKeyViolation,
    CheckViolation,
    NotNullViolation,
    Other,
}

/// A database failure, as plain values: what the database layer reports.
#[derive(Debug)]
pub enum DatabaseFailure {
    /// An error raised by the database itself, with the names it gives.
    Database {
        kind: DatabaseErrorKind,
        constraint: Option<String>,
        column: Option<String>,
        table: Option<String>,
        debug: String,
    },
    NotFound,
    RollbackTransaction,
    AlreadyInTransaction,
    /// The text of a query-building error.
    QueryBuilder(String),
    /// The text of a result-decoding error.
    Deserialization(String),
    /// The text of a value-encoding error.
    Serialization(String),
    /// The debug text of any other failure.
    Other(String),
}

/// The kinds of token error that the mapping to application errors tells apart.
#[derive(Clone, Copy, Debug, PartialEq, Eq, Structural)]
pub enum JwtErrorKind {
    ExpiredSignature,
    InvalidToken,
    InvalidSignature,
    InvalidKeyFormat,
    Base64,
    Json,
    Utf8,
    Other,
}

/// The kinds of I/O error that the mapping to application errors tells apart.
#[derive(Clone, Copy, Debug, PartialEq, Eq, Structural)]
pub enum IoErrorKind {
    NotFound,
    PermissionDenied,
    Other,
}

/// The field that a unique-constraint name refers to.
pub open spec fn unique_field_for(constraint: Option<Seq<char>>) -> Seq<char> {
    match constraint {
        Some(c) => if contains(c, "username"@) || contains(c, "users_username_key"@) {
            "Username"@
        } else if contains(c, "email"@) || contains(c, "users_email_key"@) {
            "Email"@
        } else if contains(c, "api_key"@) || contains(c, "api_keys_key_key"@) {
            "API Key"@
        } else {
            "This value"@
        },
        None => "This value"@,
    }
}

/// The context entry that names a constraint, when there is one.
pub open spec fn constraint_context(constraint: Option<Seq<char>>) -> Seq<(Seq<char>, Seq<char>)> {
    match constraint {
        Some(c) => seq![("constraint"@, c)],
        None => seq![],
    }
}

/// The application error that a database failure becomes: its kind, details
/// and context entries.
pub open spec fn database_failure_meaning(f: DatabaseFailure) -> (
    MeltType,
    Seq<char>,
    Seq<(Seq<char>, Seq<char>)>,
) {
    match f {
        DatabaseFailure::Database { kind, constraint, column, table, debug } => match kind {
            DatabaseErrorKind::UniqueViolation => (
                MeltType::UniqueViolation,
                unique_field_for(opt_string_view(constraint)),
                constraint_context(opt_string_view(constraint)),
            ),
            DatabaseErrorKind::ForeignKeyViolation => (
                MeltType::ForeignKeyViolation,
                "Related record not found"@,
                constraint_context(opt_string_view(constraint)),
            ),
            DatabaseErrorKind::CheckViolation => (
                MeltType::CheckViolation,
                "Check constraint failed"@,
                constraint_context(opt_string_view(constraint)),
            ),
            DatabaseErrorKind::NotNullViolation => (
                MeltType::NotNullViolation,
                match column {
                    Some(c) => c@,
                    None => "Unknown field"@,
                },
                match table {
                    Some(t) => seq![("table"@, t@)],
                    None => seq![],
                },
            ),
            DatabaseErrorKind::Other => (MeltType::DatabaseConnection, "Database error: "@ + debug@, seq![]),
        },
        DatabaseFailure::NotFound => (MeltType::RecordNotFound, "Record"@, seq![]),
        DatabaseFailure::RollbackTransaction => (
            MeltType::DatabaseConnection,
            "Transaction rolled back"@,
            seq![],
        ),
        DatabaseFailure::AlreadyInTransaction => (
            MeltType::DatabaseConnection,
            "Already in transaction"@,
            seq![],
        ),
        DatabaseFailure::QueryBuilder(e) => (
            MeltType::DatabaseConnection,
            "Query builder error: "@ + e@,
            seq![],
        ),
        DatabaseFailure::Deserialization(e) => (
            MeltType::DeserializationFailed,
            "Failed to deserialize result: "@ + e@,
            seq![],
        ),
        DatabaseFailure::Serialization(e) => (
            MeltType::SerializationFailed,
            "Failed to serialize data: "@ + e@,
            seq![],
        ),
        DatabaseFailure::Other(d) => (MeltType::DatabaseConnection, "Database error: "@ + d@, seq![]),
    }
}

/// The kind and detail prefix that a token error becomes.
pub open spec fn jwt_error_meaning(kind: JwtErrorKind) -> (MeltType, Seq<char>) {
    match kind {
        JwtErrorKind::ExpiredSignature => (MeltType::ExpiredToken, "JWT token expired: "@),
        JwtErrorKind::InvalidToken => (MeltType::InvalidToken, "Invalid JWT token: "@),
        JwtErrorKind::InvalidSignature => (MeltType::InvalidToken, "Invalid JWT signature: "@),
        JwtErrorKind::InvalidKeyFormat => (MeltType::ConfigurationError, "Invalid JWT key format: "@),
        JwtErrorKind::Base64 => (MeltType::ConfigurationError, "JWT Base64 error: "@),
        JwtErrorKind::Json => (MeltType::SerializationFailed, "JWT serialization error: "@),
        JwtErrorKind::Utf8 => (MeltType::SerializationFailed, "JWT UTF-8 encoding error: "@),
        JwtErrorKind::Other => (MeltType::ExternalServiceError, "JWT operation failed: "@),
    }
}

/// The kind that an I/O error becomes.
pub open spec fn io_error_type(kind: IoErrorKind) -> MeltType {
    match kind {
        IoErrorKind::NotFound => MeltType::FileNotFound,
        IoErrorKind::PermissionDenied => MeltType::FilePermissionDenied,
        IoErrorKind::Other => MeltType::FileOperationFailed,
    }
}

impl MeltDown {
    /// The application error for a database failure: constraint violations
    /// name the offending field or constraint, a missing row is a missing
    /// record, everything else is a connection-level database error.
    pub fn from_database_failure(failure: &DatabaseFailure) -> (r: Self)
        ensures
            r.melt_type == database_failure_meaning(*failure).0,
            r.details@ == database_failure_meaning(*failure).1,
            r.context_entries() == database_failure_meaning(*failure).2,
            r.user_message is None,
            r.wf(),
    {
        match failure {
            DatabaseFailure::Database { kind, constraint, column, table, debug } => {
                match kind {
                    DatabaseErrorKind::UniqueViolation => {
                        let field = unique_field(constraint);
                        let error = MeltDown::new(MeltType::UniqueViolation, field);
                        with_optional_context(error, "constraint", constraint)
                    },
                    DatabaseErrorKind::ForeignKeyViolation => {
                        let error = MeltDown::new(MeltType::ForeignKeyViolation, "Related record not found");
                        with_optional_context(error, "constraint", constraint)
                    },
                    DatabaseErrorKind::CheckViolation => {
                        let error = MeltDown::new(MeltType::CheckViolation, "Check constraint failed");
                        with_optional_context(error, "constraint", constraint)
                    },
                    DatabaseErrorKind::NotNullViolation => {
                        let error = match column {
                            Some(c) => MeltDown::new(MeltType::NotNullViolation, c.as_str()),
                            None => MeltDown::new(MeltType::NotNullViolation, "Unknown field"),
                        };
                        let r = with_optional_context(error, "table", table);
                        r
                    },
                    DatabaseErrorKind::Other => {
                        let d = String::from_str("Database error: ").concat(debug.as_str());
                        MeltDown::new(MeltType::DatabaseConnection, d.as_str())
                    },
                }
            },
            DatabaseFailure::NotFound => MeltDown::new(MeltType::RecordNotFound, "Record"),
            DatabaseFailure::RollbackTransaction => MeltDown::new(
                MeltType::DatabaseConnection,
                "Transaction rolled back",
            ),
            DatabaseFailure::AlreadyInTransaction => MeltDown::new(
                MeltType::DatabaseConnection,
                "Already in transaction",
            ),
            DatabaseFailure::QueryBuilder(e) => {
                let d = String::from_str("Query builder error: ").concat(e.as_str());
                MeltDown::new(MeltType::DatabaseConnection, d.as_str())
            },
            DatabaseFailure::Deserialization(e) => {
                let d = String::from_str("Failed to deserialize result: ").concat(e.as_str());
                MeltDown::new(MeltType::DeserializationFailed, d.as_str())
            },
            DatabaseFailure::Serialization(e) => {
                let d = String::from_str("Failed to serialize data: ").concat(e.as_str());
                MeltDown::new(MeltType::SerializationFailed, d.as_str())
            },
            DatabaseFailure::Other(debug) => {
                let d = String::from_str("Database error: ").concat(debug.as_str());
                MeltDown::new(MeltType::DatabaseConnection, d.as_str())
            },
        }
    }

    /// The application error for a token error of the given kind and text.
    pub fn from_jwt_error(kind: JwtErrorKind, text: &str) -> (r: Self)
        ensures
            r.melt_type == jwt_error_meaning(kind).0,
            r.details@ == jwt_error_meaning(kind).1 + text@,
            r.user_message is None && r.context is None,
    {
        let (t, prefix): (MeltType, &str) = match kind {
            JwtErrorKind::ExpiredSignature => (MeltType::ExpiredToken, "JWT token expired: "),
            JwtErrorKind::InvalidToken => (MeltType::InvalidToken, "Invalid JWT token: "),
            JwtErrorKind::InvalidSignature => (MeltType::InvalidToken, "Invalid JWT signature: "),
            JwtErrorKind::InvalidKeyFormat => (MeltType::ConfigurationError, "Invalid JWT key format: "),
            JwtErrorKind::Base64 => (MeltType::ConfigurationError, "JWT Base64 error: "),
            JwtErrorKind::Json => (MeltType::SerializationFailed, "JWT serialization error: "),
            JwtErrorKind::Utf8 => (MeltType::SerializationFailed, "JWT UTF-8 encoding error: "),
            JwtErrorKind::Other => (MeltType::ExternalServiceError, "JWT operation failed: "),
        };
        let d = String::from_str(prefix).concat(text);
        MeltDown::new(t, d.as_str())
    }

    /// The application error for an I/O error of the given kind and text.
    pub fn from_io_error(kind: IoErrorKind, text: &str) -> (r: Self)
        ensures
            r.melt_type == io_error_type(kind),
            r.details@ == text@,
            r.user_message is None && r.context is None,
    {
        let t = match kind {
            IoErrorKind::NotFound => MeltType::FileNotFound,
            IoErrorKind::PermissionDenied => MeltType::FilePermissionDenied,
            IoErrorKind::Other => MeltType::FileOperationFailed,
        };
        MeltDown::new(t, text)
    }

    /// The application error for a password-hashing failure with the given text.
    pub fn from_password_hash_error(text: &str) -> (r: Self)
        ensures
            r.melt_type == MeltType::ConfigurationError,
            r.details@ == "Password hashing error: "@ + text@,
            r.user_message is None && r.context is None,
    {
        let d = String::from_str("Password hashing error: ").concat(text);
        MeltDown::new(MeltType::ConfigurationError, d.as_str())
    }

    /// The application error for an environment-variable failure with the given text.
    pub fn from_env_error(text: &str) -> (r: Self)
        ensures
            r.melt_type == MeltType::EnvironmentError,
            r.details@ == "Environment variable error: "@ + text@,
            r.user_message is None && r.context is None,
    {
        let d = String::from_str("Environment variable error: ").concat(text);
        MeltDown::new(MeltType::EnvironmentError, d.as_str())
    }
}

/// The field that a unique-constraint name refers to.
fn unique_field(constraint: &Option<String>) -> (r: &'static str)
    ensures
        r@ == unique_field_for(opt_string_view(*constraint)),
{
    match constraint {
        Some(c) => {
            let s = c.as_str();
            if str_contains(s, "username") || str_contains(s, "users_username_key") {
                "Username"
            } else if str_contains(s, "email") || str_contains(s, "users_email_key") {
                "Email"
            } else if str_contains(s, "api_key") || str_contains(s, "api_keys_key_key") {
                "API Key"
            } else {
                "This value"
            }
        },
        None => "This value",
    }
}

/// The error with `key` set to the optional value, when there is one.
fn with_optional_context(error: MeltDown, key: &str, value: &Option<String>) -> (r: MeltDown)
    requires
        error.context is None,
    ensures
        r.melt_type == error.melt_type,
        r.details == error.details,
        r.user_message == error.user_message,
        r.context_entries() == match opt_string_view(*value) {
            Some(v) => seq![(key@, v)],
            None => Seq::<(Seq<char>, Seq<char>)>::empty(),
        },
        r.wf(),
{
    match value {
        Some(v) => {
            let r = error.with_context(key, v.as_str());
            assert(!has_key(Seq::<(Seq<char>, Seq<char>)>::empty(), key@));
            assert(Seq::<(Seq<char>, Seq<char>)>::empty().push((key@, v@)) =~= seq![(key@, v@)]);
            r
        },
        None => error,
    }
}

// ---------------------------------------------------------------------------
// Laws
// ---------------------------------------------------------------------------

/// What is missing answers 404: a record, a file or a route not found, and
/// nothing else.
pub proof fn law_not_found_kinds_answer_404(t: MeltType)
    ensures
        melt_type_status(t) == 404 <==> (t == MeltType::RecordNotFound || t == MeltType::FileNotFound || t
            == MeltType::NotFound),
{
}

/// Who is not authenticated gets 401 (bad credentials, a bad, expired or
/// missing token, unauthorized); who lacks permission gets 403; a request
/// that clashes with stored data gets 409.
pub proof fn law_access_and_conflict_statuses(t: MeltType)
    ensures
        melt_type_status(t) == 401 <==> (t == MeltType::InvalidCredentials || t == MeltType::ExpiredToken || t
            == MeltType::InvalidToken || t == MeltType::MissingToken || t == MeltType::Unauthorized),
        melt_type_status(t) == 403 <==> (t == MeltType::InsufficientPermissions || t
            == MeltType::FilePermissionDenied || t == MeltType::Forbidden),
        melt_type_status(t) == 409 <==> (t == MeltType::UniqueViolation || t == MeltType::ForeignKeyViolation),
{
}

/// Requests the application cannot take as given answer 400 (a constraint
/// the data breaks, invalid or missing input, a bad request); a wrong method
/// answers 405.
pub proof fn law_bad_request_statuses(t: MeltType)
    ensures
        melt_type_status(t) == 400 <==> (t == MeltType::CheckViolation || t == MeltType::NotNullViolation || t
            == MeltType::ValidationFailed || t == MeltType::InvalidInput || t == MeltType::MissingField || t
            == MeltType::BadRequest),
        melt_type_status(t) == 405 <==> t == MeltType::MethodNotAllowed,
{
}

/// Failures on the server's side answer 5xx: 503 for an outside service, 500
/// for the database, files, templates, (de)serialisation, configuration, the
/// environment and unknown errors; every other kind answers 4xx.
pub proof fn law_server_failures_answer_5xx(t: MeltType)
    ensures
        melt_type_status(t) == 503 <==> t == MeltType::ExternalServiceError,
        melt_type_status(t) == 500 <==> (t == MeltType::DatabaseConnection || t == MeltType::DatabaseError || t
            == MeltType::FileOperationFailed || t == MeltType::TemplateRenderFailed || t
            == MeltType::SerializationFailed || t == MeltType::DeserializationFailed || t
            == MeltType::ConfigurationError || t == MeltType::EnvironmentError || t == MeltType::Unknown),
        400 <= melt_type_status(t) <= 599,
{
}

} // verus!
