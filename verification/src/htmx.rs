//! HTMX responses: an HTML fragment with a status, a message kind and the
//! `HX-*` headers that tell the client how to show it.
use vstd::prelude::*;

use crate::meltdown::{entries_view, melt_type_status, MeltDown, Status};

verus! {

/// Builds successful HTMX responses.
pub struct HtmxSuccess;

/// Builds failed HTMX responses.
pub struct HtmxError;

/// Builds warning HTMX responses.
pub struct HtmxWarning;

/// Builds informational HTMX responses.
pub struct HtmxInfo;

/// The kind of message a response carries.
#[derive(Clone, Copy, Debug, PartialEq, Eq, Structural)]
pub enum MessageType {
    Success,
    Error,
    Warning,
    Info,
}

/// An HTMX response: status, HTML body, message kind and extra headers, in
/// the order they are sent.
#[derive(Debug)]
pub struct Htmx {
    status: Status,
    html: String,
    message_type: MessageType,
    headers: Vec<(String, String)>,
}

/// A response either way: the `Err` side is the failure answer.
pub type HtmxResult = Result<Htmx, Htmx>;

/// How a response is shown: as content or as a notification.
#[derive(Clone, Copy, Debug, PartialEq, Eq, Structural)]
pub enum Presentation {
    Content,
    Notification,
}

/// The value of `HX-Response-Type` for a presentation.
pub open spec fn presentation_name(p: Presentation) -> Seq<char> {
    match p {
        Presentation::Content => "content"@,
        Presentation::Notification => "notification"@,
    }
}

/// The value of `HX-Message-Type` for a message kind.
pub open spec fn message_type_name(t: MessageType) -> Seq<char> {
    match t {
        MessageType::Success => "success"@,
        MessageType::Error => "error"@,
        MessageType::Warning => "warning"@,
        MessageType::Info => "info"@,
    }
}

/// The headers every response starts with.
pub open spec fn initial_headers(p: Presentation, t: MessageType) -> Seq<(Seq<char>, Seq<char>)> {
    seq![("HX-Response-Type"@, presentation_name(p)), ("HX-Message-Type"@, message_type_name(t))]
}

impl Htmx {
    /// The status, viewed.
    pub closed spec fn status_view(&self) -> Status {
        self.status
    }

    /// The body, viewed.
    pub closed spec fn html_view(&self) -> Seq<char> {
        self.html@
    }

    /// The message kind, viewed.
    pub closed spec fn message_type_view(&self) -> MessageType {
        self.message_type
    }

    /// The headers, viewed, in order.
    pub closed spec fn headers_view(&self) -> Seq<(Seq<char>, Seq<char>)> {
        entries_view(self.headers@)
    }

    /// The response as it is first made.
    pub open spec fn made(
        &self,
        status: Status,
        html: Seq<char>,
        p: Presentation,
        t: MessageType,
    ) -> bool {
        &&& self.status_view() == status
        &&& self.html_view() == html
        &&& self.message_type_view() == t
        &&& self.headers_view() == initial_headers(p, t)
    }

    /// The builder of successful responses.
    pub fn success() -> HtmxSuccess {
        HtmxSuccess
    }

    /// The builder of failed responses.
    pub fn error() -> HtmxError {
        HtmxError
    }

    /// The builder of warning responses.
    pub fn warning() -> HtmxWarning {
        HtmxWarning
    }

    /// The builder of informational responses.
    pub fn info() -> HtmxInfo {
        HtmxInfo
    }

    /// The response with the header `name: value` added after the others.
    pub fn with_header(self, name: &str, value: &str) -> (r: Self)
        ensures
            r.status_view() == self.status_view(),
            r.html_view() == self.html_view(),
            r.message_type_view() == self.message_type_view(),
            r.headers_view() == self.headers_view().push((name@, value@)),
    {
        let mut headers = self.headers;
        headers.push((String::from_str(name), String::from_str(value)));
        proof {
            assert(entries_view(headers@) =~= entries_view(self.headers@).push((name@, value@)));
        }
        Htmx { status: self.status, html: self.html, message_type: self.message_type, headers }
    }

    /// The response with an `HX-Redirect` to `url`.
    pub fn with_redirect(self, url: &str) -> (r: Self)
        ensures
            r.status_view() == self.status_view(),
            r.html_view() == self.html_view(),
            r.message_type_view() == self.message_type_view(),
            r.headers_view() == self.headers_view().push(("HX-Redirect"@, url@)),
    {
        self.with_header("HX-Redirect", url)
    }

    /// The response with an `HX-Location` of `url`.
    pub fn with_location(self, url: &str) -> (r: Self)
        ensures
            r.status_view() == self.status_view(),
            r.html_view() == self.html_view(),
            r.message_type_view() == self.message_type_view(),
            r.headers_view() == self.headers_view().push(("HX-Location"@, url@)),
    {
        self.with_header("HX-Location", url)
    }

    /// The status of the response.
    pub fn status(&self) -> (r: Status)
        ensures
            r == self.status_view(),
    {
        self.status
    }

    /// The HTML body of the response.
    pub fn html(&self) -> (r: &str)
        ensures
            r@ == self.html_view(),
    {
        self.html.as_str()
    }

    /// The message kind of the response.
    pub fn message_type(&self) -> (r: MessageType)
        ensures
            r == self.message_type_view(),
    {
        self.message_type
    }

    /// The headers of the response, in order.
    pub fn headers(&self) -> (r: &Vec<(String, String)>)
        ensures
            entries_view(r@) == self.headers_view(),
    {
        &self.headers
    }
}

/// A response with the two initial headers.
fn make(status: Status, html: &str, p: Presentation, t: MessageType) -> (r: Htmx)
    ensures
        r.made(status, html@, p, t),
{
    let kind = match p {
        Presentation::Content => "content",
        Presentation::Notification => "notification",
    };
    let name = match t {
        MessageType::Success => "success",
        MessageType::Error => "error",
        MessageType::Warning => "warning",
        MessageType::Info => "info",
    };
    let mut headers: Vec<(String, String)> = Vec::new();
    headers.push((String::from_str("HX-Response-Type"), String::from_str(kind)));
    headers.push((String::from_str("HX-Message-Type"), String::from_str(name)));
    proof {
        reveal_strlit("content");
        reveal_strlit("notification");
        reveal_strlit("success");
        reveal_strlit("error");
        reveal_strlit("warning");
        reveal_strlit("info");
        assert(entries_view(headers@) =~= initial_headers(p, t));
    }
    Htmx { status, html: String::from_str(html), message_type: t, headers }
}

/// The OK status.
pub open spec fn ok_status() -> Status {
    Status { code: 200 }
}

impl HtmxSuccess {
    /// A successful response showing `content`.
    pub fn with_content(content: &str) -> (r: Htmx)
        ensures
            r.made(ok_status(), content@, Presentation::Content, MessageType::Success),
    {
        make(Status { code: 200 }, content, Presentation::Content, MessageType::Success)
    }

    /// A successful response notifying `message`.
    pub fn with_notification(message: &str) -> (r: Htmx)
        ensures
            r.made(ok_status(), message@, Presentation::Notification, MessageType::Success),
    {
        make(Status { code: 200 }, message, Presentation::Notification, MessageType::Success)
    }
}

impl HtmxError {
    /// A failed response with `status` showing `content`.
    pub fn with_content(status: Status, content: &str) -> (r: Htmx)
        ensures
            r.made(status, content@, Presentation::Content, MessageType::Error),
    {
        make(status, content, Presentation::Content, MessageType::Error)
    }

    /// A failed response with `status` notifying `message`.
    pub fn with_notification(status: Status, message: &str) -> (r: Htmx)
        ensures
            r.made(status, message@, Presentation::Notification, MessageType::Error),
    {
        make(status, message, Presentation::Notification, MessageType::Error)
    }
}

impl HtmxWarning {
    /// A warning response showing `content`.
    pub fn with_content(content: &str) -> (r: Htmx)
        ensures
            r.made(ok_status(), content@, Presentation::Content, MessageType::Warning),
    {
        make(Status { code: 200 }, content, Presentation::Content, MessageType::Warning)
    }

    /// A warning response notifying `message`.
    pub fn with_notification(message: &str) -> (r: Htmx)
        ensures
            r.made(ok_status(), message@, Presentation::Notification, MessageType::Warning),
    {
        make(Status { code: 200 }, message, Presentation::Notification, MessageType::Warning)
    }
}

impl HtmxInfo {
    /// An informational response showing `content`.
    pub fn with_content(content: &str) -> (r: Htmx)
        ensures
            r.made(ok_status(), content@, Presentation::Content, MessageType::Info),
    {
        make(Status { code: 200 }, content, Presentation::Content, MessageType::Info)
    }

    /// An informational response notifying `message`.
    pub fn with_notification(message: &str) -> (r: Htmx)
        ensures
            r.made(ok_status(), message@, Presentation::Notification, MessageType::Info),
    {
        make(Status { code: 200 }, message, Presentation::Notification, MessageType::Info)
    }
}

/// Turns a result into an HTMX answer.
pub trait IntoHtmx<T> {
    /// The answer for the result.
    fn into_htmx(self) -> HtmxResult;
}

/// The internal server error status.
pub open spec fn internal_error_status() -> Status {
    Status { code: 500 }
}

impl<T> IntoHtmx<T> for Result<T, MeltDown> {
    /// A success cannot be shown without content, so it answers an internal
    /// error notification; an error is notified with its status and its user
    /// message.
    fn into_htmx(self) -> (r: HtmxResult)
        ensures
            match self {
                Ok(_) => r matches Err(h) && h.made(
                    internal_error_status(),
                    "Cannot convert success value to HTMX. Use map() to provide HTML content."@,
                    Presentation::Notification,
                    MessageType::Error,
                ),
                Err(e) => r matches Err(h) && h.made(
                    Status { code: melt_type_status(e.melt_type) },
                    e.user_message_view(),
                    Presentation::Notification,
                    MessageType::Error,
                ),
            },
    {
        match self {
            Ok(_) => Err(
                HtmxError::with_notification(
                    Status { code: 500 },
                    "Cannot convert success value to HTMX. Use map() to provide HTML content.",
                ),
            ),
            Err(error) => {
                let message = error.user_message();
                Err(HtmxError::with_notification(error.status_code(), message.as_str()))
            },
        }
    }
}

// ---------------------------------------------------------------------------
// Laws
// ---------------------------------------------------------------------------

/// The `HX-Message-Type` header names the response's own kind: `error` for
/// an error and only for it, `success` for a success and only for it, and so
/// for warnings and information; no two kinds share a name.
pub proof fn law_message_type_header_names_its_kind(t: MessageType, u: MessageType)
    ensures
        message_type_name(t) == message_type_name(u) ==> t == u,
        message_type_name(t) == "error"@ <==> t == MessageType::Error,
        message_type_name(t) == "success"@ <==> t == MessageType::Success,
        message_type_name(t) == "warning"@ <==> t == MessageType::Warning,
        message_type_name(t) == "info"@ <==> t == MessageType::Info,
        initial_headers(Presentation::Content, t)[1] == ("HX-Message-Type"@, message_type_name(t)),
        initial_headers(Presentation::Notification, t)[1] == ("HX-Message-Type"@, message_type_name(t)),
{
    reveal_strlit("success");
    reveal_strlit("error");
    reveal_strlit("warning");
    reveal_strlit("info");
    assert("success"@[0] != "error"@[0]);
    assert("success"@[0] != "warning"@[0]);
    assert("success"@[0] != "info"@[0]);
    assert("error"@[0] != "warning"@[0]);
    assert("error"@[0] != "info"@[0]);
    assert("warning"@[0] != "info"@[0]);
}

/// The `HX-Response-Type` header names how the response is shown: `content`
/// for content and `notification` for a notification, never the other.
pub proof fn law_response_type_header_names_its_presentation(p: Presentation, t: MessageType)
    ensures
        presentation_name(p) == "content"@ <==> p == Presentation::Content,
        presentation_name(p) == "notification"@ <==> p == Presentation::Notification,
        initial_headers(p, t)[0] == ("HX-Response-Type"@, presentation_name(p)),
{
    reveal_strlit("content");
    reveal_strlit("notification");
    assert("content"@[0] != "notification"@[0]);
}

} // verus!
