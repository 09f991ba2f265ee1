//! The HTMX fragments of the admin and user partial routes.
use vstd::prelude::*;

use crate::htmx::{
    ok_status, HtmxError, HtmxInfo, HtmxResult, HtmxSuccess, HtmxWarning,
    MessageType, Presentation,
};
use crate::meltdown::{melt_type_status, MeltDown, Status};

verus! {

/// The answer to creating the demonstration admin: a success notification, or
/// the error's status and user message.
pub fn create_duplicate_admin(result: Result<(), MeltDown>) -> (r: HtmxResult)
    ensures
        match result {
            Ok(()) => r matches Ok(h) && h.made(
                ok_status(),
                "Admin created successfully"@,
                Presentation::Notification,
                MessageType::Success,
            ),
            Err(e) => r matches Err(h) && h.made(
                Status { code: melt_type_status(e.melt_type) },
                e.user_message_view(),
                Presentation::Notification,
                MessageType::Error,
            ),
        },
{
    match result {
        Ok(()) => Ok(HtmxSuccess::with_notification("Admin created successfully")),
        Err(error) => {
            let m = error.user_message();
            Err(HtmxError::with_notification(error.status_code(), m.as_str()))
        },
    }
}

/// A test notification for a tenant.
pub fn test_notification(tenant: &str) -> (r: HtmxResult)
    ensures
        r matches Ok(h) && h.made(
            ok_status(),
            "This is a test notification message for tenant: "@ + tenant@
                + " that will be displayed in a notification div"@,
            Presentation::Notification,
            MessageType::Success,
        ),
{
    let m = String::from_str("This is a test notification message for tenant: ").concat(tenant).concat(
        " that will be displayed in a notification div",
    );
    Ok(HtmxSuccess::with_notification(m.as_str()))
}

/// Test content for a tenant.
pub fn test_content(tenant: &str) -> (r: HtmxResult)
    ensures
        r matches Ok(h) && h.made(
            ok_status(),
            "<div class='card-panel teal lighten-2 white-text'><i class='material-icons left'>check_circle</i>This is rendered HTML content for tenant: "@
                + tenant@ + "</div>"@,
            Presentation::Content,
            MessageType::Success,
        ),
{
    let m = String::from_str(
        "<div class='card-panel teal lighten-2 white-text'><i class='material-icons left'>check_circle</i>This is rendered HTML content for tenant: ",
    ).concat(tenant).concat("</div>");
    Ok(HtmxSuccess::with_content(m.as_str()))
}

/// A test error notification for a tenant, as a bad request.
pub fn test_error_with_notification(tenant: &str) -> (r: HtmxResult)
    ensures
        r matches Err(h) && h.made(
            Status { code: 400 },
            "This error includes a notification for tenant: "@ + tenant@ + " that can be shown in a toast"@,
            Presentation::Notification,
            MessageType::Error,
        ),
{
    let m = String::from_str("This error includes a notification for tenant: ").concat(tenant).concat(
        " that can be shown in a toast",
    );
    Err(HtmxError::with_notification(Status { code: 400 }, m.as_str()))
}

/// A test warning for a tenant.
pub fn test_warning(tenant: &str) -> (r: HtmxResult)
    ensures
        r matches Ok(h) && h.made(
            ok_status(),
            "This is a warning notification message for tenant: "@ + tenant@
                + " that will be displayed as a yellow toast"@,
            Presentation::Notification,
            MessageType::Warning,
        ),
{
    let m = String::from_str("This is a warning notification message for tenant: ").concat(tenant).concat(
        " that will be displayed as a yellow toast",
    );
    Ok(HtmxWarning::with_notification(m.as_str()))
}

/// A test information message for a tenant.
pub fn test_info(tenant: &str) -> (r: HtmxResult)
    ensures
        r matches Ok(h) && h.made(
            ok_status(),
            "This is an information message for tenant: "@ + tenant@ + " that will be displayed as a blue toast"@,
            Presentation::Notification,
            MessageType::Info,
        ),
{
    let m = String::from_str("This is an information message for tenant: ").concat(tenant).concat(
        " that will be displayed as a blue toast",
    );
    Ok(HtmxInfo::with_notification(m.as_str()))
}

/// The users-table fragment of a tenant.
pub fn get_users_table(tenant: &str) -> (r: String)
    ensures
        r@ == "Users Table Partial for tenant: "@ + tenant@,
{
    String::from_str("Users Table Partial for tenant: ").concat(tenant)
}

} // verus!
