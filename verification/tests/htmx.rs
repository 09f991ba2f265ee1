use catalyst::htmx::{Htmx, HtmxError, HtmxSuccess, MessageType};
use catalyst::meltdown::Status;

#[test]
fn success_content_has_content_headers() {
    let h = HtmxSuccess::with_content("<p>hi</p>");
    assert_eq!(h.status(), Status { code: 200 });
    assert_eq!(h.html(), "<p>hi</p>");
    assert_eq!(h.message_type(), MessageType::Success);
    let headers: Vec<(String, String)> = h.headers().clone();
    assert_eq!(
        headers,
        vec![
            ("HX-Response-Type".to_string(), "content".to_string()),
            ("HX-Message-Type".to_string(), "success".to_string()),
        ]
    );
}

#[test]
fn redirect_adds_header_last() {
    let h = HtmxError::with_notification(Status { code: 403 }, "nope").with_redirect("/x");
    assert_eq!(h.status().code, 403);
    assert_eq!(h.headers().len(), 3);
    assert_eq!(h.headers()[2], ("HX-Redirect".to_string(), "/x".to_string()));
    let _ = Htmx::success();
}
