use live_server::script::{format_script, RELOAD_PAYLOAD, WEBSOCKET_FUNCTION};

#[test]
fn reload_check_on_live_page_gets_confirmation() {
    let script = format_script(false, true, false);
    assert_eq!(script, format!("<script>{}</script>", RELOAD_PAYLOAD));
}

#[test]
fn reload_check_on_error_page_gets_nothing() {
    assert_eq!(format_script(false, true, true), "");
    assert_eq!(format_script(true, true, true), "");
}

#[test]
fn ordinary_request_gets_client() {
    assert_eq!(
        format_script(false, false, false),
        format!("<script>{}(false)</script>", WEBSOCKET_FUNCTION)
    );
    assert_eq!(
        format_script(true, false, true),
        format!("<script>{}(true)</script>", WEBSOCKET_FUNCTION)
    );
}
