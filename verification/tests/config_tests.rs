use backend::config::{broadcast_settings, management_endpoint, required};

fn some(text: &str) -> Option<String> {
    Some(text.to_string())
}

#[test]
fn required_setting_is_handed_on_or_named() {
    assert_eq!(required("CONNECTIONS_TABLE", some("t")).unwrap(), "t");
    assert_eq!(required("CONNECTIONS_TABLE", some("")).unwrap(), "");
    assert_eq!(
        required("CONNECTIONS_TABLE", None).unwrap_err().message,
        "CONNECTIONS_TABLE environment variable not set"
    );
}

#[test]
fn endpoint_is_built_from_api_region_and_stage() {
    assert_eq!(
        management_endpoint("abc123", "us-east-1", "beta"),
        "https://abc123.execute-api.us-east-1.amazonaws.com/beta"
    );
}

#[test]
fn broadcaster_refuses_to_start_without_its_settings() {
    let settings =
        broadcast_settings(some("abc123"), some("beta"), some("us-east-1"), some("conns")).unwrap();
    assert_eq!(settings.endpoint, "https://abc123.execute-api.us-east-1.amazonaws.com/beta");
    assert_eq!(settings.connections_table, "conns");

    let message = |a: Option<String>, s: Option<String>, r: Option<String>, t: Option<String>| {
        broadcast_settings(a, s, r, t).unwrap_err().message
    };
    assert_eq!(message(None, None, None, None), "WS_API_ID environment variable not set");
    assert_eq!(message(some("a"), None, None, None), "WS_STAGE environment variable not set");
    assert_eq!(
        message(some("a"), some("s"), None, None),
        "AWS_REGION environment variable not set"
    );
    assert_eq!(
        message(some("a"), some("s"), some("r"), None),
        "CONNECTIONS_TABLE environment variable not set"
    );
    assert_eq!(
        message(None, some("s"), some("r"), some("t")),
        "WS_API_ID environment variable not set"
    );
}
