use onlyclimb_launcher::api::{
    json_error_message, license_reply, server_status_error, License, LicenseResponse,
};
use onlyclimb_launcher::json::JsonValue;

fn s(x: &str) -> JsonValue {
    JsonValue::Str(String::from(x))
}

fn obj(members: Vec<(&str, JsonValue)>) -> JsonValue {
    JsonValue::Object(members.into_iter().map(|(k, v)| (String::from(k), v)).collect())
}

#[test]
fn full_response() {
    let v = obj(vec![
        ("valid", JsonValue::Bool(true)),
        ("reason", s("")),
        ("message", s("Bienvenue")),
        (
            "license",
            obj(vec![
                ("tiktok_username", s("@me")),
                ("status", s("active")),
                ("created_at", s("2025-01-01")),
                ("status_changed_at", s("2025-02-01")),
                ("expires_at", s("2026-01-01")),
                ("expires_in_days", JsonValue::Int(30)),
                ("last_check", s("2025-06-01")),
                ("fingerprint_bound", JsonValue::Bool(true)),
                ("fingerprint_match", JsonValue::Bool(false)),
            ]),
        ),
    ]);
    let r = LicenseResponse::from_json(&v);
    assert!(r.valid);
    assert_eq!(r.message, "Bienvenue");
    let l = r.license.unwrap();
    assert_eq!(l.tiktok_username, "@me");
    assert_eq!(l.status, "active");
    assert_eq!(l.created_at, "2025-01-01");
    assert_eq!(l.status_changed_at, "2025-02-01");
    assert_eq!(l.expires_at, "2026-01-01");
    assert_eq!(l.expires_in_days, Some(30));
    assert_eq!(l.last_check, "2025-06-01");
    assert!(l.fingerprint_bound);
    assert!(!l.fingerprint_match);
}

#[test]
fn missing_and_mistyped_members_default() {
    let v = obj(vec![
        ("valid", s("yes")),
        ("reason", JsonValue::Int(4)),
        ("message", JsonValue::Null),
    ]);
    let r = LicenseResponse::from_json(&v);
    assert!(!r.valid);
    assert_eq!(r.reason, "");
    assert_eq!(r.message, "");
    assert!(r.license.is_none());
    let r2 = LicenseResponse::from_json(&JsonValue::Array(vec![]));
    assert!(!r2.valid && r2.license.is_none());
}

#[test]
fn null_license_gives_empty_details() {
    let v = obj(vec![("valid", JsonValue::Bool(false)), ("license", JsonValue::Null)]);
    let l = LicenseResponse::from_json(&v).license.unwrap();
    assert_eq!(l.tiktok_username, "");
    assert_eq!(l.expires_in_days, None);
    assert!(!l.fingerprint_bound);
}

#[test]
fn only_i64_numbers_count_as_days() {
    let v = obj(vec![("expires_in_days", JsonValue::OtherNumber)]);
    assert_eq!(License::from_json(&v).expires_in_days, None);
    let v = obj(vec![("expires_in_days", JsonValue::Int(-3))]);
    assert_eq!(License::from_json(&v).expires_in_days, Some(-3));
}

#[test]
fn first_member_of_a_name_counts() {
    let v = obj(vec![("status", s("active")), ("status", s("revoked"))]);
    assert_eq!(License::from_json(&v).status, "active");
}

#[test]
fn default_license_is_empty() {
    let l = License::default();
    assert_eq!(l.status, "");
    assert_eq!(l.expires_in_days, None);
    assert!(!l.fingerprint_match);
}

#[test]
fn reply_errors() {
    assert_eq!(server_status_error(200, "200 OK"), None);
    assert_eq!(server_status_error(204, "204 No Content"), None);
    assert_eq!(
        server_status_error(500, "500 Internal Server Error"),
        Some(String::from("Server returned 500 Internal Server Error"))
    );
    assert_eq!(server_status_error(199, "199"), Some(String::from("Server returned 199")));
    assert_eq!(
        json_error_message("expected value at line 1 column 1", "<html>"),
        "JSON parse error: expected value at line 1 column 1\nBody: <html>"
    );
}

#[test]
fn reply_body_is_read() {
    let r = license_reply(
        r#"{"valid":true,"message":"ok","license":{"tiktok_username":"@me","expires_in_days":12,"fingerprint_bound":true}}"#,
    )
    .unwrap();
    assert!(r.valid);
    assert_eq!(r.message, "ok");
    assert_eq!(r.reason, "");
    let l = r.license.unwrap();
    assert_eq!(l.tiktok_username, "@me");
    assert_eq!(l.expires_in_days, Some(12));
    assert!(l.fingerprint_bound && !l.fingerprint_match);
}

#[test]
fn reply_numbers_and_null() {
    let r = license_reply(r#"{"valid":false,"license":null}"#).unwrap();
    assert!(r.license.is_some());
    let r = license_reply(r#"{"license":{"expires_in_days":1.5}}"#).unwrap();
    assert_eq!(r.license.unwrap().expires_in_days, None);
    let r = license_reply(r#"{"license":{"expires_in_days":-7}}"#).unwrap();
    assert_eq!(r.license.unwrap().expires_in_days, Some(-7));
    let r = license_reply("[1,2]").unwrap();
    assert!(!r.valid && r.license.is_none());
}

#[test]
fn reply_body_not_json() {
    let e = license_reply("<html>oops</html>").unwrap_err();
    assert_eq!(e, "JSON parse error: expected value at line 1 column 1\nBody: <html>oops</html>");
}
