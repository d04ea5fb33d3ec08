//! The license server's answer: what the launcher keeps of it.

use vstd::prelude::*;
use crate::json::{
    bool_field, bool_or_default, int_field, json_get, opt_i64_or_default, parse_json, parsed_json,
    str_field, string_or_default, JsonValue,
};

verus! {

/// The license details that the server sends back.
#[derive(Debug, Clone)]
pub struct License {
    pub tiktok_username: String,
    pub status: String,
    pub created_at: String,
    pub status_changed_at: String,
    pub expires_at: String,
    pub expires_in_days: Option<i64>,
    pub last_check: String,
    pub fingerprint_bound: bool,
    pub fingerprint_match: bool,
}

/// The server's verdict on a license.
#[derive(Debug, Clone)]
pub struct LicenseResponse {
    pub valid: bool,
    pub reason: String,
    pub message: String,
    pub license: Option<License>,
}

/// The view of a `License`: its texts as character sequences.
pub struct LicenseView {
    pub tiktok_username: Seq<char>,
    pub status: Seq<char>,
    pub created_at: Seq<char>,
    pub status_changed_at: Seq<char>,
    pub expires_at: Seq<char>,
    pub expires_in_days: Option<i64>,
    pub last_check: Seq<char>,
    pub fingerprint_bound: bool,
    pub fingerprint_match: bool,
}

/// The view of a `LicenseResponse`.
pub struct ResponseView {
    pub valid: bool,
    pub reason: Seq<char>,
    pub message: Seq<char>,
    pub license: Option<LicenseView>,
}

impl View for License {
    type V = LicenseView;

    open spec fn view(&self) -> LicenseView {
        LicenseView {
            tiktok_username: self.tiktok_username@,
            status: self.status@,
            created_at: self.created_at@,
            status_changed_at: self.status_changed_at@,
            expires_at: self.expires_at@,
            expires_in_days: self.expires_in_days,
            last_check: self.last_check@,
            fingerprint_bound: self.fingerprint_bound,
            fingerprint_match: self.fingerprint_match,
        }
    }
}

/// The view of an optional license.
pub open spec fn opt_license_view(o: Option<License>) -> Option<LicenseView> {
    match o {
        Some(l) => Some(l@),
        None => None,
    }
}

impl View for LicenseResponse {
    type V = ResponseView;

    open spec fn view(&self) -> ResponseView {
        ResponseView {
            valid: self.valid,
            reason: self.reason@,
            message: self.message@,
            license: opt_license_view(self.license),
        }
    }
}

/// A license with every text empty, no expiry count and both flags false.
pub open spec fn empty_license_view() -> LicenseView {
    LicenseView {
        tiktok_username: seq![],
        status: seq![],
        created_at: seq![],
        status_changed_at: seq![],
        expires_at: seq![],
        expires_in_days: None,
        last_check: seq![],
        fingerprint_bound: false,
        fingerprint_match: false,
    }
}

impl Default for License {
    fn default() -> (res: License)
        ensures
            res@ == empty_license_view(),
    {
        License {
            tiktok_username: String::new(),
            status: String::new(),
            created_at: String::new(),
            status_changed_at: String::new(),
            expires_at: String::new(),
            expires_in_days: None,
            last_check: String::new(),
            fingerprint_bound: false,
            fingerprint_match: false,
        }
    }
}

/// The license that a JSON value describes: each member read by its name,
/// with an empty text, no count or false where it is missing or of another
/// kind.
pub open spec fn license_of_json(v: JsonValue) -> LicenseView {
    LicenseView {
        tiktok_username: str_field(v, "tiktok_username"@),
        status: str_field(v, "status"@),
        created_at: str_field(v, "created_at"@),
        status_changed_at: str_field(v, "status_changed_at"@),
        expires_at: str_field(v, "expires_at"@),
        expires_in_days: int_field(v, "expires_in_days"@),
        last_check: str_field(v, "last_check"@),
        fingerprint_bound: bool_field(v, "fingerprint_bound"@),
        fingerprint_match: bool_field(v, "fingerprint_match"@),
    }
}

/// The server's answer that a JSON value describes. A `license` member of
/// any kind, `null` included, gives a license.
pub open spec fn response_of_json(v: JsonValue) -> ResponseView {
    ResponseView {
        valid: bool_field(v, "valid"@),
        reason: str_field(v, "reason"@),
        message: str_field(v, "message"@),
        license: match json_get(v, "license"@) {
            Some(l) => Some(license_of_json(l)),
            None => None,
        },
    }
}

impl License {
    /// Reads the license details from the server's JSON.
    pub fn from_json(v: &JsonValue) -> (res: License)
        ensures
            res@ == license_of_json(*v),
    {
        License {
            tiktok_username: string_or_default(v, "tiktok_username"),
            status: string_or_default(v, "status"),
            created_at: string_or_default(v, "created_at"),
            status_changed_at: string_or_default(v, "status_changed_at"),
            expires_at: string_or_default(v, "expires_at"),
            expires_in_days: opt_i64_or_default(v, "expires_in_days"),
            last_check: string_or_default(v, "last_check"),
            fingerprint_bound: bool_or_default(v, "fingerprint_bound"),
            fingerprint_match: bool_or_default(v, "fingerprint_match"),
        }
    }
}

impl LicenseResponse {
    /// Reads the server's verdict from its JSON answer.
    pub fn from_json(v: &JsonValue) -> (res: LicenseResponse)
        ensures
            res@ == response_of_json(*v),
    {
        let valid = bool_or_default(v, "valid");
        let reason = string_or_default(v, "reason");
        let message = string_or_default(v, "message");
        let license = match v.get("license") {
            Some(l) => Some(License::from_json(l)),
            None => None,
        };
        LicenseResponse { valid, reason, message, license }
    }
}


/// Each detail of a license is read from the member of exactly its own name:
/// a text member gives its text, a boolean member its truth value, an
/// integer member its count; a member that is missing or of another kind
/// gives an empty text, false, or no count.
pub proof fn lemma_license_fields_by_name(v: JsonValue)
    ensures
        json_get(v, "tiktok_username"@) matches Some(JsonValue::Str(s)) ==> license_of_json(v).tiktok_username == s@,
        !(json_get(v, "tiktok_username"@) matches Some(JsonValue::Str(_))) ==> license_of_json(v).tiktok_username.len() == 0,
        json_get(v, "status"@) matches Some(JsonValue::Str(s)) ==> license_of_json(v).status == s@,
        !(json_get(v, "status"@) matches Some(JsonValue::Str(_))) ==> license_of_json(v).status.len() == 0,
        json_get(v, "created_at"@) matches Some(JsonValue::Str(s)) ==> license_of_json(v).created_at == s@,
        !(json_get(v, "created_at"@) matches Some(JsonValue::Str(_))) ==> license_of_json(v).created_at.len() == 0,
        json_get(v, "status_changed_at"@) matches Some(JsonValue::Str(s)) ==> license_of_json(v).status_changed_at == s@,
        !(json_get(v, "status_changed_at"@) matches Some(JsonValue::Str(_))) ==> license_of_json(v).status_changed_at.len() == 0,
        json_get(v, "expires_at"@) matches Some(JsonValue::Str(s)) ==> license_of_json(v).expires_at == s@,
        !(json_get(v, "expires_at"@) matches Some(JsonValue::Str(_))) ==> license_of_json(v).expires_at.len() == 0,
        json_get(v, "last_check"@) matches Some(JsonValue::Str(s)) ==> license_of_json(v).last_check == s@,
        !(json_get(v, "last_check"@) matches Some(JsonValue::Str(_))) ==> license_of_json(v).last_check.len() == 0,
        json_get(v, "fingerprint_bound"@) matches Some(JsonValue::Bool(b)) ==> license_of_json(v).fingerprint_bound == b,
        !(json_get(v, "fingerprint_bound"@) matches Some(JsonValue::Bool(_))) ==> !license_of_json(v).fingerprint_bound,
        json_get(v, "fingerprint_match"@) matches Some(JsonValue::Bool(b)) ==> license_of_json(v).fingerprint_match == b,
        !(json_get(v, "fingerprint_match"@) matches Some(JsonValue::Bool(_))) ==> !license_of_json(v).fingerprint_match,
        json_get(v, "expires_in_days"@) matches Some(JsonValue::Int(i)) ==> license_of_json(v).expires_in_days == Some(i),
        !(json_get(v, "expires_in_days"@) matches Some(JsonValue::Int(_))) ==> license_of_json(v).expires_in_days is None,
{
}

/// The verdict is read from the members `valid`, `reason` and `message`, and
/// the license details from the member `license`, present exactly when that
/// member is.
pub proof fn lemma_response_fields_by_name(v: JsonValue)
    ensures
        json_get(v, "valid"@) matches Some(JsonValue::Bool(b)) ==> response_of_json(v).valid == b,
        !(json_get(v, "valid"@) matches Some(JsonValue::Bool(_))) ==> !response_of_json(v).valid,
        json_get(v, "reason"@) matches Some(JsonValue::Str(s)) ==> response_of_json(v).reason == s@,
        !(json_get(v, "reason"@) matches Some(JsonValue::Str(_))) ==> response_of_json(v).reason.len() == 0,
        json_get(v, "message"@) matches Some(JsonValue::Str(s)) ==> response_of_json(v).message == s@,
        !(json_get(v, "message"@) matches Some(JsonValue::Str(_))) ==> response_of_json(v).message.len() == 0,
        json_get(v, "license"@) matches Some(l) ==> response_of_json(v).license == Some(license_of_json(l)),
        json_get(v, "license"@) is None ==> response_of_json(v).license is None,
{
}

/// An HTTP status code of success (2xx).
pub open spec fn is_success(status: u16) -> bool {
    200 <= status && status <= 299
}

/// The error for a license server reply whose status is not a success:
/// `Server returned` and the status as displayed.
pub fn server_status_error(status: u16, status_text: &str) -> (res: Option<String>)
    ensures
        is_success(status) ==> res is None,
        !is_success(status) ==> (res matches Some(e) && e@ == "Server returned "@ + status_text@),
{
    if 200 <= status && status <= 299 {
        None
    } else {
        let mut e = String::from_str("Server returned ");
        e.append(status_text);
        Some(e)
    }
}

/// The error for a license server reply that is not JSON: the parser's
/// message, then the body that was received.
pub fn json_error_message(error: &str, body: &str) -> (res: String)
    ensures
        res@ == "JSON parse error: "@ + error@ + "\nBody: "@ + body@,
{
    let mut e = String::from_str("JSON parse error: ");
    e.append(error);
    e.append("\nBody: ");
    e.append(body);
    e
}


/// The view of what `license_reply` returns.
pub open spec fn reply_view(r: Result<LicenseResponse, String>) -> Result<ResponseView, Seq<char>> {
    match r {
        Ok(resp) => Ok(resp@),
        Err(e) => Err(e@),
    }
}

/// Reads the license server's reply body: the verdict that its JSON
/// describes, or, when the body is not JSON, `JSON parse error:` with the
/// parser's message, then the body.
pub fn license_reply(body: &str) -> (res: Result<LicenseResponse, String>)
    ensures
        parsed_json(body@) matches Ok(v) ==> reply_view(res) == Ok::<ResponseView, Seq<char>>(
            response_of_json(v),
        ),
        parsed_json(body@) matches Err(m) ==> reply_view(res) == Err::<ResponseView, Seq<char>>(
            "JSON parse error: "@ + m + "\nBody: "@ + body@,
        ),
{
    match parse_json(body) {
        Ok(v) => Ok(LicenseResponse::from_json(&v)),
        Err(m) => {
            let e = json_error_message(m.as_str(), body);
            assert(e@ == "JSON parse error: "@ + m@ + "\nBody: "@ + body@);
            Err(e)
        },
    }
}

} // verus!
