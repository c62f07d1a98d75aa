use std::collections::HashMap;
use symbolica_license::json::{shallow, Document, Field, Member, MAX_NESTING};
use symbolica_license::manager::LicenseManager;
use symbolica_license::messages::{
    ACTIVATION_ERROR, CONNECTION_ERROR, NETWORK_ERROR, RESOLVE_ERROR,
};
use symbolica_license::server::{
    announcement, email_answer, read_email, read_registration, registration_answer, Failure,
};
use symbolica_license::state::Build;
use tinyjson::JsonValue;

fn build(wasm32: bool) -> Build {
    Build {
        wasm32,
        development: false,
        native_code_generation: false,
        version: "3.0.0".to_owned(),
        package_version: "3.0.0".to_owned(),
    }
}

fn fields(line: &str) -> HashMap<String, JsonValue> {
    assert!(line.ends_with('\n'));
    assert_eq!(line.matches('\n').count(), 1);
    let value: JsonValue = line.parse().unwrap();
    value.get::<HashMap<String, JsonValue>>().unwrap().clone()
}

fn object(members: &[(&str, JsonValue)]) -> HashMap<String, JsonValue> {
    members
        .iter()
        .map(|(name, value)| ((*name).to_owned(), value.clone()))
        .collect()
}

fn text(value: &str) -> JsonValue {
    JsonValue::String(value.to_owned())
}

fn caused(message: &str, cause: &str) -> Option<Result<(), String>> {
    Some(Err(format!("{message}\nError: {cause}")))
}

#[test]
fn an_announcement_gives_the_version() {
    assert_eq!(
        fields(&announcement("3.1.4")),
        object(&[("version", text("3.1.4"))])
    );
}

#[test]
fn a_registration_check_sends_the_version_and_the_key() {
    let key = "a \"quoted\"\nkey\u{1} é";
    let r = LicenseManager::check_registration(key.to_owned(), "3.1.4", |line| {
        assert_eq!(
            fields(&line),
            object(&[("version", text("3.1.4")), ("license", text(key))])
        );
        Ok(b"{\"status\":\"ok\"}\n".to_vec())
    });
    assert_eq!(r, Some(Ok(())));
}

#[test]
fn a_failed_exchange_is_reported() {
    let fail = |failure: Failure| {
        LicenseManager::check_registration("key".to_owned(), "3.1.4", |_| Err(failure))
    };
    assert_eq!(
        fail(Failure::Resolve("no name".to_owned())),
        caused(RESOLVE_ERROR, "no name")
    );
    assert_eq!(fail(Failure::NoAddress), Some(Err(RESOLVE_ERROR.to_owned())));
    assert_eq!(fail(Failure::Refused), Some(Err(CONNECTION_ERROR.to_owned())));
    assert_eq!(
        fail(Failure::Setup("no timeout".to_owned())),
        Some(Err("no timeout".to_owned()))
    );
    assert_eq!(
        fail(Failure::Broken("reset".to_owned())),
        caused(NETWORK_ERROR, "reset")
    );
}

#[test]
fn registration_replies_are_understood() {
    let answer = |reply: &str| registration_answer(reply.as_bytes());
    assert_eq!(answer("{\"status\":\"ok\"}\n"), Some(Ok(())));
    assert_eq!(answer(""), Some(Err(ACTIVATION_ERROR.to_owned())));
    // Any other spelling of the same status is not the expected reply.
    assert_eq!(answer("{\"status\": \"ok\"}\n"), caused(ACTIVATION_ERROR, "ok"));
    assert_eq!(
        answer("{\"status\":\"Unknown license\"}\n"),
        Some(Err("┌──────────────────────────────────────────┐
│ Could not activate the Symbolica license │
└──────────────────────────────────────────┘
Error: Unknown license"
            .to_owned()))
    );
    assert_eq!(answer("[1]\n"), caused(NETWORK_ERROR, "Empty response"));
    assert_eq!(answer("{\"status\":1}\n"), caused(NETWORK_ERROR, "missing status"));
    let error = "{\"status\"".parse::<JsonValue>().unwrap_err().to_string();
    assert_eq!(answer("{\"status\"\n"), caused(NETWORK_ERROR, &error));
    let error = std::str::from_utf8(&[0x80]).unwrap_err().to_string();
    assert_eq!(registration_answer(&[0x80]), caused(NETWORK_ERROR, &error));
    // The last byte is not read.
    assert_eq!(answer("{\"status\":\"x\"}}"), caused(ACTIVATION_ERROR, "x"));
}

#[test]
fn replies_without_a_status_are_no_answer() {
    assert_eq!(registration_answer(b"{\"state\":\"x\"}\n"), None);
    assert_eq!(registration_answer("{\"status\":\"x\"}é".as_bytes()), None);
    assert_eq!(email_answer(b"{}\n"), None);
    assert_eq!(email_answer("é".as_bytes()), None);
}

#[test]
fn documents_of_replies_are_understood() {
    let status = |member: Member| Document::Object(vec![("status".to_owned(), member)]);
    assert_eq!(
        read_registration(&status(Member::Text("License banned".to_owned()))),
        caused(ACTIVATION_ERROR, "License banned")
    );
    assert_eq!(
        read_registration(&status(Member::Null)),
        caused(NETWORK_ERROR, "missing status")
    );
    assert_eq!(read_registration(&Document::Other), caused(NETWORK_ERROR, "Empty response"));
    assert_eq!(
        read_registration(&Document::Invalid("bad".to_owned())),
        caused(NETWORK_ERROR, "bad")
    );
    assert_eq!(read_registration(&Document::Object(Vec::new())), None);
    assert_eq!(
        read_email(&status(Member::Text("later".to_owned()))),
        Some(Err("later".to_owned()))
    );
    for document in [
        status(Member::Boolean(true)),
        status(Member::Array),
        status(Member::Object),
        Document::Other,
        Document::Invalid("bad".to_owned()),
    ] {
        assert_eq!(read_email(&document), Some(Err("Bad server response".to_owned())));
    }
    assert_eq!(read_email(&Document::Object(Vec::new())), None);
}

#[test]
fn a_reported_rejection_ends_offline_use() {
    for (status, ends) in [("License banned", true), ("License suspended", false)] {
        let answer = registration_answer(format!("{{\"status\":\"{status}\"}}\n").as_bytes())
            .unwrap();
        let said =
            LicenseManager::check_offline_license_registration("key".to_owned(), |_| {
                answer.clone()
            });
        assert_eq!(said.is_some(), ends);
        assert_eq!(said, if ends { answer.err() } else { None });
    }
}

#[test]
fn email_replies_are_understood() {
    let answer = |reply: &str| email_answer(reply.as_bytes());
    let bad = || Some(Err("Bad server response".to_owned()));
    assert_eq!(answer("{\"status\":\"email sent\"}\n"), Some(Ok(())));
    assert_eq!(answer(""), Some(Err("Empty response".to_owned())));
    assert_eq!(answer("{\"status\":\"ok\"}\n"), Some(Err("ok".to_owned())));
    assert_eq!(answer("{\"status\":null}\n"), bad());
    assert_eq!(answer("true\n"), bad());
    assert_eq!(answer("nonsense\n"), bad());
    assert_eq!(email_answer(&[0xff]), bad());
}

fn sent() -> Result<Vec<u8>, Failure> {
    Ok(b"{\"status\":\"email sent\"}\n".to_vec())
}

#[test]
fn requests_for_keys_send_their_data() {
    let b = build(false);
    let version = ("version", JsonValue::Number(3.0));
    let r = LicenseManager::request_hobbyist_license(&b, "N", "E", |line| {
        let expected = [("name", text("N")), ("email", text("E")), ("type", text("hobbyist"))];
        let mut expected = object(&expected);
        expected.extend(object(&[version.clone()]));
        assert_eq!(fields(&line), expected);
        sent()
    });
    assert_eq!(r, Some(Ok(())));
    let r = LicenseManager::request_trial_license(&b, "N", "E", "C", |line| {
        assert_eq!(
            fields(&line),
            object(&[
                ("name", text("N")),
                ("email", text("E")),
                ("company", text("C")),
                ("type", text("trial")),
                version.clone(),
            ])
        );
        sent()
    });
    assert_eq!(r, Some(Ok(())));
    let r = LicenseManager::request_sublicense(&b, "N", "E", "C", "S", |line| {
        assert_eq!(
            fields(&line),
            object(&[
                ("name", text("N")),
                ("email", text("E")),
                ("company", text("C")),
                ("type", text("sublicense")),
                ("super_license", text("S")),
                version.clone(),
            ])
        );
        sent()
    });
    assert_eq!(r, Some(Ok(())));
    let r = LicenseManager::get_license_key(&b, "E", |line| {
        assert_eq!(fields(&line), object(&[("email", text("E")), version.clone()]));
        Ok(b"{\"status\":\"unknown address\"}\n".to_vec())
    });
    assert_eq!(r, Some(Err("unknown address".to_owned())));
    let r = LicenseManager::get_license_key(&b, "E", |_| Err(Failure::Refused));
    assert_eq!(r, Some(Err(CONNECTION_ERROR.to_owned())));
}

#[test]
fn the_version_of_the_key_replaces_a_given_one() {
    let data = vec![
        ("version".to_owned(), Field::Text("9".to_owned())),
        ("email".to_owned(), Field::Text("E".to_owned())),
        ("count".to_owned(), Field::Number(7)),
    ];
    let r = LicenseManager::request_license_email(&build(false), data, |line| {
        assert_eq!(
            fields(&line),
            object(&[
                ("email", text("E")),
                ("count", JsonValue::Number(7.0)),
                ("version", JsonValue::Number(3.0)),
            ])
        );
        sent()
    });
    assert_eq!(r, Some(Ok(())));
}

#[test]
fn replies_that_nest_too_deep_are_no_answer() {
    let reply = |depth: usize| {
        let (open, close) = ("[".repeat(depth), "]".repeat(depth));
        format!("{{\"status\":\"x\",\"a\":{open}{close}}}\n")
    };
    let fits = reply(MAX_NESTING - 1);
    assert_eq!(registration_answer(fits.as_bytes()), caused(ACTIVATION_ERROR, "x"));
    assert_eq!(email_answer(fits.as_bytes()), Some(Err("x".to_owned())));
    let deep = reply(MAX_NESTING);
    assert_eq!(registration_answer(deep.as_bytes()), None);
    assert_eq!(email_answer(deep.as_bytes()), None);
    assert_eq!(registration_answer("[".repeat(1_000_000).as_bytes()), None);
}

#[test]
fn brackets_in_strings_do_not_nest() {
    assert!(shallow(&format!("\"{}\"", "[".repeat(2000))));
    assert!(shallow(&format!("\"\\\"{}\"", "{".repeat(2000))));
    assert!(!shallow(&format!("\"\\\\\"{}", "{".repeat(2000))));
    assert!(shallow(&"[]".repeat(2000)));
    assert!(shallow(&"[".repeat(MAX_NESTING)));
    assert!(!shallow(&"[".repeat(MAX_NESTING + 1)));
}

#[test]
fn replies_with_a_key_that_is_no_string_are_reported() {
    let answer = registration_answer(b"{{\"a\":0,\"b\":0}:0}\n").unwrap().unwrap_err();
    assert!(answer.starts_with(&format!("{NETWORK_ERROR}\nError: ")));
    assert!(answer.contains("Key of object must be string"));
}

#[test]
fn wasm_builds_request_no_keys() {
    let b = build(true);
    let never = |_: String| -> Result<Vec<u8>, Failure> { panic!("must not contact the server") };
    let no = Some(Err(
        "No Symbolica license key is required for WASM builds.".to_owned()
    ));
    assert_eq!(LicenseManager::request_hobbyist_license(&b, "N", "E", never), no);
    assert_eq!(LicenseManager::request_trial_license(&b, "N", "E", "C", never), no);
    assert_eq!(LicenseManager::request_sublicense(&b, "N", "E", "C", "S", never), no);
    assert_eq!(LicenseManager::get_license_key(&b, "E", never), no);
}
