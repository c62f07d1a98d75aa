//! What is said to the license server, and how its replies are understood.
//!
//! A request is one line with a JSON object. The server sends a reply and closes the connection.

use crate::json;
use crate::json::{Content, Document, DocumentView, Field, FieldView, Member, MemberView};
use crate::manager::LicenseManager;
use crate::messages::{ACTIVATION_ERROR, CONNECTION_ERROR, NETWORK_ERROR, RESOLVE_ERROR};
use crate::state::Build;
use crate::text;
use vstd::prelude::*;

verus! {

/// The reply to a key that is registered.
pub const REGISTERED: &'static str = "{\"status\":\"ok\"}\n";

/// The reply to a request for an e-mail that was sent.
pub const EMAIL_SENT: &'static str = "{\"status\":\"email sent\"}\n";

/// A reply to a registration check that is no object.
pub const EMPTY_RESPONSE: &'static str = "Empty response";

/// A reply to a registration check whose status is no text.
pub const MISSING_STATUS: &'static str = "missing status";

/// A reply to a request for an e-mail that is not understood.
pub const BAD_RESPONSE: &'static str = "Bad server response";

/// A request for an e-mail where no key is needed.
pub const NO_KEY_REQUIRED: &'static str =
    "No Symbolica license key is required for WASM builds.";

/// The version of the keys that are requested, whatever the version of the package.
pub const KEY_VERSION: u32 = 3;

/// Why an exchange with the server failed.
pub enum Failure {
    /// The name of the server could not be looked up.
    Resolve(String),
    /// The name of the server has no address.
    NoAddress,
    /// The connection was not accepted in time.
    Refused,
    /// The connection could not be set up.
    Setup(String),
    /// The request could not be sent or the reply not received.
    Broken(String),
}

/// What is said of a failed exchange.
pub open spec fn failure_text(failure: Failure) -> Seq<char> {
    match failure {
        Failure::Resolve(e) => text::caused(RESOLVE_ERROR@, e@),
        Failure::NoAddress => RESOLVE_ERROR@,
        Failure::Refused => CONNECTION_ERROR@,
        Failure::Setup(e) => e@,
        Failure::Broken(e) => text::caused(NETWORK_ERROR@, e@),
    }
}

/// Says why an exchange failed.
pub fn describe(failure: Failure) -> (r: String)
    ensures
        r@ == failure_text(failure),
{
    match failure {
        Failure::Resolve(e) => text::with_cause(RESOLVE_ERROR, e.as_str()),
        Failure::NoAddress => RESOLVE_ERROR.to_owned(),
        Failure::Refused => CONNECTION_ERROR.to_owned(),
        Failure::Setup(e) => e,
        Failure::Broken(e) => text::with_cause(NETWORK_ERROR, e.as_str()),
    }
}

/// Whether a line is a request with these fields and no others.
pub open spec fn is_request(line: Seq<char>, fields: Seq<(Seq<char>, FieldView)>) -> bool {
    &&& line.len() > 0
    &&& line.last() == '\n'
    &&& json::is_one_line(line.drop_last())
    &&& json::reads_as(line.drop_last(), fields)
}

/// The fields of an announcement.
pub open spec fn announcement_fields(version: Seq<char>) -> Seq<(Seq<char>, FieldView)> {
    seq![("version"@, FieldView::Text(version))]
}

/// The fields of a registration check.
pub open spec fn registration_fields(version: Seq<char>, key: Seq<char>) -> Seq<
    (Seq<char>, FieldView),
> {
    seq![("version"@, FieldView::Text(version)), ("license"@, FieldView::Text(key))]
}

/// The fields with another name.
pub open spec fn without(fields: Seq<(Seq<char>, FieldView)>, name: Seq<char>) -> Seq<
    (Seq<char>, FieldView),
> {
    fields.filter(|f: (Seq<char>, FieldView)| f.0 != name)
}

/// The fields of a request for an e-mail: the data, and the version of the key in place of any
/// version among the data.
pub open spec fn email_fields(data: Seq<(Seq<char>, FieldView)>) -> Seq<(Seq<char>, FieldView)> {
    without(data, "version"@).push(("version"@, FieldView::Number(KEY_VERSION)))
}

/// What the document of a reply says of a key: nothing where it has no status.
pub open spec fn document_outcome(document: DocumentView) -> Option<Result<(), Seq<char>>> {
    match document {
        DocumentView::Invalid(e) => Some(Err(text::caused(NETWORK_ERROR@, e))),
        DocumentView::Other => Some(Err(text::caused(NETWORK_ERROR@, EMPTY_RESPONSE@))),
        DocumentView::Object(members) => if !members.contains_key("status"@) {
            None
        } else {
            match members["status"@] {
                MemberView::Text(status) => Some(Err(text::caused(ACTIVATION_ERROR@, status))),
                _ => Some(Err(text::caused(NETWORK_ERROR@, MISSING_STATUS@))),
            }
        },
    }
}

/// What a reply says of a key, where `error` is said of a text that is no document: nothing where
/// it does not end in a character of one byte, nests too deep to be read, or is an object without
/// a status.
pub open spec fn registration_outcome(reply: Seq<u8>, error: Seq<char>) -> Option<
    Result<(), Seq<char>>,
> {
    if !text::is_utf8(reply) {
        Some(Err(text::caused(NETWORK_ERROR@, text::utf8_error(reply))))
    } else if reply == text::utf8(REGISTERED@) {
        Some(Ok(()))
    } else if reply.len() == 0 {
        Some(Err(ACTIVATION_ERROR@))
    } else if reply.last() >= 128 || !json::is_shallow(reply.drop_last()) {
        None
    } else {
        document_outcome(
            json::described(json::json_document(text::chars(reply.drop_last())), error),
        )
    }
}

/// Whether a reply to a registration check is read as a document.
pub open spec fn is_read(reply: Seq<u8>) -> bool {
    &&& text::is_utf8(reply)
    &&& reply != text::utf8(REGISTERED@)
    &&& reply.len() > 0
    &&& reply.last() < 128
    &&& json::is_shallow(reply.drop_last())
}

/// Whether an answer is what a reply says of a key. What is said of a reply that is no document is
/// what a reading of it gave.
pub open spec fn registration_understood(
    reply: Seq<u8>,
    r: Option<Result<(), String>>,
) -> bool {
    exists|error: Seq<char>|
        answers(r, #[trigger] registration_outcome(reply, error)) && (is_read(reply)
            ==> json::may_be_said(text::chars(reply.drop_last()), error))
}

/// What the document of a reply says of an e-mail: nothing where it has no status.
pub open spec fn email_document_outcome(document: Content) -> Option<Result<(), Seq<char>>> {
    match document {
        Content::Object(members) => if !members.contains_key("status"@) {
            None
        } else {
            match members["status"@] {
                MemberView::Text(status) => Some(Err(status)),
                _ => Some(Err(BAD_RESPONSE@)),
            }
        },
        _ => Some(Err(BAD_RESPONSE@)),
    }
}

/// What a reply says of an e-mail: nothing where it does not end in a character of one byte, nests
/// too deep to be read, or is an object without a status.
pub open spec fn email_outcome(reply: Seq<u8>) -> Option<Result<(), Seq<char>>> {
    if !text::is_utf8(reply) {
        Some(Err(BAD_RESPONSE@))
    } else if reply == text::utf8(EMAIL_SENT@) {
        Some(Ok(()))
    } else if reply.len() == 0 {
        Some(Err(EMPTY_RESPONSE@))
    } else if reply.last() >= 128 || !json::is_shallow(reply.drop_last()) {
        None
    } else {
        email_document_outcome(json::json_document(text::chars(reply.drop_last())))
    }
}

/// An answer beside what is named of it.
pub open spec fn answers(
    r: Option<Result<(), String>>,
    outcome: Option<Result<(), Seq<char>>>,
) -> bool {
    match (r, outcome) {
        (None, None) => true,
        (Some(r), Some(outcome)) => text::agrees(r, outcome),
        _ => false,
    }
}

/// Whether an exchange takes any request.
pub open spec fn may_send<E: FnOnce(String) -> Result<Vec<u8>, Failure>>(exchange: E) -> bool {
    forall|line: String| #[trigger] call_requires(exchange, (line,))
}

/// The answer after an exchange of one request with these fields, where `understood` says what a
/// reply means.
pub open spec fn exchanged<E: FnOnce(String) -> Result<Vec<u8>, Failure>>(
    fields: Seq<(Seq<char>, FieldView)>,
    exchange: E,
    understood: spec_fn(Seq<u8>, Option<Result<(), String>>) -> bool,
    r: Option<Result<(), String>>,
) -> bool {
    exists|line: String, reply: Result<Vec<u8>, Failure>|
        is_request(line@, fields) && #[trigger] call_ensures(exchange, (line,), reply)
            && match reply {
            Ok(bytes) => understood(bytes@, r),
            Err(failure) => answers(r, Some(Err(failure_text(failure)))),
        }
}

/// The answer to a request for an e-mail with this data.
pub open spec fn email_requested<E: FnOnce(String) -> Result<Vec<u8>, Failure>>(
    wasm32: bool,
    data: Seq<(Seq<char>, FieldView)>,
    exchange: E,
    r: Option<Result<(), String>>,
) -> bool {
    if wasm32 {
        answers(r, Some(Err(NO_KEY_REQUIRED@)))
    } else {
        exchanged(
            email_fields(data),
            exchange,
            |reply: Seq<u8>, answer: Option<Result<(), String>>|
                answers(answer, email_outcome(reply)),
            r,
        )
    }
}

/// The data of a request for a hobbyist license.
pub open spec fn hobbyist_data(name: Seq<char>, email: Seq<char>) -> Seq<(Seq<char>, FieldView)> {
    seq![
        ("name"@, FieldView::Text(name)),
        ("email"@, FieldView::Text(email)),
        ("type"@, FieldView::Text("hobbyist"@)),
    ]
}

/// The data of a request for a trial license.
pub open spec fn trial_data(name: Seq<char>, email: Seq<char>, company: Seq<char>) -> Seq<
    (Seq<char>, FieldView),
> {
    seq![
        ("name"@, FieldView::Text(name)),
        ("email"@, FieldView::Text(email)),
        ("company"@, FieldView::Text(company)),
        ("type"@, FieldView::Text("trial"@)),
    ]
}

/// The data of a request for a sublicense.
pub open spec fn sublicense_data(
    name: Seq<char>,
    email: Seq<char>,
    company: Seq<char>,
    super_license: Seq<char>,
) -> Seq<(Seq<char>, FieldView)> {
    seq![
        ("name"@, FieldView::Text(name)),
        ("email"@, FieldView::Text(email)),
        ("company"@, FieldView::Text(company)),
        ("type"@, FieldView::Text("sublicense"@)),
        ("super_license"@, FieldView::Text(super_license)),
    ]
}

/// The data of a request for the key of an account.
pub open spec fn account_data(email: Seq<char>) -> Seq<(Seq<char>, FieldView)> {
    seq![("email"@, FieldView::Text(email))]
}

/// The names of the fields of requests differ.
proof fn lemma_names_differ()
    ensures
        "name"@ != "email"@,
        "name"@ != "company"@,
        "name"@ != "type"@,
        "name"@ != "super_license"@,
        "name"@ != "version"@,
        "email"@ != "company"@,
        "email"@ != "type"@,
        "email"@ != "super_license"@,
        "email"@ != "version"@,
        "company"@ != "type"@,
        "company"@ != "super_license"@,
        "company"@ != "version"@,
        "type"@ != "super_license"@,
        "type"@ != "version"@,
        "super_license"@ != "version"@,
        "license"@ != "version"@,
{
    reveal_strlit("name");
    reveal_strlit("email");
    reveal_strlit("company");
    reveal_strlit("type");
    reveal_strlit("super_license");
    reveal_strlit("version");
    reveal_strlit("license");
    assert("name"@[0] != "type"@[0]);
    assert("super_license"@.len() == 13);
    assert("company"@[0] != "version"@[0]);
    assert("license"@[0] != "version"@[0]);
}

/// Writes a request.
fn request(fields: &Vec<(String, Field)>) -> (r: String)
    requires
        json::distinct_names(json::field_views(fields@)),
    ensures
        is_request(r@, json::field_views(fields@)),
{
    let mut line: String = json::stringify_object(fields);
    let ghost body = line@;
    line.append("\n");
    proof {
        reveal_strlit("\n");
        assert(line@.drop_last() =~= body);
    }
    line
}

/// A text field.
fn text_field(name: &str, value: &str) -> (r: (String, Field))
    ensures
        r.0@ == name@,
        r.1@ == FieldView::Text(value@),
{
    (name.to_owned(), Field::Text(value.to_owned()))
}

/// Understands the document of a reply to a registration check.
pub fn read_registration(document: &Document) -> (r: Option<Result<(), String>>)
    ensures
        answers(r, document_outcome(document@)),
{
    match document {
        Document::Invalid(e) => Some(Err(text::with_cause(NETWORK_ERROR, e.as_str()))),
        Document::Other => Some(Err(text::with_cause(NETWORK_ERROR, EMPTY_RESPONSE))),
        Document::Object(members) => match json::find_member(members, "status") {
            None => None,
            Some(Member::Text(status)) => Some(
                Err(text::with_cause(ACTIVATION_ERROR, status.as_str())),
            ),
            Some(_) => Some(Err(text::with_cause(NETWORK_ERROR, MISSING_STATUS))),
        },
    }
}

/// Understands a reply to a registration check. What is said of a reply that is no document comes
/// from the JSON library, which does not fix it.
pub fn registration_answer(reply: &[u8]) -> (r: Option<Result<(), String>>)
    ensures
        registration_understood(reply@, r),
        reply@ == text::utf8(REGISTERED@) <==> r is Some && r->0 is Ok,
{
    proof {
        text::lemma_chars(REGISTERED@);
    }
    let ghost outcome = registration_outcome(reply@, Seq::empty());
    let s: &str = match text::from_utf8(reply) {
        Ok(s) => s,
        Err(e) => return Some(Err(text::with_cause(NETWORK_ERROR, e.as_str()))),
    };
    if text::same_bytes(reply, REGISTERED.as_bytes()) {
        return Some(Ok(()));
    }
    if reply.len() == 0 {
        return Some(Err(ACTIVATION_ERROR.to_owned()));
    }
    match text::without_last(s) {
        None => None,
        Some(body) => {
            proof {
                text::lemma_chars(body@);
            }
            if !json::shallow(body) {
                return None;
            }
            let document = json::read(body);
            proof {
                assert(json::was_read(text::chars(reply@.drop_last()), document));
                if let DocumentView::Invalid(e) = document@ {
                    assert(document_outcome(document@) == registration_outcome(reply@, e));
                    assert(json::may_be_said(text::chars(reply@.drop_last()), e));
                } else {
                    assert(document_outcome(document@) == outcome);
                    assert(json::may_be_said(text::chars(reply@.drop_last()), Seq::empty()));
                }
            }
            read_registration(&document)
        },
    }
}

/// Understands the document of a reply to a request for an e-mail.
pub fn read_email(document: &Document) -> (r: Option<Result<(), String>>)
    ensures
        answers(r, email_document_outcome(json::content(document@))),
{
    match document {
        Document::Object(members) => match json::find_member(members, "status") {
            None => None,
            Some(Member::Text(status)) => Some(Err(status.as_str().to_owned())),
            Some(_) => Some(Err(BAD_RESPONSE.to_owned())),
        },
        _ => Some(Err(BAD_RESPONSE.to_owned())),
    }
}

/// Understands a reply to a request for an e-mail.
pub fn email_answer(reply: &[u8]) -> (r: Option<Result<(), String>>)
    ensures
        answers(r, email_outcome(reply@)),
{
    let s: &str = match text::from_utf8(reply) {
        Ok(s) => s,
        Err(_) => return Some(Err(BAD_RESPONSE.to_owned())),
    };
    if text::same_bytes(reply, EMAIL_SENT.as_bytes()) {
        return Some(Ok(()));
    }
    if reply.len() == 0 {
        return Some(Err(EMPTY_RESPONSE.to_owned()));
    }
    match text::without_last(s) {
        None => None,
        Some(body) => {
            proof {
                text::lemma_chars(body@);
            }
            if !json::shallow(body) {
                return None;
            }
            read_email(&json::read(body))
        },
    }
}

/// What is left of fields with distinct names has distinct names, and not the one left out.
proof fn lemma_without(fields: Seq<(Seq<char>, FieldView)>, name: Seq<char>)
    requires
        json::distinct_names(fields),
    ensures
        json::distinct_names(without(fields, name)),
        forall|i: int|
            0 <= i < without(fields, name).len() ==> (#[trigger] without(fields, name)[i]).0 != name
                && fields.contains(without(fields, name)[i]),
    decreases fields.len(),
{
    reveal(Seq::filter);
    if fields.len() > 0 {
        let head = fields.drop_last();
        let kept = without(head, name);
        lemma_without(head, name);
        assert forall|i: int| 0 <= i < without(fields, name).len() implies (
        #[trigger] without(fields, name)[i]).0 != name && fields.contains(
            without(fields, name)[i],
        ) by {
            let f = without(fields, name)[i];
            if i < kept.len() {
                assert(f == kept[i]);
                let j = choose|j: int| 0 <= j < head.len() && head[j] == f;
                assert(fields[j] == f);
            } else {
                assert(f == fields[fields.len() - 1]);
            }
        }
        assert forall|i: int, j: int| 0 <= i < j < without(fields, name).len() implies (
        #[trigger] without(fields, name)[i]).0 != (#[trigger] without(fields, name)[j]).0 by {
            if j == kept.len() {
                let k = choose|k: int| 0 <= k < head.len() && head[k] == kept[i];
                assert(fields[k].0 != fields[fields.len() - 1].0);
            } else {
                assert(kept[i].0 != kept[j].0);
            }
        }
    }
}

/// Removes a version from fields.
fn remove_version(fields: &mut Vec<(String, Field)>)
    ensures
        json::field_views(final(fields)@) == without(json::field_views(old(fields)@), "version"@),
{
    let ghost views = json::field_views(fields@);
    let ghost mut seen: int = 0;
    let mut i: usize = 0;
    proof {
        reveal(Seq::filter);
        assert(without(views.take(0), "version"@) =~= Seq::empty());
        assert(views.skip(0) =~= views);
    }
    while i < fields.len()
        invariant
            0 <= seen <= views.len(),
            i == without(views.take(seen), "version"@).len(),
            json::field_views(fields@) == without(views.take(seen), "version"@) + views.skip(seen),
        decreases fields.len() - i,
    {
        let ghost now = json::field_views(fields@);
        let ghost kept = without(views.take(seen), "version"@);
        proof {
            reveal(Seq::filter);
            assert(now.len() == fields@.len());
            assert(now[i as int] == views[seen]);
            assert(now[i as int].0 == fields@[i as int].0@);
            assert(views.take(seen + 1).drop_last() =~= views.take(seen));
            assert(views.take(seen + 1).last() == views[seen]);
        }
        if text::same_text(fields[i].0.as_str(), "version") {
            let _ = fields.remove(i);
            assert(json::field_views(fields@) =~= now.remove(i as int));
            assert(now.remove(i as int) =~= kept + views.skip(seen + 1));
        } else {
            i += 1;
            assert(now =~= kept.push(views[seen]) + views.skip(seen + 1));
        }
        proof {
            seen = seen + 1;
        }
    }
    proof {
        assert(views.skip(seen).len() == 0);
        assert(views.take(seen) =~= views);
        assert(json::field_views(fields@) =~= without(views, "version"@));
    }
}

/// The request that tells the server that a program runs without a key.
pub fn announcement(version: &str) -> (r: String)
    ensures
        is_request(r@, announcement_fields(version@)),
{
    let mut fields: Vec<(String, Field)> = Vec::new();
    fields.push(text_field("version", version));
    assert(json::field_views(fields@) =~= announcement_fields(version@));
    request(&fields)
}

impl LicenseManager {
    /// Asks the server whether a key is registered. There is no answer where the reply is none.
    pub fn check_registration<E: FnOnce(String) -> Result<Vec<u8>, Failure>>(
        key: String,
        version: &str,
        exchange: E,
    ) -> (r: Option<Result<(), String>>)
        requires
            may_send(exchange),
        ensures
            exchanged(
                registration_fields(version@, key@),
                exchange,
                |reply: Seq<u8>, answer: Option<Result<(), String>>|
                    registration_understood(reply, answer),
                r,
            ),
    {
        let mut fields: Vec<(String, Field)> = Vec::new();
        fields.push(text_field("version", version));
        fields.push(text_field("license", key.as_str()));
        proof {
            lemma_names_differ();
            assert(json::field_views(fields@) =~= registration_fields(version@, key@));
        }
        let line: String = request(&fields);
        match exchange(line) {
            Ok(reply) => registration_answer(reply.as_slice()),
            Err(failure) => Some(Err(describe(failure))),
        }
    }

    /// Asks the server to send an e-mail. The version of the key replaces one among the data. There
    /// is no answer where the reply is none.
    pub fn request_license_email<E: FnOnce(String) -> Result<Vec<u8>, Failure>>(
        build: &Build,
        data: Vec<(String, Field)>,
        exchange: E,
    ) -> (r: Option<Result<(), String>>)
        requires
            json::distinct_names(json::field_views(data@)),
            may_send(exchange),
        ensures
            email_requested(build.wasm32, json::field_views(data@), exchange, r),
    {
        if build.wasm32 {
            return Some(Err(NO_KEY_REQUIRED.to_owned()));
        }
        let ghost views = json::field_views(data@);
        let mut fields: Vec<(String, Field)> = data;
        remove_version(&mut fields);
        let ghost kept = json::field_views(fields@);
        fields.push(("version".to_owned(), Field::Number(KEY_VERSION)));
        proof {
            assert(json::field_views(fields@) =~= kept.push(
                ("version"@, FieldView::Number(KEY_VERSION)),
            ));
            lemma_without(views, "version"@);
        }
        let line: String = request(&fields);
        match exchange(line) {
            Ok(reply) => email_answer(reply.as_slice()),
            Err(failure) => Some(Err(describe(failure))),
        }
    }

    /// Requests a key for **non-professional** use for the user `name`, to be sent to `email`.
    pub fn request_hobbyist_license<E: FnOnce(String) -> Result<Vec<u8>, Failure>>(
        build: &Build,
        name: &str,
        email: &str,
        exchange: E,
    ) -> (r: Option<Result<(), String>>)
        requires
            may_send(exchange),
        ensures
            email_requested(build.wasm32, hobbyist_data(name@, email@), exchange, r),
    {
        let mut data: Vec<(String, Field)> = Vec::new();
        data.push(text_field("name", name));
        data.push(text_field("email", email));
        data.push(text_field("type", "hobbyist"));
        proof {
            lemma_names_differ();
            assert(json::field_views(data@) =~= hobbyist_data(name@, email@));
        }
        Self::request_license_email(build, data, exchange)
    }

    /// Requests a trial key for the user `name` working at `company`, to be sent to `email`.
    pub fn request_trial_license<E: FnOnce(String) -> Result<Vec<u8>, Failure>>(
        build: &Build,
        name: &str,
        email: &str,
        company: &str,
        exchange: E,
    ) -> (r: Option<Result<(), String>>)
        requires
            may_send(exchange),
        ensures
            email_requested(build.wasm32, trial_data(name@, email@, company@), exchange, r),
    {
        let mut data: Vec<(String, Field)> = Vec::new();
        data.push(text_field("name", name));
        data.push(text_field("email", email));
        data.push(text_field("company", company));
        data.push(text_field("type", "trial"));
        proof {
            lemma_names_differ();
            assert(json::field_views(data@) =~= trial_data(name@, email@, company@));
        }
        Self::request_license_email(build, data, exchange)
    }

    /// Requests a sublicense key for the user `name` working at `company`, which has the site-wide
    /// license `super_license`, to be sent to `email`.
    pub fn request_sublicense<E: FnOnce(String) -> Result<Vec<u8>, Failure>>(
        build: &Build,
        name: &str,
        email: &str,
        company: &str,
        super_license: &str,
        exchange: E,
    ) -> (r: Option<Result<(), String>>)
        requires
            may_send(exchange),
        ensures
            email_requested(
                build.wasm32,
                sublicense_data(name@, email@, company@, super_license@),
                exchange,
                r,
            ),
    {
        let mut data: Vec<(String, Field)> = Vec::new();
        data.push(text_field("name", name));
        data.push(text_field("email", email));
        data.push(text_field("company", company));
        data.push(text_field("type", "sublicense"));
        data.push(text_field("super_license", super_license));
        proof {
            lemma_names_differ();
            assert(json::field_views(data@) =~= sublicense_data(
                name@,
                email@,
                company@,
                super_license@,
            ));
        }
        Self::request_license_email(build, data, exchange)
    }

    /// Requests the key of the account that is registered with the address `email`.
    pub fn get_license_key<E: FnOnce(String) -> Result<Vec<u8>, Failure>>(
        build: &Build,
        email: &str,
        exchange: E,
    ) -> (r: Option<Result<(), String>>)
        requires
            may_send(exchange),
        ensures
            email_requested(build.wasm32, account_data(email@), exchange, r),
    {
        let mut data: Vec<(String, Field)> = Vec::new();
        data.push(text_field("email", email));
        proof {
            lemma_names_differ();
            assert(json::field_views(data@) =~= account_data(email@));
        }
        Self::request_license_email(build, data, exchange)
    }
}

/// A key counts as registered upon one reply alone, and upon every such reply.
pub proof fn law_registered_upon_one_reply(reply: Seq<u8>, error: Seq<char>)
    ensures
        registration_outcome(reply, error) == Some(Ok::<(), Seq<char>>(())) <==> reply
            == text::utf8(REGISTERED@),
{
    text::lemma_chars(REGISTERED@);
}

/// An e-mail counts as sent upon one reply alone, and upon every such reply.
pub proof fn law_email_sent_upon_one_reply(reply: Seq<u8>)
    ensures
        email_outcome(reply) == Some(Ok::<(), Seq<char>>(())) <==> reply == text::utf8(EMAIL_SENT@),
{
    text::lemma_chars(EMAIL_SENT@);
}

/// A text with one more character of one byte is a text.
proof fn lemma_longer_by_one(body: Seq<char>, end: u8)
    requires
        end < 128,
    ensures
        text::is_utf8(text::utf8(body).push(end)),
{
    let c = end as char;
    vstd::utf8::is_ascii_chars_encode_utf8(seq![c]);
    text::lemma_utf8_concat(body, seq![c]);
    assert(text::utf8(seq![c]) =~= seq![end]);
    assert(text::utf8(body).push(end) =~= text::utf8(body) + text::utf8(seq![c]));
    text::lemma_chars(body + seq![c]);
}

/// A reply is a document and one byte behind it. Other than upon the one reply that says that a key
/// is registered, or an e-mail sent, the status of the document is the reason why not; a document
/// without one is no answer.
pub proof fn law_status_is_the_reason(body: Seq<char>, end: u8, error: Seq<char>)
    requires
        end < 128,
        json::is_shallow(text::utf8(body)),
    ensures
        text::utf8(body).push(end) != text::utf8("{\"status\":\"ok\"}\n"@)
            ==> registration_outcome(text::utf8(body).push(end), error) == (
        match json::json_document(body) {
            Content::Invalid => Some(Err::<(), Seq<char>>("
┌───────────────────────────────────────────────────┐
│ Connection to Symbolica license server timed out. │
│                                                   │
│ Please check your network configuration.          │
└───────────────────────────────────────────────────┘"@ + "\nError: "@ + error)),
            Content::Other => Some(Err("
┌───────────────────────────────────────────────────┐
│ Connection to Symbolica license server timed out. │
│                                                   │
│ Please check your network configuration.          │
└───────────────────────────────────────────────────┘"@ + "\nError: "@ + "Empty response"@)),
            Content::Object(members) => if !members.contains_key("status"@) {
                None
            } else if let MemberView::Text(status) = members["status"@] {
                Some(Err("┌──────────────────────────────────────────┐
│ Could not activate the Symbolica license │
└──────────────────────────────────────────┘"@ + "\nError: "@ + status))
            } else {
                Some(Err("
┌───────────────────────────────────────────────────┐
│ Connection to Symbolica license server timed out. │
│                                                   │
│ Please check your network configuration.          │
└───────────────────────────────────────────────────┘"@ + "\nError: "@ + "missing status"@))
            },
        }),
        text::utf8(body).push(end) != text::utf8("{\"status\":\"email sent\"}\n"@)
            ==> email_outcome(text::utf8(body).push(end)) == (match json::json_document(body) {
            Content::Object(members) => if !members.contains_key("status"@) {
                None
            } else if let MemberView::Text(status) = members["status"@] {
                Some(Err::<(), Seq<char>>(status))
            } else {
                Some(Err("Bad server response"@))
            },
            _ => Some(Err("Bad server response"@)),
        }),
{
    lemma_longer_by_one(body, end);
    text::lemma_chars(body);
    assert(text::utf8(body).push(end).drop_last() =~= text::utf8(body));
}

/// What is said of an exchange that failed names what failed, and the cause where there is one.
pub proof fn law_failures_are_told_apart(failure: Failure)
    ensures
        failure_text(failure) == (match failure {
            Failure::Resolve(e) => "
┌───────────────────────────────────────────────────────────┐
│ Could not resolve the IP of the Symbolica license server. │
│                                                           │
│ Please check your DNS configuration.                      │
└───────────────────────────────────────────────────────────┘"@ + "\nError: "@ + e@,
            Failure::NoAddress => "
┌───────────────────────────────────────────────────────────┐
│ Could not resolve the IP of the Symbolica license server. │
│                                                           │
│ Please check your DNS configuration.                      │
└───────────────────────────────────────────────────────────┘"@,
            Failure::Refused => "
┌────────────────────────────────────────────────┐
│ Could not connect to Symbolica license server. │
│                                                │
│ Some networks block traffic to uncommon ports. │
│ Consider switching networks or using a VPN.    │
└────────────────────────────────────────────────┘"@,
            Failure::Setup(e) => e@,
            Failure::Broken(e) => "
┌───────────────────────────────────────────────────┐
│ Connection to Symbolica license server timed out. │
│                                                   │
│ Please check your network configuration.          │
└───────────────────────────────────────────────────┘"@ + "\nError: "@ + e@,
        }),
{
}

/// A request for an e-mail holds the version 3 once, every field of the data but a version, and
/// nothing else.
pub proof fn law_email_requests_hold_the_data(data: Seq<(Seq<char>, FieldView)>)
    requires
        json::distinct_names(data),
    ensures
        email_fields(data).contains(("version"@, FieldView::Number(3))),
        forall|i: int|
            0 <= i < data.len() && (#[trigger] data[i]).0 != "version"@ ==> email_fields(
                data,
            ).contains(data[i]),
        forall|i: int|
            0 <= i < email_fields(data).len() ==> (#[trigger] email_fields(data)[i]) == (
            "version"@,
            FieldView::Number(3),
        ) || data.contains(email_fields(data)[i]),
        json::distinct_names(email_fields(data)),
{
    lemma_without(data, "version"@);
    let kept = without(data, "version"@);
    let all = email_fields(data);
    assert(all[kept.len() as int] == ("version"@, FieldView::Number(3)));
    assert forall|i: int| 0 <= i < data.len() && (#[trigger] data[i]).0 != "version"@ implies
        all.contains(data[i]) by {
        lemma_without_keeps(data, "version"@, i);
        let j = choose|j: int| 0 <= j < kept.len() && kept[j] == data[i];
        assert(all[j] == data[i]);
    }
    assert forall|i: int, j: int| 0 <= i < j < all.len() implies (#[trigger] all[i]).0 != (
    #[trigger] all[j]).0 by {
        assert(all[i] == kept[i]);
        if j < kept.len() {
            assert(all[j] == kept[j]);
        }
    }
}

/// A field with another name is kept.
proof fn lemma_without_keeps(fields: Seq<(Seq<char>, FieldView)>, name: Seq<char>, i: int)
    requires
        0 <= i < fields.len(),
        fields[i].0 != name,
    ensures
        without(fields, name).contains(fields[i]),
    decreases fields.len(),
{
    reveal(Seq::filter);
    let head = fields.drop_last();
    let kept = without(head, name);
    let all = without(fields, name);
    if i < head.len() {
        lemma_without_keeps(head, name, i);
        let j = choose|j: int| 0 <= j < kept.len() && kept[j] == fields[i];
        assert(all[j] == fields[i]);
    } else {
        assert(all[kept.len() as int] == fields[i]);
    }
}

} // verus!
