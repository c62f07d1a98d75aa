//! Library unlock tokens: a signed JSON object that names a package and its license.
//!
//! A token is the Base64url text of the object, a dot, and the Base64url text of its signature.

use crate::double;
use crate::encoding;
use crate::json;
use crate::json::{Content, Document, Member, MemberView};
use crate::signature;
use crate::signature::{PUBLIC_KEY_LEN, SIGNATURE_LEN};
use crate::signed;
use crate::signed::SYMBOLICA_PUBLIC_KEY;
use crate::text;
use vstd::prelude::*;

verus! {

/// The public key of the issuer of development tokens, in Base64url.
pub const TEST_UNLOCK_PUBLIC_KEY: &'static str = "FTlMMgb7IKbxHiS-E7bp_W2ZqhPeqXpZ_Or40Jpjvns";

/// The license of the development token.
pub const TEST_UNLOCK_LICENSE: &'static str = "SYMBOLICA_UNLOCK_TEST";

/// The development token.
pub const TEST_UNLOCK_TOKEN: &'static str =
    "eyJsaWNlbnNlIjoiU1lNQk9MSUNBX1VOTE9DS19URVNUIiwicGFja2FnZSI6InB5c2VjZGVjIiwidmVyc2lvbiI6MX0.VKUj1gBSnqHBETCWB7UV2ySynCfmPlTZ8RvEx4HR0Nr4w1n-SDHkneMOKFAuKfDmvY14YmW9WwDx7JDCHKKOBQ";

/// What the license of a token begins with.
pub const LICENSE_PREFIX: &'static str = "SYMBOLICA_UNLOCK_";

/// The length of [`LICENSE_PREFIX`].
pub const LICENSE_PREFIX_LEN: usize = 17;

/// A public key that is no Base64url text.
pub const INVALID_PUBLIC_KEY: &'static str =
    "Invalid compiled Symbolica library unlock public key";

/// A public key of the wrong length.
pub const INVALID_PUBLIC_KEY_LENGTH: &'static str =
    "Invalid compiled Symbolica library unlock public key length";

/// A token without a dot, or with more than one.
pub const INVALID_FORMAT: &'static str = "Invalid Symbolica library unlock token format";

/// A payload that is no Base64url text.
pub const INVALID_PAYLOAD_ENCODING: &'static str =
    "Invalid Symbolica library unlock token payload encoding";

/// A signature that is no Base64url text.
pub const INVALID_SIGNATURE_ENCODING: &'static str =
    "Invalid Symbolica library unlock token signature encoding";

/// A signature of the wrong length.
pub const INVALID_SIGNATURE_LENGTH: &'static str =
    "Invalid Symbolica library unlock token signature length";

/// A signature that does not fit the payload.
pub const INVALID_SIGNATURE: &'static str = "Invalid Symbolica library unlock token signature";

/// A payload that is no text.
pub const NOT_UTF8: &'static str = "Symbolica library unlock token payload is not UTF-8";

/// A payload that is no JSON document, or nests deeper than one that is read.
pub const INVALID_JSON: &'static str = "Invalid Symbolica library unlock token JSON";

/// A payload that is another JSON document than an object.
pub const NOT_AN_OBJECT: &'static str = "Symbolica library unlock token payload is not an object";

/// A payload without a package, or with none that can be one.
pub const INVALID_PACKAGE: &'static str =
    "Symbolica library unlock token has invalid package claim";

/// A payload without a license, or with none that can be one.
pub const INVALID_LICENSE: &'static str =
    "Symbolica library unlock token has invalid license claim";

/// What is said in front of the version of a token that is not supported.
pub const UNSUPPORTED_VERSION: &'static str =
    "Unsupported Symbolica library unlock token version ";

/// What is said in front of the name of an integer claim that is missing.
pub const MISSING_INTEGER: &'static str = "Library unlock token is missing integer claim '";

/// What is said in front of the name of an integer claim that is no positive integer.
pub const INVALID_INTEGER: &'static str = "Library unlock token has invalid integer claim '";

/// What a token grants.
#[derive(Clone, Debug, PartialEq, Eq)]
pub struct UnlockClaims {
    /// The package that it unlocks.
    pub package: String,
    /// The license under which it does so.
    pub license: String,
    /// What tells the token from others: the text of its signature.
    pub token_id: String,
}

/// What [`UnlockClaims`] stand for.
pub struct UnlockClaimsView {
    /// The package.
    pub package: Seq<char>,
    /// The license.
    pub license: Seq<char>,
    /// The text of the signature.
    pub token_id: Seq<char>,
}

impl View for UnlockClaims {
    type V = UnlockClaimsView;

    open spec fn view(&self) -> UnlockClaimsView {
        UnlockClaimsView {
            package: self.package@,
            license: self.license@,
            token_id: self.token_id@,
        }
    }
}

/// Whether a signature is accepted under a public key in Base64url.
pub open spec fn signature_outcome(
    public_key: Seq<u8>,
    payload: Seq<u8>,
    sig: Seq<u8>,
) -> Result<bool, Seq<char>> {
    match encoding::base64url(public_key) {
        None => Err(INVALID_PUBLIC_KEY@),
        Some(key) => if key.len() != PUBLIC_KEY_LEN {
            Err(INVALID_PUBLIC_KEY_LENGTH@)
        } else {
            Ok(signature::ed25519_accepts(key, payload, sig))
        },
    }
}

/// Whether a signature is accepted under the key of the issuer or, in a development build, under
/// that of development tokens.
pub open spec fn issuer_outcome(payload: Seq<u8>, sig: Seq<u8>, development: bool) -> Result<
    bool,
    Seq<char>,
> {
    match signature_outcome(text::utf8(SYMBOLICA_PUBLIC_KEY@), payload, sig) {
        Err(e) => Err(e),
        Ok(accepted) => if accepted || !development {
            Ok(accepted)
        } else {
            signature_outcome(text::utf8(TEST_UNLOCK_PUBLIC_KEY@), payload, sig)
        },
    }
}

/// A positive integer claim.
pub open spec fn integer_claim(claims: Map<Seq<char>, MemberView>, name: Seq<char>) -> Result<
    usize,
    Seq<char>,
> {
    if !claims.contains_key(name) {
        Err(MISSING_INTEGER@ + name + "'"@)
    } else {
        match claims[name] {
            MemberView::Number(bits) => match double::positive_usize(bits) {
                Some(n) => Ok(n),
                None => Err(INVALID_INTEGER@ + name + "'"@),
            },
            _ => Err(MISSING_INTEGER@ + name + "'"@),
        }
    }
}

/// Whether bytes are a package name: letters, digits, dots and underscores.
pub open spec fn is_package(name: Seq<u8>) -> bool {
    &&& name.len() > 0
    &&& forall|i: int|
        0 <= i < name.len() ==> text::is_alphanumeric(#[trigger] name[i]) || name[i] == '.' as u8
            || name[i] == '_' as u8
}

/// Whether bytes are a license: the prefix and something behind it.
pub open spec fn is_license(name: Seq<u8>) -> bool {
    text::has_prefix(name, text::utf8(LICENSE_PREFIX@)) && name.len() > LICENSE_PREFIX_LEN
}

/// A text claim of the form that is wanted.
pub open spec fn text_claim(
    claims: Map<Seq<char>, MemberView>,
    name: Seq<char>,
    wanted: spec_fn(Seq<u8>) -> bool,
) -> Option<Seq<char>> {
    if claims.contains_key(name) {
        match claims[name] {
            MemberView::Text(s) => if wanted(text::utf8(s)) {
                Some(s)
            } else {
                None
            },
            _ => None,
        }
    } else {
        None
    }
}

/// What the object of a token grants, apart from the token's name.
pub open spec fn object_outcome(claims: Map<Seq<char>, MemberView>, token_id: Seq<char>) -> Result<
    UnlockClaimsView,
    Seq<char>,
> {
    match integer_claim(claims, "version"@) {
        Err(e) => Err(e),
        Ok(version) => if version != 1 {
            Err(UNSUPPORTED_VERSION@ + text::decimal(version as nat))
        } else {
            match text_claim(claims, "package"@, |b: Seq<u8>| is_package(b)) {
                None => Err(INVALID_PACKAGE@),
                Some(package) => match text_claim(
                    claims,
                    "license"@,
                    |b: Seq<u8>| is_license(b),
                ) {
                    None => Err(INVALID_LICENSE@),
                    Some(license) => Ok(UnlockClaimsView { package, license, token_id }),
                },
            }
        },
    }
}

/// What the document of a token grants.
pub open spec fn document_outcome(document: Content, token_id: Seq<char>) -> Result<
    UnlockClaimsView,
    Seq<char>,
> {
    match document {
        Content::Invalid => Err(INVALID_JSON@),
        Content::Other => Err(NOT_AN_OBJECT@),
        Content::Object(claims) => object_outcome(claims, token_id),
    }
}

/// What a payload grants once its signature was found valid.
pub open spec fn payload_outcome(payload: Seq<u8>, token_id: Seq<char>) -> Result<
    UnlockClaimsView,
    Seq<char>,
> {
    if !text::is_utf8(payload) {
        Err(NOT_UTF8@)
    } else if !json::is_shallow(payload) {
        Err(INVALID_JSON@)
    } else {
        document_outcome(json::json_document(text::chars(payload)), token_id)
    }
}

/// The text in front of the dot of a token.
pub open spec fn payload_text(token: Seq<u8>) -> Seq<u8> {
    text::before(token, '.' as u8)
}

/// The text behind the dot of a token.
pub open spec fn signature_text(token: Seq<u8>) -> Seq<u8> {
    text::after(token, '.' as u8)
}

/// What a token grants.
pub open spec fn token_outcome(token: Seq<u8>, development: bool) -> Result<
    UnlockClaimsView,
    Seq<char>,
> {
    if !token.contains('.' as u8) || signature_text(token).contains('.' as u8) {
        Err(INVALID_FORMAT@)
    } else {
        match (
            encoding::base64url(payload_text(token)),
            encoding::base64url(signature_text(token)),
        ) {
            (None, _) => Err(INVALID_PAYLOAD_ENCODING@),
            (_, None) => Err(INVALID_SIGNATURE_ENCODING@),
            (Some(payload), Some(sig)) => if sig.len() != SIGNATURE_LEN {
                Err(INVALID_SIGNATURE_LENGTH@)
            } else {
                match issuer_outcome(payload, sig, development) {
                    Err(e) => Err(e),
                    Ok(accepted) => if !accepted {
                        Err(INVALID_SIGNATURE@)
                    } else {
                        payload_outcome(payload, text::chars(signature_text(token)))
                    },
                }
            },
        }
    }
}

/// A result beside what is named of it.
pub open spec fn agrees(
    r: Result<UnlockClaims, String>,
    s: Result<UnlockClaimsView, Seq<char>>,
) -> bool {
    match (r, s) {
        (Ok(claims), Ok(view)) => claims@ == view,
        (Err(e), Err(m)) => e@ == m,
        _ => false,
    }
}

/// Verifies a signature under a public key in Base64url.
pub fn verify_signature(public_key: &str, payload: &[u8], sig: &[u8]) -> (r: Result<bool, String>)
    requires
        text::utf8(public_key@).len() <= usize::MAX / 8,
        sig@.len() == SIGNATURE_LEN,
    ensures
        text::agrees(r, signature_outcome(text::utf8(public_key@), payload@, sig@)),
{
    let key: Vec<u8> = match encoding::decode_base64url(public_key.as_bytes()) {
        Some(key) => key,
        None => return Err(INVALID_PUBLIC_KEY.to_owned()),
    };
    if key.len() != PUBLIC_KEY_LEN {
        return Err(INVALID_PUBLIC_KEY_LENGTH.to_owned());
    }
    Ok(signature::ed25519_verify(key.as_slice(), payload, sig))
}

/// Verifies a signature under the keys that the build trusts.
fn verify_issuer(payload: &[u8], sig: &[u8], development: bool) -> (r: Result<bool, String>)
    requires
        sig@.len() == SIGNATURE_LEN,
    ensures
        text::agrees(r, issuer_outcome(payload@, sig@, development)),
{
    proof {
        reveal_strlit("Symbol0xSzzb9RiGMF9hUS-YG6mM0aptGeWJ6gZ5syI");
        reveal_strlit("FTlMMgb7IKbxHiS-E7bp_W2ZqhPeqXpZ_Or40Jpjvns");
        vstd::utf8::is_ascii_chars_encode_utf8(SYMBOLICA_PUBLIC_KEY@);
        vstd::utf8::is_ascii_chars_encode_utf8(TEST_UNLOCK_PUBLIC_KEY@);
    }
    match verify_signature(SYMBOLICA_PUBLIC_KEY, payload, sig) {
        Ok(false) if development => verify_signature(TEST_UNLOCK_PUBLIC_KEY, payload, sig),
        r => r,
    }
}

/// A message about a claim.
fn about_claim(message: &str, name: &str) -> (r: String)
    ensures
        r@ == message@ + name@ + "'"@,
{
    let mut out: String = message.to_owned();
    out.append(name);
    out.append("'");
    out
}

/// Reads a positive integer claim.
pub fn get_usize_claim(claims: &Vec<(String, Member)>, name: &str) -> (r: Result<usize, String>)
    ensures
        text::agrees(r, integer_claim(json::members_by_name(claims@), name@)),
{
    match json::find_member(claims, name) {
        Some(Member::Number(bits)) => match double::read_positive_usize(*bits) {
            Some(n) => Ok(n),
            None => Err(about_claim(INVALID_INTEGER, name)),
        },
        _ => Err(about_claim(MISSING_INTEGER, name)),
    }
}

/// Tests whether bytes are a package name.
fn names_a_package(name: &[u8]) -> (r: bool)
    ensures
        r == is_package(name@),
{
    if name.len() == 0 {
        return false;
    }
    let mut i: usize = 0;
    while i < name.len()
        invariant
            i <= name@.len(),
            forall|j: int|
                0 <= j < i ==> text::is_alphanumeric(#[trigger] name@[j]) || name@[j] == '.' as u8
                    || name@[j] == '_' as u8,
        decreases name.len() - i,
    {
        if !text::alphanumeric(name[i]) && name[i] != '.' as u8 && name[i] != '_' as u8 {
            assert(!text::is_alphanumeric(name@[i as int]));
            return false;
        }
        i += 1;
    }
    true
}

/// Reads the claims of the object of a token.
fn read_claims(claims: &Vec<(String, Member)>, token_id: &str) -> (r: Result<UnlockClaims, String>)
    ensures
        agrees(r, object_outcome(json::members_by_name(claims@), token_id@)),
{
    let version: usize = match get_usize_claim(claims, "version") {
        Ok(version) => version,
        Err(e) => return Err(e),
    };
    if version != 1 {
        let mut e: String = UNSUPPORTED_VERSION.to_owned();
        e.append(text::decimal_text(version).as_str());
        return Err(e);
    }
    let package: String = match json::find_member(claims, "package") {
        Some(Member::Text(s)) if names_a_package(s.as_str().as_bytes()) => s.clone(),
        _ => return Err(INVALID_PACKAGE.to_owned()),
    };
    let license: String = match json::find_member(claims, "license") {
        Some(Member::Text(s)) if text::starts_with(
            s.as_str().as_bytes(),
            LICENSE_PREFIX.as_bytes(),
        ) && s.as_str().as_bytes().len() > LICENSE_PREFIX_LEN => s.clone(),
        _ => return Err(INVALID_LICENSE.to_owned()),
    };
    Ok(UnlockClaims { package, license, token_id: token_id.to_owned() })
}

/// Reads the claims of the document of a token.
pub fn read_document(document: &Document, token_id: &str) -> (r: Result<UnlockClaims, String>)
    ensures
        agrees(r, document_outcome(json::content(document@), token_id@)),
{
    match document {
        Document::Invalid(_) => Err(INVALID_JSON.to_owned()),
        Document::Other => Err(NOT_AN_OBJECT.to_owned()),
        Document::Object(claims) => read_claims(claims, token_id),
    }
}

/// Reads the claims of a payload whose signature was found valid. A payload that grants anything
/// is an object, so it begins with a brace or white space.
fn read_payload(payload: &[u8], token_id: &str) -> (r: Result<UnlockClaims, String>)
    ensures
        agrees(r, payload_outcome(payload@, token_id@)),
        r is Ok ==> payload@.len() > 0 && payload@[0] != 'S' as u8,
{
    match text::from_utf8(payload) {
        Err(_) => Err(NOT_UTF8.to_owned()),
        Ok(t) => {
            proof {
                text::lemma_chars(t@);
            }
            if !json::shallow(t) {
                return Err(INVALID_JSON.to_owned());
            }
            let document = json::read(t);
            proof {
                if document is Object {
                    let first = seq![t@[0]];
                    assert(t@ =~= first + t@.skip(1));
                    text::lemma_utf8_concat(first, t@.skip(1));
                    vstd::utf8::is_ascii_chars_encode_utf8(first);
                    assert(payload@[0] == text::utf8(first)[0]);
                }
            }
            read_document(&document, token_id)
        },
    }
}

/// Verifies a token. In a development build the issuer of development tokens is trusted too. No
/// message that a license signature covers is ever taken for the payload of a token, whoever
/// signed it.
pub fn verify_token(token: &str, development: bool) -> (r: Result<UnlockClaims, String>)
    requires
        text::utf8(token@).len() <= usize::MAX / 8,
    ensures
        agrees(r, token_outcome(text::utf8(token@), development)),
        r is Ok ==> forall|license_payload: Seq<u8>|
            encoding::base64url(payload_text(text::utf8(token@))) != Some(
                #[trigger] signed::signed_message(license_payload),
            ),
{
    let s = token.as_bytes();
    let dot: u8 = '.' as u8;
    let at: usize = text::position(s, dot);
    let sig_text: &str = match text::text_after(token, dot) {
        Some(sig_text) => sig_text,
        None => return Err(INVALID_FORMAT.to_owned()),
    };
    let encoded_sig = sig_text.as_bytes();
    if text::position(encoded_sig, dot) < encoded_sig.len() {
        return Err(INVALID_FORMAT.to_owned());
    }
    let encoded_payload = vstd::slice::slice_subrange(s, 0, at);
    assert(encoded_payload@ =~= payload_text(s@));
    let payload: Vec<u8> = match encoding::decode_base64url(encoded_payload) {
        Some(payload) => payload,
        None => return Err(INVALID_PAYLOAD_ENCODING.to_owned()),
    };
    let sig: Vec<u8> = match encoding::decode_base64url(encoded_sig) {
        Some(sig) => sig,
        None => return Err(INVALID_SIGNATURE_ENCODING.to_owned()),
    };
    if sig.len() != SIGNATURE_LEN {
        return Err(INVALID_SIGNATURE_LENGTH.to_owned());
    }
    match verify_issuer(payload.as_slice(), sig.as_slice(), development) {
        Err(e) => return Err(e),
        Ok(accepted) => if !accepted {
            return Err(INVALID_SIGNATURE.to_owned());
        },
    }
    proof {
        text::lemma_chars(sig_text@);
        reveal_strlit("Symbolica license v1\0");
        vstd::utf8::is_ascii_chars_encode_utf8(signed::DOMAIN@);
        assert forall|license_payload: Seq<u8>| (#[trigger] signed::signed_message(
            license_payload,
        ))[0] == 'S' as u8 by {}
    }
    read_payload(payload.as_slice(), sig_text)
}

/// A token that was put together is taken apart again: a payload and a signature that the issuer's
/// key accepts, written in Base64url with a dot between, grant what the payload says, under the
/// text of the signature.
pub proof fn law_token_reads_back(
    encoded: Seq<u8>,
    encoded_sig: Seq<u8>,
    payload: Seq<u8>,
    sig: Seq<u8>,
    development: bool,
)
    requires
        encoding::base64url(encoded) == Some(payload),
        encoding::base64url(encoded_sig) == Some(sig),
        sig.len() == SIGNATURE_LEN,
        issuer_outcome(payload, sig, development) == Ok::<bool, Seq<char>>(true),
    ensures
        token_outcome(encoded.push('.' as u8) + encoded_sig, development) == payload_outcome(
            payload,
            text::chars(encoded_sig),
        ),
{
    lemma_token_parts(encoded, encoded_sig);
}

/// Two Base64url texts with a dot between are taken apart again.
pub(crate) proof fn lemma_token_parts(encoded: Seq<u8>, encoded_sig: Seq<u8>)
    requires
        encoding::base64url(encoded) is Some,
        encoding::base64url(encoded_sig) is Some,
    ensures
        (encoded.push('.' as u8) + encoded_sig).contains('.' as u8),
        !encoded_sig.contains('.' as u8),
        payload_text(encoded.push('.' as u8) + encoded_sig) == encoded,
        signature_text(encoded.push('.' as u8) + encoded_sig) == encoded_sig,
{
    let dot = '.' as u8;
    let token = encoded.push(dot) + encoded_sig;
    assert(encoding::is_base64url(encoded, encoding::base64url(encoded)->0));
    assert(encoding::is_base64url(encoded_sig, encoding::base64url(encoded_sig)->0));
    let symbol = |b: u8| encoding::base64url_symbol(b);
    assert(encoding::all_symbols(encoded, symbol) && encoding::all_symbols(encoded_sig, symbol));
    assert(symbol(dot) is None);
    assert forall|i: int| 0 <= i < encoded.len() implies token[i] != dot by {
        assert(symbol(encoded[i]) is Some);
    }
    assert(token[encoded.len() as int] == dot);
    text::lemma_find_is(token, dot, encoded.len() as int);
    assert(payload_text(token) =~= encoded);
    assert(signature_text(token) =~= encoded_sig);
    if encoded_sig.contains(dot) {
        let i = choose|i: int| 0 <= i < encoded_sig.len() && encoded_sig[i] == dot;
        assert(symbol(encoded_sig[i]) is Some);
    }
}

/// A token has one name: two texts that carry the same payload and the same signature are the
/// same text, so a copy in another spelling is not a second token.
pub proof fn law_token_spelling_is_unique(a: Seq<u8>, b: Seq<u8>, development: bool)
    requires
        token_outcome(a, development) is Ok,
        token_outcome(b, development) is Ok,
        encoding::base64url(payload_text(a)) == encoding::base64url(payload_text(b)),
        encoding::base64url(signature_text(a)) == encoding::base64url(signature_text(b)),
    ensures
        a == b,
{
    let dot = '.' as u8;
    encoding::law_base64url_is_canonical(
        payload_text(a),
        payload_text(b),
        encoding::base64url(payload_text(a))->0,
    );
    encoding::law_base64url_is_canonical(
        signature_text(a),
        signature_text(b),
        encoding::base64url(signature_text(a))->0,
    );
    text::lemma_find(a, dot);
    text::lemma_find(b, dot);
    assert(a =~= payload_text(a).push(dot) + signature_text(a));
    assert(b =~= payload_text(b).push(dot) + signature_text(b));
}

/// A token that a release build accepts is accepted by a development build, with the same claims.
pub proof fn law_development_only_adds_trust(token: Seq<u8>)
    requires
        token_outcome(token, false) is Ok,
    ensures
        token_outcome(token, true) == token_outcome(token, false),
{
}

} // verus!
