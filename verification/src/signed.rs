//! Compact issuer-signed offline and OEM licenses.
//!
//! An offline key reads `S-USER-YYYY.MM.DD-SIGNATURE`, with the signature in Base32, in groups
//! joined by `-` as the issuer likes. An OEM key is `SL1.` and the Base64url text of the signed
//! bytes. Either way the signature covers a domain prefix and a payload: one byte for the kind,
//! four for the expiration, eight for the user, and for an OEM key the crate it is bound to.

use crate::calendar;
use crate::clock;
use crate::encoding;
use crate::messages::OUTDATED_LICENSE_KEY_ERROR;
use crate::signature;
use crate::signature::{PUBLIC_KEY_LEN, SIGNATURE_LEN};
use crate::text;
use vstd::prelude::*;

verus! {

/// The public key of the issuer, in Base64url.
pub const SYMBOLICA_PUBLIC_KEY: &'static str = "Symbol0xSzzb9RiGMF9hUS-YG6mM0aptGeWJ6gZ5syI";

/// What an OEM key begins with.
pub const PREFIX: &'static str = "SL1.";

/// What stands in front of the payload in the signed message.
pub const DOMAIN: &'static str = "Symbolica license v1\0";

/// The length of the payload without a crate name.
pub const HEADER_LEN: usize = 13;

/// The number of Base32 symbols of a signature.
pub const ENCODED_SIGNATURE_LEN: usize = 103;

/// The length of a signature text with a separator between any two symbols.
pub const MAX_SIGNATURE_TEXT_LEN: usize = 205;

/// The length of the longest offline key: `S-`, twenty digits, a date, a signature text and the
/// separators between them.
pub const MAX_OFFLINE_LEN: usize = 239;

/// The length of the longest crate name.
pub const MAX_CRATE_LEN: usize = 255;

/// The length of the longest Base64url text of an OEM key.
pub const MAX_OEM_LEN: usize = 444;

/// The kind byte of an offline payload.
pub const OFFLINE_KIND: u8 = 1;

/// The kind byte of an OEM payload.
pub const OEM_KIND: u8 = 2;

/// A key beyond the longest that can be valid.
pub const TOO_LONG: &'static str = "Signed Symbolica license is too long";

/// An offline key without its first two characters.
pub const INVALID_FORMAT: &'static str = "Invalid signed Symbolica offline license format";

/// An offline key that ends behind the user.
pub const MISSING_DATE: &'static str = "Missing offline expiration date";

/// An offline key that ends behind the date.
pub const MISSING_SIGNATURE: &'static str = "Missing offline license signature";

/// A user that is no positive 64-bit number in decimal digits.
pub const INVALID_USER: &'static str = "Invalid offline license user ID";

/// A signature text that is too long or has an empty group.
pub const INVALID_GROUPING: &'static str = "Invalid offline signature length or grouping";

/// A signature text with the wrong number of symbols.
pub const INVALID_SIGNATURE_LENGTH: &'static str = "Invalid offline signature length";

/// A signature or an OEM key that is no Base32 or Base64url text.
pub const INVALID_ENCODING: &'static str = "Invalid signed Symbolica license encoding";

/// Signed bytes with no room for a payload and a signature.
pub const TRUNCATED: &'static str = "Signed Symbolica license is truncated";

/// A public key that is no Base64url text.
pub const INVALID_PUBLIC_KEY: &'static str = "Invalid compiled Symbolica public key";

/// A public key of the wrong length.
pub const INVALID_PUBLIC_KEY_LENGTH: &'static str = "Invalid compiled Symbolica public key length";

/// A signature that does not fit the message.
pub const INVALID_SIGNATURE: &'static str = "Invalid signed Symbolica license signature";

/// An OEM key for another crate.
pub const WRONG_CRATE: &'static str = "OEM license does not match the calling crate";

/// A payload of another kind or length.
pub const WRONG_PURPOSE: &'static str =
    "Signed Symbolica license has the wrong purpose or payload length";

/// A payload for the user zero.
pub const INVALID_USER_ID: &'static str = "Signed Symbolica license has an invalid user ID";

/// A key at or after its expiration.
pub const EXPIRED: &'static str = "Signed Symbolica license has expired; request a new key";

/// A clock before the Unix epoch.
pub const CLOCK_ERROR: &'static str = "System clock is before the Unix epoch";

/// What a license is used for.
#[derive(Clone, Copy)]
pub enum Purpose<'a> {
    /// Activation by a key of the user.
    Offline,
    /// Activation of the named crate by a key built into it.
    Oem(&'a str),
}

/// What a license grants.
#[derive(Debug, PartialEq, Eq)]
pub struct Claims {
    /// The user to whom it was issued.
    pub user_id: u64,
    /// The Unix timestamp from which on it is no longer valid.
    pub expires_at: u32,
}

/// Whether a signature text consists of groups that are not empty, joined by `-`.
pub open spec fn well_grouped(s: Seq<u8>) -> bool {
    &&& s.len() > 0
    &&& s[0] != '-' as u8
    &&& s.last() != '-' as u8
    &&& forall|i: int| 0 < i < s.len() && s[i - 1] == '-' as u8 ==> #[trigger] s[i] != '-' as u8
}

/// The symbols of a signature text, without the separators.
pub open spec fn symbols(s: Seq<u8>) -> Seq<u8> {
    s.filter(|b: u8| b != '-' as u8)
}

/// The signature that a signature text writes.
pub open spec fn offline_signature(s: Seq<u8>) -> Result<Seq<u8>, Seq<char>> {
    if s.len() > MAX_SIGNATURE_TEXT_LEN || !well_grouped(s) {
        Err(INVALID_GROUPING@)
    } else if symbols(s).len() != ENCODED_SIGNATURE_LEN {
        Err(INVALID_SIGNATURE_LENGTH@)
    } else {
        match encoding::base32(symbols(s)) {
            Some(bytes) => Ok(bytes),
            None => Err(INVALID_ENCODING@),
        }
    }
}

/// Whether a field of an offline key is a user: a positive number without leading zeros that fits
/// in 64 bits.
pub open spec fn is_user(s: Seq<u8>) -> bool {
    &&& s.len() > 0
    &&& s[0] != '0' as u8
    &&& text::all_digits(s)
    &&& text::digits_value(s) <= u64::MAX
}

/// The payload without a crate name.
pub open spec fn header(kind: u8, expires_at: u32, user_id: u64) -> Seq<u8> {
    seq![kind] + encoding::be_bytes(expires_at as int, 4) + encoding::be_bytes(user_id as int, 8)
}

/// The three fields of an offline key behind `S-`, as the signed bytes that they stand for.
pub open spec fn offline_fields(user: Seq<u8>, date: Seq<u8>, sig: Seq<u8>) -> Result<
    Seq<u8>,
    Seq<char>,
> {
    if !is_user(user) {
        Err(INVALID_USER@)
    } else {
        match (calendar::expiration_outcome(date), offline_signature(sig)) {
            (Err(e), _) => Err(e),
            (_, Err(e)) => Err(e),
            (Ok(expires_at), Ok(bytes)) => Ok(
                header(OFFLINE_KIND, expires_at, text::digits_value(user) as u64) + bytes,
            ),
        }
    }
}

/// Whether a key has one of the prefixes of formats that are no longer accepted.
pub open spec fn is_outdated_offline(token: Seq<u8>) -> bool {
    ||| text::has_prefix(token, text::utf8("SYMBOLICA2-"@))
    ||| (text::has_prefix(token, text::utf8("SL"@)) && !text::has_prefix(
        token,
        text::utf8(PREFIX@),
    ))
}

/// The signed bytes that an offline key stands for.
pub open spec fn offline_bytes(token: Seq<u8>) -> Result<Seq<u8>, Seq<char>> {
    let dash = '-' as u8;
    let encoded = token.skip(2);
    let rest = text::after(encoded, dash);
    if is_outdated_offline(token) {
        Err(OUTDATED_LICENSE_KEY_ERROR@)
    } else if token.len() > MAX_OFFLINE_LEN {
        Err(TOO_LONG@)
    } else if !text::has_prefix(token, text::utf8("S-"@)) {
        Err(INVALID_FORMAT@)
    } else if !encoded.contains(dash) {
        Err(MISSING_DATE@)
    } else if !rest.contains(dash) {
        Err(MISSING_SIGNATURE@)
    } else {
        offline_fields(
            text::before(encoded, dash),
            text::before(rest, dash),
            text::after(rest, dash),
        )
    }
}

/// The signed bytes that an OEM key stands for.
pub open spec fn oem_bytes(token: Seq<u8>) -> Result<Seq<u8>, Seq<char>> {
    let encoded = token.skip(4);
    if !text::has_prefix(token, text::utf8(PREFIX@)) {
        Err(OUTDATED_LICENSE_KEY_ERROR@)
    } else if encoded.len() > MAX_OEM_LEN {
        Err(TOO_LONG@)
    } else {
        match encoding::base64url(encoded) {
            Some(bytes) => Ok(bytes),
            None => Err(INVALID_ENCODING@),
        }
    }
}

/// The signed bytes that a key stands for.
pub open spec fn signed_bytes(token: Seq<u8>, purpose: Purpose<'_>) -> Result<
    Seq<u8>,
    Seq<char>,
> {
    match purpose {
        Purpose::Offline => offline_bytes(token),
        Purpose::Oem(_) => oem_bytes(token),
    }
}

/// The payload of signed bytes: what stands in front of the signature.
pub open spec fn payload_of(bytes: Seq<u8>) -> Seq<u8> {
    bytes.take(bytes.len() - SIGNATURE_LEN)
}

/// The signature at the end of signed bytes.
pub open spec fn signature_of(bytes: Seq<u8>) -> Seq<u8> {
    bytes.skip(bytes.len() - SIGNATURE_LEN)
}

/// The message that a license signature covers.
pub open spec fn signed_message(payload: Seq<u8>) -> Seq<u8> {
    text::utf8(DOMAIN@) + payload
}

/// The user that a payload names.
pub open spec fn payload_user(payload: Seq<u8>) -> int {
    encoding::big_endian(payload.subrange(5, 13))
}

/// The expiration that a payload names.
pub open spec fn payload_expiration(payload: Seq<u8>) -> int {
    encoding::big_endian(payload.subrange(1, 5))
}

/// Whether bytes are a crate name: letters, digits and underscores, not too many.
pub open spec fn is_crate_name(name: Seq<u8>) -> bool {
    &&& 0 < name.len() <= MAX_CRATE_LEN
    &&& forall|i: int|
        0 <= i < name.len() ==> text::is_alphanumeric(#[trigger] name[i]) || name[i] == '_' as u8
}

/// Whether a payload serves a purpose, or why it does not.
pub open spec fn purpose_outcome(payload: Seq<u8>, purpose: Purpose<'_>) -> Result<
    (),
    Seq<char>,
> {
    match purpose {
        Purpose::Offline => if payload[0] == OFFLINE_KIND && payload.len() == HEADER_LEN {
            Ok(())
        } else {
            Err(WRONG_PURPOSE@)
        },
        Purpose::Oem(crate_name) => if payload[0] != OEM_KIND {
            Err(WRONG_PURPOSE@)
        } else if is_crate_name(payload.skip(HEADER_LEN as int)) && payload.skip(HEADER_LEN as int)
            == text::utf8(crate_name@) {
            Ok(())
        } else {
            Err(WRONG_CRATE@)
        },
    }
}

/// The claims of a payload at a time, once its signature was found valid.
pub open spec fn payload_outcome(payload: Seq<u8>, purpose: Purpose<'_>, now: u64) -> Result<
    Claims,
    Seq<char>,
> {
    match purpose_outcome(payload, purpose) {
        Err(e) => Err(e),
        Ok(()) => if payload_user(payload) == 0 {
            Err(INVALID_USER_ID@)
        } else if now >= payload_expiration(payload) {
            Err(EXPIRED@)
        } else {
            Ok(
                Claims {
                    user_id: payload_user(payload) as u64,
                    expires_at: payload_expiration(payload) as u32,
                },
            )
        },
    }
}

/// The claims of signed bytes at a time, under a public key in Base64url.
pub open spec fn bytes_outcome(
    bytes: Seq<u8>,
    purpose: Purpose<'_>,
    now: u64,
    public_key: Seq<u8>,
) -> Result<Claims, Seq<char>> {
    if bytes.len() < HEADER_LEN + SIGNATURE_LEN {
        Err(TRUNCATED@)
    } else {
        match encoding::base64url(public_key) {
            None => Err(INVALID_PUBLIC_KEY@),
            Some(key) => if key.len() != PUBLIC_KEY_LEN {
                Err(INVALID_PUBLIC_KEY_LENGTH@)
            } else if !signature::ed25519_accepts(
                key,
                signed_message(payload_of(bytes)),
                signature_of(bytes),
            ) {
                Err(INVALID_SIGNATURE@)
            } else {
                payload_outcome(payload_of(bytes), purpose, now)
            },
        }
    }
}

/// What a key grants for a purpose at a time, under a public key in Base64url.
pub open spec fn license_outcome(
    token: Seq<u8>,
    purpose: Purpose<'_>,
    now: u64,
    public_key: Seq<u8>,
) -> Result<Claims, Seq<char>> {
    match signed_bytes(token, purpose) {
        Err(e) => Err(e),
        Ok(bytes) => bytes_outcome(bytes, purpose, now, public_key),
    }
}

/// What a key of the issuer grants for a purpose when the clock shows `clock`.
pub open spec fn issued_outcome(
    token: Seq<u8>,
    purpose: Purpose<'_>,
    clock: Option<u64>,
) -> Result<Claims, Seq<char>> {
    match clock {
        None => Err(CLOCK_ERROR@),
        Some(now) => license_outcome(token, purpose, now, text::utf8(SYMBOLICA_PUBLIC_KEY@)),
    }
}

/// Tests whether a signature text consists of groups that are not empty.
fn is_well_grouped(s: &[u8]) -> (r: bool)
    ensures
        r == well_grouped(s@),
{
    if s.len() == 0 || s[0] == '-' as u8 || s[s.len() - 1] == '-' as u8 {
        return false;
    }
    let mut i: usize = 1;
    while i < s.len()
        invariant
            1 <= i <= s@.len(),
            forall|j: int|
                0 < j < i && s@[j - 1] == '-' as u8 ==> #[trigger] s@[j] != '-' as u8,
        decreases s.len() - i,
    {
        if s[i - 1] == '-' as u8 && s[i] == '-' as u8 {
            return false;
        }
        i += 1;
    }
    true
}

/// The symbols of a signature text.
fn strip_separators(s: &[u8]) -> (r: Vec<u8>)
    ensures
        r@ == symbols(s@),
{
    let mut out: Vec<u8> = Vec::new();
    let mut i: usize = 0;
    while i < s.len()
        invariant
            i <= s@.len(),
            out@ == symbols(s@.take(i as int)),
        decreases s.len() - i,
    {
        proof {
            assert(s@.take(i + 1).drop_last() =~= s@.take(i as int));
            assert(s@.take(i + 1).last() == s@[i as int]);
            reveal(Seq::filter);
        }
        if s[i] != '-' as u8 {
            out.push(s[i]);
        }
        i += 1;
    }
    assert(s@.take(i as int) =~= s@);
    out
}

/// Decodes a signature text given as bytes.
fn decode_signature_bytes(s: &[u8]) -> (r: Result<Vec<u8>, String>)
    ensures
        text::agrees_bytes(r, offline_signature(s@)),
{
    if s.len() > MAX_SIGNATURE_TEXT_LEN || !is_well_grouped(s) {
        return Err(INVALID_GROUPING.to_owned());
    }
    let encoded: Vec<u8> = strip_separators(s);
    if encoded.len() != ENCODED_SIGNATURE_LEN {
        return Err(INVALID_SIGNATURE_LENGTH.to_owned());
    }
    match encoding::decode_base32(encoded.as_slice()) {
        Some(bytes) => Ok(bytes),
        None => Err(INVALID_ENCODING.to_owned()),
    }
}

/// Decodes the signature of an offline key; groups of symbols may be joined by `-`.
pub fn decode_offline_signature(signature: &str) -> (r: Result<Vec<u8>, String>)
    ensures
        text::agrees_bytes(r, offline_signature(text::utf8(signature@))),
        r matches Ok(bytes) ==> bytes@.len() == SIGNATURE_LEN,
{
    let r = decode_signature_bytes(signature.as_bytes());
    proof {
        lemma_signature_len(text::utf8(signature@));
    }
    r
}

/// A signature text that is accepted stands for a signature of the right length.
pub proof fn lemma_signature_len(s: Seq<u8>)
    ensures
        offline_signature(s) matches Ok(bytes) ==> bytes.len() == SIGNATURE_LEN,
{
    if let Ok(bytes) = offline_signature(s) {
        assert(encoding::is_base32(symbols(s), bytes));
    }
}

/// Decodes an offline key to the signed bytes that it stands for.
pub fn decode_offline(token: &str) -> (r: Result<Vec<u8>, String>)
    ensures
        text::agrees_bytes(r, offline_bytes(text::utf8(token@))),
{
    let s = token.as_bytes();
    if text::starts_with(s, "SYMBOLICA2-".as_bytes()) || (text::starts_with(s, "SL".as_bytes())
        && !text::starts_with(s, PREFIX.as_bytes())) {
        return Err(OUTDATED_LICENSE_KEY_ERROR.to_owned());
    }
    if s.len() > MAX_OFFLINE_LEN {
        return Err(TOO_LONG.to_owned());
    }
    if !text::starts_with(s, "S-".as_bytes()) {
        return Err(INVALID_FORMAT.to_owned());
    }
    proof {
        lemma_offline_prefix();
    }
    let encoded = vstd::slice::slice_subrange(s, 2, s.len());
    assert(encoded@ =~= s@.skip(2));
    let dash: u8 = '-' as u8;
    let first: usize = text::position(encoded, dash);
    if first == encoded.len() {
        return Err(MISSING_DATE.to_owned());
    }
    let rest = vstd::slice::slice_subrange(encoded, first + 1, encoded.len());
    assert(rest@ =~= text::after(encoded@, dash));
    let second: usize = text::position(rest, dash);
    if second == rest.len() {
        return Err(MISSING_SIGNATURE.to_owned());
    }
    let user = vstd::slice::slice_subrange(encoded, 0, first);
    let date = vstd::slice::slice_subrange(rest, 0, second);
    let sig = vstd::slice::slice_subrange(rest, second + 1, rest.len());
    assert(user@ =~= text::before(encoded@, dash));
    assert(date@ =~= text::before(rest@, dash));
    assert(sig@ =~= text::after(rest@, dash));
    decode_offline_fields(user, date, sig)
}

/// Decodes the fields of an offline key.
fn decode_offline_fields(user: &[u8], date: &[u8], sig: &[u8]) -> (r: Result<Vec<u8>, String>)
    ensures
        text::agrees_bytes(r, offline_fields(user@, date@, sig@)),
{
    if user.len() == 0 || user[0] == '0' as u8 || !text::only_digits(user) {
        return Err(INVALID_USER.to_owned());
    }
    let user_id: u64 = match text::parse_u64(user) {
        Some(user_id) => user_id,
        None => return Err(INVALID_USER.to_owned()),
    };
    let expires_at: u32 = match calendar::parse_expiration_bytes(date) {
        Ok(expires_at) => expires_at,
        Err(e) => return Err(e),
    };
    let bytes: Vec<u8> = match decode_signature_bytes(sig) {
        Ok(bytes) => bytes,
        Err(e) => return Err(e),
    };
    let mut out: Vec<u8> = Vec::new();
    out.push(OFFLINE_KIND);
    encoding::push_be(&mut out, expires_at as u64, 4);
    encoding::push_be(&mut out, user_id, 8);
    assert(out@ =~= header(OFFLINE_KIND, expires_at, user_id));
    out.extend_from_slice(bytes.as_slice());
    assert(out@ =~= header(OFFLINE_KIND, expires_at, user_id) + bytes@);
    Ok(out)
}

/// What `S-` and the OEM prefix are, byte by byte.
pub proof fn lemma_offline_prefix()
    ensures
        text::utf8("S-"@) == seq!['S' as u8, '-' as u8],
        text::utf8(PREFIX@) == seq!['S' as u8, 'L' as u8, '1' as u8, '.' as u8],
{
    reveal_strlit("S-");
    reveal_strlit("SL1.");
    vstd::utf8::is_ascii_chars_encode_utf8("S-"@);
    vstd::utf8::is_ascii_chars_encode_utf8(PREFIX@);
    assert(text::utf8("S-"@) =~= seq!['S' as u8, '-' as u8]);
    assert(text::utf8(PREFIX@) =~= seq!['S' as u8, 'L' as u8, '1' as u8, '.' as u8]);
}

/// Decodes an OEM key to the signed bytes that it stands for.
fn decode_oem(token: &str) -> (r: Result<Vec<u8>, String>)
    ensures
        text::agrees_bytes(r, oem_bytes(text::utf8(token@))),
{
    let s = token.as_bytes();
    if !text::starts_with(s, PREFIX.as_bytes()) {
        return Err(OUTDATED_LICENSE_KEY_ERROR.to_owned());
    }
    proof {
        lemma_offline_prefix();
    }
    let encoded = vstd::slice::slice_subrange(s, 4, s.len());
    assert(encoded@ =~= s@.skip(4));
    if encoded.len() > MAX_OEM_LEN {
        return Err(TOO_LONG.to_owned());
    }
    match encoding::decode_base64url(encoded) {
        Some(bytes) => Ok(bytes),
        None => Err(INVALID_ENCODING.to_owned()),
    }
}

/// Tests whether bytes are a crate name.
fn names_a_crate(name: &[u8]) -> (r: bool)
    ensures
        r == is_crate_name(name@),
{
    if name.len() == 0 || name.len() > MAX_CRATE_LEN {
        return false;
    }
    let mut i: usize = 0;
    while i < name.len()
        invariant
            i <= name@.len(),
            forall|j: int|
                0 <= j < i ==> text::is_alphanumeric(#[trigger] name@[j]) || name@[j] == '_' as u8,
        decreases name.len() - i,
    {
        if !text::alphanumeric(name[i]) && name[i] != '_' as u8 {
            assert(!(text::is_alphanumeric(name@[i as int]) || name@[i as int] == '_' as u8));
            return false;
        }
        i += 1;
    }
    true
}

/// Tests whether a payload serves a purpose.
fn check_purpose(payload: &[u8], purpose: Purpose<'_>) -> (r: Result<(), String>)
    requires
        payload@.len() >= HEADER_LEN,
    ensures
        text::agrees(r, purpose_outcome(payload@, purpose)),
{
    match purpose {
        Purpose::Offline => if payload[0] == OFFLINE_KIND && payload.len() == HEADER_LEN {
            Ok(())
        } else {
            Err(WRONG_PURPOSE.to_owned())
        },
        Purpose::Oem(crate_name) => {
            if payload[0] != OEM_KIND {
                return Err(WRONG_PURPOSE.to_owned());
            }
            let package = vstd::slice::slice_subrange(payload, HEADER_LEN, payload.len());
            assert(package@ =~= payload@.skip(HEADER_LEN as int));
            if names_a_crate(package) && text::same_bytes(package, crate_name.as_bytes()) {
                Ok(())
            } else {
                Err(WRONG_CRATE.to_owned())
            }
        },
    }
}

/// Reads the claims of a payload whose signature was found valid.
fn read_payload(payload: &[u8], purpose: Purpose<'_>, now: u64) -> (r: Result<Claims, String>)
    requires
        payload@.len() >= HEADER_LEN,
    ensures
        text::agrees(r, payload_outcome(payload@, purpose, now)),
{
    match check_purpose(payload, purpose) {
        Err(e) => return Err(e),
        Ok(()) => {},
    }
    let expires = vstd::slice::slice_subrange(payload, 1, 5);
    let user = vstd::slice::slice_subrange(payload, 5, 13);
    let expires_at: u64 = encoding::read_be(expires);
    let user_id: u64 = encoding::read_be(user);
    proof {
        encoding::lemma_big_endian_bound(expires@);
        reveal_with_fuel(encoding::pow256, 5);
    }
    if user_id == 0 {
        return Err(INVALID_USER_ID.to_owned());
    }
    if now >= expires_at {
        return Err(EXPIRED.to_owned());
    }
    Ok(Claims { user_id, expires_at: expires_at as u32 })
}

/// Verifies a key for a purpose at a given time, under a public key in Base64url.
pub fn verify_with_key(token: &str, purpose: Purpose<'_>, now: u64, public_key: &str) -> (r: Result<
    Claims,
    String,
>)
    requires
        text::utf8(public_key@).len() <= usize::MAX / 8,
    ensures
        text::agrees(
            r,
            license_outcome(text::utf8(token@), purpose, now, text::utf8(public_key@)),
        ),
{
    let decoded = match purpose {
        Purpose::Offline => decode_offline(token),
        Purpose::Oem(_) => decode_oem(token),
    };
    let bytes: Vec<u8> = match decoded {
        Ok(bytes) => bytes,
        Err(e) => return Err(e),
    };
    if bytes.len() < HEADER_LEN + SIGNATURE_LEN {
        return Err(TRUNCATED.to_owned());
    }
    let at: usize = bytes.len() - SIGNATURE_LEN;
    let payload = vstd::slice::slice_subrange(bytes.as_slice(), 0, at);
    let sig = vstd::slice::slice_subrange(bytes.as_slice(), at, bytes.len());
    assert(payload@ =~= payload_of(bytes@));
    assert(sig@ =~= signature_of(bytes@));
    let key: Vec<u8> = match encoding::decode_base64url(public_key.as_bytes()) {
        Some(key) => key,
        None => return Err(INVALID_PUBLIC_KEY.to_owned()),
    };
    if key.len() != PUBLIC_KEY_LEN {
        return Err(INVALID_PUBLIC_KEY_LENGTH.to_owned());
    }
    let mut message: Vec<u8> = Vec::new();
    message.extend_from_slice(DOMAIN.as_bytes());
    message.extend_from_slice(payload);
    assert(message@ =~= signed_message(payload@));
    if !signature::ed25519_verify(key.as_slice(), message.as_slice(), sig) {
        return Err(INVALID_SIGNATURE.to_owned());
    }
    read_payload(payload, purpose, now)
}

/// Verifies a key of the issuer for a purpose when the clock shows `clock`.
pub fn verify_at(token: &str, purpose: Purpose<'_>, clock: Option<u64>) -> (r: Result<
    Claims,
    String,
>)
    ensures
        text::agrees(r, issued_outcome(text::utf8(token@), purpose, clock)),
{
    proof {
        reveal_strlit("Symbol0xSzzb9RiGMF9hUS-YG6mM0aptGeWJ6gZ5syI");
        vstd::utf8::is_ascii_chars_encode_utf8(SYMBOLICA_PUBLIC_KEY@);
    }
    match clock {
        Some(now) => verify_with_key(token, purpose, now, SYMBOLICA_PUBLIC_KEY),
        None => Err(CLOCK_ERROR.to_owned()),
    }
}

/// Verifies a key of the issuer for a purpose at the present time.
pub fn verify(token: &str, purpose: Purpose<'_>) -> (r: Result<Claims, String>)
    ensures
        exists|clock: Option<u64>|
            clock::shown(clock) && text::agrees(
                r,
                #[trigger] issued_outcome(text::utf8(token@), purpose, clock),
            ),
{
    let clock = clock::read();
    verify_at(token, purpose, clock)
}

} // verus!
