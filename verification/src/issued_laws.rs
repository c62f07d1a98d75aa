//! What the keys of the issuer are, byte by byte: every one that is written like this is accepted,
//! and none other.

use crate::calendar;
use crate::encoding;
use crate::signature;
use crate::signed;
use crate::signed::{Claims, Purpose};
use crate::signed_laws;
use crate::text;
use vstd::prelude::*;

verus! {

/// The fields of a payload, as sums over its bytes.
proof fn lemma_payload_fields(payload: Seq<u8>)
    requires
        payload.len() >= 13,
    ensures
        signed::payload_expiration(payload) == payload[1] * 0x100_0000 + payload[2] * 0x1_0000
            + payload[3] * 0x100 + payload[4],
        signed::payload_user(payload) == payload[5] * 0x100_0000_0000_0000 + payload[6]
            * 0x1_0000_0000_0000 + payload[7] * 0x100_0000_0000 + payload[8] * 0x1_0000_0000
            + payload[9] * 0x100_0000 + payload[10] * 0x1_0000 + payload[11] * 0x100 + payload[12],
{
    let e = encoding::byte_digits(payload.subrange(1, 5));
    let u = encoding::byte_digits(payload.subrange(5, 13));
    reveal_with_fuel(encoding::number, 9);
    assert(e =~= seq![
        payload[1] as int,
        payload[2] as int,
        payload[3] as int,
        payload[4] as int,
    ]);
    assert(u =~= seq![
        payload[5] as int,
        payload[6] as int,
        payload[7] as int,
        payload[8] as int,
        payload[9] as int,
        payload[10] as int,
        payload[11] as int,
        payload[12] as int,
    ]);
    assert(e.drop_last() =~= seq![payload[1] as int, payload[2] as int, payload[3] as int]);
    assert(e.drop_last().drop_last() =~= seq![payload[1] as int, payload[2] as int]);
}

/// Every offline key of the issuer is accepted until it expires. Its payload is the byte 1, four
/// bytes for the expiration and eight for the user. The key is `S-`, the user in decimal digits,
/// the date with which it expires and the Base32 text of the signature, in groups that are not
/// empty, with dashes between. The signature is one of the payload behind the words
/// `Symbolica license v1` and a zero byte.
pub proof fn law_issued_offline_keys_are_accepted(
    key: Seq<u8>,
    payload: Seq<u8>,
    user_id: u64,
    expires_at: u32,
    date: Seq<u8>,
    sig: Seq<u8>,
    encoded: Seq<u8>,
    sig_bytes: Seq<u8>,
    now: u64,
)
    requires
        encoding::is_base64url(
            text::utf8("Symbol0xSzzb9RiGMF9hUS-YG6mM0aptGeWJ6gZ5syI"@),
            key,
        ),
        payload.len() == 13,
        payload[0] == 1,
        expires_at == payload[1] * 0x100_0000 + payload[2] * 0x1_0000 + payload[3] * 0x100
            + payload[4],
        user_id == payload[5] * 0x100_0000_0000_0000 + payload[6] * 0x1_0000_0000_0000 + payload[7]
            * 0x100_0000_0000 + payload[8] * 0x1_0000_0000 + payload[9] * 0x100_0000 + payload[10]
            * 0x1_0000 + payload[11] * 0x100 + payload[12],
        user_id > 0,
        calendar::expiration(date) == Some(expires_at),
        sig.len() > 0,
        sig[0] != 45,
        sig[sig.len() - 1] != 45,
        forall|i: int| 0 < i < sig.len() && sig[i - 1] == 45 ==> #[trigger] sig[i] != 45,
        encoded == sig.filter(|b: u8| b != 45),
        encoding::is_base32(encoded, sig_bytes),
        sig_bytes.len() == 64,
        signature::ed25519_accepts(key, text::utf8("Symbolica license v1\0"@) + payload, sig_bytes),
    ensures
        signed::issued_outcome(
            text::utf8("S-"@) + text::utf8(text::decimal(user_id as nat)) + seq![45u8] + date
                + seq![45u8] + sig,
            Purpose::Offline,
            Some(now),
        ) == (if now < expires_at {
            Ok(Claims { user_id, expires_at })
        } else {
            Err("Signed Symbolica license has expired; request a new key"@)
        }),
{
    let public_key = text::utf8("Symbol0xSzzb9RiGMF9hUS-YG6mM0aptGeWJ6gZ5syI"@);
    lemma_decodes(public_key, key);
    lemma_key_len(public_key, key);
    lemma_payload_fields(payload);
    signed_laws::lemma_header(payload);
    assert(payload.take(13) =~= payload);
    assert(encoded.len() == 103);
    assert(sig.filter(|b: u8| b != 45) =~= signed::symbols(sig)) by {
        lemma_filters_agree(sig);
    }
    assert(signed::well_grouped(sig));
    let chosen = encoding::base32(encoded)->0;
    encoding::lemma_decoding_unique(
        encoded,
        chosen,
        sig_bytes,
        5,
        |b: u8| encoding::base32_symbol(b),
    );
    signed_laws::law_grouping_is_optional(sig, sig);
    signed_laws::law_offline_round_trip(
        user_id,
        date,
        sig,
        now,
        public_key,
        expires_at,
        sig_bytes,
        key,
    );
    assert('-' as u8 == 45u8);
}

/// The symbols of a signature text are its bytes other than dashes.
proof fn lemma_filters_agree(s: Seq<u8>)
    ensures
        s.filter(|b: u8| b != 45) == signed::symbols(s),
    decreases s.len(),
{
    reveal(Seq::filter);
    if s.len() > 0 {
        lemma_filters_agree(s.drop_last());
    }
}

/// A text that encodes bytes is decoded to them.
proof fn lemma_decodes(encoded: Seq<u8>, bytes: Seq<u8>)
    requires
        encoding::is_base64url(encoded, bytes),
    ensures
        encoding::base64url(encoded) == Some(bytes),
{
    encoding::lemma_decoding_unique(
        encoded,
        encoding::base64url(encoded)->0,
        bytes,
        6,
        |b: u8| encoding::base64url_symbol(b),
    );
}

/// The public key of the issuer has 32 bytes.
proof fn lemma_key_len(encoded: Seq<u8>, key: Seq<u8>)
    requires
        encoded == text::utf8("Symbol0xSzzb9RiGMF9hUS-YG6mM0aptGeWJ6gZ5syI"@),
        encoding::is_base64url(encoded, key),
    ensures
        key.len() == 32,
{
    reveal_strlit("Symbol0xSzzb9RiGMF9hUS-YG6mM0aptGeWJ6gZ5syI");
    vstd::utf8::is_ascii_chars_encode_utf8("Symbol0xSzzb9RiGMF9hUS-YG6mM0aptGeWJ6gZ5syI"@);
    assert(encoded.len() == 43);
}

/// Every OEM key of the issuer is accepted for its crate until it expires. Its payload is the byte
/// 2, four bytes for the expiration, eight for the user and the name of the crate, of up to 255
/// letters, digits and underscores. The key is `SL1.` and the Base64url text of the payload and
/// its signature. For any other crate it is refused.
pub proof fn law_issued_oem_keys_are_accepted(
    key: Seq<u8>,
    payload: Seq<u8>,
    user_id: u64,
    expires_at: u32,
    sig_bytes: Seq<u8>,
    encoded: Seq<u8>,
    crate_name: &str,
    now: u64,
)
    requires
        encoding::is_base64url(
            text::utf8("Symbol0xSzzb9RiGMF9hUS-YG6mM0aptGeWJ6gZ5syI"@),
            key,
        ),
        13 < payload.len() <= 13 + 255,
        payload[0] == 2,
        expires_at == payload[1] * 0x100_0000 + payload[2] * 0x1_0000 + payload[3] * 0x100
            + payload[4],
        user_id == payload[5] * 0x100_0000_0000_0000 + payload[6] * 0x1_0000_0000_0000 + payload[7]
            * 0x100_0000_0000 + payload[8] * 0x1_0000_0000 + payload[9] * 0x100_0000 + payload[10]
            * 0x1_0000 + payload[11] * 0x100 + payload[12],
        user_id > 0,
        forall|i: int|
            13 <= i < payload.len() ==> 48 <= #[trigger] payload[i] <= 57 || 65 <= payload[i] <= 90
                || 97 <= payload[i] <= 122 || payload[i] == 95,
        sig_bytes.len() == 64,
        encoding::is_base64url(encoded, payload + sig_bytes),
        signature::ed25519_accepts(key, text::utf8("Symbolica license v1\0"@) + payload, sig_bytes),
    ensures
        signed::issued_outcome(
            text::utf8("SL1."@) + encoded,
            Purpose::Oem(crate_name),
            Some(now),
        ) == (if payload.skip(13) != text::utf8(crate_name@) {
            Err("OEM license does not match the calling crate"@)
        } else if now < expires_at {
            Ok(Claims { user_id, expires_at })
        } else {
            Err("Signed Symbolica license has expired; request a new key"@)
        }),
{
    let public_key = text::utf8("Symbol0xSzzb9RiGMF9hUS-YG6mM0aptGeWJ6gZ5syI"@);
    let token = text::utf8("SL1."@) + encoded;
    let bytes = payload + sig_bytes;
    lemma_decodes(public_key, key);
    lemma_key_len(public_key, key);
    lemma_decodes(encoded, bytes);
    lemma_payload_fields(payload);
    signed::lemma_offline_prefix();
    assert(token.take(4) =~= text::utf8("SL1."@));
    assert(token.skip(4) =~= encoded);
    assert(encoded.len() <= 444);
    assert(signed::payload_of(bytes) =~= payload);
    assert(signed::signature_of(bytes) =~= sig_bytes);
    let name = payload.skip(13);
    assert(signed::is_crate_name(name)) by {
        assert forall|i: int| 0 <= i < name.len() implies text::is_alphanumeric(#[trigger] name[i])
            || name[i] == '_' as u8 by {
            assert(name[i] == payload[i + 13]);
        }
    }
}

/// Without a time no key is accepted.
pub proof fn law_no_key_is_accepted_without_a_time(token: Seq<u8>, purpose: Purpose<'_>)
    ensures
        signed::issued_outcome(token, purpose, None) == Err::<Claims, Seq<char>>(
            "System clock is before the Unix epoch"@,
        ),
{
}

/// Whether a payload was signed under a public key, names the claims and serves the purpose, and
/// the token stands for it.
pub open spec fn is_issued(
    key: Seq<u8>,
    token: Seq<u8>,
    purpose: Purpose<'_>,
    claims: Claims,
    payload: Seq<u8>,
    sig_bytes: Seq<u8>,
) -> bool {
    &&& signature::ed25519_accepts(
        key,
        text::utf8("Symbolica license v1\0"@) + payload,
        sig_bytes,
    )
    &&& payload.len() >= 13
    &&& sig_bytes.len() == 64
    &&& claims.expires_at == payload[1] * 0x100_0000 + payload[2] * 0x1_0000 + payload[3] * 0x100
        + payload[4]
    &&& claims.user_id == payload[5] * 0x100_0000_0000_0000 + payload[6] * 0x1_0000_0000_0000
        + payload[7] * 0x100_0000_0000 + payload[8] * 0x1_0000_0000 + payload[9] * 0x100_0000
        + payload[10] * 0x1_0000 + payload[11] * 0x100 + payload[12]
    &&& match purpose {
        Purpose::Offline => payload.len() == 13 && payload[0] == 1 && has_fields(
            token,
            claims,
            sig_bytes,
        ),
        Purpose::Oem(crate_name) => payload[0] == 2 && payload.skip(13) == text::utf8(crate_name@)
            && token.take(4) == text::utf8("SL1."@) && encoding::is_base64url(
            token.skip(4),
            payload + sig_bytes,
        ),
    }
}

/// No other key is accepted: where a key is, the issuer signed a payload that names the user, an
/// expiration that is still to come and, for OEM use, the crate. An offline key writes the same
/// user and the same expiration in its fields, and an OEM key is the Base64url text of the payload
/// and the signature.
pub proof fn law_accepted_keys_are_issued(
    key: Seq<u8>,
    token: Seq<u8>,
    purpose: Purpose<'_>,
    now: u64,
    claims: Claims,
)
    requires
        encoding::is_base64url(
            text::utf8("Symbol0xSzzb9RiGMF9hUS-YG6mM0aptGeWJ6gZ5syI"@),
            key,
        ),
        signed::issued_outcome(token, purpose, Some(now)) == Ok::<Claims, Seq<char>>(claims),
    ensures
        now < claims.expires_at,
        claims.user_id > 0,
        exists|payload: Seq<u8>, sig_bytes: Seq<u8>| #[trigger]
            is_issued(key, token, purpose, claims, payload, sig_bytes),
{
    let public_key = text::utf8("Symbol0xSzzb9RiGMF9hUS-YG6mM0aptGeWJ6gZ5syI"@);
    lemma_decodes(public_key, key);
    let bytes = signed::signed_bytes(token, purpose)->Ok_0;
    let payload = signed::payload_of(bytes);
    let sig_bytes = signed::signature_of(bytes);
    lemma_payload_fields(payload);
    signed_laws::lemma_payload_bounds(payload);
    assert(payload + sig_bytes =~= bytes);
    assert(signature::ed25519_accepts(
        key,
        text::utf8("Symbolica license v1\0"@) + payload,
        sig_bytes,
    ));
    if purpose is Offline {
        lemma_has_fields(token, claims, payload, sig_bytes);
    } else {
        signed::lemma_offline_prefix();
        assert(encoding::is_base64url(token.skip(4), bytes));
    }
    assert(is_issued(key, token, purpose, claims, payload, sig_bytes));
}

/// `S-` and three fields, with dashes between.
pub open spec fn joined(user: Seq<u8>, date: Seq<u8>, sig: Seq<u8>) -> Seq<u8> {
    seq![83u8, 45u8] + user + seq![45u8] + date + seq![45u8] + sig
}

/// Whether a token is `S-`, the digits of the user, the date of the expiration and the Base32 text
/// of the signature, with dashes between.
pub open spec fn has_fields(token: Seq<u8>, claims: Claims, sig_bytes: Seq<u8>) -> bool {
    exists|user: Seq<u8>, date: Seq<u8>, sig: Seq<u8>|
        {
            &&& token == #[trigger] joined(user, date, sig)
            &&& text::digits_value(user) == claims.user_id
            &&& user.len() > 0
            &&& forall|i: int| 0 <= i < user.len() ==> 48 <= #[trigger] user[i] <= 57
            &&& user[0] != 48
            &&& calendar::expiration(date) == Some(claims.expires_at)
            &&& encoding::is_base32(sig.filter(|b: u8| b != 45), sig_bytes)
        }
}

/// The fields of an offline key that was decoded.
proof fn lemma_has_fields(
    token: Seq<u8>,
    claims: Claims,
    payload: Seq<u8>,
    sig_bytes: Seq<u8>,
)
    requires
        payload.len() == 13,
        sig_bytes.len() == 64,
        signed::offline_bytes(token) == Ok::<Seq<u8>, Seq<char>>(payload + sig_bytes),
        signed::payload_user(payload) == claims.user_id,
        signed::payload_expiration(payload) == claims.expires_at,
    ensures
        has_fields(token, claims, sig_bytes),
{
    let dash = '-' as u8;
    signed::lemma_offline_prefix();
    let encoded = token.skip(2);
    let rest = text::after(encoded, dash);
    let user = text::before(encoded, dash);
    let date = text::before(rest, dash);
    let sig = text::after(rest, dash);
    text::lemma_find(encoded, dash);
    text::lemma_find(rest, dash);
    let bytes = signed::offline_signature(sig)->Ok_0;
    signed::lemma_signature_len(sig);
    let expires_at = calendar::expiration(date)->0;
    let user_id = text::digits_value(user) as u64;
    let head = signed::header(signed::OFFLINE_KIND, expires_at, user_id);
    signed_laws::lemma_header_reads_back(signed::OFFLINE_KIND, expires_at, user_id, Seq::empty());
    assert(head + Seq::<u8>::empty() =~= head);
    assert((payload + sig_bytes).take(13) =~= payload);
    assert((payload + sig_bytes).skip(13) =~= sig_bytes);
    assert((head + bytes).take(13) =~= head);
    assert((head + bytes).skip(13) =~= bytes);
    lemma_filters_agree(sig);
    lemma_not_negative(user);
    assert(token.take(2) =~= seq![83u8, 45u8]);
    assert(token =~= joined(user, date, sig));
    assert forall|i: int| 0 <= i < user.len() implies 48 <= #[trigger] user[i] <= 57 by {
        assert(text::is_digit(user[i]));
    }
}

/// Digits write no negative number.
proof fn lemma_not_negative(s: Seq<u8>)
    requires
        text::all_digits(s),
    ensures
        text::digits_value(s) >= 0,
    decreases s.len(),
{
    if s.len() > 0 {
        let head = s.drop_last();
        assert forall|i: int| 0 <= i < head.len() implies text::is_digit(#[trigger] head[i]) by {
            assert(text::is_digit(s[i]));
        }
        lemma_not_negative(head);
        assert(text::is_digit(s[s.len() - 1]));
    }
}

/// An offline key is taken apart at its first two dashes, and the first field that is wrong is the
/// one that is named: the user, which is a number of 64 bits without leading zeros, other than
/// zero; then the date; then the signature, for its groups, its number of symbols or a symbol.
pub proof fn law_offline_fields_are_judged_in_turn(a: Seq<u8>, b: Seq<u8>, c: Seq<u8>)
    requires
        forall|i: int| 0 <= i < a.len() ==> #[trigger] a[i] != 45,
        forall|i: int| 0 <= i < b.len() ==> #[trigger] b[i] != 45,
        a.len() + b.len() + c.len() + 4 <= 239,
    ensures
        signed::offline_bytes(seq![83u8, 45u8] + a) == Err::<Seq<u8>, Seq<char>>(
            "Missing offline expiration date"@,
        ),
        signed::offline_bytes(seq![83u8, 45u8] + a + seq![45u8] + b) == Err::<Seq<u8>, Seq<char>>(
            "Missing offline license signature"@,
        ),
        ({
            let is_user = a.len() > 0 && a[0] != 48 && (forall|i: int|
                0 <= i < a.len() ==> 48 <= #[trigger] a[i] <= 57) && text::digits_value(a)
                <= 0xffff_ffff_ffff_ffff;
            let is_grouped = 0 < c.len() <= 205 && c[0] != 45 && c[c.len() - 1] != 45 && (
            forall|i: int| 0 < i < c.len() && c[i - 1] == 45 ==> #[trigger] c[i] != 45);
            let symbols = c.filter(|x: u8| x != 45);
            let outcome = signed::offline_bytes(joined(a, b, c));
            if !is_user {
                outcome == Err::<Seq<u8>, Seq<char>>("Invalid offline license user ID"@)
            } else if calendar::expiration(b) is None {
                outcome == Err::<Seq<u8>, Seq<char>>(
                    "Invalid offline expiration date: expected YYYY.MM.DD within the supported timestamp range"@,
                )
            } else if !is_grouped {
                outcome == Err::<Seq<u8>, Seq<char>>(
                    "Invalid offline signature length or grouping"@,
                )
            } else if symbols.len() != 103 {
                outcome == Err::<Seq<u8>, Seq<char>>("Invalid offline signature length"@)
            } else if forall|bytes: Seq<u8>| !(#[trigger] encoding::is_base32(symbols, bytes)) {
                outcome == Err::<Seq<u8>, Seq<char>>("Invalid signed Symbolica license encoding"@)
            } else {
                outcome is Ok
            }
        }),
{
    let dash = '-' as u8;
    let one = seq![83u8, 45u8] + a;
    let two = seq![83u8, 45u8] + a + seq![45u8] + b;
    let three = joined(a, b, c);
    lemma_is_offline_form(one);
    lemma_is_offline_form(two);
    lemma_is_offline_form(three);
    assert(one.skip(2) =~= a);
    assert(two.skip(2) =~= a + seq![45u8] + b);
    assert(three.skip(2) =~= a + seq![45u8] + b + seq![45u8] + c);
    text::lemma_find_is(a, dash, a.len() as int);
    text::lemma_find(a, dash);
    let e2 = two.skip(2);
    text::lemma_find_is(e2, dash, a.len() as int);
    text::lemma_find(e2, dash);
    assert(text::after(e2, dash) =~= b);
    text::lemma_find_is(b, dash, b.len() as int);
    text::lemma_find(b, dash);
    let e3 = three.skip(2);
    let rest = b + seq![45u8] + c;
    text::lemma_find_is(e3, dash, a.len() as int);
    text::lemma_find(e3, dash);
    assert(text::before(e3, dash) =~= a);
    assert(text::after(e3, dash) =~= rest);
    text::lemma_find_is(rest, dash, b.len() as int);
    text::lemma_find(rest, dash);
    assert(text::before(rest, dash) =~= b);
    assert(text::after(rest, dash) =~= c);
    lemma_filters_agree(c);
    if text::all_digits(a) {
        assert forall|i: int| 0 <= i < a.len() implies 48 <= #[trigger] a[i] <= 57 by {
            assert(text::is_digit(a[i]));
        }
    }
}

/// A key that begins with `S-` has the form of an offline key.
proof fn lemma_is_offline_form(token: Seq<u8>)
    requires
        token.len() >= 2,
        token[0] == 83,
        token[1] == 45,
    ensures
        text::has_prefix(token, text::utf8("S-"@)),
        !signed::is_outdated_offline(token),
{
    signed::lemma_offline_prefix();
    assert(token.take(2) =~= text::utf8("S-"@));
    reveal_strlit("SYMBOLICA2-");
    reveal_strlit("SL");
    vstd::utf8::is_ascii_chars_encode_utf8("SYMBOLICA2-"@);
    vstd::utf8::is_ascii_chars_encode_utf8("SL"@);
    if text::has_prefix(token, text::utf8("SYMBOLICA2-"@)) {
        assert(token.take(11)[1] == text::utf8("SYMBOLICA2-"@)[1]);
    }
    if text::has_prefix(token, text::utf8("SL"@)) {
        assert(token.take(2)[1] == text::utf8("SL"@)[1]);
    }
}

/// Signed bytes are refused for their length, then for a signature that the issuer did not make,
/// and only then for what the payload says: another purpose, another crate, no user, or a time
/// that has come.
pub proof fn law_signed_bytes_are_judged_in_turn(
    key: Seq<u8>,
    bytes: Seq<u8>,
    purpose: Purpose<'_>,
    now: u64,
)
    requires
        encoding::is_base64url(
            text::utf8("Symbol0xSzzb9RiGMF9hUS-YG6mM0aptGeWJ6gZ5syI"@),
            key,
        ),
    ensures
        ({
            let outcome = signed::bytes_outcome(
                bytes,
                purpose,
                now,
                text::utf8("Symbol0xSzzb9RiGMF9hUS-YG6mM0aptGeWJ6gZ5syI"@),
            );
            let payload = bytes.take(bytes.len() - 64);
            let expires_at = payload[1] * 0x100_0000 + payload[2] * 0x1_0000 + payload[3] * 0x100
                + payload[4];
            let has_user = payload[5] != 0 || payload[6] != 0 || payload[7] != 0 || payload[8] != 0
                || payload[9] != 0 || payload[10] != 0 || payload[11] != 0 || payload[12] != 0;
            if bytes.len() < 77 {
                outcome == Err::<Claims, Seq<char>>("Signed Symbolica license is truncated"@)
            } else if !signature::ed25519_accepts(
                key,
                text::utf8("Symbolica license v1\0"@) + payload,
                bytes.skip(bytes.len() - 64),
            ) {
                outcome == Err::<Claims, Seq<char>>("Invalid signed Symbolica license signature"@)
            } else if purpose is Offline && (payload[0] != 1 || payload.len() != 13) || purpose
                is Oem && payload[0] != 2 {
                outcome == Err::<Claims, Seq<char>>(
                    "Signed Symbolica license has the wrong purpose or payload length"@,
                )
            } else if purpose is Oem && payload.skip(13) != text::utf8(purpose->Oem_0@) {
                outcome == Err::<Claims, Seq<char>>(
                    "OEM license does not match the calling crate"@,
                )
            } else if purpose is Oem && !(13 < payload.len() <= 13 + 255 && forall|i: int|
                13 <= i < payload.len() ==> 48 <= #[trigger] payload[i] <= 57 || 65 <= payload[i]
                    <= 90 || 97 <= payload[i] <= 122 || payload[i] == 95) {
                outcome == Err::<Claims, Seq<char>>(
                    "OEM license does not match the calling crate"@,
                )
            } else if !has_user {
                outcome == Err::<Claims, Seq<char>>(
                    "Signed Symbolica license has an invalid user ID"@,
                )
            } else if now >= expires_at {
                outcome == Err::<Claims, Seq<char>>(
                    "Signed Symbolica license has expired; request a new key"@,
                )
            } else {
                outcome is Ok && outcome->Ok_0.expires_at == expires_at
            }
        }),
{
    let public_key = text::utf8("Symbol0xSzzb9RiGMF9hUS-YG6mM0aptGeWJ6gZ5syI"@);
    lemma_decodes(public_key, key);
    lemma_key_len(public_key, key);
    if bytes.len() >= 77 {
        let payload = bytes.take(bytes.len() - 64);
        lemma_payload_fields(payload);
        signed_laws::lemma_payload_bounds(payload);
        let name = payload.skip(13);
        if signed::is_crate_name(name) {
            assert forall|i: int| 13 <= i < payload.len() implies 48 <= #[trigger] payload[i] <= 57
                || 65 <= payload[i] <= 90 || 97 <= payload[i] <= 122 || payload[i] == 95 by {
                assert(text::is_alphanumeric(name[i - 13]) || name[i - 13] == '_' as u8);
            }
        } else if 13 < payload.len() <= 13 + 255 {
            let j = choose|j: int|
                0 <= j < name.len() && !(text::is_alphanumeric(#[trigger] name[j]) || name[j]
                    == '_' as u8);
            assert(payload[j + 13] == name[j]);
        }
    }
}

/// A key for OEM use that does not begin with `SL1.` is outdated, and so is one for offline use
/// that begins with `SYMBOLICA2-`, or with `SL` but not with `SL1.`; one for offline use that
/// begins with `SL1.` has the wrong form. A key that is longer than any can be is refused for that,
/// and one for OEM use that is no Base64url text behind `SL1.` is refused for it.
pub proof fn law_other_forms_are_refused(token: Seq<u8>)
    ensures
        ({
            let outdated = Err::<Seq<u8>, Seq<char>>(
                "┌────────────────────────────────────────────────────────┐
│ The Symbolica license key format is outdated.          │
│ Renew your key at https://symbolica.io/license/        │
└────────────────────────────────────────────────────────┘"@,
            );
            let is_sl1 = token.len() >= 4 && token[0] == 83 && token[1] == 76 && token[2] == 49
                && token[3] == 46;
            let is_sl = token.len() >= 2 && token[0] == 83 && token[1] == 76;
            &&& !is_sl1 ==> signed::oem_bytes(token) == outdated
            &&& is_sl1 && token.len() > 448 ==> signed::oem_bytes(token) == Err::<
                Seq<u8>,
                Seq<char>,
            >("Signed Symbolica license is too long"@)
            &&& is_sl1 && token.len() <= 448 ==> match signed::oem_bytes(token) {
                Ok(bytes) => encoding::is_base64url(token.skip(4), bytes),
                Err(e) => e == "Invalid signed Symbolica license encoding"@ && forall|
                    bytes: Seq<u8>,
                | !(#[trigger] encoding::is_base64url(token.skip(4), bytes)),
            }
            &&& is_sl && !is_sl1 ==> signed::offline_bytes(token) == outdated
            &&& token.len() >= 11 && token.take(11) == text::utf8("SYMBOLICA2-"@)
                ==> signed::offline_bytes(token) == outdated
            &&& is_sl1 && token.len() <= 239 ==> signed::offline_bytes(token) == Err::<
                Seq<u8>,
                Seq<char>,
            >("Invalid signed Symbolica offline license format"@)
            &&& token.len() > 239 && (token[1] == 45 || is_sl1) ==> signed::offline_bytes(token)
                == Err::<Seq<u8>, Seq<char>>("Signed Symbolica license is too long"@)
        }),
{
    signed::lemma_offline_prefix();
    reveal_strlit("SYMBOLICA2-");
    reveal_strlit("SL");
    vstd::utf8::is_ascii_chars_encode_utf8("SYMBOLICA2-"@);
    vstd::utf8::is_ascii_chars_encode_utf8("SL"@);
    let (p, q) = (text::utf8("SL1."@), text::utf8("SL"@));
    if token.len() >= 2 {
        assert(token.take(2)[0] == token[0] && token.take(2)[1] == token[1]);
        if token[0] == 83 && token[1] == 76 {
            assert(token.take(2) =~= q);
        }
    }
    if token.len() >= 4 {
        assert(forall|i: int| 0 <= i < 4 ==> #[trigger] token.take(4)[i] == token[i]);
        if token[0] == 83 && token[1] == 76 && token[2] == 49 && token[3] == 46 {
            assert(token.take(4) =~= p);
        }
    }
    if token.len() >= 11 {
        assert(token.take(11)[1] == token[1]);
    }
}

} // verus!
