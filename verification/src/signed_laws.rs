//! What holds of offline and OEM licenses as a whole.

use crate::calendar;
use crate::encoding;
use crate::signature;
use crate::signature::{PUBLIC_KEY_LEN, SIGNATURE_LEN};
use crate::signed;
use crate::signed::{
    Claims, Purpose, ENCODED_SIGNATURE_LEN, EXPIRED, HEADER_LEN, OEM_KIND, OFFLINE_KIND,
};
use crate::text;
use vstd::prelude::*;

verus! {

/// A license that is valid at one time grants the same at every time before its expiration, and
/// at no time from then on, however it was asked.
pub proof fn law_valid_until_expiration(
    token: Seq<u8>,
    purpose: Purpose<'_>,
    now: u64,
    other: u64,
    public_key: Seq<u8>,
    claims: Claims,
)
    requires
        signed::license_outcome(token, purpose, now, public_key) == Ok::<Claims, Seq<char>>(claims),
    ensures
        claims.user_id > 0,
        now < claims.expires_at,
        signed::license_outcome(token, purpose, other, public_key) == (if other < claims.expires_at {
            Ok::<Claims, Seq<char>>(claims)
        } else {
            Err(EXPIRED@)
        }),
{
    let bytes = signed::signed_bytes(token, purpose)->Ok_0;
    let payload = signed::payload_of(bytes);
    lemma_payload_bounds(payload);
}

pub(crate) proof fn lemma_payload_bounds(payload: Seq<u8>)
    requires
        payload.len() >= HEADER_LEN,
    ensures
        0 <= signed::payload_user(payload) <= u64::MAX,
        0 <= signed::payload_expiration(payload) <= u32::MAX,
{
    encoding::lemma_big_endian_bound(payload.subrange(1, 5));
    encoding::lemma_big_endian_bound(payload.subrange(5, 13));
    reveal_with_fuel(encoding::pow256, 9);
}

/// A key that activates offline use never activates a crate, and the other way round; nor do
/// signed bytes of the one kind serve the other.
pub proof fn law_purposes_exclude_each_other(
    token: Seq<u8>,
    bytes: Seq<u8>,
    crate_name: &str,
    t1: u64,
    t2: u64,
    key1: Seq<u8>,
    key2: Seq<u8>,
)
    ensures
        !(signed::license_outcome(token, Purpose::Offline, t1, key1) is Ok
            && signed::license_outcome(token, Purpose::Oem(crate_name), t2, key2) is Ok),
        !(signed::bytes_outcome(bytes, Purpose::Offline, t1, key1) is Ok && signed::bytes_outcome(
            bytes,
            Purpose::Oem(crate_name),
            t2,
            key2,
        ) is Ok),
{
    signed::lemma_offline_prefix();
    let s = text::utf8("S-"@);
    let p = text::utf8(signed::PREFIX@);
    if text::has_prefix(token, s) && text::has_prefix(token, p) {
        assert(token.take(2)[1] == '-' as u8);
        assert(token.take(4)[1] == 'L' as u8);
    }
}

/// An OEM key serves the one crate that it names.
pub proof fn law_oem_key_serves_one_crate(
    token: Seq<u8>,
    a: &str,
    b: &str,
    t1: u64,
    t2: u64,
    key1: Seq<u8>,
    key2: Seq<u8>,
)
    requires
        signed::license_outcome(token, Purpose::Oem(a), t1, key1) is Ok,
        signed::license_outcome(token, Purpose::Oem(b), t2, key2) is Ok,
    ensures
        a@ == b@,
{
    text::lemma_utf8_injective(a@, b@);
}

/// The bytes of the crate name in the payload that serves a purpose.
pub open spec fn package_bytes(purpose: Purpose<'_>) -> Seq<u8> {
    match purpose {
        Purpose::Offline => Seq::empty(),
        Purpose::Oem(crate_name) => text::utf8(crate_name@),
    }
}

/// The kind byte of the payload that serves a purpose.
pub open spec fn kind(purpose: Purpose<'_>) -> u8 {
    match purpose {
        Purpose::Offline => OFFLINE_KIND,
        Purpose::Oem(_) => OEM_KIND,
    }
}

/// Nothing that a license grants is unsigned: the message under the signature that was accepted is
/// the domain, the kind, the expiration, the user and the crate name, and nothing else.
pub proof fn law_claims_are_signed(
    token: Seq<u8>,
    purpose: Purpose<'_>,
    now: u64,
    public_key: Seq<u8>,
    claims: Claims,
)
    requires
        signed::license_outcome(token, purpose, now, public_key) == Ok::<Claims, Seq<char>>(claims),
    ensures
        signed::signed_bytes(token, purpose) is Ok,
        encoding::base64url(public_key) is Some,
        signature::ed25519_accepts(
            encoding::base64url(public_key)->0,
            signed::signed_message(
                signed::header(kind(purpose), claims.expires_at, claims.user_id) + package_bytes(
                    purpose,
                ),
            ),
            signed::signature_of(signed::signed_bytes(token, purpose)->Ok_0),
        ),
{
    let payload = signed::payload_of(signed::signed_bytes(token, purpose)->Ok_0);
    lemma_payload_bounds(payload);
    lemma_header(payload);
    let head = signed::header(kind(purpose), claims.expires_at, claims.user_id);
    assert(head == payload.take(13));
    match purpose {
        Purpose::Offline => {
            assert(head + package_bytes(purpose) =~= payload);
        },
        Purpose::Oem(crate_name) => {
            assert(head + package_bytes(purpose) =~= payload);
        },
    }
}

/// A payload begins with the header of the fields that are read from it.
pub(crate) proof fn lemma_header(payload: Seq<u8>)
    requires
        payload.len() >= HEADER_LEN,
    ensures
        payload.take(13) == signed::header(
            payload[0],
            signed::payload_expiration(payload) as u32,
            signed::payload_user(payload) as u64,
        ),
{
    lemma_payload_bounds(payload);
    reveal_with_fuel(encoding::pow256, 9);
    let (e, u) = (payload.subrange(1, 5), payload.subrange(5, 13));
    let (en, un) = (signed::payload_expiration(payload), signed::payload_user(payload));
    encoding::lemma_be_bytes(en, 4);
    encoding::lemma_be_bytes(un, 8);
    encoding::lemma_big_endian_injective(e, encoding::be_bytes(en, 4));
    encoding::lemma_big_endian_injective(u, encoding::be_bytes(un, 8));
    assert(payload.take(13) =~= seq![payload[0]] + e + u);
}

/// Two licenses that differ in kind, expiration, user or crate name have different messages, so
/// that no signature of the one is asked for the other.
pub proof fn law_messages_are_distinct(
    k1: u8,
    e1: u32,
    u1: u64,
    p1: Seq<u8>,
    k2: u8,
    e2: u32,
    u2: u64,
    p2: Seq<u8>,
)
    requires
        signed::signed_message(signed::header(k1, e1, u1) + p1) == signed::signed_message(
            signed::header(k2, e2, u2) + p2,
        ),
    ensures
        k1 == k2,
        e1 == e2,
        u1 == u2,
        p1 == p2,
{
    let domain = text::utf8(signed::DOMAIN@);
    let (a, b) = (signed::header(k1, e1, u1) + p1, signed::header(k2, e2, u2) + p2);
    assert(signed::signed_message(a).skip(domain.len() as int) =~= a);
    assert(signed::signed_message(b).skip(domain.len() as int) =~= b);
    lemma_header_reads_back(k1, e1, u1, p1);
    lemma_header_reads_back(k2, e2, u2, p2);
    assert(a.skip(13) =~= p1);
    assert(b.skip(13) =~= p2);
}

/// The fields of a header are read back from a payload that begins with it.
pub(crate) proof fn lemma_header_reads_back(kind: u8, expires_at: u32, user_id: u64, rest: Seq<u8>)
    ensures
        signed::header(kind, expires_at, user_id).len() == HEADER_LEN,
        (signed::header(kind, expires_at, user_id) + rest)[0] == kind,
        signed::payload_expiration(signed::header(kind, expires_at, user_id) + rest) == expires_at,
        signed::payload_user(signed::header(kind, expires_at, user_id) + rest) == user_id,
{
    reveal_with_fuel(encoding::pow256, 9);
    encoding::lemma_be_bytes(expires_at as int, 4);
    encoding::lemma_be_bytes(user_id as int, 8);
    let payload = signed::header(kind, expires_at, user_id) + rest;
    assert(payload.subrange(1, 5) =~= encoding::be_bytes(expires_at as int, 4));
    assert(payload.subrange(5, 13) =~= encoding::be_bytes(user_id as int, 8));
}

/// The offline key with a user, a date and a signature text.
pub open spec fn offline_key(user_id: u64, date: Seq<u8>, sig: Seq<u8>) -> Seq<u8> {
    text::utf8("S-"@) + text::utf8(text::decimal(user_id as nat)) + seq!['-' as u8] + date + seq![
        '-' as u8,
    ] + sig
}

/// An offline key that was written is read back: for every user but zero, every date with a
/// timestamp and every signature text, the key stands for the header with these fields and the
/// signature, and under a public key that accepts the signature it grants exactly that user and
/// expiration, until then.
pub proof fn law_offline_round_trip(
    user_id: u64,
    date: Seq<u8>,
    sig: Seq<u8>,
    now: u64,
    public_key: Seq<u8>,
    expires_at: u32,
    sig_bytes: Seq<u8>,
    key: Seq<u8>,
)
    requires
        user_id > 0,
        calendar::expiration(date) == Some(expires_at),
        signed::offline_signature(sig) == Ok::<Seq<u8>, Seq<char>>(sig_bytes),
        encoding::base64url(public_key) == Some(key),
        key.len() == PUBLIC_KEY_LEN,
        signature::ed25519_accepts(
            key,
            signed::signed_message(signed::header(OFFLINE_KIND, expires_at, user_id)),
            sig_bytes,
        ),
    ensures
        signed::offline_bytes(offline_key(user_id, date, sig)) == Ok::<Seq<u8>, Seq<char>>(
            signed::header(OFFLINE_KIND, expires_at, user_id) + sig_bytes,
        ),
        signed::license_outcome(
            offline_key(user_id, date, sig),
            Purpose::Offline,
            now,
            public_key,
        ) == (if now < expires_at {
            Ok(Claims { user_id, expires_at })
        } else {
            Err(EXPIRED@)
        }),
{
    let token = offline_key(user_id, date, sig);
    let dash = '-' as u8;
    let user = text::utf8(text::decimal(user_id as nat));
    signed::lemma_offline_prefix();
    text::lemma_decimal(user_id as nat);
    reveal_with_fuel(text::pow10, 21);
    text::lemma_decimal_len(user_id as nat, 20);
    signed::lemma_signature_len(sig);
    assert(token[0] == 'S' as u8 && token[1] == dash);
    assert(!signed::is_outdated_offline(token)) by {
        reveal_strlit("SYMBOLICA2-");
        reveal_strlit("SL");
        vstd::utf8::is_ascii_chars_encode_utf8("SYMBOLICA2-"@);
        vstd::utf8::is_ascii_chars_encode_utf8("SL"@);
        if text::has_prefix(token, text::utf8("SYMBOLICA2-"@)) {
            assert(token.take(11)[1] == 'Y' as u8);
        }
        if text::has_prefix(token, text::utf8("SL"@)) {
            assert(token.take(2)[1] == 'L' as u8);
        }
    }
    assert(token.take(2) =~= text::utf8("S-"@));
    let encoded = token.skip(2);
    let rest = date + seq![dash] + sig;
    assert(encoded =~= user + seq![dash] + rest);
    assert forall|i: int| 0 <= i < user.len() implies encoded[i] != dash by {
        assert(text::is_digit(user[i]));
    }
    text::lemma_find_is(encoded, dash, user.len() as int);
    text::lemma_find(encoded, dash);
    assert(text::before(encoded, dash) =~= user);
    assert(text::after(encoded, dash) =~= rest);
    assert forall|i: int| 0 <= i < date.len() implies rest[i] != dash by {
        if i < 4 {
            assert(text::is_digit(date.subrange(0, 4)[i]));
        } else if 5 <= i < 7 {
            assert(text::is_digit(date.subrange(5, 7)[i - 5]));
        } else if 8 <= i {
            assert(text::is_digit(date.subrange(8, 10)[i - 8]));
        }
    }
    text::lemma_find_is(rest, dash, date.len() as int);
    text::lemma_find(rest, dash);
    assert(text::before(rest, dash) =~= date);
    assert(text::after(rest, dash) =~= sig);
    let head = signed::header(OFFLINE_KIND, expires_at, user_id);
    let bytes = head + sig_bytes;
    lemma_header_reads_back(OFFLINE_KIND, expires_at, user_id, Seq::empty());
    assert(head + Seq::<u8>::empty() =~= head);
    assert(signed::payload_of(bytes) =~= head);
    assert(signed::signature_of(bytes) =~= sig_bytes);
}

/// The OEM key with a Base64url text.
pub open spec fn oem_key(encoded: Seq<u8>) -> Seq<u8> {
    text::utf8(signed::PREFIX@) + encoded
}

/// An OEM key that was written is read back: for every user but zero, every expiration and every
/// crate name, the Base64url text of the header with these fields, the crate name and a signature
/// grants, under a public key that accepts the signature, exactly that user and expiration to that
/// crate, until then.
pub proof fn law_oem_round_trip(
    user_id: u64,
    expires_at: u32,
    crate_name: &str,
    sig_bytes: Seq<u8>,
    encoded: Seq<u8>,
    now: u64,
    public_key: Seq<u8>,
    key: Seq<u8>,
)
    requires
        user_id > 0,
        signed::is_crate_name(text::utf8(crate_name@)),
        sig_bytes.len() == SIGNATURE_LEN,
        encoding::is_base64url(
            encoded,
            signed::header(OEM_KIND, expires_at, user_id) + text::utf8(crate_name@) + sig_bytes,
        ),
        encoding::base64url(public_key) == Some(key),
        key.len() == PUBLIC_KEY_LEN,
        signature::ed25519_accepts(
            key,
            signed::signed_message(
                signed::header(OEM_KIND, expires_at, user_id) + text::utf8(crate_name@),
            ),
            sig_bytes,
        ),
    ensures
        signed::oem_bytes(oem_key(encoded)) == Ok::<Seq<u8>, Seq<char>>(
            signed::header(OEM_KIND, expires_at, user_id) + text::utf8(crate_name@) + sig_bytes,
        ),
        signed::license_outcome(oem_key(encoded), Purpose::Oem(crate_name), now, public_key) == (
        if now < expires_at {
            Ok(Claims { user_id, expires_at })
        } else {
            Err(EXPIRED@)
        }),
{
    let token = oem_key(encoded);
    let name = text::utf8(crate_name@);
    let payload = signed::header(OEM_KIND, expires_at, user_id) + name;
    let bytes = payload + sig_bytes;
    signed::lemma_offline_prefix();
    lemma_header_reads_back(OEM_KIND, expires_at, user_id, name);
    assert(token.take(4) =~= text::utf8(signed::PREFIX@));
    assert(token.skip(4) =~= encoded);
    let read = encoding::base64url(encoded)->0;
    encoding::lemma_decoding_unique(
        encoded,
        read,
        bytes,
        6,
        |b: u8| encoding::base64url_symbol(b),
    );
    assert(signed::payload_of(bytes) =~= payload);
    assert(signed::signature_of(bytes) =~= sig_bytes);
    assert(payload.skip(HEADER_LEN as int) =~= name);
}

/// Separators do not change a signature: two texts with the same symbols, in whatever groups, are
/// accepted or refused alike and stand for the same signature. The limit on the length of the
/// text refuses none of them.
pub proof fn law_grouping_is_optional(a: Seq<u8>, b: Seq<u8>)
    requires
        signed::well_grouped(a),
        signed::well_grouped(b),
        signed::symbols(a) == signed::symbols(b),
        signed::symbols(a).len() == ENCODED_SIGNATURE_LEN,
    ensures
        signed::offline_signature(a) == signed::offline_signature(b),
        signed::offline_signature(a) == (match encoding::base32(signed::symbols(a)) {
            Some(bytes) => Ok::<Seq<u8>, Seq<char>>(bytes),
            None => Err(signed::INVALID_ENCODING@),
        }),
{
    lemma_grouping_len(a);
    lemma_grouping_len(b);
}

/// A text without two separators in a row, that does not begin with one, has at least as many
/// symbols as separators.
proof fn lemma_grouping_len(s: Seq<u8>)
    requires
        s.len() > 0 ==> s[0] != '-' as u8,
        forall|i: int| 0 < i < s.len() && s[i - 1] == '-' as u8 ==> #[trigger] s[i] != '-' as u8,
    ensures
        s.len() <= 2 * signed::symbols(s).len(),
        s.len() > 0 && s.last() != '-' as u8 ==> s.len() <= 2 * signed::symbols(s).len() - 1,
    decreases s.len(),
{
    reveal(Seq::filter);
    if s.len() > 0 {
        let head = s.drop_last();
        assert forall|i: int| 0 < i < head.len() && head[i - 1] == '-' as u8 implies
            #[trigger] head[i] != '-' as u8 by {
            assert(s[i - 1] == head[i - 1] && s[i] == head[i]);
        }
        lemma_grouping_len(head);
        if s.last() == '-' as u8 {
            assert(head.len() > 0);
            assert(s[s.len() - 1] == '-' as u8);
            assert(head.last() == s[s.len() - 2]);
        }
    }
}

} // verus!
