//! Which tokens are trusted, and what they grant.

use crate::double;
use crate::encoding;
use crate::json;
use crate::json::{Content, MemberView};
use crate::signature;
use crate::text;
use crate::token;
use crate::token::UnlockClaimsView;
use vstd::prelude::*;

verus! {

/// A text that encodes bytes is decoded to them.
proof fn lemma_decodes(encoded: Seq<u8>, bytes: Seq<u8>)
    requires
        encoding::is_base64url(encoded, bytes),
    ensures
        encoding::base64url(encoded) == Some(bytes),
{
    encoding::lemma_decoding_unique(
        encoded,
        encoding::base64url(encoded)->0,
        bytes,
        6,
        |b: u8| encoding::base64url_symbol(b),
    );
}

/// Public keys have 32 bytes.
proof fn lemma_key_lens(issuer: Seq<u8>, development_issuer: Seq<u8>)
    requires
        encoding::is_base64url(
            text::utf8("Symbol0xSzzb9RiGMF9hUS-YG6mM0aptGeWJ6gZ5syI"@),
            issuer,
        ),
        encoding::is_base64url(
            text::utf8("FTlMMgb7IKbxHiS-E7bp_W2ZqhPeqXpZ_Or40Jpjvns"@),
            development_issuer,
        ),
    ensures
        issuer.len() == 32,
        development_issuer.len() == 32,
{
    reveal_strlit("Symbol0xSzzb9RiGMF9hUS-YG6mM0aptGeWJ6gZ5syI");
    reveal_strlit("FTlMMgb7IKbxHiS-E7bp_W2ZqhPeqXpZ_Or40Jpjvns");
    vstd::utf8::is_ascii_chars_encode_utf8("Symbol0xSzzb9RiGMF9hUS-YG6mM0aptGeWJ6gZ5syI"@);
    vstd::utf8::is_ascii_chars_encode_utf8("FTlMMgb7IKbxHiS-E7bp_W2ZqhPeqXpZ_Or40Jpjvns"@);
}

/// A token is trusted exactly where the issuer signed its payload, in every build, or, in a
/// development build, where the issuer of development tokens did. One that is trusted grants what
/// its payload says, under the text of its signature; any other is refused for its signature.
pub proof fn law_tokens_are_trusted_by_their_signature(
    issuer: Seq<u8>,
    development_issuer: Seq<u8>,
    encoded: Seq<u8>,
    encoded_sig: Seq<u8>,
    payload: Seq<u8>,
    sig: Seq<u8>,
    development: bool,
)
    requires
        encoding::is_base64url(
            text::utf8("Symbol0xSzzb9RiGMF9hUS-YG6mM0aptGeWJ6gZ5syI"@),
            issuer,
        ),
        encoding::is_base64url(
            text::utf8("FTlMMgb7IKbxHiS-E7bp_W2ZqhPeqXpZ_Or40Jpjvns"@),
            development_issuer,
        ),
        encoding::is_base64url(encoded, payload),
        encoding::is_base64url(encoded_sig, sig),
        sig.len() == 64,
    ensures
        token::token_outcome(encoded + seq![46u8] + encoded_sig, development) == (
        if signature::ed25519_accepts(issuer, payload, sig) || development
            && signature::ed25519_accepts(development_issuer, payload, sig) {
            token::payload_outcome(payload, text::chars(encoded_sig))
        } else {
            Err("Invalid Symbolica library unlock token signature"@)
        }),
{
    let whole = encoded.push(46u8) + encoded_sig;
    assert(encoded + seq![46u8] + encoded_sig =~= whole);
    lemma_decodes(text::utf8("Symbol0xSzzb9RiGMF9hUS-YG6mM0aptGeWJ6gZ5syI"@), issuer);
    lemma_decodes(
        text::utf8("FTlMMgb7IKbxHiS-E7bp_W2ZqhPeqXpZ_Or40Jpjvns"@),
        development_issuer,
    );
    lemma_key_lens(issuer, development_issuer);
    lemma_decodes(encoded, payload);
    lemma_decodes(encoded_sig, sig);
    token::lemma_token_parts(encoded, encoded_sig);
}

/// A trusted token is two Base64url texts with a dot between; whatever is none is refused.
pub proof fn law_trusted_tokens_have_two_parts(token: Seq<u8>, development: bool)
    requires
        token::token_outcome(token, development) is Ok,
    ensures
        exists|encoded: Seq<u8>, encoded_sig: Seq<u8>, payload: Seq<u8>, sig: Seq<u8>|
            {
                &&& token == encoded + seq![46u8] + encoded_sig
                &&& #[trigger] encoding::is_base64url(encoded, payload)
                &&& #[trigger] encoding::is_base64url(encoded_sig, sig)
                &&& sig.len() == 64
            },
{
    let dot = '.' as u8;
    text::lemma_find(token, dot);
    let encoded = token::payload_text(token);
    let encoded_sig = token::signature_text(token);
    assert(token =~= encoded + seq![46u8] + encoded_sig);
    let payload = encoding::base64url(encoded)->0;
    let sig = encoding::base64url(encoded_sig)->0;
    assert(encoding::is_base64url(encoded, payload));
    assert(encoding::is_base64url(encoded_sig, sig));
}

/// The double that is one has these bits and no others.
proof fn lemma_one(bits: u64)
    ensures
        double::positive_usize(bits) == Some(1usize) <==> bits == 0x3ff0_0000_0000_0000,
{
    let e = bits as int / 0x10_0000_0000_0000;
    double::law_doubles_are_read_exactly(bits, 1);
    vstd::arithmetic::power2::lemma2_to64();
    if 1023 <= e < 2047 {
        let p = vstd::arithmetic::power2::pow2((e - 1023) as nat) as int;
        let f = bits as int % 0x10_0000_0000_0000;
        vstd::arithmetic::power2::lemma_pow2_pos((e - 1023) as nat);
        if e > 1023 {
            vstd::arithmetic::power2::lemma_pow2_strictly_increases(0, (e - 1023) as nat);
        }
        if double::positive_usize(bits) == Some(1usize) {
            assert((0x10_0000_0000_0000 + f) * p == 0x10_0000_0000_0000);
            assert(f == 0 && p == 1) by (nonlinear_arith)
                requires
                    (0x10_0000_0000_0000 + f) * p == 0x10_0000_0000_0000,
                    f >= 0,
                    p >= 1,
            ;
            assert(e == 1023);
            assert(bits as int == e * 0x10_0000_0000_0000 + f);
        }
        if bits == 0x3ff0_0000_0000_0000 {
            assert(e == 1023 && f == 0 && p == 1);
            assert((0x10_0000_0000_0000 + f) * p == 0x10_0000_0000_0000) by (nonlinear_arith)
                requires
                    f == 0,
                    p == 1,
            ;
        }
    }
}

/// A payload grants an unlock exactly where it is an object whose `version` is the number one,
/// whose `package` is a text of letters, digits, dots and underscores, and whose `license` is a
/// text that goes on behind `SYMBOLICA_UNLOCK_`. It grants that package and that license, under
/// the name of the token.
pub proof fn law_payloads_grant_what_they_say(payload: Seq<char>, token_id: Seq<char>)
    requires
        json::is_shallow(text::utf8(payload)),
    ensures
        token::payload_outcome(text::utf8(payload), token_id) is Ok <==> match json::json_document(
            payload,
        ) {
            Content::Object(members) => {
                &&& members.contains_key("version"@)
                &&& members["version"@] == MemberView::Number(0x3ff0_0000_0000_0000)
                &&& members.contains_key("package"@)
                &&& members["package"@] is Text
                &&& members["package"@]->Text_0.len() > 0
                &&& forall|i: int|
                    0 <= i < text::utf8(members["package"@]->Text_0).len() ==> {
                        let b = #[trigger] text::utf8(members["package"@]->Text_0)[i];
                        48 <= b <= 57 || 65 <= b <= 90 || 97 <= b <= 122 || b == 46 || b == 95
                    }
                &&& members.contains_key("license"@)
                &&& members["license"@] is Text
                &&& text::utf8(members["license"@]->Text_0).len() > 17
                &&& text::utf8(members["license"@]->Text_0).take(17) == text::utf8(
                    "SYMBOLICA_UNLOCK_"@,
                )
            },
            _ => false,
        },
        token::payload_outcome(text::utf8(payload), token_id) matches Ok(claims) ==> claims == (
        UnlockClaimsView {
            package: json::json_document(payload)->Object_0["package"@]->Text_0,
            license: json::json_document(payload)->Object_0["license"@]->Text_0,
            token_id,
        }),
{
    text::lemma_chars(payload);
    reveal_strlit("SYMBOLICA_UNLOCK_");
    vstd::utf8::is_ascii_chars_encode_utf8("SYMBOLICA_UNLOCK_"@);
    if let Content::Object(members) = json::json_document(payload) {
        if members.contains_key("version"@) {
            if let MemberView::Number(bits) = members["version"@] {
                lemma_one(bits);
            }
        }
        if members.contains_key("package"@) {
            if let MemberView::Text(p) = members["package"@] {
                lemma_text_len(p);
                let b = text::utf8(p);
                if token::is_package(b) {
                    assert forall|i: int| 0 <= i < b.len() implies {
                        let c = #[trigger] b[i];
                        48 <= c <= 57 || 65 <= c <= 90 || 97 <= c <= 122 || c == 46 || c == 95
                    } by {
                        assert(text::is_alphanumeric(b[i]) || b[i] == '.' as u8 || b[i] == '_' as u8);
                    }
                }
            }
        }
    }
}

/// A text is empty exactly where its bytes are.
proof fn lemma_text_len(s: Seq<char>)
    ensures
        s.len() > 0 <==> text::utf8(s).len() > 0,
{
    if s.len() > 0 {
        vstd::utf8::encode_utf8_first_scalar(s);
    }
}

} // verus!
