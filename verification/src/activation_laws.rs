//! What holds of license keys and of the answers of the server, for all of them.

use crate::activation;
use crate::clock;
use crate::json::{DocumentView, MemberView};
use crate::messages::ACTIVATION_ERROR;
use crate::server;
use crate::signed;
use crate::signed::Purpose;
use crate::state::JobView;
use crate::text;
use vstd::prelude::*;

verus! {

/// A signed or outdated key, whether it is valid or not, cannot fall back to the server: what it
/// is answered does not depend on what the server would say.
pub proof fn law_signed_keys_never_reach_the_server<
    F: FnOnce(String) -> Result<(), String>,
    G: FnOnce(String) -> Result<(), String>,
>(
    key: Seq<char>,
    one: F,
    other: G,
    r: Result<(), String>,
    jobs: Seq<JobView>,
    jobs_then: Seq<JobView>,
)
    requires
        activation::route(text::utf8(key)) !is Online,
    ensures
        activation::validated(key, one, r, jobs, jobs_then) <==> activation::validated(
            key,
            other,
            r,
            jobs,
            jobs_then,
        ),
{
    if activation::validated(key, one, r, jobs, jobs_then) {
        let clock = choose|clock: Option<u64>| #[trigger]
            activation::validated_at(key, clock, one, r, jobs, jobs_then) && (activation::route(
                text::utf8(key),
            ) is Offline ==> clock::shown(clock));
        assert(activation::validated_at(key, clock, other, r, jobs, jobs_then));
    }
    if activation::validated(key, other, r, jobs, jobs_then) {
        let clock = choose|clock: Option<u64>| #[trigger]
            activation::validated_at(key, clock, other, r, jobs, jobs_then) && (activation::route(
                text::utf8(key),
            ) is Offline ==> clock::shown(clock));
        assert(activation::validated_at(key, clock, one, r, jobs, jobs_then));
    }
}

/// The form of a key says who decides on it. It is a signed key where it begins with `S` and a
/// dash, an `L` or a digit behind it, or with `S` and both a dash and a dot anywhere behind it.
/// Otherwise it is outdated where it holds a `#` or begins with `SYMBOLICA_OEM_`, and else it is
/// for the server.
pub proof fn law_forms_of_keys(key: Seq<u8>)
    ensures
        ({
            let signed = key.len() > 0 && key[0] == 83 && (key.len() > 1 && (key[1] == 45 || key[1]
                == 76 || 48 <= key[1] <= 57) || (exists|i: int|
                0 < i < key.len() && #[trigger] key[i] == 45) && (exists|i: int|
                0 < i < key.len() && #[trigger] key[i] == 46));
            let outdated = (exists|i: int| 0 <= i < key.len() && #[trigger] key[i] == 35)
                || key.len() >= 14 && key.take(14) == text::utf8("SYMBOLICA_OEM_"@);
            &&& activation::route(key) is Offline <==> signed
            &&& activation::route(key) is Outdated <==> !signed && outdated
            &&& activation::route(key) is Online <==> !signed && !outdated
        }),
{
    reveal_strlit("SL");
    reveal_strlit("S-");
    reveal_strlit("SYMBOLICA_OEM_");
    vstd::utf8::is_ascii_chars_encode_utf8("SL"@);
    vstd::utf8::is_ascii_chars_encode_utf8("S-"@);
    vstd::utf8::is_ascii_chars_encode_utf8("SYMBOLICA_OEM_"@);
    let (p, q) = (text::utf8("S-"@), text::utf8("SL"@));
    if key.len() >= 2 {
        assert(key.take(2)[0] == key[0] && key.take(2)[1] == key[1]);
        if key[0] == 83 && key[1] == 45 {
            assert(key.take(2) =~= p);
        }
        if key[0] == 83 && key[1] == 76 {
            assert(key.take(2) =~= q);
        }
    }
    if key.len() > 0 {
        let body = key.skip(1);
        lemma_contains_behind_first(key, 45);
        lemma_contains_behind_first(key, 46);
        assert(body.len() > 0 ==> body[0] == key[1]);
    }
}

/// What a sequence holds behind its first byte.
proof fn lemma_contains_behind_first(s: Seq<u8>, b: u8)
    requires
        s.len() > 0,
    ensures
        s.skip(1).contains(b) <==> exists|i: int| 0 < i < s.len() && #[trigger] s[i] == b,
{
    let body = s.skip(1);
    if body.contains(b) {
        let j = choose|j: int| 0 <= j < body.len() && body[j] == b;
        assert(s[j + 1] == b);
    }
    if exists|i: int| 0 < i < s.len() && #[trigger] s[i] == b {
        let i = choose|i: int| 0 < i < s.len() && #[trigger] s[i] == b;
        assert(body[i - 1] == b);
    }
}

/// A key that grants an offline license, at whatever time, is verified without the server.
pub proof fn law_offline_licenses_need_no_server(key: Seq<u8>, clock: Option<u64>)
    requires
        signed::issued_outcome(key, Purpose::Offline, clock) is Ok,
    ensures
        activation::route(key) is Offline,
{
}

/// An OEM key does not activate a process as a license key: it has the form of a signed key, but
/// is not accepted as one for offline use.
pub proof fn law_oem_keys_are_no_license_keys(key: Seq<u8>, clock: Option<u64>)
    requires
        text::has_prefix(key, text::utf8(signed::PREFIX@)),
    ensures
        activation::route(key) is Offline,
        signed::issued_outcome(key, Purpose::Offline, clock) is Err,
{
    reveal_strlit("SL1.");
    reveal_strlit("SL");
    reveal_strlit("S-");
    vstd::utf8::is_ascii_chars_encode_utf8(signed::PREFIX@);
    vstd::utf8::is_ascii_chars_encode_utf8("SL"@);
    vstd::utf8::is_ascii_chars_encode_utf8("S-"@);
    let p = text::utf8(signed::PREFIX@);
    assert(forall|i: int| 0 <= i < 4 ==> key.take(4)[i] == p[i]);
    assert(key[0] == p[0] && key[1] == p[1]);
    assert(key.take(2) =~= text::utf8("SL"@));
    assert(text::has_prefix(key, text::utf8("SL"@)));
    if text::has_prefix(key, text::utf8("S-"@)) {
        assert(key.take(2)[1] == text::utf8("S-"@)[1]);
    }
}

/// What stands in a part of a byte sequence stands in the whole.
proof fn lemma_substring_of_part(a: Seq<u8>, e: Seq<u8>, b: Seq<u8>, p: Seq<u8>)
    requires
        text::has_substring(e, p),
    ensures
        text::has_substring(a + e + b, p),
{
    let i = choose|i: int| text::occurs_at(e, p, i);
    let whole = a + e + b;
    assert(whole.subrange(a.len() + i, a.len() + i + p.len()) =~= e.subrange(i, i + p.len()));
    assert(text::occurs_at(whole, p, a.len() + i));
}

/// Whether a status is a rejection does not depend on the case of its letters.
pub proof fn law_rejections_ignore_case(status: Seq<u8>)
    ensures
        activation::rejects_offline(text::lowercase(status)) == activation::rejects_offline(status),
        activation::rejects_offline(text::uppercase(status)) == activation::rejects_offline(status),
{
    assert(text::lowercase(text::lowercase(status)) =~= text::lowercase(status));
    assert(text::lowercase(text::uppercase(status)) =~= text::lowercase(status));
}

/// A rejection is recognized whatever stands in front of it and behind it.
pub proof fn law_rejections_are_found_anywhere(a: Seq<u8>, error: Seq<u8>, b: Seq<u8>)
    ensures
        activation::rejects_offline(error) ==> activation::rejects_offline(a + error + b),
        activation::rejects_unlock(error) ==> activation::rejects_unlock(a + error + b),
{
    let (la, le, lb) = (text::lowercase(a), text::lowercase(error), text::lowercase(b));
    assert(text::lowercase(a + error + b) =~= la + le + lb);
    if activation::rejects_offline(error) {
        if text::has_substring(le, text::utf8("banned"@)) {
            lemma_substring_of_part(la, le, lb, text::utf8("banned"@));
        } else if text::has_substring(le, text::utf8("revoked"@)) {
            lemma_substring_of_part(la, le, lb, text::utf8("revoked"@));
        } else if text::has_substring(le, text::utf8("expired"@)) {
            lemma_substring_of_part(la, le, lb, text::utf8("expired"@));
        } else {
            lemma_substring_of_part(la, le, lb, text::utf8("unknown license"@));
        }
    }
    if activation::rejects_unlock(error) {
        lemma_substring_of_part(a, error, b, text::utf8("Unknown license"@));
    }
}

/// Whether `p`, put at position `i` of `h`, differs from it within the first `n` bytes.
spec fn differs(h: Seq<u8>, p: Seq<u8>, i: int, n: int) -> bool {
    exists|k: int| 0 <= k < n && h[i + k] != #[trigger] p[k]
}

/// What stands in `h + b` stands in `b`, where `h` ends in a colon and a space, the beginning of
/// `p` stands nowhere in `h`, and no colon in front of a space stands in `p`.
proof fn lemma_substring_behind(h: Seq<u8>, b: Seq<u8>, p: Seq<u8>, n: int)
    requires
        h.len() >= 2,
        h[h.len() - 1] == ' ' as u8,
        h[h.len() - 2] == ':' as u8,
        0 < n <= p.len(),
        forall|i: int| 0 <= i && i + n <= h.len() ==> #[trigger] differs(h, p, i, n),
        forall|t: int|
            0 <= t < p.len() && #[trigger] p[t] == ' ' as u8 ==> t > 0 && p[t - 1] != ':' as u8,
        text::has_substring(h + b, p),
    ensures
        text::has_substring(b, p),
{
    let i = choose|i: int| text::occurs_at(h + b, p, i);
    let found = (h + b).subrange(i, i + p.len());
    assert(forall|k: int| 0 <= k < p.len() ==> found[k] == (h + b)[i + k]);
    if i >= h.len() {
        assert(b.subrange(i - h.len(), i - h.len() + p.len()) =~= found);
        assert(text::occurs_at(b, p, i - h.len()));
    } else if i + n <= h.len() {
        assert(differs(h, p, i, n));
        let k = choose|k: int| 0 <= k < n && h[i + k] != #[trigger] p[k];
        assert(found[k] == h[i + k]);
    } else {
        let t = h.len() - 1 - i;
        assert(found[t] == h[h.len() - 1]);
        assert(p[t] == ' ' as u8);
        assert(found[t - 1] == h[h.len() - 2]);
    }
}

/// Whether the characters of a text from `k` on begin no rejection: there is no `x`, no `k`, and
/// nothing but an `o` behind a `b`.
spec fn harmless(s: Seq<char>, k: int) -> bool
    decreases s.len() - k,
{
    k >= s.len() || {
        &&& s[k] != 'x' && s[k] != 'X' && s[k] != 'k' && s[k] != 'K' && s[k] != 'B'
        &&& s[k] == 'b' ==> k + 1 < s.len() && s[k + 1] == 'o'
        &&& harmless(s, k + 1)
    }
}

/// What is harmless is so at every position.
proof fn lemma_harmless(s: Seq<char>, k: int, j: int)
    requires
        0 <= k <= j < s.len(),
        harmless(s, k),
    ensures
        harmless(s, j),
    decreases j - k,
{
    if k < j {
        lemma_harmless(s, k + 1, j);
    }
}

/// What the library puts in front of the status of a key.
spec fn front() -> Seq<char> {
    ACTIVATION_ERROR@ + "\nError: "@
}

/// What the library puts in front of a status begins no rejection, and ends in a colon and a
/// space.
proof fn lemma_front(j: int)
    ensures
        0 <= j < front().len() ==> {
            let c = front()[j];
            &&& c != 'x' && c != 'X' && c != 'k' && c != 'K' && c != 'B'
            &&& c == 'b' ==> j + 1 < front().len() && front()[j + 1] == 'o'
        },
        text::utf8(front()).len() >= 2,
        text::utf8(front())[text::utf8(front()).len() - 1] == ' ' as u8,
        text::utf8(front())[text::utf8(front()).len() - 2] == ':' as u8,
{
    let tail = "\nError: "@;
    reveal_strlit(
        "┌──────────────────────────────────────────┐
│ Could not activate the Symbolica license │
└──────────────────────────────────────────┘",
    );
    reveal_strlit("\nError: ");
    let message = ACTIVATION_ERROR@;
    assert(message.len() == 134);
    assert(harmless(message, 134));
    reveal_with_fuel(harmless, 24);
    assert(harmless(message, 112));
    assert(harmless(message, 90));
    assert(harmless(message, 68));
    assert(harmless(message, 46));
    assert(harmless(message, 23));
    assert(harmless(message, 0));
    assert(harmless(tail, 0)) by {
        reveal_with_fuel(harmless, 10);
    }
    if 0 <= j < ACTIVATION_ERROR@.len() {
        lemma_harmless(ACTIVATION_ERROR@, 0, j);
    } else if 0 <= j < front().len() {
        lemma_harmless(tail, 0, j - ACTIVATION_ERROR@.len());
    }
    text::lemma_utf8_concat(ACTIVATION_ERROR@, tail);
    vstd::utf8::is_ascii_chars_encode_utf8(tail);
    assert(tail[7] == ' ' && tail[6] == ':');
}

/// A byte of what stands in front of a status, or of its lower case, is none of the letters that
/// rejections have and it has not.
proof fn lemma_front_byte(i: int)
    requires
        0 <= i < text::utf8(front()).len(),
    ensures
        ({
            let raw = text::utf8(front());
            let low = text::lower(raw[i]);
            &&& low != 'x' as u8 && low != 'k' as u8
            &&& low == 'b' as u8 && i + 1 < raw.len() ==> text::lower(raw[i + 1]) != 'a' as u8
        }),
{
    let raw = text::utf8(front());
    if raw[i] < 128 {
        let j = text::lemma_ascii_byte(front(), i);
        lemma_front(j);
        let c = front()[j];
        vstd::utf8::char_u32_cast(c, c as u32);
        if j + 1 < front().len() {
            let next = front()[j + 1];
            vstd::utf8::char_u32_cast(next, next as u32);
        }
    }
}

/// The words of rejections, as bytes.
proof fn lemma_words()
    ensures
        text::utf8("banned"@) == seq![98u8, 97u8, 110u8, 110u8, 101u8, 100u8],
        text::utf8("revoked"@) == seq![114u8, 101u8, 118u8, 111u8, 107u8, 101u8, 100u8],
        text::utf8("expired"@) == seq![101u8, 120u8, 112u8, 105u8, 114u8, 101u8, 100u8],
        text::utf8("unknown license"@) == seq![
            117u8, 110u8, 107u8, 110u8, 111u8, 119u8, 110u8, 32u8, 108u8, 105u8, 99u8, 101u8,
            110u8, 115u8, 101u8,
        ],
        text::utf8("Unknown license"@) == seq![
            85u8, 110u8, 107u8, 110u8, 111u8, 119u8, 110u8, 32u8, 108u8, 105u8, 99u8, 101u8,
            110u8, 115u8, 101u8,
        ],
{
    reveal_strlit("banned");
    reveal_strlit("revoked");
    reveal_strlit("expired");
    reveal_strlit("unknown license");
    reveal_strlit("Unknown license");
    vstd::utf8::is_ascii_chars_encode_utf8("banned"@);
    vstd::utf8::is_ascii_chars_encode_utf8("revoked"@);
    vstd::utf8::is_ascii_chars_encode_utf8("expired"@);
    vstd::utf8::is_ascii_chars_encode_utf8("unknown license"@);
    vstd::utf8::is_ascii_chars_encode_utf8("Unknown license"@);
}

/// Whether `p` stands in `s` at position `i`, whatever the case of the letters in `s`.
pub open spec fn stands_at(s: Seq<u8>, p: Seq<u8>, i: int) -> bool {
    &&& 0 <= i && i + p.len() <= s.len()
    &&& forall|k: int|
        0 <= k < p.len() ==> #[trigger] p[k] == s[i + k] || 65 <= s[i + k] <= 90 && p[k] == s[i + k]
            + 32
}

/// Whether `p` stands in `s`, whatever the case of the letters in `s`.
pub open spec fn stands_in(s: Seq<u8>, p: Seq<u8>) -> bool {
    exists|i: int| stands_at(s, p, i)
}

/// What [`stands_in`] says, by way of the lower case.
proof fn lemma_stands_in(s: Seq<u8>, p: Seq<u8>)
    requires
        forall|k: int| 0 <= k < p.len() ==> !(65 <= #[trigger] p[k] <= 90),
    ensures
        text::has_substring(text::lowercase(s), p) <==> stands_in(s, p),
{
    let low = text::lowercase(s);
    if text::has_substring(low, p) {
        let i = choose|i: int| text::occurs_at(low, p, i);
        assert(low.subrange(i, i + p.len()) == p);
        assert forall|k: int| 0 <= k < p.len() implies #[trigger] p[k] == s[i + k] || 65 <= s[i + k]
            <= 90 && p[k] == s[i + k] + 32 by {
            assert(low.subrange(i, i + p.len())[k] == low[i + k]);
        }
        assert(stands_at(s, p, i));
    }
    if stands_in(s, p) {
        let i = choose|i: int| stands_at(s, p, i);
        let part = low.subrange(i, i + p.len());
        assert forall|k: int| 0 <= k < p.len() implies part[k] == p[k] by {
            assert(p[k] == s[i + k] || 65 <= s[i + k] <= 90 && p[k] == s[i + k] + 32);
        }
        assert(part =~= p);
        assert(text::occurs_at(low, p, i));
    }
}

/// The answers that end a program that runs on an offline key are those in which `banned`,
/// `revoked`, `expired` or `unknown license` stands, in letters of either case; for a library
/// unlock they are those in which `Unknown license` stands as it is. What is said before the end is
/// the answer.
pub proof fn law_words_that_end_the_program(error: String)
    ensures
        activation::last_words(Err(error), |e: Seq<u8>| activation::rejects_offline(e)) == (
        if stands_in(text::utf8(error@), seq![98u8, 97u8, 110u8, 110u8, 101u8, 100u8])
            || stands_in(
            text::utf8(error@),
            seq![114u8, 101u8, 118u8, 111u8, 107u8, 101u8, 100u8],
        ) || stands_in(text::utf8(error@), seq![101u8, 120u8, 112u8, 105u8, 114u8, 101u8, 100u8])
            || stands_in(
            text::utf8(error@),
            seq![
                117u8, 110u8, 107u8, 110u8, 111u8, 119u8, 110u8, 32u8, 108u8, 105u8, 99u8, 101u8,
                110u8, 115u8, 101u8,
            ],
        ) {
            Some(error@)
        } else {
            None
        }),
        activation::last_words(Err(error), |e: Seq<u8>| activation::rejects_unlock(e)) == (
        if text::has_substring(
            text::utf8(error@),
            seq![
                85u8, 110u8, 107u8, 110u8, 111u8, 119u8, 110u8, 32u8, 108u8, 105u8, 99u8, 101u8,
                110u8, 115u8, 101u8,
            ],
        ) {
            Some(error@)
        } else {
            None
        }),
        activation::last_words(Ok(()), |e: Seq<u8>| activation::rejects_offline(e)) is None,
        activation::last_words(Ok(()), |e: Seq<u8>| activation::rejects_unlock(e)) is None,
{
    lemma_words();
    let s = text::utf8(error@);
    lemma_stands_in(s, text::utf8("banned"@));
    lemma_stands_in(s, text::utf8("revoked"@));
    lemma_stands_in(s, text::utf8("expired"@));
    lemma_stands_in(s, text::utf8("unknown license"@));
}

/// A word with a `k` or an `x` does not begin in what stands in front of a status.
proof fn lemma_word_behind_front(h: Seq<u8>, b: Seq<u8>, p: Seq<u8>, mark: int)
    requires
        h == text::utf8(front()) || h == text::lowercase(text::utf8(front())),
        0 <= mark < p.len(),
        p[mark] == 'k' as u8 || p[mark] == 'x' as u8,
        forall|t: int|
            0 <= t < p.len() && #[trigger] p[t] == ' ' as u8 ==> t > 0 && p[t - 1] != ':' as u8,
        text::has_substring(h + b, p),
    ensures
        text::has_substring(b, p),
{
    lemma_front(0);
    assert forall|i: int| 0 <= i && i + (mark + 1) <= h.len() implies #[trigger] differs(
        h,
        p,
        i,
        mark + 1,
    ) by {
        lemma_front_byte(i + mark);
        assert(h[i + mark] != p[mark]);
    }
    lemma_substring_behind(h, b, p, mark + 1);
}

/// Nor does the word `banned`.
proof fn lemma_banned_behind_front(b: Seq<u8>)
    requires
        text::has_substring(
            text::lowercase(text::utf8(front())) + b,
            text::utf8("banned"@),
        ),
    ensures
        text::has_substring(b, text::utf8("banned"@)),
{
    let h = text::lowercase(text::utf8(front()));
    let p = text::utf8("banned"@);
    lemma_words();
    lemma_front(0);
    assert forall|i: int| 0 <= i && i + 2 <= h.len() implies #[trigger] differs(h, p, i, 2) by {
        lemma_front_byte(i);
        if h[i] == p[0] {
            assert(h[i + 1] != p[1]);
        } else {
            assert(h[i + 0] != p[0]);
        }
    }
    lemma_substring_behind(h, b, p, 2);
}

/// A rejection behind what stands in front of a status is a rejection.
proof fn lemma_rejection_behind_front(b: Seq<u8>)
    ensures
        activation::rejects_offline(text::utf8(front()) + b) ==> activation::rejects_offline(b),
        activation::rejects_unlock(text::utf8(front()) + b) ==> activation::rejects_unlock(b),
{
    let raw = text::utf8(front());
    let (h, low) = (text::lowercase(raw), text::lowercase(b));
    assert(text::lowercase(raw + b) =~= h + low);
    lemma_words();
    if activation::rejects_offline(raw + b) {
        if text::has_substring(h + low, text::utf8("banned"@)) {
            lemma_banned_behind_front(low);
        } else if text::has_substring(h + low, text::utf8("revoked"@)) {
            lemma_word_behind_front(h, low, text::utf8("revoked"@), 4);
        } else if text::has_substring(h + low, text::utf8("expired"@)) {
            lemma_word_behind_front(h, low, text::utf8("expired"@), 1);
        } else {
            lemma_word_behind_front(h, low, text::utf8("unknown license"@), 2);
        }
    }
    if activation::rejects_unlock(raw + b) {
        lemma_word_behind_front(raw, b, text::utf8("Unknown license"@), 2);
    }
}

/// The error that is made of the status of a key is a rejection exactly where the status is one.
pub proof fn law_wrapping_makes_no_rejection(status: Seq<char>)
    ensures
        activation::rejects_offline(text::utf8(text::caused(ACTIVATION_ERROR@, status)))
            == activation::rejects_offline(text::utf8(status)),
        activation::rejects_unlock(text::utf8(text::caused(ACTIVATION_ERROR@, status)))
            == activation::rejects_unlock(text::utf8(status)),
{
    let raw = text::utf8(front());
    let b = text::utf8(status);
    text::lemma_utf8_concat(front(), status);
    assert(raw + b + Seq::<u8>::empty() =~= raw + b);
    law_rejections_are_found_anywhere(raw, b, Seq::empty());
    lemma_rejection_behind_front(b);
}

/// A ban, a revocation, an expiration or an unknown license that the server reports of an offline
/// key ends the program; no other status does.
pub proof fn law_reported_rejection_ends_offline_use(
    members: Map<Seq<char>, MemberView>,
    status: Seq<char>,
    answer: Result<(), String>,
)
    requires
        members.contains_key("status"@),
        members["status"@] == MemberView::Text(status),
        server::answers(Some(answer), server::document_outcome(DocumentView::Object(members))),
    ensures
        activation::last_words(answer, |e: Seq<u8>| activation::rejects_offline(e)) == (
        if activation::rejects_offline(text::utf8(status)) {
            Some(text::caused(ACTIVATION_ERROR@, status))
        } else {
            None
        }),
{
    law_wrapping_makes_no_rejection(status);
}

} // verus!
