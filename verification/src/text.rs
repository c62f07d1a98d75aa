//! Text as UTF-8 bytes: prefixes, substrings, separators and decimal numbers.

use vstd::prelude::*;

verus! {

/// The UTF-8 bytes of a text.
pub open spec fn utf8(s: Seq<char>) -> Seq<u8> {
    vstd::utf8::encode_utf8(s)
}

/// Whether `s` begins with `p`.
pub open spec fn has_prefix(s: Seq<u8>, p: Seq<u8>) -> bool {
    p.len() <= s.len() && s.take(p.len() as int) == p
}

/// Whether `p` stands in `s` at position `i`.
pub open spec fn occurs_at(s: Seq<u8>, p: Seq<u8>, i: int) -> bool {
    0 <= i && i + p.len() <= s.len() && s.subrange(i, i + p.len()) == p
}

/// Whether `p` stands anywhere in `s`.
pub open spec fn has_substring(s: Seq<u8>, p: Seq<u8>) -> bool {
    exists|i: int| occurs_at(s, p, i)
}

/// The ASCII lower case of a byte; other bytes stay as they are.
pub open spec fn lower(b: u8) -> u8 {
    if 'A' as u8 <= b <= 'Z' as u8 {
        (b + 32) as u8
    } else {
        b
    }
}

/// The ASCII lower case of a byte sequence.
pub open spec fn lowercase(s: Seq<u8>) -> Seq<u8> {
    s.map_values(|b: u8| lower(b))
}

/// The ASCII upper case of a byte; other bytes stay as they are.
pub open spec fn upper(b: u8) -> u8 {
    if 'a' as u8 <= b <= 'z' as u8 {
        (b - 32) as u8
    } else {
        b
    }
}

/// The ASCII upper case of a byte sequence.
pub open spec fn uppercase(s: Seq<u8>) -> Seq<u8> {
    s.map_values(|b: u8| upper(b))
}

/// The position of the first `b` in `s`, or the length of `s` where there is none.
pub open spec fn find(s: Seq<u8>, b: u8) -> int
    decreases s.len(),
{
    if s.len() == 0 || s[0] == b {
        0
    } else {
        1 + find(s.drop_first(), b)
    }
}

/// The part of `s` in front of the first `b`, or all of it.
pub open spec fn before(s: Seq<u8>, b: u8) -> Seq<u8> {
    s.take(find(s, b))
}

/// The part of `s` behind the first `b`; meant for an `s` that holds one.
pub open spec fn after(s: Seq<u8>, b: u8) -> Seq<u8> {
    s.skip(find(s, b) + 1)
}

/// Whether a byte is an ASCII decimal digit.
pub open spec fn is_digit(b: u8) -> bool {
    '0' as u8 <= b <= '9' as u8
}

/// Whether every byte is an ASCII decimal digit.
pub open spec fn all_digits(s: Seq<u8>) -> bool {
    forall|i: int| 0 <= i < s.len() ==> is_digit(#[trigger] s[i])
}

/// The number that a sequence of decimal digits writes.
pub open spec fn digits_value(s: Seq<u8>) -> int
    decreases s.len(),
{
    if s.len() == 0 {
        0
    } else {
        digits_value(s.drop_last()) * 10 + (s.last() - '0' as u8)
    }
}

/// The decimal digits of a number, without leading zeros.
pub open spec fn decimal(n: nat) -> Seq<char>
    decreases n,
{
    let digit = ((n % 10) + '0' as nat) as char;
    if n < 10 {
        seq![digit]
    } else {
        decimal(n / 10).push(digit)
    }
}

/// Whether a byte is an ASCII letter or digit.
pub open spec fn is_alphanumeric(b: u8) -> bool {
    is_digit(b) || 'a' as u8 <= b <= 'z' as u8 || 'A' as u8 <= b <= 'Z' as u8
}

/// What holds of [`find`]: it is a position or the length, `b` stands there and nowhere before.
pub proof fn lemma_find(s: Seq<u8>, b: u8)
    ensures
        0 <= find(s, b) <= s.len(),
        find(s, b) < s.len() ==> s[find(s, b)] == b,
        forall|i: int| 0 <= i < find(s, b) ==> s[i] != b,
        s.contains(b) <==> find(s, b) < s.len(),
    decreases s.len(),
{
    if s.len() > 0 && s[0] != b {
        lemma_find(s.drop_first(), b);
        assert forall|i: int| 0 <= i < find(s, b) implies s[i] != b by {
            if i > 0 {
                assert(s[i] == s.drop_first()[i - 1]);
            }
        }
    }
}

/// A position with `b` and no `b` before it is the one that [`find`] gives.
pub proof fn lemma_find_is(s: Seq<u8>, b: u8, k: int)
    requires
        0 <= k <= s.len(),
        k < s.len() ==> s[k] == b,
        forall|i: int| 0 <= i < k ==> s[i] != b,
    ensures
        find(s, b) == k,
{
    lemma_find(s, b);
    let f = find(s, b);
    if f < k {
        assert(s[f] != b);
    } else if k < f {
        assert(s[k] != b);
    }
}

/// Two texts with the same UTF-8 bytes are the same text.
pub proof fn lemma_utf8_injective(a: Seq<char>, b: Seq<char>)
    requires
        utf8(a) == utf8(b),
    ensures
        a == b,
{
    vstd::utf8::encode_utf8_decode_utf8(a);
    vstd::utf8::encode_utf8_decode_utf8(b);
}

/// The UTF-8 bytes of two texts in a row are those of the one followed by those of the other.
pub proof fn lemma_utf8_concat(a: Seq<char>, b: Seq<char>)
    ensures
        utf8(a + b) == utf8(a) + utf8(b),
    decreases a.len(),
{
    if a.len() == 0 {
        assert(a + b =~= b);
        assert(utf8(a) + utf8(b) =~= utf8(b));
    } else {
        lemma_utf8_concat(a.drop_first(), b);
        assert((a + b).drop_first() =~= a.drop_first() + b);
        assert(utf8(a + b) =~= utf8(a) + utf8(b));
    }
}

/// The bytes of a character are one byte below 128, the character itself, or bytes from 128 on.
proof fn lemma_encoded_character(c: char)
    ensures
        ({
            let bytes = vstd::utf8::encode_scalar(c as u32);
            if (c as u32) < 128 {
                bytes.len() == 1 && bytes[0] == c as u32
            } else {
                bytes.len() > 0 && forall|i: int| 0 <= i < bytes.len() ==> #[trigger] bytes[i] >= 128
            }
        }),
{
    let v = c as u32;
    vstd::utf8::char_is_scalar(c);
    assert(v < 128 ==> vstd::utf8::leading_byte_width_1(v) == v) by (bit_vector);
    assert(vstd::utf8::leading_byte_width_2(v) >= 128) by (bit_vector);
    assert(vstd::utf8::leading_byte_width_3(v) >= 128) by (bit_vector);
    assert(vstd::utf8::leading_byte_width_4(v) >= 128) by (bit_vector);
    assert(vstd::utf8::last_continuation_byte(v) >= 128) by (bit_vector);
    assert(vstd::utf8::second_last_continuation_byte(v) >= 128) by (bit_vector);
    assert(vstd::utf8::third_last_continuation_byte(v) >= 128) by (bit_vector);
}

/// A byte below 128 of a text is a character of it, and so is the byte behind it, next to it.
pub proof fn lemma_ascii_byte(s: Seq<char>, i: int) -> (j: int)
    requires
        0 <= i < utf8(s).len(),
        utf8(s)[i] < 128,
    ensures
        0 <= j < s.len(),
        s[j] as u32 == utf8(s)[i],
        i + 1 < utf8(s).len() && utf8(s)[i + 1] < 128 ==> j + 1 < s.len() && s[j + 1] as u32
            == utf8(s)[i + 1],
    decreases s.len(),
{
    let first = vstd::utf8::encode_scalar(s[0] as u32);
    let rest = s.drop_first();
    lemma_encoded_character(s[0]);
    assert(utf8(s) =~= first + utf8(rest));
    if i < first.len() {
        assert(first.len() == 1);
        if i + 1 < utf8(s).len() && utf8(s)[i + 1] < 128 {
            assert(utf8(rest)[0] == utf8(s)[1]);
            lemma_encoded_character(rest[0]);
            let second = vstd::utf8::encode_scalar(rest[0] as u32);
            assert(utf8(rest) =~= second + utf8(rest.drop_first()));
            assert(second[0] == utf8(s)[1]);
            assert(rest[0] == s[1]);
        }
        0
    } else {
        assert(utf8(rest)[i - first.len()] == utf8(s)[i]);
        let j = lemma_ascii_byte(rest, i - first.len());
        assert(rest[j] == s[j + 1]);
        if i + 1 < utf8(s).len() {
            assert(utf8(rest)[i + 1 - first.len()] == utf8(s)[i + 1]);
            if j + 1 < rest.len() {
                assert(rest[j + 1] == s[j + 2]);
            }
        }
        j + 1
    }
}

/// What holds of [`decimal`]: digits that write the number back, without a leading zero.
pub proof fn lemma_decimal(n: nat)
    ensures
        decimal(n).len() > 0,
        utf8(decimal(n)).len() == decimal(n).len(),
        all_digits(utf8(decimal(n))),
        digits_value(utf8(decimal(n))) == n,
        n > 0 ==> utf8(decimal(n))[0] != '0' as u8,
    decreases n,
{
    let digit = ((n % 10) + '0' as nat) as char;
    let last = seq![digit];
    vstd::utf8::is_ascii_chars_encode_utf8(last);
    let b = utf8(last);
    assert(b.len() == 1 && b[0] == digit as u8);
    assert(b.drop_last() =~= Seq::<u8>::empty());
    if n < 10 {
        assert(decimal(n) == last);
        reveal_with_fuel(digits_value, 2);
    } else {
        lemma_decimal(n / 10);
        lemma_utf8_concat(decimal(n / 10), last);
        assert(decimal(n) =~= decimal(n / 10) + last);
        let s = utf8(decimal(n));
        let head = utf8(decimal(n / 10));
        assert(s =~= head + b);
        assert(s.drop_last() =~= head);
        assert forall|i: int| 0 <= i < s.len() implies is_digit(#[trigger] s[i]) by {
            if i < head.len() {
                assert(is_digit(head[i]));
            }
        }
    }
}

/// Ten to the power of `n`.
pub open spec fn pow10(n: nat) -> int
    decreases n,
{
    if n == 0 {
        1
    } else {
        10 * pow10((n - 1) as nat)
    }
}

/// A number below a power of ten has no more digits than the power says.
pub proof fn lemma_decimal_len(n: nat, k: nat)
    requires
        k > 0,
        n < pow10(k),
    ensures
        decimal(n).len() <= k,
    decreases k,
{
    if n >= 10 {
        if k == 1 {
            reveal_with_fuel(pow10, 2);
        } else {
            lemma_decimal_len(n / 10, (k - 1) as nat);
        }
    }
}

/// Tests whether `s` begins with `p`.
pub fn starts_with(s: &[u8], p: &[u8]) -> (r: bool)
    ensures
        r == has_prefix(s@, p@),
{
    if p.len() > s.len() {
        return false;
    }
    let head = vstd::slice::slice_subrange(s, 0, p.len());
    assert(head@ == s@.take(p@.len() as int));
    same_bytes(head, p)
}

/// Tests whether two byte sequences are equal.
pub fn same_bytes(a: &[u8], b: &[u8]) -> (r: bool)
    ensures
        r == (a@ == b@),
{
    if a.len() != b.len() {
        return false;
    }
    let mut i: usize = 0;
    while i < a.len()
        invariant
            i <= a@.len() == b@.len(),
            forall|j: int| 0 <= j < i ==> a@[j] == b@[j],
        decreases a.len() - i,
    {
        if a[i] != b[i] {
            return false;
        }
        i += 1;
    }
    assert(a@ =~= b@);
    true
}

/// Tests whether two texts are equal.
pub fn same_text(a: &str, b: &str) -> (r: bool)
    ensures
        r == (a@ == b@),
{
    let r: bool = same_bytes(a.as_bytes(), b.as_bytes());
    proof {
        if utf8(a@) == utf8(b@) {
            lemma_utf8_injective(a@, b@);
        }
    }
    r
}

/// Tests whether `p` stands anywhere in `s`.
pub fn contains(s: &[u8], p: &[u8]) -> (r: bool)
    ensures
        r == has_substring(s@, p@),
{
    if p.len() > s.len() {
        return false;
    }
    let last: usize = s.len() - p.len();
    let mut i: usize = 0;
    while i <= last
        invariant
            i <= last + 1,
            last == s@.len() - p@.len(),
            s@.len() <= usize::MAX,
            forall|j: int| 0 <= j < i ==> !occurs_at(s@, p@, j),
        decreases last + 1 - i,
    {
        if same_bytes(vstd::slice::slice_subrange(s, i, i + p.len()), p) {
            assert(occurs_at(s@, p@, i as int));
            return true;
        }
        if i == last {
            assert(forall|j: int| occurs_at(s@, p@, j) ==> j < i + 1);
            return false;
        }
        i += 1;
    }
    false
}

/// The bytes with ASCII letters in lower case.
pub fn to_lowercase(s: &[u8]) -> (r: Vec<u8>)
    ensures
        r@ == lowercase(s@),
{
    let mut out: Vec<u8> = Vec::new();
    let mut i: usize = 0;
    while i < s.len()
        invariant
            i <= s@.len(),
            out@ == lowercase(s@.take(i as int)),
        decreases s.len() - i,
    {
        let b: u8 = s[i];
        if 'A' as u8 <= b && b <= 'Z' as u8 {
            out.push(b + 32);
        } else {
            out.push(b);
        }
        i += 1;
        assert(out@ =~= lowercase(s@.take(i as int)));
    }
    assert(s@.take(i as int) =~= s@);
    out
}

/// The position of the first `b` in `s`, or the length of `s` where there is none.
pub fn position(s: &[u8], b: u8) -> (r: usize)
    ensures
        r == find(s@, b),
        r <= s@.len(),
        s@.contains(b) <==> r < s@.len(),
{
    proof {
        lemma_find(s@, b);
    }
    let mut i: usize = 0;
    while i < s.len()
        invariant
            i <= s@.len(),
            forall|j: int| 0 <= j < i ==> s@[j] != b,
        decreases s.len() - i,
    {
        if s[i] == b {
            proof {
                lemma_find_is(s@, b, i as int);
            }
            return i;
        }
        i += 1;
    }
    proof {
        lemma_find_is(s@, b, i as int);
    }
    i
}

/// The text behind the first `b`, where there is one.
pub fn text_after<'a>(s: &'a str, b: u8) -> (r: Option<&'a str>)
    requires
        b < 128,
    ensures
        r is Some <==> find(utf8(s@), b) < utf8(s@).len(),
        r matches Some(t) ==> utf8(t@) == after(utf8(s@), b),
{
    let bytes = s.as_bytes();
    let at: usize = position(bytes, b);
    if at == bytes.len() {
        return None;
    }
    proof {
        lemma_find(utf8(s@), b);
        vstd::utf8::encode_utf8_valid_utf8(s@);
        vstd::utf8::is_char_boundary_iff_not_is_continuation_byte(utf8(s@), at as int);
    }
    let (_, tail) = s.split_at(at);
    proof {
        let t = utf8(tail@);
        vstd::utf8::encode_utf8_valid_utf8(tail@);
        assert(t[0] == b);
        reveal_with_fuel(vstd::utf8::is_char_boundary, 3);
        vstd::utf8::is_char_boundary_start_end_of_seq(vstd::utf8::pop_first_scalar(t));
        assert(vstd::utf8::is_char_boundary(t, 1));
    }
    let (_, rest) = tail.split_at(1);
    assert(utf8(rest@) =~= after(utf8(s@), b));
    Some(rest)
}

/// The text without its last byte, where that is a character of its own.
pub fn without_last<'a>(s: &'a str) -> (r: Option<&'a str>)
    ensures
        r is Some <==> utf8(s@).len() > 0 && utf8(s@).last() < 128,
        r matches Some(t) ==> utf8(t@) == utf8(s@).drop_last(),
{
    let bytes = s.as_bytes();
    if bytes.len() == 0 || bytes[bytes.len() - 1] >= 128 {
        return None;
    }
    let last: usize = bytes.len() - 1;
    proof {
        vstd::utf8::encode_utf8_valid_utf8(s@);
        vstd::utf8::is_char_boundary_iff_not_is_continuation_byte(utf8(s@), last as int);
    }
    let (head, _) = s.split_at(last);
    assert(utf8(head@) =~= utf8(s@).drop_last());
    Some(head)
}

/// Whether bytes are the UTF-8 bytes of a text.
pub open spec fn is_utf8(bytes: Seq<u8>) -> bool {
    vstd::utf8::valid_utf8(bytes)
}

/// The text whose UTF-8 bytes these are.
pub open spec fn chars(bytes: Seq<u8>) -> Seq<char> {
    vstd::utf8::decode_utf8(bytes)
}

/// The text of a text's bytes is that text, and its bytes are valid.
pub proof fn lemma_chars(s: Seq<char>)
    ensures
        is_utf8(utf8(s)),
        chars(utf8(s)) == s,
{
    vstd::utf8::encode_utf8_valid_utf8(s);
    vstd::utf8::encode_utf8_decode_utf8(s);
}

/// What the standard library says of bytes that are not UTF-8.
pub uninterp spec fn utf8_error(bytes: Seq<u8>) -> Seq<char>;

/// Calls `std::str::from_utf8`: the text with these UTF-8 bytes, or, where there is none, what the
/// error says. That message depends on the bytes alone and is only given a name.
#[verifier::external_body]
pub(crate) fn from_utf8<'a>(bytes: &'a [u8]) -> (r: Result<&'a str, String>)
    ensures
        r is Ok <==> is_utf8(bytes@),
        r matches Ok(t) ==> utf8(t@) == bytes@,
        r matches Err(e) ==> e@ == utf8_error(bytes@),
{
    std::str::from_utf8(bytes).map_err(|e| e.to_string())
}

/// Tests whether a byte is an ASCII letter or digit.
pub fn alphanumeric(b: u8) -> (r: bool)
    ensures
        r == is_alphanumeric(b),
{
    ('0' as u8 <= b && b <= '9' as u8) || ('a' as u8 <= b && b <= 'z' as u8) || ('A' as u8 <= b && b
        <= 'Z' as u8)
}

/// Tests whether every byte is an ASCII decimal digit.
pub fn only_digits(s: &[u8]) -> (r: bool)
    ensures
        r == all_digits(s@),
{
    let mut i: usize = 0;
    while i < s.len()
        invariant
            i <= s@.len(),
            forall|j: int| 0 <= j < i ==> is_digit(#[trigger] s@[j]),
        decreases s.len() - i,
    {
        if s[i] < '0' as u8 || s[i] > '9' as u8 {
            assert(!is_digit(s@[i as int]));
            return false;
        }
        i += 1;
    }
    true
}

proof fn lemma_digits_value_grows(s: Seq<u8>, k: int)
    requires
        all_digits(s),
        0 <= k <= s.len(),
    ensures
        0 <= digits_value(s.take(k)) <= digits_value(s),
    decreases s.len(),
{
    if k == s.len() {
        assert(s.take(k) =~= s);
        if s.len() > 0 {
            lemma_digits_value_grows(s.drop_last(), s.len() - 1);
            assert(s.drop_last().take(s.len() - 1) =~= s.drop_last());
            assert(is_digit(s[s.len() - 1]));
        }
    } else {
        lemma_digits_value_grows(s.drop_last(), k);
        assert(s.drop_last().take(k) =~= s.take(k));
        assert(is_digit(s[s.len() - 1]));
    }
}

/// The number that a sequence of decimal digits writes, unless it exceeds 64 bits.
pub fn parse_u64(s: &[u8]) -> (r: Option<u64>)
    requires
        all_digits(s@),
    ensures
        r is Some <==> digits_value(s@) <= u64::MAX,
        r matches Some(n) ==> n == digits_value(s@),
{
    let mut n: u64 = 0;
    let mut i: usize = 0;
    while i < s.len()
        invariant
            i <= s@.len(),
            all_digits(s@),
            n == digits_value(s@.take(i as int)),
        decreases s.len() - i,
    {
        assert(is_digit(s@[i as int]));
        let d: u64 = (s[i] - '0' as u8) as u64;
        proof {
            assert(s@.take(i + 1).drop_last() =~= s@.take(i as int));
            lemma_digits_value_grows(s@, i + 1);
        }
        if n > (u64::MAX - d) / 10 {
            assert(n * 10 + d > u64::MAX);
            return None;
        }
        n = n * 10 + d;
        i += 1;
    }
    assert(s@.take(i as int) =~= s@);
    Some(n)
}

/// One decimal digit as a text.
fn digit_text(d: usize) -> (r: &'static str)
    requires
        d < 10,
    ensures
        r@ == seq![(d + '0' as nat) as char],
{
    proof {
        reveal_strlit("0");
        reveal_strlit("1");
        reveal_strlit("2");
        reveal_strlit("3");
        reveal_strlit("4");
        reveal_strlit("5");
        reveal_strlit("6");
        reveal_strlit("7");
        reveal_strlit("8");
        reveal_strlit("9");
    }
    match d {
        0 => "0",
        1 => "1",
        2 => "2",
        3 => "3",
        4 => "4",
        5 => "5",
        6 => "6",
        7 => "7",
        8 => "8",
        _ => "9",
    }
}

/// A number in decimal digits.
pub fn decimal_text(n: usize) -> (r: String)
    ensures
        r@ == decimal(n as nat),
    decreases n,
{
    if n < 10 {
        digit_text(n).to_owned()
    } else {
        let mut out: String = decimal_text(n / 10);
        out.append(digit_text(n % 10));
        assert(out@ =~= decimal(n as nat));
        out
    }
}

/// `message`, then `cause` on a line of its own behind the word `Error`.
pub open spec fn caused(message: Seq<char>, cause: Seq<char>) -> Seq<char> {
    message + "\nError: "@ + cause
}

/// Joins a message and its cause.
pub fn with_cause(message: &str, cause: &str) -> (r: String)
    ensures
        r@ == caused(message@, cause@),
{
    let mut out: String = message.to_owned();
    out.append("\nError: ");
    out.append(cause);
    out
}

/// The outcome of a function beside what its contract names: the same value, or an error whose
/// text is the one named.
pub open spec fn agrees<T>(r: Result<T, String>, s: Result<T, Seq<char>>) -> bool {
    match (r, s) {
        (Ok(a), Ok(b)) => a == b,
        (Err(e), Err(m)) => e@ == m,
        _ => false,
    }
}

/// The same for functions that return bytes.
pub open spec fn agrees_bytes(r: Result<Vec<u8>, String>, s: Result<Seq<u8>, Seq<char>>) -> bool {
    match (r, s) {
        (Ok(a), Ok(b)) => a@ == b,
        (Err(e), Err(m)) => e@ == m,
        _ => false,
    }
}

} // verus!
