//! Base64url and Base32 texts, and big-endian numbers.
//!
//! A text of `k`-bit symbols writes one large number, most significant symbol first. So do the
//! bytes it stands for, followed by fewer than `k` zero bits. That relation, and no table or loop,
//! is what the decoders are said to compute.

use data_encoding::{BASE32_NOPAD, BASE64URL_NOPAD};
use vstd::prelude::*;

verus! {

/// The number that `digits` write in `base`, most significant digit first.
pub open spec fn number(digits: Seq<int>, base: int) -> int
    decreases digits.len(),
{
    if digits.len() == 0 {
        0
    } else {
        number(digits.drop_last(), base) * base + digits.last()
    }
}

/// Bytes as digits.
pub open spec fn byte_digits(bytes: Seq<u8>) -> Seq<int> {
    bytes.map_values(|b: u8| b as int)
}

/// The number that bytes write, most significant byte first.
pub open spec fn big_endian(bytes: Seq<u8>) -> int {
    number(byte_digits(bytes), 256)
}

/// The value of a Base64url symbol: `A` to `Z`, `a` to `z`, `0` to `9`, `-`, `_`.
pub open spec fn base64url_symbol(b: u8) -> Option<int> {
    if 'A' as u8 <= b <= 'Z' as u8 {
        Some(b - 'A' as u8)
    } else if 'a' as u8 <= b <= 'z' as u8 {
        Some(b - 'a' as u8 + 26)
    } else if '0' as u8 <= b <= '9' as u8 {
        Some(b - '0' as u8 + 52)
    } else if b == '-' as u8 {
        Some(62)
    } else if b == '_' as u8 {
        Some(63)
    } else {
        None
    }
}

/// The value of a Base32 symbol: `A` to `Z`, `2` to `7`.
pub open spec fn base32_symbol(b: u8) -> Option<int> {
    if 'A' as u8 <= b <= 'Z' as u8 {
        Some(b - 'A' as u8)
    } else if '2' as u8 <= b <= '7' as u8 {
        Some(b - '2' as u8 + 26)
    } else {
        None
    }
}

/// Whether every byte of `text` is a symbol.
pub open spec fn all_symbols(text: Seq<u8>, symbol: spec_fn(u8) -> Option<int>) -> bool {
    forall|i: int| 0 <= i < text.len() ==> symbol(#[trigger] text[i]) is Some
}

/// The values of the symbols of `text`.
pub open spec fn symbol_digits(text: Seq<u8>, symbol: spec_fn(u8) -> Option<int>) -> Seq<int> {
    text.map_values(|b: u8| symbol(b)->0)
}

/// Whether `text` is the one way to write `bytes` in symbols of `bits` bits without padding: only
/// symbols, no symbol more than needed, and zeros in the bits left over.
pub open spec fn encodes(
    text: Seq<u8>,
    bytes: Seq<u8>,
    bits: nat,
    symbol: spec_fn(u8) -> Option<int>,
) -> bool {
    let rest = (bits * text.len()) % 8;
    &&& all_symbols(text, symbol)
    &&& rest < bits
    &&& bytes.len() == (bits * text.len()) / 8
    &&& number(symbol_digits(text, symbol), vstd::arithmetic::power2::pow2(bits) as int) == big_endian(bytes) * vstd::arithmetic::power2::pow2(rest)
}

/// Whether `text` is the unpadded Base64url encoding of `bytes`.
pub open spec fn is_base64url(text: Seq<u8>, bytes: Seq<u8>) -> bool {
    encodes(text, bytes, 6, |b: u8| base64url_symbol(b))
}

/// Whether `text` is the unpadded Base32 encoding of `bytes`.
pub open spec fn is_base32(text: Seq<u8>, bytes: Seq<u8>) -> bool {
    encodes(text, bytes, 5, |b: u8| base32_symbol(b))
}

/// The bytes that a Base64url text stands for, where there are any.
pub open spec fn base64url(text: Seq<u8>) -> Option<Seq<u8>> {
    if exists|bytes: Seq<u8>| is_base64url(text, bytes) {
        Some(choose|bytes: Seq<u8>| is_base64url(text, bytes))
    } else {
        None
    }
}

/// The bytes that a Base32 text stands for, where there are any.
pub open spec fn base32(text: Seq<u8>) -> Option<Seq<u8>> {
    if exists|bytes: Seq<u8>| is_base32(text, bytes) {
        Some(choose|bytes: Seq<u8>| is_base32(text, bytes))
    } else {
        None
    }
}

/// Calls `data_encoding::BASE64URL_NOPAD.decode`: gives the bytes whose unpadded Base64url
/// encoding the text is, and an error exactly where it is the encoding of no bytes. The function
/// panics on a text longer than an eighth of the address space, which is therefore left out.
#[verifier::external_body]
fn base64url_decode(text: &[u8]) -> (r: Option<Vec<u8>>)
    requires
        text@.len() <= usize::MAX / 8,
    ensures
        r matches Some(bytes) ==> is_base64url(text@, bytes@),
        r is None ==> forall|bytes: Seq<u8>| !is_base64url(text@, bytes),
{
    BASE64URL_NOPAD.decode(text).ok()
}

/// Calls `data_encoding::BASE32_NOPAD.decode`: gives the bytes whose unpadded Base32 encoding the
/// text is, and an error exactly where it is the encoding of no bytes. The function panics on a
/// text longer than an eighth of the address space, which is therefore left out.
#[verifier::external_body]
fn base32_decode(text: &[u8]) -> (r: Option<Vec<u8>>)
    requires
        text@.len() <= usize::MAX / 8,
    ensures
        r matches Some(bytes) ==> is_base32(text@, bytes@),
        r is None ==> forall|bytes: Seq<u8>| !is_base32(text@, bytes),
{
    BASE32_NOPAD.decode(text).ok()
}

/// Whether every digit is a digit of `base`.
pub open spec fn below(digits: Seq<int>, base: int) -> bool {
    forall|i: int| 0 <= i < digits.len() ==> 0 <= #[trigger] digits[i] < base
}

/// Digits of a given length are determined by the number they write.
pub proof fn lemma_number_injective(a: Seq<int>, b: Seq<int>, base: int)
    requires
        a.len() == b.len(),
        base > 1,
        below(a, base),
        below(b, base),
        number(a, base) == number(b, base),
    ensures
        a == b,
    decreases a.len(),
{
    if a.len() > 0 {
        let (x, y) = (number(a.drop_last(), base), number(b.drop_last(), base));
        assert(0 <= a[a.len() - 1] < base && 0 <= b[b.len() - 1] < base);
        vstd::arithmetic::div_mod::lemma_fundamental_div_mod_converse(
            x * base + a.last(),
            base,
            x,
            a.last(),
        );
        vstd::arithmetic::div_mod::lemma_fundamental_div_mod_converse(
            y * base + b.last(),
            base,
            y,
            b.last(),
        );
        assert(x * base == base * x && y * base == base * y) by (nonlinear_arith);
        lemma_number_injective(a.drop_last(), b.drop_last(), base);
        assert(a =~= a.drop_last().push(a.last()));
        assert(b =~= b.drop_last().push(b.last()));
    } else {
        assert(a =~= b);
    }
}

/// Bytes of a given length are determined by the number they write.
pub proof fn lemma_big_endian_injective(a: Seq<u8>, b: Seq<u8>)
    requires
        a.len() == b.len(),
        big_endian(a) == big_endian(b),
    ensures
        a == b,
{
    lemma_number_injective(byte_digits(a), byte_digits(b), 256);
    assert forall|i: int| 0 <= i < a.len() implies a[i] == b[i] by {
        assert(byte_digits(a)[i] == byte_digits(b)[i]);
    }
    assert(a =~= b);
}

/// One text stands for one byte sequence at most.
pub proof fn lemma_decoding_unique(
    text: Seq<u8>,
    a: Seq<u8>,
    b: Seq<u8>,
    bits: nat,
    symbol: spec_fn(u8) -> Option<int>,
)
    requires
        encodes(text, a, bits, symbol),
        encodes(text, b, bits, symbol),
    ensures
        a == b,
{
    let rest = (bits * text.len()) % 8;
    vstd::arithmetic::power2::lemma_pow2_pos(rest);
    let (x, y, p) = (big_endian(a), big_endian(b), vstd::arithmetic::power2::pow2(rest) as int);
    assert(x == y) by (nonlinear_arith)
        requires
            x * p == y * p,
            p > 0,
    ;
    lemma_big_endian_injective(a, b);
}

/// Decodes an unpadded Base64url text.
pub fn decode_base64url(text: &[u8]) -> (r: Option<Vec<u8>>)
    requires
        text@.len() <= usize::MAX / 8,
    ensures
        r is Some <==> base64url(text@) is Some,
        r matches Some(bytes) ==> base64url(text@) == Some(bytes@),
{
    let r = base64url_decode(text);
    proof {
        if r is Some {
            let bytes = r->0;
            let chosen = choose|b: Seq<u8>| is_base64url(text@, b);
            lemma_decoding_unique(text@, bytes@, chosen, 6, |b: u8| base64url_symbol(b));
        }
    }
    r
}

/// Decodes an unpadded Base32 text.
pub fn decode_base32(text: &[u8]) -> (r: Option<Vec<u8>>)
    requires
        text@.len() <= usize::MAX / 8,
    ensures
        r is Some <==> base32(text@) is Some,
        r matches Some(bytes) ==> base32(text@) == Some(bytes@),
{
    let r = base32_decode(text);
    proof {
        if r is Some {
            let bytes = r->0;
            let chosen = choose|b: Seq<u8>| is_base32(text@, b);
            lemma_decoding_unique(text@, bytes@, chosen, 5, |b: u8| base32_symbol(b));
        }
    }
    r
}

/// Two texts that stand for the same bytes are the same text: neither padding nor the bits left
/// over in the last symbol give a second way to write a token.
pub proof fn law_base64url_is_canonical(a: Seq<u8>, b: Seq<u8>, bytes: Seq<u8>)
    requires
        base64url(a) == Some(bytes),
        base64url(b) == Some(bytes),
    ensures
        a == b,
{
    let symbol = |b: u8| base64url_symbol(b);
    assert(is_base64url(a, bytes) && is_base64url(b, bytes));
    assert(a.len() == b.len());
    assert(below(symbol_digits(a, symbol), 64) && below(symbol_digits(b, symbol), 64));
    vstd::arithmetic::power2::lemma2_to64();
    lemma_number_injective(symbol_digits(a, symbol), symbol_digits(b, symbol), 64);
    assert forall|i: int| 0 <= i < a.len() implies a[i] == b[i] by {
        assert(symbol_digits(a, symbol)[i] == symbol_digits(b, symbol)[i]);
        assert(symbol(a[i]) is Some && symbol(b[i]) is Some);
    }
    assert(a =~= b);
}

/// The same of Base32, which writes the signatures of offline keys.
pub proof fn law_base32_is_canonical(a: Seq<u8>, b: Seq<u8>, bytes: Seq<u8>)
    requires
        base32(a) == Some(bytes),
        base32(b) == Some(bytes),
    ensures
        a == b,
{
    let symbol = |b: u8| base32_symbol(b);
    assert(is_base32(a, bytes) && is_base32(b, bytes));
    assert(a.len() == b.len());
    assert(below(symbol_digits(a, symbol), 32) && below(symbol_digits(b, symbol), 32));
    vstd::arithmetic::power2::lemma2_to64();
    lemma_number_injective(symbol_digits(a, symbol), symbol_digits(b, symbol), 32);
    assert forall|i: int| 0 <= i < a.len() implies a[i] == b[i] by {
        assert(symbol_digits(a, symbol)[i] == symbol_digits(b, symbol)[i]);
        assert(symbol(a[i]) is Some && symbol(b[i]) is Some);
    }
    assert(a =~= b);
}

/// `n` in `width` bytes, most significant byte first; what does not fit is left out.
pub open spec fn be_bytes(n: int, width: nat) -> Seq<u8>
    decreases width,
{
    if width == 0 {
        Seq::empty()
    } else {
        be_bytes(n / 256, (width - 1) as nat).push((n % 256) as u8)
    }
}

/// 256 to the power of `n`.
pub open spec fn pow256(n: nat) -> int
    decreases n,
{
    if n == 0 {
        1
    } else {
        256 * pow256((n - 1) as nat)
    }
}

/// Bytes write numbers below a power of 256.
pub proof fn lemma_big_endian_bound(bytes: Seq<u8>)
    ensures
        0 <= big_endian(bytes) < pow256(bytes.len()),
    decreases bytes.len(),
{
    if bytes.len() > 0 {
        lemma_big_endian_bound(bytes.drop_last());
        assert(byte_digits(bytes).drop_last() =~= byte_digits(bytes.drop_last()));
    }
}

/// A number that fits is written and read back without change.
pub proof fn lemma_be_bytes(n: int, width: nat)
    requires
        0 <= n < pow256(width),
    ensures
        be_bytes(n, width).len() == width,
        big_endian(be_bytes(n, width)) == n,
    decreases width,
{
    if width > 0 {
        lemma_be_bytes(n / 256, (width - 1) as nat);
        let bytes = be_bytes(n, width);
        assert(bytes.drop_last() =~= be_bytes(n / 256, (width - 1) as nat));
        assert(byte_digits(bytes).drop_last() =~= byte_digits(bytes.drop_last()));
    }
}

/// Appends `n` in `width` bytes, most significant byte first.
pub fn push_be(out: &mut Vec<u8>, n: u64, width: usize)
    ensures
        final(out)@ == old(out)@ + be_bytes(n as int, width as nat),
    decreases width,
{
    if width > 0 {
        push_be(out, n / 256, width - 1);
        out.push((n % 256) as u8);
    }
    assert(out@ =~= old(out)@ + be_bytes(n as int, width as nat));
}

/// Reads bytes as a number, most significant byte first.
pub fn read_be(bytes: &[u8]) -> (r: u64)
    requires
        bytes@.len() <= 8,
    ensures
        r == big_endian(bytes@),
{
    let mut n: u64 = 0;
    let mut i: usize = 0;
    while i < bytes.len()
        invariant
            i <= bytes@.len() <= 8,
            n == big_endian(bytes@.take(i as int)),
        decreases bytes.len() - i,
    {
        proof {
            let head = bytes@.take(i as int);
            lemma_big_endian_bound(head);
            reveal_with_fuel(pow256, 8);
            let next = bytes@.take(i + 1);
            assert(next.drop_last() =~= head);
            assert(byte_digits(next).drop_last() =~= byte_digits(head));
        }
        n = n * 256 + bytes[i] as u64;
        i += 1;
    }
    assert(bytes@.take(i as int) =~= bytes@);
    n
}

} // verus!
