//! Percent-encoding of a search query for the query component of a URL.
use vstd::prelude::*;
use vstd::utf8::*;
use crate::text::push_char;

verus! {

/// Bytes that stand for themselves in an encoded query: ASCII letters,
/// digits, and `-`, `_`, `.`, `~`.
pub open spec fn is_unreserved(b: u8) -> bool {
    ||| 97 <= b <= 122
    ||| 65 <= b <= 90
    ||| 48 <= b <= 57
    ||| b == 45
    ||| b == 95
    ||| b == 46
    ||| b == 126
}

/// The upper-case hexadecimal digit for `n` (`0 <= n < 16`).
pub open spec fn hex_digit(n: int) -> char {
    if n < 10 {
        (n + 48) as char
    } else {
        (n + 55) as char
    }
}

/// How one byte of the UTF-8 form is written: itself, or `%XX`.
pub open spec fn encode_byte(b: u8) -> Seq<char> {
    if is_unreserved(b) {
        seq![b as char]
    } else {
        seq!['%', hex_digit(b as int / 16), hex_digit(b as int % 16)]
    }
}

/// The percent-encoding of a byte sequence.
pub open spec fn encode_bytes(bs: Seq<u8>) -> Seq<char>
    decreases bs.len(),
{
    if bs.len() == 0 {
        seq![]
    } else {
        encode_byte(bs[0]) + encode_bytes(bs.drop_first())
    }
}

/// The percent-encoding of the UTF-8 form of `s`.
pub open spec fn url_encoded(s: Seq<char>) -> Seq<char> {
    encode_bytes(encode_utf8(s))
}

/// Whether `c` is a hexadecimal digit, in either case.
pub open spec fn is_hex_char(c: char) -> bool {
    ||| '0' <= c <= '9'
    ||| 'A' <= c <= 'F'
    ||| 'a' <= c <= 'f'
}

/// The value of the hexadecimal digit `c`.
pub open spec fn hex_value(c: char) -> int {
    if '0' <= c <= '9' {
        c as int - 48
    } else if 'A' <= c <= 'F' {
        c as int - 55
    } else {
        c as int - 87
    }
}

/// How a server decodes the query component: each `%XX` becomes the byte
/// `0xXX`, every other character stands for its own (ASCII) byte.
pub open spec fn percent_decode(t: Seq<char>) -> Seq<u8>
    decreases t.len(),
{
    if t.len() == 0 {
        seq![]
    } else if t.len() >= 3 && t[0] == '%' && is_hex_char(t[1]) && is_hex_char(t[2]) {
        seq![(hex_value(t[1]) * 16 + hex_value(t[2])) as u8] + percent_decode(t.skip(3))
    } else {
        seq![(t[0] as u32 % 256) as u8] + percent_decode(t.skip(1))
    }
}

proof fn lemma_encode_bytes_append(a: Seq<u8>, b: Seq<u8>)
    ensures
        encode_bytes(a + b) == encode_bytes(a) + encode_bytes(b),
    decreases a.len(),
{
    if a.len() == 0 {
        assert(a + b =~= b);
    } else {
        assert((a + b).drop_first() =~= a.drop_first() + b);
        lemma_encode_bytes_append(a.drop_first(), b);
    }
}

proof fn lemma_encode_bytes_push(a: Seq<u8>, b: u8)
    ensures
        encode_bytes(a.push(b)) == encode_bytes(a) + encode_byte(b),
{
    lemma_encode_bytes_append(a, seq![b]);
    assert(a + seq![b] =~= a.push(b));
    assert(seq![b].drop_first() =~= Seq::<u8>::empty());
    assert(encode_bytes(seq![b].drop_first()) =~= Seq::<char>::empty());
    assert(encode_bytes(seq![b]) =~= encode_byte(b));
}

proof fn lemma_decode_encoded_bytes(bs: Seq<u8>)
    ensures
        percent_decode(encode_bytes(bs)) == bs,
    decreases bs.len(),
{
    if bs.len() > 0 {
        let b = bs[0];
        let rest = encode_bytes(bs.drop_first());
        let t = encode_byte(b) + rest;
        lemma_decode_encoded_bytes(bs.drop_first());
        if is_unreserved(b) {
            assert(t.skip(1) =~= rest);
            assert(t[0] == b as char);
            assert(t[0] != '%');
        } else {
            assert(t.skip(3) =~= rest);
            assert(hex_value(hex_digit(b as int / 16)) == b as int / 16);
            assert(hex_value(hex_digit(b as int % 16)) == b as int % 16);
        }
        assert(seq![b] + bs.drop_first() =~= bs);
    }
}

/// Decoding the encoded form of a query gives back the query's UTF-8 bytes,
/// so every character, comparison operators included, reaches the server
/// unchanged.
pub proof fn lemma_url_encoding_round_trip(s: Seq<char>)
    ensures
        percent_decode(url_encoded(s)) == encode_utf8(s),
        decode_utf8(percent_decode(url_encoded(s))) == s,
{
    lemma_decode_encoded_bytes(encode_utf8(s));
    encode_utf8_decode_utf8(s);
}

/// The upper-case hexadecimal digit for `n`.
fn hex_digit_char(n: u8) -> (c: char)
    requires
        n < 16,
    ensures
        c == hex_digit(n as int),
{
    if n < 10 {
        (n + 48) as char
    } else {
        (n + 55) as char
    }
}

/// Percent-encodes `s` for a URL's query component: unreserved ASCII
/// characters stay, every other byte of the UTF-8 form becomes `%XX`.
pub fn urlencoding(s: &str) -> (r: String)
    ensures
        r@ == url_encoded(s@),
{
    let bytes = s.as_bytes();
    let mut result = String::new();
    let mut i: usize = 0;
    while i < bytes.len()
        invariant
            bytes@ == encode_utf8(s@),
            i <= bytes@.len(),
            result@ == encode_bytes(bytes@.subrange(0, i as int)),
        decreases bytes.len() - i,
    {
        let b = bytes[i];
        proof {
            lemma_encode_bytes_push(bytes@.subrange(0, i as int), b);
            assert(bytes@.subrange(0, i + 1) =~= bytes@.subrange(0, i as int).push(b));
        }
        let unreserved = (97 <= b && b <= 122) || (65 <= b && b <= 90) || (48 <= b && b <= 57)
            || b == 45 || b == 95 || b == 46 || b == 126;
        if unreserved {
            push_char(&mut result, b as char);
        } else {
            push_char(&mut result, '%');
            push_char(&mut result, hex_digit_char(b / 16));
            push_char(&mut result, hex_digit_char(b % 16));
        }
        assert(result@ =~= encode_bytes(bytes@.subrange(0, i + 1)));
        i = i + 1;
    }
    assert(bytes@.subrange(0, bytes@.len() as int) =~= bytes@);
    result
}

} // verus!
