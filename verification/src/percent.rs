//! Percent-encoding of text in URLs.

use vstd::prelude::*;
use vstd::utf8::{
    char_is_scalar, char_u32_cast, decode_utf8, encode_scalar, encode_utf8, encode_utf8_decode_utf8,
    encode_utf8_valid_utf8, is_ascii_chars, is_ascii_chars_encode_utf8, is_scalar, valid_utf8,
};

verus! {

/// A byte that stands for itself in a URL: an ASCII letter or digit, `-`, `.`,
/// `_` or `~`.
pub open spec fn unreserved(b: u8) -> bool {
    (0x30 <= b <= 0x39) || (0x41 <= b <= 0x5a) || (0x61 <= b <= 0x7a) || b == 0x2d || b == 0x2e
        || b == 0x5f || b == 0x7e
}

/// A hexadecimal digit, with letters in upper case.
pub open spec fn hex_digit(d: int) -> char
    recommends
        0 <= d < 16,
{
    if d < 10 {
        (0x30 + d) as char
    } else {
        (0x37 + d) as char
    }
}

/// The value of a hexadecimal digit in either case.
pub open spec fn hex_value(b: u8) -> Option<int> {
    if 0x30 <= b <= 0x39 {
        Some(b - 0x30)
    } else if 0x41 <= b <= 0x46 {
        Some(b - 0x37)
    } else if 0x61 <= b <= 0x66 {
        Some(b - 0x57)
    } else {
        None
    }
}

/// Bytes with each one that is not unreserved written as `%` and two digits.
pub open spec fn escaped(bytes: Seq<u8>) -> Seq<char>
    decreases bytes.len(),
{
    if bytes.len() == 0 {
        Seq::empty()
    } else if unreserved(bytes[0]) {
        seq![bytes[0] as char] + escaped(bytes.skip(1))
    } else {
        seq!['%', hex_digit(bytes[0] as int / 16), hex_digit(bytes[0] as int % 16)] + escaped(
            bytes.skip(1),
        )
    }
}

/// A text as it stands in a URL.
pub open spec fn url_encoded(s: Seq<char>) -> Seq<char> {
    escaped(encode_utf8(s))
}

/// Bytes with each `%` and its two hexadecimal digits read as one byte; a `%`
/// without two such digits stands for itself.
pub open spec fn unescaped_bytes(bytes: Seq<u8>) -> Seq<u8>
    decreases bytes.len(),
{
    if bytes.len() == 0 {
        Seq::empty()
    } else if bytes[0] == 0x25 && bytes.len() >= 3 && hex_value(bytes[1]) is Some && hex_value(
        bytes[2],
    ) is Some {
        seq![(16 * hex_value(bytes[1])->0 + hex_value(bytes[2])->0) as u8] + unescaped_bytes(
            bytes.skip(3),
        )
    } else {
        seq![bytes[0]] + unescaped_bytes(bytes.skip(1))
    }
}

/// The text that stands in a URL; none where its bytes are no UTF-8.
pub open spec fn url_decoded(s: Seq<char>) -> Option<Seq<char>> {
    let bytes = unescaped_bytes(encode_utf8(s));
    if valid_utf8(bytes) {
        Some(decode_utf8(bytes))
    } else {
        None
    }
}

/// The message of the error that `urlencoding::decode` gives on a text.
pub uninterp spec fn url_decode_error(s: Seq<char>) -> Seq<char>;

/// `urlencoding::encode`: every byte of the text's UTF-8 form but letters,
/// digits, `-`, `.`, `_` and `~` is written as `%` and two upper-case digits.
#[verifier::external_body]
pub(crate) fn url_encode(s: &str) -> (r: String)
    ensures
        r@ == url_encoded(s@),
{
    urlencoding::encode(s).into_owned()
}

/// `urlencoding::decode`: each `%` with two hexadecimal digits is one byte, any
/// other byte stands for itself, and the result is an error exactly where those
/// bytes are no UTF-8. The message of the error depends on the text alone.
#[verifier::external_body]
pub(crate) fn url_decode(s: &str) -> (r: Result<String, String>)
    ensures
        match r {
            Ok(text) => url_decoded(s@) == Some(text@),
            Err(message) => url_decoded(s@) is None && message@ == url_decode_error(s@),
        },
{
    match urlencoding::decode(s) {
        Ok(text) => Ok(text.into_owned()),
        Err(e) => Err(e.to_string()),
    }
}

proof fn lemma_escaped_is_ascii(bytes: Seq<u8>)
    ensures
        is_ascii_chars(escaped(bytes)),
    decreases bytes.len(),
{
    if bytes.len() > 0 {
        lemma_escaped_is_ascii(bytes.skip(1));
        let tail = escaped(bytes.skip(1));
        assert forall|i: int| 0 <= i < escaped(bytes).len() implies (escaped(bytes)[i] as u32)
            < 0x80 by {
            let n = escaped(bytes).len() - tail.len();
            if i >= n {
                assert(escaped(bytes)[i] == tail[i - n]);
            }
        }
    }
}

proof fn lemma_ascii_bytes(s: Seq<char>)
    requires
        is_ascii_chars(s),
    ensures
        encode_utf8(s) == Seq::new(s.len(), |i: int| s[i] as u8),
{
    is_ascii_chars_encode_utf8(s);
}

proof fn lemma_unescape_escaped(bytes: Seq<u8>)
    ensures
        unescaped_bytes(encode_utf8(escaped(bytes))) == bytes,
    decreases bytes.len(),
{
    lemma_escaped_is_ascii(bytes);
    lemma_ascii_bytes(escaped(bytes));
    let coded = encode_utf8(escaped(bytes));
    if bytes.len() == 0 {
        assert(coded.len() == 0);
        assert(unescaped_bytes(coded) =~= bytes);
    } else {
        let b = bytes[0];
        let rest = bytes.skip(1);
        lemma_escaped_is_ascii(rest);
        lemma_ascii_bytes(escaped(rest));
        lemma_unescape_escaped(rest);
        if unreserved(b) {
            assert(coded.skip(1) =~= encode_utf8(escaped(rest)));
            assert(coded[0] == b);
        } else {
            assert(coded.skip(3) =~= encode_utf8(escaped(rest)));
            let hi = b as int / 16;
            let lo = b as int % 16;
            assert(escaped(bytes)[1] == hex_digit(hi));
            assert(escaped(bytes)[2] == hex_digit(lo));
            assert(hex_value(coded[1]) == Some(hi));
            assert(hex_value(coded[2]) == Some(lo));
        }
        assert(seq![b] + rest =~= bytes);
    }
}

/// Decoding gives back the text that was encoded.
pub proof fn law_decode_undoes_encode(s: Seq<char>)
    ensures
        url_decoded(url_encoded(s)) == Some(s),
{
    lemma_unescape_escaped(encode_utf8(s));
    encode_utf8_valid_utf8(s);
    encode_utf8_decode_utf8(s);
}

proof fn lemma_scalar_free(c: u32)
    requires
        is_scalar(c),
        c != 0x25,
    ensures
        forall|i: int| 0 <= i < encode_scalar(c).len() ==> #[trigger] encode_scalar(c)[i] != 0x25,
{
    assert(0xC0u8 | ((c >> 6u32) & 0x1F) as u8 != 0x25) by (bit_vector);
    assert(0xE0u8 | ((c >> 12u32) & 0x0F) as u8 != 0x25) by (bit_vector);
    assert(0xF0u8 | ((c >> 18u32) & 0x7) as u8 != 0x25) by (bit_vector);
    assert(0x80u8 | (c & 0x3F) as u8 != 0x25) by (bit_vector);
    assert(0x80u8 | ((c >> 6u32) & 0x3F) as u8 != 0x25) by (bit_vector);
    assert(0x80u8 | ((c >> 12u32) & 0x3F) as u8 != 0x25) by (bit_vector);
    assert(c <= 0x7F && c != 0x25 ==> (c & 0x7F) as u8 != 0x25) by (bit_vector);
}

proof fn lemma_bytes_free(s: Seq<char>)
    requires
        !s.contains('%'),
    ensures
        !encode_utf8(s).contains(0x25),
    decreases s.len(),
{
    if s.len() > 0 {
        let rest = s.drop_first();
        assert(s[0] != '%');
        assert forall|i: int| 0 <= i < rest.len() implies rest[i] != '%' by {
            assert(rest[i] == s[i + 1]);
        }
        lemma_bytes_free(rest);
        char_is_scalar(s[0]);
        assert('%' as u32 == 0x25);
        assert(s[0] as u32 != '%' as u32) by {
            char_u32_cast(s[0], s[0] as u32);
            char_u32_cast('%', '%' as u32);
        }
        lemma_scalar_free(s[0] as u32);
        let head = encode_scalar(s[0] as u32);
        let all = encode_utf8(s);
        assert forall|i: int| 0 <= i < all.len() implies all[i] != 0x25 by {
            if i < head.len() {
                assert(all[i] == head[i]);
            } else {
                assert(all[i] == encode_utf8(rest)[i - head.len()]);
            }
        }
    }
}

proof fn lemma_unescape_plain(bytes: Seq<u8>)
    requires
        !bytes.contains(0x25),
    ensures
        unescaped_bytes(bytes) == bytes,
    decreases bytes.len(),
{
    if bytes.len() > 0 {
        let rest = bytes.skip(1);
        assert(bytes[0] != 0x25);
        assert forall|i: int| 0 <= i < rest.len() implies rest[i] != 0x25 by {
            assert(rest[i] == bytes[i + 1]);
        }
        lemma_unescape_plain(rest);
        assert(seq![bytes[0]] + rest =~= bytes);
    } else {
        assert(unescaped_bytes(bytes) =~= bytes);
    }
}

/// Text without a `%` stands for itself, whatever else it holds.
pub proof fn law_plain_text_decodes_to_itself(s: Seq<char>)
    requires
        !s.contains('%'),
    ensures
        url_decoded(s) == Some(s),
{
    lemma_bytes_free(s);
    lemma_unescape_plain(encode_utf8(s));
    encode_utf8_valid_utf8(s);
    encode_utf8_decode_utf8(s);
}

/// An encoded text holds nothing but unreserved characters and `%`.
pub proof fn law_encoded_text_is_url_safe(s: Seq<char>)
    ensures
        forall|i: int|
            0 <= i < url_encoded(s).len() ==> #[trigger] url_encoded(s)[i] == '%' || (unreserved(
                url_encoded(s)[i] as u8,
            ) && (url_encoded(s)[i] as u32) < 0x80),
{
    lemma_escaped_is_safe(encode_utf8(s));
}

proof fn lemma_escaped_is_safe(bytes: Seq<u8>)
    ensures
        forall|i: int|
            0 <= i < escaped(bytes).len() ==> #[trigger] escaped(bytes)[i] == '%' || (unreserved(
                escaped(bytes)[i] as u8,
            ) && (escaped(bytes)[i] as u32) < 0x80),
    decreases bytes.len(),
{
    if bytes.len() > 0 {
        lemma_escaped_is_safe(bytes.skip(1));
        let tail = escaped(bytes.skip(1));
        let all = escaped(bytes);
        assert forall|i: int| 0 <= i < all.len() implies #[trigger] all[i] == '%' || (unreserved(
            all[i] as u8,
        ) && (all[i] as u32) < 0x80) by {
            let n = all.len() - tail.len();
            if i >= n {
                assert(all[i] == tail[i - n]);
            }
        }
    }
}

} // verus!
