//! Unpadded, URL-safe Base64.
//!
//! The codec itself is the `base64` crate's general-purpose engine configured
//! with the URL-safe alphabet and no padding. This module states what that
//! engine computes as spec functions, and proves from that statement that
//! decoding inverts encoding.

use vstd::prelude::*;

verus! {

/// The ways in which a byte string can fail to be unpadded URL-safe Base64.
#[derive(Clone, Copy, Debug, PartialEq, Eq, Structural)]
pub enum DecodeError {
    /// A byte outside the alphabet, with its offset in the input.
    InvalidByte(usize, u8),
    /// The number of symbols cannot come from an encoder; holds the length.
    InvalidLength(usize),
    /// The last symbol carries bits that no encoder would set; holds its
    /// offset and the symbol.
    InvalidLastSymbol(usize, u8),
    /// Padding was found where none is allowed.
    InvalidPadding,
}

/// ASCII code of the padding character `=`.
pub const PAD_BYTE: u8 = 61;

/// The symbol that stands for the six-bit value `v` in the URL-safe alphabet:
/// `A`-`Z`, `a`-`z`, `0`-`9`, `-`, `_`.
pub open spec fn alphabet_symbol(v: int) -> u8 {
    if v < 26 {
        (65 + v) as u8
    } else if v < 52 {
        (97 + (v - 26)) as u8
    } else if v < 62 {
        (48 + (v - 52)) as u8
    } else if v == 62 {
        45u8
    } else {
        95u8
    }
}

/// Whether `b` is one of the 64 symbols of the URL-safe alphabet.
pub open spec fn is_symbol(b: u8) -> bool {
    (65 <= b <= 90) || (97 <= b <= 122) || (48 <= b <= 57) || b == 45 || b == 95
}

/// The six-bit value that the symbol `b` stands for.
pub open spec fn symbol_value(b: u8) -> int
    recommends
        is_symbol(b),
{
    if 65 <= b <= 90 {
        b - 65
    } else if 97 <= b <= 122 {
        b - 97 + 26
    } else if 48 <= b <= 57 {
        b - 48 + 52
    } else if b == 45 {
        62
    } else {
        63
    }
}

/// The encoding of `data` as a sequence of ASCII codes: every three bytes
/// become four symbols, a last group of one byte becomes two symbols, and a
/// last group of two bytes becomes three.
pub open spec fn encode_symbols(data: Seq<u8>) -> Seq<u8>
    decreases data.len(),
{
    if data.len() == 0 {
        Seq::empty()
    } else if data.len() == 1 {
        let b0 = data[0] as int;
        seq![alphabet_symbol(b0 / 4), alphabet_symbol((b0 % 4) * 16)]
    } else if data.len() == 2 {
        let b0 = data[0] as int;
        let b1 = data[1] as int;
        seq![
            alphabet_symbol(b0 / 4),
            alphabet_symbol((b0 % 4) * 16 + b1 / 16),
            alphabet_symbol((b1 % 16) * 4),
        ]
    } else {
        let b0 = data[0] as int;
        let b1 = data[1] as int;
        let b2 = data[2] as int;
        seq![
            alphabet_symbol(b0 / 4),
            alphabet_symbol((b0 % 4) * 16 + b1 / 16),
            alphabet_symbol((b1 % 16) * 4 + b2 / 64),
            alphabet_symbol(b2 % 64),
        ] + encode_symbols(data.skip(3))
    }
}

/// Whether `c` is one of the 64 characters of the URL-safe alphabet.
pub open spec fn is_symbol_char(c: char) -> bool {
    (c as u32) < 128 && is_symbol(c as u8)
}

/// The encoding of `data` as text.
pub open spec fn encode_spec(data: Seq<u8>) -> Seq<char> {
    Seq::new(encode_symbols(data).len(), |i: int| encode_symbols(data)[i] as char)
}

/// Whether every byte of `text` is a symbol of the alphabet.
pub open spec fn all_symbols(text: Seq<u8>) -> bool {
    forall|i: int| 0 <= i < text.len() ==> is_symbol(#[trigger] text[i])
}

/// Offset of the first byte of `text` that is no symbol, or the length of
/// `text` if there is none.
pub open spec fn first_non_symbol(text: Seq<u8>) -> int
    decreases text.len(),
{
    if text.len() == 0 || !is_symbol(text[0]) {
        0
    } else {
        1 + first_non_symbol(text.skip(1))
    }
}

/// Offset at which the last group of up to four symbols begins.
pub open spec fn last_group_start(len: int) -> int {
    if len == 0 {
        0
    } else if len % 4 == 0 {
        len - 4
    } else {
        len - len % 4
    }
}

/// Whether `text` holds nothing but padding from offset `from` on.
pub open spec fn only_padding_from(text: Seq<u8>, from: int) -> bool {
    forall|i: int| from <= i < text.len() ==> #[trigger] text[i] == PAD_BYTE
}

/// Whether the last symbol of `text` has bits set that fall outside the
/// bytes it helps to spell.
pub open spec fn has_trailing_bits(text: Seq<u8>) -> bool {
    ||| text.len() % 4 == 2 && symbol_value(text.last()) % 16 != 0
    ||| text.len() % 4 == 3 && symbol_value(text.last()) % 4 != 0
}

/// The bytes spelled by a sequence of symbols: every four symbols give three
/// bytes, a last group of two gives one byte, and a last group of three
/// gives two.
pub open spec fn decode_symbols(text: Seq<u8>) -> Seq<u8>
    decreases text.len(),
{
    if text.len() < 2 {
        Seq::empty()
    } else if text.len() == 2 {
        seq![(symbol_value(text[0]) * 4 + symbol_value(text[1]) / 16) as u8]
    } else if text.len() == 3 {
        seq![
            (symbol_value(text[0]) * 4 + symbol_value(text[1]) / 16) as u8,
            ((symbol_value(text[1]) % 16) * 16 + symbol_value(text[2]) / 4) as u8,
        ]
    } else {
        seq![
            (symbol_value(text[0]) * 4 + symbol_value(text[1]) / 16) as u8,
            ((symbol_value(text[1]) % 16) * 16 + symbol_value(text[2]) / 4) as u8,
            ((symbol_value(text[2]) % 4) * 64 + symbol_value(text[3])) as u8,
        ] + decode_symbols(text.skip(4))
    }
}

/// What decoding `text` yields: the bytes it spells, or the first defect in
/// the order in which the decoder looks for them.
pub open spec fn decode_spec(text: Seq<u8>) -> Result<Seq<u8>, DecodeError> {
    let n = text.len() as int;
    if n % 4 == 1 && text[n - 1] != PAD_BYTE && !is_symbol(text[n - 1]) {
        Err(DecodeError::InvalidByte((n - 1) as usize, text[n - 1]))
    } else if !all_symbols(text) {
        let at = first_non_symbol(text);
        if text[at] == PAD_BYTE && at >= last_group_start(n) + 2 && only_padding_from(text, at) {
            Err(DecodeError::InvalidPadding)
        } else {
            Err(DecodeError::InvalidByte(at as usize, text[at]))
        }
    } else if n % 4 == 1 {
        Err(DecodeError::InvalidLength(n as usize))
    } else if has_trailing_bits(text) {
        Err(DecodeError::InvalidLastSymbol((n - 1) as usize, text[n - 1]))
    } else {
        Ok(decode_symbols(text))
    }
}

/// Whether `text` is the unpadded URL-safe Base64 spelling of some bytes.
pub open spec fn is_canonical(text: Seq<u8>) -> bool {
    all_symbols(text) && text.len() % 4 != 1 && !has_trailing_bits(text)
}

/// Every six-bit value has a symbol, and the symbol gives the value back.
pub proof fn lemma_symbol_value_of_alphabet_symbol(v: int)
    requires
        0 <= v < 64,
    ensures
        is_symbol(alphabet_symbol(v)),
        symbol_value(alphabet_symbol(v)) == v,
        alphabet_symbol(v) != PAD_BYTE,
{
}

/// Every symbol stands for a six-bit value and is the symbol of that value.
pub proof fn lemma_alphabet_symbol_of_symbol_value(b: u8)
    requires
        is_symbol(b),
    ensures
        0 <= symbol_value(b) < 64,
        alphabet_symbol(symbol_value(b)) == b,
{
}

/// The length of an encoding: four symbols for every three bytes, and one
/// symbol more than bytes for a shorter last group.
pub proof fn lemma_encode_symbols_len(data: Seq<u8>)
    ensures
        encode_symbols(data).len() == 4 * (data.len() / 3) + (if data.len() % 3 == 0 {
            0
        } else {
            data.len() % 3 + 1
        }),
    decreases data.len(),
{
    if data.len() >= 3 {
        lemma_encode_symbols_len(data.skip(3));
    }
}

/// An encoding consists of symbols only.
pub proof fn lemma_encode_symbols_all_symbols(data: Seq<u8>)
    ensures
        all_symbols(encode_symbols(data)),
    decreases data.len(),
{
    let text = encode_symbols(data);
    if data.len() == 0 {
    } else {
        let b0 = data[0] as int;
        lemma_symbol_value_of_alphabet_symbol(b0 / 4);
        if data.len() == 1 {
            lemma_symbol_value_of_alphabet_symbol((b0 % 4) * 16);
        } else {
            let b1 = data[1] as int;
            lemma_symbol_value_of_alphabet_symbol((b0 % 4) * 16 + b1 / 16);
            if data.len() == 2 {
                lemma_symbol_value_of_alphabet_symbol((b1 % 16) * 4);
            } else {
                let b2 = data[2] as int;
                lemma_symbol_value_of_alphabet_symbol((b1 % 16) * 4 + b2 / 64);
                lemma_symbol_value_of_alphabet_symbol(b2 % 64);
                lemma_encode_symbols_all_symbols(data.skip(3));
                let rest = encode_symbols(data.skip(3));
                assert forall|i: int| 0 <= i < text.len() implies is_symbol(#[trigger] text[i]) by {
                    if i >= 4 {
                        assert(text[i] == rest[i - 4]);
                    }
                }
            }
        }
    }
}

/// The last symbol of an encoding has no bit set beyond the bytes encoded.
pub proof fn lemma_encode_symbols_no_trailing_bits(data: Seq<u8>)
    ensures
        !has_trailing_bits(encode_symbols(data)),
    decreases data.len(),
{
    let text = encode_symbols(data);
    if data.len() == 0 {
    } else if data.len() == 1 {
        let v = ((data[0] as int) % 4) * 16;
        lemma_symbol_value_of_alphabet_symbol(v);
        assert(text.len() == 2);
        assert(text.last() == alphabet_symbol(v));
    } else if data.len() == 2 {
        let v = ((data[1] as int) % 16) * 4;
        lemma_symbol_value_of_alphabet_symbol(v);
        assert(text.len() == 3);
        assert(text.last() == alphabet_symbol(v));
    } else {
        let rest = encode_symbols(data.skip(3));
        lemma_encode_symbols_no_trailing_bits(data.skip(3));
        assert(text.len() == 4 + rest.len());
        if rest.len() > 0 {
            assert(text.last() == rest.last());
        }
    }
}

/// Spelling out the symbols of an encoding gives the encoded bytes back.
pub proof fn lemma_decode_symbols_of_encode_symbols(data: Seq<u8>)
    ensures
        decode_symbols(encode_symbols(data)) == data,
    decreases data.len(),
{
    let text = encode_symbols(data);
    if data.len() == 0 {
        assert(decode_symbols(text) =~= data);
    } else {
        let b0 = data[0] as int;
        lemma_symbol_value_of_alphabet_symbol(b0 / 4);
        if data.len() == 1 {
            lemma_symbol_value_of_alphabet_symbol((b0 % 4) * 16);
            assert(decode_symbols(text) =~= data);
        } else {
            let b1 = data[1] as int;
            lemma_symbol_value_of_alphabet_symbol((b0 % 4) * 16 + b1 / 16);
            if data.len() == 2 {
                lemma_symbol_value_of_alphabet_symbol((b1 % 16) * 4);
                assert(decode_symbols(text) =~= data);
            } else {
                let b2 = data[2] as int;
                lemma_symbol_value_of_alphabet_symbol((b1 % 16) * 4 + b2 / 64);
                lemma_symbol_value_of_alphabet_symbol(b2 % 64);
                lemma_decode_symbols_of_encode_symbols(data.skip(3));
                let rest = encode_symbols(data.skip(3));
                assert(text.skip(4) =~= rest);
                assert(decode_symbols(text) =~= data);
            }
        }
    }
}

/// An encoding is canonical: the decoder finds no defect in it.
pub proof fn lemma_encode_symbols_is_canonical(data: Seq<u8>)
    ensures
        is_canonical(encode_symbols(data)),
{
    lemma_encode_symbols_len(data);
    lemma_encode_symbols_all_symbols(data);
    lemma_encode_symbols_no_trailing_bits(data);
}

/// Decoding inverts encoding: for every byte sequence, decoding the symbols
/// of its encoding succeeds and yields that sequence.
pub proof fn lemma_decode_inverts_encode(data: Seq<u8>)
    ensures
        decode_spec(encode_symbols(data)) == Ok::<Seq<u8>, DecodeError>(data),
{
    lemma_encode_symbols_is_canonical(data);
    lemma_decode_symbols_of_encode_symbols(data);
    let text = encode_symbols(data);
    if text.len() > 0 {
        assert(is_symbol(text[text.len() - 1]));
    }
}

/// Four six-bit values packed into three bytes can be read back from them.
proof fn lemma_unpack_three_bytes(v0: int, v1: int, v2: int, v3: int)
    requires
        0 <= v0 < 64,
        0 <= v1 < 64,
        0 <= v2 < 64,
        0 <= v3 < 64,
    ensures
        ({
            let b0 = v0 * 4 + v1 / 16;
            let b1 = (v1 % 16) * 16 + v2 / 4;
            let b2 = (v2 % 4) * 64 + v3;
            &&& 0 <= b0 < 256 && 0 <= b1 < 256 && 0 <= b2 < 256
            &&& b0 / 4 == v0
            &&& (b0 % 4) * 16 + b1 / 16 == v1
            &&& (b1 % 16) * 4 + b2 / 64 == v2
            &&& b2 % 64 == v3
        }),
{
}

/// The symbols of the first group of a canonical text are the encoding of
/// the bytes that the group spells.
proof fn lemma_first_group_encodes_back(text: Seq<u8>)
    requires
        is_canonical(text),
        text.len() >= 2,
    ensures
        ({
            let data = decode_symbols(text);
            let b0 = data[0] as int;
            &&& data.len() >= 1
            &&& alphabet_symbol(b0 / 4) == text[0]
            &&& text.len() == 2 ==> data.len() == 1 && alphabet_symbol((b0 % 4) * 16) == text[1]
            &&& text.len() >= 3 ==> data.len() >= 2 && alphabet_symbol(
                (b0 % 4) * 16 + data[1] as int / 16,
            ) == text[1]
            &&& text.len() == 3 ==> data.len() == 2 && alphabet_symbol(
                ((data[1] as int) % 16) * 4,
            ) == text[2]
            &&& text.len() >= 4 ==> data.len() >= 3 && alphabet_symbol(
                ((data[1] as int) % 16) * 4 + data[2] as int / 64,
            ) == text[2] && alphabet_symbol((data[2] as int) % 64) == text[3]
        }),
{
    assert(is_symbol(text[0]) && is_symbol(text[1]));
    lemma_alphabet_symbol_of_symbol_value(text[0]);
    lemma_alphabet_symbol_of_symbol_value(text[1]);
    let v0 = symbol_value(text[0]);
    let v1 = symbol_value(text[1]);
    if text.len() == 2 {
        assert(text.last() == text[1]);
        lemma_unpack_three_bytes(v0, v1, 0, 0);
    } else {
        assert(is_symbol(text[2]));
        lemma_alphabet_symbol_of_symbol_value(text[2]);
        let v2 = symbol_value(text[2]);
        if text.len() == 3 {
            assert(text.last() == text[2]);
            lemma_unpack_three_bytes(v0, v1, v2, 0);
        } else {
            assert(is_symbol(text[3]));
            lemma_alphabet_symbol_of_symbol_value(text[3]);
            lemma_unpack_three_bytes(v0, v1, v2, symbol_value(text[3]));
        }
    }
}

/// What follows the first group of a canonical text is canonical.
proof fn lemma_rest_is_canonical(text: Seq<u8>)
    requires
        is_canonical(text),
        text.len() >= 4,
    ensures
        is_canonical(text.skip(4)),
{
    let rest = text.skip(4);
    assert forall|i: int| 0 <= i < rest.len() implies is_symbol(#[trigger] rest[i]) by {
        assert(rest[i] == text[i + 4]);
    }
    if rest.len() > 0 {
        assert(rest.last() == text.last());
    }
}

/// Encoding inverts decoding: a canonical text is the encoding of the bytes
/// that it spells, so no two canonical texts spell the same bytes.
pub proof fn lemma_encode_inverts_decode(text: Seq<u8>)
    requires
        is_canonical(text),
    ensures
        encode_symbols(decode_symbols(text)) == text,
    decreases text.len(),
{
    let data = decode_symbols(text);
    if text.len() == 0 {
        assert(encode_symbols(data) =~= text);
    } else {
        lemma_first_group_encodes_back(text);
        if text.len() >= 4 {
            let rest = text.skip(4);
            lemma_rest_is_canonical(text);
            lemma_encode_inverts_decode(rest);
            assert(data.skip(3) =~= decode_symbols(rest));
        }
        assert(encode_symbols(data) =~= text);
    }
}

/// The text of an encoding is made of the symbols of the alphabet, each an
/// ASCII character, so that its bytes are the symbols themselves.
pub proof fn lemma_encode_spec_is_ascii(data: Seq<u8>)
    ensures
        encode_spec(data).len() == encode_symbols(data).len(),
        forall|i: int|
            0 <= i < encode_spec(data).len() ==> is_symbol_char(#[trigger] encode_spec(data)[i]),
        vstd::utf8::encode_utf8(encode_spec(data)) == encode_symbols(data),
{
    let text = encode_spec(data);
    let symbols = encode_symbols(data);
    lemma_encode_symbols_all_symbols(data);
    assert forall|i: int| 0 <= i < text.len() implies is_symbol_char(#[trigger] text[i]) by {
        assert(is_symbol(symbols[i]));
        assert(text[i] == symbols[i] as char);
    }
    assert(vstd::utf8::is_ascii_chars(text)) by {
        assert forall|i: int| 0 <= i < text.len() implies '\0' <= #[trigger] text[i]
            <= '\u{7f}' by {
            assert(is_symbol_char(text[i]));
        }
    }
    vstd::utf8::is_ascii_chars_encode_utf8(text);
    let bytes = vstd::utf8::encode_utf8(text);
    assert forall|i: int| 0 <= i < bytes.len() implies bytes[i] == symbols[i] by {
        assert(text[i] as u8 == bytes[i]);
        assert(is_symbol(symbols[i]));
        assert(text[i] == symbols[i] as char);
    }
    assert(bytes =~= symbols);
}

/// Calls `base64::Engine::encode` on the general-purpose engine with the
/// URL-safe alphabet and no padding.
///
/// Trusted, not proved: the text returned is the encoding that
/// [`encode_spec`] describes. The call fails only where the length of the
/// text would not fit in a `usize`, which the length of no slice in memory
/// leads to.
#[verifier::external_body]
fn engine_encode(bytes: &[u8]) -> (text: String)
    ensures
        text@ == encode_spec(bytes@),
{
    base64::Engine::encode(
        &base64::engine::GeneralPurpose::new(
            &base64::alphabet::URL_SAFE,
            base64::engine::general_purpose::NO_PAD,
        ),
        bytes,
    )
}

/// Calls `base64::Engine::decode` on the same engine and moves the crate's
/// error into [`DecodeError`], variant by variant.
///
/// Trusted, not proved: the outcome is the one that [`decode_spec`]
/// describes. For canonical text that is the bytes it spells. For any other
/// text it is the defect that the engine meets first: an invalid last byte
/// of a text one longer than whole groups, then the first byte outside the
/// alphabet (reported as padding where only `=` follows from the third place
/// of the last group on), then the length, then the bits of the last symbol.
#[verifier::external_body]
fn engine_decode(text: &[u8]) -> (outcome: Result<Vec<u8>, DecodeError>)
    ensures
        match outcome {
            Ok(bytes) => decode_spec(text@) == Ok::<Seq<u8>, DecodeError>(bytes@),
            Err(e) => decode_spec(text@) == Err::<Seq<u8>, DecodeError>(e),
        },
{
    match base64::Engine::decode(
        &base64::engine::GeneralPurpose::new(
            &base64::alphabet::URL_SAFE,
            base64::engine::general_purpose::NO_PAD,
        ),
        text,
    ) {
        Ok(bytes) => Ok(bytes),
        Err(base64::DecodeError::InvalidByte(at, b)) => Err(DecodeError::InvalidByte(at, b)),
        Err(base64::DecodeError::InvalidLength(n)) => Err(DecodeError::InvalidLength(n)),
        Err(base64::DecodeError::InvalidLastSymbol(at, b)) => Err(DecodeError::InvalidLastSymbol(at, b)),
        Err(base64::DecodeError::InvalidPadding) => Err(DecodeError::InvalidPadding),
    }
}

/// Encodes `bytes` as unpadded URL-safe Base64.
pub fn encode(bytes: &[u8]) -> (text: String)
    ensures
        text@ == encode_spec(bytes@),
{
    engine_encode(bytes)
}

/// Decodes unpadded URL-safe Base64, or reports why `base64_url` is none.
pub fn decode(base64_url: &[u8]) -> (outcome: Result<Vec<u8>, DecodeError>)
    ensures
        outcome is Ok <==> is_canonical(base64_url@),
        match outcome {
            Ok(bytes) => decode_spec(base64_url@) == Ok::<Seq<u8>, DecodeError>(bytes@),
            Err(e) => decode_spec(base64_url@) == Err::<Seq<u8>, DecodeError>(e),
        },
{
    engine_decode(base64_url)
}

} // verus!
