use live2d_chat_core::base64url::{decode, encode, DecodeError};

#[test]
fn encode_spells_the_standard_examples_without_padding() {
    assert_eq!(encode(b""), "");
    assert_eq!(encode(b"f"), "Zg");
    assert_eq!(encode(b"fo"), "Zm8");
    assert_eq!(encode(b"foo"), "Zm9v");
    assert_eq!(encode(b"foob"), "Zm9vYg");
    assert_eq!(encode(b"fooba"), "Zm9vYmE");
    assert_eq!(encode(b"foobar"), "Zm9vYmFy");
}

#[test]
fn encode_uses_the_url_safe_alphabet() {
    assert_eq!(encode(&[0xfb, 0xff]), "-_8");
    assert_eq!(encode(&[0xff, 0xff, 0xff]), "____");
    let bytes: Vec<u8> = (0..256u32).step_by(7).map(|v| v as u8).collect();
    assert_eq!(
        encode(&bytes),
        "AAcOFRwjKjE4P0ZNVFtiaXB3foWMk5qhqK-2vcTL0tng5-71_A"
    );
}

#[test]
fn decode_reads_the_standard_examples() {
    assert_eq!(decode(b""), Ok(Vec::new()));
    assert_eq!(decode(b"Zg"), Ok(b"f".to_vec()));
    assert_eq!(decode(b"Zm8"), Ok(b"fo".to_vec()));
    assert_eq!(decode(b"Zm9v"), Ok(b"foo".to_vec()));
    assert_eq!(decode(b"Zm9vYg"), Ok(b"foob".to_vec()));
    assert_eq!(decode(b"Zm9vYmE"), Ok(b"fooba".to_vec()));
    assert_eq!(decode(b"Zm9vYmFy"), Ok(b"foobar".to_vec()));
    assert_eq!(decode(b"-_8"), Ok(vec![0xfb, 0xff]));
}

#[test]
fn decode_inverts_encode() {
    let mut data: Vec<u8> = Vec::new();
    for len in 0..200u32 {
        let text = encode(&data);
        assert_eq!(decode(text.as_bytes()), Ok(data.clone()), "length {}", len);
        data.push((len * 37 + 11) as u8);
    }
    let every: Vec<u8> = (0..=255u8).collect();
    assert_eq!(decode(encode(&every).as_bytes()), Ok(every));
}

#[test]
fn decode_reports_an_invalid_byte() {
    assert_eq!(decode(b"Zm+v"), Err(DecodeError::InvalidByte(2, b'+')));
    assert_eq!(decode(b"Zm/v"), Err(DecodeError::InvalidByte(2, b'/')));
    assert_eq!(decode(b" Zm9v"), Err(DecodeError::InvalidByte(0, b' ')));
    assert_eq!(decode(b"Zm9vZm9v!m9v"), Err(DecodeError::InvalidByte(8, b'!')));
    assert_eq!(decode(b"="), Err(DecodeError::InvalidByte(0, b'=')));
    assert_eq!(decode(b"Z=g"), Err(DecodeError::InvalidByte(1, b'=')));
    assert_eq!(decode(b"Zg=a"), Err(DecodeError::InvalidByte(2, b'=')));
    assert_eq!(decode(b"AA==AAAA"), Err(DecodeError::InvalidByte(2, b'=')));
    assert_eq!(decode(b"AAAA="), Err(DecodeError::InvalidByte(4, b'=')));
}

#[test]
fn decode_reports_a_trailing_invalid_byte_first() {
    assert_eq!(decode(b"Zm9v\n"), Err(DecodeError::InvalidByte(4, b'\n')));
    assert_eq!(decode(b"!m9v\n"), Err(DecodeError::InvalidByte(4, b'\n')));
    assert_eq!(decode(b"!m9vY"), Err(DecodeError::InvalidByte(0, b'!')));
}

#[test]
fn decode_reports_an_invalid_length() {
    assert_eq!(decode(b"A"), Err(DecodeError::InvalidLength(1)));
    assert_eq!(decode(b"Zm9vY"), Err(DecodeError::InvalidLength(5)));
    assert_eq!(decode(b"Zm9vZm9vY"), Err(DecodeError::InvalidLength(9)));
}

#[test]
fn decode_reports_trailing_bits() {
    assert_eq!(decode(b"Zh"), Err(DecodeError::InvalidLastSymbol(1, b'h')));
    assert_eq!(decode(b"Zm9"), Err(DecodeError::InvalidLastSymbol(2, b'9')));
    assert_eq!(
        decode(b"Zm9vYmF"),
        Err(DecodeError::InvalidLastSymbol(6, b'F'))
    );
}

#[test]
fn decode_refuses_padding() {
    assert_eq!(decode(b"Zg=="), Err(DecodeError::InvalidPadding));
    assert_eq!(decode(b"Zm8="), Err(DecodeError::InvalidPadding));
    assert_eq!(decode(b"Zg="), Err(DecodeError::InvalidPadding));
    assert_eq!(decode(b"Zm9vYg=="), Err(DecodeError::InvalidPadding));
    assert_eq!(decode(b"Zh=="), Err(DecodeError::InvalidPadding));
}

fn symbol_value(b: u8) -> Option<u32> {
    match b {
        b'A'..=b'Z' => Some((b - b'A') as u32),
        b'a'..=b'z' => Some((b - b'a') as u32 + 26),
        b'0'..=b'9' => Some((b - b'0') as u32 + 52),
        b'-' => Some(62),
        b'_' => Some(63),
        _ => None,
    }
}

/// The decoder's rules written out once more, independently of the crate,
/// to hold the codec against them on many inputs.
fn expected_outcome(text: &[u8]) -> Result<Vec<u8>, DecodeError> {
    let n = text.len();
    if n % 4 == 1 && text[n - 1] != b'=' && symbol_value(text[n - 1]).is_none() {
        return Err(DecodeError::InvalidByte(n - 1, text[n - 1]));
    }
    if let Some(at) = text.iter().position(|b| symbol_value(*b).is_none()) {
        let last_group = if n % 4 == 0 { n - 4 } else { n - n % 4 };
        if text[at] == b'=' && at >= last_group + 2 && text[at..].iter().all(|b| *b == b'=') {
            return Err(DecodeError::InvalidPadding);
        }
        return Err(DecodeError::InvalidByte(at, text[at]));
    }
    if n % 4 == 1 {
        return Err(DecodeError::InvalidLength(n));
    }
    let values: Vec<u32> = text.iter().map(|b| symbol_value(*b).unwrap()).collect();
    let last = values.last().copied().unwrap_or(0);
    if (n % 4 == 2 && last % 16 != 0) || (n % 4 == 3 && last % 4 != 0) {
        return Err(DecodeError::InvalidLastSymbol(n - 1, text[n - 1]));
    }
    let mut bytes = Vec::new();
    for group in values.chunks(4) {
        bytes.push((group[0] * 4 + group[1] / 16) as u8);
        if group.len() > 2 {
            bytes.push(((group[1] % 16) * 16 + group[2] / 4) as u8);
        }
        if group.len() > 3 {
            bytes.push(((group[2] % 4) * 64 + group[3]) as u8);
        }
    }
    Ok(bytes)
}

#[test]
fn decode_follows_the_stated_rules_on_every_short_input() {
    let letters: [u8; 7] = [b'A', b'Q', b'h', b'_', b'=', b'!', b'\n'];
    let mut text: Vec<u8> = Vec::new();
    for len in 0..=6usize {
        let count = letters.len().pow(len as u32);
        for code in 0..count {
            text.clear();
            let mut rest = code;
            for _ in 0..len {
                text.push(letters[rest % letters.len()]);
                rest /= letters.len();
            }
            assert_eq!(decode(&text), expected_outcome(&text), "input {:?}", text);
        }
    }
}

#[test]
fn decode_follows_the_stated_rules_on_longer_inputs() {
    let letters: [u8; 5] = [b'A', b'w', b'=', b'*', b'9'];
    let mut seed: u32 = 12345;
    for _ in 0..20000 {
        seed = seed.wrapping_mul(1664525).wrapping_add(1013904223);
        let len = 7 + (seed >> 24) as usize % 40;
        let mut text: Vec<u8> = Vec::new();
        for _ in 0..len {
            seed = seed.wrapping_mul(1664525).wrapping_add(1013904223);
            let pick = (seed >> 16) % 64;
            text.push(if pick < 56 { b'A' + (pick % 26) as u8 } else { letters[(pick % 5) as usize] });
        }
        assert_eq!(decode(&text), expected_outcome(&text), "input {:?}", text);
    }
}
