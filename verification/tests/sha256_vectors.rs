use live2d_chat_core::sha256::Sha256;

fn hex(bytes: &[u8]) -> String {
    let mut out = String::new();
    for b in bytes {
        out.push_str(&format!("{:02x}", b));
    }
    out
}

fn digest(message: &[u8]) -> String {
    let mut state = Sha256::new();
    state.update(message);
    hex(&state.finalize())
}

#[test]
fn sha256_of_the_empty_message() {
    assert_eq!(
        digest(b""),
        "e3b0c44298fc1c149afbf4c8996fb92427ae41e4649b934ca495991b7852b855"
    );
}

#[test]
fn sha256_without_any_update() {
    assert_eq!(
        hex(&Sha256::new().finalize()),
        "e3b0c44298fc1c149afbf4c8996fb92427ae41e4649b934ca495991b7852b855"
    );
}

#[test]
fn sha256_of_abc() {
    assert_eq!(
        digest(b"abc"),
        "ba7816bf8f01cfea414140de5dae2223b00361a396177a9cb410ff61f20015ad"
    );
}

#[test]
fn sha256_of_a_two_block_message() {
    assert_eq!(
        digest(b"abcdbcdecdefdefgefghfghighijhijkijkljklmklmnlmnomnopnopq"),
        "248d6a61d20638b8e5c026930c3e6039a33ce45964ff2167f6ecedd419db06c1"
    );
}

#[test]
fn sha256_around_the_padding_boundaries() {
    let cases: [(usize, &str); 7] = [
        (55, "9f4390f8d30c2dd92ec9f095b65e2b9ae9b0a925a5258e241c9f1e910f734318"),
        (56, "b35439a4ac6f0948b6d6f9e3c6af0f5f590ce20f1bde7090ef7970686ec6738a"),
        (63, "7d3e74a05d7db15bce4ad9ec0658ea98e3f06eeecf16b4c6fff2da457ddc2f34"),
        (64, "ffe054fe7ae0cb6dc65c3af9b61d5209f439851db43d0ba5997337df154668eb"),
        (65, "635361c48bb9eab14198e76ea8ab7f1a41685d6ad62aa9146d301d4f17eb0ae0"),
        (119, "31eba51c313a5c08226adf18d4a359cfdfd8d2e816b13f4af952f7ea6584dcfb"),
        (120, "2f3d335432c70b580af0e8e1b3674a7c020d683aa5f73aaaedfdc55af904c21c"),
    ];
    for (len, expected) in cases {
        assert_eq!(digest(&vec![b'a'; len]), expected, "length {}", len);
    }
}

#[test]
fn sha256_of_a_million_letters() {
    assert_eq!(
        digest(&vec![b'a'; 1_000_000]),
        "cdc76e5c9914fb9281a1c7e284d73e67f1809a48a497200e046d39ccc7112cd0"
    );
}

#[test]
fn sha256_of_every_byte_value() {
    let message: Vec<u8> = (0..=255u8).collect();
    assert_eq!(
        digest(&message),
        "40aff2e9d2d8922e47afd4648e6967497158785fbd1da870e7110266bf944880"
    );
}

#[test]
fn sha256_does_not_depend_on_how_the_message_is_cut() {
    let message: Vec<u8> = (0..300u32).map(|i| (i * 7 + 3) as u8).collect();
    let whole = digest(&message);
    for cut in [0usize, 1, 31, 63, 64, 65, 127, 128, 129, 200, 299, 300] {
        let mut state = Sha256::new();
        state.update(&message[..cut]);
        state.update(&message[cut..]);
        assert_eq!(hex(&state.finalize()), whole, "cut at {}", cut);
    }
    let mut state = Sha256::new();
    for byte in &message {
        state.update(&[*byte]);
    }
    assert_eq!(hex(&state.finalize()), whole);
}

#[test]
fn sha256_fork_continues_independently() {
    let mut first = Sha256::new();
    first.update(b"ab");
    let mut second = first.fork();
    first.update(b"c");
    second.update(b"cdbcdecdefdefgefghfghighijhijkijkljklmklmnlmnomnopnopq");
    assert_eq!(
        hex(&first.finalize()),
        "ba7816bf8f01cfea414140de5dae2223b00361a396177a9cb410ff61f20015ad"
    );
    assert_eq!(
        hex(&second.finalize()),
        "248d6a61d20638b8e5c026930c3e6039a33ce45964ff2167f6ecedd419db06c1"
    );
}
