use live2d_chat_core::hmac256::HmacSha256;

fn hex_of(bytes: &[u8]) -> String {
    let mut out = String::new();
    for b in bytes {
        out.push_str(&format!("{:02x}", b));
    }
    out
}

fn tag(key: &[u8], message: &[u8]) -> String {
    let mut mac = HmacSha256::new(key);
    mac.update(message);
    hex_of(&mac.finalize())
}

#[test]
fn hmac_with_empty_key_and_empty_message() {
    assert_eq!(
        tag(b"", b""),
        "b613679a0814d9ec772f95d778c35fc5ff1697c493715653c6c712144292c5ad"
    );
}

#[test]
fn hmac_without_any_update() {
    assert_eq!(
        hex_of(&HmacSha256::new(b"").finalize()),
        "b613679a0814d9ec772f95d778c35fc5ff1697c493715653c6c712144292c5ad"
    );
}

#[test]
fn hmac_with_a_key_shorter_than_a_block() {
    assert_eq!(
        tag(&[0x0b; 20], b"Hi There"),
        "b0344c61d8db38535ca8afceaf0bf12b881dc200c9833da726e9376c2e32cff7"
    );
    assert_eq!(
        tag(b"Jefe", b"what do ya want for nothing?"),
        "5bdcc146bf60754e6a042426089575c75a003f089d2739839dec58b964ec3843"
    );
    assert_eq!(
        tag(&[0xaa; 20], &[0xdd; 50]),
        "773ea91e36800e46854db8ebd09181a72959098b3ef8c122d9635514ced565fe"
    );
}

#[test]
fn hmac_with_a_key_longer_than_a_block() {
    assert_eq!(
        tag(
            &[0xaa; 131],
            b"Test Using Larger Than Block-Size Key - Hash Key First"
        ),
        "60e431591ee0b67f0d8a26aacbf5b77f8e0bc6213728c5140546040f0ee37f54"
    );
    assert_eq!(
        tag(
            &[0xaa; 131],
            b"This is a test using a larger than block-size key and a larger than block-size data. The key needs to be hashed before being used by the HMAC algorithm."
        ),
        "9b09ffa71b942fcb27635fbcd5b0e944bfdc63644f0713938a7f51535c3a35e2"
    );
}

#[test]
fn hmac_with_keys_of_one_block_and_one_byte_more() {
    let key64: Vec<u8> = (0..64u8).collect();
    let key65: Vec<u8> = (0..65u8).collect();
    assert_eq!(
        tag(&key64, b"message"),
        "eb97f15211c02e38e3213edb045e8301601867c1cd49df01c687eb04f8909e98"
    );
    assert_eq!(
        tag(&key65, b"message"),
        "2d55f05a56fff8d5ba47a50eb1c006240377002f70e09d8862f8a5cb1c880e4a"
    );
}

#[test]
fn hmac_takes_the_message_in_order_and_in_pieces() {
    let mut mac = HmacSha256::new(b"Jefe");
    mac.update(b"what do ya ");
    mac.update(b"");
    mac.update(b"want for nothing?");
    assert_eq!(
        hex_of(&mac.finalize()),
        "5bdcc146bf60754e6a042426089575c75a003f089d2739839dec58b964ec3843"
    );
    let mut swapped = HmacSha256::new(b"Jefe");
    swapped.update(b"want for nothing?");
    swapped.update(b"what do ya ");
    assert_ne!(
        hex_of(&swapped.finalize()),
        "5bdcc146bf60754e6a042426089575c75a003f089d2739839dec58b964ec3843"
    );
}

#[test]
fn hmac_tags_of_different_messages_differ() {
    let key = b"shared secret";
    let messages: [&[u8]; 5] = [b"", b"a", b"b", b"ab", b"ba"];
    for i in 0..messages.len() {
        for j in 0..messages.len() {
            if i != j {
                assert_ne!(tag(key, messages[i]), tag(key, messages[j]));
            }
        }
    }
    assert_ne!(tag(b"key one", b"message"), tag(b"key two", b"message"));
}
