use docstore::hash::{hash_in_md5, hash_str_in_md5, to_hex, Md5Stream, BLOCK_SIZE};

#[test]
fn hash_of_hello_is_the_known_digest() {
    assert_eq!(hash_in_md5(b"hello"), "5d41402abc4b2a76b9719d911017c592");
}

#[test]
fn hash_of_nothing_is_the_known_digest() {
    assert_eq!(hash_in_md5(b""), "d41d8cd98f00b204e9800998ecf8427e");
}

#[test]
fn hash_of_the_alphabet_is_the_known_digest() {
    assert_eq!(
        hash_in_md5(b"abcdefghijklmnopqrstuvwxyz"),
        "c3fcd3d76192e4007dfb496cca67e13b"
    );
}

#[test]
fn hash_agrees_with_the_digest_crate_rendering() {
    let data = b"The quick brown fox jumps over the lazy dog";
    assert_eq!(hash_in_md5(data), format!("{:x}", md5::compute(data)));
}

#[test]
fn hash_of_a_text_is_the_hash_of_its_bytes() {
    let text = String::from("h\u{e9}llo");
    assert_eq!(hash_str_in_md5(text.clone()), hash_in_md5(text.as_bytes()));
    assert_eq!(hash_str_in_md5(String::from("hello")), "5d41402abc4b2a76b9719d911017c592");
}

#[test]
fn hex_has_two_lower_case_digits_per_byte() {
    assert_eq!(to_hex(&[0x00, 0x0f, 0xa0, 0xff, 0x5d]), "000fa0ff5d");
    assert_eq!(to_hex(&[]), "");
}

#[test]
fn stream_in_blocks_gives_the_hash_of_the_whole() {
    let mut stream = Md5Stream::new();
    stream.consume(b"hel");
    stream.consume(b"");
    stream.consume(b"lo");
    assert_eq!(stream.finish(), hash_in_md5(b"hello"));
}

#[test]
fn stream_fed_nothing_gives_the_hash_of_nothing() {
    assert_eq!(Md5Stream::new().finish(), "d41d8cd98f00b204e9800998ecf8427e");
}

#[test]
fn stream_over_many_blocks_gives_the_hash_of_the_whole() {
    let data: Vec<u8> = (0..100_000u32).map(|i| (i % 251) as u8).collect();
    let mut stream = Md5Stream::new();
    for block in data.chunks(4096) {
        stream.consume(block);
    }
    assert_eq!(stream.finish(), hash_in_md5(&data));
}

#[test]
fn a_hash_has_32_lower_case_hex_digits() {
    let inputs: [&[u8]; 4] = [b"", b"a", b"hello", &[0xffu8; 1000]];
    for data in inputs {
        let hash = hash_in_md5(data);
        assert_eq!(hash.len(), 32);
        assert!(hash.chars().all(|c| matches!(c, '0'..='9' | 'a'..='f')));
        let mut stream = Md5Stream::new();
        stream.consume(data);
        assert_eq!(stream.finish().len(), 32);
    }
    assert_eq!(hash_str_in_md5(String::from("\u{e9}")).len(), 32);
}

#[test]
fn block_size_is_four_mebibytes() {
    assert_eq!(BLOCK_SIZE, 4 * 1024 * 1024);
}
