//! The key file of the node.

use full_node::node_key::{
    generated_key_file, key_file_content, key_from_bytes, key_source, load_or_generate, parse_key_file,
    InvalidKeyFile, KeySource, KEY_FILE_MODE, KEY_FILE_NAME,
};

fn key() -> [u8; 32] {
    let mut key = [0u8; 32];
    for (index, byte) in key.iter_mut().enumerate() {
        *byte = 0xf0u8.wrapping_add((index as u8).wrapping_mul(9));
    }
    key
}

#[test]
fn content_is_lower_case_hexadecimal() {
    let mut key = [0u8; 32];
    key[0] = 0xab;
    key[31] = 0x0f;
    let content = key_file_content(&key);
    assert_eq!(content.len(), 64);
    assert!(content.starts_with("ab00"));
    assert!(content.ends_with("000f"));
}

#[test]
fn key_file_is_read_back() {
    let content = key_file_content(&key());
    assert_eq!(parse_key_file(&content), Ok(key()));
    assert_eq!(parse_key_file(&content.to_uppercase()), Ok(key()));
}

#[test]
fn bad_key_files_are_refused() {
    let content = key_file_content(&key());
    assert_eq!(parse_key_file(""), Err(InvalidKeyFile));
    assert_eq!(parse_key_file(&content[..62]), Err(InvalidKeyFile));
    assert_eq!(parse_key_file(&content[..63]), Err(InvalidKeyFile));
    assert_eq!(parse_key_file(&format!("{content}00")), Err(InvalidKeyFile));
    assert_eq!(parse_key_file(&format!("{content}\n")), Err(InvalidKeyFile));
    assert_eq!(
        parse_key_file(&format!("g{}", &content[1..])),
        Err(InvalidKeyFile)
    );
    assert_eq!(
        parse_key_file(&format!("é{}", &content[2..])),
        Err(InvalidKeyFile)
    );
}

#[test]
fn keys_have_thirty_two_bytes() {
    assert_eq!(key_from_bytes(&key()), Some(key()));
    assert_eq!(key_from_bytes(&[0; 31]), None);
    assert_eq!(key_from_bytes(&[0; 33]), None);
    assert_eq!(key_from_bytes(&[]), None);
}

#[test]
fn existing_key_file_is_not_written_again() {
    let content = key_file_content(&key());
    let file = load_or_generate(Some(&content)).unwrap();
    assert_eq!(file.key, key());
    assert_eq!(file.to_write, None);
    assert!(load_or_generate(Some("00")).is_err());
}

#[test]
fn generated_keys_are_written_and_differ() {
    let first = load_or_generate(None).unwrap();
    let second = load_or_generate(None).unwrap();
    assert_ne!(first.key, second.key);
    assert_eq!(parse_key_file(&first.to_write.unwrap()), Ok(first.key));
    assert_eq!(second.to_write, Some(key_file_content(&second.key)));
}

#[test]
fn the_key_that_the_user_gave_comes_first() {
    assert!(matches!(
        key_source(Some([5; 32]), true),
        KeySource::Given(key) if key == [5; 32]
    ));
    assert!(matches!(
        key_source(Some([5; 32]), false),
        KeySource::Given(key) if key == [5; 32]
    ));
    assert!(matches!(key_source(None, true), KeySource::File));
    assert!(matches!(key_source(None, false), KeySource::Ephemeral));
}

#[test]
fn key_file_is_private() {
    assert_eq!(KEY_FILE_NAME, "libp2p_ed25519_secret_key.secret");
    assert_eq!(KEY_FILE_MODE, 256);
}

#[test]
fn generated_key_file_goes_with_its_key() {
    let file = generated_key_file(key());
    assert_eq!(file.key, key());
    assert_eq!(file.to_write, Some(key_file_content(&key())));
    assert_eq!(
        generated_key_file([0xa0; 32]).to_write,
        Some("a0".repeat(32))
    );
}
