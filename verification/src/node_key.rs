//! The secret key that identifies the node on the network.

use crate::hexadecimal;
use vstd::prelude::*;

verus! {

/// Name of the file that holds the secret key, in the directory where the node stores everything.
pub const KEY_FILE_NAME: &'static str = "libp2p_ed25519_secret_key.secret";

/// Permissions of the key file on Unix: its owner may read it, and that is all.
pub const KEY_FILE_MODE: u32 = 0o400;

/// Calls `rand::random`. Nothing is claimed of the bytes that come back.
#[verifier::external_body]
pub(crate) fn random_bytes() -> (r: [u8; 32]) {
    rand::random()
}

/// The content of a key file is not a secret key.
#[derive(Clone, Copy, Debug, PartialEq, Eq, Structural)]
pub struct InvalidKeyFile;

/// Whether `content` is that of a key file: sixty-four hexadecimal digits.
pub open spec fn is_key_file(content: Seq<char>) -> bool {
    hexadecimal::is_hex(content) && content.len() == 64
}

/// Turns a list of bytes into a secret key, if it has the length of one.
pub fn key_from_bytes(bytes: &[u8]) -> (r: Option<[u8; 32]>)
    ensures
        r is Some <==> bytes@.len() == 32,
        r matches Some(key) ==> key@ == bytes@,
{
    if bytes.len() != 32 {
        return None;
    }
    let mut key: [u8; 32] = [0u8; 32];
    let mut i: usize = 0;
    while i < 32
        invariant
            bytes@.len() == 32,
            i <= 32,
            forall|j: int| 0 <= j < i ==> key@[j] == bytes@[j],
        decreases 32 - i,
    {
        key[i] = bytes[i];
        i += 1;
    }
    assert(key@ =~= bytes@);
    Some(key)
}

/// Reads a secret key from the content of a key file.
pub fn parse_key_file(content: &str) -> (r: Result<[u8; 32], InvalidKeyFile>)
    ensures
        r is Ok <==> is_key_file(content@),
        r matches Ok(key) ==> key@ == hexadecimal::hex_bytes(content@),
{
    match hexadecimal::read_hex(content) {
        Some(bytes) => match key_from_bytes(bytes.as_slice()) {
            Some(key) => Ok(key),
            None => Err(InvalidKeyFile),
        },
        None => Err(InvalidKeyFile),
    }
}

/// The content of the key file for a secret key.
pub fn key_file_content(key: &[u8; 32]) -> (r: String)
    ensures
        r@ == hexadecimal::hex_text(key@),
{
    hexadecimal::write_hex(key.as_slice())
}

/// A secret key, and what its file is to hold if it has to be written.
pub struct KeyFile {
    /// The secret key.
    pub key: [u8; 32],
    /// Content to write to the key file. `None` if the file is already there.
    pub to_write: Option<String>,
}

/// The key file of a secret key that was generated: the key, and the content of the file to write.
pub fn generated_key_file(key: [u8; 32]) -> (r: KeyFile)
    ensures
        r.key == key,
        r.to_write matches Some(content) && content@ == hexadecimal::hex_text(key@),
{
    let content = key_file_content(&key);
    KeyFile { key, to_write: Some(content) }
}

/// Loads the secret key from the key file if there is one. Otherwise generates a random one and
/// the content of the file to write. Nothing is said of which key that is, only that the content
/// goes with it.
pub fn load_or_generate(existing: Option<&str>) -> (r: Result<KeyFile, InvalidKeyFile>)
    ensures
        match existing {
            Some(content) => {
                &&& r is Ok <==> is_key_file(content@)
                &&& r matches Ok(file) ==> file.key@ == hexadecimal::hex_bytes(content@)
                    && file.to_write is None
            },
            None => r matches Ok(file) && file.to_write matches Some(content) && content@
                == hexadecimal::hex_text(file.key@),
        },
{
    match existing {
        Some(content) => match parse_key_file(content) {
            Ok(key) => Ok(KeyFile { key, to_write: None }),
            Err(err) => Err(err),
        },
        None => Ok(generated_key_file(random_bytes())),
    }
}

/// Where the secret key of the node comes from.
#[derive(Clone, Copy, Debug)]
pub enum KeySource {
    /// It was given by the user.
    Given([u8; 32]),
    /// It is in the key file, or is to be put there.
    File,
    /// A new one is used every time the node runs.
    Ephemeral,
}

/// Determines where the secret key comes from: the key that the user gave has precedence. Without
/// one, and with a directory where the node stores everything, it is in the key file.
pub fn key_source(given: Option<[u8; 32]>, has_directory: bool) -> (r: KeySource)
    ensures
        r == match given {
            Some(key) => KeySource::Given(key),
            None => if has_directory {
                KeySource::File
            } else {
                KeySource::Ephemeral
            },
        },
{
    match given {
        Some(key) => KeySource::Given(key),
        None => if has_directory {
            KeySource::File
        } else {
            KeySource::Ephemeral
        },
    }
}

/// A key file that was written for a key is valid, and reading it gives the key back.
pub proof fn key_file_round_trip(key: Seq<u8>)
    requires
        key.len() == 32,
    ensures
        is_key_file(hexadecimal::hex_text(key)),
        hexadecimal::hex_bytes(hexadecimal::hex_text(key)) == key,
{
    hexadecimal::hex_round_trip(key);
}

/// A key file holds sixty-four hexadecimal digits in either case, and nothing else.
pub proof fn key_file_is_made_of_digits(content: Seq<char>)
    ensures
        is_key_file(content) <==> content.len() == 64 && forall|i: int|
            0 <= i < content.len() ==> {
                ||| '0' <= #[trigger] content[i] <= '9'
                ||| 'a' <= content[i] <= 'f'
                ||| 'A' <= content[i] <= 'F'
            },
        is_key_file(content) ==> hexadecimal::hex_bytes(content).len() == 32,
{
}

} // verus!
