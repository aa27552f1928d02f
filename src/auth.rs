//! Who is logged in.
use vstd::prelude::*;
use vstd::string::StringSliceAdditionalSpecFns;

use crate::model::PermissionLevel;

verus! {

/// The value of a hexadecimal digit, either case.
pub open spec fn hex_digit_value(c: u8) -> Option<u8> {
    if 0x30 <= c <= 0x39 {
        Some((c - 0x30) as u8)
    } else if 0x61 <= c <= 0x66 {
        Some((c - 0x61 + 10) as u8)
    } else if 0x41 <= c <= 0x46 {
        Some((c - 0x41 + 10) as u8)
    } else {
        None
    }
}

/// Whether `text` is the hexadecimal form of exactly `n` bytes.
pub open spec fn is_hex_of_len(text: Seq<u8>, n: nat) -> bool {
    text.len() == 2 * n && forall|i: int| 0 <= i < text.len() ==> #[trigger] hex_digit_value(text[i]) is Some
}

/// The bytes whose hexadecimal form is `text`, two digits each, high first.
pub open spec fn hex_bytes(text: Seq<u8>) -> Seq<u8> {
    Seq::new(
        text.len() / 2,
        |i: int|
            ((hex_digit_value(text[2 * i])->0 as nat) * 16 + (hex_digit_value(
                text[2 * i + 1],
            )->0 as nat)) as u8,
    )
}

/// A lowercase hexadecimal digit.
pub open spec fn hex_lower(d: u8) -> u8 {
    if d < 10 {
        (0x30 + d) as u8
    } else {
        (0x61 + d - 10) as u8
    }
}

/// The lowercase hexadecimal form of `bytes`, two digits each, high first.
pub open spec fn hex_text(bytes: Seq<u8>) -> Seq<char> {
    Seq::new(
        2 * bytes.len(),
        |i: int|
            (if i % 2 == 0 {
                hex_lower(bytes[i / 2] / 16)
            } else {
                hex_lower(bytes[i / 2] % 16)
            }) as char,
    )
}

#[verifier::external_type_specification]
#[verifier::external_body]
pub struct ExFromHexError(hex::FromHexError);

/// Relies on `rand::rngs::OsRng` through `RngCore::try_fill_bytes`: 32
/// bytes from the operating system's generator, or `None` when it cannot
/// give them. Nothing is known of the bytes.
#[verifier::external_body]
fn os_random_32() -> Option<[u8; 32]> {
    let mut buf = [0u8; 32];
    rand::RngCore::try_fill_bytes(&mut rand::rngs::OsRng, &mut buf).ok().map(|()| buf)
}

/// Relies on `hex::decode_to_slice` into 32 bytes: it succeeds exactly when
/// `raw` is 64 hexadecimal digits of either case, and then gives their
/// bytes.
#[verifier::external_body]
fn hex_decode_32(raw: &str) -> (r: Result<[u8; 32], hex::FromHexError>)
    ensures
        r is Ok <==> is_hex_of_len(raw.spec_bytes(), 32),
        r matches Ok(b) ==> b@ == hex_bytes(raw.spec_bytes()),
{
    let mut buf = [0u8; 32];
    hex::decode_to_slice(raw, &mut buf).map(|()| buf)
}

/// Relies on `hex::encode`: two lowercase digits for each byte.
#[verifier::external_body]
fn hex_encode(bytes: &[u8]) -> (r: String)
    ensures
        r@ == hex_text(bytes@),
{
    hex::encode(bytes)
}

/// A session token: 32 random bytes, sent to the browser in hexadecimal.
#[derive(Clone, Copy)]
pub struct Token(pub [u8; 32]);

impl Token {
    /// A fresh random token; `None` when the operating system gives no
    /// random bytes.
    pub fn generate() -> Option<Token> {
        match os_random_32() {
            Some(bytes) => Some(Token(bytes)),
            None => None,
        }
    }

    /// The token written as `raw` in hexadecimal.
    pub fn from_str(raw: &str) -> (r: Result<Token, hex::FromHexError>)
        ensures
            r is Ok <==> is_hex_of_len(raw.spec_bytes(), 32),
            r matches Ok(t) ==> t.0@ == hex_bytes(raw.spec_bytes()),
    {
        match hex_decode_32(raw) {
            Ok(bytes) => Ok(Token(bytes)),
            Err(e) => Err(e),
        }
    }

    /// The hexadecimal form sent to the browser.
    pub fn encode(&self) -> (r: String)
        ensures
            r@ == hex_text(self.0@),
    {
        hex_encode(self.0.as_slice())
    }
}

/// The user who is logged in.
#[derive(Debug, Clone)]
pub struct User {
    pub id: i64,
    pub display_name: String,
    pub permission_level: PermissionLevel,
}

} // verus!
