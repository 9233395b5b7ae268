//! Splits uploaded audio into fixed-length previews.
//!
//! An upload is a PCM WAVE file, or compressed audio that the caller has
//! decoded into 16-bit PCM. The PCM stream is cut into consecutive
//! ten-second windows, and every window is written out as a WAVE container
//! of its own that carries the format of the source.

use vstd::prelude::*;

pub mod auth;
pub mod error;
pub mod format;
pub mod keys;
pub mod plan;
pub mod samples;
pub mod segment;
pub mod stream;
pub mod wav;

verus! {

/// Level at which previews are compressed for transfer.
pub const COMPRESSION_LEVEL: u32 = 6;

/// The zlib stream that the `flate2` crate produces for `data` at the given
/// compression level.
pub uninterp spec fn zlib_compressed(data: Seq<u8>, level: u32) -> Seq<u8>;

/// Compresses with `flate2::write::ZlibEncoder`: `new` on an empty buffer,
/// `write_all` of the data, then `finish`. Assumed: the output depends on
/// the data and the level alone, so it can be named `zlib_compressed`;
/// writing into memory does not fail.
#[verifier::external_body]
fn deflate(data: &Vec<u8>, level: u32) -> (out: Vec<u8>)
    requires
        level <= 9,
    ensures
        out@ == zlib_compressed(data@, level),
{
    let mut encoder = flate2::write::ZlibEncoder::new(Vec::new(), flate2::Compression::new(level));
    std::io::Write::write_all(&mut encoder, data).unwrap();
    encoder.finish().unwrap()
}

/// Compresses a preview for transfer, as a zlib stream.
pub fn compress_data(data: Vec<u8>) -> (out: Vec<u8>)
    ensures
        out@ == zlib_compressed(data@, COMPRESSION_LEVEL),
{
    deflate(&data, COMPRESSION_LEVEL)
}

/// Shortest user name that is accepted, in bytes.
pub const MIN_USERNAME_LEN: usize = 3;

/// Shortest password that is accepted, in bytes.
pub const MIN_PASSWORD_LEN: usize = 8;

/// Why posted credentials are turned down before they are looked up.
#[derive(Clone, Copy, Debug, PartialEq, Eq, Structural)]
pub enum CredentialError {
    UsernameTooShort,
    PasswordTooShort,
}

impl CredentialError {
    /// The text shown to a client who signs up.
    pub open spec fn spec_message(self) -> Seq<char> {
        match self {
            CredentialError::UsernameTooShort => "Username must be at least 3 characters long!"@,
            CredentialError::PasswordTooShort => "Password must be at least 8 characters long!"@,
        }
    }

    /// The text shown to a client who signs up.
    pub fn message(&self) -> (text: &'static str)
        ensures
            text@ == self.spec_message(),
    {
        match self {
            CredentialError::UsernameTooShort => "Username must be at least 3 characters long!",
            CredentialError::PasswordTooShort => "Password must be at least 8 characters long!",
        }
    }
}

/// Credentials as a client posts them.
#[derive(Debug)]
pub struct PostedUser {
    pub username: String,
    pub password: String,
}

impl PostedUser {
    /// Length of the user name in bytes of UTF-8.
    pub open spec fn username_len(&self) -> nat {
        vstd::utf8::encode_utf8(self.username@).len()
    }

    /// Length of the password in bytes of UTF-8.
    pub open spec fn password_len(&self) -> nat {
        vstd::utf8::encode_utf8(self.password@).len()
    }

    /// Checks posted credentials before an account is created. The user name
    /// is looked at first.
    pub fn check_signup(&self) -> (r: Result<(), CredentialError>)
        ensures
            self.username_len() < MIN_USERNAME_LEN ==> r == Err::<(), CredentialError>(
                CredentialError::UsernameTooShort,
            ),
            self.username_len() >= MIN_USERNAME_LEN && self.password_len() < MIN_PASSWORD_LEN ==> r
                == Err::<(), CredentialError>(CredentialError::PasswordTooShort),
            self.username_len() >= MIN_USERNAME_LEN && self.password_len() >= MIN_PASSWORD_LEN
                ==> r is Ok,
    {
        if self.username.as_str().as_bytes().len() < MIN_USERNAME_LEN {
            Err(CredentialError::UsernameTooShort)
        } else if self.password.as_str().as_bytes().len() < MIN_PASSWORD_LEN {
            Err(CredentialError::PasswordTooShort)
        } else {
            Ok(())
        }
    }

    /// Whether the credentials are long enough to belong to an account at
    /// all; a login with shorter ones is turned down without a lookup.
    pub fn can_log_in(&self) -> (ok: bool)
        ensures
            ok <==> self.username_len() >= MIN_USERNAME_LEN && self.password_len()
                >= MIN_PASSWORD_LEN,
    {
        !(self.username.as_str().as_bytes().len() < MIN_USERNAME_LEN || self.password.as_str().as_bytes().len()
            < MIN_PASSWORD_LEN)
    }
}

} // verus!
