use vstd::prelude::*;

verus! {

/// The decoding error of the `base64` crate, carried through unopened.
#[verifier::external_type_specification]
#[verifier::external_body]
pub struct ExDecodeError(base64::DecodeError);

/// The error of `String::from_utf8`, carried through unopened.
#[verifier::external_type_specification]
#[verifier::external_body]
pub struct ExFromUtf8Error(std::string::FromUtf8Error);

/// The error of std's file operations, carried through unopened.
#[verifier::external_type_specification]
#[verifier::external_body]
pub struct ExIoError(std::io::Error);

/// Why an operation of this library failed.
#[derive(Debug)]
pub enum CryptoError {
    /// The cipher refused to seal, or the authentication tag did not verify.
    AeadError,
    /// The salt file or a machine identity file could not be read or written.
    IoError(std::io::Error),
    /// The platform's output holds no machine identifier.
    MachineIdError,
    /// The application data directory could not be resolved.
    AppDataDirError,
    /// The text is not padded standard base64.
    Base64DecodeError(base64::DecodeError),
    /// The envelope is too short to hold a nonce and a sealed body.
    FormatError,
    /// The opened bytes are not UTF-8.
    Utf8Error(std::string::FromUtf8Error),
    /// The derived key has the wrong length.
    KeyDerivationError,
    /// The identity command could not be run or reported failure.
    ShellCommandError(String),
}

} // verus!
