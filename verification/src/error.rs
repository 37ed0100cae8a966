//! The errors the library reports, each with the message a user sees.
use vstd::prelude::*;
use vstd::string::StringExecFns;
use crate::text::string_from_chars;

verus! {

#[derive(Debug, Clone, PartialEq, Eq)]
pub enum SighFarError {
    // cipher chain
    Sha256NotReversible,
    Sha512NotReversible,
    UnsupportedMorseCharacter(char),
    UnsupportedMorseToken(String),
    VigenereKeywordWithoutLetters,
    RailFenceTooFewRails,
    // chain syntax
    NoTechniques,
    CaesarFormat,
    VigenereFormat,
    RailFenceFormat,
    UnknownTechnique(String),
    // encode / decode workflow
    PassphraseRequiredForEnvelope,
    PassphraseRequired,
    CompanionCodeRequired,
    // secure envelope
    PayloadNotBase64,
    PayloadMalformed,
    KeyDerivationFailed,
    EncryptionFailed,
    DecryptionFailed,
    PayloadNotUtf8,
    // carrier container
    ContainerTooSmall,
    TrailerNotFound,
    MetadataMalformed,
    PayloadLengthMalformed,
    // encrypted stores
    HistoryMalformed,
    HistoryDecryptionFailed,
    HistoryEncryptionFailed,
    HistoryKeyLength,
    KeyStoreKeyLength,
    KeyStoreDecryptionFailed,
    KeyStoreEncryptionFailed,
    // RSA keys
    RsaKeyNotFound(String),
    PublicKeyNotBase64,
    PrivateKeyNotBase64,
    PublicKeyUnparsable,
    PrivateKeyUnparsable,
    RsaEncryptionFailed,
    RsaDecryptionFailed,
    RsaKeyGenerationFailed,
    // GitHub device flow
    DeviceCodeExpired,
    NoAccessToken,
    RemoteHistoryNotBase64,
}

/// `SighFarError` with its text payloads as characters.
pub enum ErrorModel {
    Sha256NotReversible,
    Sha512NotReversible,
    UnsupportedMorseCharacter(char),
    UnsupportedMorseToken(Seq<char>),
    VigenereKeywordWithoutLetters,
    RailFenceTooFewRails,
    NoTechniques,
    CaesarFormat,
    VigenereFormat,
    RailFenceFormat,
    UnknownTechnique(Seq<char>),
    PassphraseRequiredForEnvelope,
    PassphraseRequired,
    CompanionCodeRequired,
    PayloadNotBase64,
    PayloadMalformed,
    KeyDerivationFailed,
    EncryptionFailed,
    DecryptionFailed,
    PayloadNotUtf8,
    ContainerTooSmall,
    TrailerNotFound,
    MetadataMalformed,
    PayloadLengthMalformed,
    HistoryMalformed,
    HistoryDecryptionFailed,
    HistoryEncryptionFailed,
    HistoryKeyLength,
    KeyStoreKeyLength,
    KeyStoreDecryptionFailed,
    KeyStoreEncryptionFailed,
    RsaKeyNotFound(Seq<char>),
    PublicKeyNotBase64,
    PrivateKeyNotBase64,
    PublicKeyUnparsable,
    PrivateKeyUnparsable,
    RsaEncryptionFailed,
    RsaDecryptionFailed,
    RsaKeyGenerationFailed,
    DeviceCodeExpired,
    NoAccessToken,
    RemoteHistoryNotBase64,
}

impl View for SighFarError {
    type V = ErrorModel;

    open spec fn view(&self) -> ErrorModel {
        match self {
            SighFarError::Sha256NotReversible => ErrorModel::Sha256NotReversible,
            SighFarError::Sha512NotReversible => ErrorModel::Sha512NotReversible,
            SighFarError::UnsupportedMorseCharacter(c) => ErrorModel::UnsupportedMorseCharacter(*c),
            SighFarError::UnsupportedMorseToken(t) => ErrorModel::UnsupportedMorseToken(t@),
            SighFarError::VigenereKeywordWithoutLetters => ErrorModel::VigenereKeywordWithoutLetters,
            SighFarError::RailFenceTooFewRails => ErrorModel::RailFenceTooFewRails,
            SighFarError::NoTechniques => ErrorModel::NoTechniques,
            SighFarError::CaesarFormat => ErrorModel::CaesarFormat,
            SighFarError::VigenereFormat => ErrorModel::VigenereFormat,
            SighFarError::RailFenceFormat => ErrorModel::RailFenceFormat,
            SighFarError::UnknownTechnique(t) => ErrorModel::UnknownTechnique(t@),
            SighFarError::PassphraseRequiredForEnvelope => ErrorModel::PassphraseRequiredForEnvelope,
            SighFarError::PassphraseRequired => ErrorModel::PassphraseRequired,
            SighFarError::CompanionCodeRequired => ErrorModel::CompanionCodeRequired,
            SighFarError::PayloadNotBase64 => ErrorModel::PayloadNotBase64,
            SighFarError::PayloadMalformed => ErrorModel::PayloadMalformed,
            SighFarError::KeyDerivationFailed => ErrorModel::KeyDerivationFailed,
            SighFarError::EncryptionFailed => ErrorModel::EncryptionFailed,
            SighFarError::DecryptionFailed => ErrorModel::DecryptionFailed,
            SighFarError::PayloadNotUtf8 => ErrorModel::PayloadNotUtf8,
            SighFarError::ContainerTooSmall => ErrorModel::ContainerTooSmall,
            SighFarError::TrailerNotFound => ErrorModel::TrailerNotFound,
            SighFarError::MetadataMalformed => ErrorModel::MetadataMalformed,
            SighFarError::PayloadLengthMalformed => ErrorModel::PayloadLengthMalformed,
            SighFarError::HistoryMalformed => ErrorModel::HistoryMalformed,
            SighFarError::HistoryDecryptionFailed => ErrorModel::HistoryDecryptionFailed,
            SighFarError::HistoryEncryptionFailed => ErrorModel::HistoryEncryptionFailed,
            SighFarError::HistoryKeyLength => ErrorModel::HistoryKeyLength,
            SighFarError::KeyStoreKeyLength => ErrorModel::KeyStoreKeyLength,
            SighFarError::KeyStoreDecryptionFailed => ErrorModel::KeyStoreDecryptionFailed,
            SighFarError::KeyStoreEncryptionFailed => ErrorModel::KeyStoreEncryptionFailed,
            SighFarError::RsaKeyNotFound(l) => ErrorModel::RsaKeyNotFound(l@),
            SighFarError::PublicKeyNotBase64 => ErrorModel::PublicKeyNotBase64,
            SighFarError::PrivateKeyNotBase64 => ErrorModel::PrivateKeyNotBase64,
            SighFarError::PublicKeyUnparsable => ErrorModel::PublicKeyUnparsable,
            SighFarError::PrivateKeyUnparsable => ErrorModel::PrivateKeyUnparsable,
            SighFarError::RsaEncryptionFailed => ErrorModel::RsaEncryptionFailed,
            SighFarError::RsaDecryptionFailed => ErrorModel::RsaDecryptionFailed,
            SighFarError::RsaKeyGenerationFailed => ErrorModel::RsaKeyGenerationFailed,
            SighFarError::DeviceCodeExpired => ErrorModel::DeviceCodeExpired,
            SighFarError::NoAccessToken => ErrorModel::NoAccessToken,
            SighFarError::RemoteHistoryNotBase64 => ErrorModel::RemoteHistoryNotBase64,
        }
    }
}

/// The user-facing text of each error.
pub open spec fn message_text(e: ErrorModel) -> Seq<char> {
    match e {
        ErrorModel::Sha256NotReversible => "SHA-256 is a one-way hash function and cannot be decoded."@,
        ErrorModel::Sha512NotReversible => "SHA-512 is a one-way hash function and cannot be decoded."@,
        ErrorModel::UnsupportedMorseCharacter(c) => "Unsupported Morse character: "@ + seq![c],
        ErrorModel::UnsupportedMorseToken(t) => "Unsupported Morse token: "@ + t,
        ErrorModel::VigenereKeywordWithoutLetters => "Vigenere keyword must include letters."@,
        ErrorModel::RailFenceTooFewRails => "RailFence requires at least 2 rails."@,
        ErrorModel::NoTechniques => "You need at least one technique."@,
        ErrorModel::CaesarFormat => "Caesar format is caesar:3"@,
        ErrorModel::VigenereFormat => "Vigenere format is vigenere:keyword"@,
        ErrorModel::RailFenceFormat => "RailFence format is railfence:3"@,
        ErrorModel::UnknownTechnique(t) => "Unknown technique: "@ + t,
        ErrorModel::PassphraseRequiredForEnvelope => "Primary passphrase is required for secure envelope mode."@,
        ErrorModel::PassphraseRequired => "Primary passphrase is required."@,
        ErrorModel::CompanionCodeRequired => "Companion code is required."@,
        ErrorModel::PayloadNotBase64 => "secure payload is not valid base64"@,
        ErrorModel::PayloadMalformed => "secure payload is malformed"@,
        ErrorModel::KeyDerivationFailed => "failed to derive secure key: password is too long"@,
        ErrorModel::EncryptionFailed => "failed to encrypt payload"@,
        ErrorModel::DecryptionFailed => "failed to decrypt payload with the provided keys"@,
        ErrorModel::PayloadNotUtf8 => "decrypted payload is not valid UTF-8"@,
        ErrorModel::ContainerTooSmall => "container file is too small to contain a hidden payload"@,
        ErrorModel::TrailerNotFound => "no SighFar carrier trailer found in this file"@,
        ErrorModel::MetadataMalformed => "carrier metadata is malformed"@,
        ErrorModel::PayloadLengthMalformed => "carrier payload length is malformed"@,
        ErrorModel::HistoryMalformed => "history payload is malformed"@,
        ErrorModel::HistoryDecryptionFailed => "failed to decrypt history file"@,
        ErrorModel::HistoryEncryptionFailed => "failed to encrypt history"@,
        ErrorModel::HistoryKeyLength => "history key has unexpected length"@,
        ErrorModel::KeyStoreKeyLength => "key store key has unexpected length"@,
        ErrorModel::KeyStoreDecryptionFailed => "failed to decrypt key store"@,
        ErrorModel::KeyStoreEncryptionFailed => "failed to encrypt key store"@,
        ErrorModel::RsaKeyNotFound(l) => "RSA key '"@ + l + "' not found"@,
        ErrorModel::PublicKeyNotBase64 => "failed to decode public key base64"@,
        ErrorModel::PrivateKeyNotBase64 => "failed to decode private key base64"@,
        ErrorModel::PublicKeyUnparsable => "failed to parse RSA public key"@,
        ErrorModel::PrivateKeyUnparsable => "failed to parse RSA private key"@,
        ErrorModel::RsaEncryptionFailed => "RSA encryption failed"@,
        ErrorModel::RsaDecryptionFailed => "RSA decryption failed"@,
        ErrorModel::RsaKeyGenerationFailed => "failed to generate RSA key"@,
        ErrorModel::DeviceCodeExpired => "device code expired, start sign-in again"@,
        ErrorModel::NoAccessToken => "GitHub did not return an access token"@,
        ErrorModel::RemoteHistoryNotBase64 => "failed to decode GitHub history blob"@,
    }
}

impl SighFarError {
    /// The message shown to the user for this error.
    pub fn message(&self) -> (m: String)
        ensures
            m@ == message_text(self@),
    {
        match self {
            SighFarError::Sha256NotReversible => String::from_str(
                "SHA-256 is a one-way hash function and cannot be decoded.",
            ),
            SighFarError::Sha512NotReversible => String::from_str(
                "SHA-512 is a one-way hash function and cannot be decoded.",
            ),
            SighFarError::UnsupportedMorseCharacter(c) => {
                let one = vec![*c];
                let tail = string_from_chars(one.as_slice());
                String::from_str("Unsupported Morse character: ").concat(tail.as_str())
            },
            SighFarError::UnsupportedMorseToken(t) => String::from_str(
                "Unsupported Morse token: ",
            ).concat(t.as_str()),
            SighFarError::VigenereKeywordWithoutLetters => String::from_str(
                "Vigenere keyword must include letters.",
            ),
            SighFarError::RailFenceTooFewRails => String::from_str(
                "RailFence requires at least 2 rails.",
            ),
            SighFarError::NoTechniques => String::from_str("You need at least one technique."),
            SighFarError::CaesarFormat => String::from_str("Caesar format is caesar:3"),
            SighFarError::VigenereFormat => String::from_str("Vigenere format is vigenere:keyword"),
            SighFarError::RailFenceFormat => String::from_str("RailFence format is railfence:3"),
            SighFarError::UnknownTechnique(t) => String::from_str("Unknown technique: ").concat(
                t.as_str(),
            ),
            SighFarError::PassphraseRequiredForEnvelope => String::from_str(
                "Primary passphrase is required for secure envelope mode.",
            ),
            SighFarError::PassphraseRequired => String::from_str("Primary passphrase is required."),
            SighFarError::CompanionCodeRequired => String::from_str("Companion code is required."),
            SighFarError::PayloadNotBase64 => String::from_str("secure payload is not valid base64"),
            SighFarError::PayloadMalformed => String::from_str("secure payload is malformed"),
            SighFarError::KeyDerivationFailed => String::from_str(
                "failed to derive secure key: password is too long",
            ),
            SighFarError::EncryptionFailed => String::from_str("failed to encrypt payload"),
            SighFarError::DecryptionFailed => String::from_str(
                "failed to decrypt payload with the provided keys",
            ),
            SighFarError::PayloadNotUtf8 => String::from_str("decrypted payload is not valid UTF-8"),
            SighFarError::ContainerTooSmall => String::from_str(
                "container file is too small to contain a hidden payload",
            ),
            SighFarError::TrailerNotFound => String::from_str(
                "no SighFar carrier trailer found in this file",
            ),
            SighFarError::MetadataMalformed => String::from_str("carrier metadata is malformed"),
            SighFarError::PayloadLengthMalformed => String::from_str(
                "carrier payload length is malformed",
            ),
            SighFarError::HistoryMalformed => String::from_str("history payload is malformed"),
            SighFarError::HistoryDecryptionFailed => String::from_str(
                "failed to decrypt history file",
            ),
            SighFarError::HistoryEncryptionFailed => String::from_str("failed to encrypt history"),
            SighFarError::HistoryKeyLength => String::from_str("history key has unexpected length"),
            SighFarError::KeyStoreKeyLength => String::from_str(
                "key store key has unexpected length",
            ),
            SighFarError::KeyStoreDecryptionFailed => String::from_str(
                "failed to decrypt key store",
            ),
            SighFarError::KeyStoreEncryptionFailed => String::from_str(
                "failed to encrypt key store",
            ),
            SighFarError::RsaKeyNotFound(l) => String::from_str("RSA key '").concat(
                l.as_str(),
            ).concat("' not found"),
            SighFarError::PublicKeyNotBase64 => String::from_str(
                "failed to decode public key base64",
            ),
            SighFarError::PrivateKeyNotBase64 => String::from_str(
                "failed to decode private key base64",
            ),
            SighFarError::PublicKeyUnparsable => String::from_str("failed to parse RSA public key"),
            SighFarError::PrivateKeyUnparsable => String::from_str(
                "failed to parse RSA private key",
            ),
            SighFarError::RsaEncryptionFailed => String::from_str("RSA encryption failed"),
            SighFarError::RsaDecryptionFailed => String::from_str("RSA decryption failed"),
            SighFarError::RsaKeyGenerationFailed => String::from_str("failed to generate RSA key"),
            SighFarError::DeviceCodeExpired => String::from_str(
                "device code expired, start sign-in again",
            ),
            SighFarError::NoAccessToken => String::from_str("GitHub did not return an access token"),
            SighFarError::RemoteHistoryNotBase64 => String::from_str("failed to decode GitHub history blob"),
        }
    }
}

} // verus!
