//! The data that moves between the library's parts: techniques, the result of
//! an encode or decode, history entries and stored RSA keys.
use vstd::prelude::*;
use vstd::string::StringExecFns;
use crate::text::{decimal_i64, decimal_int, decimal_usize, string_from_chars};

verus! {

/// Which way a technique is applied.
#[derive(Debug, Clone, Copy, PartialEq, Eq, Structural)]
pub enum OperationKind {
    Encode,
    Decode,
}

/// One step of a cipher chain.
#[derive(Debug, Clone, PartialEq, Eq)]
pub enum TechniqueDescriptor {
    Morse,
    Caesar { shift: i32 },
    Vigenere { keyword: String },
    RailFence { rails: usize },
    Reverse,
    /// Output the SHA-256 hex digest of the input.  One-way: it cannot be decoded.
    Sha256,
    /// Output the SHA-512 hex digest of the input.  One-way: it cannot be decoded.
    Sha512,
}

/// What a `TechniqueDescriptor` stands for, with the keyword as characters.
pub enum Technique {
    Morse,
    Caesar { shift: i32 },
    Vigenere { keyword: Seq<char> },
    RailFence { rails: usize },
    Reverse,
    Sha256,
    Sha512,
}

impl View for TechniqueDescriptor {
    type V = Technique;

    open spec fn view(&self) -> Technique {
        match self {
            TechniqueDescriptor::Morse => Technique::Morse,
            TechniqueDescriptor::Caesar { shift } => Technique::Caesar { shift: *shift },
            TechniqueDescriptor::Vigenere { keyword } => Technique::Vigenere { keyword: keyword@ },
            TechniqueDescriptor::RailFence { rails } => Technique::RailFence { rails: *rails },
            TechniqueDescriptor::Reverse => Technique::Reverse,
            TechniqueDescriptor::Sha256 => Technique::Sha256,
            TechniqueDescriptor::Sha512 => Technique::Sha512,
        }
    }
}

pub open spec fn techniques_view(ts: Seq<TechniqueDescriptor>) -> Seq<Technique> {
    ts.map_values(|t: TechniqueDescriptor| t@)
}

impl TechniqueDescriptor {
    /// A copy of this descriptor.
    pub fn duplicate(&self) -> (r: TechniqueDescriptor)
        ensures
            r@ == self@,
    {
        match self {
            TechniqueDescriptor::Morse => TechniqueDescriptor::Morse,
            TechniqueDescriptor::Caesar { shift } => TechniqueDescriptor::Caesar { shift: *shift },
            TechniqueDescriptor::Vigenere { keyword } => TechniqueDescriptor::Vigenere {
                keyword: keyword.clone(),
            },
            TechniqueDescriptor::RailFence { rails } => TechniqueDescriptor::RailFence {
                rails: *rails,
            },
            TechniqueDescriptor::Reverse => TechniqueDescriptor::Reverse,
            TechniqueDescriptor::Sha256 => TechniqueDescriptor::Sha256,
            TechniqueDescriptor::Sha512 => TechniqueDescriptor::Sha512,
        }
    }
}

/// A copy of a technique chain.
pub fn copy_techniques(ts: &[TechniqueDescriptor]) -> (r: Vec<TechniqueDescriptor>)
    ensures
        techniques_view(r@) == techniques_view(ts@),
{
    let mut r: Vec<TechniqueDescriptor> = Vec::new();
    let mut i: usize = 0;
    while i < ts.len()
        invariant
            i <= ts.len(),
            r@.len() == i,
            forall|j: int| 0 <= j < i ==> r@[j]@ == ts@[j]@,
        decreases ts.len() - i,
    {
        r.push(ts[i].duplicate());
        i = i + 1;
    }
    assert(techniques_view(r@) =~= techniques_view(ts@));
    r
}


/// The name a technique is shown under.
pub open spec fn title_text(t: Technique) -> Seq<char> {
    match t {
        Technique::Morse => "Morse"@,
        Technique::Caesar { shift } => "Caesar("@ + decimal_int(shift as int) + ")"@,
        Technique::Vigenere { keyword } => "Vigenere("@ + keyword + ")"@,
        Technique::RailFence { rails } => "RailFence("@ + decimal_int(rails as int) + ")"@,
        Technique::Reverse => "Reverse"@,
        Technique::Sha256 => "SHA-256"@,
        Technique::Sha512 => "SHA-512"@,
    }
}

impl TechniqueDescriptor {
    /// The technique's display name, with its parameter.
    pub fn title(&self) -> (r: String)
        ensures
            r@ == title_text(self@),
    {
        match self {
            TechniqueDescriptor::Morse => String::from_str("Morse"),
            TechniqueDescriptor::Caesar { shift } => {
                let digits = string_from_chars(decimal_i64(*shift as i64).as_slice());
                String::from_str("Caesar(").concat(digits.as_str()).concat(")")
            },
            TechniqueDescriptor::Vigenere { keyword } => String::from_str("Vigenere(").concat(
                keyword.as_str(),
            ).concat(")"),
            TechniqueDescriptor::RailFence { rails } => {
                let digits = string_from_chars(decimal_usize(*rails).as_slice());
                String::from_str("RailFence(").concat(digits.as_str()).concat(")")
            },
            TechniqueDescriptor::Reverse => String::from_str("Reverse"),
            TechniqueDescriptor::Sha256 => String::from_str("SHA-256"),
            TechniqueDescriptor::Sha512 => String::from_str("SHA-512"),
        }
    }
}


/// The two parts that unlock a secure envelope: a passphrase the sender
/// chooses and a generated companion code, shared separately.
#[derive(Debug, Clone, PartialEq, Eq)]
pub struct SecureKeyPair {
    pub passphrase: String,
    pub companion_code: String,
}


/// The outcome of an encode or decode.
#[derive(Debug, Clone, PartialEq, Eq)]
pub struct EncodedMessage {
    pub original_input: String,
    pub transformed_text: String,
    pub secure_payload: Option<String>,
    pub techniques: Vec<TechniqueDescriptor>,
    pub used_secure_envelope: bool,
    pub key_pair: Option<SecureKeyPair>,
}

/// One line of the encrypted history.  The time is seconds and nanoseconds
/// since the Unix epoch.
#[derive(Debug, Clone, PartialEq, Eq)]
pub struct HistoryEntry {
    pub id: String,
    pub timestamp_secs: i64,
    pub timestamp_nanos: u32,
    pub operation: OperationKind,
    pub input_preview: String,
    pub output_preview: String,
    pub techniques: Vec<TechniqueDescriptor>,
    pub used_secure_envelope: bool,
}

/// A named RSA key pair stored in the encrypted key database.
#[derive(Debug, Clone, PartialEq, Eq)]
pub struct KeyEntry {
    /// Human-readable label such as "primary" or "work".
    pub label: String,
    /// `sha256:` and the SHA-256 fingerprint of the public key DER, in hex.
    pub fingerprint: String,
    /// Private key as PKCS#8 DER bytes encoded in base64.
    pub private_key_b64: String,
    /// Public key as PKCS#1 DER bytes encoded in base64.
    pub public_key_b64: String,
    pub created_secs: i64,
    pub created_nanos: u32,
}

/// What a `KeyEntry` holds, with its texts as characters.
pub struct KeyRecord {
    pub label: Seq<char>,
    pub fingerprint: Seq<char>,
    pub private_key_b64: Seq<char>,
    pub public_key_b64: Seq<char>,
    pub created_secs: i64,
    pub created_nanos: u32,
}

impl View for KeyEntry {
    type V = KeyRecord;

    open spec fn view(&self) -> KeyRecord {
        KeyRecord {
            label: self.label@,
            fingerprint: self.fingerprint@,
            private_key_b64: self.private_key_b64@,
            public_key_b64: self.public_key_b64@,
            created_secs: self.created_secs,
            created_nanos: self.created_nanos,
        }
    }
}

impl KeyEntry {
    /// A copy of this entry.
    pub fn duplicate(&self) -> (r: KeyEntry)
        ensures
            r@ == self@,
    {
        KeyEntry {
            label: self.label.clone(),
            fingerprint: self.fingerprint.clone(),
            private_key_b64: self.private_key_b64.clone(),
            public_key_b64: self.public_key_b64.clone(),
            created_secs: self.created_secs,
            created_nanos: self.created_nanos,
        }
    }
}

} // verus!
