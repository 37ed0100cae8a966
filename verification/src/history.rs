//! The encrypted history: where its files live, how its file is read and
//! written, and how a new entry joins it (newest first).
use vstd::prelude::*;
use vstd::string::StringExecFns;
use crate::error::{ErrorModel, SighFarError};
use crate::models::HistoryEntry;
use crate::primitives::random_nonce;
use crate::store::{join_path, join_path_text, key_or_fresh, open_file, opened_file, seal_file, sealed_file};

verus! {

/// The history's directory, its key file and its encrypted file.
#[derive(Debug, Clone, PartialEq, Eq)]
pub struct HistoryStore {
    pub root: String,
    pub key_file: String,
    pub history_file: String,
}

pub open spec fn diagnostics_text(root: Seq<char>, key_file: Seq<char>, history_file: Seq<char>) -> Seq<char> {
    "storage: "@ + root + "\nkey: "@ + key_file + "\nhistory: "@ + history_file
}

/// What loading finds in the history file's bytes.
pub open spec fn load_spec(payload: Seq<u8>, key: Seq<u8>) -> Result<Option<Seq<u8>>, ErrorModel> {
    if payload.len() == 0 {
        Ok(None)
    } else if payload.len() < 12 {
        Err(ErrorModel::HistoryMalformed)
    } else {
        match opened_file(payload, key) {
            Some(plain) => Ok(Some(plain)),
            None => Err(ErrorModel::HistoryDecryptionFailed),
        }
    }
}

impl HistoryStore {
    /// The store whose files are `history.key` and `history.enc` under `root`.
    pub fn with_root(root: String) -> (s: HistoryStore)
        ensures
            s.root@ == root@,
            s.key_file@ == join_path(root@, "history.key"@),
            s.history_file@ == join_path(root@, "history.enc"@),
    {
        let key_file = join_path_text(root.as_str(), "history.key");
        let history_file = join_path_text(root.as_str(), "history.enc");
        HistoryStore { root, key_file, history_file }
    }

    /// Where the history is kept.
    pub fn diagnostics(&self) -> (d: String)
        ensures
            d@ == diagnostics_text(self.root@, self.key_file@, self.history_file@),
    {
        String::from_str("storage: ").concat(self.root.as_str()).concat("\nkey: ").concat(
            self.key_file.as_str(),
        ).concat("\nhistory: ").concat(self.history_file.as_str())
    }

    /// The history key: the key file's bytes when there is a key file (they
    /// must be 32), else a fresh random key, marked `true`, to be written out
    /// as the new key file.
    pub fn load_key(existing: Option<&[u8]>) -> (r: Result<([u8; 32], bool), SighFarError>)
        ensures
            match existing {
                Some(b) => match r {
                    Ok((k, fresh)) => b@.len() == 32 && k@ == b@ && !fresh,
                    Err(e) => b@.len() != 32 && e@ == ErrorModel::HistoryKeyLength,
                },
                None => r matches Ok((_, fresh)) && fresh,
            },
    {
        match key_or_fresh(existing) {
            Some(found) => Ok(found),
            None => Err(SighFarError::HistoryKeyLength),
        }
    }

    /// The serialized entries held in the history file's bytes: none for an
    /// empty file.  A file written by `seal_entries` under the same key gives
    /// back what was written.
    pub fn open_entries(payload: &[u8], key: &[u8; 32]) -> (r: Result<Option<Vec<u8>>, SighFarError>)
        ensures
            match r {
                Ok(Some(v)) => load_spec(payload@, key@) == Ok::<Option<Seq<u8>>, ErrorModel>(Some(v@)),
                Ok(None) => load_spec(payload@, key@) == Ok::<Option<Seq<u8>>, ErrorModel>(None),
                Err(e) => load_spec(payload@, key@) == Err::<Option<Seq<u8>>, ErrorModel>(e@),
            },
            forall|p: Seq<u8>, nonce: Seq<u8>|
                nonce.len() == 12 && p.len() <= 0x10_0000_0000 && payload@ == #[trigger] sealed_file(p, key@, nonce) ==> (r matches Ok(Some(v)) && v@ == p),
    {
        if payload.len() == 0 {
            return Ok(None);
        }
        if payload.len() < 12 {
            return Err(SighFarError::HistoryMalformed);
        }
        match open_file(payload, key) {
            Some(v) => Ok(Some(v)),
            None => Err(SighFarError::HistoryDecryptionFailed),
        }
    }

    /// The history file's bytes for the serialized entries, under `nonce`.
    pub fn seal_entries_with_nonce(plaintext: &[u8], key: &[u8; 32], nonce: &[u8; 12]) -> (r: Result<Vec<u8>, SighFarError>)
        ensures
            match r {
                Ok(v) => plaintext@.len() <= 0x10_0000_0000 && v@ == sealed_file(plaintext@, key@, nonce@),
                Err(e) => plaintext@.len() > 0x10_0000_0000 && e@ == ErrorModel::HistoryEncryptionFailed,
            },
    {
        match seal_file(plaintext, key, nonce) {
            Some(v) => Ok(v),
            None => Err(SighFarError::HistoryEncryptionFailed),
        }
    }

    /// The history file's bytes for the serialized entries, under a fresh
    /// random nonce.
    pub fn seal_entries(plaintext: &[u8], key: &[u8; 32]) -> (r: Result<Vec<u8>, SighFarError>)
        ensures
            match r {
                Ok(v) => plaintext@.len() <= 0x10_0000_0000 && exists|nonce: Seq<u8>|
                    nonce.len() == 12 && v@ == #[trigger] sealed_file(plaintext@, key@, nonce),
                Err(e) => plaintext@.len() > 0x10_0000_0000 && e@ == ErrorModel::HistoryEncryptionFailed,
            },
    {
        let nonce = random_nonce();
        Self::seal_entries_with_nonce(plaintext, key, &nonce)
    }

    /// The history with a new entry in front: the newest entry comes first.
    pub fn prepend(entries: &mut Vec<HistoryEntry>, entry: HistoryEntry)
        ensures
            final(entries)@ == seq![entry] + old(entries)@,
    {
        entries.insert(0, entry);
        assert(final(entries)@ =~= seq![entry] + old(entries)@) by {
            assert(entries@ =~= seq![entry] + old(entries)@);
        }
    }
}

} // verus!
