# sighfar

A cipher workbench library, verified with Verus: layered classical ciphers
(Morse, Caesar, Vigenère, Rail Fence, Reverse, SHA-256/512 digests), a
passphrase-sealed envelope (Argon2id + AES-256-GCM + base64), a carrier-file
trailer format, and the encrypted stores that keep history and RSA keys.

Layout:

- `src/` — the library. Every function carries a `requires`/`ensures`
  contract that Verus proves. `src/primitives.rs` holds the calls into the
  outside crates (`sha2`, `hex`, `base64`, `aes-gcm`, `argon2`, `rand`,
  `rsa`, `chrono`) and what each is trusted to do; everything else is proved
  against those contracts.
- `tests/` — ordinary Rust tests that run the compiled library.
- `app/` — the terminal program: prompts, files, JSON and the GitHub HTTP
  calls, around the library's decisions.

The main laws proved in `src/`:

- decoding a chain undoes encoding it (`cipher::lemma_pipeline_round_trip`),
  with one lemma per technique, and up to case when Morse lowercases ASCII
  text (`cipher::lemma_pipeline_round_trip_up_to_case`, and for every ASCII
  text and digest-free chain that encodes, `cipher::lemma_ascii_round_trip`);
  Morse encoding succeeds exactly when the lowercased text is in its table
  (`morse::lemma_morse_encode_cases`); for chains of
  Caesar, Vigenère, Reverse and Rail Fence, encoding also undoes decoding
  (`cipher::lemma_pipeline_right_inverse`); chains compose
  (`cipher::lemma_encode_concat`, `cipher::lemma_decode_concat`) and a Caesar
  layer acts as its shift reduced mod 26 (`cipher::lemma_caesar_reduced`);
- a chain written out by the builder reads back as the same chain
  (`builder::lemma_chain_round_trip`);
- an envelope opens to the sealed text (`secure::SecureEnvelope::open` and
  `seal_with_nonce`), and
  the workflow's `decode` gives back what `encode` was given
  (`workflow::SighFarCore::decode`);
- a carrier container gives back its payload and metadata
  (`carrier::lemma_container_round_trip`);
- a store file opens to the entries sealed into it, and an RSA ciphertext
  decrypts to its plaintext under a generated key pair, encryption with such
  a key succeeds exactly for plaintexts of at most 190 bytes, and asking for
  the primary key pair twice gives the same pair (`keys`,
  `keys::lemma_primary_stable`).
