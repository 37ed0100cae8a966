use sighfar::cipher::CipherPipeline;
use sighfar::models::TechniqueDescriptor;

#[test]
fn cipher_pipeline_round_trip() {
    let pipeline = CipherPipeline;
    let techniques = vec![
        TechniqueDescriptor::Caesar { shift: 4 },
        TechniqueDescriptor::Reverse,
        TechniqueDescriptor::Vigenere { keyword: "smile".to_string() },
        TechniqueDescriptor::RailFence { rails: 3 },
    ];

    let encoded = pipeline.encode("Secret Message", &techniques).unwrap();
    let decoded = pipeline.decode(&encoded, &techniques).unwrap();

    assert_eq!(decoded, "Secret Message");
}

#[test]
fn morse_round_trip() {
    let pipeline = CipherPipeline;

    let encoded = pipeline.encode("sos 2", &[TechniqueDescriptor::Morse]).unwrap();
    let decoded = pipeline.decode(&encoded, &[TechniqueDescriptor::Morse]).unwrap();

    assert_eq!(encoded, "... --- ... / ..---");
    assert_eq!(decoded, "sos 2");
}

#[test]
fn caesar_rot13_exact() {
    let pipeline = CipherPipeline;
    let t = [TechniqueDescriptor::Caesar { shift: 13 }];
    assert_eq!(pipeline.encode("hello", &t).unwrap(), "uryyb");
    assert_eq!(pipeline.decode("uryyb", &t).unwrap(), "hello");
}

#[test]
fn caesar_keeps_case_and_non_letters() {
    let pipeline = CipherPipeline;
    let t = [TechniqueDescriptor::Caesar { shift: 3 }];
    assert_eq!(pipeline.encode("Xyz, abc!", &t).unwrap(), "Abc, def!");
}

#[test]
fn caesar_negative_and_large_shifts() {
    let pipeline = CipherPipeline;
    assert_eq!(pipeline.encode("abc", &[TechniqueDescriptor::Caesar { shift: -1 }]).unwrap(), "zab");
    assert_eq!(pipeline.encode("abc", &[TechniqueDescriptor::Caesar { shift: 27 }]).unwrap(), "bcd");
    let t = [TechniqueDescriptor::Caesar { shift: i32::MIN }];
    let e = pipeline.encode("Hello", &t).unwrap();
    assert_eq!(pipeline.decode(&e, &t).unwrap(), "Hello");
}

#[test]
fn vigenere_exact_value() {
    let pipeline = CipherPipeline;
    let t = [TechniqueDescriptor::Vigenere { keyword: "LEMON".to_string() }];
    assert_eq!(pipeline.encode("ATTACKATDAWN", &t).unwrap(), "LXFOPVEFRNHR");
    assert_eq!(pipeline.decode("LXFOPVEFRNHR", &t).unwrap(), "ATTACKATDAWN");
}

#[test]
fn vigenere_skips_non_letters_in_key_position() {
    let pipeline = CipherPipeline;
    let t = [TechniqueDescriptor::Vigenere { keyword: "b".to_string() }];
    assert_eq!(pipeline.encode("a b-c", &t).unwrap(), "b c-d");
}

#[test]
fn vigenere_keyword_without_letters_fails() {
    let pipeline = CipherPipeline;
    let t = [TechniqueDescriptor::Vigenere { keyword: "123".to_string() }];
    let err = pipeline.encode("abc", &t).unwrap_err();
    assert_eq!(err.message(), "Vigenere keyword must include letters.");
}

#[test]
fn rail_fence_exact_value() {
    let pipeline = CipherPipeline;
    let t = [TechniqueDescriptor::RailFence { rails: 3 }];
    assert_eq!(pipeline.encode("WEAREDISCOVERED", &t).unwrap(), "WECRERDSOEEAIVD");
    assert_eq!(pipeline.decode("WECRERDSOEEAIVD", &t).unwrap(), "WEAREDISCOVERED");
}

#[test]
fn rail_fence_too_few_rails_fails() {
    let pipeline = CipherPipeline;
    let t = [TechniqueDescriptor::RailFence { rails: 1 }];
    let err = pipeline.encode("abc", &t).unwrap_err();
    assert_eq!(err.message(), "RailFence requires at least 2 rails.");
}

#[test]
fn reverse_reverses_characters() {
    let pipeline = CipherPipeline;
    assert_eq!(pipeline.encode("héllo", &[TechniqueDescriptor::Reverse]).unwrap(), "olléh");
}

#[test]
fn sha256_hex_digest() {
    let pipeline = CipherPipeline;
    assert_eq!(
        pipeline.encode("abc", &[TechniqueDescriptor::Sha256]).unwrap(),
        "ba7816bf8f01cfea414140de5dae2223b00361a396177a9cb410ff61f20015ad"
    );
}

#[test]
fn sha512_hex_digest() {
    let pipeline = CipherPipeline;
    let out = pipeline.encode("abc", &[TechniqueDescriptor::Sha512]).unwrap();
    assert_eq!(out.len(), 128);
    assert!(out.starts_with("ddaf35a193617aba"));
}

#[test]
fn digests_cannot_be_decoded() {
    let pipeline = CipherPipeline;
    let e1 = pipeline.decode("abc", &[TechniqueDescriptor::Sha256]).unwrap_err();
    assert_eq!(e1.message(), "SHA-256 is a one-way hash function and cannot be decoded.");
    let e2 = pipeline.decode("abc", &[TechniqueDescriptor::Sha512]).unwrap_err();
    assert_eq!(e2.message(), "SHA-512 is a one-way hash function and cannot be decoded.");
}

#[test]
fn morse_unsupported_character_fails() {
    let pipeline = CipherPipeline;
    let err = pipeline.encode("a#", &[TechniqueDescriptor::Morse]).unwrap_err();
    assert_eq!(err.message(), "Unsupported Morse character: #");
}

#[test]
fn morse_unsupported_token_fails() {
    let pipeline = CipherPipeline;
    let err = pipeline.decode("...---...", &[TechniqueDescriptor::Morse]).unwrap_err();
    assert_eq!(err.message(), "Unsupported Morse token: ...---...");
}

#[test]
fn morse_uppercase_encodes_as_lowercase() {
    let pipeline = CipherPipeline;
    let encoded = pipeline.encode("SOS", &[TechniqueDescriptor::Morse]).unwrap();
    assert_eq!(encoded, "... --- ...");
    assert_eq!(pipeline.decode(&encoded, &[TechniqueDescriptor::Morse]).unwrap(), "sos");
}

#[test]
fn empty_chain_leaves_text() {
    let pipeline = CipherPipeline;
    assert_eq!(pipeline.encode("same", &[]).unwrap(), "same");
    assert_eq!(pipeline.decode("same", &[]).unwrap(), "same");
}

#[test]
fn technique_titles() {
    assert_eq!(TechniqueDescriptor::Caesar { shift: -3 }.title(), "Caesar(-3)");
    assert_eq!(TechniqueDescriptor::Vigenere { keyword: "key".to_string() }.title(), "Vigenere(key)");
    assert_eq!(TechniqueDescriptor::RailFence { rails: 4 }.title(), "RailFence(4)");
    assert_eq!(TechniqueDescriptor::Morse.title(), "Morse");
    assert_eq!(TechniqueDescriptor::Sha256.title(), "SHA-256");
}

#[test]
fn morse_lowercases_beyond_ascii() {
    let pipeline = CipherPipeline;
    let err = pipeline.encode("É", &[TechniqueDescriptor::Morse]).unwrap_err();
    assert_eq!(err.message(), "Unsupported Morse character: é");
    assert_eq!(pipeline.encode("\u{212A}", &[TechniqueDescriptor::Morse]).unwrap(), "-.-");
}

#[test]
fn morse_lowercases_the_whole_text() {
    let pipeline = CipherPipeline;
    let err = pipeline.encode("a\u{03A3}", &[TechniqueDescriptor::Morse]).unwrap_err();
    assert_eq!(err.message(), "Unsupported Morse character: \u{03C2}");
}

#[test]
fn chain_with_morse_gives_back_lowercase() {
    let pipeline = CipherPipeline;
    let t = [TechniqueDescriptor::Caesar { shift: 3 }, TechniqueDescriptor::Morse, TechniqueDescriptor::Reverse];
    let e = pipeline.encode("Hello World 42", &t).unwrap();
    assert_eq!(pipeline.decode(&e, &t).unwrap(), "hello world 42");
}

#[test]
fn caesar_acts_as_reduced_shift() {
    let pipeline = CipherPipeline;
    let a = pipeline.encode("Zebra", &[TechniqueDescriptor::Caesar { shift: 29 }]).unwrap();
    let b = pipeline.encode("Zebra", &[TechniqueDescriptor::Caesar { shift: 3 }]).unwrap();
    assert_eq!(a, b);
    let c = pipeline.encode("Zebra", &[TechniqueDescriptor::Caesar { shift: -1 }]).unwrap();
    let d = pipeline.encode("Zebra", &[TechniqueDescriptor::Caesar { shift: 25 }]).unwrap();
    assert_eq!(c, d);
}

#[test]
fn decoding_is_a_right_inverse() {
    let pipeline = CipherPipeline;
    let t = vec![
        TechniqueDescriptor::Vigenere { keyword: "key".to_string() },
        TechniqueDescriptor::RailFence { rails: 3 },
        TechniqueDescriptor::Reverse,
    ];
    let d = pipeline.decode("any text AT ALL", &t).unwrap();
    assert_eq!(pipeline.encode(&d, &t).unwrap(), "any text AT ALL");
}

#[test]
fn chains_compose() {
    let pipeline = CipherPipeline;
    let a = [TechniqueDescriptor::Caesar { shift: 5 }, TechniqueDescriptor::Reverse];
    let b = [TechniqueDescriptor::Morse];
    let joined = [a.to_vec(), b.to_vec()].concat();
    let step = pipeline.encode("abc", &a).unwrap();
    assert_eq!(pipeline.encode("abc", &joined).unwrap(), pipeline.encode(&step, &b).unwrap());
}
