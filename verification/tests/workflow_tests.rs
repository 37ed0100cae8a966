use sighfar::models::{EncodedMessage, OperationKind, TechniqueDescriptor};
use sighfar::workflow::{history_entry_for, parse_techniques, truncate, SighFarCore};

fn workflow() -> SighFarCore {
    SighFarCore::with_root("/tmp/sighfar-workflow-tests".to_string())
}

// ── parse_techniques ──────────────────────────────────────────────────────

#[test]
fn parse_morse() {
    let t = parse_techniques("morse").unwrap();
    assert_eq!(t.len(), 1);
    assert!(matches!(t[0], TechniqueDescriptor::Morse));
}

#[test]
fn parse_reverse() {
    let t = parse_techniques("reverse").unwrap();
    assert!(matches!(t[0], TechniqueDescriptor::Reverse));
}

#[test]
fn parse_caesar() {
    let t = parse_techniques("caesar:7").unwrap();
    assert!(matches!(t[0], TechniqueDescriptor::Caesar { shift: 7 }));
}

#[test]
fn parse_vigenere() {
    let t = parse_techniques("vigenere:secret").unwrap();
    assert!(matches!(
        &t[0],
        TechniqueDescriptor::Vigenere { keyword } if keyword == "secret"
    ));
}

#[test]
fn parse_railfence() {
    let t = parse_techniques("railfence:4").unwrap();
    assert!(matches!(t[0], TechniqueDescriptor::RailFence { rails: 4 }));
}

#[test]
fn parse_chained_techniques() {
    let t = parse_techniques("caesar:2,reverse,morse").unwrap();
    assert_eq!(t.len(), 3);
    assert!(matches!(t[0], TechniqueDescriptor::Caesar { shift: 2 }));
    assert!(matches!(t[1], TechniqueDescriptor::Reverse));
    assert!(matches!(t[2], TechniqueDescriptor::Morse));
}

#[test]
fn parse_techniques_with_spaces() {
    let t = parse_techniques("caesar:3 , reverse").unwrap();
    assert_eq!(t.len(), 2);
}

#[test]
fn parse_empty_fails() {
    let result = parse_techniques("");
    assert!(result.is_err());
    assert!(result.unwrap_err().message().contains("at least one technique"));
}

#[test]
fn parse_unknown_technique_fails() {
    let result = parse_techniques("rot13");
    assert!(result.is_err());
    assert!(result.unwrap_err().message().contains("Unknown technique"));
}

#[test]
fn parse_vigenere_empty_keyword_fails() {
    let result = parse_techniques("vigenere:");
    assert!(result.is_err());
    assert!(result.unwrap_err().message().contains("vigenere:keyword"));
}

#[test]
fn parse_caesar_invalid_shift_fails() {
    let result = parse_techniques("caesar:abc");
    assert!(result.is_err());
    assert!(result.unwrap_err().message().contains("caesar:3"));
}

#[test]
fn parse_railfence_invalid_fails() {
    let result = parse_techniques("railfence:xyz");
    assert!(result.is_err());
    assert!(result.unwrap_err().message().contains("railfence:3"));
}

#[test]
fn parse_digest_words_from_the_docs() {
    let t = parse_techniques("caesar:4,reverse,sha256").unwrap();
    assert!(matches!(t[2], TechniqueDescriptor::Sha256));
    let t = parse_techniques("sha512").unwrap();
    assert!(matches!(t[0], TechniqueDescriptor::Sha512));
}

#[test]
fn parse_signed_and_blank_items() {
    let t = parse_techniques(" ,caesar:-5,, ").unwrap();
    assert_eq!(t.len(), 1);
    assert!(matches!(t[0], TechniqueDescriptor::Caesar { shift: -5 }));
    assert!(parse_techniques(" , ,").is_err());
    assert_eq!(parse_techniques("rot13").unwrap_err().message(), "Unknown technique: rot13");
}

#[test]
fn parse_caesar_out_of_range_fails() {
    assert!(parse_techniques("caesar:2147483648").is_err());
    assert!(matches!(
        parse_techniques("caesar:-2147483648").unwrap()[0],
        TechniqueDescriptor::Caesar { shift: i32::MIN }
    ));
}

// ── truncate ──────────────────────────────────────────────────────────────

#[test]
fn truncate_short_string_unchanged() {
    let s = "hello world";
    assert_eq!(truncate(s), s);
}

#[test]
fn truncate_exactly_80_chars_unchanged() {
    let s: String = "a".repeat(80);
    assert_eq!(truncate(&s), s);
}

#[test]
fn truncate_81_chars_gets_ellipsis() {
    let s: String = "b".repeat(81);
    let result = truncate(&s);
    assert!(result.ends_with("..."));
    assert_eq!(result.chars().count(), 80); // 77 + 3
}

#[test]
fn truncate_replaces_newlines_with_spaces() {
    let s = "line1\nline2";
    assert_eq!(truncate(s), "line1 line2");
}

#[test]
fn truncate_newlines_then_long_truncates() {
    let s = format!("{}\n{}", "a".repeat(50), "b".repeat(40));
    let result = truncate(&s);
    assert!(result.ends_with("..."));
    assert!(!result.contains('\n'));
}

#[test]
fn truncate_counts_characters_not_bytes() {
    let s: String = "é".repeat(80);
    assert_eq!(truncate(&s), s);
}

// ── encode / decode ───────────────────────────────────────────────────────

#[test]
fn core_encode_and_decode_plain() {
    let wf = workflow();
    let encoded = wf.encode("hello", "caesar:13", false, None).unwrap();
    assert_eq!(encoded.transformed_text, "uryyb");
    assert!(!encoded.used_secure_envelope);
    assert!(encoded.secure_payload.is_none());

    let decoded = wf.decode(&encoded.transformed_text, "caesar:13", false, None, None).unwrap();
    assert_eq!(decoded.transformed_text, "hello");
}

#[test]
fn core_encode_without_passphrase_fails_when_secure() {
    let wf = workflow();
    let result = wf.encode("msg", "reverse", true, None);
    assert!(result.is_err());
    assert!(result.unwrap_err().message().contains("passphrase"));
}

#[test]
fn core_encode_with_blank_passphrase_fails() {
    let wf = workflow();
    let result = wf.encode("msg", "reverse", true, Some("   "));
    assert!(result.is_err());
}

#[test]
fn core_encode_with_secure_envelope() {
    let wf = workflow();
    let encoded = wf.encode("secret message", "reverse", true, Some("my-pass")).unwrap();
    assert!(encoded.used_secure_envelope);
    assert!(encoded.secure_payload.is_some());
    assert!(encoded.key_pair.is_some());
    let kp = encoded.key_pair.as_ref().unwrap();
    assert_eq!(kp.passphrase, "my-pass");
    assert_eq!(kp.companion_code.chars().count(), 18);
}

#[test]
fn core_decode_secure_payload() {
    let wf = workflow();
    let encoded = wf.encode("top secret", "caesar:3", true, Some("pw")).unwrap();
    let kp = encoded.key_pair.as_ref().unwrap();
    let payload = encoded.secure_payload.as_ref().unwrap();

    let decoded = wf
        .decode(payload, "caesar:3", true, Some(&kp.passphrase), Some(&kp.companion_code))
        .unwrap();
    assert_eq!(decoded.transformed_text, "top secret");
}

#[test]
fn core_decode_missing_passphrase_fails() {
    let wf = workflow();
    let result = wf.decode("payload", "reverse", true, None, Some("CODE"));
    assert!(result.is_err());
    assert!(result.unwrap_err().message().contains("passphrase"));
}

#[test]
fn core_decode_missing_companion_code_fails() {
    let wf = workflow();
    let result = wf.decode("payload", "reverse", true, Some("pass"), None);
    assert!(result.is_err());
    assert!(result.unwrap_err().message().contains("Companion code"));
}

#[test]
fn core_decode_with_wrong_companion_code_fails() {
    let wf = workflow();
    let encoded = wf.encode("top secret", "reverse", true, Some("pw")).unwrap();
    let payload = encoded.secure_payload.as_ref().unwrap();
    let err = wf.decode(payload, "reverse", true, Some("pw"), Some("WRONGCODE")).unwrap_err();
    assert_eq!(err.message(), "failed to decrypt payload with the provided keys");
}

#[test]
fn core_encode_with_fixed_code_and_nonce_is_repeatable() {
    let wf = workflow();
    let nonce = [7u8; 12];
    let a = wf.encode_with("msg", "reverse", true, Some("pw"), "ABCDEFGHJKLMNPQRST", &nonce).unwrap();
    let b = wf.encode_with("msg", "reverse", true, Some("pw"), "ABCDEFGHJKLMNPQRST", &nonce).unwrap();
    assert_eq!(a.secure_payload, b.secure_payload);
    assert_eq!(a.transformed_text, "gsm");
    let decoded = wf
        .decode(a.secure_payload.as_ref().unwrap(), "reverse", true, Some("pw"), Some("ABCDEFGHJKLMNPQRST"))
        .unwrap();
    assert_eq!(decoded.original_input, "gsm");
    assert_eq!(decoded.transformed_text, "msg");
}

#[test]
fn core_diagnostics_names_the_history_files() {
    let wf = SighFarCore::with_root("/data/sf".to_string());
    assert_eq!(
        wf.diagnostics(),
        "storage: /data/sf\nkey: /data/sf/history.key\nhistory: /data/sf/history.enc"
    );
}

// ── history entries ───────────────────────────────────────────────────────

#[test]
fn history_entry_previews_prefer_the_envelope() {
    let result = EncodedMessage {
        original_input: "line1\nline2".to_string(),
        transformed_text: "plain".to_string(),
        secure_payload: Some("ENVELOPE".to_string()),
        techniques: vec![TechniqueDescriptor::Reverse],
        used_secure_envelope: true,
        key_pair: None,
    };
    let h = history_entry_for(&result, OperationKind::Encode, 12_345, 678_000_000);
    assert_eq!(h.id, "entry-12345678");
    assert_eq!(h.input_preview, "line1 line2");
    assert_eq!(h.output_preview, "ENVELOPE");
    assert_eq!(h.timestamp_secs, 12_345);
    assert!(h.used_secure_envelope);
    assert!(matches!(h.techniques[0], TechniqueDescriptor::Reverse));
}

#[test]
fn history_entry_without_envelope_previews_the_text() {
    let result = EncodedMessage {
        original_input: "in".to_string(),
        transformed_text: "x".repeat(100),
        secure_payload: None,
        techniques: vec![],
        used_secure_envelope: false,
        key_pair: None,
    };
    let h = history_entry_for(&result, OperationKind::Decode, 0, 0);
    assert_eq!(h.id, "entry-0");
    assert_eq!(h.output_preview, format!("{}...", "x".repeat(77)));
    assert_eq!(h.operation, OperationKind::Decode);
}
