use sighfar::carrier::{build_container, metadata_span, payload_span, slice_bytes, u64_from_le, u64_le_bytes};
use sighfar::config::{AppConfig, ConfigStore};
use sighfar::history::HistoryStore;
use sighfar::models::{HistoryEntry, OperationKind, TechniqueDescriptor};

fn make_entry(id: &str, preview: &str) -> HistoryEntry {
    HistoryEntry {
        id: id.to_string(),
        timestamp_secs: 12_345,
        timestamp_nanos: 0,
        operation: OperationKind::Encode,
        input_preview: preview.to_string(),
        output_preview: "out".to_string(),
        techniques: vec![TechniqueDescriptor::Caesar { shift: 13 }],
        used_secure_envelope: false,
    }
}

#[test]
fn append_prepends_newest_first() {
    let mut items: Vec<HistoryEntry> = Vec::new();
    HistoryStore::prepend(&mut items, make_entry("first", "first message"));
    HistoryStore::prepend(&mut items, make_entry("second", "second message"));
    HistoryStore::prepend(&mut items, make_entry("third", "third message"));
    assert_eq!(items.len(), 3);
    assert_eq!(items[0].input_preview, "third message");
    assert_eq!(items[1].input_preview, "second message");
    assert_eq!(items[2].input_preview, "first message");
}

#[test]
fn history_file_round_trip() {
    let key = [9u8; 32];
    let sealed = HistoryStore::seal_entries(b"[{\"id\":\"entry-1\"}]", &key).unwrap();
    assert_eq!(sealed.len(), 12 + 18 + 16);
    let opened = HistoryStore::open_entries(&sealed, &key).unwrap();
    assert_eq!(opened.unwrap(), b"[{\"id\":\"entry-1\"}]".to_vec());
}

#[test]
fn history_file_empty_short_and_wrong_key() {
    let key = [9u8; 32];
    assert_eq!(HistoryStore::open_entries(&[], &key).unwrap(), None);
    assert_eq!(
        HistoryStore::open_entries(&[1, 2, 3], &key).unwrap_err().message(),
        "history payload is malformed"
    );
    let sealed = HistoryStore::seal_entries_with_nonce(b"data", &key, &[0u8; 12]).unwrap();
    assert_eq!(&sealed[..12], &[0u8; 12]);
    assert_eq!(
        HistoryStore::open_entries(&sealed, &[8u8; 32]).unwrap_err().message(),
        "failed to decrypt history file"
    );
}

#[test]
fn history_key_loading() {
    let bytes = [5u8; 32];
    let (key, fresh) = HistoryStore::load_key(Some(&bytes)).unwrap();
    assert_eq!(key, bytes);
    assert!(!fresh);
    assert_eq!(
        HistoryStore::load_key(Some(&[1u8; 31])).unwrap_err().message(),
        "history key has unexpected length"
    );
    let (_, fresh) = HistoryStore::load_key(None).unwrap();
    assert!(fresh);
}

#[test]
fn diagnostics_contains_paths() {
    let store = HistoryStore::with_root("/tmp/sighfar-diag".to_string());
    let diag = store.diagnostics();
    assert!(diag.contains("storage:"));
    assert!(diag.contains("key:"));
    assert!(diag.contains("history:"));
    assert_eq!(store.key_file, "/tmp/sighfar-diag/history.key");
    assert_eq!(store.history_file, "/tmp/sighfar-diag/history.enc");
}

#[test]
fn paths_join_without_doubling_slashes() {
    let store = HistoryStore::with_root("/root/".to_string());
    assert_eq!(store.history_file, "/root/history.enc");
}

#[test]
fn load_returns_default_when_no_file() {
    let config = ConfigStore::resolve(None);
    assert_eq!(config.github_client_id, "");
    assert_eq!(config.github_repo_name, "sighfar-secure-sync");
}

#[test]
fn config_read_from_file_is_kept() {
    let read = AppConfig { github_client_id: "my-client-id".to_string(), github_repo_name: "my-repo".to_string() };
    let config = ConfigStore::resolve(Some(read.clone()));
    assert_eq!(config, read);
    assert_eq!(ConfigStore::with_root("/home/u/.sighfar").file_path, "/home/u/.sighfar/config.json");
}

#[test]
fn embed_and_extract_round_trip() {
    let carrier = b"carrier-bytes";
    let payload = b"secret-payload";
    let metadata = br#"{"payload_name":"payload.txt","payload_len":14}"#;
    let container = build_container(carrier, payload, metadata);
    assert!(container.ends_with(b"SIGHFAR_CARRIER_V1"));
    let (meta_start, meta_end) = metadata_span(&container).unwrap();
    assert_eq!(slice_bytes(&container, meta_start, meta_end), metadata.to_vec());
    let (p_start, p_end) = payload_span(meta_start, 14).unwrap();
    assert_eq!(slice_bytes(&container, p_start, p_end), payload.to_vec());
    assert_eq!(p_start, carrier.len());
}

#[test]
fn extract_from_too_small_file_fails() {
    let err = metadata_span(b"tiny").unwrap_err();
    assert!(err.message().contains("too small"));
}

#[test]
fn extract_from_non_carrier_file_fails() {
    let err = metadata_span(b"just some random bytes without any magic trailer").unwrap_err();
    assert!(err.message().contains("no SighFar carrier trailer"));
}

#[test]
fn container_length_errors() {
    let mut bogus = vec![0u8; 4];
    bogus.extend_from_slice(&u64_le_bytes(1000));
    bogus.extend_from_slice(b"SIGHFAR_CARRIER_V1");
    assert_eq!(metadata_span(&bogus).unwrap_err().message(), "carrier metadata is malformed");
    assert_eq!(payload_span(3, 4).unwrap_err().message(), "carrier payload length is malformed");
}

#[test]
fn little_endian_lengths() {
    assert_eq!(u64_le_bytes(0x0102), vec![2, 1, 0, 0, 0, 0, 0, 0]);
    assert_eq!(u64_from_le(&[2, 1, 0, 0, 0, 0, 0, 0]), 0x0102);
}

#[test]
fn embed_result_contains_correct_sizes() {
    let carrier = b"CARRIER DATA";
    let payload = b"PAYLOAD DATA";
    let metadata = br#"{"payload_name":"payload.bin","payload_len":12}"#;
    let container = build_container(carrier, payload, metadata);
    assert_eq!(container.len(), carrier.len() + payload.len() + metadata.len() + 8 + 18);
    let result = sighfar::carrier::CarrierEmbedResult {
        output_path: "out.bin".to_string(),
        payload_name: "payload.bin".to_string(),
        carrier_size: carrier.len(),
        payload_size: payload.len(),
    };
    assert_eq!(result.summary(), "Hidden payload.bin (12 bytes) inside carrier copy out.bin using a 12 byte carrier.");
    let extracted = sighfar::carrier::CarrierExtractResult {
        extracted_path: "out/payload.bin".to_string(),
        payload_name: "payload.bin".to_string(),
        payload_size: 12,
    };
    assert_eq!(extracted.summary(), "Extracted payload.bin (12 bytes) to out/payload.bin.");
}

#[test]
fn embed_and_extract_empty_payload() {
    let metadata = br#"{"payload_name":"empty.txt","payload_len":0}"#;
    let container = build_container(b"some carrier", b"", metadata);
    let (meta_start, meta_end) = metadata_span(&container).unwrap();
    let (p_start, p_end) = payload_span(meta_start, 0).unwrap();
    assert_eq!(slice_bytes(&container, p_start, p_end), Vec::<u8>::new());
    assert_eq!(meta_end - meta_start, metadata.len());
}

#[test]
fn embed_and_extract_empty_carrier() {
    let metadata = br#"{"payload_name":"payload.txt","payload_len":11}"#;
    let container = build_container(b"", b"hidden data", metadata);
    let (meta_start, _) = metadata_span(&container).unwrap();
    let (p_start, p_end) = payload_span(meta_start, 11).unwrap();
    assert_eq!(p_start, 0);
    assert_eq!(slice_bytes(&container, p_start, p_end), b"hidden data".to_vec());
}
