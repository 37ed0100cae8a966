use sighfar::builder::{chain_string, layer_label, DraftTechniqueKind, TechniqueBuilder};
use sighfar::config::AppConfig;
use sighfar::error::SighFarError;
use sighfar::screens::{DecodeState, EncodeState};
use sighfar::github::{
    check_not_expired, content_blob, content_text, history_path, pending_message, poll_step, repo_full_name,
    status_class, DeviceAuthState, DevicePollStatus, GitHubSession, PollStep, SettingsState, StatusClass,
};
use sighfar::models::{EncodedMessage, HistoryEntry, OperationKind, SecureKeyPair, TechniqueDescriptor};
use sighfar::terminal::{encode_report, history_panel, is_yes, menu_action, settings_report, MenuAction};
use sighfar::workflow::parse_techniques;

fn device(interval: u64) -> DeviceAuthState {
    DeviceAuthState::started("dev".to_string(), "USER-CODE".to_string(), "https://github.com/login/device".to_string(), 900, interval, 1000)
}

#[test]
fn device_flow_waits_at_least_five_seconds() {
    assert_eq!(device(1).interval, 5);
    assert_eq!(device(8).interval, 8);
}

#[test]
fn device_code_expiry() {
    let d = device(5);
    assert!(!d.expired(1900));
    assert!(d.expired(1901));
    assert!(!d.expired(0));
    assert!(check_not_expired(&d, 1900).is_ok());
    assert_eq!(check_not_expired(&d, 5000).unwrap_err().message(), "device code expired, start sign-in again");
}

#[test]
fn pending_messages() {
    assert_eq!(pending_message("authorization_pending"), "Waiting for GitHub authorization.");
    assert_eq!(pending_message("slow_down"), "GitHub asked the app to slow down polling.");
    assert_eq!(pending_message("expired_token"), "Device code expired, start sign-in again.");
    assert_eq!(pending_message("access_denied"), "GitHub returned device flow error: access_denied");
}

#[test]
fn poll_steps() {
    let d = device(7);
    match poll_step(&d, Some("slow_down"), None).unwrap() {
        PollStep::Pending { message, wait_secs } => {
            assert_eq!(message, "GitHub asked the app to slow down polling.");
            assert_eq!(wait_secs, 12);
        },
        _ => panic!("expected pending"),
    }
    match poll_step(&d, Some("authorization_pending"), Some("tok".to_string())).unwrap() {
        PollStep::Pending { wait_secs, .. } => assert_eq!(wait_secs, 0),
        _ => panic!("expected pending"),
    }
    match poll_step(&d, None, Some("tok".to_string())).unwrap() {
        PollStep::FetchUser { access_token } => assert_eq!(access_token, "tok"),
        _ => panic!("expected a token"),
    }
    assert_eq!(poll_step(&d, None, None).unwrap_err().message(), "GitHub did not return an access token");
}

#[test]
fn status_classes() {
    assert_eq!(status_class(200), StatusClass::Success);
    assert_eq!(status_class(201), StatusClass::Success);
    assert_eq!(status_class(404), StatusClass::NotFound);
    assert_eq!(status_class(403), StatusClass::Failure);
    assert_eq!(status_class(199), StatusClass::Failure);
}

#[test]
fn repository_names_and_content() {
    assert_eq!(repo_full_name("octo", "sighfar-secure-sync"), "octo/sighfar-secure-sync");
    assert_eq!(history_path(), "history/history.enc");
    let text = content_text(b"encrypted blob");
    assert_eq!(text, "ZW5jcnlwdGVkIGJsb2I=");
    assert_eq!(content_blob("ZW5jcnlwdGVk\nIGJsb2I=\n").unwrap(), b"encrypted blob".to_vec());
    assert_eq!(content_blob("%%%").unwrap_err().message(), "failed to decode GitHub history blob");
}

#[test]
fn settings_state_records_polls() {
    let mut s = SettingsState::new(AppConfig::fallback());
    assert_eq!(s.sync_status, "GitHub sync is not connected yet.");
    assert!(s.device_to_poll().is_none());
    assert_eq!(s.sync_status, "Start sign-in first to get a device code.");
    assert!(s.session_for_sync().is_none());
    assert_eq!(s.sync_status, "Sign in to GitHub first.");
    s.record_poll(Ok(DevicePollStatus::Pending("Waiting for GitHub authorization.".to_string())));
    assert_eq!(s.sync_status, "Waiting for GitHub authorization.");
    s.record_poll(Ok(DevicePollStatus::Authorized(GitHubSession {
        access_token: "t".to_string(),
        username: "octo".to_string(),
    })));
    assert_eq!(s.sync_status, "Signed in as octo.");
    assert_eq!(s.session_for_sync().unwrap().username, "octo");
    s.record_poll(Err("network down".to_string()));
    assert_eq!(s.sync_status, "network down");
}

#[test]
fn menu_choices() {
    assert_eq!(menu_action("1"), MenuAction::Encode);
    assert_eq!(menu_action("2"), MenuAction::Decode);
    assert_eq!(menu_action("3"), MenuAction::History);
    assert_eq!(menu_action("4"), MenuAction::Settings);
    assert_eq!(menu_action("0"), MenuAction::Quit);
    assert_eq!(menu_action("q"), MenuAction::Quit);
    assert_eq!(menu_action("quit"), MenuAction::Quit);
    assert_eq!(menu_action("5"), MenuAction::Unknown);
    assert_eq!(menu_action(""), MenuAction::Unknown);
}

#[test]
fn yes_answers() {
    assert!(is_yes("y"));
    assert!(is_yes("Yes"));
    assert!(is_yes("yep"));
    assert!(!is_yes("n"));
    assert!(!is_yes(""));
    assert!(!is_yes(" y"));
}

#[test]
fn encode_report_lists_the_parts_to_share() {
    let plain = EncodedMessage {
        original_input: "hi".to_string(),
        transformed_text: "ih".to_string(),
        secure_payload: None,
        techniques: vec![],
        used_secure_envelope: false,
        key_pair: None,
    };
    assert_eq!(encode_report(&plain), "Transformed text:\nih");
    let secure = EncodedMessage {
        secure_payload: Some("ENV".to_string()),
        key_pair: Some(SecureKeyPair { passphrase: "pw".to_string(), companion_code: "CODE".to_string() }),
        used_secure_envelope: true,
        ..plain
    };
    assert_eq!(
        encode_report(&secure),
        "Transformed text:\nih\n\nSecure payload:\nENV\n\nShare these separately:\nPrimary passphrase: pw\nCompanion code: CODE"
    );
}

#[test]
fn settings_report_wraps_diagnostics() {
    assert_eq!(
        settings_report("storage: x"),
        "github oauth: configure via the GUI settings tab\nfile carrier mode: use the GUI carrier tab\n\nlocal encrypted history:\nstorage: x"
    );
}

#[test]
fn history_panel_texts() {
    let (title, body) = history_panel(&[]).unwrap();
    assert_eq!(title, "History");
    assert_eq!(body, "No entries yet. Encode or decode a message first.");
    let e = HistoryEntry {
        id: "entry-1".to_string(),
        timestamp_secs: 12_345,
        timestamp_nanos: 0,
        operation: OperationKind::Decode,
        input_preview: "cipher".to_string(),
        output_preview: "plain".to_string(),
        techniques: vec![TechniqueDescriptor::Reverse, TechniqueDescriptor::Caesar { shift: 3 }],
        used_secure_envelope: true,
    };
    let (title, body) = history_panel(&[e.clone(), e.clone()]).unwrap();
    assert_eq!(title, "Encrypted History");
    let one = "1970-01-01T03:25:45+00:00 [Decode]\n    in: cipher\n    out: plain\n    chain: Reverse -> Caesar(3)\n    secure: yes";
    assert_eq!(body, format!(" 1. {one}\n\n 2. {one}"));
    let many: Vec<HistoryEntry> = (0..13).map(|_| e.clone()).collect();
    let (_, body) = history_panel(&many).unwrap();
    assert!(body.contains("12. "));
    assert!(!body.contains("13. "));
}

#[test]
fn technique_builder_defaults_and_chain() {
    let mut b = TechniqueBuilder::with_defaults();
    assert_eq!(b.chain_string(), "morse,caesar:4,reverse");
    b.draft_kind = DraftTechniqueKind::RailFence;
    b.draft_rails = 1;
    b.add_current();
    b.draft_kind = DraftTechniqueKind::Vigenere;
    b.draft_keyword = "  key ".to_string();
    b.add_current();
    let chain = b.chain_string();
    assert_eq!(chain, "morse,caesar:4,reverse,railfence:2,vigenere:key");
    let parsed = parse_techniques(&chain).unwrap();
    assert_eq!(chain_string(&parsed), chain);
}

#[test]
fn draft_labels() {
    let labels: Vec<&str> = DraftTechniqueKind::all().iter().map(|k| k.label()).collect();
    assert_eq!(labels, vec!["Morse", "Caesar", "Vigenere", "Rail Fence", "Reverse"]);
}

#[test]
fn technique_builder_reorders_and_removes_layers() {
    let mut b = TechniqueBuilder::with_defaults();
    b.move_up(0);
    assert_eq!(b.chain_string(), "morse,caesar:4,reverse");
    b.move_up(2);
    assert_eq!(b.chain_string(), "morse,reverse,caesar:4");
    b.move_down(1);
    assert_eq!(b.chain_string(), "morse,caesar:4,reverse");
    b.move_down(2);
    assert_eq!(b.chain_string(), "morse,caesar:4,reverse");
    b.remove(1);
    assert_eq!(b.chain_string(), "morse,reverse");
    b.clear();
    assert_eq!(b.chain_string(), "");
}

#[test]
fn settings_state_records_sign_in_and_sync_steps() {
    let mut s = SettingsState::new(AppConfig::fallback());
    s.record_sign_in_started(Ok(device(5)));
    assert_eq!(s.sync_status, "Open https://github.com/login/device and enter code USER-CODE.");
    assert_eq!(s.device_to_poll().unwrap().user_code, "USER-CODE");
    s.record_sign_in_started(Err("offline".to_string()));
    assert_eq!(s.sync_status, "offline");
    assert!(s.device_flow.is_some());
    s.record_step(Ok(()), "Saved local sync settings.");
    assert_eq!(s.sync_status, "Saved local sync settings.");
    s.record_step(Err("denied".to_string()), "Saved local sync settings.");
    assert_eq!(s.sync_status, "denied");
    s.record_repo_ready(Ok("octo/repo".to_string()));
    assert_eq!(s.sync_status, "Private sync repository ready: octo/repo");
}

#[test]
fn screen_states_start_ready_and_record_outcomes() {
    let mut e = EncodeState::new();
    assert!(e.secure);
    assert_eq!(e.status, "Ready to encode a message.");
    assert_eq!(e.technique_builder.chain_string(), "morse,caesar:4,reverse");
    e.record(Err(SighFarError::NoTechniques));
    assert_eq!(e.status, "You need at least one technique.");
    assert!(e.result.is_none());
    let mut d = DecodeState::new();
    assert!(!d.secure);
    assert_eq!(d.status, "Ready to decode a message.");
    let m = EncodedMessage {
        original_input: "a".to_string(),
        transformed_text: "b".to_string(),
        secure_payload: None,
        techniques: vec![],
        used_secure_envelope: false,
        key_pair: None,
    };
    d.record(Ok(m));
    assert_eq!(d.status, "Message decoded successfully.");
    assert_eq!(d.result.unwrap().transformed_text, "b");
}

#[test]
fn layer_labels_are_zero_padded() {
    assert_eq!(layer_label(0, &TechniqueDescriptor::Caesar { shift: 4 }), "01. Caesar(4)");
    assert_eq!(layer_label(11, &TechniqueDescriptor::Reverse), "12. Reverse");
}
