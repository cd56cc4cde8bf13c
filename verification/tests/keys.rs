use allroads::keys::{generate_key, key_load_step, start_key_load, KeyAction, KeyEvent, KeyState};
use allroads::transport::{next_text_decision, FrameOutcome};

#[test]
fn generated_keys_are_64_hex_digits() {
    let a = generate_key().unwrap();
    let b = generate_key().unwrap();
    assert_eq!(a.len(), 64);
    assert!(a.chars().all(|c| c.is_ascii_hexdigit() && !c.is_ascii_uppercase()));
    assert_ne!(a, b);
}

fn finish(action: KeyAction) -> Result<String, String> {
    match action {
        KeyAction::Finish(r) => r,
        other => panic!("not finished: {:?}", other),
    }
}

#[test]
fn keychain_hit_is_used() {
    let (s, a) = start_key_load(true);
    assert!(matches!(a, KeyAction::ReadKeychain));
    let (s, a) = key_load_step(s, KeyEvent::KeychainRead(Ok("k1".to_string())));
    assert!(matches!(s, KeyState::Finished));
    assert_eq!(finish(a), Ok("k1".to_string()));
}

#[test]
fn keychain_miss_falls_back_to_file_then_saves() {
    let (s, _) = start_key_load(true);
    let (s, a) = key_load_step(s, KeyEvent::KeychainRead(Err("none".to_string())));
    assert!(matches!(a, KeyAction::CheckKeyFile));
    let (s, a) = key_load_step(s, KeyEvent::KeyFileExists(true));
    assert!(matches!(a, KeyAction::CheckKeyFile));
    let (s, a) = key_load_step(s, KeyEvent::KeyFileExists(true));
    assert!(matches!(a, KeyAction::ReadKeyFile));
    let (s, a) = key_load_step(s, KeyEvent::KeyFileRead(Ok("filekey".to_string())));
    assert!(matches!(a, KeyAction::SaveToKeychain(ref k) if k == "filekey"));
    let (_, a) = key_load_step(s, KeyEvent::KeychainSaved(Err("locked".to_string())));
    assert_eq!(finish(a), Err("Error saving key to keychain: locked".to_string()));
}

#[test]
fn keychain_miss_without_file_generates_without_writing() {
    let (s, _) = start_key_load(true);
    let (s, _) = key_load_step(s, KeyEvent::KeychainRead(Err("none".to_string())));
    let (s, a) = key_load_step(s, KeyEvent::KeyFileExists(false));
    assert!(matches!(a, KeyAction::GenerateKey));
    let (s, a) = key_load_step(s, KeyEvent::KeyGenerated(Ok("g".to_string())));
    assert!(matches!(a, KeyAction::SaveToKeychain(ref k) if k == "g"));
    let (_, a) = key_load_step(s, KeyEvent::KeychainSaved(Ok(())));
    assert_eq!(finish(a), Ok("g".to_string()));
}

#[test]
fn file_only_key_load() {
    let (s, a) = start_key_load(false);
    assert!(matches!(a, KeyAction::CheckKeyFile));
    let (s, a) = key_load_step(s, KeyEvent::KeyFileExists(false));
    assert!(matches!(a, KeyAction::GenerateKey));
    let (s, a) = key_load_step(s, KeyEvent::KeyGenerated(Ok("g".to_string())));
    assert!(matches!(a, KeyAction::WriteKeyFile(ref k) if k == "g"));
    let (_, a) = key_load_step(s, KeyEvent::KeyFileWritten(Err("denied".to_string())));
    assert_eq!(finish(a), Err("Error writing key: denied".to_string()));

    let (s, _) = start_key_load(false);
    let (s, _) = key_load_step(s, KeyEvent::KeyFileExists(true));
    let (_, a) = key_load_step(s, KeyEvent::KeyFileRead(Err("io".to_string())));
    assert_eq!(finish(a), Err("Error reading key: io".to_string()));
}

#[test]
fn text_frames_are_limited() {
    assert!(matches!(next_text_decision(None, 10), FrameOutcome::Return(Ok(None))));
    assert!(matches!(next_text_decision(Some(None), 10), FrameOutcome::ReadOn));
    assert!(matches!(next_text_decision(Some(Some("short".to_string())), 5), FrameOutcome::Return(Ok(Some(ref t))) if t == "short"));
    match next_text_decision(Some(Some("ééé".to_string())), 5) {
        FrameOutcome::Return(Err(m)) => assert_eq!(m, "message too large"),
        other => panic!("{:?}", other),
    }
}

#[test]
fn key_generation_failure_ends_the_load() {
    let (s, _) = start_key_load(false);
    let (s, _) = key_load_step(s, KeyEvent::KeyFileExists(false));
    let (s, a) = key_load_step(s, KeyEvent::KeyGenerated(Err("no entropy".to_string())));
    assert!(matches!(s, KeyState::Finished));
    assert_eq!(finish(a), Err("Error generating key: no entropy".to_string()));
}
