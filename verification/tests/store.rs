use allroads::engine::SqlValue;
use allroads::keys::{
    keychain_move_step, start_keychain_move, KeychainMoveAction, KeychainMoveEvent, KeychainMoveOutcome,
    KeychainMoveState,
};
use allroads::models::{Feature, Quarter};
use allroads::store::{
    after_failed_open, connection_setup, encryption_status, feature_from_row, feature_row_params,
    find_roadmap_name, first_open_mode, quarter_row_params, roadmap_name_for_save, OpenMode, DB_SCHEMA,
};

fn feature(completed: bool) -> Feature {
    Feature {
        id: "f1".to_string(),
        title: "Login".to_string(),
        description: "Sign in".to_string(),
        completed,
        status: if completed { "Completed" } else { "Planned" }.to_string(),
        color: "#4CAF50".to_string(),
    }
}

fn int_of(v: &SqlValue) -> i64 {
    match v {
        SqlValue::Integer(i) => *i,
        other => panic!("not an integer: {:?}", other),
    }
}

fn text(v: &SqlValue) -> String {
    match v {
        SqlValue::Text(s) => s.clone(),
        other => panic!("not a text: {:?}", other),
    }
}

#[test]
fn quarter_row_holds_roadmap_year_quarter_and_position() {
    let q = Quarter { year: 2025, quarter: 3, features: vec![] };
    let row = quarter_row_params(7, &q, 2);
    assert_eq!(row.iter().map(int_of).collect::<Vec<_>>(), vec![7, 2025, 3, 2]);
}

#[test]
fn feature_row_holds_every_column() {
    let row = feature_row_params(&feature(true), 11, 4);
    assert_eq!(row.len(), 8);
    assert_eq!(text(&row[0]), "f1");
    assert_eq!(int_of(&row[1]), 11);
    assert_eq!(text(&row[2]), "Login");
    assert_eq!(text(&row[3]), "Sign in");
    assert_eq!(int_of(&row[4]), 1);
    assert_eq!(text(&row[5]), "Completed");
    assert_eq!(text(&row[6]), "#4CAF50");
    assert_eq!(int_of(&row[7]), 4);
    assert_eq!(int_of(&feature_row_params(&feature(false), 11, 0)[4]), 0);
}

#[test]
fn stored_feature_reads_back_unchanged() {
    for completed in [false, true] {
        let f = feature(completed);
        let row = feature_row_params(&f, 3, 0);
        let back = feature_from_row(
            text(&row[0]),
            text(&row[2]),
            text(&row[3]),
            int_of(&row[4]) as i32,
            text(&row[5]),
            text(&row[6]),
        );
        assert_eq!(back.id, f.id);
        assert_eq!(back.title, f.title);
        assert_eq!(back.description, f.description);
        assert_eq!(back.completed, f.completed);
        assert_eq!(back.status, f.status);
        assert_eq!(back.color, f.color);
    }
    assert!(feature_from_row("a".into(), "b".into(), "c".into(), 5, "d".into(), "e".into()).completed);
}

#[test]
fn roadmap_names_are_found_by_first_matching_id() {
    let list = vec![(1, "one".to_string()), (2, "two".to_string()), (2, "again".to_string())];
    assert_eq!(find_roadmap_name(&list, 2), Some("two".to_string()));
    assert_eq!(find_roadmap_name(&list, 3), None);
}

#[test]
fn save_name_is_trimmed_or_default() {
    assert_eq!(roadmap_name_for_save("  Plan  "), "Plan");
    assert_eq!(roadmap_name_for_save("   "), "default");
    assert_eq!(roadmap_name_for_save(""), "default");
}

#[test]
fn opening_tries_key_file_then_plain_then_keychain() {
    assert_eq!(first_open_mode(true), OpenMode::KeyFile);
    assert_eq!(first_open_mode(false), OpenMode::Plain);
    assert!(OpenMode::KeyFile.encrypted() && !OpenMode::KeyFile.uses_keychain());
    assert!(!OpenMode::Plain.encrypted() && !OpenMode::Plain.uses_keychain());
    assert!(OpenMode::Keychain.encrypted() && OpenMode::Keychain.uses_keychain());
    assert_eq!(after_failed_open(OpenMode::KeyFile, "bad key".into()), Err("bad key".to_string()));
    assert_eq!(after_failed_open(OpenMode::Plain, "locked".into()), Ok(OpenMode::Keychain));
    assert_eq!(
        after_failed_open(OpenMode::Keychain, "none".into()),
        Err("Could not open database: not unencrypted, no key file, no keychain entry".to_string())
    );
}

#[test]
fn setup_unlocks_before_the_schema() {
    assert_eq!(connection_setup(None), vec!["PRAGMA foreign_keys = ON;".to_string(), DB_SCHEMA.to_string()]);
    assert_eq!(
        connection_setup(Some("abc")),
        vec![
            "PRAGMA foreign_keys = ON;".to_string(),
            "PRAGMA key = \"abc\";".to_string(),
            "PRAGMA cipher = 'aes-256-cbc';".to_string(),
            DB_SCHEMA.to_string(),
        ]
    );
    assert_eq!(encryption_status(true), "Encryption enabled");
    assert_eq!(encryption_status(false), "Encryption disabled");
}

fn outcome(action: KeychainMoveAction) -> KeychainMoveOutcome {
    match action {
        KeychainMoveAction::Finish(o) => o,
        other => panic!("not finished: {:?}", other),
    }
}

#[test]
fn moving_cached_key_into_keychain_removes_key_file() {
    let (s, a) = start_keychain_move(true, Some("k".into()));
    assert!(matches!(a, KeychainMoveAction::SaveToKeychain(ref k) if k == "k"));
    let (s, a) = keychain_move_step(s, KeychainMoveEvent::KeychainSaved(Ok(())));
    assert!(matches!(a, KeychainMoveAction::RemoveKeyFile));
    let (s, a) = keychain_move_step(s, KeychainMoveEvent::KeyFileRemoved);
    assert!(matches!(s, KeychainMoveState::Finished));
    let o = outcome(a);
    assert!(o.use_keychain);
    assert_eq!(o.stored_key, Some("k".to_string()));
    assert_eq!(o.status_text, "Key stored in system keychain");
}

#[test]
fn moving_into_keychain_without_cache_loads_key_file() {
    let (s, a) = start_keychain_move(true, None);
    assert!(matches!(a, KeychainMoveAction::LoadKey));
    let (_, a) = keychain_move_step(s, KeychainMoveEvent::KeyLoaded(Err("denied".into())));
    let o = outcome(a);
    assert!(!o.use_keychain);
    assert_eq!(o.stored_key, None);
    assert_eq!(o.status_text, "Error reading key for keychain: denied");

    let (s, _) = start_keychain_move(true, None);
    let (s, a) = keychain_move_step(s, KeychainMoveEvent::KeyLoaded(Ok("file-key".into())));
    assert!(matches!(a, KeychainMoveAction::SaveToKeychain(ref k) if k == "file-key"));
    let (_, a) = keychain_move_step(s, KeychainMoveEvent::KeychainSaved(Err("locked".into())));
    let o = outcome(a);
    assert!(!o.use_keychain);
    assert_eq!(o.status_text, "Error saving key to keychain: locked");
}

#[test]
fn moving_key_out_of_keychain_writes_key_file() {
    let (s, a) = start_keychain_move(false, Some("k".into()));
    assert!(matches!(a, KeychainMoveAction::WriteKeyFile(ref k) if k == "k"));
    let (s, a) = keychain_move_step(s, KeychainMoveEvent::KeyFileWritten(Ok(())));
    assert!(matches!(a, KeychainMoveAction::DeleteKeychainEntry));
    let (_, a) = keychain_move_step(s, KeychainMoveEvent::KeychainEntryDeleted);
    let o = outcome(a);
    assert!(!o.use_keychain);
    assert_eq!(o.stored_key, None);
    assert_eq!(o.status_text, "Key removed from system keychain");

    let (s, _) = start_keychain_move(false, Some("k".into()));
    let (_, a) = keychain_move_step(s, KeychainMoveEvent::KeyFileWritten(Err("read-only".into())));
    let o = outcome(a);
    assert!(o.use_keychain);
    assert_eq!(o.status_text, "Error writing key to file: read-only");

    let (s, a) = start_keychain_move(false, None);
    assert!(matches!(s, KeychainMoveState::Finished));
    let o = outcome(a);
    assert!(o.use_keychain);
    assert_eq!(o.status_text, "No cached key available");
}
