use clipcrypt::error::{CommandError, EncryptionError};
use clipcrypt::keystore::{is_key_set, set_encryption_key, verify_password, KeyStore};
use clipcrypt::rotation::{admit_removal, KeyRotation, RotationAction, RotationEvent, RotationPhase, Settings};

fn store(password: &str) -> KeyStore {
    let mut keys = KeyStore::new();
    set_encryption_key(&mut keys, password.to_string());
    keys
}

fn requested(password: &str) -> RotationEvent {
    RotationEvent::Requested(password.to_string())
}

#[test]
fn removal_without_a_key_is_refused() {
    let mut keys = KeyStore::new();
    let mut flow = KeyRotation::new();
    assert_eq!(
        flow.step(&mut keys, requested("pw")),
        RotationAction::Fail(CommandError::NoEncryptionKeySet)
    );
    assert_eq!(flow.phase(), RotationPhase::Finished);
    assert_eq!(CommandError::NoEncryptionKeySet.reason(), "MAIN.ERROR.NO_ENCRYPTION_KEY_SET");
}

#[test]
fn removal_with_the_wrong_password_is_refused() {
    let mut keys = store("pw");
    let mut flow = KeyRotation::new();
    assert_eq!(
        flow.step(&mut keys, requested("guess")),
        RotationAction::Fail(CommandError::PasswordIncorrect)
    );
    assert_eq!(flow.phase(), RotationPhase::Finished);
    assert!(is_key_set(&keys));
    assert_eq!(CommandError::PasswordIncorrect.reason(), "MAIN.ERROR.INCORRECT_PASSWORD");
}

#[test]
fn admission_checks_the_key_before_the_password() {
    assert_eq!(admit_removal(&KeyStore::new(), "pw".to_string()), Err(CommandError::NoEncryptionKeySet));
    assert_eq!(admit_removal(&store("pw"), "no".to_string()), Err(CommandError::PasswordIncorrect));
    assert_eq!(admit_removal(&store("pw"), "pw".to_string()), Ok(()));
}

#[test]
fn removal_runs_the_pass_saves_the_setting_and_clears_the_key() {
    let mut keys = store("pw");
    let mut flow = KeyRotation::new();
    assert_eq!(flow.phase(), RotationPhase::Idle);

    assert_eq!(flow.step(&mut keys, requested("pw")), RotationAction::DecryptAll);
    assert_eq!(flow.phase(), RotationPhase::Decrypting);
    assert!(is_key_set(&keys));

    let now = Settings { sync: true, encryption: true };
    assert_eq!(
        flow.step(&mut keys, RotationEvent::BulkSucceeded(now)),
        RotationAction::SaveSettings(Settings { sync: true, encryption: false })
    );
    assert_eq!(flow.phase(), RotationPhase::SavingSettings);
    assert!(is_key_set(&keys));

    assert_eq!(flow.step(&mut keys, RotationEvent::SettingsSaved), RotationAction::Done);
    assert_eq!(flow.phase(), RotationPhase::Finished);
    assert!(!is_key_set(&keys));
}

#[test]
fn fatal_pass_keeps_the_key_and_the_setting() {
    let mut keys = store("pw");
    let mut flow = KeyRotation::new();
    assert_eq!(flow.step(&mut keys, requested("pw")), RotationAction::DecryptAll);
    assert_eq!(
        flow.step(&mut keys, RotationEvent::BulkFailed(CommandError::RemoteFetchFailed)),
        RotationAction::Fail(CommandError::RemoteFetchFailed)
    );
    assert_eq!(flow.phase(), RotationPhase::Finished);
    assert!(is_key_set(&keys));
    assert_eq!(verify_password(&keys, "pw".to_string()), Ok(true));
    // Nothing that follows asks for the settings to be saved or clears the key.
    assert_eq!(
        flow.step(&mut keys, RotationEvent::SettingsSaved),
        RotationAction::Fail(CommandError::OutOfOrder)
    );
    assert!(is_key_set(&keys));
}

#[test]
fn settings_that_cannot_be_saved_keep_the_key() {
    let mut keys = store("pw");
    let mut flow = KeyRotation::new();
    flow.step(&mut keys, requested("pw"));
    flow.step(&mut keys, RotationEvent::BulkSucceeded(Settings { sync: false, encryption: true }));
    assert_eq!(
        flow.step(&mut keys, RotationEvent::SettingsFailed),
        RotationAction::Fail(CommandError::StorageFailed)
    );
    assert!(is_key_set(&keys));
    assert_eq!(flow.phase(), RotationPhase::Finished);
}

#[test]
fn saved_setting_keeps_the_rest_of_the_settings() {
    let mut keys = store("pw");
    let mut flow = KeyRotation::new();
    flow.step(&mut keys, requested("pw"));
    assert_eq!(
        flow.step(&mut keys, RotationEvent::BulkSucceeded(Settings { sync: false, encryption: true })),
        RotationAction::SaveSettings(Settings { sync: false, encryption: false })
    );
}

#[test]
fn report_that_was_not_waited_for_ends_the_flow() {
    let mut keys = store("pw");
    let mut flow = KeyRotation::new();
    assert_eq!(
        flow.step(&mut keys, RotationEvent::SettingsSaved),
        RotationAction::Fail(CommandError::OutOfOrder)
    );
    assert!(is_key_set(&keys));
    assert_eq!(flow.phase(), RotationPhase::Finished);

    let mut flow = KeyRotation::new();
    flow.step(&mut keys, requested("pw"));
    assert_eq!(
        flow.step(&mut keys, requested("pw")),
        RotationAction::Fail(CommandError::OutOfOrder)
    );
    assert!(is_key_set(&keys));
}

#[test]
fn reason_codes_are_stable() {
    assert_eq!(CommandError::RemoteFetchFailed.reason(), "MAIN.ERROR.REMOTE_FETCH_FAILED");
    assert_eq!(CommandError::StorageFailed.reason(), "MAIN.ERROR.STORAGE_FAILED");
    assert_eq!(CommandError::OutOfOrder.reason(), "MAIN.ERROR.OUT_OF_ORDER");
    assert_eq!(
        CommandError::Encryption(EncryptionError::NoKey).reason(),
        EncryptionError::NoKey.message()
    );
}

#[test]
fn error_messages_are_distinct() {
    let all = [
        EncryptionError::NoKey,
        EncryptionError::KeyLockFailed,
        EncryptionError::InvalidKey,
        EncryptionError::NotEncrypted,
        EncryptionError::DecryptionFailed,
        EncryptionError::EncryptionFailed,
    ];
    for (i, a) in all.iter().enumerate() {
        assert!(!a.message().is_empty());
        for b in all.iter().skip(i + 1) {
            assert_ne!(a.message(), b.message());
            assert_ne!(a, b);
        }
    }
    assert_eq!(EncryptionError::NoKey.message(), "No encryption key set");
}
