use siggy::lock::{lock_transition, ErrorUpdate, LockPhase};

fn err(e: &str) -> Result<(), String> {
    Err(e.to_string())
}

fn shown(e: &ErrorUpdate) -> Option<&str> {
    match e {
        ErrorUpdate::Show(t) => Some(t.as_str()),
        _ => None,
    }
}

#[test]
fn lock_set_passphrase_refuses_empty_and_reports_failures() {
    let r = lock_transition(LockPhase::SetPassphrase, true, false, Ok(()), Ok(()));
    assert_eq!(r.phase, LockPhase::SetPassphrase);
    assert_eq!(shown(&r.error), Some("Passphrase cannot be empty"));
    let r = lock_transition(LockPhase::SetPassphrase, false, false, err("bad salt"), Ok(()));
    assert_eq!(shown(&r.error), Some("Hash failed: bad salt"));
    let r = lock_transition(LockPhase::SetPassphrase, false, false, Ok(()), err("read-only"));
    assert_eq!(shown(&r.error), Some("Could not save hash: read-only"));
    assert_eq!(r.phase, LockPhase::SetPassphrase);
}

#[test]
fn lock_set_passphrase_unlocks() {
    let r = lock_transition(LockPhase::SetPassphrase, false, false, Ok(()), Ok(()));
    assert_eq!(r.phase, LockPhase::Unlocked);
    assert!(matches!(r.error, ErrorUpdate::Clear));
    assert_eq!(r.status.as_deref(), Some("Lock passphrase set"));
    assert_eq!(r.old_verified, None);
}

#[test]
fn lock_entry_needs_the_right_passphrase() {
    let ok = lock_transition(LockPhase::LockEntry, false, true, Ok(()), Ok(()));
    assert_eq!(ok.phase, LockPhase::Unlocked);
    assert!(matches!(ok.error, ErrorUpdate::Clear));
    let bad = lock_transition(LockPhase::LockEntry, false, false, Ok(()), Ok(()));
    assert_eq!(bad.phase, LockPhase::LockEntry);
    assert_eq!(shown(&bad.error), Some("Incorrect passphrase"));
}

#[test]
fn lock_change_passphrase_two_steps() {
    let old_ok = lock_transition(LockPhase::ChangePassphraseOld, false, true, Ok(()), Ok(()));
    assert_eq!(old_ok.phase, LockPhase::ChangePassphraseNew);
    assert_eq!(old_ok.old_verified, Some(true));
    let old_bad = lock_transition(LockPhase::ChangePassphraseOld, false, false, Ok(()), Ok(()));
    assert_eq!(old_bad.phase, LockPhase::ChangePassphraseOld);
    assert_eq!(old_bad.old_verified, None);
    let new_ok = lock_transition(LockPhase::ChangePassphraseNew, false, false, Ok(()), Ok(()));
    assert_eq!(new_ok.phase, LockPhase::Unlocked);
    assert_eq!(new_ok.old_verified, Some(false));
    assert!(matches!(new_ok.error, ErrorUpdate::Keep));
    assert_eq!(new_ok.status.as_deref(), Some("Lock passphrase changed"));
    let new_empty = lock_transition(LockPhase::ChangePassphraseNew, true, false, Ok(()), Ok(()));
    assert_eq!(shown(&new_empty.error), Some("Passphrase cannot be empty"));
}

#[test]
fn lock_unlocked_is_left_alone() {
    let r = lock_transition(LockPhase::Unlocked, false, true, Ok(()), Ok(()));
    assert_eq!(r.phase, LockPhase::Unlocked);
    assert!(matches!(r.error, ErrorUpdate::Keep));
    assert_eq!(r.status, None);
}
