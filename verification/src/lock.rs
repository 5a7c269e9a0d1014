//! The passphrase lock screen: what an Enter press does in each phase. The
//! caller reads the entered text (and clears the input buffer), verifies it
//! against the stored hash or hashes and saves it as the phase asks, and
//! hands the outcomes in; this module decides the next state.
use vstd::prelude::*;

use crate::text::{append_chars, chars_of, owned};

verus! {

/// What the lock screen is asking for.
#[derive(Debug, Clone, Copy, PartialEq, Eq, Structural)]
pub enum LockPhase {
    Unlocked,
    /// First use: choose a passphrase.
    SetPassphrase,
    /// Locked: enter the passphrase.
    LockEntry,
    /// Changing: enter the current passphrase.
    ChangePassphraseOld,
    /// Changing: enter the new passphrase.
    ChangePassphraseNew,
}

/// How the lock screen's error line changes.
pub enum ErrorUpdate {
    Keep,
    Clear,
    Show(String),
}

/// [`ErrorUpdate`] over plain values.
pub enum ErrorUpdateModel {
    Keep,
    Clear,
    Show(Seq<char>),
}

impl ErrorUpdate {
    pub open spec fn model(self) -> ErrorUpdateModel {
        match self {
            ErrorUpdate::Keep => ErrorUpdateModel::Keep,
            ErrorUpdate::Clear => ErrorUpdateModel::Clear,
            ErrorUpdate::Show(t) => ErrorUpdateModel::Show(t@),
        }
    }
}

/// The state after an Enter press: the next phase, the error line, the
/// new value of the "old passphrase verified" flag (`None`: unchanged), and
/// the status-bar text to show (`None`: unchanged).
pub struct LockOutcome {
    pub phase: LockPhase,
    pub error: ErrorUpdate,
    pub old_verified: Option<bool>,
    pub status: Option<String>,
}

pub open spec fn status_model(s: Option<String>) -> Option<Seq<char>> {
    match s {
        Some(t) => Some(t@),
        None => None,
    }
}

pub open spec fn result_model(r: Result<(), String>) -> Result<(), Seq<char>> {
    match r {
        Ok(()) => Ok(()),
        Err(e) => Err(e@),
    }
}

/// Storing a new passphrase: refused when empty, else hashed and saved;
/// `done` is the status shown once saved.
pub open spec fn store_outcome(
    phase: LockPhase,
    entered_empty: bool,
    hashed: Result<(), Seq<char>>,
    saved: Result<(), Seq<char>>,
) -> (LockPhase, ErrorUpdateModel, Option<bool>, Option<Seq<char>>) {
    if entered_empty {
        (phase, ErrorUpdateModel::Show("Passphrase cannot be empty"@), None, None)
    } else {
        match hashed {
            Err(e) => (phase, ErrorUpdateModel::Show("Hash failed: "@ + e), None, None),
            Ok(()) => match saved {
                Err(e) => (phase, ErrorUpdateModel::Show("Could not save hash: "@ + e), None, None),
                Ok(()) => if phase == LockPhase::SetPassphrase {
                    (
                        LockPhase::Unlocked,
                        ErrorUpdateModel::Clear,
                        None,
                        Some("Lock passphrase set"@),
                    )
                } else {
                    (
                        LockPhase::Unlocked,
                        ErrorUpdateModel::Keep,
                        Some(false),
                        Some("Lock passphrase changed"@),
                    )
                },
            },
        }
    }
}

/// The lock state machine on Enter:
/// - SetPassphrase: refuse an empty passphrase; else hash, save, unlock.
/// - LockEntry: unlock when the passphrase verifies, else "Incorrect passphrase".
/// - ChangePassphraseOld: when it verifies, mark it verified and ask for the
///   new one, else "Incorrect passphrase".
/// - ChangePassphraseNew: like SetPassphrase, then unlock and clear the flag.
/// - Unlocked: nothing changes.
pub open spec fn lock_transition_spec(
    phase: LockPhase,
    entered_empty: bool,
    verified: bool,
    hashed: Result<(), Seq<char>>,
    saved: Result<(), Seq<char>>,
) -> (LockPhase, ErrorUpdateModel, Option<bool>, Option<Seq<char>>) {
    match phase {
        LockPhase::Unlocked => (phase, ErrorUpdateModel::Keep, None, None),
        LockPhase::SetPassphrase => store_outcome(phase, entered_empty, hashed, saved),
        LockPhase::ChangePassphraseNew => store_outcome(phase, entered_empty, hashed, saved),
        LockPhase::LockEntry => if verified {
            (LockPhase::Unlocked, ErrorUpdateModel::Clear, None, None)
        } else {
            (phase, ErrorUpdateModel::Show("Incorrect passphrase"@), None, None)
        },
        LockPhase::ChangePassphraseOld => if verified {
            (LockPhase::ChangePassphraseNew, ErrorUpdateModel::Clear, Some(true), None)
        } else {
            (phase, ErrorUpdateModel::Show("Incorrect passphrase"@), None, None)
        },
    }
}

fn prefixed(prefix: &str, e: &String) -> (r: String)
    ensures
        r@ == prefix@ + e@,
{
    let mut s = owned(prefix);
    append_chars(&mut s, &chars_of(e.as_str()));
    s
}

/// Decide an Enter press on the lock screen. `entered_empty` says the
/// entered text was empty; `verified` is whether it matched the stored hash
/// (read in LockEntry and ChangePassphraseOld); `hashed` and `saved` are the
/// outcomes of hashing and saving it (read when a passphrase is stored).
pub fn lock_transition(
    phase: LockPhase,
    entered_empty: bool,
    verified: bool,
    hashed: Result<(), String>,
    saved: Result<(), String>,
) -> (r: LockOutcome)
    ensures
        (r.phase, r.error.model(), r.old_verified, status_model(r.status)) == lock_transition_spec(
            phase,
            entered_empty,
            verified,
            result_model(hashed),
            result_model(saved),
        ),
{
    match phase {
        LockPhase::Unlocked => LockOutcome {
            phase,
            error: ErrorUpdate::Keep,
            old_verified: None,
            status: None,
        },
        LockPhase::LockEntry | LockPhase::ChangePassphraseOld => {
            if !verified {
                return LockOutcome {
                    phase,
                    error: ErrorUpdate::Show(owned("Incorrect passphrase")),
                    old_verified: None,
                    status: None,
                };
            }
            if phase == LockPhase::LockEntry {
                LockOutcome {
                    phase: LockPhase::Unlocked,
                    error: ErrorUpdate::Clear,
                    old_verified: None,
                    status: None,
                }
            } else {
                LockOutcome {
                    phase: LockPhase::ChangePassphraseNew,
                    error: ErrorUpdate::Clear,
                    old_verified: Some(true),
                    status: None,
                }
            }
        },
        LockPhase::SetPassphrase | LockPhase::ChangePassphraseNew => {
            if entered_empty {
                return LockOutcome {
                    phase,
                    error: ErrorUpdate::Show(owned("Passphrase cannot be empty")),
                    old_verified: None,
                    status: None,
                };
            }
            if let Err(e) = &hashed {
                return LockOutcome {
                    phase,
                    error: ErrorUpdate::Show(prefixed("Hash failed: ", e)),
                    old_verified: None,
                    status: None,
                };
            }
            if let Err(e) = &saved {
                return LockOutcome {
                    phase,
                    error: ErrorUpdate::Show(prefixed("Could not save hash: ", e)),
                    old_verified: None,
                    status: None,
                };
            }
            if phase == LockPhase::SetPassphrase {
                LockOutcome {
                    phase: LockPhase::Unlocked,
                    error: ErrorUpdate::Clear,
                    old_verified: None,
                    status: Some(owned("Lock passphrase set")),
                }
            } else {
                LockOutcome {
                    phase: LockPhase::Unlocked,
                    error: ErrorUpdate::Keep,
                    old_verified: Some(false),
                    status: Some(owned("Lock passphrase changed")),
                }
            }
        },
    }
}

/// Changing the passphrase never unlocks without both steps: a wrong old
/// passphrase leaves the phase and the flag as they were, and the new one
/// is only asked for once the old one verified.
pub proof fn law_change_needs_old_passphrase(
    entered_empty: bool,
    verified: bool,
    hashed: Result<(), Seq<char>>,
    saved: Result<(), Seq<char>>,
)
    ensures
        lock_transition_spec(
            LockPhase::ChangePassphraseOld,
            entered_empty,
            verified,
            hashed,
            saved,
        ).0 == (if verified {
            LockPhase::ChangePassphraseNew
        } else {
            LockPhase::ChangePassphraseOld
        }),
        !verified ==> lock_transition_spec(
            LockPhase::ChangePassphraseOld,
            entered_empty,
            verified,
            hashed,
            saved,
        ).2 is None,
{
}

/// Only a verified passphrase opens a locked screen.
pub proof fn law_unlock_needs_verification(
    entered_empty: bool,
    verified: bool,
    hashed: Result<(), Seq<char>>,
    saved: Result<(), Seq<char>>,
)
    ensures
        lock_transition_spec(LockPhase::LockEntry, entered_empty, verified, hashed, saved).0
            == LockPhase::Unlocked <==> verified,
{
}

} // verus!
