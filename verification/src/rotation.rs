//! Removing encryption: the password is checked, every entry is decrypted
//! and stored, the setting is saved, and only then is the key cleared.
//!
//! Like the bulk pass, the flow is a state machine that a driver runs: the
//! order of the steps is decided here, the work between them is done outside.

use vstd::prelude::*;
use crate::error::CommandError;
use crate::keystore::{
    clear_encryption_key, digestible, is_digestible, is_key_set, password_check, verify_password, KeyStore,
};

verus! {

/// The settings that the flow reads and writes.
#[derive(Clone, Copy, Debug, PartialEq, Eq, Structural)]
pub struct Settings {
    pub sync: bool,
    pub encryption: bool,
}

/// Where the removal of encryption stands.
#[derive(Clone, Copy, Debug, PartialEq, Eq, Structural)]
pub enum RotationPhase {
    Idle,
    Decrypting,
    SavingSettings,
    Finished,
}

/// What the driver reports.
#[derive(Clone, Debug, PartialEq, Eq)]
pub enum RotationEvent {
    /// The user asks to remove encryption and gives the password.
    Requested(String),
    /// The bulk pass ran to completion; the settings as they are now.
    BulkSucceeded(Settings),
    /// The bulk pass was given up.
    BulkFailed(CommandError),
    /// The settings were saved.
    SettingsSaved,
    /// The settings could not be saved.
    SettingsFailed,
}

pub enum RotationEventView {
    Requested(Seq<char>),
    BulkSucceeded(Settings),
    BulkFailed(CommandError),
    SettingsSaved,
    SettingsFailed,
}

impl View for RotationEvent {
    type V = RotationEventView;

    open spec fn view(&self) -> RotationEventView {
        match self {
            RotationEvent::Requested(password) => RotationEventView::Requested(password@),
            RotationEvent::BulkSucceeded(settings) => RotationEventView::BulkSucceeded(*settings),
            RotationEvent::BulkFailed(e) => RotationEventView::BulkFailed(*e),
            RotationEvent::SettingsSaved => RotationEventView::SettingsSaved,
            RotationEvent::SettingsFailed => RotationEventView::SettingsFailed,
        }
    }
}

/// What the driver is to do next.
#[derive(Clone, Copy, Debug, PartialEq, Eq, Structural)]
pub enum RotationAction {
    /// Run the bulk pass; report `BulkSucceeded` or `BulkFailed`.
    DecryptAll,
    /// Save these settings; report `SettingsSaved` or `SettingsFailed`.
    SaveSettings(Settings),
    /// Encryption is removed and the key is gone.
    Done,
    /// The removal is given up; nothing that was not yet done will be done.
    Fail(CommandError),
}

/// A state of the flow: the phase, and the key that the store holds.
pub struct RotationView {
    pub phase: RotationPhase,
    pub key: Option<Seq<u8>>,
}

/// The answer to a request: the key must be set and the password must
/// derive it. A password too long to be digested derives no key, so it is
/// not the password.
pub open spec fn admission(key: Option<Seq<u8>>, password: Seq<char>) -> Result<(), CommandError> {
    if key is None {
        Err(CommandError::NoEncryptionKeySet)
    } else if !digestible(password) {
        Err(CommandError::PasswordIncorrect)
    } else {
        match password_check(key, password) {
            Err(e) => Err(CommandError::Encryption(e)),
            Ok(false) => Err(CommandError::PasswordIncorrect),
            Ok(true) => Ok(()),
        }
    }
}

/// The flow is given up; the key stays as it is.
pub open spec fn fail(state: RotationView, error: CommandError) -> (RotationView, RotationAction) {
    (RotationView { phase: RotationPhase::Finished, ..state }, RotationAction::Fail(error))
}

/// The transition relation of the flow. The key is cleared in one place
/// only: when the settings are reported saved.
pub open spec fn rotate(state: RotationView, event: RotationEventView) -> (RotationView, RotationAction) {
    match (state.phase, event) {
        (RotationPhase::Idle, RotationEventView::Requested(password)) => match admission(state.key, password) {
            Err(e) => fail(state, e),
            Ok(_) => (RotationView { phase: RotationPhase::Decrypting, ..state }, RotationAction::DecryptAll),
        },
        (RotationPhase::Decrypting, RotationEventView::BulkSucceeded(settings)) => (
            RotationView { phase: RotationPhase::SavingSettings, ..state },
            RotationAction::SaveSettings(Settings { encryption: false, ..settings }),
        ),
        (RotationPhase::Decrypting, RotationEventView::BulkFailed(e)) => fail(state, e),
        (RotationPhase::SavingSettings, RotationEventView::SettingsSaved) => (
            RotationView { phase: RotationPhase::Finished, key: None },
            RotationAction::Done,
        ),
        (RotationPhase::SavingSettings, RotationEventView::SettingsFailed) => fail(
            state,
            CommandError::StorageFailed,
        ),
        _ => fail(state, CommandError::OutOfOrder),
    }
}

/// Checks the two conditions of a request, in order: a key is set, and the
/// password derives it.
pub fn admit_removal(keys: &KeyStore, password: String) -> (verdict: Result<(), CommandError>)
    ensures
        verdict == admission(keys@, password@),
{
    if !is_key_set(keys) {
        return Err(CommandError::NoEncryptionKeySet);
    }
    if !is_digestible(password.as_str()) {
        return Err(CommandError::PasswordIncorrect);
    }
    match verify_password(keys, password) {
        Err(e) => Err(CommandError::Encryption(e)),
        Ok(false) => Err(CommandError::PasswordIncorrect),
        Ok(true) => Ok(()),
    }
}

/// The removal of encryption, in progress.
pub struct KeyRotation {
    phase: RotationPhase,
}

impl KeyRotation {
    /// The phase of the flow.
    pub closed spec fn spec_phase(&self) -> RotationPhase {
        self.phase
    }

    /// A flow that has not begun.
    pub fn new() -> (flow: KeyRotation)
        ensures
            flow.spec_phase() == RotationPhase::Idle,
    {
        KeyRotation { phase: RotationPhase::Idle }
    }

    /// Where the flow stands.
    pub fn phase(&self) -> (phase: RotationPhase)
        ensures
            phase == self.spec_phase(),
    {
        self.phase
    }

    /// Takes what the driver reports and answers with the next action, as
    /// `rotate` lays down. The key store is touched in one case only: it is
    /// cleared when the settings are reported saved.
    pub fn step(&mut self, keys: &mut KeyStore, event: RotationEvent) -> (action: RotationAction)
        ensures
            (RotationView { phase: final(self).spec_phase(), key: final(keys)@ }, action) == rotate(
                RotationView { phase: old(self).spec_phase(), key: old(keys)@ },
                event@,
            ),
            final(keys)@ != old(keys)@ ==> old(self).spec_phase() == RotationPhase::SavingSettings && event
                == RotationEvent::SettingsSaved,
    {
        let phase = self.phase;
        self.phase = RotationPhase::Finished;
        match (phase, event) {
            (RotationPhase::Idle, RotationEvent::Requested(password)) => match admit_removal(keys, password) {
                Err(e) => RotationAction::Fail(e),
                Ok(_) => {
                    self.phase = RotationPhase::Decrypting;
                    RotationAction::DecryptAll
                },
            },
            (RotationPhase::Decrypting, RotationEvent::BulkSucceeded(settings)) => {
                self.phase = RotationPhase::SavingSettings;
                RotationAction::SaveSettings(Settings { sync: settings.sync, encryption: false })
            },
            (RotationPhase::Decrypting, RotationEvent::BulkFailed(e)) => RotationAction::Fail(e),
            (RotationPhase::SavingSettings, RotationEvent::SettingsSaved) => {
                clear_encryption_key(keys);
                RotationAction::Done
            },
            (RotationPhase::SavingSettings, RotationEvent::SettingsFailed) => RotationAction::Fail(
                CommandError::StorageFailed,
            ),
            _ => RotationAction::Fail(CommandError::OutOfOrder),
        }
    }
}

/// The state that a run of events leads to.
pub open spec fn state_after(state: RotationView, events: Seq<RotationEventView>) -> RotationView
    decreases events.len(),
{
    if events.len() == 0 {
        state
    } else {
        state_after(rotate(state, events.first()).0, events.drop_first())
    }
}

/// The actions that answer a run of events, in order.
pub open spec fn actions_of(state: RotationView, events: Seq<RotationEventView>) -> Seq<RotationAction>
    decreases events.len(),
{
    if events.len() == 0 {
        Seq::empty()
    } else {
        let (following, action) = rotate(state, events.first());
        seq![action] + actions_of(following, events.drop_first())
    }
}

/// Key rotation atomicity, in one step. A bulk pass that is given up ends
/// the flow with that error; the key is left as it is and no settings are
/// asked to be saved.
pub proof fn lemma_fatal_pass_keeps_key(key: Option<Seq<u8>>, error: CommandError)
    ensures
        rotate(
            RotationView { phase: RotationPhase::Decrypting, key },
            RotationEventView::BulkFailed(error),
        ) == (RotationView { phase: RotationPhase::Finished, key }, RotationAction::Fail(error)),
{
}

/// Key rotation atomicity, over runs. Whatever the driver reports, as long
/// as it never reports a bulk pass that succeeded, the key is left as it is
/// and the settings are never asked to be saved.
pub proof fn lemma_key_kept_without_success(state: RotationView, events: Seq<RotationEventView>)
    requires
        state.phase != RotationPhase::SavingSettings,
        forall|i: int| 0 <= i < events.len() ==> !(#[trigger] events[i] is BulkSucceeded),
    ensures
        state_after(state, events).key == state.key,
        state_after(state, events).phase != RotationPhase::SavingSettings,
        forall|i: int|
            0 <= i < actions_of(state, events).len() ==> !(#[trigger] actions_of(state, events)[i] is SaveSettings)
                && actions_of(state, events)[i] != RotationAction::Done,
    decreases events.len(),
{
    if events.len() > 0 {
        let (following, action) = rotate(state, events.first());
        let rest = events.drop_first();
        assert(!(events[0] is BulkSucceeded));
        assert forall|i: int| 0 <= i < rest.len() implies !(#[trigger] rest[i] is BulkSucceeded) by {
            assert(rest[i] == events[i + 1]);
        }
        lemma_key_kept_without_success(following, rest);
        let tail = actions_of(following, rest);
        assert forall|i: int| 0 <= i < actions_of(state, events).len() implies !(#[trigger] actions_of(
            state,
            events,
        )[i] is SaveSettings) && actions_of(state, events)[i] != RotationAction::Done by {
            if i > 0 {
                assert(actions_of(state, events)[i] == tail[i - 1]);
            }
        }
    }
}

/// The key is cleared only after the settings were saved: in any run that
/// starts before the bulk pass has succeeded, a key that has changed is a key
/// that is gone, and the run holds a report of a successful pass and, later,
/// a report of saved settings.
pub proof fn lemma_cleared_only_after_saved(state: RotationView, events: Seq<RotationEventView>)
    requires
        state.phase != RotationPhase::SavingSettings,
        state_after(state, events).key != state.key,
    ensures
        state_after(state, events).key is None,
        exists|i: int, j: int|
            0 <= i < j < events.len() && #[trigger] events[i] is BulkSucceeded && #[trigger] events[j]
                == RotationEventView::SettingsSaved,
    decreases events.len(),
{
    if events.len() > 0 {
        let (following, action) = rotate(state, events.first());
        let rest = events.drop_first();
        if following.phase == RotationPhase::SavingSettings {
            assert(events[0] is BulkSucceeded);
            assert(following.key == state.key);
            lemma_saving_then_cleared(following, rest);
            let j = choose|j: int| 0 <= j < rest.len() && #[trigger] rest[j] == RotationEventView::SettingsSaved;
            assert(events[j + 1] == rest[j]);
            assert(0 <= 0 < j + 1 < events.len() && events[0] is BulkSucceeded && events[j + 1]
                == RotationEventView::SettingsSaved);
        } else {
            assert(following.key == state.key);
            lemma_cleared_only_after_saved(following, rest);
            let (i, j) = choose|i: int, j: int|
                0 <= i < j < rest.len() && #[trigger] rest[i] is BulkSucceeded && #[trigger] rest[j]
                    == RotationEventView::SettingsSaved;
            assert(events[i + 1] == rest[i]);
            assert(events[j + 1] == rest[j]);
            assert(0 <= i + 1 < j + 1 < events.len() && events[i + 1] is BulkSucceeded && events[j + 1]
                == RotationEventView::SettingsSaved);
        }
    }
}

/// From any state, a run that changes the key holds a report of saved
/// settings and leaves no key.
proof fn lemma_saving_then_cleared(state: RotationView, events: Seq<RotationEventView>)
    requires
        state_after(state, events).key != state.key,
    ensures
        state_after(state, events).key is None,
        exists|j: int| 0 <= j < events.len() && #[trigger] events[j] == RotationEventView::SettingsSaved,
    decreases events.len(),
{
    if events.len() > 0 {
        let (following, action) = rotate(state, events.first());
        let rest = events.drop_first();
        if following.key != state.key {
            assert(events[0] == RotationEventView::SettingsSaved);
            assert(following.key is None);
            if state_after(following, rest).key != following.key {
                lemma_saving_then_cleared(following, rest);
            }
        } else {
            lemma_saving_then_cleared(following, rest);
            let j = choose|j: int| 0 <= j < rest.len() && #[trigger] rest[j] == RotationEventView::SettingsSaved;
            assert(events[j + 1] == rest[j]);
        }
    }
}

} // verus!
