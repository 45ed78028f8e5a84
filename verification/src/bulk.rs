//! The bulk decryption pass as a state machine.
//!
//! The pass alternates outside work (the local store, the remote provider,
//! the event sink) with decisions. The decisions live here: `BulkDecrypt::step`
//! takes what the driver reports and answers with the next thing to do. The
//! driver performs each action and reports back; it decides nothing.

use vstd::prelude::*;
use crate::error::CommandError;
use crate::keystore::KeyStore;
use crate::record::{FullClipboardDto, FullClipboardView, RecordId};
use crate::transform::{decrypt_clipboard, decrypted_clipboard, TransformError};

verus! {

/// Seconds to wait, after a pass, before synchronisation is started again.
pub const RESUME_DELAY_SECS: u64 = 5;

/// What the provider tells of one remote entry.
#[derive(Clone, Debug, PartialEq, Eq)]
pub struct RemoteClipboardSummary {
    pub id: RecordId,
    /// The provider's own name for the entry.
    pub provider_id: String,
    pub encrypted: bool,
}

pub struct RemoteSummaryView {
    pub id: RecordId,
    pub provider_id: Seq<char>,
    pub encrypted: bool,
}

impl View for RemoteClipboardSummary {
    type V = RemoteSummaryView;

    open spec fn view(&self) -> RemoteSummaryView {
        RemoteSummaryView { id: self.id, provider_id: self.provider_id@, encrypted: self.encrypted }
    }
}

/// The payload of a progress event; `current` counts from one.
#[derive(Clone, Debug, PartialEq, Eq)]
pub struct Progress {
    pub label: String,
    pub total: usize,
    pub current: usize,
}

pub struct ProgressView {
    pub label: Seq<char>,
    pub total: nat,
    pub current: nat,
}

impl View for Progress {
    type V = ProgressView;

    open spec fn view(&self) -> ProgressView {
        ProgressView { label: self.label@, total: self.total as nat, current: self.current as nat }
    }
}

/// The label of the progress events of the download stage.
pub open spec fn download_label() -> Seq<char> {
    "SETTINGS.ENCRYPT.DOWNLOADING_REMOTE_CLIPBOARDS"@
}

/// The label of the progress events of the decryption stage.
pub open spec fn decryption_label() -> Seq<char> {
    "SETTINGS.ENCRYPT.DECRYPTION_PROGRESS"@
}

/// Where a pass stands.
#[derive(Clone, Copy, Debug, PartialEq, Eq, Structural)]
pub enum BulkPhase {
    Idle,
    StoppingSync,
    LoadingLocal,
    FetchingManifest,
    Downloading,
    Processing,
    Finished,
}

/// What the driver reports.
#[derive(Clone, Debug, PartialEq, Eq)]
pub enum BulkEvent {
    /// The pass is asked for.
    Start,
    /// Synchronisation has stopped.
    SyncStopped,
    /// The local store gave its encrypted entries.
    LocalLoaded(Vec<FullClipboardDto>),
    /// The local store could not be read.
    LoadFailed,
    /// The provider gave the list of its entries.
    ManifestFetched(Vec<RemoteClipboardSummary>),
    /// The provider gave no list.
    ManifestFailed,
    /// The entry asked for was downloaded.
    Downloaded(FullClipboardDto),
    /// Nothing was downloaded: none was asked for, or the download failed.
    NotDownloaded,
    /// The last action on an entry was carried out.
    Applied,
    /// The local store refused the last action.
    StorageFailed,
}

pub enum BulkEventView {
    Start,
    SyncStopped,
    LocalLoaded(Seq<FullClipboardView>),
    LoadFailed,
    ManifestFetched(Seq<RemoteSummaryView>),
    ManifestFailed,
    Downloaded(FullClipboardView),
    NotDownloaded,
    Applied,
    StorageFailed,
}

/// The views of a list of entries, in order.
pub open spec fn entry_views(entries: Seq<FullClipboardDto>) -> Seq<FullClipboardView> {
    Seq::new(entries.len(), |i: int| entries[i]@)
}

/// The views of a list of remote summaries, in order.
pub open spec fn summary_views(remotes: Seq<RemoteClipboardSummary>) -> Seq<RemoteSummaryView> {
    Seq::new(remotes.len(), |i: int| remotes[i]@)
}

/// The view of an optional remote summary.
pub open spec fn optional_summary(remote: Option<RemoteClipboardSummary>) -> Option<RemoteSummaryView> {
    match remote {
        Some(r) => Some(r@),
        None => None,
    }
}

impl View for BulkEvent {
    type V = BulkEventView;

    open spec fn view(&self) -> BulkEventView {
        match self {
            BulkEvent::Start => BulkEventView::Start,
            BulkEvent::SyncStopped => BulkEventView::SyncStopped,
            BulkEvent::LocalLoaded(entries) => BulkEventView::LocalLoaded(entry_views(entries@)),
            BulkEvent::LoadFailed => BulkEventView::LoadFailed,
            BulkEvent::ManifestFetched(remotes) => BulkEventView::ManifestFetched(summary_views(remotes@)),
            BulkEvent::ManifestFailed => BulkEventView::ManifestFailed,
            BulkEvent::Downloaded(entry) => BulkEventView::Downloaded(entry@),
            BulkEvent::NotDownloaded => BulkEventView::NotDownloaded,
            BulkEvent::Applied => BulkEventView::Applied,
            BulkEvent::StorageFailed => BulkEventView::StorageFailed,
        }
    }
}

/// What the driver is to do next. Every action on an entry starts with its
/// progress event.
#[derive(Clone, Debug, PartialEq, Eq)]
pub enum BulkAction {
    /// Stop synchronisation; report `SyncStopped`.
    StopSync,
    /// Query the local store for every encrypted entry, with all that belongs
    /// to it; report `LocalLoaded` or `LoadFailed`.
    LoadLocal,
    /// Fetch the list of remote entries; report `ManifestFetched` or
    /// `ManifestFailed`.
    FetchManifest,
    /// Emit `progress`, then download the entry; report `Downloaded` or
    /// `NotDownloaded`.
    Download { progress: Progress, provider_id: String },
    /// Emit `progress` for a remote entry that needs no download; report
    /// `NotDownloaded`.
    Announce { progress: Progress },
    /// Emit `progress`, store `entry` in place of its ciphertext and, where
    /// `remote` is given, push it to the provider (a failed push is logged,
    /// no more); report `Applied` or `StorageFailed`.
    Persist { progress: Progress, entry: FullClipboardDto, remote: Option<RemoteClipboardSummary> },
    /// Emit `progress`, log `error`, delete the entry `id` locally and, where
    /// `remote` is given, mark it for deletion at the provider; report
    /// `Applied` or `StorageFailed`.
    Purge { progress: Progress, id: RecordId, error: TransformError, remote: Option<RemoteClipboardSummary> },
    /// The pass is complete. Where a delay is given, start synchronisation
    /// again after that many seconds, without waiting for it.
    Finish { resume_sync_after: Option<u64> },
    /// The pass is given up.
    Abort(CommandError),
}

pub enum BulkActionView {
    StopSync,
    LoadLocal,
    FetchManifest,
    Download { progress: ProgressView, provider_id: Seq<char> },
    Announce { progress: ProgressView },
    Persist { progress: ProgressView, entry: FullClipboardView, remote: Option<RemoteSummaryView> },
    Purge { progress: ProgressView, id: RecordId, error: TransformError, remote: Option<RemoteSummaryView> },
    Finish { resume_sync_after: Option<u64> },
    Abort(CommandError),
}

impl View for BulkAction {
    type V = BulkActionView;

    open spec fn view(&self) -> BulkActionView {
        match self {
            BulkAction::StopSync => BulkActionView::StopSync,
            BulkAction::LoadLocal => BulkActionView::LoadLocal,
            BulkAction::FetchManifest => BulkActionView::FetchManifest,
            BulkAction::Download { progress, provider_id } => BulkActionView::Download {
                progress: progress@,
                provider_id: provider_id@,
            },
            BulkAction::Announce { progress } => BulkActionView::Announce { progress: progress@ },
            BulkAction::Persist { progress, entry, remote } => BulkActionView::Persist {
                progress: progress@,
                entry: entry@,
                remote: optional_summary(*remote),
            },
            BulkAction::Purge { progress, id, error, remote } => BulkActionView::Purge {
                progress: progress@,
                id: *id,
                error: *error,
                remote: optional_summary(*remote),
            },
            BulkAction::Finish { resume_sync_after } => BulkActionView::Finish {
                resume_sync_after: *resume_sync_after,
            },
            BulkAction::Abort(e) => BulkActionView::Abort(*e),
        }
    }
}

/// A pass in progress: the working set gathered so far, the remote list, and
/// the place reached in whichever of the two is being walked.
pub struct BulkDecrypt {
    sync: bool,
    phase: BulkPhase,
    working: Vec<FullClipboardDto>,
    remotes: Vec<RemoteClipboardSummary>,
    cursor: usize,
}

pub struct BulkView {
    pub sync: bool,
    pub phase: BulkPhase,
    pub working: Seq<FullClipboardView>,
    pub remotes: Seq<RemoteSummaryView>,
    pub cursor: nat,
}

impl View for BulkDecrypt {
    type V = BulkView;

    closed spec fn view(&self) -> BulkView {
        BulkView {
            sync: self.sync,
            phase: self.phase,
            working: entry_views(self.working@),
            remotes: summary_views(self.remotes@),
            cursor: self.cursor as nat,
        }
    }
}

/// The first remote summary with the identity `id`, if there is one.
pub open spec fn remote_of(remotes: Seq<RemoteSummaryView>, id: RecordId) -> Option<RemoteSummaryView>
    decreases remotes.len(),
{
    if remotes.len() == 0 {
        None
    } else if remotes.first().id == id {
        Some(remotes.first())
    } else {
        remote_of(remotes.drop_first(), id)
    }
}

/// The remote counterpart of an entry: none while synchronisation is off.
pub open spec fn counterpart(sync: bool, remotes: Seq<RemoteSummaryView>, id: RecordId) -> Option<RemoteSummaryView> {
    if sync {
        remote_of(remotes, id)
    } else {
        None
    }
}

/// The progress event of the entry at `index` of `total`.
pub open spec fn progress_at(label: Seq<char>, total: nat, index: int) -> ProgressView {
    ProgressView { label, total, current: (index + 1) as nat }
}

/// What is to be done with the remote entry at `index`.
pub open spec fn download_action(remotes: Seq<RemoteSummaryView>, index: int) -> BulkActionView {
    let progress = progress_at(download_label(), remotes.len(), index);
    if remotes[index].encrypted {
        BulkActionView::Download { progress, provider_id: remotes[index].provider_id }
    } else {
        BulkActionView::Announce { progress }
    }
}

/// What is to be done with the entry at `index` of the working set: store
/// its plaintext where it decrypts, purge it where it does not.
pub open spec fn entry_action(
    key: Option<Seq<u8>>,
    sync: bool,
    remotes: Seq<RemoteSummaryView>,
    working: Seq<FullClipboardView>,
    index: int,
) -> BulkActionView {
    let progress = progress_at(decryption_label(), working.len(), index);
    let id = working[index].clipboard.id;
    let remote = counterpart(sync, remotes, id);
    match decrypted_clipboard(key, working[index]) {
        Ok(entry) => BulkActionView::Persist { progress, entry, remote },
        Err(error) => BulkActionView::Purge { progress, id, error, remote },
    }
}

/// The close of a pass: synchronisation is resumed where it was stopped.
pub open spec fn finish_action(sync: bool) -> BulkActionView {
    BulkActionView::Finish {
        resume_sync_after: if sync {
            Some(RESUME_DELAY_SECS)
        } else {
            None
        },
    }
}

/// The pass turns to the entry at `index`, or closes where there is none.
pub open spec fn process_from(state: BulkView, key: Option<Seq<u8>>, index: nat) -> (BulkView, BulkActionView) {
    if index < state.working.len() {
        (
            BulkView { phase: BulkPhase::Processing, cursor: index, ..state },
            entry_action(key, state.sync, state.remotes, state.working, index as int),
        )
    } else {
        (BulkView { phase: BulkPhase::Finished, cursor: index, ..state }, finish_action(state.sync))
    }
}

/// The pass turns to the remote entry at `index`, or to the working set
/// where there is none.
pub open spec fn download_from(state: BulkView, key: Option<Seq<u8>>, index: nat) -> (BulkView, BulkActionView) {
    if index < state.remotes.len() {
        (
            BulkView { phase: BulkPhase::Downloading, cursor: index, ..state },
            download_action(state.remotes, index as int),
        )
    } else {
        process_from(state, key, 0)
    }
}

/// The pass is given up.
pub open spec fn abort(state: BulkView, error: CommandError) -> (BulkView, BulkActionView) {
    (BulkView { phase: BulkPhase::Finished, ..state }, BulkActionView::Abort(error))
}

/// Whether a state is one that a pass can be in.
pub open spec fn well_formed(state: BulkView) -> bool {
    &&& state.phase == BulkPhase::Downloading ==> state.cursor < state.remotes.len()
    &&& state.phase == BulkPhase::Processing ==> state.cursor < state.working.len()
}

/// The transition relation of the pass: the state after `event`, and the
/// action that answers it. What a phase does not wait for ends the pass.
pub open spec fn next(state: BulkView, key: Option<Seq<u8>>, event: BulkEventView) -> (BulkView, BulkActionView) {
    match (state.phase, event) {
        (BulkPhase::Idle, BulkEventView::Start) => if state.sync {
            (BulkView { phase: BulkPhase::StoppingSync, ..state }, BulkActionView::StopSync)
        } else {
            (BulkView { phase: BulkPhase::LoadingLocal, ..state }, BulkActionView::LoadLocal)
        },
        (BulkPhase::StoppingSync, BulkEventView::SyncStopped) => (
            BulkView { phase: BulkPhase::LoadingLocal, ..state },
            BulkActionView::LoadLocal,
        ),
        (BulkPhase::LoadingLocal, BulkEventView::LocalLoaded(entries)) => if state.sync {
            (
                BulkView { phase: BulkPhase::FetchingManifest, working: entries, ..state },
                BulkActionView::FetchManifest,
            )
        } else {
            process_from(BulkView { working: entries, ..state }, key, 0)
        },
        (BulkPhase::LoadingLocal, BulkEventView::LoadFailed) => abort(state, CommandError::StorageFailed),
        (BulkPhase::FetchingManifest, BulkEventView::ManifestFetched(remotes)) => download_from(
            BulkView { remotes, ..state },
            key,
            0,
        ),
        (BulkPhase::FetchingManifest, BulkEventView::ManifestFailed) => abort(
            state,
            CommandError::RemoteFetchFailed,
        ),
        (BulkPhase::Downloading, BulkEventView::Downloaded(entry)) => if state.remotes[state.cursor as int].encrypted {
            download_from(BulkView { working: state.working.push(entry), ..state }, key, state.cursor + 1)
        } else {
            abort(state, CommandError::OutOfOrder)
        },
        (BulkPhase::Downloading, BulkEventView::NotDownloaded) => download_from(state, key, state.cursor + 1),
        (BulkPhase::Processing, BulkEventView::Applied) => process_from(state, key, state.cursor + 1),
        (BulkPhase::Processing, BulkEventView::StorageFailed) => abort(state, CommandError::StorageFailed),
        _ => abort(state, CommandError::OutOfOrder),
    }
}

/// Scanning from the front, the first summary whose identity matches is the
/// remote counterpart.
proof fn lemma_remote_found(remotes: Seq<RemoteSummaryView>, id: RecordId, at: int)
    requires
        0 <= at <= remotes.len(),
        forall|j: int| 0 <= j < at ==> remotes[j].id != id,
        at < remotes.len() ==> remotes[at].id == id,
    ensures
        remote_of(remotes, id) == if at < remotes.len() {
            Some(remotes[at])
        } else {
            None
        },
    decreases remotes.len(),
{
    if remotes.len() > 0 && at > 0 {
        let rest = remotes.drop_first();
        assert forall|j: int| 0 <= j < at - 1 implies rest[j].id != id by {
            assert(rest[j] == remotes[j + 1]);
        }
        lemma_remote_found(rest, id, at - 1);
    }
}

/// Looks up the remote counterpart of an entry.
fn find_remote(remotes: &Vec<RemoteClipboardSummary>, id: RecordId) -> (found: Option<RemoteClipboardSummary>)
    ensures
        optional_summary(found) == remote_of(summary_views(remotes@), id),
{
    let mut i: usize = 0;
    while i < remotes.len()
        invariant
            i <= remotes.len(),
            forall|j: int| 0 <= j < i ==> summary_views(remotes@)[j].id != id,
        decreases remotes.len() - i,
    {
        if remotes[i].id == id {
            proof {
                lemma_remote_found(summary_views(remotes@), id, i as int);
            }
            return Some(
                RemoteClipboardSummary {
                    id: remotes[i].id,
                    provider_id: remotes[i].provider_id.clone(),
                    encrypted: remotes[i].encrypted,
                },
            );
        }
        i += 1;
    }
    proof {
        lemma_remote_found(summary_views(remotes@), id, i as int);
    }
    None
}

impl BulkDecrypt {
    #[verifier::type_invariant]
    spec fn inv(self) -> bool {
        &&& self.phase == BulkPhase::Downloading ==> self.cursor < self.remotes.len()
        &&& self.phase == BulkPhase::Processing ==> self.cursor < self.working.len()
    }

    /// A pass that has not begun. `sync` says whether synchronisation with a
    /// remote provider is enabled.
    pub fn new(sync: bool) -> (pass: BulkDecrypt)
        ensures
            pass@ == (BulkView {
                sync,
                phase: BulkPhase::Idle,
                working: Seq::empty(),
                remotes: Seq::empty(),
                cursor: 0,
            }),
    {
        let pass = BulkDecrypt { sync, phase: BulkPhase::Idle, working: Vec::new(), remotes: Vec::new(), cursor: 0 };
        assert(entry_views(pass.working@) =~= Seq::empty());
        assert(summary_views(pass.remotes@) =~= Seq::empty());
        pass
    }

    /// Where the pass stands.
    pub fn phase(&self) -> (phase: BulkPhase)
        ensures
            phase == self@.phase,
    {
        self.phase
    }

    /// The action on the remote entry at `index`.
    fn download_step(&self, index: usize) -> (action: BulkAction)
        requires
            index < self.remotes.len(),
        ensures
            action@ == download_action(self@.remotes, index as int),
    {
        let progress = Progress {
            label: "SETTINGS.ENCRYPT.DOWNLOADING_REMOTE_CLIPBOARDS".to_owned(),
            total: self.remotes.len(),
            current: index + 1,
        };
        if self.remotes[index].encrypted {
            BulkAction::Download { progress, provider_id: self.remotes[index].provider_id.clone() }
        } else {
            BulkAction::Announce { progress }
        }
    }

    /// The action on the entry at `index` of the working set.
    fn entry_step(&self, keys: &KeyStore, index: usize) -> (action: BulkAction)
        requires
            index < self.working.len(),
        ensures
            action@ == entry_action(keys@, self@.sync, self@.remotes, self@.working, index as int),
    {
        let progress = Progress {
            label: "SETTINGS.ENCRYPT.DECRYPTION_PROGRESS".to_owned(),
            total: self.working.len(),
            current: index + 1,
        };
        let id = self.working[index].clipboard.id;
        let remote = if self.sync {
            find_remote(&self.remotes, id)
        } else {
            None
        };
        match decrypt_clipboard(keys, &self.working[index]) {
            Ok(entry) => BulkAction::Persist { progress, entry, remote },
            Err(error) => BulkAction::Purge { progress, id, error, remote },
        }
    }

    /// Turns to the entry at `index`, or closes the pass.
    fn turn_to_entry(self, keys: &KeyStore, index: usize) -> (turn: (BulkDecrypt, BulkAction))
        ensures
            (turn.0@, turn.1@) == process_from(self@, keys@, index as nat),
    {
        if index < self.working.len() {
            let action = self.entry_step(keys, index);
            (BulkDecrypt { phase: BulkPhase::Processing, cursor: index, ..self }, action)
        } else {
            let action = BulkAction::Finish {
                resume_sync_after: if self.sync {
                    Some(RESUME_DELAY_SECS)
                } else {
                    None
                },
            };
            (BulkDecrypt { phase: BulkPhase::Finished, cursor: index, ..self }, action)
        }
    }

    /// Turns to the remote entry at `index`, or to the working set.
    fn turn_to_remote(self, keys: &KeyStore, index: usize) -> (turn: (BulkDecrypt, BulkAction))
        ensures
            (turn.0@, turn.1@) == download_from(self@, keys@, index as nat),
    {
        if index < self.remotes.len() {
            let action = self.download_step(index);
            (BulkDecrypt { phase: BulkPhase::Downloading, cursor: index, ..self }, action)
        } else {
            self.turn_to_entry(keys, 0)
        }
    }

    /// Gives the pass up.
    fn give_up(self, error: CommandError) -> (turn: (BulkDecrypt, BulkAction))
        ensures
            (turn.0@, turn.1@) == abort(self@, error),
    {
        proof {
            use_type_invariant(&self);
        }
        (BulkDecrypt { phase: BulkPhase::Finished, ..self }, BulkAction::Abort(error))
    }

    /// Takes what the driver reports and answers with the state that
    /// follows and the next action, as `next` lays down. Entries are
    /// decrypted with the key that `keys` holds at the moment their turn
    /// comes.
    pub fn step(self, keys: &KeyStore, event: BulkEvent) -> (turn: (BulkDecrypt, BulkAction))
        ensures
            (turn.0@, turn.1@) == next(self@, keys@, event@),
            well_formed(turn.0@),
    {
        proof {
            use_type_invariant(&self);
        }
        let turn = match (self.phase, event) {
            (BulkPhase::Idle, BulkEvent::Start) => {
                if self.sync {
                    (BulkDecrypt { phase: BulkPhase::StoppingSync, ..self }, BulkAction::StopSync)
                } else {
                    (BulkDecrypt { phase: BulkPhase::LoadingLocal, ..self }, BulkAction::LoadLocal)
                }
            },
            (BulkPhase::StoppingSync, BulkEvent::SyncStopped) => (
                BulkDecrypt { phase: BulkPhase::LoadingLocal, ..self },
                BulkAction::LoadLocal,
            ),
            (BulkPhase::LoadingLocal, BulkEvent::LocalLoaded(entries)) => {
                if self.sync {
                    (
                        BulkDecrypt { phase: BulkPhase::FetchingManifest, working: entries, ..self },
                        BulkAction::FetchManifest,
                    )
                } else {
                    let loaded = BulkDecrypt { working: entries, ..self };
                    loaded.turn_to_entry(keys, 0)
                }
            },
            (BulkPhase::LoadingLocal, BulkEvent::LoadFailed) => self.give_up(CommandError::StorageFailed),
            (BulkPhase::FetchingManifest, BulkEvent::ManifestFetched(remotes)) => {
                let listed = BulkDecrypt { remotes, ..self };
                listed.turn_to_remote(keys, 0)
            },
            (BulkPhase::FetchingManifest, BulkEvent::ManifestFailed) => self.give_up(
                CommandError::RemoteFetchFailed,
            ),
            (BulkPhase::Downloading, BulkEvent::Downloaded(entry)) => {
                if self.remotes[self.cursor].encrypted {
                    let index = self.cursor + 1;
                    let BulkDecrypt { sync, phase, working, remotes, cursor } = self;
                    let ghost before = entry_views(working@);
                    let mut working = working;
                    working.push(entry);
                    assert(entry_views(working@) =~= before.push(entry@));
                    let grown = BulkDecrypt { sync, phase, working, remotes, cursor };
                    grown.turn_to_remote(keys, index)
                } else {
                    self.give_up(CommandError::OutOfOrder)
                }
            },
            (BulkPhase::Downloading, BulkEvent::NotDownloaded) => {
                let index = self.cursor + 1;
                self.turn_to_remote(keys, index)
            },
            (BulkPhase::Processing, BulkEvent::Applied) => {
                let index = self.cursor + 1;
                self.turn_to_entry(keys, index)
            },
            (BulkPhase::Processing, BulkEvent::StorageFailed) => self.give_up(CommandError::StorageFailed),
            _ => self.give_up(CommandError::OutOfOrder),
        };
        proof {
            use_type_invariant(&turn.0);
        }
        turn
    }
}

/// The actions that answer a run of events, in order.
pub open spec fn trace(state: BulkView, key: Option<Seq<u8>>, events: Seq<BulkEventView>) -> Seq<BulkActionView>
    decreases events.len(),
{
    if events.len() == 0 {
        Seq::empty()
    } else {
        let (following, action) = next(state, key, events.first());
        seq![action] + trace(following, key, events.drop_first())
    }
}

/// The actions of the decryption stage on a working set, one for each
/// entry, in order.
pub open spec fn pass_actions(
    key: Option<Seq<u8>>,
    sync: bool,
    remotes: Seq<RemoteSummaryView>,
    working: Seq<FullClipboardView>,
) -> Seq<BulkActionView> {
    Seq::new(working.len(), |i: int| entry_action(key, sync, remotes, working, i))
}

/// `count` reports that an action on an entry was carried out.
pub open spec fn applied(count: nat) -> Seq<BulkEventView> {
    Seq::new(count, |i: int| BulkEventView::Applied)
}

/// The progress event that an action on an entry or on a remote entry
/// starts with.
pub open spec fn progress_of(action: BulkActionView) -> Option<ProgressView> {
    match action {
        BulkActionView::Download { progress, .. } => Some(progress),
        BulkActionView::Announce { progress } => Some(progress),
        BulkActionView::Persist { progress, .. } => Some(progress),
        BulkActionView::Purge { progress, .. } => Some(progress),
        _ => None,
    }
}

/// From any entry on, a pass whose actions are all carried out takes the
/// remaining entries one by one and then closes: no failure to decrypt ends
/// it early.
pub proof fn lemma_pass_completes(state: BulkView, key: Option<Seq<u8>>, from: nat)
    requires
        from <= state.working.len(),
    ensures
        ({
            let (following, action) = process_from(state, key, from);
            seq![action] + trace(following, key, applied((state.working.len() - from) as nat))
        }) == pass_actions(key, state.sync, state.remotes, state.working).subrange(
            from as int,
            state.working.len() as int,
        ) + seq![finish_action(state.sync)],
    decreases state.working.len() - from,
{
    let total = state.working.len();
    let (following, action) = process_from(state, key, from);
    let events = applied((total - from) as nat);
    let all = pass_actions(key, state.sync, state.remotes, state.working);
    if from == total {
        assert(seq![action] + trace(following, key, events) =~= all.subrange(from as int, total as int)
            + seq![finish_action(state.sync)]);
    } else {
        lemma_pass_completes(state, key, from + 1);
        let (then, after) = process_from(state, key, from + 1);
        assert(next(following, key, events.first()) == process_from(following, key, from + 1));
        assert(process_from(following, key, from + 1) == (then, after));
        assert(events.drop_first() =~= applied((total - from - 1) as nat));
        assert(trace(following, key, events) == seq![after] + trace(
            then,
            key,
            applied((total - from - 1) as nat),
        ));
        assert(seq![action] + (all.subrange(from as int + 1, total as int) + seq![finish_action(state.sync)])
            =~= all.subrange(from as int, total as int) + seq![finish_action(state.sync)]);
    }
}

/// The events of a pass without synchronisation in which the store answers
/// and every action is carried out.
pub open spec fn local_run(working: Seq<FullClipboardView>) -> Seq<BulkEventView> {
    seq![BulkEventView::Start, BulkEventView::LocalLoaded(working)] + applied(working.len())
}

/// A pass without synchronisation over any working set asks for the local
/// entries, acts once on each entry in order, and closes without resuming
/// anything. It never aborts.
pub proof fn lemma_local_pass(key: Option<Seq<u8>>, working: Seq<FullClipboardView>)
    ensures
        trace(
            BulkView {
                sync: false,
                phase: BulkPhase::Idle,
                working: Seq::empty(),
                remotes: Seq::empty(),
                cursor: 0,
            },
            key,
            local_run(working),
        ) == seq![BulkActionView::LoadLocal] + pass_actions(key, false, Seq::empty(), working) + seq![
            finish_action(false),
        ],
{
    let idle = BulkView {
        sync: false,
        phase: BulkPhase::Idle,
        working: Seq::empty(),
        remotes: Seq::empty(),
        cursor: 0,
    };
    let events = local_run(working);
    let loading = BulkView { phase: BulkPhase::LoadingLocal, ..idle };
    let loaded = BulkView { working, ..loading };
    let rest = events.drop_first();
    assert(events.first() == BulkEventView::Start);
    assert(rest.first() == BulkEventView::LocalLoaded(working));
    assert(rest.drop_first() =~= applied(working.len()));
    lemma_pass_completes(loaded, key, 0);
    let (following, action) = process_from(loaded, key, 0);
    assert(next(loading, key, rest.first()) == (following, action));
    assert(trace(loading, key, rest) == seq![action] + trace(following, key, applied(working.len())));
    assert(trace(idle, key, events) == seq![BulkActionView::LoadLocal] + trace(loading, key, rest));
    let all = pass_actions(key, false, Seq::empty(), working);
    assert(all.subrange(0, working.len() as int) =~= all);
    assert(seq![BulkActionView::LoadLocal] + (all + seq![finish_action(false)]) =~= seq![
        BulkActionView::LoadLocal,
    ] + all + seq![finish_action(false)]);
}

/// The actions of the download stage on a remote list, one for each remote
/// entry, in order.
pub open spec fn download_actions(remotes: Seq<RemoteSummaryView>) -> Seq<BulkActionView> {
    Seq::new(remotes.len(), |i: int| download_action(remotes, i))
}

/// The reports of a download stage in which `fetched` says, for each remote
/// entry in order, what was downloaded for it, if anything.
pub open spec fn download_reports(fetched: Seq<Option<FullClipboardView>>) -> Seq<BulkEventView> {
    Seq::new(
        fetched.len(),
        |i: int|
            match fetched[i] {
                Some(entry) => BulkEventView::Downloaded(entry),
                None => BulkEventView::NotDownloaded,
            },
    )
}

/// The entries that were downloaded, in order.
pub open spec fn downloaded(fetched: Seq<Option<FullClipboardView>>) -> Seq<FullClipboardView>
    decreases fetched.len(),
{
    if fetched.len() == 0 {
        Seq::empty()
    } else {
        match fetched.first() {
            Some(entry) => seq![entry] + downloaded(fetched.drop_first()),
            None => downloaded(fetched.drop_first()),
        }
    }
}

/// Whether the downloads fit the remote list: there is an answer for each
/// remote entry, and an entry was downloaded only where one was asked for.
pub open spec fn downloads_fit(remotes: Seq<RemoteSummaryView>, fetched: Seq<Option<FullClipboardView>>) -> bool {
    &&& fetched.len() == remotes.len()
    &&& forall|i: int| 0 <= i < fetched.len() && #[trigger] fetched[i] is Some ==> remotes[i].encrypted
}

/// From any remote entry on, the download stage takes the remaining remote
/// entries one by one, adds what was downloaded to the working set, and then
/// the decryption stage runs over the whole set and the pass closes.
pub proof fn lemma_downloads_complete(
    state: BulkView,
    key: Option<Seq<u8>>,
    fetched: Seq<Option<FullClipboardView>>,
    from: nat,
)
    requires
        downloads_fit(state.remotes, fetched),
        from <= state.remotes.len(),
    ensures
        ({
            let rest = fetched.subrange(from as int, fetched.len() as int);
            let gathered = state.working + downloaded(rest);
            let (following, action) = download_from(state, key, from);
            seq![action] + trace(following, key, download_reports(rest) + applied(gathered.len()))
        }) == ({
            let rest = fetched.subrange(from as int, fetched.len() as int);
            let gathered = state.working + downloaded(rest);
            download_actions(state.remotes).subrange(from as int, state.remotes.len() as int) + pass_actions(
                key,
                state.sync,
                state.remotes,
                gathered,
            ) + seq![finish_action(state.sync)]
        }),
    decreases state.remotes.len() - from,
{
    let total = state.remotes.len();
    let rest = fetched.subrange(from as int, total as int);
    let gathered = state.working + downloaded(rest);
    let (following, action) = download_from(state, key, from);
    let events = download_reports(rest) + applied(gathered.len());
    let stage = download_actions(state.remotes);
    let closing = pass_actions(key, state.sync, state.remotes, gathered) + seq![finish_action(state.sync)];
    if from == total {
        assert(rest =~= Seq::empty());
        assert(gathered =~= state.working);
        assert(events =~= applied(state.working.len()));
        lemma_pass_completes(state, key, 0);
        let all = pass_actions(key, state.sync, state.remotes, state.working);
        assert(all.subrange(0, state.working.len() as int) =~= all);
        assert(stage.subrange(from as int, total as int) + pass_actions(
            key,
            state.sync,
            state.remotes,
            gathered,
        ) + seq![finish_action(state.sync)] =~= all + seq![finish_action(state.sync)]);
    } else {
        let later = fetched.subrange(from as int + 1, total as int);
        assert(rest.drop_first() =~= later);
        assert(rest.first() == fetched[from as int]);
        let grown = match fetched[from as int] {
            Some(entry) => BulkView { working: state.working.push(entry), ..state },
            None => state,
        };
        assert(grown.working + downloaded(later) =~= gathered);
        lemma_downloads_complete(grown, key, fetched, from + 1);
        let (then, after) = download_from(grown, key, from + 1);
        assert(events.first() == download_reports(rest)[0]);
        assert(events.drop_first() =~= download_reports(later) + applied(gathered.len()));
        match fetched[from as int] {
            Some(entry) => {
                assert(state.remotes[from as int].encrypted);
                assert(next(following, key, events.first()) == download_from(
                    BulkView { working: following.working.push(entry), ..following },
                    key,
                    from + 1,
                ));
            },
            None => {
                assert(next(following, key, events.first()) == download_from(following, key, from + 1));
            },
        }
        assert(next(following, key, events.first()) == (then, after));
        assert(trace(following, key, events) == seq![after] + trace(
            then,
            key,
            download_reports(later) + applied(gathered.len()),
        ));
        assert(seq![action] + (stage.subrange(from as int + 1, total as int) + pass_actions(
            key,
            state.sync,
            state.remotes,
            gathered,
        ) + seq![finish_action(state.sync)]) =~= stage.subrange(from as int, total as int) + pass_actions(
            key,
            state.sync,
            state.remotes,
            gathered,
        ) + seq![finish_action(state.sync)]);
    }
}

/// The events of a pass with synchronisation in which every service answers
/// and every action is carried out: `fetched` says what was downloaded for
/// each remote entry.
pub open spec fn synced_run(
    local: Seq<FullClipboardView>,
    remotes: Seq<RemoteSummaryView>,
    fetched: Seq<Option<FullClipboardView>>,
) -> Seq<BulkEventView> {
    seq![
        BulkEventView::Start,
        BulkEventView::SyncStopped,
        BulkEventView::LocalLoaded(local),
        BulkEventView::ManifestFetched(remotes),
    ] + download_reports(fetched) + applied((local + downloaded(fetched)).len())
}

/// A pass with synchronisation stops the sync loop, asks for the local
/// entries and for the remote list, visits every remote entry in order,
/// acts once on each entry of the local and the downloaded ones together, in
/// order, and closes by resuming synchronisation. A download that fails
/// leaves its entry out and ends nothing.
pub proof fn lemma_synced_pass(
    key: Option<Seq<u8>>,
    local: Seq<FullClipboardView>,
    remotes: Seq<RemoteSummaryView>,
    fetched: Seq<Option<FullClipboardView>>,
)
    requires
        downloads_fit(remotes, fetched),
    ensures
        trace(
            BulkView {
                sync: true,
                phase: BulkPhase::Idle,
                working: Seq::empty(),
                remotes: Seq::empty(),
                cursor: 0,
            },
            key,
            synced_run(local, remotes, fetched),
        ) == seq![BulkActionView::StopSync, BulkActionView::LoadLocal, BulkActionView::FetchManifest]
            + download_actions(remotes) + pass_actions(key, true, remotes, local + downloaded(fetched)) + seq![
            finish_action(true),
        ],
{
    let idle = BulkView {
        sync: true,
        phase: BulkPhase::Idle,
        working: Seq::empty(),
        remotes: Seq::empty(),
        cursor: 0,
    };
    let gathered = local + downloaded(fetched);
    let tail = download_reports(fetched) + applied(gathered.len());
    let e0 = synced_run(local, remotes, fetched);
    let e1 = e0.drop_first();
    let e2 = e1.drop_first();
    let e3 = e2.drop_first();
    assert(e0.first() == BulkEventView::Start);
    assert(e1.first() == BulkEventView::SyncStopped);
    assert(e2.first() == BulkEventView::LocalLoaded(local));
    assert(e3.first() == BulkEventView::ManifestFetched(remotes));
    assert(e3.drop_first() =~= tail);
    let stopping = BulkView { phase: BulkPhase::StoppingSync, ..idle };
    let loading = BulkView { phase: BulkPhase::LoadingLocal, ..idle };
    let fetching = BulkView { phase: BulkPhase::FetchingManifest, working: local, ..idle };
    let listed = BulkView { remotes, ..fetching };
    lemma_downloads_complete(listed, key, fetched, 0);
    assert(fetched.subrange(0, fetched.len() as int) =~= fetched);
    let (following, action) = download_from(listed, key, 0);
    assert(next(fetching, key, e3.first()) == (following, action));
    assert(trace(fetching, key, e3) == seq![action] + trace(following, key, tail));
    assert(trace(loading, key, e2) == seq![BulkActionView::FetchManifest] + trace(fetching, key, e3));
    assert(trace(stopping, key, e1) == seq![BulkActionView::LoadLocal] + trace(loading, key, e2));
    assert(trace(idle, key, e0) == seq![BulkActionView::StopSync] + trace(stopping, key, e1));
    let stage = download_actions(remotes);
    assert(stage.subrange(0, remotes.len() as int) =~= stage);
    let closing = stage + pass_actions(key, true, remotes, gathered) + seq![finish_action(true)];
    assert(seq![BulkActionView::StopSync] + (seq![BulkActionView::LoadLocal] + (seq![
        BulkActionView::FetchManifest,
    ] + closing)) =~= seq![
        BulkActionView::StopSync,
        BulkActionView::LoadLocal,
        BulkActionView::FetchManifest,
    ] + stage + pass_actions(key, true, remotes, gathered) + seq![finish_action(true)]);
}

/// Batch resilience. In a working set of which exactly the entry at
/// `corrupt` fails to decrypt, the decryption stage has one action for each
/// entry; their progress events count from one to the size of the set, in
/// order; every other entry is stored as its plaintext; and the corrupt
/// entry, and no other, is purged.
pub proof fn lemma_batch_resilience(
    key: Option<Seq<u8>>,
    sync: bool,
    remotes: Seq<RemoteSummaryView>,
    working: Seq<FullClipboardView>,
    corrupt: int,
)
    requires
        0 <= corrupt < working.len(),
        decrypted_clipboard(key, working[corrupt]) is Err,
        forall|i: int| 0 <= i < working.len() && i != corrupt ==> decrypted_clipboard(key, #[trigger] working[i]) is Ok,
    ensures
        pass_actions(key, sync, remotes, working).len() == working.len(),
        forall|i: int|
            0 <= i < working.len() ==> progress_of(#[trigger] pass_actions(key, sync, remotes, working)[i]) == Some(
                progress_at(decryption_label(), working.len(), i),
            ),
        forall|i: int|
            0 <= i < working.len() && i != corrupt ==> (#[trigger] pass_actions(key, sync, remotes, working)[i]
                matches BulkActionView::Persist { entry, .. } && Ok::<FullClipboardView, TransformError>(entry)
                == decrypted_clipboard(key, working[i])),
        pass_actions(key, sync, remotes, working)[corrupt] matches BulkActionView::Purge { id, error, .. } && id
            == working[corrupt].clipboard.id && Err::<FullClipboardView, TransformError>(error)
            == decrypted_clipboard(key, working[corrupt]),
{
    let all = pass_actions(key, sync, remotes, working);
    assert forall|i: int| 0 <= i < working.len() && i != corrupt implies (#[trigger] all[i]
        matches BulkActionView::Persist { entry, .. } && Ok::<FullClipboardView, TransformError>(entry)
        == decrypted_clipboard(key, working[i])) by {
        assert(decrypted_clipboard(key, working[i]) is Ok);
    }
}

} // verus!
