//! Lifecycle state machine: verification, discovery, reveal, use and
//! conceal of the hidden volume.
//!
//! The machine decides; its caller does the outside work. Every input is a
//! method, and every method answers with the `Action` that the caller is to
//! perform next: load the stored credential, list disks, list partitions,
//! run the reveal or the conceal command. The caller hands the outcome of
//! the action back with the next input. Outside calls go through the retry
//! executor before their outcome is handed back.
//!
//! ```text
//! Unmounted -> Verifying -> Discovering -> Revealing -> Revealed
//!     ^            |             |             |           |
//!     +------------+-------------+-------------+      Concealing
//!     +----------------------------------------------------+
//! ```
//!
//! An input that the machine does not expect while it waits for the outcome
//! of an action makes it fail: it enters `Failed` with the reason. It does
//! not stay there: whatever comes next finds it `Unmounted`.

use vstd::prelude::*;
use crate::credential::check;
use crate::credential::credential_check;
use crate::credential::CredentialArtifact;
use crate::credential::CredentialArtifactView;
use crate::discovery::choose_disk;
use crate::discovery::choose_partition;
use crate::discovery::chosen_disk;
use crate::discovery::chosen_partition;
use crate::error::VaultError;
use crate::error::VaultErrorView;
use crate::mounts::active_designator;
use crate::mounts::find_active_designator;
use crate::mounts::CONCEALED_DESIGNATOR;
use crate::session::directory_entry;
use crate::session::file_entry;
use crate::session::file_views;
use crate::session::files_after_delete;
use crate::session::fresh_session;
use crate::session::is_listing_of;
use crate::session::read_outcome;
use crate::session::with_files;
use crate::session::SessionFile;
use crate::session::SessionRegistry;
use crate::session::VolumeSessionView;
use crate::text::decimal_of;
use crate::text::digits_of;
use crate::text::push_all;
use crate::text::push_str;
use crate::text::string_of;

verus! {

/// The state tags of the machine.
#[derive(Clone, Copy, Debug, PartialEq, Eq, Structural)]
pub enum LifecycleState {
    Unmounted,
    Verifying,
    Discovering,
    Revealing,
    Revealed,
    Concealing,
    Failed,
}

/// A partition and the designator under which it is, or is to be, mounted.
#[derive(Clone, Copy, Debug, PartialEq, Eq, Structural)]
pub struct MountDescriptor {
    pub designator: char,
    pub disk_index: u32,
    pub partition_number: u32,
}

/// What a status query gives: the state tag and, while a volume is
/// revealed, its designator.
#[derive(Clone, Copy, Debug, PartialEq, Eq, Structural)]
pub struct Status {
    pub state: LifecycleState,
    pub designator: Option<char>,
}

/// The state of the machine and what it remembers in it.
pub enum Phase {
    /// No volume is revealed and nothing is under way.
    Unmounted,
    /// An open request came; the stored credential is being loaded.
    Verifying { passphrase: String },
    /// The credential was accepted. The disk listing is being made, or,
    /// once a disk is chosen, the partition listing of that disk.
    Discovering { disk: Option<u32> },
    /// The reveal command is running.
    Revealing { target: MountDescriptor },
    /// The volume is revealed and its session is open.
    Revealed { volume: MountDescriptor, session_id: String },
    /// A close request came; the conceal command is running.
    Concealing { volume: MountDescriptor, session_id: String },
    /// An input came out of order.
    Failed { reason: VaultError },
}

/// The mathematical value of a `Phase`.
pub enum PhaseView {
    Unmounted,
    Verifying { passphrase: Seq<char> },
    Discovering { disk: Option<u32> },
    Revealing { target: MountDescriptor },
    Revealed { volume: MountDescriptor, session_id: Seq<char> },
    Concealing { volume: MountDescriptor, session_id: Seq<char> },
    Failed { reason: VaultErrorView },
}

impl View for Phase {
    type V = PhaseView;

    open spec fn view(&self) -> PhaseView {
        match self {
            Phase::Unmounted => PhaseView::Unmounted,
            Phase::Verifying { passphrase } => PhaseView::Verifying { passphrase: passphrase@ },
            Phase::Discovering { disk } => PhaseView::Discovering { disk: *disk },
            Phase::Revealing { target } => PhaseView::Revealing { target: *target },
            Phase::Revealed { volume, session_id } => PhaseView::Revealed {
                volume: *volume,
                session_id: session_id@,
            },
            Phase::Concealing { volume, session_id } => PhaseView::Concealing {
                volume: *volume,
                session_id: session_id@,
            },
            Phase::Failed { reason } => PhaseView::Failed { reason: reason@ },
        }
    }
}

/// What the caller is to do next.
#[derive(Debug)]
pub enum Action {
    /// Nothing.
    Idle,
    /// Load the stored credential artifact and the listing of mounted
    /// volumes, and hand both to `credential_loaded`.
    LoadCredential,
    /// List the disks, and hand the listing to `disks_listed`.
    ListDisks,
    /// List the partitions of this disk, and hand the listing to
    /// `partitions_listed`.
    ListPartitions { disk_index: u32 },
    /// Run the reveal command for this partition and designator, and hand
    /// its outcome to `reveal_finished`.
    Reveal(MountDescriptor),
    /// Run the conceal command for this partition and designator, and hand
    /// its outcome to `conceal_finished`.
    Conceal(MountDescriptor),
    /// Tell the client that the volume is revealed; its session has this
    /// identifier.
    Opened { session_id: String },
    /// Tell the client that the session is closed. The conceal command may
    /// have failed; that is a warning.
    Closed { warning: Option<VaultError> },
    /// Tell the client that what it asked for failed with this error.
    Rejected(VaultError),
}

/// The mathematical value of an `Action`.
pub enum ActionView {
    Idle,
    LoadCredential,
    ListDisks,
    ListPartitions { disk_index: u32 },
    Reveal(MountDescriptor),
    Conceal(MountDescriptor),
    Opened { session_id: Seq<char> },
    Closed { warning: Option<VaultErrorView> },
    Rejected(VaultErrorView),
}

impl View for Action {
    type V = ActionView;

    open spec fn view(&self) -> ActionView {
        match self {
            Action::Idle => ActionView::Idle,
            Action::LoadCredential => ActionView::LoadCredential,
            Action::ListDisks => ActionView::ListDisks,
            Action::ListPartitions { disk_index } => ActionView::ListPartitions {
                disk_index: *disk_index,
            },
            Action::Reveal(d) => ActionView::Reveal(*d),
            Action::Conceal(d) => ActionView::Conceal(*d),
            Action::Opened { session_id } => ActionView::Opened { session_id: session_id@ },
            Action::Closed { warning } => ActionView::Closed {
                warning: match warning {
                    Some(e) => Some(e@),
                    None => None,
                },
            },
            Action::Rejected(e) => ActionView::Rejected(e@),
        }
    }
}

// ---------------------------------------------------------------------------
// Scripts and names
// ---------------------------------------------------------------------------

/// The first two lines of a script: they select the disk and the partition.
pub open spec fn selection_lines(d: MountDescriptor) -> Seq<char> {
    "select disk "@ + digits_of(d.disk_index as nat) + "\nselect partition "@ + digits_of(
        d.partition_number as nat,
    ) + "\n"@
}

/// The script that reveals a partition: it selects the disk and the
/// partition and assigns the designator.
pub open spec fn reveal_script_text(d: MountDescriptor) -> Seq<char> {
    selection_lines(d) + "assign letter="@ + seq![d.designator] + "\n"@
}

/// The script that conceals a partition: it selects the disk and the
/// partition and removes the designator.
pub open spec fn conceal_script_text(d: MountDescriptor) -> Seq<char> {
    selection_lines(d) + "remove letter="@ + seq![d.designator] + "\n"@
}

/// The identifier of the session that is opened at the time `now`.
pub open spec fn session_name(now: u64) -> Seq<char> {
    "deepvault_session_"@ + digits_of(now as nat)
}

fn selection(d: &MountDescriptor) -> (out: Vec<char>)
    ensures
        out@ == selection_lines(*d),
{
    let mut out: Vec<char> = Vec::new();
    push_str(&mut out, "select disk ");
    push_all(&mut out, &decimal_of(d.disk_index as u64));
    push_str(&mut out, "\nselect partition ");
    push_all(&mut out, &decimal_of(d.partition_number as u64));
    push_str(&mut out, "\n");
    assert(out@ =~= selection_lines(*d));
    out
}

/// The script that reveals the partition of `d` under the designator of
/// `d`.
pub fn reveal_script(d: &MountDescriptor) -> (s: String)
    ensures
        s@ == reveal_script_text(*d),
{
    let mut out = selection(d);
    push_str(&mut out, "assign letter=");
    out.push(d.designator);
    push_str(&mut out, "\n");
    assert(out@ =~= reveal_script_text(*d));
    string_of(&out)
}

/// The script that conceals the partition of `d` by removing the designator
/// of `d`.
pub fn conceal_script(d: &MountDescriptor) -> (s: String)
    ensures
        s@ == conceal_script_text(*d),
{
    let mut out = selection(d);
    push_str(&mut out, "remove letter=");
    out.push(d.designator);
    push_str(&mut out, "\n");
    assert(out@ =~= conceal_script_text(*d));
    string_of(&out)
}

/// The identifier of the session that is opened at the time `now`, in
/// seconds since the epoch.
pub fn session_id_at(now: u64) -> (s: String)
    ensures
        s@ == session_name(now),
{
    let mut out: Vec<char> = Vec::new();
    push_str(&mut out, "deepvault_session_");
    push_all(&mut out, &decimal_of(now));
    string_of(&out)
}

// ---------------------------------------------------------------------------
// The transitions
// ---------------------------------------------------------------------------

/// The reason with which the machine fails on an input out of order.
pub open spec fn out_of_order() -> VaultErrorView {
    VaultErrorView::ExternalToolFailure("input out of order"@)
}

/// The state in which an input finds the machine: `Failed` has reset itself
/// to `Unmounted`.
pub open spec fn at_rest(phase: PhaseView) -> PhaseView {
    match phase {
        PhaseView::Failed { .. } => PhaseView::Unmounted,
        other => other,
    }
}

/// While the machine waits for the outcome of an action, an input that is
/// not that outcome makes it fail. With nothing under way, such an input is
/// passed over.
pub open spec fn unexpected(phase: PhaseView) -> (PhaseView, ActionView) {
    match phase {
        PhaseView::Unmounted => (PhaseView::Unmounted, ActionView::Idle),
        PhaseView::Revealed { .. } => (phase, ActionView::Idle),
        _ => (PhaseView::Failed { reason: out_of_order() }, ActionView::Rejected(out_of_order())),
    }
}

/// An open request. With nothing under way, verification begins. While a
/// volume is revealed, or being concealed, the request is refused with
/// `AlreadyRevealed`, and the volume is left as it is.
pub open spec fn after_open_request(phase: PhaseView, passphrase: Seq<char>) -> (
    PhaseView,
    ActionView,
) {
    match at_rest(phase) {
        PhaseView::Unmounted => (PhaseView::Verifying { passphrase }, ActionView::LoadCredential),
        PhaseView::Revealed { volume, .. } => (
            at_rest(phase),
            ActionView::Rejected(VaultErrorView::AlreadyRevealed(volume.designator)),
        ),
        PhaseView::Concealing { volume, .. } => (
            at_rest(phase),
            ActionView::Rejected(VaultErrorView::AlreadyRevealed(volume.designator)),
        ),
        other => unexpected(other),
    }
}

/// The stored credential and the listing of mounted volumes have been
/// loaded. The passphrase is checked; a failed check ends the attempt with
/// its error. Then the listing is looked through: a revealed concealed
/// volume ends the attempt with `AlreadyRevealed`. Else discovery begins.
pub open spec fn after_credential_loaded(
    phase: PhaseView,
    stored: Option<CredentialArtifactView>,
    mounts: Result<Seq<char>, VaultErrorView>,
) -> (PhaseView, ActionView) {
    match at_rest(phase) {
        PhaseView::Verifying { passphrase } => match credential_check(passphrase, stored) {
            Err(e) => (PhaseView::Unmounted, ActionView::Rejected(e)),
            Ok(()) => match mounts {
                Err(e) => (PhaseView::Unmounted, ActionView::Rejected(e)),
                Ok(listing) => match active_designator(listing) {
                    Some(c) => (
                        PhaseView::Unmounted,
                        ActionView::Rejected(VaultErrorView::AlreadyRevealed(c)),
                    ),
                    None => (PhaseView::Discovering { disk: None }, ActionView::ListDisks),
                },
            },
        },
        other => unexpected(other),
    }
}

/// The disks have been listed. A listing that could not be made, or that
/// names no online disk, ends the attempt. Else the disk is chosen and its
/// partitions are asked for.
pub open spec fn after_disks_listed(phase: PhaseView, listing: Result<Seq<char>, VaultErrorView>) -> (
    PhaseView,
    ActionView,
) {
    match at_rest(phase) {
        PhaseView::Discovering { disk: None } => match listing {
            Err(e) => (PhaseView::Unmounted, ActionView::Rejected(e)),
            Ok(text) => match chosen_disk(text) {
                None => (PhaseView::Unmounted, ActionView::Rejected(VaultErrorView::NoOnlineDisk)),
                Some(d) => (
                    PhaseView::Discovering { disk: Some(d) },
                    ActionView::ListPartitions { disk_index: d },
                ),
            },
        },
        other => unexpected(other),
    }
}

/// The partitions of the chosen disk have been listed. A listing that could
/// not be made, or that shows no concealed partition, ends the attempt.
/// Else the partition is to be revealed under the designator for concealed
/// volumes, which the check of the mounted volumes has found unused.
pub open spec fn after_partitions_listed(
    phase: PhaseView,
    listing: Result<Seq<char>, VaultErrorView>,
) -> (PhaseView, ActionView) {
    match at_rest(phase) {
        PhaseView::Discovering { disk: Some(d) } => match listing {
            Err(e) => (PhaseView::Unmounted, ActionView::Rejected(e)),
            Ok(text) => match chosen_partition(text, d) {
                None => (
                    PhaseView::Unmounted,
                    ActionView::Rejected(VaultErrorView::NoConcealedPartition),
                ),
                Some(p) => {
                    let target = MountDescriptor {
                        designator: CONCEALED_DESIGNATOR,
                        disk_index: d,
                        partition_number: p,
                    };
                    (PhaseView::Revealing { target }, ActionView::Reveal(target))
                },
            },
        },
        other => unexpected(other),
    }
}

/// The reveal command has ended, at the time `now`. Where it succeeded the
/// volume is revealed and its session is opened; where it failed the
/// attempt ends with `RevealFailed` and the command's diagnostic text.
pub open spec fn after_reveal_finished(phase: PhaseView, outcome: Result<(), Seq<char>>, now: u64) -> (
    PhaseView,
    ActionView,
) {
    match at_rest(phase) {
        PhaseView::Revealing { target } => match outcome {
            Ok(()) => (
                PhaseView::Revealed { volume: target, session_id: session_name(now) },
                ActionView::Opened { session_id: session_name(now) },
            ),
            Err(text) => (
                PhaseView::Unmounted,
                ActionView::Rejected(VaultErrorView::RevealFailed(text)),
            ),
        },
        other => unexpected(other),
    }
}

/// A close request for the session `session_id`. For the session of the
/// revealed volume, concealing begins. For any other identifier, and with
/// no volume revealed, the request is refused with `SessionNotFound`.
pub open spec fn after_close_request(phase: PhaseView, session_id: Seq<char>) -> (
    PhaseView,
    ActionView,
) {
    match at_rest(phase) {
        PhaseView::Revealed { volume, session_id: open } => if open == session_id {
            (PhaseView::Concealing { volume, session_id: open }, ActionView::Conceal(volume))
        } else {
            (at_rest(phase), ActionView::Rejected(VaultErrorView::SessionNotFound))
        },
        PhaseView::Unmounted => (
            PhaseView::Unmounted,
            ActionView::Rejected(VaultErrorView::SessionNotFound),
        ),
        other => unexpected(other),
    }
}

/// The conceal command has ended. Whether it succeeded or not, the machine
/// is `Unmounted` again; a failure is handed on as a warning.
pub open spec fn after_conceal_finished(phase: PhaseView, outcome: Result<(), Seq<char>>) -> (
    PhaseView,
    ActionView,
) {
    match at_rest(phase) {
        PhaseView::Concealing { .. } => (
            PhaseView::Unmounted,
            ActionView::Closed {
                warning: match outcome {
                    Ok(()) => None,
                    Err(text) => Some(VaultErrorView::ConcealFailed(text)),
                },
            },
        ),
        other => unexpected(other),
    }
}

/// The session that is open in a state: the one of the revealed volume,
/// until the conceal command has ended.
pub open spec fn open_session(phase: PhaseView) -> Option<(Seq<char>, MountDescriptor)> {
    match phase {
        PhaseView::Revealed { volume, session_id } => Some((session_id, volume)),
        PhaseView::Concealing { volume, session_id } => Some((session_id, volume)),
        _ => None,
    }
}

/// The sessions after an input that opens none: while the open session
/// stays the same, so do the sessions; once there is none, they are gone.
pub open spec fn sessions_kept(
    sessions: Map<Seq<char>, VolumeSessionView>,
    after: PhaseView,
) -> Map<Seq<char>, VolumeSessionView> {
    if open_session(after) is Some {
        sessions
    } else {
        Map::empty()
    }
}

/// The state tag of a state.
pub open spec fn state_tag(phase: PhaseView) -> LifecycleState {
    match phase {
        PhaseView::Unmounted => LifecycleState::Unmounted,
        PhaseView::Verifying { .. } => LifecycleState::Verifying,
        PhaseView::Discovering { .. } => LifecycleState::Discovering,
        PhaseView::Revealing { .. } => LifecycleState::Revealing,
        PhaseView::Revealed { .. } => LifecycleState::Revealed,
        PhaseView::Concealing { .. } => LifecycleState::Concealing,
        PhaseView::Failed { .. } => LifecycleState::Failed,
    }
}

/// What a status query gives in a state.
pub open spec fn status_of(phase: PhaseView) -> Status {
    Status {
        state: state_tag(phase),
        designator: match phase {
            PhaseView::Revealed { volume, .. } => Some(volume.designator),
            _ => None,
        },
    }
}

/// The view of a listing, or of the failure to make one.
pub open spec fn listing_view(listing: Result<String, VaultError>) -> Result<
    Seq<char>,
    VaultErrorView,
> {
    match listing {
        Ok(text) => Ok(text@),
        Err(e) => Err(e@),
    }
}

/// The view of the outcome of a command.
pub open spec fn outcome_view(outcome: Result<(), String>) -> Result<(), Seq<char>> {
    match outcome {
        Ok(()) => Ok(()),
        Err(text) => Err(text@),
    }
}

/// The view of what is stored as the credential.
pub open spec fn stored_view(stored: Option<CredentialArtifact>) -> Option<CredentialArtifactView> {
    match stored {
        Some(a) => Some(a@),
        None => None,
    }
}

// ---------------------------------------------------------------------------
// The machine
// ---------------------------------------------------------------------------

/// The lifecycle state machine, with the registry of the sessions that it
/// has opened.
pub struct Lifecycle {
    phase: Phase,
    registry: SessionRegistry,
}

/// The mathematical value of a `Lifecycle`.
pub struct LifecycleView {
    pub phase: PhaseView,
    pub sessions: Map<Seq<char>, VolumeSessionView>,
}

impl View for Lifecycle {
    type V = LifecycleView;

    closed spec fn view(&self) -> LifecycleView {
        LifecycleView { phase: self.phase@, sessions: self.registry@ }
    }
}

/// The sessions are those that the state accounts for: the session of the
/// revealed volume and no other; none where no volume is revealed.
pub open spec fn accounted(v: LifecycleView) -> bool {
    match open_session(v.phase) {
        Some((id, volume)) => v.sessions.dom() =~= set![id] && v.sessions[id].session_id == id
            && v.sessions[id].disk_index == volume.disk_index && v.sessions[id].partition_number
            == volume.partition_number,
        None => v.sessions =~= Map::empty(),
    }
}

fn fail_or_pass(phase: Phase, registry: SessionRegistry) -> (r: (Phase, SessionRegistry, Action))
    requires
        !(phase@ is Failed),
        accounted(LifecycleView { phase: phase@, sessions: registry@ }),
    ensures
        r.0@ == unexpected(phase@).0,
        r.2@ == unexpected(phase@).1,
        r.1@ == sessions_kept(registry@, r.0@),
        accounted(LifecycleView { phase: r.0@, sessions: r.1@ }),
{
    match phase {
        Phase::Unmounted => (Phase::Unmounted, registry, Action::Idle),
        Phase::Revealed { volume, session_id } => (
            Phase::Revealed { volume, session_id },
            registry,
            Action::Idle,
        ),
        _ => (
            Phase::Failed { reason: VaultError::ExternalToolFailure("input out of order".to_owned()) },
            SessionRegistry::new(),
            Action::Rejected(VaultError::ExternalToolFailure("input out of order".to_owned())),
        ),
    }
}

fn reset(phase: Phase) -> (r: Phase)
    ensures
        r@ == at_rest(phase@),
        !(r@ is Failed),
{
    match phase {
        Phase::Failed { .. } => Phase::Unmounted,
        other => other,
    }
}

impl Lifecycle {
    #[verifier::type_invariant]
    spec fn sound(&self) -> bool {
        accounted(LifecycleView { phase: self.phase@, sessions: self.registry@ })
    }

    /// A machine in the state `Unmounted`, with no session.
    pub fn new() -> (m: Self)
        ensures
            m@.phase == PhaseView::Unmounted,
            m@.sessions == Map::<Seq<char>, VolumeSessionView>::empty(),
    {
        Lifecycle { phase: Phase::Unmounted, registry: SessionRegistry::new() }
    }

    fn take(&mut self) -> (parts: (Phase, SessionRegistry))
        ensures
            parts.0@ == at_rest(old(self)@.phase),
            !(parts.0@ is Failed),
            parts.1@ == old(self)@.sessions,
            accounted(LifecycleView { phase: parts.0@, sessions: parts.1@ }),
            final(self)@.phase == PhaseView::Unmounted,
    {
        proof {
            use_type_invariant(&*self);
        }
        let mut taken = Lifecycle::new();
        std::mem::swap(self, &mut taken);
        let Lifecycle { phase, registry } = taken;
        (reset(phase), registry)
    }

    /// The state tag and, while a volume is revealed, its designator.
    pub fn get_status(&self) -> (s: Status)
        ensures
            s == status_of(self@.phase),
    {
        match &self.phase {
            Phase::Unmounted => Status { state: LifecycleState::Unmounted, designator: None },
            Phase::Verifying { .. } => Status { state: LifecycleState::Verifying, designator: None },
            Phase::Discovering { .. } => Status {
                state: LifecycleState::Discovering,
                designator: None,
            },
            Phase::Revealing { .. } => Status { state: LifecycleState::Revealing, designator: None },
            Phase::Revealed { volume, .. } => Status {
                state: LifecycleState::Revealed,
                designator: Some(volume.designator),
            },
            Phase::Concealing { .. } => Status {
                state: LifecycleState::Concealing,
                designator: None,
            },
            Phase::Failed { .. } => Status { state: LifecycleState::Failed, designator: None },
        }
    }

    /// The sessions are those that the state accounts for.
    pub fn sessions(&self) -> (r: &SessionRegistry)
        ensures
            r@ == self@.sessions,
            accounted(self@),
    {
        proof {
            use_type_invariant(self);
        }
        &self.registry
    }

    /// An open request with the passphrase `passphrase`.
    pub fn request_open(&mut self, passphrase: String) -> (action: Action)
        ensures
            final(self)@.phase == after_open_request(old(self)@.phase, passphrase@).0,
            action@ == after_open_request(old(self)@.phase, passphrase@).1,
            final(self)@.sessions == sessions_kept(old(self)@.sessions, final(self)@.phase),
    {
        let (phase, registry) = self.take();
        let (phase, registry, action) = match phase {
            Phase::Unmounted => (Phase::Verifying { passphrase }, registry, Action::LoadCredential),
            Phase::Revealed { volume, session_id } => (
                Phase::Revealed { volume, session_id },
                registry,
                Action::Rejected(VaultError::AlreadyRevealed(volume.designator)),
            ),
            Phase::Concealing { volume, session_id } => (
                Phase::Concealing { volume, session_id },
                registry,
                Action::Rejected(VaultError::AlreadyRevealed(volume.designator)),
            ),
            other => fail_or_pass(other, registry),
        };
        *self = Lifecycle { phase, registry };
        action
    }

    /// The stored credential artifact, if there is one, and the listing of
    /// the mounted volumes, or the failure to make it.
    pub fn credential_loaded(
        &mut self,
        stored: Option<CredentialArtifact>,
        mounts: Result<String, VaultError>,
    ) -> (action: Action)
        ensures
            final(self)@.phase == after_credential_loaded(
                old(self)@.phase,
                stored_view(stored),
                listing_view(mounts),
            ).0,
            action@ == after_credential_loaded(
                old(self)@.phase,
                stored_view(stored),
                listing_view(mounts),
            ).1,
            final(self)@.sessions == sessions_kept(old(self)@.sessions, final(self)@.phase),
    {
        let (phase, registry) = self.take();
        let (phase, registry, action) = match phase {
            Phase::Verifying { passphrase } => {
                match check(passphrase.as_str(), stored.as_ref()) {
                    Err(e) => (Phase::Unmounted, registry, Action::Rejected(e)),
                    Ok(()) => match mounts {
                        Err(e) => (Phase::Unmounted, registry, Action::Rejected(e)),
                        Ok(listing) => match find_active_designator(listing.as_str()) {
                            Some(c) => (
                                Phase::Unmounted,
                                registry,
                                Action::Rejected(VaultError::AlreadyRevealed(c)),
                            ),
                            None => (Phase::Discovering { disk: None }, registry, Action::ListDisks),
                        },
                    },
                }
            },
            other => fail_or_pass(other, registry),
        };
        *self = Lifecycle { phase, registry };
        action
    }

    /// The disk listing, or the failure to make it.
    pub fn disks_listed(&mut self, listing: Result<String, VaultError>) -> (action: Action)
        ensures
            final(self)@.phase == after_disks_listed(old(self)@.phase, listing_view(listing)).0,
            action@ == after_disks_listed(old(self)@.phase, listing_view(listing)).1,
            final(self)@.sessions == sessions_kept(old(self)@.sessions, final(self)@.phase),
    {
        let (phase, registry) = self.take();
        let (phase, registry, action) = match phase {
            Phase::Discovering { disk: None } => match listing {
                Err(e) => (Phase::Unmounted, registry, Action::Rejected(e)),
                Ok(text) => match choose_disk(text.as_str()) {
                    Err(e) => (Phase::Unmounted, registry, Action::Rejected(e)),
                    Ok(d) => (
                        Phase::Discovering { disk: Some(d) },
                        registry,
                        Action::ListPartitions { disk_index: d },
                    ),
                },
            },
            other => fail_or_pass(other, registry),
        };
        *self = Lifecycle { phase, registry };
        action
    }

    /// The partition listing of the chosen disk, or the failure to make it.
    pub fn partitions_listed(&mut self, listing: Result<String, VaultError>) -> (action: Action)
        ensures
            final(self)@.phase == after_partitions_listed(
                old(self)@.phase,
                listing_view(listing),
            ).0,
            action@ == after_partitions_listed(old(self)@.phase, listing_view(listing)).1,
            final(self)@.sessions == sessions_kept(old(self)@.sessions, final(self)@.phase),
    {
        let (phase, registry) = self.take();
        let (phase, registry, action) = match phase {
            Phase::Discovering { disk: Some(d) } => match listing {
                Err(e) => (Phase::Unmounted, registry, Action::Rejected(e)),
                Ok(text) => match choose_partition(text.as_str(), d) {
                    Err(e) => (Phase::Unmounted, registry, Action::Rejected(e)),
                    Ok(p) => {
                        let target = MountDescriptor {
                            designator: CONCEALED_DESIGNATOR,
                            disk_index: d,
                            partition_number: p,
                        };
                        (Phase::Revealing { target }, registry, Action::Reveal(target))
                    },
                },
            },
            other => fail_or_pass(other, registry),
        };
        *self = Lifecycle { phase, registry };
        action
    }

    /// The outcome of the reveal command: success, or the command's
    /// diagnostic text; and the time, in seconds since the epoch.
    pub fn reveal_finished(&mut self, outcome: Result<(), String>, now: u64) -> (action: Action)
        ensures
            final(self)@.phase == after_reveal_finished(
                old(self)@.phase,
                outcome_view(outcome),
                now,
            ).0,
            action@ == after_reveal_finished(old(self)@.phase, outcome_view(outcome), now).1,
            final(self)@.sessions == match (at_rest(old(self)@.phase), outcome) {
                (PhaseView::Revealing { target }, Ok(())) => Map::<
                    Seq<char>,
                    VolumeSessionView,
                >::empty().insert(
                    session_name(now),
                    fresh_session(session_name(now), target.disk_index, target.partition_number),
                ),
                _ => sessions_kept(old(self)@.sessions, final(self)@.phase),
            },
    {
        let (phase, registry) = self.take();
        let (phase, registry, action) = match phase {
            Phase::Revealing { target } => match outcome {
                Ok(()) => {
                    let mut registry = registry;
                    let session_id = session_id_at(now);
                    registry.open(session_id.clone(), target.disk_index, target.partition_number);
                    (
                        Phase::Revealed { volume: target, session_id: session_id.clone() },
                        registry,
                        Action::Opened { session_id },
                    )
                },
                Err(text) => (
                    Phase::Unmounted,
                    registry,
                    Action::Rejected(VaultError::RevealFailed(text)),
                ),
            },
            other => fail_or_pass(other, registry),
        };
        *self = Lifecycle { phase, registry };
        action
    }

    /// A close request for the session `session_id`.
    pub fn request_close(&mut self, session_id: &str) -> (action: Action)
        ensures
            final(self)@.phase == after_close_request(old(self)@.phase, session_id@).0,
            action@ == after_close_request(old(self)@.phase, session_id@).1,
            final(self)@.sessions == sessions_kept(old(self)@.sessions, final(self)@.phase),
    {
        let (phase, registry) = self.take();
        let (phase, registry, action) = match phase {
            Phase::Revealed { volume, session_id: open } => {
                if registry.contains(session_id) {
                    assert(open@ == session_id@);
                    (Phase::Concealing { volume, session_id: open }, registry, Action::Conceal(volume))
                } else {
                    assert(open@ != session_id@);
                    (
                        Phase::Revealed { volume, session_id: open },
                        registry,
                        Action::Rejected(VaultError::SessionNotFound),
                    )
                }
            },
            Phase::Unmounted => (
                Phase::Unmounted,
                registry,
                Action::Rejected(VaultError::SessionNotFound),
            ),
            other => fail_or_pass(other, registry),
        };
        *self = Lifecycle { phase, registry };
        action
    }

    /// The outcome of the conceal command: success, or the command's
    /// diagnostic text.
    pub fn conceal_finished(&mut self, outcome: Result<(), String>) -> (action: Action)
        ensures
            final(self)@.phase == after_conceal_finished(old(self)@.phase, outcome_view(outcome)).0,
            action@ == after_conceal_finished(old(self)@.phase, outcome_view(outcome)).1,
            final(self)@.sessions == sessions_kept(old(self)@.sessions, final(self)@.phase),
    {
        let (phase, registry) = self.take();
        let (phase, registry, action) = match phase {
            Phase::Concealing { .. } => (
                Phase::Unmounted,
                SessionRegistry::new(),
                Action::Closed {
                    warning: match outcome {
                        Ok(()) => None,
                        Err(text) => Some(VaultError::ConcealFailed(text)),
                    },
                },
            ),
            other => fail_or_pass(other, registry),
        };
        *self = Lifecycle { phase, registry };
        action
    }

    fn take_as_is(&mut self) -> (parts: (Phase, SessionRegistry))
        ensures
            parts.0@ == old(self)@.phase,
            parts.1@ == old(self)@.sessions,
            accounted(old(self)@),
            final(self)@.phase == PhaseView::Unmounted,
    {
        proof {
            use_type_invariant(&*self);
        }
        let mut taken = Lifecycle::new();
        std::mem::swap(self, &mut taken);
        let Lifecycle { phase, registry } = taken;
        (phase, registry)
    }

    /// The records of `parent_path`, and of what stands directly below it,
    /// in the session `session_id`. Fails with `SessionNotFound` unless the
    /// volume is revealed and the session is its session.
    pub fn list(&self, session_id: &str, parent_path: &str) -> (r: Result<
        Vec<SessionFile>,
        VaultError,
    >)
        ensures
            !serves(self@, session_id@) ==> r is Err && r->Err_0@
                == VaultErrorView::SessionNotFound,
            serves(self@, session_id@) ==> r is Ok && is_listing_of(
                file_views(r->Ok_0@),
                self@.sessions[session_id@].files,
                parent_path@,
            ),
    {
        match &self.phase {
            Phase::Revealed { .. } => self.registry.list(session_id, parent_path),
            _ => Err(VaultError::SessionNotFound),
        }
    }

    /// The content of the file at `path` in the session `session_id`. Fails
    /// with `SessionNotFound` unless the volume is revealed and the session
    /// is its session, with `FileNotFound` where the session has no record
    /// at `path`, and with `IsDirectory` where the record is a directory.
    pub fn read(&self, session_id: &str, path: &str) -> (r: Result<Vec<u8>, VaultError>)
        ensures
            !serves(self@, session_id@) ==> r is Err && r->Err_0@
                == VaultErrorView::SessionNotFound,
            serves(self@, session_id@) ==> match read_outcome(
                self@.sessions,
                session_id@,
                path@,
            ) {
                Ok(content) => r is Ok && r->Ok_0@ == content,
                Err(e) => r is Err && r->Err_0@ == e,
            },
    {
        match &self.phase {
            Phase::Revealed { .. } => self.registry.read(session_id, path),
            _ => Err(VaultError::SessionNotFound),
        }
    }

    /// Writes the file at `path` in the session `session_id`: puts a file
    /// record with the content `content`, written at `now`, in place of
    /// whatever the session held at `path`. Fails with `SessionNotFound`,
    /// and changes nothing, unless the volume is revealed and the session
    /// is its session.
    pub fn write(&mut self, session_id: &str, path: &str, content: Vec<u8>, now: i64) -> (r: Result<
        (),
        VaultError,
    >)
        ensures
            final(self)@.phase == old(self)@.phase,
            !serves(old(self)@, session_id@) ==> r is Err && r->Err_0@
                == VaultErrorView::SessionNotFound && final(self)@.sessions == old(self)@.sessions,
            serves(old(self)@, session_id@) ==> r is Ok && final(self)@.sessions == old(
                self,
            )@.sessions.insert(
                session_id@,
                with_files(
                    old(self)@.sessions[session_id@],
                    old(self)@.sessions[session_id@].files.insert(
                        path@,
                        file_entry(path@, content@, now),
                    ),
                ),
            ),
    {
        let (phase, registry) = self.take_as_is();
        let mut registry = registry;
        let result = match &phase {
            Phase::Revealed { .. } => registry.write(session_id, path, content, now),
            _ => Err(VaultError::SessionNotFound),
        };
        *self = Lifecycle { phase, registry };
        result
    }

    /// Makes the directory at `path` in the session `session_id`: puts a
    /// directory record, made at `now`, in place of whatever the session
    /// held at `path`. Fails with `SessionNotFound`, and changes nothing,
    /// unless the volume is revealed and the session is its session.
    pub fn create_directory(&mut self, session_id: &str, path: &str, now: i64) -> (r: Result<
        (),
        VaultError,
    >)
        ensures
            final(self)@.phase == old(self)@.phase,
            !serves(old(self)@, session_id@) ==> r is Err && r->Err_0@
                == VaultErrorView::SessionNotFound && final(self)@.sessions == old(self)@.sessions,
            serves(old(self)@, session_id@) ==> r is Ok && final(self)@.sessions == old(
                self,
            )@.sessions.insert(
                session_id@,
                with_files(
                    old(self)@.sessions[session_id@],
                    old(self)@.sessions[session_id@].files.insert(
                        path@,
                        directory_entry(path@, now),
                    ),
                ),
            ),
    {
        let (phase, registry) = self.take_as_is();
        let mut registry = registry;
        let result = match &phase {
            Phase::Revealed { .. } => registry.create_directory(session_id, path, now),
            _ => Err(VaultError::SessionNotFound),
        };
        *self = Lifecycle { phase, registry };
        result
    }

    /// Deletes the record at `path` in the session `session_id`, and with a
    /// directory, or a path without a slash, every record below it. Fails
    /// with `SessionNotFound` unless the volume is revealed and the session
    /// is its session, and with `FileNotFound` where the session has no
    /// record at `path`; it then changes nothing.
    pub fn delete(&mut self, session_id: &str, path: &str) -> (r: Result<(), VaultError>)
        ensures
            final(self)@.phase == old(self)@.phase,
            !serves(old(self)@, session_id@) ==> r is Err && r->Err_0@
                == VaultErrorView::SessionNotFound && final(self)@.sessions == old(self)@.sessions,
            serves(old(self)@, session_id@) && !old(self)@.sessions[session_id@].files.dom().contains(
                path@,
            ) ==> r is Err && r->Err_0@ == VaultErrorView::FileNotFound && final(self)@.sessions
                == old(self)@.sessions,
            serves(old(self)@, session_id@) && old(self)@.sessions[session_id@].files.dom().contains(
                path@,
            ) ==> r is Ok && final(self)@.sessions == old(self)@.sessions.insert(
                session_id@,
                with_files(
                    old(self)@.sessions[session_id@],
                    files_after_delete(old(self)@.sessions[session_id@].files, path@),
                ),
            ),
    {
        let (phase, registry) = self.take_as_is();
        let mut registry = registry;
        let result = match &phase {
            Phase::Revealed { .. } => registry.delete(session_id, path),
            _ => Err(VaultError::SessionNotFound),
        };
        *self = Lifecycle { phase, registry };
        result
    }
}

/// The machine serves the file operations of the session `session_id`: the
/// volume is revealed, and the session is its session.
pub open spec fn serves(v: LifecycleView, session_id: Seq<char>) -> bool {
    v.phase is Revealed && v.sessions.dom().contains(session_id)
}

// ---------------------------------------------------------------------------
// Consequences
// ---------------------------------------------------------------------------

/// Concealment after reveal always ends in `Unmounted`, with no session
/// left, whether the conceal command succeeds or not.
pub proof fn lemma_conceal_always_unmounts(
    phase: PhaseView,
    sessions: Map<Seq<char>, VolumeSessionView>,
    outcome: Result<(), Seq<char>>,
)
    requires
        phase is Revealed,
    ensures
        after_close_request(phase, phase->Revealed_session_id).0 is Concealing,
        after_conceal_finished(
            after_close_request(phase, phase->Revealed_session_id).0,
            outcome,
        ).0 == PhaseView::Unmounted,
        sessions_kept(
            sessions,
            after_conceal_finished(
                after_close_request(phase, phase->Revealed_session_id).0,
                outcome,
            ).0,
        ) == Map::<Seq<char>, VolumeSessionView>::empty(),
{
}

/// The machine does not stay in `Failed`: every input finds a failed
/// machine as it finds an unmounted one, and none leaves it failed.
pub proof fn lemma_failed_resets(
    reason: VaultErrorView,
    passphrase: Seq<char>,
    stored: Option<CredentialArtifactView>,
    listing: Result<Seq<char>, VaultErrorView>,
    outcome: Result<(), Seq<char>>,
    now: u64,
    session_id: Seq<char>,
)
    ensures
        ({
            let failed = PhaseView::Failed { reason };
            let idle = (PhaseView::Unmounted, ActionView::Idle);
            &&& after_open_request(failed, passphrase) == after_open_request(
                PhaseView::Unmounted,
                passphrase,
            )
            &&& after_open_request(failed, passphrase).0 is Verifying
            &&& after_credential_loaded(failed, stored, listing) == idle
            &&& after_disks_listed(failed, listing) == idle
            &&& after_partitions_listed(failed, listing) == idle
            &&& after_reveal_finished(failed, outcome, now) == idle
            &&& after_conceal_finished(failed, outcome) == idle
            &&& after_close_request(failed, session_id).0 == PhaseView::Unmounted
        }),
{
}

/// A designator is shown exactly while a volume is revealed, and a revealed
/// volume is left alone by an open request: the request is refused with
/// `AlreadyRevealed` and the volume's designator.
pub proof fn lemma_one_volume_at_a_time(phase: PhaseView, passphrase: Seq<char>)
    ensures
        status_of(phase).designator is Some <==> phase is Revealed,
        phase is Revealed ==> after_open_request(phase, passphrase) == (
            phase,
            ActionView::Rejected(VaultErrorView::AlreadyRevealed(phase->Revealed_volume.designator)),
        ),
{
}

} // verus!
