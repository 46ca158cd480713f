//! Per-drive lifecycle engine: the state of one drive, the events that reach
//! it, and the single transition function every writer must go through.
//!
//! The engine itself never renames, ejects or copies anything: each
//! transition hands back an action, and the surrounding process performs it
//! and feeds the outcome back in as the next event.

use vstd::prelude::*;
use crate::errors::CopyError;
use crate::metadata::ISOInfo;

verus! {

/// Where one drive stands in its current insertion cycle.
#[derive(Clone, Debug, PartialEq)]
pub enum DriveStatus {
    /// Initial value, before the engine's first transition.
    Setup,
    /// Waiting for media to appear.
    NoDisk,
    /// A copy of the inserted volume is running.
    Copying,
    /// The copy finished; an operator has yet to choose a file name.
    WaitingForName,
    /// The chosen name already exists; waiting for the overwrite answer.
    ConfirmingName,
    /// A name was settled; the staged artifact is to be committed under it.
    Saving(Vec<u8>),
    /// The cycle ended; waiting for the media to be removed.
    Done,
    /// The copy failed while writing the staged artifact.
    CopyWriteError,
    /// The copy failed while reading the media.
    CopyReadError,
}

/// One observation delivered to the engine, by the engine's own polling, by
/// the presence poller, or by the operator-facing layer.
#[derive(Debug, PartialEq)]
pub enum DriveEvent {
    /// Latest presence poll: does the drive hold media?
    Presence(bool),
    /// Outcome of the metadata fetch; `None` when it failed.
    Metadata(Option<ISOInfo>),
    /// Outcome of the streaming copy.
    CopyResult(Result<(), CopyError>),
    /// The operator confirmed a name; the flag says whether the target path
    /// already exists.
    NameChosen(Vec<u8>, bool),
    /// The operator declined to overwrite the existing target.
    OverwriteDeclined,
    /// The operator accepted overwriting, committing to this name.
    OverwriteAccepted(Vec<u8>),
    /// The engine looked at the state with nothing new to report.
    Tick,
}

/// What the caller must do after a transition.
#[derive(Clone, Debug, PartialEq)]
pub enum DriveAction {
    /// No outside work; deliver the next event when there is one.
    Nothing,
    /// Wait for the poll interval before observing again.
    Sleep,
    /// Fetch the volume metadata and report it back as `Metadata`.
    FetchMetadata,
    /// Create the staged artifact and run the copy over this volume.
    StartCopy(ISOInfo),
    /// Best-effort eject of the unreadable media; the outcome is dropped.
    Eject,
    /// Rename the staged artifact to the chosen name: the one commit point.
    Commit(Vec<u8>),
}

/// The transition table.  Any pair that is not a legal outgoing edge leaves
/// the state unchanged and asks for nothing, so illegal writes are rejected
/// rather than trusted not to happen.
pub open spec fn spec_drive_step(s: DriveStatus, e: DriveEvent) -> (DriveStatus, DriveAction) {
    match (s, e) {
        (DriveStatus::Setup, DriveEvent::Presence(false)) =>
            (DriveStatus::NoDisk, DriveAction::Sleep),
        (DriveStatus::Setup, DriveEvent::Presence(true)) =>
            (DriveStatus::NoDisk, DriveAction::FetchMetadata),
        (DriveStatus::NoDisk, DriveEvent::Presence(false)) =>
            (DriveStatus::NoDisk, DriveAction::Sleep),
        (DriveStatus::NoDisk, DriveEvent::Presence(true)) =>
            (DriveStatus::NoDisk, DriveAction::FetchMetadata),
        (DriveStatus::NoDisk, DriveEvent::Metadata(Some(info))) =>
            (DriveStatus::Copying, DriveAction::StartCopy(info)),
        (DriveStatus::NoDisk, DriveEvent::Metadata(None)) =>
            (DriveStatus::Done, DriveAction::Eject),
        (DriveStatus::Copying, DriveEvent::CopyResult(Ok(()))) =>
            (DriveStatus::WaitingForName, DriveAction::Nothing),
        (DriveStatus::Copying, DriveEvent::CopyResult(Err(CopyError::Read))) =>
            (DriveStatus::CopyReadError, DriveAction::Nothing),
        (DriveStatus::Copying, DriveEvent::CopyResult(Err(CopyError::Write))) =>
            (DriveStatus::CopyWriteError, DriveAction::Nothing),
        (DriveStatus::WaitingForName, DriveEvent::NameChosen(name, false)) =>
            (DriveStatus::Saving(name), DriveAction::Nothing),
        (DriveStatus::WaitingForName, DriveEvent::NameChosen(_, true)) =>
            (DriveStatus::ConfirmingName, DriveAction::Nothing),
        (DriveStatus::WaitingForName, DriveEvent::Tick) =>
            (DriveStatus::WaitingForName, DriveAction::Sleep),
        (DriveStatus::ConfirmingName, DriveEvent::OverwriteDeclined) =>
            (DriveStatus::WaitingForName, DriveAction::Nothing),
        (DriveStatus::ConfirmingName, DriveEvent::OverwriteAccepted(name)) =>
            (DriveStatus::Saving(name), DriveAction::Nothing),
        (DriveStatus::ConfirmingName, DriveEvent::Tick) =>
            (DriveStatus::ConfirmingName, DriveAction::Sleep),
        (DriveStatus::Saving(name), DriveEvent::Tick) =>
            (DriveStatus::Done, DriveAction::Commit(name)),
        (DriveStatus::Done, DriveEvent::Presence(false)) =>
            (DriveStatus::NoDisk, DriveAction::Nothing),
        (DriveStatus::Done, DriveEvent::Presence(true)) =>
            (DriveStatus::Done, DriveAction::Sleep),
        (DriveStatus::CopyReadError, DriveEvent::Presence(false)) =>
            (DriveStatus::NoDisk, DriveAction::Nothing),
        (DriveStatus::CopyReadError, DriveEvent::Presence(true)) =>
            (DriveStatus::CopyReadError, DriveAction::Sleep),
        (DriveStatus::CopyWriteError, DriveEvent::Presence(false)) =>
            (DriveStatus::NoDisk, DriveAction::Nothing),
        (DriveStatus::CopyWriteError, DriveEvent::Presence(true)) =>
            (DriveStatus::CopyWriteError, DriveAction::Sleep),
        (other, _) => (other, DriveAction::Nothing),
    }
}

/// Executable transition function; the one way a drive's state moves.
pub fn drive_step(s: DriveStatus, e: DriveEvent) -> (r: (DriveStatus, DriveAction))
    ensures
        r == spec_drive_step(s, e),
{
    match (s, e) {
        (DriveStatus::Setup, DriveEvent::Presence(false)) =>
            (DriveStatus::NoDisk, DriveAction::Sleep),
        (DriveStatus::Setup, DriveEvent::Presence(true)) =>
            (DriveStatus::NoDisk, DriveAction::FetchMetadata),
        (DriveStatus::NoDisk, DriveEvent::Presence(false)) =>
            (DriveStatus::NoDisk, DriveAction::Sleep),
        (DriveStatus::NoDisk, DriveEvent::Presence(true)) =>
            (DriveStatus::NoDisk, DriveAction::FetchMetadata),
        (DriveStatus::NoDisk, DriveEvent::Metadata(Some(info))) =>
            (DriveStatus::Copying, DriveAction::StartCopy(info)),
        (DriveStatus::NoDisk, DriveEvent::Metadata(None)) =>
            (DriveStatus::Done, DriveAction::Eject),
        (DriveStatus::Copying, DriveEvent::CopyResult(Ok(()))) =>
            (DriveStatus::WaitingForName, DriveAction::Nothing),
        (DriveStatus::Copying, DriveEvent::CopyResult(Err(CopyError::Read))) =>
            (DriveStatus::CopyReadError, DriveAction::Nothing),
        (DriveStatus::Copying, DriveEvent::CopyResult(Err(CopyError::Write))) =>
            (DriveStatus::CopyWriteError, DriveAction::Nothing),
        (DriveStatus::WaitingForName, DriveEvent::NameChosen(name, false)) =>
            (DriveStatus::Saving(name), DriveAction::Nothing),
        (DriveStatus::WaitingForName, DriveEvent::NameChosen(_, true)) =>
            (DriveStatus::ConfirmingName, DriveAction::Nothing),
        (DriveStatus::WaitingForName, DriveEvent::Tick) =>
            (DriveStatus::WaitingForName, DriveAction::Sleep),
        (DriveStatus::ConfirmingName, DriveEvent::OverwriteDeclined) =>
            (DriveStatus::WaitingForName, DriveAction::Nothing),
        (DriveStatus::ConfirmingName, DriveEvent::OverwriteAccepted(name)) =>
            (DriveStatus::Saving(name), DriveAction::Nothing),
        (DriveStatus::ConfirmingName, DriveEvent::Tick) =>
            (DriveStatus::ConfirmingName, DriveAction::Sleep),
        (DriveStatus::Saving(name), DriveEvent::Tick) =>
            (DriveStatus::Done, DriveAction::Commit(name)),
        (DriveStatus::Done, DriveEvent::Presence(false)) =>
            (DriveStatus::NoDisk, DriveAction::Nothing),
        (DriveStatus::Done, DriveEvent::Presence(true)) =>
            (DriveStatus::Done, DriveAction::Sleep),
        (DriveStatus::CopyReadError, DriveEvent::Presence(false)) =>
            (DriveStatus::NoDisk, DriveAction::Nothing),
        (DriveStatus::CopyReadError, DriveEvent::Presence(true)) =>
            (DriveStatus::CopyReadError, DriveAction::Sleep),
        (DriveStatus::CopyWriteError, DriveEvent::Presence(false)) =>
            (DriveStatus::NoDisk, DriveAction::Nothing),
        (DriveStatus::CopyWriteError, DriveEvent::Presence(true)) =>
            (DriveStatus::CopyWriteError, DriveAction::Sleep),
        (other, _) => (other, DriveAction::Nothing),
    }
}

/// The operator-facing status line for each state.
pub open spec fn spec_status_message(s: DriveStatus) -> Seq<char> {
    match s {
        DriveStatus::Setup => "Setting up..."@,
        DriveStatus::NoDisk => "No Disk."@,
        DriveStatus::Copying => "Copying..."@,
        DriveStatus::WaitingForName => "Check the \"Settings ready\" box to finish."@,
        DriveStatus::ConfirmingName => "Check the \"Settings ready\" box to finish."@,
        DriveStatus::Saving(_) => "Saving..."@,
        DriveStatus::Done => "Done."@,
        DriveStatus::CopyReadError => "Error reading disk."@,
        DriveStatus::CopyWriteError => "Error writing to output file."@,
    }
}

/// Human-readable message for a drive's current state.
pub fn get_drive_status_message_string(status: &DriveStatus) -> (m: &'static str)
    ensures
        m@ == spec_status_message(*status),
{
    match status {
        DriveStatus::Setup => "Setting up...",
        DriveStatus::NoDisk => "No Disk.",
        DriveStatus::Copying => "Copying...",
        DriveStatus::WaitingForName => "Check the \"Settings ready\" box to finish.",
        DriveStatus::ConfirmingName => "Check the \"Settings ready\" box to finish.",
        DriveStatus::Saving(_) => "Saving...",
        DriveStatus::Done => "Done.",
        DriveStatus::CopyReadError => "Error reading disk.",
        DriveStatus::CopyWriteError => "Error writing to output file.",
    }
}

/// Folds a whole event sequence through the transition table.
pub open spec fn run_steps(s: DriveStatus, events: Seq<DriveEvent>) -> DriveStatus
    decreases events.len(),
{
    if events.len() == 0 {
        s
    } else {
        run_steps(spec_drive_step(s, events[0]).0, events.drop_first())
    }
}

/// How many commits a run performs.
pub open spec fn count_commits(s: DriveStatus, events: Seq<DriveEvent>) -> int
    decreases events.len(),
{
    if events.len() == 0 {
        0
    } else {
        (if spec_drive_step(s, events[0]).1 is Commit { 1int } else { 0int })
            + count_commits(spec_drive_step(s, events[0]).0, events.drop_first())
    }
}

/// How many copies a run starts.
pub open spec fn count_copy_starts(s: DriveStatus, events: Seq<DriveEvent>) -> int
    decreases events.len(),
{
    if events.len() == 0 {
        0
    } else {
        (if spec_drive_step(s, events[0]).1 is StartCopy { 1int } else { 0int })
            + count_copy_starts(spec_drive_step(s, events[0]).0, events.drop_first())
    }
}

/// States in which an insertion cycle is under way: a copy was started and
/// the drive has not yet reached an end-of-cycle state.
pub open spec fn mid_cycle(s: DriveStatus) -> bool {
    s is Copying || s is WaitingForName || s is ConfirmingName || s is Saving
}

/// A drive without media stays put: while every presence poll reports
/// `false`, a drive in `NoDisk` remains in `NoDisk`, over any number of
/// polls.
pub proof fn lemma_no_disc_stays(events: Seq<DriveEvent>)
    requires
        forall|i: int| 0 <= i < events.len() ==> #[trigger] events[i]
            == DriveEvent::Presence(false),
    ensures
        run_steps(DriveStatus::NoDisk, events) == DriveStatus::NoDisk,
    decreases events.len(),
{
    if events.len() > 0 {
        assert(events[0] == DriveEvent::Presence(false));
        assert(forall|i: int| 0 <= i < events.drop_first().len()
            ==> #[trigger] events.drop_first()[i] == events[i + 1]);
        lemma_no_disc_stays(events.drop_first());
    }
}

/// A commit happens only while leaving `Saving` for `Done`, and commits the
/// very name that was being saved.
pub proof fn lemma_commit_only_from_saving(s: DriveStatus, e: DriveEvent)
    ensures
        spec_drive_step(s, e).1 is Commit ==> {
            &&& s is Saving
            &&& e == DriveEvent::Tick
            &&& spec_drive_step(s, e).0 is Done
            &&& spec_drive_step(s, e).1->Commit_0 == s->Saving_0
        },
{
}

/// A copy starts only out of `NoDisk`, on a successful metadata fetch, and
/// lands in `Copying`.
pub proof fn lemma_copy_starts_only_from_no_disk(s: DriveStatus, e: DriveEvent)
    ensures
        spec_drive_step(s, e).1 is StartCopy ==> {
            &&& s is NoDisk
            &&& e is Metadata
            &&& spec_drive_step(s, e).0 is Copying
        },
{
}

/// One step keeps the commit budget: a commit can only spend the one cycle
/// that is under way, and only starting a copy opens a new one.
proof fn lemma_step_commit_bound(s: DriveStatus, e: DriveEvent)
    ensures
        (if mid_cycle(spec_drive_step(s, e).0) { 1int } else { 0int })
            + (if spec_drive_step(s, e).1 is Commit { 1int } else { 0int })
        <= (if mid_cycle(s) { 1int } else { 0int })
            + (if spec_drive_step(s, e).1 is StartCopy { 1int } else { 0int }),
{
}

/// At most one commit per insertion: over any event sequence, a drive
/// commits no more often than it starts a copy — plus one commit for a
/// cycle already under way at the start.  No duplicate renames are possible,
/// however many polls pass before the operator acts.
pub proof fn lemma_one_commit_per_cycle(s: DriveStatus, events: Seq<DriveEvent>)
    ensures
        count_commits(s, events) <= count_copy_starts(s, events)
            + if mid_cycle(s) { 1int } else { 0int },
    decreases events.len(),
{
    if events.len() > 0 {
        lemma_step_commit_bound(s, events[0]);
        lemma_one_commit_per_cycle(spec_drive_step(s, events[0]).0, events.drop_first());
    }
}

/// Whether one step returns the drive to `NoDisc` waiting from a finished or
/// failed cycle — the reset that only media removal triggers.
pub open spec fn is_cycle_reset(s: DriveStatus, e: DriveEvent) -> bool {
    spec_drive_step(s, e).0 is NoDisk && !(s is NoDisk) && !(s is Setup)
}

/// How many times a run resets to waiting after a finished cycle.
pub open spec fn count_cycle_resets(s: DriveStatus, events: Seq<DriveEvent>) -> int
    decreases events.len(),
{
    if events.len() == 0 {
        0
    } else {
        (if is_cycle_reset(s, events[0]) { 1int } else { 0int })
            + count_cycle_resets(spec_drive_step(s, events[0]).0, events.drop_first())
    }
}

/// One step keeps the copy budget: only a reset to waiting makes another
/// copy start possible.
proof fn lemma_step_copy_bound(s: DriveStatus, e: DriveEvent)
    ensures
        (if spec_drive_step(s, e).0 is NoDisk || spec_drive_step(s, e).0 is Setup { 1int }
            else { 0int })
            + (if spec_drive_step(s, e).1 is StartCopy { 1int } else { 0int })
        <= (if s is NoDisk || s is Setup { 1int } else { 0int })
            + (if is_cycle_reset(s, e) { 1int } else { 0int }),
{
}

/// At most one copy per insertion: over any event sequence, a drive starts
/// no more copies than it has completed removal-and-reinsertion cycles —
/// plus one for a drive that begins the run waiting.
pub proof fn lemma_one_copy_per_insertion(s: DriveStatus, events: Seq<DriveEvent>)
    ensures
        count_copy_starts(s, events) <= count_cycle_resets(s, events)
            + if s is NoDisk || s is Setup { 1int } else { 0int },
    decreases events.len(),
{
    if events.len() > 0 {
        lemma_step_copy_bound(s, events[0]);
        lemma_one_copy_per_insertion(spec_drive_step(s, events[0]).0, events.drop_first());
    }
}

/// The naming decision from `WaitingForName`: a name whose target does not
/// exist goes straight to `Saving` with that very name; a name whose target
/// exists goes to `ConfirmingName` instead, committing nothing.
pub proof fn lemma_name_decision(name: Vec<u8>)
    ensures
        spec_drive_step(DriveStatus::WaitingForName, DriveEvent::NameChosen(name, false))
            == (DriveStatus::Saving(name), DriveAction::Nothing),
        spec_drive_step(DriveStatus::WaitingForName, DriveEvent::NameChosen(name, true))
            == (DriveStatus::ConfirmingName, DriveAction::Nothing),
{
}

/// From `ConfirmingName`, only an explicit overwrite acceptance ever reaches
/// `Saving` — no poll, timeout or other event does — and it saves exactly
/// the accepted name.
pub proof fn lemma_overwrite_needs_acceptance(e: DriveEvent)
    ensures
        spec_drive_step(DriveStatus::ConfirmingName, e).0 is Saving <==> e is OverwriteAccepted,
        e is OverwriteAccepted ==> spec_drive_step(DriveStatus::ConfirmingName, e).0->Saving_0
            == e->OverwriteAccepted_0,
{
}

/// One discovered drive: its device path, the presence flag the poller
/// maintains, and the lifecycle state.  The state can move only through
/// `apply`, so every writer follows the transition table.
pub struct DiskDrive {
    file: Vec<u8>,
    has_disk: bool,
    status: DriveStatus,
}

impl DiskDrive {
    /// Device path of this drive.
    pub closed spec fn spec_file(&self) -> Seq<u8> {
        self.file@
    }

    /// Latest presence poll result.
    pub closed spec fn spec_has_disk(&self) -> bool {
        self.has_disk
    }

    /// Current lifecycle state.
    pub closed spec fn spec_status(&self) -> DriveStatus {
        self.status
    }

    /// A freshly discovered drive: no media seen yet, not yet started.
    pub fn new(file: Vec<u8>) -> (d: DiskDrive)
        ensures
            d.spec_file() == file@,
            !d.spec_has_disk(),
            d.spec_status() is Setup,
    {
        DiskDrive { file, has_disk: false, status: DriveStatus::Setup }
    }

    pub fn file(&self) -> (f: &Vec<u8>)
        ensures
            f@ == self.spec_file(),
    {
        &self.file
    }

    pub fn has_disk(&self) -> (b: bool)
        ensures
            b == self.spec_has_disk(),
    {
        self.has_disk
    }

    pub fn status(&self) -> (s: &DriveStatus)
        ensures
            *s == self.spec_status(),
    {
        &self.status
    }

    /// The presence poller's sole write access: overwrites the flag with the
    /// newest poll result, touching nothing else.
    pub fn set_presence(&mut self, present: bool)
        ensures
            final(self).spec_file() == old(self).spec_file(),
            final(self).spec_status() == old(self).spec_status(),
            final(self).spec_has_disk() == present,
    {
        self.has_disk = present;
    }

    /// Applies one event through the transition table and returns the action
    /// owed for it.  Writes that are not a legal outgoing edge leave the
    /// state as it is.
    pub fn apply(&mut self, e: DriveEvent) -> (a: DriveAction)
        ensures
            final(self).spec_file() == old(self).spec_file(),
            final(self).spec_has_disk() == old(self).spec_has_disk(),
            (final(self).spec_status(), a) == spec_drive_step(old(self).spec_status(), e),
    {
        let mut taken = DriveStatus::Setup;
        core::mem::swap(&mut taken, &mut self.status);
        let (next, action) = drive_step(taken, e);
        self.status = next;
        action
    }
}

} // verus!
