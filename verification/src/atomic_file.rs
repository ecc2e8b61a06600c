//! Atomic writes: the bytes go to a temporary file next to the destination, which then takes the
//! place of the destination in one step.

use vstd::prelude::*;

use crate::failure;
use crate::failure::Failure;
use crate::failure::FailureView;
use crate::model::Duplicate;
use crate::config;
use crate::path;
use crate::path::FilePath;
use crate::path::PathView;
use crate::temporary;

verus! {

// ---------------------------------------------------------------------------------------------
// Controls
// ---------------------------------------------------------------------------------------------

/// A point at which a write can be made to fail.
#[derive(Clone, Copy, Debug, PartialEq, Eq, Structural)]
pub enum FaultPoint {
    /// Before the temporary file is created.
    CreateTemporary,
    /// After the temporary file is written, before it is flushed.
    WriteTemporary,
    /// Before the temporary file is flushed.
    FlushTemporary,
    /// After the temporary file is flushed, before it replaces the destination.
    BeforeReplace,
    /// After the destination is replaced.
    AfterReplace,
    /// Before the directory is flushed.
    DirectoryFlush,
}

/// A point at which a write can be made to wait.
#[derive(Clone, Copy, Debug, PartialEq, Eq, Structural)]
pub enum BarrierPoint {
    /// Before the destination is replaced.
    BeforeReplace,
    /// After the destination is replaced.
    AfterReplace,
}

/// How a write is interfered with.
#[derive(Clone, Debug, PartialEq, Eq)]
pub enum WriteControl {
    /// Not at all.
    Plain,
    /// It fails at a point.
    Fault { point: FaultPoint },
    /// It leaves a marker and waits at a point.
    Barrier { point: BarrierPoint, marker: FilePath },
}

/// The deep view of a [`WriteControl`].
#[verifier::ext_equal]
pub enum ControlView {
    Plain,
    Fault { point: FaultPoint },
    Barrier { point: BarrierPoint, marker: PathView },
}

impl DeepView for WriteControl {
    type V = ControlView;

    open spec fn deep_view(&self) -> ControlView {
        match self {
            WriteControl::Plain => ControlView::Plain,
            WriteControl::Fault { point } => ControlView::Fault { point: *point },
            WriteControl::Barrier { point, marker } => ControlView::Barrier {
                point: *point,
                marker: marker.deep_view(),
            },
        }
    }
}

/// The text of an injected failure.
pub open spec fn fault_text(point: FaultPoint) -> Seq<char> {
    match point {
        FaultPoint::CreateTemporary => "injected failure during temporary creation"@,
        FaultPoint::WriteTemporary => "injected failure during temporary write"@,
        FaultPoint::FlushTemporary => "injected failure during temporary flush"@,
        FaultPoint::BeforeReplace => "injected failure before replacement"@,
        FaultPoint::AfterReplace => "injected failure after replacement"@,
        FaultPoint::DirectoryFlush => "injected failure during directory flush"@,
    }
}

/// An injected failure.
pub open spec fn injected(point: FaultPoint) -> FailureView {
    FailureView { causes: seq![fault_text(point)], server: None }
}

fn inject(point: FaultPoint) -> (failure: Failure)
    ensures
        failure.deep_view() == injected(point),
{
    match point {
        FaultPoint::CreateTemporary => Failure::of("injected failure during temporary creation"),
        FaultPoint::WriteTemporary => Failure::of("injected failure during temporary write"),
        FaultPoint::FlushTemporary => Failure::of("injected failure during temporary flush"),
        FaultPoint::BeforeReplace => Failure::of("injected failure before replacement"),
        FaultPoint::AfterReplace => Failure::of("injected failure after replacement"),
        FaultPoint::DirectoryFlush => Failure::of("injected failure during directory flush"),
    }
}

/// Whether a write fails at a point.
pub open spec fn fails_at(control: ControlView, point: FaultPoint) -> bool {
    control == (ControlView::Fault { point })
}

/// Whether a write waits at a point.
pub open spec fn waits_at(control: ControlView, point: BarrierPoint) -> bool {
    control is Barrier && control->Barrier_point == point
}

// ---------------------------------------------------------------------------------------------
// Phases, actions and events
// ---------------------------------------------------------------------------------------------

/// How often another temporary file is tried if one is there already.
pub const TEMPORARY_ATTEMPTS: u32 = 16;

/// What a write does next.
#[derive(Debug, PartialEq, Eq)]
pub enum WritePhase {
    EnsureDirectory,
    ChooseNonce { attempts: u32 },
    CreateTemporary { attempts: u32, nonce: u64 },
    ProtectTemporary { attempts: u32, nonce: u64 },
    CreateOwner { attempts: u32, nonce: u64 },
    DiscardTemporary { attempts: u32, nonce: u64 },
    ProtectAgain { nonce: u64 },
    WriteTemporary { nonce: u64 },
    FlushTemporary { nonce: u64 },
    WaitBefore { nonce: u64 },
    Replace { nonce: u64 },
    ProtectDestination { nonce: u64 },
    WaitAfter { nonce: u64 },
    FlushDirectory { nonce: u64 },
    RemoveOwner { nonce: u64 },
    CleanTemporary { nonce: u64, with_owner: bool, failure: Failure },
    CleanOwner { nonce: u64, failure: Failure },
    Done,
    Failed { failure: Failure },
}

/// The deep view of a [`WritePhase`].
#[verifier::ext_equal]
pub enum WritePhaseView {
    EnsureDirectory,
    ChooseNonce { attempts: u32 },
    CreateTemporary { attempts: u32, nonce: u64 },
    ProtectTemporary { attempts: u32, nonce: u64 },
    CreateOwner { attempts: u32, nonce: u64 },
    DiscardTemporary { attempts: u32, nonce: u64 },
    ProtectAgain { nonce: u64 },
    WriteTemporary { nonce: u64 },
    FlushTemporary { nonce: u64 },
    WaitBefore { nonce: u64 },
    Replace { nonce: u64 },
    ProtectDestination { nonce: u64 },
    WaitAfter { nonce: u64 },
    FlushDirectory { nonce: u64 },
    RemoveOwner { nonce: u64 },
    CleanTemporary { nonce: u64, with_owner: bool, failure: FailureView },
    CleanOwner { nonce: u64, failure: FailureView },
    Done,
    Failed { failure: FailureView },
}

impl DeepView for WritePhase {
    type V = WritePhaseView;

    open spec fn deep_view(&self) -> WritePhaseView {
        match self {
            WritePhase::EnsureDirectory => WritePhaseView::EnsureDirectory,
            WritePhase::ChooseNonce { attempts } => WritePhaseView::ChooseNonce {
                attempts: *attempts,
            },
            WritePhase::CreateTemporary { attempts, nonce } => WritePhaseView::CreateTemporary {
                attempts: *attempts,
                nonce: *nonce,
            },
            WritePhase::ProtectTemporary { attempts, nonce } => WritePhaseView::ProtectTemporary {
                attempts: *attempts,
                nonce: *nonce,
            },
            WritePhase::CreateOwner { attempts, nonce } => WritePhaseView::CreateOwner {
                attempts: *attempts,
                nonce: *nonce,
            },
            WritePhase::DiscardTemporary { attempts, nonce } => WritePhaseView::DiscardTemporary {
                attempts: *attempts,
                nonce: *nonce,
            },
            WritePhase::ProtectAgain { nonce } => WritePhaseView::ProtectAgain { nonce: *nonce },
            WritePhase::WriteTemporary { nonce } => WritePhaseView::WriteTemporary {
                nonce: *nonce,
            },
            WritePhase::FlushTemporary { nonce } => WritePhaseView::FlushTemporary {
                nonce: *nonce,
            },
            WritePhase::WaitBefore { nonce } => WritePhaseView::WaitBefore { nonce: *nonce },
            WritePhase::Replace { nonce } => WritePhaseView::Replace { nonce: *nonce },
            WritePhase::ProtectDestination { nonce } => WritePhaseView::ProtectDestination {
                nonce: *nonce,
            },
            WritePhase::WaitAfter { nonce } => WritePhaseView::WaitAfter { nonce: *nonce },
            WritePhase::FlushDirectory { nonce } => WritePhaseView::FlushDirectory {
                nonce: *nonce,
            },
            WritePhase::RemoveOwner { nonce } => WritePhaseView::RemoveOwner { nonce: *nonce },
            WritePhase::CleanTemporary { nonce, with_owner, failure } =>
                WritePhaseView::CleanTemporary {
                nonce: *nonce,
                with_owner: *with_owner,
                failure: failure.deep_view(),
            },
            WritePhase::CleanOwner { nonce, failure } => WritePhaseView::CleanOwner {
                nonce: *nonce,
                failure: failure.deep_view(),
            },
            WritePhase::Done => WritePhaseView::Done,
            WritePhase::Failed { failure } => WritePhaseView::Failed {
                failure: failure.deep_view(),
            },
        }
    }
}

/// An atomic write in progress.
#[derive(Debug, PartialEq, Eq)]
pub struct AtomicWrite {
    pub path: FilePath,
    /// How the destination is shown in messages.
    pub label: String,
    pub bytes: Vec<u8>,
    pub owner_pid: u32,
    pub control: WriteControl,
    pub phase: WritePhase,
}

/// The deep view of an [`AtomicWrite`].
#[verifier::ext_equal]
pub struct WriteView {
    pub path: PathView,
    pub label: Seq<char>,
    pub bytes: Seq<u8>,
    pub owner_pid: u32,
    pub control: ControlView,
    pub phase: WritePhaseView,
}

impl DeepView for AtomicWrite {
    type V = WriteView;

    open spec fn deep_view(&self) -> WriteView {
        WriteView {
            path: self.path.deep_view(),
            label: self.label@,
            bytes: self.bytes@,
            owner_pid: self.owner_pid,
            control: self.control.deep_view(),
            phase: self.phase.deep_view(),
        }
    }
}

/// What a write asks for.
#[derive(Debug, PartialEq, Eq)]
pub enum WriteAction {
    /// Make sure that a directory is there.
    EnsureDirectory { directory: String },
    /// Choose a nonce.
    ChooseNonce,
    /// Create a file that is not there yet.
    CreateNew { path: FilePath },
    /// Restrict the access to a file.
    Protect { path: FilePath },
    /// Create a file that is not there yet, with a text, and flush it.
    CreateText { path: FilePath, text: String },
    /// Write all of a file.
    Write { path: FilePath, bytes: Vec<u8> },
    /// Flush a file.
    Flush { path: FilePath },
    /// Leave a marker, and wait.
    Wait { marker: FilePath, text: String },
    /// Put a file in the place of another, in one step.
    Replace { from: FilePath, to: FilePath },
    /// Flush a directory.
    FlushDirectory { directory: String },
    /// Remove a file.
    Remove { path: FilePath },
    /// Nothing: the write is complete.
    Done,
    /// Nothing: the write failed.
    Failed { failure: Failure },
}

/// The deep view of a [`WriteAction`].
#[verifier::ext_equal]
pub enum WriteActionView {
    EnsureDirectory { directory: Seq<char> },
    ChooseNonce,
    CreateNew { path: PathView },
    Protect { path: PathView },
    CreateText { path: PathView, text: Seq<char> },
    Write { path: PathView, bytes: Seq<u8> },
    Flush { path: PathView },
    Wait { marker: PathView, text: Seq<char> },
    Replace { from: PathView, to: PathView },
    FlushDirectory { directory: Seq<char> },
    Remove { path: PathView },
    Done,
    Failed { failure: FailureView },
}

impl DeepView for WriteAction {
    type V = WriteActionView;

    open spec fn deep_view(&self) -> WriteActionView {
        match self {
            WriteAction::EnsureDirectory { directory } => WriteActionView::EnsureDirectory {
                directory: directory@,
            },
            WriteAction::ChooseNonce => WriteActionView::ChooseNonce,
            WriteAction::CreateNew { path } => WriteActionView::CreateNew {
                path: path.deep_view(),
            },
            WriteAction::Protect { path } => WriteActionView::Protect { path: path.deep_view() },
            WriteAction::CreateText { path, text } => WriteActionView::CreateText {
                path: path.deep_view(),
                text: text@,
            },
            WriteAction::Write { path, bytes } => WriteActionView::Write {
                path: path.deep_view(),
                bytes: bytes@,
            },
            WriteAction::Flush { path } => WriteActionView::Flush { path: path.deep_view() },
            WriteAction::Wait { marker, text } => WriteActionView::Wait {
                marker: marker.deep_view(),
                text: text@,
            },
            WriteAction::Replace { from, to } => WriteActionView::Replace {
                from: from.deep_view(),
                to: to.deep_view(),
            },
            WriteAction::FlushDirectory { directory } => WriteActionView::FlushDirectory {
                directory: directory@,
            },
            WriteAction::Remove { path } => WriteActionView::Remove { path: path.deep_view() },
            WriteAction::Done => WriteActionView::Done,
            WriteAction::Failed { failure } => WriteActionView::Failed {
                failure: failure.deep_view(),
            },
        }
    }
}

/// What came of an action.
#[derive(Debug, PartialEq, Eq)]
pub enum WriteEvent {
    /// It succeeded.
    Done,
    /// A nonce was chosen.
    Nonce { nonce: u64 },
    /// The file is there already.
    AlreadyExists,
    /// It failed.
    Failed { failure: Failure },
}

/// The deep view of a [`WriteEvent`].
#[verifier::ext_equal]
pub enum WriteEventView {
    Done,
    Nonce { nonce: u64 },
    AlreadyExists,
    Failed { failure: FailureView },
}

impl DeepView for WriteEvent {
    type V = WriteEventView;

    open spec fn deep_view(&self) -> WriteEventView {
        match self {
            WriteEvent::Done => WriteEventView::Done,
            WriteEvent::Nonce { nonce } => WriteEventView::Nonce { nonce: *nonce },
            WriteEvent::AlreadyExists => WriteEventView::AlreadyExists,
            WriteEvent::Failed { failure } => WriteEventView::Failed {
                failure: failure.deep_view(),
            },
        }
    }
}

/// The temporary file of a write under a nonce.
pub open spec fn temporary_file(write: WriteView, nonce: u64) -> PathView {
    temporary::temporary_of(write.path, write.owner_pid, nonce)
}

/// The file that names the owner of that file.
pub open spec fn owner_file(write: WriteView, nonce: u64) -> PathView {
    temporary::owner_of(temporary_file(write, nonce))
}

/// The marker that a write leaves where it waits.
pub open spec fn marker_of(write: WriteView) -> PathView {
    write.control->Barrier_marker
}

/// What a write asks for.
pub open spec fn action_of(write: WriteView) -> WriteActionView {
    match write.phase {
        WritePhaseView::EnsureDirectory => WriteActionView::EnsureDirectory {
            directory: write.path.directory,
        },
        WritePhaseView::ChooseNonce { .. } => WriteActionView::ChooseNonce,
        WritePhaseView::CreateTemporary { nonce, .. } => WriteActionView::CreateNew {
            path: temporary_file(write, nonce),
        },
        WritePhaseView::ProtectTemporary { nonce, .. } => WriteActionView::Protect {
            path: temporary_file(write, nonce),
        },
        WritePhaseView::CreateOwner { nonce, .. } => WriteActionView::CreateText {
            path: owner_file(write, nonce),
            text: temporary::owner_text(write.owner_pid, nonce),
        },
        WritePhaseView::DiscardTemporary { nonce, .. } => WriteActionView::Remove {
            path: temporary_file(write, nonce),
        },
        WritePhaseView::ProtectAgain { nonce } => WriteActionView::Protect {
            path: temporary_file(write, nonce),
        },
        WritePhaseView::WriteTemporary { nonce } => WriteActionView::Write {
            path: temporary_file(write, nonce),
            bytes: write.bytes,
        },
        WritePhaseView::FlushTemporary { nonce } => WriteActionView::Flush {
            path: temporary_file(write, nonce),
        },
        WritePhaseView::WaitBefore { .. } => WriteActionView::Wait {
            marker: marker_of(write),
            text: "before-replace"@,
        },
        WritePhaseView::Replace { nonce } => WriteActionView::Replace {
            from: temporary_file(write, nonce),
            to: write.path,
        },
        WritePhaseView::ProtectDestination { .. } => WriteActionView::Protect { path: write.path },
        WritePhaseView::WaitAfter { .. } => WriteActionView::Wait {
            marker: marker_of(write),
            text: "after-replace"@,
        },
        WritePhaseView::FlushDirectory { .. } => WriteActionView::FlushDirectory {
            directory: write.path.directory,
        },
        WritePhaseView::RemoveOwner { nonce } => WriteActionView::Remove {
            path: owner_file(write, nonce),
        },
        WritePhaseView::CleanTemporary { nonce, .. } => WriteActionView::Remove {
            path: temporary_file(write, nonce),
        },
        WritePhaseView::CleanOwner { nonce, .. } => WriteActionView::Remove {
            path: owner_file(write, nonce),
        },
        WritePhaseView::Done => WriteActionView::Done,
        WritePhaseView::Failed { failure } => WriteActionView::Failed { failure },
    }
}

/// Whether a write that waits has a marker.
pub open spec fn well_formed(write: WriteView) -> bool {
    &&& match write.phase {
        WritePhaseView::WaitBefore { .. } => write.control is Barrier,
        WritePhaseView::WaitAfter { .. } => write.control is Barrier,
        WritePhaseView::ChooseNonce { attempts } => attempts < TEMPORARY_ATTEMPTS,
        WritePhaseView::CreateTemporary { attempts, .. } => attempts < TEMPORARY_ATTEMPTS,
        WritePhaseView::ProtectTemporary { attempts, .. } => attempts < TEMPORARY_ATTEMPTS,
        WritePhaseView::CreateOwner { attempts, .. } => attempts < TEMPORARY_ATTEMPTS,
        WritePhaseView::DiscardTemporary { attempts, .. } => attempts < TEMPORARY_ATTEMPTS,
        _ => true,
    }
}

// ---------------------------------------------------------------------------------------------
// Steps
// ---------------------------------------------------------------------------------------------

/// What follows a temporary file, or the file that names its owner, that was there already.
pub open spec fn tried_again(write: WriteView, attempts: u32) -> WritePhaseView {
    if attempts + 1 < TEMPORARY_ATTEMPTS {
        WritePhaseView::ChooseNonce { attempts: (attempts + 1) as u32 }
    } else {
        WritePhaseView::Failed {
            failure: FailureView {
                causes: seq!["failed to allocate a unique temporary file for "@ + write.label],
                server: None,
            },
        }
    }
}

/// The removal of the temporary file and of the file that names its owner, after a failure.
pub open spec fn cleaned(nonce: u64, failure: FailureView) -> WritePhaseView {
    WritePhaseView::CleanTemporary { nonce, with_owner: true, failure }
}

/// What follows the directory that is there.
pub open spec fn directory_ensured(write: WriteView) -> WritePhaseView {
    if fails_at(write.control, FaultPoint::CreateTemporary) {
        WritePhaseView::Failed { failure: injected(FaultPoint::CreateTemporary) }
    } else {
        WritePhaseView::ChooseNonce { attempts: 0 }
    }
}

/// What follows the temporary file that is written.
pub open spec fn temporary_written(write: WriteView, nonce: u64) -> WritePhaseView {
    if fails_at(write.control, FaultPoint::WriteTemporary) {
        cleaned(nonce, injected(FaultPoint::WriteTemporary))
    } else if fails_at(write.control, FaultPoint::FlushTemporary) {
        cleaned(nonce, injected(FaultPoint::FlushTemporary))
    } else {
        WritePhaseView::FlushTemporary { nonce }
    }
}

/// What follows the temporary file that is flushed.
pub open spec fn temporary_flushed(write: WriteView, nonce: u64) -> WritePhaseView {
    if fails_at(write.control, FaultPoint::BeforeReplace) {
        cleaned(nonce, injected(FaultPoint::BeforeReplace))
    } else if waits_at(write.control, BarrierPoint::BeforeReplace) {
        WritePhaseView::WaitBefore { nonce }
    } else {
        WritePhaseView::Replace { nonce }
    }
}

/// What follows the point after the replacement.
pub open spec fn replacement_passed(write: WriteView, nonce: u64) -> WritePhaseView {
    if fails_at(write.control, FaultPoint::DirectoryFlush) {
        cleaned(nonce, injected(FaultPoint::DirectoryFlush))
    } else {
        WritePhaseView::FlushDirectory { nonce }
    }
}

/// What follows the destination that is replaced and protected.
pub open spec fn destination_protected(write: WriteView, nonce: u64) -> WritePhaseView {
    if fails_at(write.control, FaultPoint::AfterReplace) {
        cleaned(nonce, injected(FaultPoint::AfterReplace))
    } else if waits_at(write.control, BarrierPoint::AfterReplace) {
        WritePhaseView::WaitAfter { nonce }
    } else {
        replacement_passed(write, nonce)
    }
}

/// What follows an action that succeeded.
pub open spec fn after_success(write: WriteView) -> WritePhaseView {
    match write.phase {
        WritePhaseView::EnsureDirectory => directory_ensured(write),
        WritePhaseView::ChooseNonce { .. } => write.phase,
        WritePhaseView::CreateTemporary { attempts, nonce } => WritePhaseView::ProtectTemporary {
            attempts,
            nonce,
        },
        WritePhaseView::ProtectTemporary { attempts, nonce } => WritePhaseView::CreateOwner {
            attempts,
            nonce,
        },
        WritePhaseView::CreateOwner { nonce, .. } => WritePhaseView::ProtectAgain { nonce },
        WritePhaseView::DiscardTemporary { attempts, .. } => tried_again(write, attempts),
        WritePhaseView::ProtectAgain { nonce } => WritePhaseView::WriteTemporary { nonce },
        WritePhaseView::WriteTemporary { nonce } => temporary_written(write, nonce),
        WritePhaseView::FlushTemporary { nonce } => temporary_flushed(write, nonce),
        WritePhaseView::WaitBefore { nonce } => WritePhaseView::Replace { nonce },
        WritePhaseView::Replace { nonce } => WritePhaseView::ProtectDestination { nonce },
        WritePhaseView::ProtectDestination { nonce } => destination_protected(write, nonce),
        WritePhaseView::WaitAfter { nonce } => replacement_passed(write, nonce),
        WritePhaseView::FlushDirectory { nonce } => WritePhaseView::RemoveOwner { nonce },
        WritePhaseView::RemoveOwner { .. } => WritePhaseView::Done,
        WritePhaseView::CleanTemporary { nonce, with_owner, failure } => if with_owner {
            WritePhaseView::CleanOwner { nonce, failure }
        } else {
            WritePhaseView::Failed { failure }
        },
        WritePhaseView::CleanOwner { failure, .. } => WritePhaseView::Failed { failure },
        WritePhaseView::Done => write.phase,
        WritePhaseView::Failed { .. } => write.phase,
    }
}

/// What follows an action that failed. The removal of what may not be there cannot fail.
pub open spec fn after_failure(write: WriteView, failure: FailureView) -> WritePhaseView {
    match write.phase {
        WritePhaseView::EnsureDirectory => WritePhaseView::Failed { failure },
        WritePhaseView::ChooseNonce { .. } => WritePhaseView::Failed { failure },
        WritePhaseView::CreateTemporary { .. } => WritePhaseView::Failed { failure },
        WritePhaseView::ProtectTemporary { nonce, .. } => WritePhaseView::CleanTemporary {
            nonce,
            with_owner: false,
            failure: failure::in_context(failure, "failed to secure atomic temporary file"@),
        },
        WritePhaseView::CreateOwner { nonce, .. } => cleaned(nonce, failure),
        WritePhaseView::ProtectAgain { nonce } => cleaned(
            nonce,
            failure::in_context(failure, "failed to secure atomic temporary file"@),
        ),
        WritePhaseView::WriteTemporary { nonce } => cleaned(nonce, failure),
        WritePhaseView::FlushTemporary { nonce } => cleaned(nonce, failure),
        WritePhaseView::WaitBefore { nonce } => cleaned(nonce, failure),
        WritePhaseView::Replace { nonce } => cleaned(nonce, failure),
        WritePhaseView::ProtectDestination { nonce } => cleaned(
            nonce,
            failure::in_context(
                failure,
                "failed to preserve destination ACL after atomic replacement"@,
            ),
        ),
        WritePhaseView::WaitAfter { nonce } => cleaned(nonce, failure),
        WritePhaseView::FlushDirectory { nonce } => cleaned(nonce, failure),
        WritePhaseView::RemoveOwner { .. } => WritePhaseView::Failed { failure },
        _ => after_success(write),
    }
}

/// What follows an event. An event that does not belong to the action changes nothing.
pub open spec fn phase_after(write: WriteView, event: WriteEventView) -> WritePhaseView {
    match event {
        WriteEventView::Done => after_success(write),
        WriteEventView::Failed { failure } => after_failure(write, failure),
        WriteEventView::Nonce { nonce } => match write.phase {
            WritePhaseView::ChooseNonce { attempts } => WritePhaseView::CreateTemporary {
                attempts,
                nonce,
            },
            _ => write.phase,
        },
        WriteEventView::AlreadyExists => match write.phase {
            WritePhaseView::CreateTemporary { attempts, .. } => tried_again(write, attempts),
            WritePhaseView::CreateOwner { attempts, nonce } => WritePhaseView::DiscardTemporary {
                attempts,
                nonce,
            },
            _ => write.phase,
        },
    }
}

/// The write after an event.
pub open spec fn after_event(write: WriteView, event: WriteEventView) -> WriteView {
    WriteView { phase: phase_after(write, event), ..write }
}

/// The beginning of a write.
pub open spec fn starting(
    path: PathView,
    label: Seq<char>,
    bytes: Seq<u8>,
    owner_pid: u32,
    control: ControlView,
) -> WriteView {
    WriteView {
        path,
        label,
        bytes,
        owner_pid,
        control,
        phase: WritePhaseView::EnsureDirectory,
    }
}

/// Begins an atomic write by a process.
pub fn write(path: FilePath, label: String, bytes: Vec<u8>, owner_pid: u32) -> (write: AtomicWrite)
    ensures
        write.deep_view() == starting(
            path.deep_view(),
            label@,
            bytes@,
            owner_pid,
            ControlView::Plain,
        ),
        well_formed(write.deep_view()),
{
    AtomicWrite {
        path,
        label,
        bytes,
        owner_pid,
        control: WriteControl::Plain,
        phase: WritePhase::EnsureDirectory,
    }
}

/// Begins an atomic write that fails at a point.
pub fn write_with_fault(
    path: FilePath,
    label: String,
    bytes: Vec<u8>,
    owner_pid: u32,
    point: FaultPoint,
) -> (write: AtomicWrite)
    ensures
        write.deep_view() == starting(
            path.deep_view(),
            label@,
            bytes@,
            owner_pid,
            ControlView::Fault { point },
        ),
        well_formed(write.deep_view()),
{
    AtomicWrite {
        path,
        label,
        bytes,
        owner_pid,
        control: WriteControl::Fault { point },
        phase: WritePhase::EnsureDirectory,
    }
}

/// Begins an atomic write that leaves a marker and waits at a point.
pub fn write_with_barriers(
    path: FilePath,
    label: String,
    bytes: Vec<u8>,
    owner_pid: u32,
    point: BarrierPoint,
    marker: FilePath,
) -> (write: AtomicWrite)
    ensures
        write.deep_view() == starting(
            path.deep_view(),
            label@,
            bytes@,
            owner_pid,
            ControlView::Barrier { point, marker: marker.deep_view() },
        ),
        well_formed(write.deep_view()),
{
    AtomicWrite {
        path,
        label,
        bytes,
        owner_pid,
        control: WriteControl::Barrier { point, marker },
        phase: WritePhase::EnsureDirectory,
    }
}

fn clean(nonce: u64, failure: Failure) -> (phase: WritePhase)
    ensures
        phase.deep_view() == cleaned(nonce, failure.deep_view()),
{
    WritePhase::CleanTemporary { nonce, with_owner: true, failure }
}

impl AtomicWrite {
    fn temporary(&self, nonce: u64) -> (path: FilePath)
        ensures
            path.deep_view() == temporary_file(self.deep_view(), nonce),
    {
        temporary::temporary_path_with_identity(&self.path, self.owner_pid, nonce)
    }

    fn owner(&self, nonce: u64) -> (path: FilePath)
        ensures
            path.deep_view() == owner_file(self.deep_view(), nonce),
    {
        let temporary = self.temporary(nonce);
        temporary::owner_metadata_path(&temporary)
    }

    fn marker(&self) -> (path: FilePath)
        requires
            self.deep_view().control is Barrier,
        ensures
            path.deep_view() == marker_of(self.deep_view()),
    {
        match &self.control {
            WriteControl::Barrier { point: _, marker } => marker.duplicate(),
            _ => vstd::pervasive::unreached(),
        }
    }

    fn fails(&self, at: FaultPoint) -> (fails: bool)
        ensures
            fails == fails_at(self.deep_view().control, at),
    {
        match &self.control {
            WriteControl::Fault { point } => *point == at,
            _ => false,
        }
    }

    fn waits(&self, at: BarrierPoint) -> (waits: bool)
        ensures
            waits == waits_at(self.deep_view().control, at),
    {
        match &self.control {
            WriteControl::Barrier { point, marker: _ } => *point == at,
            _ => false,
        }
    }

    /// Tells what is to be done next.
    pub fn next_action(&self) -> (action: WriteAction)
        requires
            well_formed(self.deep_view()),
        ensures
            action.deep_view() == action_of(self.deep_view()),
    {
        match &self.phase {
            WritePhase::EnsureDirectory => WriteAction::EnsureDirectory {
                directory: self.path.directory.clone(),
            },
            WritePhase::ChooseNonce { .. } => WriteAction::ChooseNonce,
            WritePhase::CreateTemporary { attempts: _, nonce } => WriteAction::CreateNew {
                path: self.temporary(*nonce),
            },
            WritePhase::ProtectTemporary { attempts: _, nonce } => WriteAction::Protect {
                path: self.temporary(*nonce),
            },
            WritePhase::CreateOwner { attempts: _, nonce } => WriteAction::CreateText {
                path: self.owner(*nonce),
                text: temporary::owner_metadata(self.owner_pid, *nonce),
            },
            WritePhase::DiscardTemporary { attempts: _, nonce } => WriteAction::Remove {
                path: self.temporary(*nonce),
            },
            WritePhase::ProtectAgain { nonce } => WriteAction::Protect {
                path: self.temporary(*nonce),
            },
            WritePhase::WriteTemporary { nonce } => WriteAction::Write {
                path: self.temporary(*nonce),
                bytes: config::copy_bytes(self.bytes.as_slice()),
            },
            WritePhase::FlushTemporary { nonce } => WriteAction::Flush {
                path: self.temporary(*nonce),
            },
            WritePhase::WaitBefore { .. } => WriteAction::Wait {
                marker: self.marker(),
                text: "before-replace".to_owned(),
            },
            WritePhase::Replace { nonce } => WriteAction::Replace {
                from: self.temporary(*nonce),
                to: self.path.duplicate(),
            },
            WritePhase::ProtectDestination { .. } => WriteAction::Protect {
                path: self.path.duplicate(),
            },
            WritePhase::WaitAfter { .. } => WriteAction::Wait {
                marker: self.marker(),
                text: "after-replace".to_owned(),
            },
            WritePhase::FlushDirectory { .. } => WriteAction::FlushDirectory {
                directory: self.path.directory.clone(),
            },
            WritePhase::RemoveOwner { nonce } => WriteAction::Remove { path: self.owner(*nonce) },
            WritePhase::CleanTemporary { nonce, .. } => WriteAction::Remove {
                path: self.temporary(*nonce),
            },
            WritePhase::CleanOwner { nonce, .. } => WriteAction::Remove {
                path: self.owner(*nonce),
            },
            WritePhase::Done => WriteAction::Done,
            WritePhase::Failed { failure } => WriteAction::Failed { failure: failure.duplicate() },
        }
    }

    fn try_again(&self, attempts: u32) -> (phase: WritePhase)
        requires
            attempts < TEMPORARY_ATTEMPTS,
        ensures
            phase.deep_view() == tried_again(self.deep_view(), attempts),
    {
        if attempts + 1 < TEMPORARY_ATTEMPTS {
            WritePhase::ChooseNonce { attempts: attempts + 1 }
        } else {
            let mut message = "failed to allocate a unique temporary file for ".to_owned();
            message.append(self.label.as_str());
            WritePhase::Failed { failure: Failure::of(message.as_str()) }
        }
    }

    fn pass_replacement(&self, nonce: u64) -> (phase: WritePhase)
        ensures
            phase.deep_view() == replacement_passed(self.deep_view(), nonce),
    {
        if self.fails(FaultPoint::DirectoryFlush) {
            clean(nonce, inject(FaultPoint::DirectoryFlush))
        } else {
            WritePhase::FlushDirectory { nonce }
        }
    }

    fn succeed(&self, phase: WritePhase) -> (next: WritePhase)
        requires
            well_formed(WriteView { phase: phase.deep_view(), ..self.deep_view() }),
        ensures
            next.deep_view() == after_success(
                WriteView { phase: phase.deep_view(), ..self.deep_view() },
            ),
    {
        match phase {
            WritePhase::EnsureDirectory => if self.fails(FaultPoint::CreateTemporary) {
                WritePhase::Failed { failure: inject(FaultPoint::CreateTemporary) }
            } else {
                WritePhase::ChooseNonce { attempts: 0 }
            },
            WritePhase::ChooseNonce { attempts } => WritePhase::ChooseNonce { attempts },
            WritePhase::CreateTemporary { attempts, nonce } => WritePhase::ProtectTemporary {
                attempts,
                nonce,
            },
            WritePhase::ProtectTemporary { attempts, nonce } => WritePhase::CreateOwner {
                attempts,
                nonce,
            },
            WritePhase::CreateOwner { attempts: _, nonce } => WritePhase::ProtectAgain { nonce },
            WritePhase::DiscardTemporary { attempts, nonce: _ } => self.try_again(attempts),
            WritePhase::ProtectAgain { nonce } => WritePhase::WriteTemporary { nonce },
            WritePhase::WriteTemporary { nonce } => if self.fails(FaultPoint::WriteTemporary) {
                clean(nonce, inject(FaultPoint::WriteTemporary))
            } else if self.fails(FaultPoint::FlushTemporary) {
                clean(nonce, inject(FaultPoint::FlushTemporary))
            } else {
                WritePhase::FlushTemporary { nonce }
            },
            WritePhase::FlushTemporary { nonce } => if self.fails(FaultPoint::BeforeReplace) {
                clean(nonce, inject(FaultPoint::BeforeReplace))
            } else if self.waits(BarrierPoint::BeforeReplace) {
                WritePhase::WaitBefore { nonce }
            } else {
                WritePhase::Replace { nonce }
            },
            WritePhase::WaitBefore { nonce } => WritePhase::Replace { nonce },
            WritePhase::Replace { nonce } => WritePhase::ProtectDestination { nonce },
            WritePhase::ProtectDestination { nonce } => if self.fails(FaultPoint::AfterReplace) {
                clean(nonce, inject(FaultPoint::AfterReplace))
            } else if self.waits(BarrierPoint::AfterReplace) {
                WritePhase::WaitAfter { nonce }
            } else {
                self.pass_replacement(nonce)
            },
            WritePhase::WaitAfter { nonce } => self.pass_replacement(nonce),
            WritePhase::FlushDirectory { nonce } => WritePhase::RemoveOwner { nonce },
            WritePhase::RemoveOwner { nonce: _ } => WritePhase::Done,
            WritePhase::CleanTemporary { nonce, with_owner, failure } => if with_owner {
                WritePhase::CleanOwner { nonce, failure }
            } else {
                WritePhase::Failed { failure }
            },
            WritePhase::CleanOwner { nonce: _, failure } => WritePhase::Failed { failure },
            WritePhase::Done => WritePhase::Done,
            WritePhase::Failed { failure } => WritePhase::Failed { failure },
        }
    }

    fn fail(&self, phase: WritePhase, failure: Failure) -> (next: WritePhase)
        requires
            well_formed(WriteView { phase: phase.deep_view(), ..self.deep_view() }),
        ensures
            next.deep_view() == after_failure(
                WriteView { phase: phase.deep_view(), ..self.deep_view() },
                failure.deep_view(),
            ),
    {
        match phase {
            WritePhase::EnsureDirectory => WritePhase::Failed { failure },
            WritePhase::ChooseNonce { .. } => WritePhase::Failed { failure },
            WritePhase::CreateTemporary { .. } => WritePhase::Failed { failure },
            WritePhase::ProtectTemporary { attempts: _, nonce } => WritePhase::CleanTemporary {
                nonce,
                with_owner: false,
                failure: failure.context("failed to secure atomic temporary file"),
            },
            WritePhase::CreateOwner { attempts: _, nonce } => clean(nonce, failure),
            WritePhase::ProtectAgain { nonce } => clean(
                nonce,
                failure.context("failed to secure atomic temporary file"),
            ),
            WritePhase::WriteTemporary { nonce } => clean(nonce, failure),
            WritePhase::FlushTemporary { nonce } => clean(nonce, failure),
            WritePhase::WaitBefore { nonce } => clean(nonce, failure),
            WritePhase::Replace { nonce } => clean(nonce, failure),
            WritePhase::ProtectDestination { nonce } => clean(
                nonce,
                failure.context("failed to preserve destination ACL after atomic replacement"),
            ),
            WritePhase::WaitAfter { nonce } => clean(nonce, failure),
            WritePhase::FlushDirectory { nonce } => clean(nonce, failure),
            WritePhase::RemoveOwner { .. } => WritePhase::Failed { failure },
            other => self.succeed(other),
        }
    }

    /// Takes what came of the action.
    pub fn record_event(&mut self, event: WriteEvent)
        requires
            well_formed(old(self).deep_view()),
        ensures
            final(self).deep_view() == after_event(old(self).deep_view(), event.deep_view()),
            well_formed(final(self).deep_view()),
    {
        let mut phase = WritePhase::Done;
        std::mem::swap(&mut phase, &mut self.phase);
        let next = match event {
            WriteEvent::Done => self.succeed(phase),
            WriteEvent::Failed { failure } => self.fail(phase, failure),
            WriteEvent::Nonce { nonce } => match phase {
                WritePhase::ChooseNonce { attempts } => WritePhase::CreateTemporary {
                    attempts,
                    nonce,
                },
                other => other,
            },
            WriteEvent::AlreadyExists => match phase {
                WritePhase::CreateTemporary { attempts, nonce: _ } => self.try_again(attempts),
                WritePhase::CreateOwner { attempts, nonce } => WritePhase::DiscardTemporary {
                    attempts,
                    nonce,
                },
                other => other,
            },
        };
        self.phase = next;
    }
}

// ---------------------------------------------------------------------------------------------
// Laws
// ---------------------------------------------------------------------------------------------

/// What a file holds.
pub enum Contents {
    Bytes(Seq<u8>),
    Text(Seq<char>),
}

/// What a disk holds under a path.
pub open spec fn at(disk: Map<PathView, Contents>, path: PathView) -> Option<Contents> {
    if disk.dom().contains(path) {
        Some(disk[path])
    } else {
        None
    }
}

/// What an action does to a disk. A write or the creation of a text that fails may leave anything
/// in its file, here `torn`; a replacement happens in one step or not at all.
pub open spec fn disk_after(
    disk: Map<PathView, Contents>,
    action: WriteActionView,
    event: WriteEventView,
    torn: Option<Contents>,
) -> Map<PathView, Contents> {
    match action {
        WriteActionView::CreateNew { path } => if event is Done {
            disk.insert(path, Contents::Bytes(Seq::empty()))
        } else {
            disk
        },
        WriteActionView::CreateText { path, text } => if event is Done {
            disk.insert(path, Contents::Text(text))
        } else if event is Failed && torn is Some {
            disk.insert(path, torn->0)
        } else {
            disk
        },
        WriteActionView::Write { path, bytes } => if event is Done {
            disk.insert(path, Contents::Bytes(bytes))
        } else if event is Failed && torn is Some {
            disk.insert(path, torn->0)
        } else {
            disk
        },
        WriteActionView::Replace { from, to } => if event is Done {
            disk.insert(to, disk[from]).remove(from)
        } else {
            disk
        },
        WriteActionView::Remove { path } => if event is Done {
            disk.remove(path)
        } else {
            disk
        },
        _ => disk,
    }
}

/// Whether an event is one that a file system gives: a file is created only where there is none,
/// and the removal of a file fails only if it is not there.
pub open spec fn plausible(
    disk: Map<PathView, Contents>,
    action: WriteActionView,
    event: WriteEventView,
) -> bool {
    match action {
        WriteActionView::CreateNew { path } => event is Done ==> at(disk, path) is None,
        WriteActionView::CreateText { path, .. } => event is Done || event is Failed ==> at(
            disk,
            path,
        ) is None,
        WriteActionView::Remove { path } => event is Failed ==> at(disk, path) is None,
        _ => true,
    }
}

/// A step of a write: an event, and what a failed action left behind.
pub struct WriteStepView {
    pub event: WriteEventView,
    pub torn: Option<Contents>,
}

/// The write after some steps.
pub open spec fn written(start: WriteView, steps: Seq<WriteStepView>) -> WriteView
    decreases steps.len(),
{
    if steps.len() == 0 {
        start
    } else {
        after_event(written(start, steps.drop_last()), steps.last().event)
    }
}

/// The disk after some steps.
pub open spec fn disk_written(
    disk: Map<PathView, Contents>,
    start: WriteView,
    steps: Seq<WriteStepView>,
) -> Map<PathView, Contents>
    decreases steps.len(),
{
    if steps.len() == 0 {
        disk
    } else {
        disk_after(
            disk_written(disk, start, steps.drop_last()),
            action_of(written(start, steps.drop_last())),
            steps.last().event,
            steps.last().torn,
        )
    }
}

/// Whether all events of some steps are such as a file system gives.
pub open spec fn all_plausible(
    disk: Map<PathView, Contents>,
    start: WriteView,
    steps: Seq<WriteStepView>,
) -> bool
    decreases steps.len(),
{
    if steps.len() == 0 {
        true
    } else {
        &&& all_plausible(disk, start, steps.drop_last())
        &&& plausible(
            disk_written(disk, start, steps.drop_last()),
            action_of(written(start, steps.drop_last())),
            steps.last().event,
        )
    }
}

/// Whether the destination has been replaced for certain.
pub open spec fn replaced(phase: WritePhaseView) -> bool {
    match phase {
        WritePhaseView::ProtectDestination { .. } => true,
        WritePhaseView::WaitAfter { .. } => true,
        WritePhaseView::FlushDirectory { .. } => true,
        WritePhaseView::RemoveOwner { .. } => true,
        WritePhaseView::Done => true,
        _ => false,
    }
}

/// Whether it may have been replaced or not.
pub open spec fn ending(phase: WritePhaseView) -> bool {
    match phase {
        WritePhaseView::CleanTemporary { .. } => true,
        WritePhaseView::CleanOwner { .. } => true,
        WritePhaseView::Failed { .. } => true,
        _ => false,
    }
}

/// The nonce under which the temporary file holds the bytes to be written.
pub open spec fn complete_under(phase: WritePhaseView) -> Option<u64> {
    match phase {
        WritePhaseView::FlushTemporary { nonce } => Some(nonce),
        WritePhaseView::WaitBefore { nonce } => Some(nonce),
        WritePhaseView::Replace { nonce } => Some(nonce),
        _ => None,
    }
}

/// What holds of the destination at any time.
pub open spec fn destination_intact(
    write: WriteView,
    first: Map<PathView, Contents>,
    disk: Map<PathView, Contents>,
) -> bool {
    let old = at(first, write.path);
    let new = Some(Contents::Bytes(write.bytes));
    let now = at(disk, write.path);
    &&& replaced(write.phase) ==> now == new
    &&& ending(write.phase) ==> now == old || now == new
    &&& !replaced(write.phase) && !ending(write.phase) ==> now == old
    &&& match complete_under(write.phase) {
        Some(nonce) => at(disk, temporary_file(write, nonce)) == new,
        None => true,
    }
}

proof fn lemma_paths_differ(write: WriteView, nonce: u64)
    ensures
        temporary_file(write, nonce) != write.path,
        owner_file(write, nonce) != write.path,
        owner_file(write, nonce) != temporary_file(write, nonce),
{
    reveal_strlit(".owner");
    let temporary = temporary_file(write, nonce);
    let suffix = temporary::identity_suffix(write.owner_pid, nonce);
    assert(suffix.len() >= 5);
    temporary::lemma_suffix_changes_path(write.path, suffix);
    temporary::lemma_suffix_changes_path(temporary, ".owner"@);
    assert(owner_file(write, nonce) == path::with_suffix(write.path, suffix + ".owner"@)) by {
        assert(path::name_or_empty(write.path) + suffix + ".owner"@ =~= path::name_or_empty(
            write.path,
        ) + (suffix + ".owner"@));
    }
    temporary::lemma_suffix_changes_path(write.path, suffix + ".owner"@);
}

/// The nonce that a phase works with.
pub open spec fn nonce_of(phase: WritePhaseView) -> u64 {
    match phase {
        WritePhaseView::CreateTemporary { nonce, .. } => nonce,
        WritePhaseView::ProtectTemporary { nonce, .. } => nonce,
        WritePhaseView::CreateOwner { nonce, .. } => nonce,
        WritePhaseView::DiscardTemporary { nonce, .. } => nonce,
        WritePhaseView::ProtectAgain { nonce } => nonce,
        WritePhaseView::WriteTemporary { nonce } => nonce,
        WritePhaseView::FlushTemporary { nonce } => nonce,
        WritePhaseView::WaitBefore { nonce } => nonce,
        WritePhaseView::Replace { nonce } => nonce,
        WritePhaseView::ProtectDestination { nonce } => nonce,
        WritePhaseView::WaitAfter { nonce } => nonce,
        WritePhaseView::FlushDirectory { nonce } => nonce,
        WritePhaseView::RemoveOwner { nonce } => nonce,
        WritePhaseView::CleanTemporary { nonce, .. } => nonce,
        WritePhaseView::CleanOwner { nonce, .. } => nonce,
        _ => 0,
    }
}

/// Whatever happens during a write, and wherever it is cut short, the destination holds either
/// what it held before or all of the new bytes, never anything else: what it held before as long
/// as the replacement has not happened, and the new bytes from then on.
pub proof fn destination_is_old_or_new(
    disk: Map<PathView, Contents>,
    start: WriteView,
    steps: Seq<WriteStepView>,
)
    requires
        start.phase is EnsureDirectory,
    ensures
        written(start, steps).path == start.path,
        written(start, steps).bytes == start.bytes,
        written(start, steps).owner_pid == start.owner_pid,
        destination_intact(written(start, steps), disk, disk_written(disk, start, steps)),
    decreases steps.len(),
{
    if steps.len() > 0 {
        destination_is_old_or_new(disk, start, steps.drop_last());
        let before = written(start, steps.drop_last());
        lemma_paths_differ(before, nonce_of(before.phase));
    }
}

/// Whether a temporary file of the write may be on the disk.
pub open spec fn has_temporary(phase: WritePhaseView) -> bool {
    match phase {
        WritePhaseView::ProtectTemporary { .. } => true,
        WritePhaseView::CreateOwner { .. } => true,
        WritePhaseView::DiscardTemporary { .. } => true,
        WritePhaseView::ProtectAgain { .. } => true,
        WritePhaseView::WriteTemporary { .. } => true,
        WritePhaseView::FlushTemporary { .. } => true,
        WritePhaseView::WaitBefore { .. } => true,
        WritePhaseView::Replace { .. } => true,
        WritePhaseView::CleanTemporary { .. } => true,
        _ => false,
    }
}

/// Whether a file that names the owner may be on the disk.
pub open spec fn has_owner(phase: WritePhaseView) -> bool {
    match phase {
        WritePhaseView::ProtectAgain { .. } => true,
        WritePhaseView::WriteTemporary { .. } => true,
        WritePhaseView::FlushTemporary { .. } => true,
        WritePhaseView::WaitBefore { .. } => true,
        WritePhaseView::Replace { .. } => true,
        WritePhaseView::ProtectDestination { .. } => true,
        WritePhaseView::WaitAfter { .. } => true,
        WritePhaseView::FlushDirectory { .. } => true,
        WritePhaseView::RemoveOwner { .. } => true,
        WritePhaseView::CleanTemporary { with_owner, .. } => with_owner,
        WritePhaseView::CleanOwner { .. } => true,
        _ => false,
    }
}

/// Whether a path is one that the write uses at the moment.
pub open spec fn in_use(write: WriteView, path: PathView) -> bool {
    let nonce = nonce_of(write.phase);
    ||| path == write.path
    ||| has_temporary(write.phase) && path == temporary_file(write, nonce)
    ||| has_owner(write.phase) && path == owner_file(write, nonce)
}

/// Whether the disk holds everything else as it did at first.
pub open spec fn rest_untouched(
    write: WriteView,
    first: Map<PathView, Contents>,
    disk: Map<PathView, Contents>,
) -> bool {
    let nonce = nonce_of(write.phase);
    &&& forall|path: PathView|
        !in_use(write, path) ==> #[trigger] at(disk, path) == at(first, path)
    &&& has_temporary(write.phase) || has_owner(write.phase) ==> at(
        first,
        temporary_file(write, nonce),
    ) is None
    &&& has_owner(write.phase) ==> at(first, owner_file(write, nonce)) is None
}

proof fn lemma_step_leaves_rest(
    before: WriteView,
    first: Map<PathView, Contents>,
    disk: Map<PathView, Contents>,
    event: WriteEventView,
    torn: Option<Contents>,
)
    requires
        rest_untouched(before, first, disk),
        plausible(disk, action_of(before), event),
        !(before.phase is RemoveOwner && event is Failed),
    ensures
        rest_untouched(
            after_event(before, event),
            first,
            disk_after(disk, action_of(before), event, torn),
        ),
{
    let nonce = nonce_of(before.phase);
    let after = after_event(before, event);
    let next = disk_after(disk, action_of(before), event, torn);
    lemma_paths_differ(before, nonce);
    assert(has_temporary(after.phase) ==> nonce_of(after.phase) == nonce);
    assert(has_owner(after.phase) ==> nonce_of(after.phase) == nonce);
    assert forall|path: PathView| !in_use(after, path) implies #[trigger] at(next, path) == at(
        first,
        path,
    ) by {
        assert(at(disk, path) == at(disk, path));
        if !in_use(before, path) {
            assert(at(disk, path) == at(first, path));
        }
    }
    if before.phase is CreateTemporary {
        assert(at(disk, temporary_file(before, nonce)) == at(
            first,
            temporary_file(before, nonce),
        ));
    }
    if has_owner(after.phase) && !has_owner(before.phase) {
        assert(at(disk, owner_file(before, nonce)) == at(first, owner_file(before, nonce)));
    }
}

/// A write leaves no traces: on a file system that creates files only where there are none and
/// removes those that are there, a write that has ended, well or not, has left every other file as
/// it was, and no temporary file and no file that names an owner behind. The one exception is a
/// write that fails at the very end, when the destination is replaced, because the file that
/// names the owner cannot be removed.
pub proof fn writes_leave_no_traces(
    disk: Map<PathView, Contents>,
    start: WriteView,
    steps: Seq<WriteStepView>,
    path: PathView,
)
    requires
        start.phase is EnsureDirectory,
        all_plausible(disk, start, steps),
        forall|i: int|
            0 <= i < steps.len() ==> !(written(start, #[trigger] steps.take(i)).phase is RemoveOwner
                && steps[i].event is Failed),
        written(start, steps).phase is Done || written(start, steps).phase is Failed,
        path != start.path,
    ensures
        at(disk_written(disk, start, steps), path) == at(disk, path),
{
    lemma_rest_untouched(disk, start, steps);
    destination_is_old_or_new(disk, start, steps);
    assert(!in_use(written(start, steps), path));
}

proof fn lemma_rest_untouched(
    disk: Map<PathView, Contents>,
    start: WriteView,
    steps: Seq<WriteStepView>,
)
    requires
        start.phase is EnsureDirectory,
        all_plausible(disk, start, steps),
        forall|i: int|
            0 <= i < steps.len() ==> !(written(start, #[trigger] steps.take(i)).phase is RemoveOwner
                && steps[i].event is Failed),
    ensures
        rest_untouched(written(start, steps), disk, disk_written(disk, start, steps)),
    decreases steps.len(),
{
    if steps.len() > 0 {
        let before = steps.drop_last();
        assert forall|i: int| 0 <= i < before.len() implies !(written(
            start,
            #[trigger] before.take(i),
        ).phase is RemoveOwner && before[i].event is Failed) by {
            assert(before.take(i) =~= steps.take(i));
            assert(before[i] == steps[i]);
        }
        lemma_rest_untouched(disk, start, before);
        let last = steps.len() - 1;
        assert(steps.take(last) =~= before);
        assert(steps[last] == steps.last());
        lemma_step_leaves_rest(
            written(start, before),
            disk,
            disk_written(disk, start, before),
            steps.last().event,
            steps.last().torn,
        );
    }
}

/// Whether a fault comes before the replacement.
pub open spec fn before_replacement(point: FaultPoint) -> bool {
    point != FaultPoint::AfterReplace && point != FaultPoint::DirectoryFlush
}

/// Whether a phase is one that a write with a fault before the replacement can be in.
pub open spec fn reachable_with(point: FaultPoint, phase: WritePhaseView) -> bool {
    match phase {
        WritePhaseView::EnsureDirectory => true,
        WritePhaseView::Failed { .. } => true,
        WritePhaseView::WaitBefore { .. } => false,
        WritePhaseView::Replace { .. } => false,
        WritePhaseView::FlushTemporary { .. } => point == FaultPoint::BeforeReplace,
        _ => point != FaultPoint::CreateTemporary && !replaced(phase),
    }
}

/// A write that is made to fail before the replacement never completes, and never touches the
/// destination.
pub proof fn early_faults_keep_the_destination(
    disk: Map<PathView, Contents>,
    start: WriteView,
    point: FaultPoint,
    steps: Seq<WriteStepView>,
)
    requires
        start.phase is EnsureDirectory,
        start.control == (ControlView::Fault { point }),
        before_replacement(point),
    ensures
        written(start, steps).control == start.control,
        written(start, steps).path == start.path,
        !(written(start, steps).phase is Done),
        reachable_with(point, written(start, steps).phase),
        at(disk_written(disk, start, steps), start.path) == at(disk, start.path),
    decreases steps.len(),
{
    if steps.len() > 0 {
        early_faults_keep_the_destination(disk, start, point, steps.drop_last());
        let before = written(start, steps.drop_last());
        lemma_paths_differ(before, nonce_of(before.phase));
    }
}

/// A write that nothing disturbs makes sure of the directory, creates and protects a temporary file
/// beside the destination, names its owner beside it, writes all bytes to it, flushes it, puts it in
/// the place of the destination, protects that, flushes the directory, removes the name of the
/// owner, and is done.
pub proof fn undisturbed_writes_go_in_order(
    path: PathView,
    label: Seq<char>,
    bytes: Seq<u8>,
    owner_pid: u32,
    nonce: u64,
)
    ensures
        ({
            let directory = starting(path, label, bytes, owner_pid, ControlView::Plain);
            let choosing = after_event(directory, WriteEventView::Done);
            let creating = after_event(choosing, WriteEventView::Nonce { nonce });
            let protecting = after_event(creating, WriteEventView::Done);
            let naming = after_event(protecting, WriteEventView::Done);
            let again = after_event(naming, WriteEventView::Done);
            let writing = after_event(again, WriteEventView::Done);
            let flushing = after_event(writing, WriteEventView::Done);
            let replacing = after_event(flushing, WriteEventView::Done);
            let securing = after_event(replacing, WriteEventView::Done);
            let settling = after_event(securing, WriteEventView::Done);
            let clearing = after_event(settling, WriteEventView::Done);
            let done = after_event(clearing, WriteEventView::Done);
            let file = temporary::temporary_of(path, owner_pid, nonce);
            let owner = temporary::owner_of(file);
            &&& action_of(directory) == (WriteActionView::EnsureDirectory {
                directory: path.directory,
            })
            &&& action_of(choosing) is ChooseNonce
            &&& action_of(creating) == (WriteActionView::CreateNew { path: file })
            &&& action_of(protecting) == (WriteActionView::Protect { path: file })
            &&& action_of(naming) == (WriteActionView::CreateText {
                path: owner,
                text: temporary::owner_text(owner_pid, nonce),
            })
            &&& action_of(again) == (WriteActionView::Protect { path: file })
            &&& action_of(writing) == (WriteActionView::Write { path: file, bytes })
            &&& action_of(flushing) == (WriteActionView::Flush { path: file })
            &&& action_of(replacing) == (WriteActionView::Replace { from: file, to: path })
            &&& action_of(securing) == (WriteActionView::Protect { path })
            &&& action_of(settling) == (WriteActionView::FlushDirectory {
                directory: path.directory,
            })
            &&& action_of(clearing) == (WriteActionView::Remove { path: owner })
            &&& action_of(done) is Done
        }),
{
}

/// Whether a step of a write was an action that succeeded.
pub open spec fn did(
    start: WriteView,
    steps: Seq<WriteStepView>,
    step: int,
    action: WriteActionView,
) -> bool {
    &&& 0 <= step < steps.len()
    &&& action_of(written(start, steps.take(step))) == action
    &&& steps[step].event is Done
}

/// Whether an action has succeeded during a write.
pub open spec fn done_before(
    start: WriteView,
    steps: Seq<WriteStepView>,
    action: WriteActionView,
) -> bool {
    exists|step: int| #[trigger] did(start, steps, step, action)
}

proof fn lemma_done_before(
    start: WriteView,
    steps: Seq<WriteStepView>,
    action: WriteActionView,
)
    requires
        steps.len() > 0,
        done_before(start, steps.drop_last(), action) || action_of(
            written(start, steps.drop_last()),
        ) == action && steps.last().event is Done,
    ensures
        done_before(start, steps, action),
{
    let before = steps.drop_last();
    if done_before(start, before, action) {
        let step = choose|step: int| #[trigger] did(start, before, step, action);
        assert(steps.take(step) =~= before.take(step));
        assert(did(start, steps, step, action));
    } else {
        assert(steps.take(steps.len() - 1) =~= before);
        assert(did(start, steps, steps.len() - 1, action));
    }
}

/// Nothing is done before what it rests on: bytes are only written to a temporary file that is
/// protected and whose owner is named; the destination is only replaced by a file that was written
/// and flushed; and a write is only done once the destination is protected and the directory
/// flushed.
pub proof fn writes_rest_on_what_was_done(start: WriteView, steps: Seq<WriteStepView>)
    requires
        start.phase is EnsureDirectory,
    ensures
        ({
            let now = written(start, steps);
            let file = temporary::temporary_of(start.path, start.owner_pid, nonce_of(now.phase));
            let protect = WriteActionView::Protect { path: file };
            let name = WriteActionView::CreateText {
                path: temporary::owner_of(file),
                text: temporary::owner_text(start.owner_pid, nonce_of(now.phase)),
            };
            let write = WriteActionView::Write { path: file, bytes: start.bytes };
            let flush = WriteActionView::Flush { path: file };
            let secure = WriteActionView::Protect { path: start.path };
            let settle = WriteActionView::FlushDirectory { directory: start.path.directory };
            &&& now == (WriteView { phase: now.phase, ..start })
            &&& now.phase is CreateOwner || now.phase is ProtectAgain || now.phase
                is WriteTemporary || now.phase is FlushTemporary || now.phase is WaitBefore
                || now.phase is Replace ==> done_before(start, steps, protect)
            &&& now.phase is ProtectAgain || now.phase is WriteTemporary || now.phase
                is FlushTemporary || now.phase is WaitBefore || now.phase is Replace
                ==> done_before(start, steps, name)
            &&& now.phase is FlushTemporary || now.phase is WaitBefore || now.phase is Replace
                ==> done_before(start, steps, write)
            &&& now.phase is WaitBefore || now.phase is Replace ==> done_before(
                start,
                steps,
                flush,
            )
            &&& now.phase is WaitAfter || now.phase is FlushDirectory || now.phase is RemoveOwner
                || now.phase is Done ==> done_before(start, steps, secure)
            &&& now.phase is RemoveOwner || now.phase is Done ==> done_before(
                start,
                steps,
                settle,
            )
        }),
    decreases steps.len(),
{
    if steps.len() > 0 {
        let shorter = steps.drop_last();
        let before = written(start, shorter);
        let now = written(start, steps);
        writes_rest_on_what_was_done(start, shorter);
        let file = temporary::temporary_of(start.path, start.owner_pid, nonce_of(now.phase));
        let protect = WriteActionView::Protect { path: file };
        let name = WriteActionView::CreateText {
            path: temporary::owner_of(file),
            text: temporary::owner_text(start.owner_pid, nonce_of(now.phase)),
        };
        let write = WriteActionView::Write { path: file, bytes: start.bytes };
        let flush = WriteActionView::Flush { path: file };
        let secure = WriteActionView::Protect { path: start.path };
        let settle = WriteActionView::FlushDirectory { directory: start.path.directory };
        if now.phase is CreateOwner || now.phase is ProtectAgain || now.phase is WriteTemporary
            || now.phase is FlushTemporary || now.phase is WaitBefore || now.phase is Replace {
            lemma_done_before(start, steps, protect);
        }
        if now.phase is ProtectAgain || now.phase is WriteTemporary || now.phase is FlushTemporary
            || now.phase is WaitBefore || now.phase is Replace {
            lemma_done_before(start, steps, name);
        }
        if now.phase is FlushTemporary || now.phase is WaitBefore || now.phase is Replace {
            lemma_done_before(start, steps, write);
        }
        if now.phase is WaitBefore || now.phase is Replace {
            lemma_done_before(start, steps, flush);
        }
        if now.phase is WaitAfter || now.phase is FlushDirectory || now.phase is RemoveOwner
            || now.phase is Done {
            lemma_done_before(start, steps, secure);
        }
        if now.phase is RemoveOwner || now.phase is Done {
            lemma_done_before(start, steps, settle);
        }
    }
}

/// A step that fails once the temporary file is there has the write clean up: the temporary file is
/// removed, and then the name of its owner, whether or not that succeeds; and then the write has
/// failed, for the cause that the step failed for.
pub proof fn failed_writes_clean_up(
    write: WriteView,
    failure: FailureView,
    first: WriteEventView,
    second: WriteEventView,
)
    requires
        failure.causes.len() > 0,
        first is Done || first is Failed,
        second is Done || second is Failed,
        write.phase is CreateOwner || write.phase is ProtectAgain || write.phase is WriteTemporary
            || write.phase is FlushTemporary || write.phase is WaitBefore || write.phase is Replace
            || write.phase is ProtectDestination || write.phase is WaitAfter || write.phase
            is FlushDirectory,
    ensures
        ({
            let failing = after_event(write, WriteEventView::Failed { failure });
            let clearing = after_event(failing, first);
            let failed = after_event(clearing, second);
            let file = temporary::temporary_of(write.path, write.owner_pid, nonce_of(write.phase));
            &&& action_of(failing) == (WriteActionView::Remove { path: file })
            &&& action_of(clearing) == (WriteActionView::Remove {
                path: temporary::owner_of(file),
            })
            &&& action_of(failed) is Failed
            &&& action_of(failed)->failure.server == failure.server
            &&& action_of(failed)->failure.causes.last() == failure.causes.last()
            &&& !(write.phase is ProtectAgain) && !(write.phase is ProtectDestination)
                ==> action_of(failed)->failure == failure
            &&& write.phase is ProtectAgain ==> action_of(failed)->failure.causes
                == seq!["failed to secure atomic temporary file"@] + failure.causes
            &&& write.phase is ProtectDestination ==> action_of(failed)->failure.causes
                == seq!["failed to preserve destination ACL after atomic replacement"@]
                + failure.causes
        }),
{
}

/// A step that fails before there is a temporary file ends the write at once. So does one that fails
/// at the very end; and a temporary file that cannot be protected is removed first.
pub proof fn early_and_late_failures_end_the_write(
    write: WriteView,
    failure: FailureView,
    event: WriteEventView,
)
    ensures
        ({
            let failing = after_event(write, WriteEventView::Failed { failure });
            &&& write.phase is EnsureDirectory || write.phase is ChooseNonce || write.phase
                is CreateTemporary || write.phase is RemoveOwner ==> action_of(failing) == (
            WriteActionView::Failed { failure })
            &&& write.phase is ProtectTemporary ==> {
                &&& action_of(failing) == (WriteActionView::Remove {
                    path: temporary::temporary_of(
                        write.path,
                        write.owner_pid,
                        nonce_of(write.phase),
                    ),
                })
                &&& event is Done || event is Failed ==> action_of(
                    after_event(failing, event),
                ) is Failed
            }
            &&& write.phase is Done || write.phase is Failed ==> after_event(write, event)
                == write
        }),
{
}

/// A name that is taken is not used: the write tries another, after it has removed its temporary
/// file, if it had created one, and gives up after its last attempt, saying for what.
pub proof fn taken_names_are_not_used(write: WriteView, attempts: u32, nonce: u64)
    requires
        attempts < TEMPORARY_ATTEMPTS,
        write.phase == (WritePhaseView::CreateTemporary { attempts, nonce }) || write.phase == (
        WritePhaseView::CreateOwner { attempts, nonce }),
    ensures
        ({
            let taken = after_event(write, WriteEventView::AlreadyExists);
            let next = if write.phase is CreateOwner {
                after_event(taken, WriteEventView::Done)
            } else {
                taken
            };
            &&& write.phase is CreateOwner ==> action_of(taken) == (WriteActionView::Remove {
                path: temporary::temporary_of(write.path, write.owner_pid, nonce),
            })
            &&& attempts + 1 < TEMPORARY_ATTEMPTS ==> action_of(next) is ChooseNonce
                && next.phase == (WritePhaseView::ChooseNonce { attempts: (attempts + 1) as u32 })
            &&& attempts + 1 == TEMPORARY_ATTEMPTS ==> action_of(next) == (
            WriteActionView::Failed {
                failure: FailureView {
                    causes: seq![
                        "failed to allocate a unique temporary file for "@ + write.label,
                    ],
                    server: None,
                },
            })
        }),
{
}

/// An injected fault comes right behind the step that it is named for, and only there; without one,
/// no step that succeeds makes a write fail.
pub proof fn injected_faults_come_where_they_are_named(write: WriteView, point: FaultPoint)
    requires
        write.control == (ControlView::Fault { point }),
    ensures
        ({
            let next = after_event(write, WriteEventView::Done).phase;
            let due = match point {
                FaultPoint::CreateTemporary => write.phase is EnsureDirectory,
                FaultPoint::WriteTemporary => write.phase is WriteTemporary,
                FaultPoint::FlushTemporary => write.phase is WriteTemporary,
                FaultPoint::BeforeReplace => write.phase is FlushTemporary,
                FaultPoint::AfterReplace => write.phase is ProtectDestination,
                FaultPoint::DirectoryFlush => write.phase is ProtectDestination || write.phase
                    is WaitAfter,
            };
            &&& due && point == FaultPoint::CreateTemporary ==> next is Failed
                && next->Failed_failure.causes == seq![fault_text(point)]
            &&& due && point != FaultPoint::CreateTemporary ==> next is CleanTemporary
                && next->CleanTemporary_failure.causes == seq![fault_text(point)]
            &&& !due && !ending(write.phase) && !(write.phase is DiscardTemporary) ==> !ending(
                next,
            )
            &&& forall|plain: WriteView|
                plain.control is Plain && !ending(plain.phase) && !(plain.phase
                    is DiscardTemporary) ==> !ending(
                    (#[trigger] after_event(plain, WriteEventView::Done)).phase,
                )
        }),
{
}

/// A barrier holds a write at the point that it is named for, with its marker, and nowhere else.
pub proof fn barriers_hold_where_they_are_named(
    write: WriteView,
    point: BarrierPoint,
    marker: PathView,
)
    requires
        write.control == (ControlView::Barrier { point, marker }),
    ensures
        ({
            let next = after_event(write, WriteEventView::Done);
            &&& write.phase is FlushTemporary ==> (action_of(next) is Wait <==> point
                == BarrierPoint::BeforeReplace)
            &&& write.phase is ProtectDestination ==> (action_of(next) is Wait <==> point
                == BarrierPoint::AfterReplace)
            &&& action_of(next) is Wait ==> action_of(next)->marker == marker
            &&& write.phase is WaitBefore ==> next.phase is Replace
            &&& write.phase is WaitAfter ==> next.phase is FlushDirectory
        }),
{
}

} // verus!
