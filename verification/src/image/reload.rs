//! Hot-reload decisions for image imports: what a finished import job does to the asset
//! store and to the reload counters, given what the task pool and the store report.

use vstd::prelude::*;

use crate::image::import::{
    ImagePngFailureKind, ImagePublicationFailureKind, ImageImportStage, ImageSourceFailureKind, ImageUnsupportedFeature,
};
use crate::image::limits::ImageImportLimitKind;
use crate::image::png::ImageImportError;
use crate::image::prepare::ImageReloadStats;

verus! {

/// Why the task pool refused an import task.
#[derive(Debug, Clone, Copy, PartialEq, Eq, Structural)]
pub enum TaskRejectReason {
    QueueFull,
    PoolClosed,
    TaskIdExhausted,
}

/// Why an import task was cancelled.
#[derive(Debug, Clone, Copy, PartialEq, Eq, Structural)]
pub enum TaskCancellationReason {
    Requested,
    Coalesced,
    PoolShutdown,
}

/// Why an image reload failed.
#[derive(Debug, Clone, Copy, PartialEq, Eq, Structural)]
pub enum ImageReloadError {
    MissingSourceDirectory,
    Import(ImageImportError),
    TaskRejected(TaskRejectReason),
    TaskCancelled { reason: TaskCancellationReason, before_start: bool },
    TaskFailed,
    TaskTracking,
    Publication(ImagePublicationFailureKind),
}

impl ImageReloadError {
    pub open spec fn spec_stable_code(self) -> &'static str {
        match self {
            ImageReloadError::MissingSourceDirectory => "image.reload-source-authority-missing",
            ImageReloadError::Import(error) => error.spec_stable_code(),
            ImageReloadError::TaskRejected(_) => "image.reload-task-rejected",
            ImageReloadError::TaskCancelled { .. } => "image.reload-task-cancelled",
            ImageReloadError::TaskFailed => "image.reload-task-failed",
            ImageReloadError::TaskTracking => "image.reload-task-tracking-failed",
            ImageReloadError::Publication(_) => "image.reload-publication-failed",
        }
    }

    /// The stable diagnostic code of the failure.
    pub fn stable_code(&self) -> (r: &'static str)
        ensures
            r == self.spec_stable_code(),
    {
        match self {
            ImageReloadError::MissingSourceDirectory => "image.reload-source-authority-missing",
            ImageReloadError::Import(error) => error.stable_code(),
            ImageReloadError::TaskRejected(_) => "image.reload-task-rejected",
            ImageReloadError::TaskCancelled { .. } => "image.reload-task-cancelled",
            ImageReloadError::TaskFailed => "image.reload-task-failed",
            ImageReloadError::TaskTracking => "image.reload-task-tracking-failed",
            ImageReloadError::Publication(_) => "image.reload-publication-failed",
        }
    }

    pub open spec fn spec_safe_summary(self) -> &'static str {
        match self {
            ImageReloadError::MissingSourceDirectory => "Image source authority is absent",
            ImageReloadError::Import(error) => error.spec_safe_summary(),
            ImageReloadError::TaskRejected(_) => "Image import task was rejected",
            ImageReloadError::TaskCancelled { .. } => "Image import task was cancelled",
            ImageReloadError::TaskFailed => "Image import task failed",
            ImageReloadError::TaskTracking => "Image import task tracking failed",
            ImageReloadError::Publication(_) => "Image publication failed",
        }
    }

    /// The summary of the failure that is safe to show.
    pub fn safe_summary(&self) -> (r: &'static str)
        ensures
            r == self.spec_safe_summary(),
    {
        match self {
            ImageReloadError::MissingSourceDirectory => "Image source authority is absent",
            ImageReloadError::Import(error) => error.safe_summary(),
            ImageReloadError::TaskRejected(_) => "Image import task was rejected",
            ImageReloadError::TaskCancelled { .. } => "Image import task was cancelled",
            ImageReloadError::TaskFailed => "Image import task failed",
            ImageReloadError::TaskTracking => "Image import task tracking failed",
            ImageReloadError::Publication(_) => "Image publication failed",
        }
    }
}

/// The public identifier of a task rejection reason.
pub fn task_rejection_reason(reason: TaskRejectReason) -> (r: &'static str)
    ensures
        r == match reason {
            TaskRejectReason::QueueFull => "queue-full",
            TaskRejectReason::PoolClosed => "pool-closed",
            TaskRejectReason::TaskIdExhausted => "task-id-exhausted",
        },
{
    match reason {
        TaskRejectReason::QueueFull => "queue-full",
        TaskRejectReason::PoolClosed => "pool-closed",
        TaskRejectReason::TaskIdExhausted => "task-id-exhausted",
    }
}

/// The public identifier of a task cancellation reason.
pub fn task_cancellation_reason(reason: TaskCancellationReason) -> (r: &'static str)
    ensures
        r == match reason {
            TaskCancellationReason::Requested => "requested",
            TaskCancellationReason::Coalesced => "coalesced",
            TaskCancellationReason::PoolShutdown => "pool-shutdown",
        },
{
    match reason {
        TaskCancellationReason::Requested => "requested",
        TaskCancellationReason::Coalesced => "coalesced",
        TaskCancellationReason::PoolShutdown => "pool-shutdown",
    }
}

/// `x + 1`, saturating at `u32::MAX`.
pub open spec fn bump(x: u32) -> u32 {
    if x == u32::MAX {
        u32::MAX
    } else {
        (x + 1) as u32
    }
}

/// The pending counter for `len` pending jobs: the count, clamped to `u32::MAX`.
pub fn pending_count(len: usize) -> (r: u32)
    ensures
        r == if len > u32::MAX { u32::MAX } else { len as u32 },
{
    if len > (u32::MAX as usize) {
        u32::MAX
    } else {
        len as u32
    }
}

/// Counts the outcome of committing an imported image: a commit is applied; a conflict with a
/// newer or different publication is stale; any other refusal is a publication failure.
pub fn apply_imported_image(commit: Result<(), ImagePublicationFailureKind>, stats: &mut ImageReloadStats) -> (r: Option<ImageReloadError>)
    ensures
        match commit {
            Ok(()) => r is None && *final(stats) == (ImageReloadStats { applied: bump(old(stats).applied), ..*old(stats) }),
            Err(kind) => if !(kind is TargetMismatch || kind is UnknownAsset || kind is VersionExhausted) {
                r is None && *final(stats) == (ImageReloadStats { stale: bump(old(stats).stale), ..*old(stats) })
            } else {
                r == Some(ImageReloadError::Publication(kind)) && *final(stats) == *old(stats)
            },
        },
{
    match commit {
        Ok(()) => {
            stats.applied = stats.applied.saturating_add(1);
            None
        },
        Err(kind) => {
            if kind.is_stale_conflict() {
                stats.stale = stats.stale.saturating_add(1);
                None
            } else {
                Some(ImageReloadError::Publication(kind))
            }
        },
    }
}

/// How a ready import job ended, carrying the imported value `T` when it completed.
#[derive(Debug)]
pub enum ReadyImageImportOutcome<T> {
    Completed(Result<T, ImageReloadError>),
    Cancelled { reason: TaskCancellationReason, before_start: bool },
    Failed,
    Rejected(TaskRejectReason),
    ImmediateFailure(ImageReloadError),
    TrackingFailure,
}

/// What to do with a ready import job.
#[derive(Debug)]
pub enum ReadyImageImportAction<T> {
    /// Nothing: the job was coalesced into a newer one, or its load generation is stale.
    Skip,
    /// Commit the imported value.
    Publish(T),
    /// Record the failure against the asset.
    RecordFailure(ImageReloadError),
}

/// The action for a ready job whose load generation is `current` or not. Cancellations are
/// counted; a coalesced cancellation is skipped (and counted stale when not current); any
/// other job of a stale generation is skipped and counted stale.
pub fn ready_job_action<T>(outcome: ReadyImageImportOutcome<T>, current: bool, stats: &mut ImageReloadStats)
    -> (r: ReadyImageImportAction<T>)
    ensures
        ({
            let cancelled = outcome is Cancelled;
            let coalesced = outcome matches ReadyImageImportOutcome::Cancelled { reason, .. } && reason == TaskCancellationReason::Coalesced;
            let counted = if cancelled { ImageReloadStats { cancelled: bump(old(stats).cancelled), ..*old(stats) } } else { *old(stats) };
            if coalesced || !current {
                &&& r is Skip
                &&& *final(stats) == if current { counted } else { ImageReloadStats { stale: bump(counted.stale), ..counted } }
            } else {
                &&& *final(stats) == counted
                &&& match outcome {
                    ReadyImageImportOutcome::Completed(Ok(value)) => r == ReadyImageImportAction::Publish(value),
                    ReadyImageImportOutcome::Completed(Err(error)) => r == ReadyImageImportAction::<T>::RecordFailure(error),
                    ReadyImageImportOutcome::Cancelled { reason, before_start } =>
                        r == ReadyImageImportAction::<T>::RecordFailure(ImageReloadError::TaskCancelled { reason, before_start }),
                    ReadyImageImportOutcome::Failed => r == ReadyImageImportAction::<T>::RecordFailure(ImageReloadError::TaskFailed),
                    ReadyImageImportOutcome::Rejected(reason) => r == ReadyImageImportAction::<T>::RecordFailure(ImageReloadError::TaskRejected(reason)),
                    ReadyImageImportOutcome::ImmediateFailure(error) => r == ReadyImageImportAction::<T>::RecordFailure(error),
                    ReadyImageImportOutcome::TrackingFailure => r == ReadyImageImportAction::<T>::RecordFailure(ImageReloadError::TaskTracking),
                }
            }
        }),
{
    let (cancelled, coalesced) = match &outcome {
        ReadyImageImportOutcome::Cancelled { reason, .. } => (true, *reason == TaskCancellationReason::Coalesced),
        _ => (false, false),
    };
    if cancelled {
        stats.cancelled = stats.cancelled.saturating_add(1);
    }
    if coalesced || !current {
        if !current {
            stats.stale = stats.stale.saturating_add(1);
        }
        return ReadyImageImportAction::Skip;
    }
    match outcome {
        ReadyImageImportOutcome::Completed(Ok(value)) => ReadyImageImportAction::Publish(value),
        ReadyImageImportOutcome::Completed(Err(error)) => ReadyImageImportAction::RecordFailure(error),
        ReadyImageImportOutcome::Cancelled { reason, before_start } =>
            ReadyImageImportAction::RecordFailure(ImageReloadError::TaskCancelled { reason, before_start }),
        ReadyImageImportOutcome::Failed => ReadyImageImportAction::RecordFailure(ImageReloadError::TaskFailed),
        ReadyImageImportOutcome::Rejected(reason) => ReadyImageImportAction::RecordFailure(ImageReloadError::TaskRejected(reason)),
        ReadyImageImportOutcome::ImmediateFailure(error) => ReadyImageImportAction::RecordFailure(error),
        ReadyImageImportOutcome::TrackingFailure => ReadyImageImportAction::RecordFailure(ImageReloadError::TaskTracking),
    }
}

/// The order ready jobs are applied in: by the task's admission tick, domain and id, then by
/// the request id. A rejected job without a task orders by its admission tick and domain,
/// after every task of them; any other job without a task orders last.
pub fn ready_job_sort_key(order_key: Option<(u64, u64, u64)>, rejection: Option<(u64, u64)>, request_id: u64) -> (r: (u64, u64, u64, u64))
    ensures
        r == match order_key {
            Some((tick, domain, task)) => (tick, domain, task, request_id),
            None => match rejection {
                Some((tick, domain)) => (tick, domain, u64::MAX, request_id),
                None => (u64::MAX, u64::MAX, u64::MAX, request_id),
            },
        },
{
    match order_key {
        Some((tick, domain, task)) => (tick, domain, task, request_id),
        None => match rejection {
            Some((tick, domain)) => (tick, domain, u64::MAX, request_id),
            None => (u64::MAX, u64::MAX, u64::MAX, request_id),
        },
    }
}

/// How the asset store's version check of a failed reload went.
#[derive(Debug, Clone, Copy, PartialEq, Eq, Structural)]
pub enum VersionCheck {
    Current,
    StaleReload,
    OtherError,
}

/// What recording a reload failure does.
#[derive(Debug, Clone, Copy, PartialEq, Eq, Structural)]
pub enum FailureRecording {
    /// The failure is stale: only counted.
    Stale,
    /// A diagnostic is emitted and the failure counted, with no state change.
    DiagnoseOnly,
    /// A diagnostic is emitted and the failure recorded against the last good value.
    RecordReloadFailure,
    /// A diagnostic is emitted and the failure recorded as a failed first load.
    RecordLoadFailure,
}

/// Decides how to record a reload failure: a publication target that moved since capture, or
/// a stale version, makes it stale; another version error is diagnosed and counted; otherwise
/// it is recorded against the last good value when the slot holds one, else as a failed load.
/// The counters move for the first two outcomes now and for the last two once the store
/// answers ([`count_recorded_failure`]).
pub fn failure_recording(target_current: bool, version: VersionCheck, slot_occupied: bool, stats: &mut ImageReloadStats)
    -> (r: FailureRecording)
    ensures
        !target_current ==> r == FailureRecording::Stale && *final(stats) == (ImageReloadStats { stale: bump(old(stats).stale), ..*old(stats) }),
        target_current && version == VersionCheck::StaleReload ==> r == FailureRecording::Stale
            && *final(stats) == (ImageReloadStats { stale: bump(old(stats).stale), ..*old(stats) }),
        target_current && version == VersionCheck::OtherError ==> r == FailureRecording::DiagnoseOnly
            && *final(stats) == (ImageReloadStats { failed: bump(old(stats).failed), ..*old(stats) }),
        target_current && version == VersionCheck::Current ==> *final(stats) == *old(stats)
            && r == if slot_occupied { FailureRecording::RecordReloadFailure } else { FailureRecording::RecordLoadFailure },
{
    if !target_current {
        stats.stale = stats.stale.saturating_add(1);
        return FailureRecording::Stale;
    }
    match version {
        VersionCheck::StaleReload => {
            stats.stale = stats.stale.saturating_add(1);
            FailureRecording::Stale
        },
        VersionCheck::OtherError => {
            stats.failed = stats.failed.saturating_add(1);
            FailureRecording::DiagnoseOnly
        },
        VersionCheck::Current => if slot_occupied {
            FailureRecording::RecordReloadFailure
        } else {
            FailureRecording::RecordLoadFailure
        },
    }
}

/// What the task pool and the pending streams made of an import task handed to the pool.
#[derive(Debug, Clone, Copy, PartialEq, Eq, Structural)]
pub enum ImageImportSpawn {
    /// Accepted or coalesced, and tracked by the asset's pending stream.
    Followed,
    /// Accepted or coalesced, but the pending stream could not track it.
    Unfollowed,
    /// Refused by the pool.
    Rejected(TaskRejectReason),
}

/// Counts a spawned import task: a tracked task is spawned, a rejected one rejected; an
/// untracked one counts nothing. Gives the ready outcome the job reports at once, if any: the
/// pool's refusal, or a tracking failure.
pub fn count_spawn<T>(spawn: ImageImportSpawn, stats: &mut ImageReloadStats) -> (r: Option<ReadyImageImportOutcome<T>>)
    ensures
        spawn is Followed ==> r is None && *final(stats) == (ImageReloadStats { spawned: bump(old(stats).spawned), ..*old(stats) }),
        spawn is Unfollowed ==> (r matches Some(ReadyImageImportOutcome::TrackingFailure)) && *final(stats) == *old(stats),
        spawn matches ImageImportSpawn::Rejected(reason) ==> (r matches Some(ReadyImageImportOutcome::Rejected(x)) && x == reason)
            && *final(stats) == (ImageReloadStats { rejected: bump(old(stats).rejected), ..*old(stats) }),
{
    match spawn {
        ImageImportSpawn::Followed => {
            stats.spawned = stats.spawned.saturating_add(1);
            None
        },
        ImageImportSpawn::Unfollowed => Some(ReadyImageImportOutcome::TrackingFailure),
        ImageImportSpawn::Rejected(reason) => {
            stats.rejected = stats.rejected.saturating_add(1);
            Some(ReadyImageImportOutcome::Rejected(reason))
        },
    }
}

/// Counts the store's answer to recording a failure: recorded is a failure, refused is stale.
pub fn count_recorded_failure(recorded: bool, stats: &mut ImageReloadStats)
    ensures
        recorded ==> *final(stats) == (ImageReloadStats { failed: bump(old(stats).failed), ..*old(stats) }),
        !recorded ==> *final(stats) == (ImageReloadStats { stale: bump(old(stats).stale), ..*old(stats) }),
{
    if recorded {
        stats.failed = stats.failed.saturating_add(1);
    } else {
        stats.stale = stats.stale.saturating_add(1);
    }
}

/// Counts the store's answer to a removal request of a current generation: removed, or
/// failed; a stale generation is only counted stale.
pub fn count_removal(current: bool, removed: bool, stats: &mut ImageReloadStats)
    ensures
        !current ==> *final(stats) == (ImageReloadStats { stale: bump(old(stats).stale), ..*old(stats) }),
        current && removed ==> *final(stats) == (ImageReloadStats { removed: bump(old(stats).removed), ..*old(stats) }),
        current && !removed ==> *final(stats) == (ImageReloadStats { failed: bump(old(stats).failed), ..*old(stats) }),
{
    if !current {
        stats.stale = stats.stale.saturating_add(1);
    } else if removed {
        stats.removed = stats.removed.saturating_add(1);
    } else {
        stats.failed = stats.failed.saturating_add(1);
    }
}

/// The key of a field of a reload failure's diagnostic.
#[derive(Debug, Clone, Copy, PartialEq, Eq, Structural)]
pub enum ImageDiagnosticKey {
    Stage,
    LimitKind,
    Limit,
    Observed,
    InUse,
    Feature,
    Reason,
    DecoderDetail,
    SourceDetail,
    BeforeStart,
    PanicPayload,
}

/// The value of a diagnostic field: a public identifier, number or flag, or a sensitive
/// value whose content the diagnostic never carries.
#[derive(Debug, Clone, Copy, PartialEq, Eq, Structural)]
pub enum ImageDiagnosticValue {
    Stage(ImageImportStage),
    LimitKind(ImageImportLimitKind),
    Feature(ImageUnsupportedFeature),
    PngReason(ImagePngFailureKind),
    SourceReason(ImageSourceFailureKind),
    PublicationReason(ImagePublicationFailureKind),
    RejectReason(TaskRejectReason),
    CancellationReason(TaskCancellationReason),
    Panicked,
    Count(u64),
    Flag(bool),
    Sensitive,
}

/// One field of a reload failure's diagnostic.
#[derive(Debug, Clone, Copy, PartialEq, Eq, Structural)]
pub struct ImageDiagnosticField {
    pub key: ImageDiagnosticKey,
    pub value: ImageDiagnosticValue,
}

pub open spec fn field(key: ImageDiagnosticKey, value: ImageDiagnosticValue) -> ImageDiagnosticField {
    ImageDiagnosticField { key, value }
}

/// The fields of an import failure's diagnostic after its stage: the budget's limit kind,
/// limit and the observed and in-use figures it has; the unsupported feature; the decoder or
/// source failure reason with its detail kept sensitive; the publication failure reason.
pub open spec fn import_diagnostic_fields(error: ImageImportError) -> Seq<ImageDiagnosticField> {
    match error {
        ImageImportError::Budget { error, .. } => {
            let m = error.model();
            seq![
                field(ImageDiagnosticKey::LimitKind, ImageDiagnosticValue::LimitKind(m.kind)),
                field(ImageDiagnosticKey::Limit, ImageDiagnosticValue::Count(m.limit)),
            ] + (match m.observed {
                Some(o) => seq![field(ImageDiagnosticKey::Observed, ImageDiagnosticValue::Count(o))],
                None => Seq::empty(),
            }) + (match m.in_use {
                Some(u) => seq![field(ImageDiagnosticKey::InUse, ImageDiagnosticValue::Count(u))],
                None => Seq::empty(),
            })
        },
        ImageImportError::Unsupported { feature, .. } => seq![field(ImageDiagnosticKey::Feature, ImageDiagnosticValue::Feature(feature))],
        ImageImportError::Png { kind, .. } => seq![
            field(ImageDiagnosticKey::Reason, ImageDiagnosticValue::PngReason(kind)),
            field(ImageDiagnosticKey::DecoderDetail, ImageDiagnosticValue::Sensitive),
        ],
        ImageImportError::Source { kind, .. } => seq![
            field(ImageDiagnosticKey::Reason, ImageDiagnosticValue::SourceReason(kind)),
            field(ImageDiagnosticKey::SourceDetail, ImageDiagnosticValue::Sensitive),
        ],
        ImageImportError::Publication(kind) => seq![field(ImageDiagnosticKey::Reason, ImageDiagnosticValue::PublicationReason(kind))],
        ImageImportError::Cancelled { .. } => Seq::empty(),
    }
}

/// The fields of a reload failure's diagnostic, after the asset path: for an import failure
/// its stage and what the failure kind adds; the task pool's refusal or cancellation reason
/// (with whether the task had not started); a panic's reason with its payload kept
/// sensitive; a publication failure's reason.
pub open spec fn reload_diagnostic_fields(error: ImageReloadError) -> Seq<ImageDiagnosticField> {
    match error {
        ImageReloadError::MissingSourceDirectory => Seq::empty(),
        ImageReloadError::Import(e) => seq![field(ImageDiagnosticKey::Stage, ImageDiagnosticValue::Stage(e.spec_stage()))]
            + import_diagnostic_fields(e),
        ImageReloadError::TaskRejected(reason) => seq![field(ImageDiagnosticKey::Reason, ImageDiagnosticValue::RejectReason(reason))],
        ImageReloadError::TaskCancelled { reason, before_start } => seq![
            field(ImageDiagnosticKey::Reason, ImageDiagnosticValue::CancellationReason(reason)),
            field(ImageDiagnosticKey::BeforeStart, ImageDiagnosticValue::Flag(before_start)),
        ],
        ImageReloadError::TaskFailed => seq![
            field(ImageDiagnosticKey::Reason, ImageDiagnosticValue::Panicked),
            field(ImageDiagnosticKey::PanicPayload, ImageDiagnosticValue::Sensitive),
        ],
        ImageReloadError::TaskTracking => Seq::empty(),
        ImageReloadError::Publication(kind) => seq![field(ImageDiagnosticKey::Reason, ImageDiagnosticValue::PublicationReason(kind))],
    }
}

/// The fields a reload failure's diagnostic carries after the asset path, in order, each
/// public or sensitive.
pub fn image_reload_diagnostic_fields(error: &ImageReloadError) -> (r: Vec<ImageDiagnosticField>)
    ensures
        r@ == reload_diagnostic_fields(*error),
{
    let mut fields: Vec<ImageDiagnosticField> = Vec::new();
    match error {
        ImageReloadError::MissingSourceDirectory => {},
        ImageReloadError::Import(e) => {
            fields.push(ImageDiagnosticField { key: ImageDiagnosticKey::Stage, value: ImageDiagnosticValue::Stage(e.stage()) });
            match e {
                ImageImportError::Budget { error, .. } => {
                    fields.push(ImageDiagnosticField { key: ImageDiagnosticKey::LimitKind, value: ImageDiagnosticValue::LimitKind(error.kind()) });
                    fields.push(ImageDiagnosticField { key: ImageDiagnosticKey::Limit, value: ImageDiagnosticValue::Count(error.limit()) });
                    if let Some(observed) = error.observed() {
                        fields.push(ImageDiagnosticField { key: ImageDiagnosticKey::Observed, value: ImageDiagnosticValue::Count(observed) });
                    }
                    if let Some(in_use) = error.in_use() {
                        fields.push(ImageDiagnosticField { key: ImageDiagnosticKey::InUse, value: ImageDiagnosticValue::Count(in_use) });
                    }
                },
                ImageImportError::Unsupported { feature, .. } => {
                    fields.push(ImageDiagnosticField { key: ImageDiagnosticKey::Feature, value: ImageDiagnosticValue::Feature(*feature) });
                },
                ImageImportError::Png { kind, .. } => {
                    fields.push(ImageDiagnosticField { key: ImageDiagnosticKey::Reason, value: ImageDiagnosticValue::PngReason(*kind) });
                    fields.push(ImageDiagnosticField { key: ImageDiagnosticKey::DecoderDetail, value: ImageDiagnosticValue::Sensitive });
                },
                ImageImportError::Source { kind, .. } => {
                    fields.push(ImageDiagnosticField { key: ImageDiagnosticKey::Reason, value: ImageDiagnosticValue::SourceReason(*kind) });
                    fields.push(ImageDiagnosticField { key: ImageDiagnosticKey::SourceDetail, value: ImageDiagnosticValue::Sensitive });
                },
                ImageImportError::Publication(kind) => {
                    fields.push(ImageDiagnosticField { key: ImageDiagnosticKey::Reason, value: ImageDiagnosticValue::PublicationReason(*kind) });
                },
                ImageImportError::Cancelled { .. } => {},
            }
        },
        ImageReloadError::TaskRejected(reason) => {
            fields.push(ImageDiagnosticField { key: ImageDiagnosticKey::Reason, value: ImageDiagnosticValue::RejectReason(*reason) });
        },
        ImageReloadError::TaskCancelled { reason, before_start } => {
            fields.push(ImageDiagnosticField { key: ImageDiagnosticKey::Reason, value: ImageDiagnosticValue::CancellationReason(*reason) });
            fields.push(ImageDiagnosticField { key: ImageDiagnosticKey::BeforeStart, value: ImageDiagnosticValue::Flag(*before_start) });
        },
        ImageReloadError::TaskFailed => {
            fields.push(ImageDiagnosticField { key: ImageDiagnosticKey::Reason, value: ImageDiagnosticValue::Panicked });
            fields.push(ImageDiagnosticField { key: ImageDiagnosticKey::PanicPayload, value: ImageDiagnosticValue::Sensitive });
        },
        ImageReloadError::TaskTracking => {},
        ImageReloadError::Publication(kind) => {
            fields.push(ImageDiagnosticField { key: ImageDiagnosticKey::Reason, value: ImageDiagnosticValue::PublicationReason(*kind) });
        },
    }
    proof {
        assert(fields@ =~= reload_diagnostic_fields(*error));
    }
    fields
}

} // verus!
