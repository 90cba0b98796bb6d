use nara::image::import::{
    ImageImportStage, ImagePngFailureKind, ImagePublicationFailureKind, ImageSourceFailureKind, ImageUnsupportedFeature,
};
use nara::image::limits::{ImageImportBudgetError, ImageImportLimitKind};
use nara::image::asset::ImageSourceMetadata;
use nara::image::png::ImageImportError;
use nara::image::prepare::{
    count_prepared, count_removed, prepare_step, prepared_resource_is_removed, ImagePrepareStats, ImageReloadStats,
    ObservedLoadState, PrepareStep,
};
use nara::image::reload::{
    apply_imported_image, count_recorded_failure, count_removal, failure_recording, pending_count, ready_job_action,
    ready_job_sort_key, task_cancellation_reason, task_rejection_reason, image_reload_diagnostic_fields, FailureRecording,
    count_spawn, ImageDiagnosticField, ImageDiagnosticKey, ImageDiagnosticValue, ImageImportSpawn, ImageReloadError,
    ReadyImageImportAction, ReadyImageImportOutcome, TaskCancellationReason, TaskRejectReason, VersionCheck,
};

#[test]
fn stale_publication_conflicts_are_counted_and_not_reported() {
    let mut stats = ImageReloadStats::default();
    assert_eq!(apply_imported_image(Ok(()), &mut stats), None);
    assert_eq!(apply_imported_image(Err(ImagePublicationFailureKind::SlotChanged), &mut stats), None);
    assert_eq!(
        apply_imported_image(Err(ImagePublicationFailureKind::TargetMismatch), &mut stats),
        Some(ImageReloadError::Publication(ImagePublicationFailureKind::TargetMismatch))
    );
    assert_eq!(stats.applied, 1);
    assert_eq!(stats.stale, 1);
    assert_eq!(stats.failed, 0);
}

#[test]
fn coalesced_cancellation_is_skipped_and_stale_generations_never_apply() {
    let mut stats = ImageReloadStats::default();
    let coalesced: ReadyImageImportOutcome<u8> =
        ReadyImageImportOutcome::Cancelled { reason: TaskCancellationReason::Coalesced, before_start: true };
    assert!(matches!(ready_job_action(coalesced, true, &mut stats), ReadyImageImportAction::Skip));
    assert_eq!(stats.cancelled, 1);
    assert_eq!(stats.stale, 0);

    assert!(matches!(
        ready_job_action(ReadyImageImportOutcome::Completed(Ok(7_u8)), false, &mut stats),
        ReadyImageImportAction::Skip
    ));
    assert_eq!(stats.stale, 1);

    assert!(matches!(
        ready_job_action(ReadyImageImportOutcome::Completed(Ok(7_u8)), true, &mut stats),
        ReadyImageImportAction::Publish(7)
    ));
    let requested: ReadyImageImportOutcome<u8> =
        ReadyImageImportOutcome::Cancelled { reason: TaskCancellationReason::Requested, before_start: false };
    assert!(matches!(
        ready_job_action(requested, true, &mut stats),
        ReadyImageImportAction::RecordFailure(ImageReloadError::TaskCancelled {
            reason: TaskCancellationReason::Requested,
            before_start: false,
        })
    ));
    assert_eq!(stats.cancelled, 2);
    assert!(matches!(
        ready_job_action(ReadyImageImportOutcome::<u8>::TrackingFailure, true, &mut stats),
        ReadyImageImportAction::RecordFailure(ImageReloadError::TaskTracking)
    ));
    assert!(matches!(
        ready_job_action(ReadyImageImportOutcome::<u8>::Rejected(TaskRejectReason::QueueFull), true, &mut stats),
        ReadyImageImportAction::RecordFailure(ImageReloadError::TaskRejected(TaskRejectReason::QueueFull))
    ));
}

#[test]
fn ready_jobs_order_by_task_then_request() {
    assert_eq!(ready_job_sort_key(Some((3, 9, 4)), None, 2), (3, 9, 4, 2));
    assert_eq!(ready_job_sort_key(None, Some((3, 9)), 2), (3, 9, u64::MAX, 2));
    assert_eq!(ready_job_sort_key(None, None, 2), (u64::MAX, u64::MAX, u64::MAX, 2));
    assert!(ready_job_sort_key(Some((3, 9, 4)), None, 2) < ready_job_sort_key(None, Some((3, 9)), 1));
}

#[test]
fn failure_recording_follows_target_version_and_slot() {
    let mut stats = ImageReloadStats::default();
    assert_eq!(failure_recording(false, VersionCheck::Current, true, &mut stats), FailureRecording::Stale);
    assert_eq!(failure_recording(true, VersionCheck::StaleReload, true, &mut stats), FailureRecording::Stale);
    assert_eq!(stats.stale, 2);
    assert_eq!(failure_recording(true, VersionCheck::OtherError, true, &mut stats), FailureRecording::DiagnoseOnly);
    assert_eq!(stats.failed, 1);
    assert_eq!(failure_recording(true, VersionCheck::Current, true, &mut stats), FailureRecording::RecordReloadFailure);
    assert_eq!(failure_recording(true, VersionCheck::Current, false, &mut stats), FailureRecording::RecordLoadFailure);
    count_recorded_failure(true, &mut stats);
    count_recorded_failure(false, &mut stats);
    assert_eq!(stats.failed, 2);
    assert_eq!(stats.stale, 3);
    count_removal(true, true, &mut stats);
    count_removal(true, false, &mut stats);
    count_removal(false, true, &mut stats);
    assert_eq!((stats.removed, stats.failed, stats.stale), (1, 3, 4));
}

#[test]
fn reload_error_codes_are_stable() {
    assert_eq!(ImageReloadError::MissingSourceDirectory.stable_code(), "image.reload-source-authority-missing");
    assert_eq!(
        ImageReloadError::Import(ImageImportError::Cancelled { stage: ImageImportStage::Header }).stable_code(),
        "image.import-cancelled"
    );
    assert_eq!(ImageReloadError::TaskFailed.safe_summary(), "Image import task failed");
    assert_eq!(task_rejection_reason(TaskRejectReason::PoolClosed), "pool-closed");
    assert_eq!(task_cancellation_reason(TaskCancellationReason::PoolShutdown), "pool-shutdown");
    assert_eq!(pending_count(5), 5);
    assert_eq!(pending_count(usize::MAX), u32::MAX);
}

#[test]
fn preparation_skips_and_removes_by_load_state() {
    let mut stats = ImagePrepareStats::default();
    assert_eq!(prepare_step(ObservedLoadState::Missing, &mut stats), PrepareStep::SkipMissingState);
    assert_eq!(prepare_step(ObservedLoadState::Other, &mut stats), PrepareStep::SkipNotLoaded);
    assert_eq!(prepare_step(ObservedLoadState::Loaded, &mut stats), PrepareStep::Prepare);
    count_prepared(true, &mut stats);
    count_prepared(false, &mut stats);
    count_removed(&mut stats);
    assert_eq!(
        stats,
        ImagePrepareStats { prepared: 1, removed: 1, skipped_missing_state: 1, skipped_not_loaded: 1, stale_results: 1 }
    );
    assert!(prepared_resource_is_removed(false, ObservedLoadState::Loaded));
    assert!(prepared_resource_is_removed(true, ObservedLoadState::Removed));
    assert!(!prepared_resource_is_removed(true, ObservedLoadState::Loaded));
}

use nara::image::importer::ImageImporter;
use nara::image::publication::{ImagePublicationSnapshot, PublicationObservation};

const TEXTURE_ID: u128 = 0x2f0d71c7_14fc_4ed4_b48b_1c61bba8b97f;

/// One image slot of an asset store, observed as publication sees it.
struct Slot {
    bound: Option<u128>,
    rgba_bytes: Option<usize>,
    slot_revision: u64,
    version: u64,
    state_revision: u64,
}

impl Slot {
    fn reserved() -> Self {
        Slot { bound: Some(TEXTURE_ID), rgba_bytes: None, slot_revision: 0, version: 0, state_revision: 0 }
    }

    fn observe(&self) -> PublicationObservation {
        PublicationObservation {
            bound_stable_id: self.bound,
            current_version: self.version,
            state_revision: self.state_revision,
            current_rgba_bytes: self.rgba_bytes,
            slot_revision: self.slot_revision,
        }
    }

    fn insert(&mut self, rgba_bytes: usize) {
        self.slot_revision += 1;
        self.rgba_bytes = Some(rgba_bytes);
    }

    fn commit(&mut self, rgba_bytes: usize) {
        self.insert(rgba_bytes);
        self.version += 1;
        self.state_revision += 1;
    }

    fn set_loading(&mut self) -> u64 {
        self.state_revision += 1;
        self.version
    }

    fn snapshot(&self, expected_version: u64) -> ImagePublicationSnapshot {
        ImagePublicationSnapshot::capture(1, TEXTURE_ID, expected_version, &self.observe())
    }
}

fn rgba_png(pixels: &[u8]) -> Vec<u8> {
    let mut bytes = Vec::new();
    let mut encoder = png::Encoder::new(&mut bytes, 1, 1);
    encoder.set_color(png::ColorType::Rgba);
    encoder.set_depth(png::BitDepth::Eight);
    let mut writer = encoder.write_header().unwrap();
    writer.write_image_data(pixels).unwrap();
    drop(writer);
    bytes
}

#[test]
fn slot_conflict_is_stale_and_does_not_mark_the_winning_value_failed() {
    let mut importer = ImageImporter::default();
    let mut slot = Slot::reserved();
    slot.commit(4);
    let expected_version = slot.set_loading();
    let candidate = importer
        .import_image(TEXTURE_ID, source_metadata(), rgba_png(&[0, 0, 255, 255]), slot.snapshot(expected_version), &slot.observe())
        .unwrap();
    slot.insert(4);
    let winner_revision = slot.slot_revision;
    let mut stats = ImageReloadStats::default();

    let committed = candidate.commit(&mut importer, &slot.observe()).map(|_| ());
    let failure = apply_imported_image(committed, &mut stats);

    assert_eq!(failure, None);
    assert_eq!(stats.stale, 1);
    assert_eq!(stats.failed, 0);
    assert_eq!(slot.slot_revision, winner_revision);
    assert_eq!(importer.budget_snapshot().active_bytes(), 0);
    assert_eq!(importer.budget_snapshot().active_reservations(), 0);
}

#[test]
fn publication_failure_releases_candidate_charge_for_the_failure_recorder() {
    let mut importer = ImageImporter::default();
    let slot = Slot::reserved();
    let imported = importer.import_image(TEXTURE_ID, source_metadata(), rgba_png(&[0, 0, 255, 255]), slot.snapshot(0), &slot.observe()).unwrap();
    assert_eq!(importer.budget_snapshot().active_publication_overlap_bytes(), 0);
    let attempt = slot.snapshot(0);
    let mut stats = ImageReloadStats::default();
    let unknown = PublicationObservation { bound_stable_id: None, ..slot.observe() };

    let committed = imported.commit(&mut importer, &unknown).map(|_| ());
    let error = apply_imported_image(committed, &mut stats);

    assert_eq!(error, Some(ImageReloadError::Publication(ImagePublicationFailureKind::UnknownAsset)));
    assert_eq!(stats.failed, 0);
    assert!(slot.rgba_bytes.is_none());
    assert_eq!(importer.budget_snapshot().high_water_publication_overlap_bytes(), 0);
    assert_eq!(importer.budget_snapshot().active_bytes(), 0);

    let recording = failure_recording(attempt.is_current(&slot.observe()), VersionCheck::Current, slot.rgba_bytes.is_some(), &mut stats);
    assert_eq!(recording, FailureRecording::RecordLoadFailure);
    count_recorded_failure(true, &mut stats);
    assert_eq!(stats.failed, 1);
    assert_eq!(ImagePublicationFailureKind::UnknownAsset.as_str(), "unknown-asset");
}

#[test]
fn stale_first_load_failure_cannot_overwrite_newer_state() {
    let mut slot = Slot::reserved();
    let expected_version = slot.set_loading();
    let attempt = slot.snapshot(expected_version);
    slot.state_revision += 1;
    let mut stats = ImageReloadStats::default();

    let recording = failure_recording(attempt.is_current(&slot.observe()), VersionCheck::Current, false, &mut stats);

    assert_eq!(recording, FailureRecording::Stale);
    assert_eq!(stats.stale, 1);
}

#[test]
fn same_version_state_aba_retires_an_old_failure_as_stale() {
    let mut slot = Slot::reserved();
    let expected_version = slot.set_loading();
    let attempt = slot.snapshot(expected_version);
    slot.state_revision += 1;
    assert_eq!(slot.set_loading(), expected_version);
    let mut stats = ImageReloadStats::default();

    let recording = failure_recording(attempt.is_current(&slot.observe()), VersionCheck::Current, false, &mut stats);

    assert_eq!(recording, FailureRecording::Stale);
    assert_eq!(stats.stale, 1);
    assert_eq!(stats.failed, 0);
}

#[test]
fn slot_replacement_retires_an_old_failure_as_stale() {
    let mut slot = Slot::reserved();
    slot.commit(4);
    let expected_version = slot.set_loading();
    let attempt = slot.snapshot(expected_version);
    slot.insert(4);
    let mut stats = ImageReloadStats::default();

    let recording = failure_recording(attempt.is_current(&slot.observe()), VersionCheck::Current, true, &mut stats);

    assert_eq!(recording, FailureRecording::Stale);
    assert_eq!(stats.stale, 1);
    assert_eq!(stats.failed, 0);
}

use nara::image::reload::{ImageDiagnosticKey as K, ImageDiagnosticValue as V};

fn diagnostic_field(key: ImageDiagnosticKey, value: ImageDiagnosticValue) -> ImageDiagnosticField {
    ImageDiagnosticField { key, value }
}

fn assert_diagnostic(error: ImageReloadError, code: &str, summary: &str, fields: Vec<ImageDiagnosticField>) {
    assert_eq!(error.stable_code(), code);
    assert_eq!(error.safe_summary(), summary);
    assert_eq!(image_reload_diagnostic_fields(&error), fields);
}

#[test]
fn image_reload_diagnostic_matrix_preserves_codes_and_typed_privacy_fields() {
    assert_diagnostic(ImageReloadError::MissingSourceDirectory, "image.reload-source-authority-missing", "Image source authority is absent", vec![]);
    assert_diagnostic(
        ImageReloadError::TaskFailed,
        "image.reload-task-failed",
        "Image import task failed",
        vec![diagnostic_field(K::Reason, V::Panicked), diagnostic_field(K::PanicPayload, V::Sensitive)],
    );
    assert_diagnostic(ImageReloadError::TaskTracking, "image.reload-task-tracking-failed", "Image import task tracking failed", vec![]);
    for stage in [
        ImageImportStage::Admission,
        ImageImportStage::SourceOpen,
        ImageImportStage::SourceRead,
        ImageImportStage::Header,
        ImageImportStage::Metadata,
        ImageImportStage::Decode,
        ImageImportStage::Finalize,
        ImageImportStage::Publication,
    ] {
        assert_diagnostic(
            ImageReloadError::Import(ImageImportError::Cancelled { stage }),
            "image.import-cancelled",
            "Image import was cancelled",
            vec![diagnostic_field(K::Stage, V::Stage(stage))],
        );
    }
    for feature in [
        ImageUnsupportedFeature::Animation,
        ImageUnsupportedFeature::Interlacing,
        ImageUnsupportedFeature::EmbeddedMetadata,
        ImageUnsupportedFeature::OutputColorModel,
    ] {
        assert_diagnostic(
            ImageReloadError::Import(ImageImportError::Unsupported { stage: ImageImportStage::Metadata, feature }),
            "image.import-feature-unsupported",
            "PNG feature is unsupported",
            vec![diagnostic_field(K::Stage, V::Stage(ImageImportStage::Metadata)), diagnostic_field(K::Feature, V::Feature(feature))],
        );
    }
    for kind in [
        ImagePngFailureKind::Truncated,
        ImagePngFailureKind::InvalidData,
        ImagePngFailureKind::DecoderContract,
        ImagePngFailureKind::AllocationFailed,
    ] {
        assert_diagnostic(
            ImageReloadError::Import(ImageImportError::Png { stage: ImageImportStage::Decode, kind }),
            "image.import-png-invalid",
            "PNG input is invalid",
            vec![
                diagnostic_field(K::Stage, V::Stage(ImageImportStage::Decode)),
                diagnostic_field(K::Reason, V::PngReason(kind)),
                diagnostic_field(K::DecoderDetail, V::Sensitive),
            ],
        );
    }
    for kind in [
        ImageSourceFailureKind::InvalidLogicalPath,
        ImageSourceFailureKind::NotFound,
        ImageSourceFailureKind::PermissionDenied,
        ImageSourceFailureKind::AllocationFailed,
        ImageSourceFailureKind::Unsupported,
        ImageSourceFailureKind::AuthorityRejected,
        ImageSourceFailureKind::Io,
    ] {
        assert_diagnostic(
            ImageReloadError::Import(ImageImportError::Source { stage: ImageImportStage::SourceOpen, kind }),
            "image.import-source-failed",
            "Image source access failed",
            vec![
                diagnostic_field(K::Stage, V::Stage(ImageImportStage::SourceOpen)),
                diagnostic_field(K::Reason, V::SourceReason(kind)),
                diagnostic_field(K::SourceDetail, V::Sensitive),
            ],
        );
    }
    for kind in [
        ImagePublicationFailureKind::AlreadyLoaded,
        ImagePublicationFailureKind::SlotChanged,
        ImagePublicationFailureKind::TargetMismatch,
        ImagePublicationFailureKind::StateChanged,
        ImagePublicationFailureKind::ReloadValueMissing,
        ImagePublicationFailureKind::ReloadValueChanged,
        ImagePublicationFailureKind::UnknownAsset,
        ImagePublicationFailureKind::VersionExhausted,
        ImagePublicationFailureKind::Stale,
    ] {
        assert_diagnostic(
            ImageReloadError::Import(ImageImportError::Publication(kind)),
            "image.import-publication-invalid",
            "Image publication admission is invalid",
            vec![diagnostic_field(K::Stage, V::Stage(ImageImportStage::Publication)), diagnostic_field(K::Reason, V::PublicationReason(kind))],
        );
        assert_diagnostic(
            ImageReloadError::Publication(kind),
            "image.reload-publication-failed",
            "Image publication failed",
            vec![diagnostic_field(K::Reason, V::PublicationReason(kind))],
        );
    }
    for reason in [TaskRejectReason::QueueFull, TaskRejectReason::PoolClosed, TaskRejectReason::TaskIdExhausted] {
        assert_diagnostic(
            ImageReloadError::TaskRejected(reason),
            "image.reload-task-rejected",
            "Image import task was rejected",
            vec![diagnostic_field(K::Reason, V::RejectReason(reason))],
        );
    }
    for (reason, before_start) in [
        (TaskCancellationReason::Requested, true),
        (TaskCancellationReason::Coalesced, false),
        (TaskCancellationReason::PoolShutdown, false),
    ] {
        assert_diagnostic(
            ImageReloadError::TaskCancelled { reason, before_start },
            "image.reload-task-cancelled",
            "Image import task was cancelled",
            vec![diagnostic_field(K::Reason, V::CancellationReason(reason)), diagnostic_field(K::BeforeStart, V::Flag(before_start))],
        );
    }
    for kind in [
        ImageImportLimitKind::Width,
        ImageImportLimitKind::Height,
        ImageImportLimitKind::Pixels,
        ImageImportLimitKind::RgbaBytes,
        ImageImportLimitKind::DecoderWorkBytes,
        ImageImportLimitKind::AggregateInFlightBytes,
    ] {
        assert_diagnostic(
            ImageReloadError::Import(ImageImportError::Budget {
                stage: ImageImportStage::SourceRead,
                error: ImageImportBudgetError::per_image(kind, Some(13), 12),
            }),
            "image.import-budget-exceeded",
            "Image import budget was exceeded",
            vec![
                diagnostic_field(K::Stage, V::Stage(ImageImportStage::SourceRead)),
                diagnostic_field(K::LimitKind, V::LimitKind(kind)),
                diagnostic_field(K::Limit, V::Count(12)),
                diagnostic_field(K::Observed, V::Count(13)),
            ],
        );
    }
    assert_diagnostic(
        ImageReloadError::Import(ImageImportError::Budget {
            stage: ImageImportStage::Header,
            error: ImageImportBudgetError::per_image(ImageImportLimitKind::Pixels, None, 12),
        }),
        "image.import-budget-exceeded",
        "Image import budget was exceeded",
        vec![
            diagnostic_field(K::Stage, V::Stage(ImageImportStage::Header)),
            diagnostic_field(K::LimitKind, V::LimitKind(ImageImportLimitKind::Pixels)),
            diagnostic_field(K::Limit, V::Count(12)),
        ],
    );
    assert_diagnostic(
        ImageReloadError::Import(ImageImportError::Budget {
            stage: ImageImportStage::Admission,
            error: ImageImportBudgetError::aggregate(13, 7, 12),
        }),
        "image.import-budget-exceeded",
        "Image import budget was exceeded",
        vec![
            diagnostic_field(K::Stage, V::Stage(ImageImportStage::Admission)),
            diagnostic_field(K::LimitKind, V::LimitKind(ImageImportLimitKind::AggregateInFlightBytes)),
            diagnostic_field(K::Limit, V::Count(12)),
            diagnostic_field(K::Observed, V::Count(13)),
            diagnostic_field(K::InUse, V::Count(7)),
        ],
    );
}

#[test]
fn spawned_import_tasks_count_by_what_the_pool_made_of_them() {
    let mut stats = ImageReloadStats::default();
    assert!(count_spawn::<u8>(ImageImportSpawn::Followed, &mut stats).is_none());
    assert!(matches!(count_spawn::<u8>(ImageImportSpawn::Unfollowed, &mut stats), Some(ReadyImageImportOutcome::TrackingFailure)));
    assert!(matches!(
        count_spawn::<u8>(ImageImportSpawn::Rejected(TaskRejectReason::PoolClosed), &mut stats),
        Some(ReadyImageImportOutcome::Rejected(TaskRejectReason::PoolClosed))
    ));
    assert_eq!(stats.spawned, 1);
    assert_eq!(stats.rejected, 1);
    assert_eq!(stats.failed, 0);
}

fn source_metadata() -> ImageSourceMetadata {
    ImageSourceMetadata::new(TEXTURE_ID, "textures/player.png".to_owned(), [1; 32], [2; 32])
}
