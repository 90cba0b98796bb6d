use nara::gameplay::command::{
    GameplayCommandPayload, GameplayCommandPayloadError, GameplayCommandValue, MAX_GAMEPLAY_COMMAND_PAYLOAD_ITEMS,
    MAX_GAMEPLAY_COMMAND_PAYLOAD_KEY_BYTES, MAX_GAMEPLAY_COMMAND_STRING_BYTES,
};
use nara::gameplay::queue::{GameplayCommandBatch, GameplayCommandLifecycleError, GameplayCommandQueue};
use nara::identity::remap::{EntityReferenceRemap, IdentityRemapError};
use nara::identity::types::{RuntimeEntityReference, SceneEntityId, SceneInstanceId};
use nara::image::asset::{ImageAsset, ImageAssetCreateError, ImageColorSpace, ImageExtent, ImageFormat, ImageSourceMetadata};
use nara::image::budget::ImageImportBudgetHost;
use nara::image::importer::{ImageImporter, ImageImporterCreateError};
use nara::image::limits::{ImageImportLimitKind, ImageImportLimits, ImageImportLimitsError};
use nara::limit::{ByteLimit, PositiveU32};

const MIB: usize = 1024 * 1024;

fn scene_ref(instance: u64, entity: &str) -> RuntimeEntityReference {
    RuntimeEntityReference::scene(SceneInstanceId::new(instance).unwrap(), SceneEntityId::new(entity).unwrap())
}

#[test]
fn payload_keys_and_sizes_are_refused_without_change() {
    let mut payload = GameplayCommandPayload::new();
    assert_eq!(payload.insert("", GameplayCommandValue::Bool(true)), Err(GameplayCommandPayloadError::EmptyKey));
    assert_eq!(payload.insert("a\u{7}", GameplayCommandValue::Bool(true)), Err(GameplayCommandPayloadError::ContainsControl));
    let long_key = "k".repeat(MAX_GAMEPLAY_COMMAND_PAYLOAD_KEY_BYTES + 1);
    assert_eq!(
        payload.insert(&long_key, GameplayCommandValue::Bool(true)),
        Err(GameplayCommandPayloadError::KeyTooLong {
            length: MAX_GAMEPLAY_COMMAND_PAYLOAD_KEY_BYTES + 1,
            maximum: MAX_GAMEPLAY_COMMAND_PAYLOAD_KEY_BYTES,
        })
    );
    assert!(payload.is_empty());

    for index in 0..MAX_GAMEPLAY_COMMAND_PAYLOAD_ITEMS {
        payload.insert(&format!("k{index:04}"), GameplayCommandValue::Bool(true)).unwrap();
    }
    let full = payload.clone();
    assert!(matches!(
        payload.insert("overflow", GameplayCommandValue::Bool(true)),
        Err(GameplayCommandPayloadError::TooManyItems { .. })
    ));
    assert_eq!(payload, full);
    assert_eq!(payload.insert("k0000", GameplayCommandValue::I64(3)), Ok(Some(GameplayCommandValue::Bool(true))));

    let mut large = GameplayCommandPayload::new();
    large.insert("a", GameplayCommandValue::String("x".repeat(MAX_GAMEPLAY_COMMAND_STRING_BYTES))).unwrap();
    let before = large.clone();
    assert!(matches!(
        large.insert("b", GameplayCommandValue::String("x".repeat(MAX_GAMEPLAY_COMMAND_STRING_BYTES))),
        Err(GameplayCommandPayloadError::TooManyBytes { .. })
    ));
    assert_eq!(large, before);
}

#[test]
fn zero_and_mismatched_fixed_ticks_fault_the_queue() {
    let mut queue = GameplayCommandQueue::default();
    let mut batch = GameplayCommandBatch::new();
    assert_eq!(queue.admit_fixed_tick(0, &mut batch), Err(GameplayCommandLifecycleError::ZeroTick));
    assert_eq!(queue.last_lifecycle_error(), Some(&GameplayCommandLifecycleError::ZeroTick));

    let mut queue = GameplayCommandQueue::default();
    let mut batch = GameplayCommandBatch::new();
    queue.admit_fixed_tick(1, &mut batch).unwrap();
    assert_eq!(queue.acknowledge_fixed_tick(2, &mut batch), Err(GameplayCommandLifecycleError::BatchTickMismatch));
    assert_eq!(queue.admit_fixed_tick(2, &mut batch), Err(GameplayCommandLifecycleError::Poisoned));
}

#[test]
fn remap_completion_refuses_repeated_sources_and_targets() {
    let first = scene_ref(1, "player");
    let second = scene_ref(1, "enemy");
    let target = scene_ref(2, "player");
    let other_target = scene_ref(2, "enemy");

    assert!(matches!(
        EntityReferenceRemap::complete(vec![first.clone(), first.clone()], vec![(first.clone(), target.clone())]),
        Err(IdentityRemapError::DuplicateExpectedSource { reference }) if reference == first
    ));
    assert!(matches!(
        EntityReferenceRemap::complete(
            vec![first.clone()],
            vec![(first.clone(), target.clone()), (first.clone(), other_target.clone())]
        ),
        Err(IdentityRemapError::DuplicateSource { reference }) if reference == first
    ));
    assert!(matches!(
        EntityReferenceRemap::complete(
            vec![first.clone(), second.clone()],
            vec![(first.clone(), target.clone()), (second.clone(), target.clone())]
        ),
        Err(IdentityRemapError::DuplicateTarget { target: repeated, first_source, second_source })
            if *repeated == target && *first_source == first && *second_source == second
    ));
    let remap = EntityReferenceRemap::complete(
        vec![first.clone(), second.clone()],
        vec![(second.clone(), other_target.clone()), (first.clone(), target.clone())],
    )
    .unwrap();
    assert_eq!(remap.rewrite(&first), Ok(target));
    assert_eq!(remap.rewrite(&second), Ok(other_target));
}

#[test]
fn limits_refuse_hard_maxima_and_an_aggregate_below_one_file() {
    assert!(matches!(
        ImageImportLimits::default().with_max_width(PositiveU32::new(40_000).unwrap()).validate(),
        Err(ImageImportLimitsError::HardMaximumExceeded { kind: ImageImportLimitKind::Width, configured: 40_000, .. })
    ));
    let below = ImageImportLimits::default()
        .with_max_encoded_bytes(ByteLimit::new(16 * MIB).unwrap())
        .with_max_rgba_bytes(ByteLimit::new(64 * MIB).unwrap())
        .with_max_in_flight_bytes(ByteLimit::new(64 * MIB).unwrap());
    assert_eq!(
        below.validate(),
        Err(ImageImportLimitsError::AggregateBelowFileAdmissionCeiling {
            aggregate: (64 * MIB) as u64,
            required: (80 * MIB) as u64,
        })
    );
}

#[test]
fn importers_refuse_hosts_that_do_not_fit_their_limits() {
    let host_limits = ImageImportLimits::default()
        .with_max_encoded_bytes(ByteLimit::new(16 * MIB).unwrap())
        .with_max_rgba_bytes(ByteLimit::new(64 * MIB).unwrap())
        .with_max_in_flight_bytes(ByteLimit::new(80 * MIB).unwrap());

    let mismatched = host_limits.with_max_in_flight_bytes(ByteLimit::new(96 * MIB).unwrap());
    assert!(matches!(
        ImageImporter::with_budget_host(mismatched, ImageImportBudgetHost::new(host_limits).unwrap()),
        Err(ImageImporterCreateError::BudgetLimitMismatch { configured, host })
            if configured == (96 * MIB) as u64 && host == (80 * MIB) as u64
    ));

    let wide_files = host_limits
        .with_max_encoded_bytes(ByteLimit::new(32 * MIB).unwrap())
        .with_max_rgba_bytes(ByteLimit::new(MIB).unwrap());
    assert!(matches!(
        ImageImporter::with_budget_host(wide_files, ImageImportBudgetHost::new(host_limits).unwrap()),
        Err(ImageImporterCreateError::BudgetAdmissionCeilingTooSmall { aggregate, required })
            if aggregate == (80 * MIB) as u64 && required == (96 * MIB) as u64
    ));
}

#[test]
fn image_values_must_exactly_cover_a_non_zero_extent() {
    assert_eq!(
        ImageAsset::new(ImageSourceMetadata::new(1, String::new(), [0; 32], [0; 32]), ImageExtent::new(0, 1), ImageFormat::Rgba8, ImageColorSpace::Srgb, Vec::new()).unwrap_err(),
        ImageAssetCreateError::ZeroExtent { extent: ImageExtent::new(0, 1) }
    );
    assert_eq!(
        ImageAsset::new(ImageSourceMetadata::new(1, String::new(), [0; 32], [0; 32]), ImageExtent::new(1, 1), ImageFormat::Rgba8, ImageColorSpace::Srgb, vec![1, 2, 3]).unwrap_err(),
        ImageAssetCreateError::PixelLengthMismatch { extent: ImageExtent::new(1, 1), expected: 4, actual: 3 }
    );
    if usize::BITS >= 64 {
        assert_eq!(
            ImageAsset::new(ImageSourceMetadata::new(1, String::new(), [0; 32], [0; 32]), ImageExtent::new(u32::MAX, u32::MAX), ImageFormat::Rgba8, ImageColorSpace::Srgb, Vec::new())
                .unwrap_err(),
            ImageAssetCreateError::ByteLengthOverflow { extent: ImageExtent::new(u32::MAX, u32::MAX) }
        );
    }
}
