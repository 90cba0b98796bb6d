use nara::image::asset::{ImageAsset, ImageColorSpace, ImageExtent, ImageFormat, ImageSourceMetadata};
use nara::image::prepare::{image_asset_descriptor_input, image_descriptor_input};
use nara::image::budget::{ImageImportBudget, ImageImportBudgetHost, ImageImportBudgetSnapshot, ImageImportCharge};
use nara::image::decode::ImportCancellation;
use nara::image::import::{ImageImportStage, ImagePngFailureKind, ImagePublicationFailureKind, ImageUnsupportedFeature};
use nara::image::importer::{ImageImporter, ImageImporterCreateError};
use nara::image::limits::{ImageImportBudgetError, ImageImportLimitKind, ImageImportLimits, ImageImportMemoryPlan};
use nara::image::png::{assemble_rgba, check_read_length, ImageImportError, PngColorType};
use nara::image::publication::{ImageImportedAsset, ImagePublicationSnapshot, PublicationObservation};
use nara::limit::{ByteLimit, PositiveU32, PositiveU64};

const TEXTURE_ID: u128 = 0x2f0d71c7_14fc_4ed4_b48b_1c61bba8b97f;
const HANDLE: u64 = 1;
const OVERSIZED_EXIF_PAYLOAD_BYTES: usize = 8 * 1024 * 1024 + 1;

/// One image asset slot of a runtime asset store: the stable id its handle is bound to, the
/// image in it, and the revisions and version the store keeps for it.
struct Slot {
    bound: Option<u128>,
    image: Option<ImageAsset>,
    slot_revision: u64,
    version: u64,
    state_revision: u64,
}

impl Slot {
    /// A slot of store number `store`; state revisions of distinct stores never coincide.
    fn reserved(bound: u128, store: u64) -> Self {
        Slot { bound: Some(bound), image: None, slot_revision: 0, version: 0, state_revision: store << 32 }
    }

    fn observe(&self) -> PublicationObservation {
        PublicationObservation {
            bound_stable_id: self.bound,
            current_version: self.version,
            state_revision: self.state_revision,
            current_rgba_bytes: self.image.as_ref().map(|image| image.pixels().len()),
            slot_revision: self.slot_revision,
        }
    }

    fn insert(&mut self, image: ImageAsset) -> Option<ImageAsset> {
        self.slot_revision += 1;
        self.image.replace(image)
    }

    fn remove(&mut self) -> Option<ImageAsset> {
        self.slot_revision += 1;
        self.image.take()
    }

    fn set_loading(&mut self) -> u64 {
        self.state_revision += 1;
        self.version
    }

    fn record_load_failure(&mut self) {
        self.state_revision += 1;
    }

    fn snapshot(&self, source: u128, expected_version: u64) -> ImagePublicationSnapshot {
        ImagePublicationSnapshot::capture(HANDLE, source, expected_version, &self.observe())
    }

    fn import(
        &self,
        importer: &mut ImageImporter,
        source: u128,
        expected_version: u64,
        bytes: &[u8],
    ) -> Result<ImageImportedAsset, ImageImportError> {
        let observed = self.observe();
        importer.import_image(source, source_metadata(source, bytes), bytes.to_vec(), self.snapshot(source, expected_version), &observed)
    }

    fn commit(&mut self, importer: &mut ImageImporter, imported: ImageImportedAsset) -> Result<(), ImagePublicationFailureKind> {
        let (image, _) = imported.commit(importer, &self.observe())?;
        self.image = Some(image);
        self.slot_revision += 1;
        self.version += 1;
        self.state_revision += 1;
        Ok(())
    }
}

fn source_metadata(source: u128, bytes: &[u8]) -> ImageSourceMetadata {
    ImageSourceMetadata::new(source, "textures/player.png".to_owned(), *blake3::hash(bytes).as_bytes(), [7; 32])
}

fn import_uncommitted(importer: &mut ImageImporter, bytes: &[u8]) -> ImageImportedAsset {
    Slot::reserved(TEXTURE_ID, 0).import(importer, TEXTURE_ID, 0, bytes).unwrap()
}

fn image_of(bytes: &[u8]) -> ImageAsset {
    let mut importer = ImageImporter::default();
    let imported = import_uncommitted(&mut importer, bytes);
    let (image, _) = imported.commit(&mut importer, &Slot::reserved(TEXTURE_ID, 0).observe()).unwrap();
    image
}

fn loaded_slot(importer: &mut ImageImporter, pixels: &[u8]) -> Slot {
    let mut slot = Slot::reserved(TEXTURE_ID, 0);
    let imported = slot.import(importer, TEXTURE_ID, 0, &rgba_png(1, 1, pixels)).unwrap();
    slot.commit(importer, imported).unwrap();
    slot
}

fn rgba_png(width: u32, height: u32, pixels: &[u8]) -> Vec<u8> {
    encoded_png(width, height, png::ColorType::Rgba, pixels, false)
}

fn encoded_png(width: u32, height: u32, color: png::ColorType, pixels: &[u8], animated: bool) -> Vec<u8> {
    let mut bytes = Vec::new();
    let mut encoder = png::Encoder::new(&mut bytes, width, height);
    encoder.set_color(color);
    encoder.set_depth(png::BitDepth::Eight);
    if animated {
        encoder.set_animated(1, 0).unwrap();
    }
    let mut writer = encoder.write_header().unwrap();
    writer.write_image_data(pixels).unwrap();
    drop(writer);
    bytes
}

fn patch_ihdr(source: &[u8], width: u32, height: u32, interlace: u8) -> Vec<u8> {
    let mut bytes = source.to_vec();
    assert_eq!(&bytes[12..16], b"IHDR");
    bytes[16..20].copy_from_slice(&width.to_be_bytes());
    bytes[20..24].copy_from_slice(&height.to_be_bytes());
    bytes[28] = interlace;
    let checksum = crc32(&bytes[12..29]);
    bytes[29..33].copy_from_slice(&checksum.to_be_bytes());
    bytes
}

fn png_with_oversized_exif_chunk(source: &[u8]) -> Vec<u8> {
    const IHDR_END: usize = 33;
    const MINIMAL_TIFF_PROFILE: &[u8] = b"II*\0\x08\0\0\0\0\0\0\0\0\0";

    assert!(source.len() > IHDR_END);
    assert_eq!(&source[..8], b"\x89PNG\r\n\x1a\n");
    assert_eq!(&source[12..16], b"IHDR");

    let chunk_bytes = OVERSIZED_EXIF_PAYLOAD_BYTES.checked_add(12).unwrap();
    let mut bytes = Vec::with_capacity(source.len().checked_add(chunk_bytes).unwrap());
    bytes.extend_from_slice(&source[..IHDR_END]);
    bytes.extend_from_slice(&u32::try_from(OVERSIZED_EXIF_PAYLOAD_BYTES).unwrap().to_be_bytes());
    let chunk_type_offset = bytes.len();
    bytes.extend_from_slice(b"eXIf");
    let payload_offset = bytes.len();
    bytes.resize(payload_offset + OVERSIZED_EXIF_PAYLOAD_BYTES, 0);
    bytes[payload_offset..payload_offset + MINIMAL_TIFF_PROFILE.len()].copy_from_slice(MINIMAL_TIFF_PROFILE);
    let checksum = crc32(&bytes[chunk_type_offset..]);
    bytes.extend_from_slice(&checksum.to_be_bytes());
    bytes.extend_from_slice(&source[IHDR_END..]);
    bytes
}

fn assert_complete_oversized_exif_png(bytes: &[u8]) {
    assert_eq!(&bytes[..8], b"\x89PNG\r\n\x1a\n");
    let mut offset = 8_usize;
    let mut chunk_index = 0_usize;
    let mut saw_exif = false;
    let mut saw_idat = false;
    let mut saw_iend = false;

    while offset < bytes.len() {
        let header_end = offset.checked_add(8).unwrap();
        let header = bytes.get(offset..header_end).expect("complete chunk header");
        let length = u32::from_be_bytes(header[..4].try_into().unwrap()) as usize;
        let kind = &header[4..8];
        let data_end = header_end.checked_add(length).unwrap();
        let chunk_end = data_end.checked_add(4).unwrap();
        let chunk = bytes.get(offset..chunk_end).expect("complete chunk payload and CRC");
        let expected_crc = u32::from_be_bytes(chunk[chunk.len() - 4..].try_into().unwrap());
        assert_eq!(crc32(&chunk[4..chunk.len() - 4]), expected_crc);

        match kind {
            b"IHDR" => {
                assert_eq!(chunk_index, 0);
                assert_eq!(length, 13);
            }
            b"eXIf" => {
                assert_eq!(chunk_index, 1);
                assert_eq!(length, OVERSIZED_EXIF_PAYLOAD_BYTES);
                assert!(!saw_exif);
                assert!(!saw_idat);
                saw_exif = true;
            }
            b"IDAT" => {
                assert!(saw_exif);
                assert!(!saw_iend);
                saw_idat = true;
            }
            b"IEND" => {
                assert_eq!(length, 0);
                assert!(saw_idat);
                assert!(!saw_iend);
                assert_eq!(chunk_end, bytes.len());
                saw_iend = true;
            }
            _ => panic!("unexpected PNG chunk {kind:?}"),
        }

        offset = chunk_end;
        chunk_index += 1;
    }

    assert!(saw_exif);
    assert!(saw_idat);
    assert!(saw_iend);
    assert_eq!(offset, bytes.len());
}

fn crc32(bytes: &[u8]) -> u32 {
    let mut checksum = u32::MAX;
    for byte in bytes {
        checksum ^= u32::from(*byte);
        for _ in 0..8 {
            let mask = 0_u32.wrapping_sub(checksum & 1);
            checksum = (checksum >> 1) ^ (0xedb8_8320 & mask);
        }
    }
    !checksum
}

fn assert_budget_error(error: ImageImportError, stage: ImageImportStage, kind: ImageImportLimitKind, observed: Option<u64>) {
    let ImageImportError::Budget { stage: actual_stage, error } = error else {
        panic!("expected budget error, got {error:?}");
    };
    assert_eq!(error.kind(), kind);
    assert_eq!(error.observed(), observed);
    assert_eq!(actual_stage, stage);
}

fn assert_plan_error(error: ImageImportBudgetError, kind: ImageImportLimitKind, observed: Option<u64>) {
    assert_eq!(error.kind(), kind);
    assert_eq!(error.observed(), observed);
}

fn assert_budget_fully_released(snapshot: ImageImportBudgetSnapshot) {
    assert_eq!(snapshot.active_reservations(), 0);
    assert_eq!(snapshot.active_bytes(), 0);
    assert_eq!(snapshot.active_encoded_bytes(), 0);
    assert_eq!(snapshot.active_decoder_work_bytes(), 0);
    assert_eq!(snapshot.active_rgba_bytes(), 0);
    assert_eq!(snapshot.active_publication_overlap_bytes(), 0);
    assert_eq!(snapshot.total_reserved_bytes(), snapshot.total_released_bytes());
    assert_eq!(snapshot.accepted_reservations(), snapshot.released_reservations());
}

struct Token(bool);

impl ImportCancellation for Token {
    fn is_cancelled(&self) -> bool {
        self.0
    }
}

#[test]
fn reservation_resize_is_atomic_and_release_is_exact() {
    let mut budget = ImageImportBudget::new(ByteLimit::new(10).unwrap());
    let mut reservation = budget.reserve(ImageImportCharge::encoded(4)).unwrap();
    budget.resize(&mut reservation, ImageImportCharge::encoded(9)).unwrap();

    let rejected = budget.resize(&mut reservation, ImageImportCharge::encoded(11)).err().unwrap();
    assert_eq!(rejected.kind(), ImageImportLimitKind::AggregateInFlightBytes);
    assert_eq!(budget.snapshot().active_bytes(), 9);

    budget.resize(&mut reservation, ImageImportCharge::encoded(3)).unwrap();
    budget.release(reservation);
    let snapshot = budget.snapshot();
    assert_eq!(snapshot.active_bytes(), 0);
    assert_eq!(snapshot.active_reservations(), 0);
    assert_eq!(snapshot.total_reserved_bytes(), snapshot.total_released_bytes());
    assert_eq!(snapshot.high_water_bytes(), 9);
    assert_eq!(snapshot.rejected_reservations(), 1);
    assert_eq!(snapshot.released_reservations(), 1);
}

#[test]
fn memory_plan_checks_each_semantic_limit_before_peak_math() {
    let limits = ImageImportLimits::default()
        .with_max_encoded_bytes(ByteLimit::new(8).unwrap())
        .with_max_width(PositiveU32::new(2).unwrap())
        .with_max_height(PositiveU32::new(2).unwrap())
        .with_max_pixels(PositiveU64::new(4).unwrap())
        .with_max_rgba_bytes(ByteLimit::new(16).unwrap());
    let plan = ImageImportMemoryPlan::for_png(limits, 8, 8, 2, 2, 16).unwrap();
    assert_eq!(plan.rgba_bytes(), 16);
    assert_eq!(plan.publication_overlap_bytes(), 16);

    assert_plan_error(
        ImageImportMemoryPlan::for_png(limits, 9, 9, 2, 2, 0).err().unwrap(),
        ImageImportLimitKind::EncodedBytes,
        Some(9),
    );
    assert_plan_error(ImageImportMemoryPlan::for_png(limits, 8, 8, 3, 2, 0).err().unwrap(), ImageImportLimitKind::Width, Some(3));
    assert_plan_error(ImageImportMemoryPlan::for_png(limits, 8, 8, 2, 3, 0).err().unwrap(), ImageImportLimitKind::Height, Some(3));

    let pixel_limits = limits.with_max_width(PositiveU32::new(3).unwrap()).with_max_height(PositiveU32::new(2).unwrap());
    assert_plan_error(
        ImageImportMemoryPlan::for_png(pixel_limits, 8, 8, 3, 2, 0).err().unwrap(),
        ImageImportLimitKind::Pixels,
        Some(6),
    );

    let rgba_limits = pixel_limits.with_max_pixels(PositiveU64::new(6).unwrap()).with_max_rgba_bytes(ByteLimit::new(23).unwrap());
    assert_plan_error(
        ImageImportMemoryPlan::for_png(rgba_limits, 8, 8, 3, 2, 0).err().unwrap(),
        ImageImportLimitKind::RgbaBytes,
        Some(24),
    );

    let work_limits = limits.with_max_decoder_work_bytes(ByteLimit::new(plan.decoder_work_bytes() - 1).unwrap());
    assert_plan_error(
        ImageImportMemoryPlan::for_png(work_limits, 8, 8, 2, 2, 0).err().unwrap(),
        ImageImportLimitKind::DecoderWorkBytes,
        Some(plan.decoder_work_bytes() as u64),
    );
}

#[test]
fn memory_plan_rejects_checked_arithmetic_overflow() {
    if usize::BITS < 64 {
        return;
    }
    let limits = ImageImportLimits::default()
        .with_max_width(PositiveU32::new(u32::MAX).unwrap())
        .with_max_height(PositiveU32::new(u32::MAX).unwrap())
        .with_max_pixels(PositiveU64::new(u64::MAX).unwrap())
        .with_max_rgba_bytes(ByteLimit::new(usize::MAX).unwrap())
        .with_max_decoder_work_bytes(ByteLimit::new(usize::MAX).unwrap())
        .with_max_in_flight_bytes(ByteLimit::new(usize::MAX).unwrap());

    assert_plan_error(
        ImageImportMemoryPlan::for_png(limits, 1, 1, u32::MAX, u32::MAX, 0).err().unwrap(),
        ImageImportLimitKind::RgbaBytes,
        None,
    );
    assert_plan_error(
        ImageImportMemoryPlan::for_png(limits, 1, 1, 1, 1, usize::MAX).err().unwrap(),
        ImageImportLimitKind::AggregateInFlightBytes,
        None,
    );
}

#[test]
fn category_charges_follow_peak_and_publication_lifetimes() {
    let plan = ImageImportMemoryPlan::for_png(ImageImportLimits::default(), 128, 128, 2, 2, 16).unwrap();
    let mut budget = ImageImportBudget::new(ByteLimit::new(plan.peak_bytes()).unwrap());
    let mut reservation = budget.reserve(ImageImportCharge::encoded(128)).unwrap();
    budget.resize(&mut reservation, ImageImportCharge::peak(plan)).unwrap();

    let peak = budget.snapshot();
    assert_eq!(peak.active_bytes(), plan.peak_bytes());
    assert_eq!(peak.active_encoded_bytes(), plan.encoded_bytes());
    assert_eq!(peak.active_decoder_work_bytes(), plan.decoder_work_bytes());
    assert_eq!(peak.active_rgba_bytes(), plan.rgba_bytes());
    assert_eq!(peak.active_publication_overlap_bytes(), plan.publication_overlap_bytes());

    budget.resize(&mut reservation, ImageImportCharge::publication(plan)).unwrap();
    let publication = budget.snapshot();
    assert_eq!(publication.active_encoded_bytes(), 0);
    assert_eq!(publication.active_decoder_work_bytes(), 0);
    assert_eq!(publication.active_rgba_bytes(), plan.rgba_bytes());
    assert_eq!(publication.active_publication_overlap_bytes(), plan.publication_overlap_bytes());

    budget.release(reservation);
    assert_budget_fully_released(budget.snapshot());
}

#[test]
fn png_import_produces_rgba8_image_asset() {
    let bytes = rgba_png(2, 1, &[255, 0, 0, 255, 0, 255, 0, 128]);
    let mut importer = ImageImporter::default();

    let imported = import_uncommitted(&mut importer, &bytes);

    assert_eq!(imported.image().extent(), ImageExtent::new(2, 1));
    assert_eq!(imported.image().format(), ImageFormat::Rgba8);
    assert_eq!(imported.image().color_space(), ImageColorSpace::Srgb);
    assert_eq!(imported.image().pixels().len(), 8);
    assert_eq!(imported.image().pixels(), &[255, 0, 0, 255, 0, 255, 0, 128]);
    imported.discard(&mut importer);
    assert_budget_fully_released(importer.budget_snapshot());
}

#[test]
fn imported_image_stores_under_reserved_handle() {
    let mut importer = ImageImporter::default();
    let mut slot = Slot::reserved(TEXTURE_ID, 0);
    let imported = slot.import(&mut importer, TEXTURE_ID, 0, &rgba_png(1, 1, &[0, 0, 255, 255])).unwrap();

    slot.commit(&mut importer, imported).unwrap();

    let stored = slot.image.as_ref().unwrap();
    assert_eq!(stored.extent(), ImageExtent::new(1, 1));
    assert_eq!(slot.bound, Some(TEXTURE_ID));
    assert_budget_fully_released(importer.budget_snapshot());
}

#[test]
fn publication_admission_rejects_a_mismatched_stable_target_without_charging() {
    let source = 0x20ab890b_5b80_4ff7_aa0b_99702ecbf145_u128;
    let target = 0xf6e87fe8_ac89_4c60_9423_1692b850bb1d_u128;
    let mut importer = ImageImporter::default();
    let slot = Slot::reserved(target, 0);

    let error = slot.import(&mut importer, source, 0, &rgba_png(1, 1, &[0, 0, 255, 255])).err().unwrap();

    assert_eq!(error, ImageImportError::Publication(ImagePublicationFailureKind::TargetMismatch));
    assert_budget_fully_released(importer.budget_snapshot());
    assert_eq!(importer.budget_snapshot().accepted_reservations(), 0);
}

#[test]
fn publication_admission_rejects_an_existing_value_above_the_overlap_limit() {
    let mut importer =
        ImageImporter::with_limits(ImageImportLimits::default().with_max_rgba_bytes(ByteLimit::new(4).unwrap())).unwrap();
    let mut slot = Slot::reserved(TEXTURE_ID, 0);
    slot.insert(image_of(&rgba_png(2, 1, &[0; 8])));

    let error = slot.import(&mut importer, TEXTURE_ID, 0, &rgba_png(1, 1, &[0; 4])).err().unwrap();

    assert_eq!(
        error,
        ImageImportError::Budget {
            stage: ImageImportStage::Admission,
            error: ImageImportBudgetError::per_image(ImageImportLimitKind::RgbaBytes, Some(8), 4),
        }
    );
    assert_budget_fully_released(importer.budget_snapshot());
}

#[test]
fn first_load_candidate_rejects_late_slot_occupation_and_releases_charge() {
    let mut importer = ImageImporter::default();
    let mut slot = Slot::reserved(TEXTURE_ID, 0);
    let candidate = slot.import(&mut importer, TEXTURE_ID, 0, &rgba_png(1, 1, &[0, 0, 255, 255])).unwrap();
    let occupied = image_of(&rgba_png(1, 1, &[255, 0, 0, 255]));
    assert!(slot.insert(occupied).is_none());
    let version = slot.version;

    let error = slot.commit(&mut importer, candidate).err().unwrap();

    assert_eq!(error, ImagePublicationFailureKind::AlreadyLoaded);
    assert_eq!(slot.image.as_ref().unwrap().pixels(), &[255, 0, 0, 255]);
    assert_eq!(slot.version, version);
    assert_budget_fully_released(importer.budget_snapshot());
}

#[test]
fn publication_candidate_rejects_state_change_and_releases_charge() {
    let mut importer = ImageImporter::default();
    let mut slot = Slot::reserved(TEXTURE_ID, 0);
    let candidate = slot.import(&mut importer, TEXTURE_ID, 0, &rgba_png(1, 1, &[0, 0, 255, 255])).unwrap();
    slot.set_loading();
    slot.record_load_failure();

    let error = slot.commit(&mut importer, candidate).err().unwrap();

    assert_eq!(error, ImagePublicationFailureKind::StateChanged);
    assert!(slot.image.is_none());
    assert_budget_fully_released(importer.budget_snapshot());
}

#[test]
fn publication_candidate_rejects_same_version_state_aba() {
    let mut importer = ImageImporter::default();
    let mut slot = Slot::reserved(TEXTURE_ID, 0);
    let expected_version = slot.set_loading();
    let candidate = slot.import(&mut importer, TEXTURE_ID, expected_version, &rgba_png(1, 1, &[0, 0, 255, 255])).unwrap();
    slot.record_load_failure();
    assert_eq!(slot.set_loading(), expected_version);

    let error = slot.commit(&mut importer, candidate).err().unwrap();

    assert_eq!(error, ImagePublicationFailureKind::StateChanged);
    assert!(slot.image.is_none());
    assert_budget_fully_released(importer.budget_snapshot());
}

#[test]
fn publication_candidate_cannot_cross_runtime_asset_stores() {
    let mut importer = ImageImporter::default();
    let admitted = Slot::reserved(TEXTURE_ID, 1);
    let candidate = admitted.import(&mut importer, TEXTURE_ID, 0, &rgba_png(1, 1, &[0, 0, 255, 255])).unwrap();
    let mut replacement = Slot::reserved(TEXTURE_ID, 2);

    let error = replacement.commit(&mut importer, candidate).err().unwrap();

    assert_eq!(error, ImagePublicationFailureKind::StateChanged);
    assert!(replacement.image.is_none());
    assert_budget_fully_released(importer.budget_snapshot());
}

#[test]
fn first_load_candidate_rejects_empty_slot_aba() {
    let mut importer = ImageImporter::default();
    let mut slot = Slot::reserved(TEXTURE_ID, 0);
    let candidate = slot.import(&mut importer, TEXTURE_ID, 0, &rgba_png(1, 1, &[0, 0, 255, 255])).unwrap();
    slot.insert(image_of(&rgba_png(1, 1, &[255, 0, 0, 255])));
    slot.remove().unwrap();

    let error = slot.commit(&mut importer, candidate).err().unwrap();

    assert_eq!(error, ImagePublicationFailureKind::SlotChanged);
    assert!(slot.image.is_none());
    assert_budget_fully_released(importer.budget_snapshot());
}

#[test]
fn reload_candidate_rejects_missing_or_replaced_last_good_value() {
    let mut importer = ImageImporter::default();
    let mut slot = loaded_slot(&mut importer, &[255, 0, 0, 255]);
    let expected_version = slot.set_loading();
    let missing_candidate =
        slot.import(&mut importer, TEXTURE_ID, expected_version, &rgba_png(1, 1, &[0, 0, 255, 255])).unwrap();
    let last_good = slot.remove().unwrap();

    let missing_error = slot.commit(&mut importer, missing_candidate).err().unwrap();
    assert_eq!(missing_error, ImagePublicationFailureKind::ReloadValueMissing);
    slot.insert(last_good);

    let replaced_candidate =
        slot.import(&mut importer, TEXTURE_ID, expected_version, &rgba_png(1, 1, &[0, 0, 255, 255])).unwrap();
    slot.insert(image_of(&rgba_png(1, 1, &[0, 255, 0, 255])));

    let replaced_error = slot.commit(&mut importer, replaced_candidate).err().unwrap();
    assert_eq!(replaced_error, ImagePublicationFailureKind::ReloadValueChanged);
    assert_eq!(slot.image.as_ref().unwrap().pixels(), &[0, 255, 0, 255]);
    assert_budget_fully_released(importer.budget_snapshot());
}

#[test]
fn concurrent_candidates_retain_captured_replacement_overlap() {
    let mut importer = ImageImporter::default();
    let mut slot = loaded_slot(&mut importer, &[255, 0, 0, 255]);
    let expected_version = slot.set_loading();
    let first = slot.import(&mut importer, TEXTURE_ID, expected_version, &rgba_png(2, 2, &[10; 16])).unwrap();
    let second = slot.import(&mut importer, TEXTURE_ID, expected_version, &rgba_png(1, 1, &[20; 4])).unwrap();
    let captured_overlap = slot.image.as_ref().unwrap().pixels().len();
    assert_eq!(importer.budget_snapshot().active_publication_overlap_bytes(), captured_overlap * 2);

    slot.commit(&mut importer, first).unwrap();
    assert_eq!(slot.image.as_ref().unwrap().extent(), ImageExtent::new(2, 2));
    assert_eq!(importer.budget_snapshot().active_publication_overlap_bytes(), captured_overlap);
    let error = slot.commit(&mut importer, second).err().unwrap();
    assert_eq!(error, ImagePublicationFailureKind::Stale);
    assert_budget_fully_released(importer.budget_snapshot());
}

#[test]
fn shared_host_freezes_one_overlap_ceiling_for_different_importer_limits() {
    let host_limits = ImageImportLimits::default().with_max_rgba_bytes(ByteLimit::new(16).unwrap());
    let host = ImageImportBudgetHost::new(host_limits).unwrap();
    let too_large = host_limits.with_max_rgba_bytes(ByteLimit::new(32).unwrap());
    assert!(matches!(
        ImageImporter::with_budget_host(too_large, host),
        Err(ImageImporterCreateError::BudgetOverlapLimitTooSmall { required: 32, host: 16 })
    ));

    let host = ImageImportBudgetHost::new(host_limits).unwrap();
    let small_limits = host_limits.with_max_rgba_bytes(ByteLimit::new(4).unwrap());
    let mut small = ImageImporter::with_budget_host(small_limits, host).unwrap();
    let mut slot = loaded_slot(&mut small, &[255, 0, 0, 255]);
    let captured_overlap = slot.image.as_ref().unwrap().pixels().len();
    let expected_version = slot.set_loading();
    let small_candidate = slot.import(&mut small, TEXTURE_ID, expected_version, &rgba_png(1, 1, &[20; 4])).unwrap();
    assert_eq!(small_candidate.memory_plan().publication_overlap_bytes(), captured_overlap);
    slot.commit(&mut small, small_candidate).unwrap();
    assert_budget_fully_released(small.budget_snapshot());
}

#[test]
fn unpublished_byte_preflight_matches_the_import_memory_plan() {
    let bytes = rgba_png(1, 1, &[24, 120, 220, 255]);
    let mut importer = ImageImporter::default();

    let preflight = importer.preflight_unpublished_import(bytes.clone()).unwrap();
    let memory_plan = preflight.memory_plan();
    let image = preflight.import(&mut importer, source_metadata(TEXTURE_ID, &bytes)).unwrap();
    let unpublished_budget = importer.budget_snapshot();
    assert_eq!(unpublished_budget.active_reservations(), 0);
    assert_eq!(unpublished_budget.high_water_bytes(), memory_plan.peak_bytes());
    let imported = import_uncommitted(&mut importer, &bytes);

    assert_eq!(memory_plan, imported.memory_plan());
    assert_eq!(memory_plan.publication_overlap_bytes(), 0);
    assert_eq!(image, *imported.image());
    imported.discard(&mut importer);
}

#[test]
fn real_ihdr_enforces_dimension_pixel_and_rgba_boundaries_before_decode() {
    let valid = rgba_png(1, 1, &[10, 20, 30, 255]);
    let exact_limits = ImageImportLimits::default()
        .with_max_width(PositiveU32::new(1).unwrap())
        .with_max_height(PositiveU32::new(1).unwrap())
        .with_max_pixels(PositiveU64::new(1).unwrap())
        .with_max_rgba_bytes(ByteLimit::new(4).unwrap());
    let mut exact = ImageImporter::with_limits(exact_limits).unwrap();
    let accepted = import_uncommitted(&mut exact, &valid);
    accepted.discard(&mut exact);

    let width = patch_ihdr(&valid, 2, 1, 0);
    let slot = Slot::reserved(TEXTURE_ID, 0);
    assert_budget_error(
        slot.import(&mut exact, TEXTURE_ID, 0, &width).err().unwrap(),
        ImageImportStage::Header,
        ImageImportLimitKind::Width,
        Some(2),
    );
    let height = patch_ihdr(&valid, 1, 2, 0);
    assert_budget_error(
        slot.import(&mut exact, TEXTURE_ID, 0, &height).err().unwrap(),
        ImageImportStage::Header,
        ImageImportLimitKind::Height,
        Some(2),
    );

    let mut pixel_limited = ImageImporter::with_limits(
        exact_limits.with_max_width(PositiveU32::new(2).unwrap()).with_max_pixels(PositiveU64::new(1).unwrap()),
    )
    .unwrap();
    assert_budget_error(
        slot.import(&mut pixel_limited, TEXTURE_ID, 0, &width).err().unwrap(),
        ImageImportStage::Header,
        ImageImportLimitKind::Pixels,
        Some(2),
    );

    let mut rgba_limited = ImageImporter::with_limits(
        exact_limits
            .with_max_width(PositiveU32::new(2).unwrap())
            .with_max_pixels(PositiveU64::new(2).unwrap())
            .with_max_rgba_bytes(ByteLimit::new(7).unwrap()),
    )
    .unwrap();
    assert_budget_error(
        slot.import(&mut rgba_limited, TEXTURE_ID, 0, &width).err().unwrap(),
        ImageImportStage::Header,
        ImageImportLimitKind::RgbaBytes,
        Some(8),
    );
}

#[test]
fn rgb_and_grayscale_rows_expand_to_rgba_without_a_native_frame_copy() {
    let mut importer = ImageImporter::default();
    let rgb = encoded_png(2, 1, png::ColorType::Rgb, &[1, 2, 3, 4, 5, 6], false);
    let gray = encoded_png(2, 1, png::ColorType::Grayscale, &[7, 9], false);

    let rgb = import_uncommitted(&mut importer, &rgb);
    assert_eq!(rgb.image().pixels(), &[1, 2, 3, 255, 4, 5, 6, 255]);
    rgb.discard(&mut importer);
    let gray = import_uncommitted(&mut importer, &gray);
    assert_eq!(gray.image().pixels(), &[7, 7, 7, 255, 9, 9, 9, 255]);
    gray.discard(&mut importer);

    assert_budget_fully_released(importer.budget_snapshot());
}

#[test]
fn animation_and_adam7_are_rejected_by_the_audited_static_png_contract() {
    let mut importer = ImageImporter::default();
    let animated = encoded_png(1, 1, png::ColorType::Rgba, &[1, 2, 3, 255], true);
    let interlaced = patch_ihdr(&rgba_png(1, 1, &[1, 2, 3, 255]), 1, 1, 1);
    let slot = Slot::reserved(TEXTURE_ID, 0);

    assert!(matches!(
        slot.import(&mut importer, TEXTURE_ID, 0, &animated).err().unwrap(),
        ImageImportError::Unsupported { stage: ImageImportStage::Metadata, feature: ImageUnsupportedFeature::Animation }
    ));
    assert!(matches!(
        slot.import(&mut importer, TEXTURE_ID, 0, &interlaced).err().unwrap(),
        ImageImportError::Unsupported { stage: ImageImportStage::Header, feature: ImageUnsupportedFeature::Interlacing }
    ));
    assert_budget_fully_released(importer.budget_snapshot());
}

#[test]
fn corrupt_truncated_and_compressed_amplification_inputs_fail_without_charge_leaks() {
    let mut importer = ImageImporter::default();
    let valid = rgba_png(1, 1, &[1, 2, 3, 255]);
    let mut corrupt_crc = valid.clone();
    corrupt_crc[29] ^= 0x01;
    let mut truncated = valid;
    truncated.truncate(truncated.len() - 6);
    let slot = Slot::reserved(TEXTURE_ID, 0);

    assert!(matches!(
        slot.import(&mut importer, TEXTURE_ID, 0, &corrupt_crc).err().unwrap(),
        ImageImportError::Png { kind: ImagePngFailureKind::InvalidData, .. }
    ));
    assert!(matches!(
        slot.import(&mut importer, TEXTURE_ID, 0, &truncated).err().unwrap(),
        ImageImportError::Png { kind: ImagePngFailureKind::InvalidData | ImagePngFailureKind::Truncated, .. }
    ));

    let pixels = vec![0_u8; 256 * 256];
    let compressed = encoded_png(256, 256, png::ColorType::Grayscale, &pixels, false);
    assert!(compressed.len() < pixels.len());
    let mut amplification_limited =
        ImageImporter::with_limits(ImageImportLimits::default().with_max_rgba_bytes(ByteLimit::new(64 * 1024).unwrap()))
            .unwrap();
    assert_budget_error(
        slot.import(&mut amplification_limited, TEXTURE_ID, 0, &compressed).err().unwrap(),
        ImageImportStage::Header,
        ImageImportLimitKind::RgbaBytes,
        Some((256 * 256 * 4) as u64),
    );
    assert_budget_fully_released(importer.budget_snapshot());
    assert_budget_fully_released(amplification_limited.budget_snapshot());
}

#[test]
fn oversized_exif_chunk_is_rejected_before_decoder_allocation() {
    let mut importer = ImageImporter::default();
    let valid = rgba_png(1, 1, &[1, 2, 3, 255]);
    let hostile = png_with_oversized_exif_chunk(&valid);

    assert_complete_oversized_exif_png(&hostile);

    assert!(matches!(
        Slot::reserved(TEXTURE_ID, 0).import(&mut importer, TEXTURE_ID, 0, &hostile).err().unwrap(),
        ImageImportError::Unsupported { stage: ImageImportStage::Metadata, feature: ImageUnsupportedFeature::EmbeddedMetadata }
    ));
    let snapshot = importer.budget_snapshot();
    assert_eq!(snapshot.high_water_encoded_bytes(), hostile.len());
    assert_eq!(snapshot.high_water_decoder_work_bytes(), 0);
    assert_eq!(snapshot.high_water_rgba_bytes(), 0);
    assert_budget_fully_released(snapshot);
}

#[test]
fn decoder_work_and_complete_peak_accept_exact_budget_and_reject_limit_plus_one() {
    let bytes = rgba_png(2, 2, &[0_u8; 16]);
    let mut probe_importer = ImageImporter::default();
    let probe = import_uncommitted(&mut probe_importer, &bytes);
    let plan = probe.memory_plan();
    probe.discard(&mut probe_importer);

    const MIB: usize = 1024 * 1024;
    const PNG_V1_TRACKED_DECODER_BYTES: usize = 8 * MIB;
    const PNG_V1_UNTRACKED_BASE_BYTES: usize = 512 * 1024;
    const PNG_V1_RGBA_BYTES: usize = 2 * 2 * 4;
    const PNG_V1_ROW_SLACK_BYTES: usize = 2 * 4 * 3;
    const PNG_V1_DECODER_WORK_BYTES: usize =
        PNG_V1_TRACKED_DECODER_BYTES + PNG_V1_UNTRACKED_BASE_BYTES + PNG_V1_ROW_SLACK_BYTES;

    assert_eq!(plan.version(), 1);
    assert_eq!(plan.encoded_bytes(), bytes.len());
    assert_eq!(plan.encoded_allocation_bytes(), bytes.len());
    assert_eq!(plan.rgba_bytes(), PNG_V1_RGBA_BYTES);
    assert_eq!(plan.decoder_work_bytes(), PNG_V1_DECODER_WORK_BYTES);
    assert_eq!(plan.publication_overlap_bytes(), 0);
    assert_eq!(plan.peak_bytes(), bytes.len() + PNG_V1_DECODER_WORK_BYTES + PNG_V1_RGBA_BYTES);

    let base = ImageImportLimits::default()
        .with_max_encoded_bytes(ByteLimit::new(bytes.len()).unwrap())
        .with_max_rgba_bytes(ByteLimit::new(plan.rgba_bytes()).unwrap())
        .with_max_decoder_work_bytes(ByteLimit::new(plan.decoder_work_bytes()).unwrap());
    let mut exact = ImageImporter::with_limits(base.with_max_in_flight_bytes(ByteLimit::new(plan.peak_bytes()).unwrap())).unwrap();
    let imported = import_uncommitted(&mut exact, &bytes);
    assert_eq!(exact.budget_snapshot().high_water_bytes(), plan.peak_bytes());
    assert_eq!(exact.budget_snapshot().high_water_decoder_work_bytes(), plan.decoder_work_bytes());
    imported.discard(&mut exact);
    assert_budget_fully_released(exact.budget_snapshot());

    let slot = Slot::reserved(TEXTURE_ID, 0);
    let mut work_below =
        ImageImporter::with_limits(base.with_max_decoder_work_bytes(ByteLimit::new(plan.decoder_work_bytes() - 1).unwrap()))
            .unwrap();
    assert_budget_error(
        slot.import(&mut work_below, TEXTURE_ID, 0, &bytes).err().unwrap(),
        ImageImportStage::Metadata,
        ImageImportLimitKind::DecoderWorkBytes,
        Some(plan.decoder_work_bytes() as u64),
    );

    let mut aggregate_below =
        ImageImporter::with_limits(base.with_max_in_flight_bytes(ByteLimit::new(plan.peak_bytes() - 1).unwrap())).unwrap();
    assert_budget_error(
        slot.import(&mut aggregate_below, TEXTURE_ID, 0, &bytes).err().unwrap(),
        ImageImportStage::Metadata,
        ImageImportLimitKind::AggregateInFlightBytes,
        Some(plan.peak_bytes() as u64),
    );
    assert_budget_fully_released(work_below.budget_snapshot());
    assert_budget_fully_released(aggregate_below.budget_snapshot());
}

#[test]
fn explicit_budget_host_coordinates_complete_peaks_across_importers() {
    let bytes = rgba_png(1, 1, &[1, 2, 3, 255]);
    let mut probe_importer = ImageImporter::default();
    let probe = import_uncommitted(&mut probe_importer, &bytes);
    let plan = probe.memory_plan();
    probe.discard(&mut probe_importer);
    let shared_limit = plan.peak_bytes() + plan.rgba_bytes() - 1;
    let limits = ImageImportLimits::default()
        .with_max_encoded_bytes(ByteLimit::new(bytes.len()).unwrap())
        .with_max_rgba_bytes(ByteLimit::new(plan.rgba_bytes()).unwrap())
        .with_max_in_flight_bytes(ByteLimit::new(shared_limit).unwrap());
    let host = ImageImportBudgetHost::new(limits).unwrap();
    let mut shared = ImageImporter::with_budget_host(limits, host).unwrap();
    let slot = Slot::reserved(TEXTURE_ID, 0);

    let first_candidate = slot.import(&mut shared, TEXTURE_ID, 0, &bytes).unwrap();
    assert_eq!(shared.budget_snapshot().active_rgba_bytes(), plan.rgba_bytes());
    assert_eq!(shared.budget_snapshot().active_publication_overlap_bytes(), 0);
    assert_budget_error(
        slot.import(&mut shared, TEXTURE_ID, 0, &bytes).err().unwrap(),
        ImageImportStage::Metadata,
        ImageImportLimitKind::AggregateInFlightBytes,
        Some(plan.peak_bytes() as u64),
    );

    first_candidate.discard(&mut shared);
    let second_candidate = slot.import(&mut shared, TEXTURE_ID, 0, &bytes).unwrap();
    second_candidate.discard(&mut shared);
    assert_budget_fully_released(shared.budget_snapshot());
}

#[test]
fn pending_and_running_cancellation_release_admission_charge_exactly_once() {
    let bytes = rgba_png(1, 1, &[1, 2, 3, 255]);
    let mut importer = ImageImporter::default();
    let slot = Slot::reserved(TEXTURE_ID, 0);

    let pending = importer.admit_file(TEXTURE_ID, slot.snapshot(TEXTURE_ID, 0), &slot.observe()).unwrap();
    pending.abandon(&mut importer);
    assert_budget_fully_released(importer.budget_snapshot());

    let running = importer.admit_file(TEXTURE_ID, slot.snapshot(TEXTURE_ID, 0), &slot.observe()).unwrap();
    assert!(matches!(
        running.import(&mut importer, source_metadata(TEXTURE_ID, &bytes), Ok(bytes.clone()), &Token(true)),
        Err(ImageImportError::Cancelled { stage: ImageImportStage::SourceRead })
    ));
    assert_eq!(importer.budget_snapshot().active_reservations(), 0);
    assert_budget_fully_released(importer.budget_snapshot());
}

#[test]
fn panic_and_pool_rejection_drop_unpublished_admission_charge() {
    let mut importer = ImageImporter::default();
    let slot = Slot::reserved(TEXTURE_ID, 0);

    let panicking = importer.admit_file(TEXTURE_ID, slot.snapshot(TEXTURE_ID, 0), &slot.observe()).unwrap();
    panicking.abandon(&mut importer);
    assert_budget_fully_released(importer.budget_snapshot());

    let rejected = importer.admit_file(TEXTURE_ID, slot.snapshot(TEXTURE_ID, 0), &slot.observe()).unwrap();
    rejected.abandon(&mut importer);
    assert_budget_fully_released(importer.budget_snapshot());
}

#[test]
fn admitted_file_decodes_and_keeps_only_the_publication_charge() {
    let bytes = rgba_png(1, 1, &[1, 2, 3, 255]);
    let mut importer = ImageImporter::default();
    let mut slot = Slot::reserved(TEXTURE_ID, 0);

    let admitted = importer.admit_file(TEXTURE_ID, slot.snapshot(TEXTURE_ID, 0), &slot.observe()).unwrap();
    let imported = admitted.import(&mut importer, source_metadata(TEXTURE_ID, &bytes), Ok(bytes.clone()), &Token(false)).unwrap();
    assert_eq!(importer.budget_snapshot().active_bytes(), 4);
    assert_eq!(importer.budget_snapshot().active_encoded_bytes(), 0);
    assert_eq!(imported.image().pixels(), &[1, 2, 3, 255]);
    slot.commit(&mut importer, imported).unwrap();
    assert_budget_fully_released(importer.budget_snapshot());
}

#[test]
fn admitted_file_read_failure_is_reported_and_releases_the_admission_charge() {
    let mut importer = ImageImporter::default();
    let slot = Slot::reserved(TEXTURE_ID, 0);
    let admitted = importer.admit_file(TEXTURE_ID, slot.snapshot(TEXTURE_ID, 0), &slot.observe()).unwrap();
    assert_eq!(importer.budget_snapshot().active_encoded_bytes(), importer.limits().max_encoded_bytes().get());
    let failure = ImageImportError::Source {
        stage: ImageImportStage::SourceRead,
        kind: nara::image::import::ImageSourceFailureKind::NotFound,
    };

    assert_eq!(admitted.import(&mut importer, source_metadata(TEXTURE_ID, &[]), Err(failure), &Token(false)).err().unwrap(), failure);
    assert_budget_fully_released(importer.budget_snapshot());
}


#[test]
fn descriptor_hash_changes_when_content_descriptor_changes() {
    let bytes = rgba_png(1, 1, &[0, 0, 255, 255]);
    let image = image_of(&bytes);
    let mut linear = ImageImporter::default().with_color_space(ImageColorSpace::Linear);
    let changed = import_uncommitted(&mut linear, &bytes);
    let artifact = [7_u8; 32];
    let source = [9_u8; 32];

    let image_input = image_descriptor_input(
        &artifact,
        &source,
        image.extent(),
        image.format(),
        image.color_space(),
        image.pixels().len() as u64,
    );
    let changed_input = image_descriptor_input(
        &artifact,
        &source,
        changed.image().extent(),
        changed.image().format(),
        changed.image().color_space(),
        changed.image().pixels().len() as u64,
    );
    assert_ne!(image_input, changed_input);
    changed.discard(&mut linear);
}

#[test]
fn image_asset_reuses_the_admitted_pixel_allocation() {
    let pixels = vec![24, 120, 220, 255];
    let admitted_allocation = pixels.as_ptr();

    let image = ImageAsset::new(source_metadata(TEXTURE_ID, &[]), ImageExtent::new(1, 1), ImageFormat::Rgba8, ImageColorSpace::Srgb, pixels).unwrap();

    assert_eq!(image.pixels().as_ptr(), admitted_allocation);
}

#[test]
fn assembled_rows_convert_each_pixel_to_rgba() {
    let rows = vec![vec![1u8, 2, 3, 4, 5, 6], vec![7u8, 8, 9, 10, 11, 12]];
    let pixels = assemble_rgba(PngColorType::Rgb, &rows, 2).unwrap();
    assert_eq!(pixels, vec![1, 2, 3, 255, 4, 5, 6, 255, 7, 8, 9, 255, 10, 11, 12, 255]);
    let gray = vec![vec![9u8, 200]];
    assert_eq!(assemble_rgba(PngColorType::GrayscaleAlpha, &gray, 1).unwrap(), vec![9, 9, 9, 200]);
    assert_eq!(assemble_rgba(PngColorType::Rgba, &Vec::new(), 3).unwrap(), Vec::<u8>::new());
}

#[test]
fn assembling_refuses_indexed_color_and_short_rows() {
    let rows = vec![vec![1u8, 2, 3]];
    assert_eq!(
        assemble_rgba(PngColorType::Indexed, &rows, 1),
        Err(ImageImportError::Unsupported { stage: ImageImportStage::Decode, feature: ImageUnsupportedFeature::OutputColorModel })
    );
    assert_eq!(
        assemble_rgba(PngColorType::Rgb, &rows, 2),
        Err(ImageImportError::Png { stage: ImageImportStage::Decode, kind: ImagePngFailureKind::DecoderContract })
    );
}

fn png_with_exif_chunk(source: &[u8], payload: &[u8]) -> Vec<u8> {
    const IHDR_END: usize = 33;
    let mut bytes = source[..IHDR_END].to_vec();
    bytes.extend_from_slice(&u32::try_from(payload.len()).unwrap().to_be_bytes());
    let chunk_type_offset = bytes.len();
    bytes.extend_from_slice(b"eXIf");
    bytes.extend_from_slice(payload);
    let checksum = crc32(&bytes[chunk_type_offset..]);
    bytes.extend_from_slice(&checksum.to_be_bytes());
    bytes.extend_from_slice(&source[IHDR_END..]);
    bytes
}

#[test]
fn exif_metadata_is_rejected_before_the_decoder_can_clone_it() {
    let mut importer = ImageImporter::default();
    let exif_png = png_with_exif_chunk(&rgba_png(1, 1, &[1, 2, 3, 255]), b"MM\0*\0\0\0\x08\0\0");

    assert!(matches!(
        Slot::reserved(TEXTURE_ID, 0).import(&mut importer, TEXTURE_ID, 0, &exif_png).err().unwrap(),
        ImageImportError::Unsupported { stage: ImageImportStage::Metadata, feature: ImageUnsupportedFeature::EmbeddedMetadata }
    ));
    assert_eq!(importer.budget_snapshot().high_water_decoder_work_bytes(), 0);
    assert_budget_fully_released(importer.budget_snapshot());
}

#[test]
fn budget_totals_balance_active_bytes_and_reservations_at_every_step() {
    let mut budget = ImageImportBudget::new(ByteLimit::new(20).unwrap());
    let balanced = |s: ImageImportBudgetSnapshot| {
        assert_eq!(s.total_reserved_bytes() - s.total_released_bytes(), s.active_bytes() as u64);
        assert_eq!(s.accepted_reservations() - s.released_reservations(), s.active_reservations());
    };
    let mut first = budget.reserve(ImageImportCharge::encoded(6)).unwrap();
    balanced(budget.snapshot());
    let second = budget.reserve(ImageImportCharge::encoded(8)).unwrap();
    balanced(budget.snapshot());
    assert!(budget.reserve(ImageImportCharge::encoded(7)).is_err());
    balanced(budget.snapshot());
    budget.resize(&mut first, ImageImportCharge::encoded(2)).unwrap();
    balanced(budget.snapshot());
    budget.release(second);
    balanced(budget.snapshot());
    budget.release(first);
    let s = budget.snapshot();
    balanced(s);
    assert_eq!(s.active_bytes(), 0);
    assert_eq!(s.total_reserved_bytes(), 14);
    assert_eq!(s.total_released_bytes(), 14);
    assert_eq!(s.rejected_reservations(), 1);
}

#[test]
fn imported_image_keeps_its_source_metadata() {
    let bytes = rgba_png(1, 1, &[1, 2, 3, 255]);
    let image = image_of(&bytes);
    assert_eq!(image.source().stable_id(), TEXTURE_ID);
    assert_eq!(image.source().path(), "textures/player.png");
    assert_eq!(image.source().source_hash(), *blake3::hash(&bytes).as_bytes());
    assert_eq!(image.source().artifact_digest(), [7; 32]);
    let input = image_asset_descriptor_input(&image);
    assert_eq!(&input[..32], &[7; 32]);
    assert_eq!(&input[32..64], blake3::hash(&bytes).as_bytes());
    assert_eq!(input.len(), 32 + 32 + 4 + 4 + 1 + 1 + 8);
}

#[test]
fn a_source_read_past_its_limit_is_refused_at_the_read_stage() {
    assert_eq!(check_read_length(8, 8), Ok(()));
    assert_eq!(
        check_read_length(9, 8),
        Err(ImageImportError::Budget {
            stage: ImageImportStage::SourceRead,
            error: ImageImportBudgetError::per_image(ImageImportLimitKind::EncodedBytes, Some(9), 8),
        })
    );
}
