//! Per-image and aggregate limits of PNG import, and the logical peak memory plan.

use vstd::prelude::*;

use crate::limit::{ByteLimit, PositiveU32, PositiveU64};

verus! {

pub const MIB: usize = 1048576;
pub const DEFAULT_MAX_ENCODED_BYTES: usize = 16777216;
pub const DEFAULT_MAX_WIDTH: u32 = 16384;
pub const DEFAULT_MAX_HEIGHT: u32 = 16384;
pub const DEFAULT_MAX_PIXELS: u64 = 16777216;
pub const DEFAULT_MAX_RGBA_BYTES: usize = 67108864;
pub const DEFAULT_MAX_DECODER_WORK_BYTES: usize = 16777216;
pub const DEFAULT_MAX_IN_FLIGHT_BYTES: usize = 536870912;

pub const HARD_MAX_ENCODED_BYTES: usize = 67108864;
pub const HARD_MAX_WIDTH: u32 = 32768;
pub const HARD_MAX_HEIGHT: u32 = 32768;
pub const HARD_MAX_PIXELS: u64 = 67108864;
pub const HARD_MAX_RGBA_BYTES: usize = 268435456;
pub const HARD_MAX_DECODER_WORK_BYTES: usize = 67108864;

pub const PNG_TRACKED_DECODER_BYTES: usize = 8388608;
pub const PNG_UNTRACKED_BASE_BYTES: usize = 524288;
pub const PNG_ROW_SLACK_MULTIPLIER: usize = 3;

/// Version of the conservative logical PNG peak formula.
pub const IMAGE_IMPORT_MEMORY_PLAN_VERSION: u32 = 1;

/// The engine's hard ceiling on aggregate in-flight bytes: 2 GiB, or `isize::MAX` where
/// `usize` is narrower than 64 bits.
pub open spec fn hard_max_in_flight_bytes_spec() -> usize {
    if usize::BITS >= 64 {
        2147483648
    } else {
        isize::MAX as usize
    }
}

pub fn hard_max_in_flight_bytes() -> (r: usize)
    ensures
        r == hard_max_in_flight_bytes_spec(),
{
    if usize::BITS >= 64 {
        2147483648
    } else {
        isize::MAX as usize
    }
}

#[derive(Debug, Clone, Copy, PartialEq, Eq, Structural, PartialOrd, Ord, Hash)]
pub enum ImageImportLimitKind {
    EncodedBytes,
    Width,
    Height,
    Pixels,
    RgbaBytes,
    DecoderWorkBytes,
    AggregateInFlightBytes,
}

impl ImageImportLimitKind {
    pub open spec fn text(self) -> &'static str {
        match self {
            ImageImportLimitKind::EncodedBytes => "encoded-bytes",
            ImageImportLimitKind::Width => "width",
            ImageImportLimitKind::Height => "height",
            ImageImportLimitKind::Pixels => "pixels",
            ImageImportLimitKind::RgbaBytes => "rgba-bytes",
            ImageImportLimitKind::DecoderWorkBytes => "decoder-work-bytes",
            ImageImportLimitKind::AggregateInFlightBytes => "aggregate-in-flight-bytes",
        }
    }

    pub fn as_str(self) -> (r: &'static str)
        ensures
            r == self.text(),
    {
        match self {
            ImageImportLimitKind::EncodedBytes => "encoded-bytes",
            ImageImportLimitKind::Width => "width",
            ImageImportLimitKind::Height => "height",
            ImageImportLimitKind::Pixels => "pixels",
            ImageImportLimitKind::RgbaBytes => "rgba-bytes",
            ImageImportLimitKind::DecoderWorkBytes => "decoder-work-bytes",
            ImageImportLimitKind::AggregateInFlightBytes => "aggregate-in-flight-bytes",
        }
    }
}

/// Limits of one image importer.
#[derive(Debug, Clone, Copy, PartialEq, Eq)]
pub struct ImageImportLimits {
    max_encoded_bytes: ByteLimit,
    max_width: PositiveU32,
    max_height: PositiveU32,
    max_pixels: PositiveU64,
    max_rgba_bytes: ByteLimit,
    max_decoder_work_bytes: ByteLimit,
    max_in_flight_bytes: ByteLimit,
}

/// The plain values of a set of image import limits.
pub struct LimitsModel {
    pub encoded: usize,
    pub width: u32,
    pub height: u32,
    pub pixels: u64,
    pub rgba: usize,
    pub decoder_work: usize,
    pub in_flight: usize,
}

#[derive(Debug, Clone, Copy, PartialEq, Eq, Structural)]
pub enum ImageImportLimitsError {
    HardMaximumExceeded { kind: ImageImportLimitKind, configured: u64, hard_maximum: u64 },
    AggregateBelowFileAdmissionCeiling { aggregate: u64, required: u64 },
}

/// Bytes admitted for one file before decoding: encoded bytes plus publication overlap,
/// saturating at `usize::MAX`.
pub open spec fn file_admission_ceiling_spec(encoded_bytes: usize, publication_overlap_bytes: usize) -> usize {
    if encoded_bytes + publication_overlap_bytes > usize::MAX {
        usize::MAX
    } else {
        (encoded_bytes + publication_overlap_bytes) as usize
    }
}

pub fn file_admission_ceiling(encoded_bytes: usize, publication_overlap_bytes: usize) -> (r: usize)
    ensures
        r == file_admission_ceiling_spec(encoded_bytes, publication_overlap_bytes),
{
    encoded_bytes.saturating_add(publication_overlap_bytes)
}

/// The first limit that exceeds its hard maximum, or the aggregate falling below the file
/// admission ceiling; checks in order.
pub open spec fn limits_check(m: LimitsModel) -> Result<(), ImageImportLimitsError> {
    if m.encoded > HARD_MAX_ENCODED_BYTES {
        Err(ImageImportLimitsError::HardMaximumExceeded { kind: ImageImportLimitKind::EncodedBytes, configured: m.encoded as u64, hard_maximum: HARD_MAX_ENCODED_BYTES as u64 })
    } else if m.width > HARD_MAX_WIDTH {
        Err(ImageImportLimitsError::HardMaximumExceeded { kind: ImageImportLimitKind::Width, configured: m.width as u64, hard_maximum: HARD_MAX_WIDTH as u64 })
    } else if m.height > HARD_MAX_HEIGHT {
        Err(ImageImportLimitsError::HardMaximumExceeded { kind: ImageImportLimitKind::Height, configured: m.height as u64, hard_maximum: HARD_MAX_HEIGHT as u64 })
    } else if m.pixels > HARD_MAX_PIXELS {
        Err(ImageImportLimitsError::HardMaximumExceeded { kind: ImageImportLimitKind::Pixels, configured: m.pixels, hard_maximum: HARD_MAX_PIXELS })
    } else if m.rgba > HARD_MAX_RGBA_BYTES {
        Err(ImageImportLimitsError::HardMaximumExceeded { kind: ImageImportLimitKind::RgbaBytes, configured: m.rgba as u64, hard_maximum: HARD_MAX_RGBA_BYTES as u64 })
    } else if m.decoder_work > HARD_MAX_DECODER_WORK_BYTES {
        Err(ImageImportLimitsError::HardMaximumExceeded { kind: ImageImportLimitKind::DecoderWorkBytes, configured: m.decoder_work as u64, hard_maximum: HARD_MAX_DECODER_WORK_BYTES as u64 })
    } else if m.in_flight > hard_max_in_flight_bytes_spec() {
        Err(ImageImportLimitsError::HardMaximumExceeded { kind: ImageImportLimitKind::AggregateInFlightBytes, configured: m.in_flight as u64, hard_maximum: hard_max_in_flight_bytes_spec() as u64 })
    } else if m.in_flight < file_admission_ceiling_spec(m.encoded, m.rgba) {
        Err(ImageImportLimitsError::AggregateBelowFileAdmissionCeiling { aggregate: m.in_flight as u64, required: file_admission_ceiling_spec(m.encoded, m.rgba) as u64 })
    } else {
        Ok(())
    }
}

fn validate_hard_limit(kind: ImageImportLimitKind, configured: u64, hard_maximum: u64) -> (r: Result<(), ImageImportLimitsError>)
    ensures
        configured > hard_maximum ==> r == Err::<(), ImageImportLimitsError>(ImageImportLimitsError::HardMaximumExceeded { kind, configured, hard_maximum }),
        configured <= hard_maximum ==> r is Ok,
{
    if configured > hard_maximum {
        Err(ImageImportLimitsError::HardMaximumExceeded { kind, configured, hard_maximum })
    } else {
        Ok(())
    }
}

impl ImageImportLimits {
    pub closed spec fn model(self) -> LimitsModel {
        LimitsModel {
            encoded: self.max_encoded_bytes.value(),
            width: self.max_width.value(),
            height: self.max_height.value(),
            pixels: self.max_pixels.value(),
            rgba: self.max_rgba_bytes.value(),
            decoder_work: self.max_decoder_work_bytes.value(),
            in_flight: self.max_in_flight_bytes.value(),
        }
    }

    /// 16 MiB encoded, 16384 x 16384, 16 Mi pixels, 64 MiB RGBA, 16 MiB decoder work and
    /// 512 MiB in flight.
    pub fn default_limits() -> (r: Self)
        ensures
            r.model() == default_limits_model(),
    {
        ImageImportLimits {
            max_encoded_bytes: ByteLimit::new(DEFAULT_MAX_ENCODED_BYTES).unwrap(),
            max_width: PositiveU32::new(DEFAULT_MAX_WIDTH).unwrap(),
            max_height: PositiveU32::new(DEFAULT_MAX_HEIGHT).unwrap(),
            max_pixels: PositiveU64::new(DEFAULT_MAX_PIXELS).unwrap(),
            max_rgba_bytes: ByteLimit::new(DEFAULT_MAX_RGBA_BYTES).unwrap(),
            max_decoder_work_bytes: ByteLimit::new(DEFAULT_MAX_DECODER_WORK_BYTES).unwrap(),
            max_in_flight_bytes: ByteLimit::new(DEFAULT_MAX_IN_FLIGHT_BYTES).unwrap(),
        }
    }

    pub fn max_encoded_bytes(self) -> (r: ByteLimit)
        ensures
            r.value() == self.model().encoded,
    {
        self.max_encoded_bytes
    }

    pub fn max_width(self) -> (r: PositiveU32)
        ensures
            r.value() == self.model().width,
    {
        self.max_width
    }

    pub fn max_height(self) -> (r: PositiveU32)
        ensures
            r.value() == self.model().height,
    {
        self.max_height
    }

    pub fn max_pixels(self) -> (r: PositiveU64)
        ensures
            r.value() == self.model().pixels,
    {
        self.max_pixels
    }

    pub fn max_rgba_bytes(self) -> (r: ByteLimit)
        ensures
            r.value() == self.model().rgba,
    {
        self.max_rgba_bytes
    }

    pub fn max_decoder_work_bytes(self) -> (r: ByteLimit)
        ensures
            r.value() == self.model().decoder_work,
    {
        self.max_decoder_work_bytes
    }

    pub fn max_in_flight_bytes(self) -> (r: ByteLimit)
        ensures
            r.value() == self.model().in_flight,
    {
        self.max_in_flight_bytes
    }

    pub fn with_max_encoded_bytes(self, limit: ByteLimit) -> (r: Self)
        ensures
            r.model() == (LimitsModel { encoded: limit.value(), ..self.model() }),
    {
        ImageImportLimits { max_encoded_bytes: limit, ..self }
    }

    pub fn with_max_width(self, limit: PositiveU32) -> (r: Self)
        ensures
            r.model() == (LimitsModel { width: limit.value(), ..self.model() }),
    {
        ImageImportLimits { max_width: limit, ..self }
    }

    pub fn with_max_height(self, limit: PositiveU32) -> (r: Self)
        ensures
            r.model() == (LimitsModel { height: limit.value(), ..self.model() }),
    {
        ImageImportLimits { max_height: limit, ..self }
    }

    pub fn with_max_pixels(self, limit: PositiveU64) -> (r: Self)
        ensures
            r.model() == (LimitsModel { pixels: limit.value(), ..self.model() }),
    {
        ImageImportLimits { max_pixels: limit, ..self }
    }

    pub fn with_max_rgba_bytes(self, limit: ByteLimit) -> (r: Self)
        ensures
            r.model() == (LimitsModel { rgba: limit.value(), ..self.model() }),
    {
        ImageImportLimits { max_rgba_bytes: limit, ..self }
    }

    pub fn with_max_decoder_work_bytes(self, limit: ByteLimit) -> (r: Self)
        ensures
            r.model() == (LimitsModel { decoder_work: limit.value(), ..self.model() }),
    {
        ImageImportLimits { max_decoder_work_bytes: limit, ..self }
    }

    pub fn with_max_in_flight_bytes(self, limit: ByteLimit) -> (r: Self)
        ensures
            r.model() == (LimitsModel { in_flight: limit.value(), ..self.model() }),
    {
        ImageImportLimits { max_in_flight_bytes: limit, ..self }
    }

    /// Accepts limits within the engine's hard maxima whose aggregate covers one file
    /// admission.
    pub fn validate(self) -> (r: Result<Self, ImageImportLimitsError>)
        ensures
            match limits_check(self.model()) {
                Ok(()) => r == Ok::<Self, ImageImportLimitsError>(self),
                Err(e) => r == Err::<Self, ImageImportLimitsError>(e),
            },
    {
        match validate_hard_limit(ImageImportLimitKind::EncodedBytes, self.max_encoded_bytes.get() as u64, HARD_MAX_ENCODED_BYTES as u64) {
            Err(e) => return Err(e),
            Ok(()) => {},
        }
        match validate_hard_limit(ImageImportLimitKind::Width, self.max_width.get() as u64, HARD_MAX_WIDTH as u64) {
            Err(e) => return Err(e),
            Ok(()) => {},
        }
        match validate_hard_limit(ImageImportLimitKind::Height, self.max_height.get() as u64, HARD_MAX_HEIGHT as u64) {
            Err(e) => return Err(e),
            Ok(()) => {},
        }
        match validate_hard_limit(ImageImportLimitKind::Pixels, self.max_pixels.get(), HARD_MAX_PIXELS) {
            Err(e) => return Err(e),
            Ok(()) => {},
        }
        match validate_hard_limit(ImageImportLimitKind::RgbaBytes, self.max_rgba_bytes.get() as u64, HARD_MAX_RGBA_BYTES as u64) {
            Err(e) => return Err(e),
            Ok(()) => {},
        }
        match validate_hard_limit(ImageImportLimitKind::DecoderWorkBytes, self.max_decoder_work_bytes.get() as u64, HARD_MAX_DECODER_WORK_BYTES as u64) {
            Err(e) => return Err(e),
            Ok(()) => {},
        }
        match validate_hard_limit(ImageImportLimitKind::AggregateInFlightBytes, self.max_in_flight_bytes.get() as u64, hard_max_in_flight_bytes() as u64) {
            Err(e) => return Err(e),
            Ok(()) => {},
        }
        let required = file_admission_ceiling(self.max_encoded_bytes.get(), self.max_rgba_bytes.get());
        if self.max_in_flight_bytes.get() < required {
            return Err(ImageImportLimitsError::AggregateBelowFileAdmissionCeiling {
                aggregate: self.max_in_flight_bytes.get() as u64,
                required: required as u64,
            });
        }
        Ok(self)
    }
}

impl Default for ImageImportLimits {
    fn default() -> (r: Self)
        ensures
            r.model() == (LimitsModel {
                encoded: DEFAULT_MAX_ENCODED_BYTES,
                width: DEFAULT_MAX_WIDTH,
                height: DEFAULT_MAX_HEIGHT,
                pixels: DEFAULT_MAX_PIXELS,
                rgba: DEFAULT_MAX_RGBA_BYTES,
                decoder_work: DEFAULT_MAX_DECODER_WORK_BYTES,
                in_flight: DEFAULT_MAX_IN_FLIGHT_BYTES,
            }),
    {
        ImageImportLimits::default_limits()
    }
}

/// A limit that an image or the aggregate budget exceeded.
#[derive(Debug, Clone, Copy, PartialEq, Eq, Structural)]
pub struct ImageImportBudgetError {
    kind: ImageImportLimitKind,
    observed: Option<u64>,
    limit: u64,
    in_use: Option<u64>,
}

/// The plain values of a budget error.
pub struct BudgetErrorModel {
    pub kind: ImageImportLimitKind,
    pub observed: Option<u64>,
    pub limit: u64,
    pub in_use: Option<u64>,
}

/// A per-image limit error: no aggregate usage.
pub open spec fn per_image_error(kind: ImageImportLimitKind, observed: Option<u64>, limit: u64) -> BudgetErrorModel {
    BudgetErrorModel { kind, observed, limit, in_use: None }
}

/// An aggregate limit error: `requested` on top of `in_use` exceeds `limit`.
pub open spec fn aggregate_error(requested: u64, in_use: u64, limit: u64) -> BudgetErrorModel {
    BudgetErrorModel { kind: ImageImportLimitKind::AggregateInFlightBytes, observed: Some(requested), limit, in_use: Some(in_use) }
}

/// The default limits.
pub open spec fn default_limits_model() -> LimitsModel {
    LimitsModel {
        encoded: DEFAULT_MAX_ENCODED_BYTES,
        width: DEFAULT_MAX_WIDTH,
        height: DEFAULT_MAX_HEIGHT,
        pixels: DEFAULT_MAX_PIXELS,
        rgba: DEFAULT_MAX_RGBA_BYTES,
        decoder_work: DEFAULT_MAX_DECODER_WORK_BYTES,
        in_flight: DEFAULT_MAX_IN_FLIGHT_BYTES,
    }
}

impl ImageImportBudgetError {
    pub closed spec fn model(self) -> BudgetErrorModel {
        BudgetErrorModel { kind: self.kind, observed: self.observed, limit: self.limit, in_use: self.in_use }
    }

    /// The error described by `m`.
    pub closed spec fn from_model(m: BudgetErrorModel) -> Self {
        ImageImportBudgetError { kind: m.kind, observed: m.observed, limit: m.limit, in_use: m.in_use }
    }

    /// An error is the one its description gives.
    pub broadcast proof fn lemma_from_model(e: Self)
        ensures
            #[trigger] Self::from_model(e.model()) == e,
    {
    }

    pub fn per_image(kind: ImageImportLimitKind, observed: Option<u64>, limit: u64) -> (r: Self)
        ensures
            r.model() == per_image_error(kind, observed, limit),
            r == Self::from_model(per_image_error(kind, observed, limit)),
    {
        ImageImportBudgetError { kind, observed, limit, in_use: None }
    }

    pub fn aggregate(requested: u64, in_use: u64, limit: u64) -> (r: Self)
        ensures
            r.model() == aggregate_error(requested, in_use, limit),
    {
        ImageImportBudgetError { kind: ImageImportLimitKind::AggregateInFlightBytes, observed: Some(requested), limit, in_use: Some(in_use) }
    }

    pub fn kind(self) -> (r: ImageImportLimitKind)
        ensures
            r == self.model().kind,
    {
        self.kind
    }

    pub fn observed(self) -> (r: Option<u64>)
        ensures
            r == self.model().observed,
    {
        self.observed
    }

    pub fn limit(self) -> (r: u64)
        ensures
            r == self.model().limit,
    {
        self.limit
    }

    pub fn in_use(self) -> (r: Option<u64>)
        ensures
            r == self.model().in_use,
    {
        self.in_use
    }
}

/// The logical memory plan of one PNG import.
#[derive(Debug, Clone, Copy, PartialEq, Eq, Structural)]
pub struct ImageImportMemoryPlan {
    encoded_bytes: usize,
    encoded_allocation_bytes: usize,
    rgba_bytes: usize,
    decoder_work_bytes: usize,
    publication_overlap_bytes: usize,
    peak_bytes: usize,
    publication_bytes: usize,
}

/// The plain values of a memory plan.
pub struct PlanModel {
    pub encoded: usize,
    pub encoded_allocation: usize,
    pub rgba: usize,
    pub decoder_work: usize,
    pub publication_overlap: usize,
    pub peak: usize,
    pub publication: usize,
}

/// The plan for a PNG of `width` x `height` from `encoded` bytes held in an allocation of
/// `allocation` bytes, with `overlap` publication bytes, or the first limit it exceeds.
pub open spec fn png_plan(l: LimitsModel, encoded: usize, allocation: usize, width: u32, height: u32, overlap: usize) -> Result<PlanModel, BudgetErrorModel> {
    let pixels = width * height;
    let rgba = pixels * 4;
    let row = width * 4;
    let decoder = PNG_TRACKED_DECODER_BYTES + PNG_UNTRACKED_BASE_BYTES + row * PNG_ROW_SLACK_MULTIPLIER;
    let publication = rgba + overlap;
    let peak = allocation + decoder + publication;
    if encoded > l.encoded {
        Err(per_image_error(ImageImportLimitKind::EncodedBytes, Some(encoded as u64), l.encoded as u64))
    } else if width > l.width {
        Err(per_image_error(ImageImportLimitKind::Width, Some(width as u64), l.width as u64))
    } else if height > l.height {
        Err(per_image_error(ImageImportLimitKind::Height, Some(height as u64), l.height as u64))
    } else if pixels > l.pixels {
        Err(per_image_error(ImageImportLimitKind::Pixels, Some(pixels as u64), l.pixels))
    } else if rgba > u64::MAX {
        Err(per_image_error(ImageImportLimitKind::RgbaBytes, None, l.rgba as u64))
    } else if rgba > l.rgba {
        Err(per_image_error(ImageImportLimitKind::RgbaBytes, Some(rgba as u64), l.rgba as u64))
    } else if row > usize::MAX || decoder > usize::MAX {
        Err(per_image_error(ImageImportLimitKind::DecoderWorkBytes, None, u64::MAX))
    } else if decoder > l.decoder_work {
        Err(per_image_error(ImageImportLimitKind::DecoderWorkBytes, Some(decoder as u64), l.decoder_work as u64))
    } else if publication > usize::MAX || peak > usize::MAX {
        Err(per_image_error(ImageImportLimitKind::AggregateInFlightBytes, None, l.in_flight as u64))
    } else {
        Ok(PlanModel {
            encoded,
            encoded_allocation: allocation,
            rgba: rgba as usize,
            decoder_work: decoder as usize,
            publication_overlap: overlap,
            peak: peak as usize,
            publication: publication as usize,
        })
    }
}

fn enforce_limit(kind: ImageImportLimitKind, observed: u64, limit: u64) -> (r: Result<(), ImageImportBudgetError>)
    ensures
        observed > limit ==> (r matches Err(e) && e.model() == per_image_error(kind, Some(observed), limit)),
        observed <= limit ==> r is Ok,
{
    if observed > limit {
        Err(ImageImportBudgetError::per_image(kind, Some(observed), limit))
    } else {
        Ok(())
    }
}

impl ImageImportMemoryPlan {
    pub closed spec fn model(self) -> PlanModel {
        PlanModel {
            encoded: self.encoded_bytes,
            encoded_allocation: self.encoded_allocation_bytes,
            rgba: self.rgba_bytes,
            decoder_work: self.decoder_work_bytes,
            publication_overlap: self.publication_overlap_bytes,
            peak: self.peak_bytes,
            publication: self.publication_bytes,
        }
    }

    /// Plans a PNG import, or reports the first per-image limit it exceeds.
    pub fn for_png(
        limits: ImageImportLimits,
        encoded_bytes: usize,
        encoded_allocation_bytes: usize,
        width: u32,
        height: u32,
        publication_overlap_bytes: usize,
    ) -> (r: Result<Self, ImageImportBudgetError>)
        ensures
            match png_plan(limits.model(), encoded_bytes, encoded_allocation_bytes, width, height, publication_overlap_bytes) {
                Ok(p) => r matches Ok(plan) && plan.model() == p,
                Err(e) => r matches Err(err) && err.model() == e,
            },
    {
        match enforce_limit(ImageImportLimitKind::EncodedBytes, encoded_bytes as u64, limits.max_encoded_bytes().get() as u64) {
            Err(e) => return Err(e),
            Ok(()) => {},
        }
        match enforce_limit(ImageImportLimitKind::Width, width as u64, limits.max_width().get() as u64) {
            Err(e) => return Err(e),
            Ok(()) => {},
        }
        match enforce_limit(ImageImportLimitKind::Height, height as u64, limits.max_height().get() as u64) {
            Err(e) => return Err(e),
            Ok(()) => {},
        }
        proof {
            assert(width * height <= u64::MAX) by (nonlinear_arith)
                requires width <= u32::MAX, height <= u32::MAX;
        }
        let pixels = match (width as u64).checked_mul(height as u64) {
            None => return Err(ImageImportBudgetError::per_image(ImageImportLimitKind::Pixels, None, limits.max_pixels().get())),
            Some(p) => p,
        };
        match enforce_limit(ImageImportLimitKind::Pixels, pixels, limits.max_pixels().get()) {
            Err(e) => return Err(e),
            Ok(()) => {},
        }
        let rgba_bytes_u64 = match pixels.checked_mul(4) {
            None => return Err(ImageImportBudgetError::per_image(ImageImportLimitKind::RgbaBytes, None, limits.max_rgba_bytes().get() as u64)),
            Some(b) => b,
        };
        match enforce_limit(ImageImportLimitKind::RgbaBytes, rgba_bytes_u64, limits.max_rgba_bytes().get() as u64) {
            Err(e) => return Err(e),
            Ok(()) => {},
        }
        if rgba_bytes_u64 > usize::MAX as u64 {
            return Err(ImageImportBudgetError::per_image(ImageImportLimitKind::RgbaBytes, None, limits.max_rgba_bytes().get() as u64));
        }
        let rgba_bytes = rgba_bytes_u64 as usize;
        let rgba_row_bytes = match (width as usize).checked_mul(4) {
            None => return Err(ImageImportBudgetError::per_image(ImageImportLimitKind::DecoderWorkBytes, None, u64::MAX)),
            Some(b) => b,
        };
        let decoder_work_bytes = match PNG_TRACKED_DECODER_BYTES.checked_add(PNG_UNTRACKED_BASE_BYTES) {
            None => None,
            Some(bytes) => match rgba_row_bytes.checked_mul(PNG_ROW_SLACK_MULTIPLIER) {
                None => None,
                Some(rows) => bytes.checked_add(rows),
            },
        };
        let decoder_work_bytes = match decoder_work_bytes {
            None => return Err(ImageImportBudgetError::per_image(ImageImportLimitKind::DecoderWorkBytes, None, u64::MAX)),
            Some(b) => b,
        };
        match enforce_limit(ImageImportLimitKind::DecoderWorkBytes, decoder_work_bytes as u64, limits.max_decoder_work_bytes().get() as u64) {
            Err(e) => return Err(e),
            Ok(()) => {},
        }
        let publication_bytes = match rgba_bytes.checked_add(publication_overlap_bytes) {
            None => return Err(ImageImportBudgetError::per_image(ImageImportLimitKind::AggregateInFlightBytes, None, limits.max_in_flight_bytes().get() as u64)),
            Some(b) => b,
        };
        let peak_bytes = match encoded_allocation_bytes.checked_add(decoder_work_bytes) {
            None => None,
            Some(bytes) => bytes.checked_add(publication_bytes),
        };
        let peak_bytes = match peak_bytes {
            None => return Err(ImageImportBudgetError::per_image(ImageImportLimitKind::AggregateInFlightBytes, None, limits.max_in_flight_bytes().get() as u64)),
            Some(b) => b,
        };
        Ok(ImageImportMemoryPlan {
            encoded_bytes,
            encoded_allocation_bytes,
            rgba_bytes,
            decoder_work_bytes,
            publication_overlap_bytes,
            peak_bytes,
            publication_bytes,
        })
    }

    pub fn version(self) -> (r: u32)
        ensures
            r == IMAGE_IMPORT_MEMORY_PLAN_VERSION,
    {
        IMAGE_IMPORT_MEMORY_PLAN_VERSION
    }

    pub fn encoded_bytes(self) -> (r: usize)
        ensures
            r == self.model().encoded,
    {
        self.encoded_bytes
    }

    pub fn encoded_allocation_bytes(self) -> (r: usize)
        ensures
            r == self.model().encoded_allocation,
    {
        self.encoded_allocation_bytes
    }

    pub fn rgba_bytes(self) -> (r: usize)
        ensures
            r == self.model().rgba,
    {
        self.rgba_bytes
    }

    pub fn decoder_work_bytes(self) -> (r: usize)
        ensures
            r == self.model().decoder_work,
    {
        self.decoder_work_bytes
    }

    pub fn publication_overlap_bytes(self) -> (r: usize)
        ensures
            r == self.model().publication_overlap,
    {
        self.publication_overlap_bytes
    }

    pub fn peak_bytes(self) -> (r: usize)
        ensures
            r == self.model().peak,
    {
        self.peak_bytes
    }

    pub fn publication_bytes(self) -> (r: usize)
        ensures
            r == self.model().publication,
    {
        self.publication_bytes
    }
}

/// A plan's peak covers its encoded allocation, its decoder work and its publication bytes;
/// its publication bytes are its RGBA bytes plus its overlap.
pub proof fn lemma_plan_peak_covers_parts(
    l: LimitsModel, encoded: usize, allocation: usize, width: u32, height: u32, overlap: usize,
)
    requires
        png_plan(l, encoded, allocation, width, height, overlap) is Ok,
    ensures
        ({
            let p = png_plan(l, encoded, allocation, width, height, overlap)->Ok_0;
            &&& p.peak == p.encoded_allocation + p.decoder_work + p.publication
            &&& p.publication == p.rgba + p.publication_overlap
            &&& p.rgba == 4 * (width as int) * (height as int)
            &&& p.rgba <= l.rgba
            &&& p.decoder_work <= l.decoder_work
            &&& width <= l.width && height <= l.height
        }),
{
    assert(4 * (width as int) * (height as int) == (width * height) * 4) by (nonlinear_arith);
}

} // verus!
