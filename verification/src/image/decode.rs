//! Decoding a preflighted PNG into RGBA8 pixels with the `png` crate, within the memory plan
//! and budget reservation the preflight admitted.

use std::io::Cursor;

use vstd::prelude::*;

use crate::image::asset::{ImageAsset, ImageColorSpace, ImageExtent, ImageFormat, ImageSourceMetadata};
use crate::image::budget::{
    peak_charge, resize_outcome, after_rejection, ImageImportBudgetHost, ImageImportCharge, ImageImportReservation,
    SnapshotModel,
};
use crate::image::import::{ImagePngFailureKind, ImageImportStage, ImageUnsupportedFeature};
use crate::image::limits::{
    per_image_error, ImageImportBudgetError, ImageImportLimitKind, ImageImportLimits, ImageImportMemoryPlan,
    PNG_TRACKED_DECODER_BYTES, PlanModel,
};
use crate::image::png::{
    color_channels, png_preflight_plan, preflight_png_memory_plan, rgba_image, write_rgba8_row, ImageImportError, PngColorType, PngHeaderPreflight,
};

verus! {

/// A `png::Decoder` over owned bytes. Its type needs outside trait bounds that Verus cannot
/// declare, so it is held opaquely; only the calls below touch it.
#[verifier::external_body]
struct PngDecoderHandle {
    decoder: png::Decoder<Cursor<Vec<u8>>>,
}

/// A `png::Reader` positioned in the image data, held opaquely like [`PngDecoderHandle`].
#[verifier::external_body]
struct PngReaderHandle {
    reader: png::Reader<Cursor<Vec<u8>>>,
}

/// The reading options of a PNG decoder that what it decodes depends on.
#[derive(Debug, Clone, Copy, PartialEq, Eq, Structural)]
pub struct PngReadSetup {
    /// Text chunks are skipped.
    pub ignore_text: bool,
    /// The iCCP chunk is skipped.
    pub ignore_iccp: bool,
    /// Rows are normalized to eight bits per sample (`Transformations::normalize_to_color8`).
    pub normalize_to_color8: bool,
}

/// A PNG decoder with what it reads: the bytes it was made over, its memory limit, the
/// options set on it so far, and whether reading its header has failed.
struct PngDecoder {
    handle: PngDecoderHandle,
    source: Ghost<Seq<u8>>,
    limit: Ghost<usize>,
    setup: Ghost<PngReadSetup>,
    header_failed: Ghost<bool>,
}

/// A PNG reader with what its decoder read, and how many rows have been asked of it.
struct PngReader {
    handle: PngReaderHandle,
    source: Ghost<Seq<u8>>,
    limit: Ghost<usize>,
    setup: Ghost<PngReadSetup>,
    rows_asked: Ghost<nat>,
}

/// What `png::Decoder::read_header_info` gives on a decoder made over `bytes` with memory
/// limit `limit` and options `setup`: the width, height and interlacing of the header, or how
/// it fails. The decoder reads from an in-memory cursor, so this and the names
/// below depend on these values alone.
pub uninterp spec fn png_header(bytes: Seq<u8>, limit: usize, setup: PngReadSetup) -> Result<(u32, u32, bool), PngDecodeFailure>;

/// Whether `png::Decoder::read_info` succeeds on such a decoder, none of whose header reads
/// failed, or how it fails.
pub uninterp spec fn png_info_read(bytes: Seq<u8>, limit: usize, setup: PngReadSetup) -> Result<(), PngDecodeFailure>;

/// Whether the image of such a decoder declares animation
/// (`Reader::info().animation_control.is_some()`).
pub uninterp spec fn png_animated(bytes: Seq<u8>, limit: usize, setup: PngReadSetup) -> bool;

/// `png::Reader::output_line_size(width)` on the reader of such a decoder.
pub uninterp spec fn png_line_size(bytes: Seq<u8>, limit: usize, setup: PngReadSetup, width: u32) -> Option<usize>;

/// What the `call`-th call (counting from zero) of `png::Reader::next_interlaced_row` gives on
/// the reader of such a decoder: how it fails, `None` after the last row, or a row's data and
/// whether it is a plain (non-interlaced) row.
pub uninterp spec fn png_row_outcome(bytes: Seq<u8>, limit: usize, setup: PngReadSetup, call: nat) -> Result<Option<(Seq<u8>, bool)>, PngDecodeFailure>;

/// Whether `png::Reader::finish` succeeds on the reader of such a decoder after `calls` calls
/// of `next_interlaced_row`, or how it fails.
pub uninterp spec fn png_finish_ok(bytes: Seq<u8>, limit: usize, setup: PngReadSetup, calls: nat) -> Result<(), PngDecodeFailure>;

/// `png::Reader::output_color_type` on the reader of a decoder made over `bytes` with memory
/// limit `limit` and options `setup`: the color type and bits per sample of its rows.
pub uninterp spec fn png_output_color(bytes: Seq<u8>, limit: usize, setup: PngReadSetup) -> (PngColorType, u8);

/// How a call of the PNG decoder failed: its `png::DecodingError` told apart by kind
/// (`LimitsExceeded`; an I/O error of kind `UnexpectedEof`; any other I/O or format error; a
/// parameter error). The calls below convert their errors so.
#[derive(Debug, Clone, Copy, PartialEq, Eq, Structural)]
pub enum PngDecodeFailure {
    /// The decoder's own memory limit was exceeded.
    LimitsExceeded,
    /// The input ended early.
    UnexpectedEof,
    /// The input is not valid PNG, or reading it failed otherwise.
    Malformed,
    /// The decoder was used outside its contract.
    Parameter,
}


/// `png::Decoder::new_with_limits` over the bytes, allowing the decoder `limit_bytes` of its
/// own allocations; no reading option is set yet.
#[verifier::external_body]
fn png_decoder(bytes: Vec<u8>, limit_bytes: usize) -> (d: PngDecoder)
    ensures
        d.source@ == bytes@,
        d.limit@ == limit_bytes,
        d.setup@ == (PngReadSetup { ignore_text: false, ignore_iccp: false, normalize_to_color8: false }),
        !d.header_failed@,
{
    let source = Ghost(bytes@);
    let handle = PngDecoderHandle { decoder: png::Decoder::new_with_limits(Cursor::new(bytes), png::Limits { bytes: limit_bytes }) };
    let setup = Ghost(PngReadSetup { ignore_text: false, ignore_iccp: false, normalize_to_color8: false });
    PngDecoder { handle, source, limit: Ghost(limit_bytes), setup, header_failed: Ghost(false) }
}

/// `png::Decoder::set_ignore_text_chunk`.
#[verifier::external_body]
fn png_ignore_text_chunks(decoder: &mut PngDecoder)
    ensures
        final(decoder).source == old(decoder).source,
        final(decoder).limit == old(decoder).limit,
        final(decoder).setup@ == (PngReadSetup { ignore_text: true, ..old(decoder).setup@ }),
        final(decoder).header_failed == old(decoder).header_failed,
{
    decoder.handle.decoder.set_ignore_text_chunk(true);
}

/// `png::Decoder::set_ignore_iccp_chunk`.
#[verifier::external_body]
fn png_ignore_iccp_chunk(decoder: &mut PngDecoder)
    ensures
        final(decoder).source == old(decoder).source,
        final(decoder).limit == old(decoder).limit,
        final(decoder).setup@ == (PngReadSetup { ignore_iccp: true, ..old(decoder).setup@ }),
        final(decoder).header_failed == old(decoder).header_failed,
{
    decoder.handle.decoder.set_ignore_iccp_chunk(true);
}

/// `png::Decoder::set_transformations` with `Transformations::normalize_to_color8()`: rows
/// come out with eight bits per sample.
#[verifier::external_body]
fn png_normalize_to_color8(decoder: &mut PngDecoder)
    ensures
        final(decoder).source == old(decoder).source,
        final(decoder).limit == old(decoder).limit,
        final(decoder).setup@ == (PngReadSetup { normalize_to_color8: true, ..old(decoder).setup@ }),
        final(decoder).header_failed == old(decoder).header_failed,
{
    decoder.handle.decoder.set_transformations(png::Transformations::normalize_to_color8());
}

/// `png::Decoder::read_header_info`: the width, height and interlacing the header declares,
/// or how it failed, as named by `png_header` while no earlier header read failed.
#[verifier::external_body]
fn png_read_header_info(decoder: &mut PngDecoder) -> (r: Result<(u32, u32, bool), PngDecodeFailure>)
    ensures
        final(decoder).source == old(decoder).source,
        final(decoder).limit == old(decoder).limit,
        final(decoder).setup == old(decoder).setup,
        final(decoder).header_failed@ == (old(decoder).header_failed@ || r is Err),
        !old(decoder).header_failed@ ==> r == png_header(old(decoder).source@, old(decoder).limit@, old(decoder).setup@),
{
    match decoder.handle.decoder.read_header_info() {
        Ok(info) => Ok((info.width, info.height, info.interlaced)),
        Err(png::DecodingError::LimitsExceeded) => Err(PngDecodeFailure::LimitsExceeded),
        Err(png::DecodingError::IoError(e)) if e.kind() == std::io::ErrorKind::UnexpectedEof => Err(PngDecodeFailure::UnexpectedEof),
        Err(png::DecodingError::IoError(_) | png::DecodingError::Format(_)) => Err(PngDecodeFailure::Malformed),
        Err(png::DecodingError::Parameter(_)) => Err(PngDecodeFailure::Parameter),
    }
}

/// `png::Decoder::read_info`: the reader positioned at the image data; whether it succeeds,
/// and how it fails, is named by `png_info_read` while no header read failed.
#[verifier::external_body]
fn png_read_info(decoder: PngDecoder) -> (r: Result<PngReader, PngDecodeFailure>)
    ensures
        r matches Ok(reader) ==> reader.source == decoder.source && reader.limit == decoder.limit
            && reader.setup == decoder.setup && reader.rows_asked@ == 0,
        !decoder.header_failed@ ==> match png_info_read(decoder.source@, decoder.limit@, decoder.setup@) {
            Ok(()) => r is Ok,
            Err(f) => r == Err::<PngReader, PngDecodeFailure>(f),
        },
{
    let PngDecoder { handle, source, limit, setup, .. } = decoder;
    match handle.decoder.read_info() {
        Ok(reader) => Ok(PngReader { handle: PngReaderHandle { reader }, source, limit, setup, rows_asked: Ghost(0) }),
        Err(png::DecodingError::LimitsExceeded) => Err(PngDecodeFailure::LimitsExceeded),
        Err(png::DecodingError::IoError(e)) if e.kind() == std::io::ErrorKind::UnexpectedEof => Err(PngDecodeFailure::UnexpectedEof),
        Err(png::DecodingError::IoError(_) | png::DecodingError::Format(_)) => Err(PngDecodeFailure::Malformed),
        Err(png::DecodingError::Parameter(_)) => Err(PngDecodeFailure::Parameter),
    }
}

/// Whether the image declares animation: `Reader::info().animation_control.is_some()`.
#[verifier::external_body]
fn png_is_animated(reader: &PngReader) -> (r: bool)
    ensures
        r == png_animated(reader.source@, reader.limit@, reader.setup@),
{
    reader.handle.reader.info().animation_control.is_some()
}

/// `png::Reader::output_color_type`: the color type and the bits per sample of decoded rows.
#[verifier::external_body]
fn png_output_color_type(reader: &PngReader) -> (r: (PngColorType, u8))
    ensures
        r == png_output_color(reader.source@, reader.limit@, reader.setup@),
{
    let (color, depth) = reader.handle.reader.output_color_type();
    let color = match color {
        png::ColorType::Grayscale => PngColorType::Grayscale,
        png::ColorType::Rgb => PngColorType::Rgb,
        png::ColorType::Indexed => PngColorType::Indexed,
        png::ColorType::GrayscaleAlpha => PngColorType::GrayscaleAlpha,
        png::ColorType::Rgba => PngColorType::Rgba,
    };
    (color, depth as u8)
}

/// `png::Reader::output_line_size`: the bytes of one decoded row of `width` pixels, `None` when
/// that does not fit in memory.
#[verifier::external_body]
fn png_output_line_size(reader: &PngReader, width: u32) -> (r: Option<usize>)
    ensures
        r == png_line_size(reader.source@, reader.limit@, reader.setup@, width),
{
    reader.handle.reader.output_line_size(width)
}

/// `png::Reader::next_interlaced_row`: the next decoded row and whether it is a plain
/// (non-interlaced) row, `None` after the last row, or how it failed, as named by
/// `png_row_outcome` for this call.
#[verifier::external_body]
fn png_next_row(reader: &mut PngReader) -> (r: Result<Option<(Vec<u8>, bool)>, PngDecodeFailure>)
    ensures
        final(reader).source == old(reader).source,
        final(reader).limit == old(reader).limit,
        final(reader).setup == old(reader).setup,
        final(reader).rows_asked@ == old(reader).rows_asked@ + 1,
        match png_row_outcome(old(reader).source@, old(reader).limit@, old(reader).setup@, old(reader).rows_asked@) {
            Err(f) => r == Err::<Option<(Vec<u8>, bool)>, PngDecodeFailure>(f),
            Ok(None) => r matches Ok(None),
            Ok(Some((row, plain))) => r matches Ok(Some((v, p))) && v@ == row && p == plain,
        },
{
    reader.rows_asked = Ghost(reader.rows_asked@ + 1);
    match reader.handle.reader.next_interlaced_row() {
        Ok(Some(row)) => Ok(Some((row.data().to_vec(), matches!(row.interlace(), png::InterlaceInfo::Null(_))))),
        Ok(None) => Ok(None),
        Err(png::DecodingError::LimitsExceeded) => Err(PngDecodeFailure::LimitsExceeded),
        Err(png::DecodingError::IoError(e)) if e.kind() == std::io::ErrorKind::UnexpectedEof => Err(PngDecodeFailure::UnexpectedEof),
        Err(png::DecodingError::IoError(_) | png::DecodingError::Format(_)) => Err(PngDecodeFailure::Malformed),
        Err(png::DecodingError::Parameter(_)) => Err(PngDecodeFailure::Parameter),
    }
}

/// `png::Reader::finish`: reads the rest of the input; whether it succeeds, and how it fails,
/// is named by `png_finish_ok` for the rows asked so far.
#[verifier::external_body]
fn png_finish(mut reader: PngReader) -> (r: Result<(), PngDecodeFailure>)
    ensures
        r == png_finish_ok(reader.source@, reader.limit@, reader.setup@, reader.rows_asked@),
{
    match reader.handle.reader.finish() {
        Ok(()) => Ok(()),
        Err(png::DecodingError::LimitsExceeded) => Err(PngDecodeFailure::LimitsExceeded),
        Err(png::DecodingError::IoError(e)) if e.kind() == std::io::ErrorKind::UnexpectedEof => Err(PngDecodeFailure::UnexpectedEof),
        Err(png::DecodingError::IoError(_) | png::DecodingError::Format(_)) => Err(PngDecodeFailure::Malformed),
        Err(png::DecodingError::Parameter(_)) => Err(PngDecodeFailure::Parameter),
    }
}

/// Whether the work an import stands for was cancelled; asked between decoding stages.
pub trait ImportCancellation {
    fn is_cancelled(&self) -> bool;
}

/// The import error for a failed decoder call at `stage`.
pub open spec fn png_error(stage: ImageImportStage, failure: PngDecodeFailure) -> ImageImportError {
    match failure {
        PngDecodeFailure::LimitsExceeded => ImageImportError::Budget {
            stage,
            error: ImageImportBudgetError::from_model(per_image_error(ImageImportLimitKind::DecoderWorkBytes, None, PNG_TRACKED_DECODER_BYTES as u64)),
        },
        PngDecodeFailure::UnexpectedEof => ImageImportError::Png { stage, kind: ImagePngFailureKind::Truncated },
        PngDecodeFailure::Malformed => ImageImportError::Png { stage, kind: ImagePngFailureKind::InvalidData },
        PngDecodeFailure::Parameter => ImageImportError::Png { stage, kind: ImagePngFailureKind::DecoderContract },
    }
}

/// Maps a decoder failure at `stage` to an import error.
pub fn map_png_error(stage: ImageImportStage, failure: PngDecodeFailure) -> (r: ImageImportError)
    ensures
        r == png_error(stage, failure),
{
    match failure {
        PngDecodeFailure::LimitsExceeded => ImageImportError::Budget {
            stage,
            error: ImageImportBudgetError::per_image(ImageImportLimitKind::DecoderWorkBytes, None, PNG_TRACKED_DECODER_BYTES as u64),
        },
        PngDecodeFailure::UnexpectedEof => ImageImportError::Png { stage, kind: ImagePngFailureKind::Truncated },
        PngDecodeFailure::Malformed => ImageImportError::Png { stage, kind: ImagePngFailureKind::InvalidData },
        PngDecodeFailure::Parameter => ImageImportError::Png { stage, kind: ImagePngFailureKind::DecoderContract },
    }
}

fn check_cancelled<C: ImportCancellation>(cancellation: Option<&C>, stage: ImageImportStage) -> (r: Result<(), ImageImportError>)
    ensures
        cancellation is None ==> r is Ok,
        r is Err ==> r == Err::<(), ImageImportError>(ImageImportError::Cancelled { stage }),
{
    match cancellation {
        Some(c) => {
            if c.is_cancelled() {
                return Err(ImageImportError::Cancelled { stage });
            }
            Ok(())
        },
        None => Ok(()),
    }
}

/// `Vec::try_reserve_exact`: whether room for `additional` more bytes could be reserved. The
/// bytes are unchanged either way; whether the allocator had room is not stated.
#[verifier::external_body]
fn try_reserve_exact(bytes: &mut Vec<u8>, additional: usize) -> (r: bool)
    ensures
        final(bytes)@ == old(bytes)@,
{
    bytes.try_reserve_exact(additional).is_ok()
}

/// `length` zero bytes, or an allocation failure at `stage` when they cannot be reserved.
fn allocate_zeroed(length: usize, stage: ImageImportStage) -> (r: Result<Vec<u8>, ImageImportError>)
    ensures
        match r {
            Ok(v) => v@ == Seq::new(length as nat, |i: int| 0u8),
            Err(e) => e == (ImageImportError::Png { stage, kind: ImagePngFailureKind::AllocationFailed }),
        },
{
    let mut bytes: Vec<u8> = Vec::new();
    if !try_reserve_exact(&mut bytes, length) {
        return Err(ImageImportError::Png { stage, kind: ImagePngFailureKind::AllocationFailed });
    }
    let mut i: usize = 0;
    while i < length
        invariant
            i <= length,
            bytes@ == Seq::new(i as nat, |k: int| 0u8),
        decreases length - i,
    {
        bytes.push(0);
        proof {
            assert(bytes@ =~= Seq::new((i + 1) as nat, |k: int| 0u8));
        }
        i = i + 1;
    }
    Ok(bytes)
}

/// Copies `row` into `pixels` at `start`.
fn copy_row(pixels: &mut Vec<u8>, start: usize, row: &Vec<u8>)
    requires
        start + row@.len() <= old(pixels)@.len(),
    ensures
        final(pixels)@.len() == old(pixels)@.len(),
        final(pixels)@.subrange(start as int, start + row@.len()) == row@,
        forall|k: int| 0 <= k < old(pixels)@.len() && !(start <= k < start + row@.len()) ==> final(pixels)@[k] == old(pixels)@[k],
{
    let total = pixels.len();
    let mut k: usize = 0;
    while k < row.len()
        invariant
            k <= row@.len(),
            start + row@.len() <= pixels@.len(),
            pixels@.len() == old(pixels)@.len(),
            pixels@.len() == total,
            forall|j: int| 0 <= j < k ==> pixels@[start + j] == row@[j],
            forall|j: int| 0 <= j < old(pixels)@.len() && !(start <= j < start + k) ==> pixels@[j] == old(pixels)@[j],
        decreases row@.len() - k,
    {
        pixels.set(start + k, row[k]);
        k = k + 1;
    }
    proof {
        assert(pixels@.subrange(start as int, start + row@.len()) =~= row@);
    }
}

/// The reading options the importer decodes with: text and iCCP chunks skipped, rows
/// normalized to eight bits per sample.
pub open spec fn png_import_setup() -> PngReadSetup {
    PngReadSetup { ignore_text: true, ignore_iccp: true, normalize_to_color8: true }
}

/// The row that the importer's decoder hands out at call `call` for `bytes`.
pub open spec fn png_row(bytes: Seq<u8>, call: nat) -> Seq<u8> {
    png_row_outcome(bytes, PNG_TRACKED_DECODER_BYTES, png_import_setup(), call)->Ok_0->Some_0.0
}

/// The first `count` rows the importer's decoder hands out for `bytes`.
pub open spec fn png_rows(bytes: Seq<u8>, count: nat) -> Seq<Seq<u8>> {
    Seq::new(count, |r: int| png_row(bytes, r as nat))
}

/// The importer's refusal of the metadata of the PNG `bytes`, whose header preflight is
/// `preflight`, decoded under `plan`, if any: the decoder's header read fails or differs from
/// the preflight, its metadata read fails, the image is animated, its rows would not come out
/// with eight bits per sample, or the size of a row is unknown.
pub open spec fn png_metadata_error(bytes: Seq<u8>, preflight: PngHeaderPreflight, plan: PlanModel) -> Option<ImageImportError> {
    let limit = PNG_TRACKED_DECODER_BYTES;
    let setup = png_import_setup();
    match png_header(bytes, limit, setup) {
        Err(f) => Some(png_error(ImageImportStage::Header, f)),
        Ok(h) => if h != (preflight.width, preflight.height, preflight.interlaced) {
            Some(ImageImportError::Png { stage: ImageImportStage::Header, kind: ImagePngFailureKind::DecoderContract })
        } else {
            match png_info_read(bytes, limit, setup) {
                Err(f) => Some(png_error(ImageImportStage::Metadata, f)),
                Ok(()) => if png_animated(bytes, limit, setup) {
                    Some(ImageImportError::Unsupported { stage: ImageImportStage::Metadata, feature: ImageUnsupportedFeature::Animation })
                } else if png_output_color(bytes, limit, setup).1 != 8 {
                    Some(ImageImportError::Unsupported { stage: ImageImportStage::Metadata, feature: ImageUnsupportedFeature::OutputColorModel })
                } else if png_line_size(bytes, limit, setup, preflight.width) is None {
                    Some(ImageImportError::Budget {
                        stage: ImageImportStage::Metadata,
                        error: ImageImportBudgetError::from_model(per_image_error(ImageImportLimitKind::DecoderWorkBytes, None, plan.decoder_work as u64)),
                    })
                } else {
                    None
                },
            }
        },
    }
}

/// The importer's refusal of the row that call `call` of its decoder hands out for `bytes`,
/// to be converted from `color` at `width` pixels, if any: the call fails, the rows have
/// ended, the row is interlaced, the color model is indexed, or the row is short.
pub open spec fn png_row_error(bytes: Seq<u8>, call: nat, color: PngColorType, width: u32) -> Option<ImageImportError> {
    match png_row_outcome(bytes, PNG_TRACKED_DECODER_BYTES, png_import_setup(), call) {
        Err(f) => Some(png_error(ImageImportStage::Decode, f)),
        Ok(None) => Some(ImageImportError::Png { stage: ImageImportStage::Decode, kind: ImagePngFailureKind::Truncated }),
        Ok(Some((row, plain))) => if !plain {
            Some(ImageImportError::Unsupported { stage: ImageImportStage::Decode, feature: ImageUnsupportedFeature::Interlacing })
        } else if color is Indexed {
            Some(ImageImportError::Unsupported { stage: ImageImportStage::Decode, feature: ImageUnsupportedFeature::OutputColorModel })
        } else if row.len() < color_channels(color)->0 * width {
            Some(ImageImportError::Png { stage: ImageImportStage::Decode, kind: ImagePngFailureKind::DecoderContract })
        } else {
            None
        },
    }
}

/// The refusal of the first of the first `count` rows that is refused, if any.
pub open spec fn png_rows_error(bytes: Seq<u8>, color: PngColorType, width: u32, count: nat) -> Option<ImageImportError>
    decreases count,
{
    if count == 0 {
        None
    } else {
        match png_rows_error(bytes, color, width, (count - 1) as nat) {
            Some(e) => Some(e),
            None => png_row_error(bytes, (count - 1) as nat, color, width),
        }
    }
}

/// Once a row is refused, it stays the first refused row as more rows are counted.
proof fn lemma_rows_error_stays(bytes: Seq<u8>, color: PngColorType, width: u32, k: nat, n: nat)
    requires
        k <= n,
        png_rows_error(bytes, color, width, k) is Some,
    ensures
        png_rows_error(bytes, color, width, n) == png_rows_error(bytes, color, width, k),
    decreases n - k,
{
    if k < n {
        lemma_rows_error_stays(bytes, color, width, k, (n - 1) as nat);
    }
}

/// How the importer refuses the PNG `bytes`, whose header preflight is `preflight`, decoded
/// under `plan` with RGBA limit `max_rgba`, apart from the allocator refusing memory or a
/// cancellation: its metadata's refusal; a row of RGBA bytes too large to address; the first
/// refused row; a failing or extra read after the last row; a failing read of the rest of
/// the input; or an empty image. `None` when it decodes.
pub open spec fn png_decode_error(bytes: Seq<u8>, preflight: PngHeaderPreflight, plan: PlanModel, max_rgba: usize) -> Option<ImageImportError> {
    let limit = PNG_TRACKED_DECODER_BYTES;
    let setup = png_import_setup();
    let w = preflight.width;
    let h = preflight.height;
    match png_metadata_error(bytes, preflight, plan) {
        Some(e) => Some(e),
        None => if w * 4 > usize::MAX {
            Some(ImageImportError::Budget {
                stage: ImageImportStage::Decode,
                error: ImageImportBudgetError::from_model(per_image_error(ImageImportLimitKind::RgbaBytes, None, max_rgba as u64)),
            })
        } else {
            match png_rows_error(bytes, png_output_color(bytes, limit, setup).0, w, h as nat) {
                Some(e) => Some(e),
                None => match png_row_outcome(bytes, limit, setup, h as nat) {
                    Err(f) => Some(png_error(ImageImportStage::Finalize, f)),
                    Ok(Some(_)) => Some(ImageImportError::Png { stage: ImageImportStage::Finalize, kind: ImagePngFailureKind::InvalidData }),
                    Ok(None) => match png_finish_ok(bytes, limit, setup, (h + 1) as nat) {
                        Err(f) => Some(png_error(ImageImportStage::Finalize, f)),
                        Ok(()) => if w == 0 || h == 0 {
                            Some(ImageImportError::Png { stage: ImageImportStage::Finalize, kind: ImagePngFailureKind::DecoderContract })
                        } else {
                            None
                        },
                    },
                },
            }
        },
    }
}

/// A decoding failure `e` of the PNG `bytes` is the importer's refusal of them, the allocator
/// refusing the pixel or row buffers once the metadata was accepted, or a cancellation when
/// one can be asked for.
pub open spec fn decode_failure_explained(
    e: ImageImportError,
    bytes: Seq<u8>,
    preflight: PngHeaderPreflight,
    plan: PlanModel,
    max_rgba: usize,
    cancellable: bool,
) -> bool {
    ||| png_decode_error(bytes, preflight, plan, max_rgba) == Some(e)
    ||| (e == (ImageImportError::Png { stage: ImageImportStage::Decode, kind: ImagePngFailureKind::AllocationFailed })
        && png_metadata_error(bytes, preflight, plan) is None)
    ||| (cancellable && e is Cancelled)
}

/// The RGBA8 pixels of the PNG `bytes` of `width` by `height` pixels: its decoded rows in
/// the decoder's output color, converted row by row.
pub open spec fn png_rgba(bytes: Seq<u8>, width: u32, height: u32) -> Seq<u8> {
    rgba_image(png_output_color(bytes, PNG_TRACKED_DECODER_BYTES, png_import_setup()).0, png_rows(bytes, height as nat), width)
}

/// `image` is the RGBA8 image of the PNG `bytes`, whose header is `preflight`, in
/// `color_space`.
pub open spec fn decoded_shape(image: ImageAsset, bytes: Seq<u8>, preflight: PngHeaderPreflight, color_space: ImageColorSpace) -> bool {
    &&& image.spec_extent() == (ImageExtent { width: preflight.width, height: preflight.height })
    &&& image.spec_format() == ImageFormat::Rgba8
    &&& image.spec_color_space() == color_space
    &&& image.spec_pixels().len() == preflight.width * preflight.height * 4
    &&& image.spec_pixels() == png_rgba(bytes, preflight.width, preflight.height)
}

/// What decoding under `plan` leaves, from a budget in state `before` with aggregate `limit`
/// and a reservation holding `held`: the reservation is grown to the plan's peak or refused at
/// the metadata stage; once grown, a decoded image has the header's shape and a failure comes
/// after admission.
pub open spec fn decode_outcome(
    before: SnapshotModel,
    limit: usize,
    held: ImageImportCharge,
    plan: PlanModel,
    after: SnapshotModel,
    held_after: ImageImportCharge,
    r: Result<ImageAsset, ImageImportError>,
    bytes: Seq<u8>,
    preflight: PngHeaderPreflight,
    color_space: ImageColorSpace,
    max_rgba: usize,
    cancellable: bool,
) -> bool {
    match resize_outcome(before, limit, held, peak_charge(plan)) {
        Err(e) => (r matches Err(ImageImportError::Budget { stage, error }) && stage == ImageImportStage::Metadata && error.model() == e)
            && after == after_rejection(before)
            && held_after == held,
        Ok(s) => after == s && held_after == peak_charge(plan) && match r {
            Ok(image) => decoded_shape(image, bytes, preflight, color_space) && png_decode_error(bytes, preflight, plan, max_rgba) is None,
            Err(e) => e.spec_stage() != ImageImportStage::Admission
                && decode_failure_explained(e, bytes, preflight, plan, max_rgba, cancellable),
        },
    }
}

/// The image of a decode result that also carries the plan.
pub open spec fn image_part(r: Result<(ImageAsset, ImageImportMemoryPlan), ImageImportError>) -> Result<ImageAsset, ImageImportError> {
    match r {
        Ok((image, _)) => Ok(image),
        Err(e) => Err(e),
    }
}

/// What [`decode_png`] leaves when not cancelled before the header: the preflight's refusal
/// with budget and reservation untouched, or the outcome of decoding under the preflighted
/// plan, which a decoded image carries.
pub open spec fn preflighted_decode_outcome(
    limits: ImageImportLimits,
    bytes: Seq<u8>,
    encoded_allocation_bytes: usize,
    publication_overlap_bytes: usize,
    before: ImageImportBudgetHost,
    held: ImageImportReservation,
    after: ImageImportBudgetHost,
    held_after: ImageImportReservation,
    r: Result<(ImageAsset, ImageImportMemoryPlan), ImageImportError>,
    color_space: ImageColorSpace,
    cancellable: bool,
) -> bool {
    match png_preflight_plan(limits, bytes, encoded_allocation_bytes, publication_overlap_bytes) {
        Err(e) => r == Err::<(ImageAsset, ImageImportMemoryPlan), ImageImportError>(e) && after == before && held_after == held,
        Ok((h, p)) => {
            &&& decode_outcome(
                before.spec_budget().state(),
                before.spec_limit().value(),
                held.spec_charge(),
                p,
                after.spec_budget().state(),
                held_after.spec_charge(),
                image_part(r),
                bytes,
                h,
                color_space,
                limits.model().rgba,
                cancellable,
            )
            &&& r matches Ok((_, plan)) ==> plan.model() == p
        },
    }
}

/// Preflights the PNG `source_bytes` (held in an allocation of `encoded_allocation_bytes`,
/// with `publication_overlap_bytes` to be kept for publication) and decodes it under the
/// resulting plan. `cancellation` is asked first, before the header is read.
pub fn decode_png<C: ImportCancellation>(
    limits: ImageImportLimits,
    color_space: ImageColorSpace,
    metadata: ImageSourceMetadata,
    source_bytes: &[u8],
    encoded_allocation_bytes: usize,
    publication_overlap_bytes: usize,
    host: &mut ImageImportBudgetHost,
    reservation: &mut ImageImportReservation,
    cancellation: Option<&C>,
) -> (r: Result<(ImageAsset, ImageImportMemoryPlan), ImageImportError>)
    requires
        old(host).wf(),
        old(host).issued(*old(reservation)),
    ensures
        final(host).wf(),
        final(host).spec_limit() == old(host).spec_limit(),
        final(host).spec_publication_overlap_limit() == old(host).spec_publication_overlap_limit(),
        final(host).issued(*final(reservation)),
        r matches Ok((image, _)) ==> image.spec_source() == metadata,
        cancellation is None ==> preflighted_decode_outcome(limits, source_bytes@, encoded_allocation_bytes, publication_overlap_bytes,
            *old(host), *old(reservation), *final(host), *final(reservation), r, color_space, false),
        preflighted_decode_outcome(limits, source_bytes@, encoded_allocation_bytes, publication_overlap_bytes,
            *old(host), *old(reservation), *final(host), *final(reservation), r, color_space, cancellation is Some)
            || (r == Err::<(ImageAsset, ImageImportMemoryPlan), ImageImportError>(ImageImportError::Cancelled { stage: ImageImportStage::Header })
                && *final(host) == *old(host) && *final(reservation) == *old(reservation)),
{
    match check_cancelled(cancellation, ImageImportStage::Header) {
        Err(e) => return Err(e),
        Ok(()) => {},
    }
    let (preflight, plan) = match preflight_png_memory_plan(limits, source_bytes, encoded_allocation_bytes, publication_overlap_bytes) {
        Err(e) => return Err(e),
        Ok(p) => p,
    };
    match decode_png_with_preflight(limits, color_space, metadata, source_bytes, preflight, plan, host, reservation, cancellation) {
        Ok(image) => Ok((image, plan)),
        Err(e) => Err(e),
    }
}

/// Decodes the PNG `source_bytes`, whose header gave `preflight` and whose memory `plan` was
/// admitted, into RGBA8 pixels. The reservation is first grown to the plan's peak; the
/// decoder then runs under its own memory limit, checking `cancellation` between stages.
///
/// What the decoder reads from the bytes is the `png` crate's: a decoded image holds the
/// decoder's rows of these bytes converted to RGBA8; whether decoding succeeds is the crate's.
pub fn decode_png_with_preflight<C: ImportCancellation>(
    limits: ImageImportLimits,
    color_space: ImageColorSpace,
    metadata: ImageSourceMetadata,
    source_bytes: &[u8],
    preflight: PngHeaderPreflight,
    plan: ImageImportMemoryPlan,
    host: &mut ImageImportBudgetHost,
    reservation: &mut ImageImportReservation,
    cancellation: Option<&C>,
) -> (r: Result<ImageAsset, ImageImportError>)
    requires
        old(host).wf(),
        plan.model().rgba == preflight.width * preflight.height * 4,
        old(host).issued(*old(reservation)),
    ensures
        final(host).issued(*final(reservation)),
        r matches Ok(image) ==> image.spec_source() == metadata,
        final(host).wf(),
        final(host).spec_limit() == old(host).spec_limit(),
        final(host).spec_publication_overlap_limit() == old(host).spec_publication_overlap_limit(),
        decode_outcome(
            old(host).spec_budget().state(),
            old(host).spec_limit().value(),
            old(reservation).spec_charge(),
            plan.model(),
            final(host).spec_budget().state(),
            final(reservation).spec_charge(),
            r,
            source_bytes@,
            preflight,
            color_space,
            limits.model().rgba,
            cancellation is Some,
        ),
{
    match host.resize(reservation, ImageImportCharge::peak(plan)) {
        Err(e) => return Err(ImageImportError::Budget { stage: ImageImportStage::Metadata, error: e }),
        Ok(()) => {},
    }
    let ghost resized = *host;
    let ghost held = *reservation;
    let mut source: Vec<u8> = Vec::new();
    let mut i: usize = 0;
    while i < source_bytes.len()
        invariant
            i <= source_bytes@.len(),
            source@ == source_bytes@.take(i as int),
        decreases source_bytes@.len() - i,
    {
        source.push(source_bytes[i]);
        proof {
            assert(source_bytes@.take(i + 1) =~= source_bytes@.take(i as int).push(source_bytes@[i as int]));
        }
        i = i + 1;
    }
    proof {
        assert(source_bytes@.take(source_bytes@.len() as int) =~= source_bytes@);
    }
    let mut decoder = png_decoder(source, PNG_TRACKED_DECODER_BYTES);
    png_ignore_text_chunks(&mut decoder);
    png_ignore_iccp_chunk(&mut decoder);
    png_normalize_to_color8(&mut decoder);
    let (width, height, interlaced) = match png_read_header_info(&mut decoder) {
        Ok(header) => header,
        Err(f) => return Err(map_png_error(ImageImportStage::Header, f)),
    };
    if width != preflight.width || height != preflight.height || interlaced != preflight.interlaced {
        return Err(ImageImportError::Png { stage: ImageImportStage::Header, kind: ImagePngFailureKind::DecoderContract });
    }
    match check_cancelled(cancellation, ImageImportStage::Metadata) {
        Err(e) => return Err(e),
        Ok(()) => {},
    }
    let mut reader = match png_read_info(decoder) {
        Ok(reader) => reader,
        Err(f) => return Err(map_png_error(ImageImportStage::Metadata, f)),
    };
    if png_is_animated(&reader) {
        return Err(ImageImportError::Unsupported { stage: ImageImportStage::Metadata, feature: ImageUnsupportedFeature::Animation });
    }
    let (output_color, output_depth) = png_output_color_type(&reader);
    if output_depth != 8 {
        return Err(ImageImportError::Unsupported { stage: ImageImportStage::Metadata, feature: ImageUnsupportedFeature::OutputColorModel });
    }
    if png_output_line_size(&reader, width).is_none() {
        return Err(ImageImportError::Budget {
            stage: ImageImportStage::Metadata,
            error: ImageImportBudgetError::per_image(ImageImportLimitKind::DecoderWorkBytes, None, plan.decoder_work_bytes() as u64),
        });
    }
    let mut rgba = match allocate_zeroed(plan.rgba_bytes(), ImageImportStage::Decode) {
        Ok(bytes) => bytes,
        Err(e) => return Err(e),
    };
    let rgba_row_bytes = match (width as usize).checked_mul(4) {
        Some(n) => n,
        None => return Err(ImageImportError::Budget {
            stage: ImageImportStage::Decode,
            error: ImageImportBudgetError::per_image(ImageImportLimitKind::RgbaBytes, None, limits.max_rgba_bytes().get() as u64),
        }),
    };
    let mut row_index: u32 = 0;
    proof {
        assert(rgba@.subrange(0, 0) =~= rgba_image(output_color, png_rows(source_bytes@, 0), width));
    }
    while row_index < height
        invariant
            row_index <= height,
            *host == resized,
            *reservation == held,
            resized.wf(),
            resized.spec_limit() == old(host).spec_limit(),
            resized.spec_publication_overlap_limit() == old(host).spec_publication_overlap_limit(),
            resize_outcome(old(host).spec_budget().state(), old(host).spec_limit().value(), old(reservation).spec_charge(), ImageImportCharge::spec_peak(plan))
                == Ok::<crate::image::budget::SnapshotModel, crate::image::limits::BudgetErrorModel>(resized.spec_budget().state()),
            held.spec_charge() == ImageImportCharge::spec_peak(plan),
            resized.issued(held),
            width == preflight.width,
            height == preflight.height,
            rgba_row_bytes == width * 4,
            rgba@.len() == width * height * 4,
            rgba@.len() <= usize::MAX,
            reader.source@ == source_bytes@,
            reader.limit@ == PNG_TRACKED_DECODER_BYTES,
            reader.setup@ == png_import_setup(),
            reader.rows_asked@ == row_index,
            output_color == png_output_color(source_bytes@, PNG_TRACKED_DECODER_BYTES, png_import_setup()).0,
            output_depth == png_output_color(source_bytes@, PNG_TRACKED_DECODER_BYTES, png_import_setup()).1,
            output_depth == 8,
            interlaced == preflight.interlaced,
            png_metadata_error(source_bytes@, preflight, plan.model()) is None,
            png_rows_error(source_bytes@, output_color, width, row_index as nat) is None,
            row_index > 0 ==> !(output_color is Indexed),
            row_index * (width * 4) <= rgba@.len(),
            rgba@.subrange(0, row_index * (width * 4)) == rgba_image(output_color, png_rows(source_bytes@, row_index as nat), width),
        decreases height - row_index,
    {
        match check_cancelled(cancellation, ImageImportStage::Decode) {
            Err(e) => return Err(e),
            Ok(()) => {},
        }
        let ghost k = row_index as nat;
        let (row, plain) = match png_next_row(&mut reader) {
            Err(f) => {
                proof {
                    lemma_rows_error_stays(source_bytes@, output_color, width, k + 1, height as nat);
                }
                return Err(map_png_error(ImageImportStage::Decode, f));
            },
            Ok(None) => {
                proof {
                    lemma_rows_error_stays(source_bytes@, output_color, width, k + 1, height as nat);
                }
                return Err(ImageImportError::Png { stage: ImageImportStage::Decode, kind: ImagePngFailureKind::Truncated });
            },
            Ok(Some(row)) => row,
        };
        if !plain {
            proof {
                lemma_rows_error_stays(source_bytes@, output_color, width, k + 1, height as nat);
            }
            return Err(ImageImportError::Unsupported { stage: ImageImportStage::Decode, feature: ImageUnsupportedFeature::Interlacing });
        }
        proof {
            assert(row_index * rgba_row_bytes <= rgba@.len()) by (nonlinear_arith)
                requires
                    rgba_row_bytes == width * 4,
                    rgba@.len() == width * height * 4,
                    row_index < height;
        }
        let destination_start = match (row_index as usize).checked_mul(rgba_row_bytes) {
            Some(n) => n,
            None => return Err(ImageImportError::Budget {
                stage: ImageImportStage::Decode,
                error: ImageImportBudgetError::per_image(ImageImportLimitKind::RgbaBytes, None, limits.max_rgba_bytes().get() as u64),
            }),
        };
        let mut destination = match allocate_zeroed(rgba_row_bytes, ImageImportStage::Decode) {
            Ok(bytes) => bytes,
            Err(e) => return Err(e),
        };
        match write_rgba8_row(output_color, row.as_slice(), &mut destination, width) {
            Err(e) => {
                proof {
                    lemma_rows_error_stays(source_bytes@, output_color, width, k + 1, height as nat);
                }
                return Err(e);
            },
            Ok(()) => {},
        }
        proof {
            assert(destination_start + destination@.len() <= rgba@.len()) by (nonlinear_arith)
                requires
                    destination_start == row_index * (width * 4),
                    destination@.len() == width * 4,
                    rgba@.len() == width * height * 4,
                    row_index < height;
        }
        let ghost prefix = rgba@.subrange(0, destination_start as int);
        copy_row(&mut rgba, destination_start, &destination);
        proof {
            assert(rgba@.subrange(0, destination_start as int) =~= prefix);
            assert(rgba@.subrange(0, destination_start + destination@.len()) =~= prefix + destination@);
            let rows = png_rows(source_bytes@, (row_index + 1) as nat);
            assert(rows.drop_last() =~= png_rows(source_bytes@, row_index as nat));
            assert((row_index + 1) * (width * 4) == row_index * (width * 4) + width * 4) by (nonlinear_arith);
        }
        row_index = row_index + 1;
    }
    match png_next_row(&mut reader) {
        Err(f) => return Err(map_png_error(ImageImportStage::Finalize, f)),
        Ok(Some(_)) => return Err(ImageImportError::Png { stage: ImageImportStage::Finalize, kind: ImagePngFailureKind::InvalidData }),
        Ok(None) => {},
    }
    match png_finish(reader) {
        Err(f) => return Err(map_png_error(ImageImportStage::Finalize, f)),
        Ok(()) => {},
    }
    match check_cancelled(cancellation, ImageImportStage::Finalize) {
        Err(e) => return Err(e),
        Ok(()) => {},
    }
    proof {
        assert(height * (width * 4) == width * height * 4) by (nonlinear_arith);
        assert(rgba@.subrange(0, rgba@.len() as int) =~= rgba@);
    }
    match ImageAsset::new(metadata, ImageExtent::new(width, height), ImageFormat::Rgba8, color_space, rgba) {
        Ok(image) => Ok(image),
        Err(_) => Err(ImageImportError::Png { stage: ImageImportStage::Finalize, kind: ImagePngFailureKind::DecoderContract }),
    }
}

} // verus!
