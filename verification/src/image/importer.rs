//! The PNG importer: validated limits bound to a matching budget host, and the preflighted
//! token that decodes an unpublished source within that budget.

use vstd::prelude::*;

use crate::image::asset::{ImageAsset, ImageColorSpace, ImageExtent, ImageFormat, ImageSourceMetadata};
use crate::image::budget::{
    peak_charge, publication_charge, reserve_outcome, resize_outcome, sat_sub_usize, ImageImportBudgetHost, ImageImportBudgetSnapshot, ImageImportCharge,
    ImageImportReservation, SnapshotModel, after_rejection, release_outcome,
};
use crate::image::decode::{decode_failure_explained, decode_png, decode_png_with_preflight, decoded_shape, png_decode_error, png_rgba, ImportCancellation};
use crate::image::import::ImageImportStage;
use crate::image::publication::{
    admission_outcome, ImageImportedAsset, ImagePublicationAdmission, ImagePublicationSnapshot, PublicationObservation,
};
use crate::image::limits::{
    file_admission_ceiling_spec, limits_check, ImageImportLimits, ImageImportLimitsError, ImageImportMemoryPlan,
    file_admission_ceiling, default_limits_model, LimitsModel, PlanModel,
};
use crate::image::png::{check_encoded_limit, png_preflight_plan, preflight_png_memory_plan, ImageImportError, PngHeaderPreflight};

verus! {

#[derive(Debug, Clone, Copy, PartialEq, Eq, Structural)]
pub enum ImageImporterCreateError {
    Limits(ImageImportLimitsError),
    BudgetLimitMismatch { configured: u64, host: u64 },
    BudgetOverlapLimitTooSmall { required: u64, host: u64 },
    BudgetAdmissionCeilingTooSmall { aggregate: u64, required: u64 },
}

/// The refusal of pairing `limits` with a host of aggregate limit `host_limit` and overlap
/// limit `host_overlap`, if any.
pub open spec fn importer_check(m: LimitsModel, host_limit: usize, host_overlap: usize) -> Option<ImageImporterCreateError> {
    match limits_check(m) {
        Err(e) => Some(ImageImporterCreateError::Limits(e)),
        Ok(()) => if m.in_flight != host_limit {
            Some(ImageImporterCreateError::BudgetLimitMismatch { configured: m.in_flight as u64, host: host_limit as u64 })
        } else if m.rgba > host_overlap {
            Some(ImageImporterCreateError::BudgetOverlapLimitTooSmall { required: m.rgba as u64, host: host_overlap as u64 })
        } else if m.in_flight < file_admission_ceiling_spec(m.encoded, host_overlap) {
            Some(ImageImporterCreateError::BudgetAdmissionCeilingTooSmall {
                aggregate: m.in_flight as u64,
                required: file_admission_ceiling_spec(m.encoded, host_overlap) as u64,
            })
        } else {
            None
        },
    }
}


/// `a` is the image of the PNG `bytes` with header `h`, decoded in `color_space` under plan `p` from the source
/// `source_stable_id`, for `publication`, keeping the publication charge of `p`.
pub open spec fn imported_as(
    a: ImageImportedAsset,
    bytes: Seq<u8>,
    h: PngHeaderPreflight,
    p: PlanModel,
    color_space: ImageColorSpace,
    publication: ImagePublicationAdmission,
    source_stable_id: u128,
) -> bool {
    &&& decoded_shape(a.spec_image(), bytes, h, color_space)
    &&& a.spec_memory_plan().model() == p
    &&& a.spec_reservation().spec_charge() == publication_charge(p)
    &&& a.spec_publication() == publication
    &&& a.spec_source_stable_id() == source_stable_id
}

/// What decoding `bytes` for `publication` leaves, starting from a budget of aggregate limit
/// `limit` in state `before` in which a reservation of `held` was made for it: a failure gives
/// the reservation back: the preflight's refusal, the budget's refusal to grow the reservation
/// to the plan's peak, or the decoding failure of the bytes (each may instead be a
/// cancellation when `cancellable`); a success is the preflighted image of bytes the decoder
/// accepts, holding only its publication charge.
pub open spec fn reserved_import_outcome(
    limits: ImageImportLimits,
    color_space: ImageColorSpace,
    bytes: Seq<u8>,
    publication: ImagePublicationAdmission,
    source_stable_id: u128,
    limit: usize,
    before: SnapshotModel,
    held: ImageImportCharge,
    after: SnapshotModel,
    r: Result<ImageImportedAsset, ImageImportError>,
    cancellable: bool,
) -> bool {
    let plan = png_preflight_plan(limits, bytes, bytes.len() as usize, publication.publication_overlap_bytes);
    match r {
        Err(e) => {
            &&& after.active_bytes == sat_sub_usize(before.active_bytes, held.total_bytes)
            &&& plan matches Err(refusal) ==> (e == refusal
                || (cancellable && e == ImageImportError::Cancelled { stage: ImageImportStage::Header }))
            &&& plan matches Ok((h, p)) ==> match resize_outcome(before, limit, held, peak_charge(p)) {
                Err(be) => (e matches ImageImportError::Budget { stage, error } && stage == ImageImportStage::Metadata && error.model() == be)
                    || (cancellable && e == ImageImportError::Cancelled { stage: ImageImportStage::Header }),
                Ok(_) => decode_failure_explained(e, bytes, h, p, limits.model().rgba, cancellable),
            }
        },
        Ok(a) => match plan {
            Ok((h, p)) => {
                &&& imported_as(a, bytes, h, p, color_space, publication, source_stable_id)
                &&& png_decode_error(bytes, h, p, limits.model().rgba) is None
                &&& held.total_bytes <= before.active_bytes ==> after.active_bytes == before.active_bytes - held.total_bytes + p.publication
            },
            Err(_) => false,
        },
    }
}

/// A successful import into a slot that keeps no replaced image decodes under exactly the plan
/// an unpublished preflight of the same bytes binds, and keeps only that plan's publication
/// charge.
pub proof fn lemma_vacant_import_plan_is_preflight_plan(
    limits: ImageImportLimits,
    color_space: ImageColorSpace,
    bytes: Seq<u8>,
    publication: ImagePublicationAdmission,
    source_stable_id: u128,
    limit: usize,
    before: SnapshotModel,
    held: ImageImportCharge,
    after: SnapshotModel,
    r: Result<ImageImportedAsset, ImageImportError>,
    cancellable: bool,
)
    requires
        publication.publication_overlap_bytes == 0,
        reserved_import_outcome(limits, color_space, bytes, publication, source_stable_id, limit, before, held, after, r, cancellable),
        r is Ok,
    ensures
        png_preflight_plan(limits, bytes, bytes.len() as usize, 0) is Ok,
        r->Ok_0.spec_memory_plan().model() == png_preflight_plan(limits, bytes, bytes.len() as usize, 0)->Ok_0.1,
        r->Ok_0.spec_reservation().spec_charge() == publication_charge(png_preflight_plan(limits, bytes, bytes.len() as usize, 0)->Ok_0.1),
{
}

/// The admission charge of `encoded` bytes with `overlap` bytes kept for publication, when
/// their sum fits.
pub open spec fn admission_charge(encoded: usize, overlap: usize) -> ImageImportCharge {
    ImageImportCharge {
        encoded_bytes: encoded,
        decoder_work_bytes: 0,
        rgba_bytes: 0,
        publication_overlap_bytes: overlap,
        total_bytes: (encoded + overlap) as usize,
    }
}

/// What admitting `encoded` bytes for the snapshot `publication` of source `source_stable_id`
/// does to an importer whose budget was `before`: the publication admission's refusal or the
/// admission charge's, with the budget untouched, or the budget's refusal of the reservation,
/// counted; otherwise `then` holds of the admitted overlap and the reserved budget state.
pub open spec fn admission_then(
    importer: ImageImporter,
    encoded: usize,
    source_stable_id: u128,
    publication: ImagePublicationSnapshot,
    observed: PublicationObservation,
    after: SnapshotModel,
    r_err: Option<ImageImportError>,
    then: spec_fn(usize, SnapshotModel) -> bool,
) -> bool {
    let before = importer.spec_host().spec_budget().state();
    match admission_outcome(publication, source_stable_id, observed, importer.spec_host().spec_publication_overlap_limit().value()) {
        Err(e) => r_err == Some(e) && after == before,
        Ok(overlap) => if encoded + overlap > usize::MAX {
            (r_err matches Some(ImageImportError::Budget { stage, error }) && stage == ImageImportStage::Admission
                && error.model() == crate::image::limits::per_image_error(
                    crate::image::limits::ImageImportLimitKind::AggregateInFlightBytes, None, importer.spec_limits().model().in_flight as u64))
                && after == before
        } else {
            match reserve_outcome(before, importer.spec_host().spec_limit().value(), admission_charge(encoded, overlap)) {
                Err(e) => (r_err matches Some(ImageImportError::Budget { stage, error }) && stage == ImageImportStage::Admission
                    && error.model() == e) && after == after_rejection(before),
                Ok(reserved) => then(overlap, reserved),
            }
        },
    }
}

/// The error of a result, if any.
pub open spec fn error_of<T>(r: Result<T, ImageImportError>) -> Option<ImageImportError> {
    match r {
        Ok(_) => None,
        Err(e) => Some(e),
    }
}

/// Imports PNG sources in one color space, within validated limits and a budget host sized
/// for them.
pub struct ImageImporter {
    color_space: ImageColorSpace,
    limits: ImageImportLimits,
    budget_host: ImageImportBudgetHost,
}

impl ImageImporter {
    pub closed spec fn spec_color_space(&self) -> ImageColorSpace {
        self.color_space
    }

    pub closed spec fn spec_limits(&self) -> ImageImportLimits {
        self.limits
    }

    pub closed spec fn spec_host(&self) -> ImageImportBudgetHost {
        self.budget_host
    }

    pub closed spec fn wf(&self) -> bool {
        self.budget_host.wf()
    }

    /// An importer with default limits.
    pub fn new() -> (r: Result<Self, ImageImporterCreateError>)
        ensures
            match importer_check(default_limits_model(), default_limits_model().in_flight, default_limits_model().rgba) {
                Some(e) => r == Err::<Self, ImageImporterCreateError>(e),
                None => r matches Ok(i) && i.wf() && i.spec_limits().model() == default_limits_model()
                    && i.spec_color_space() == ImageColorSpace::Srgb,
            },
    {
        Self::with_limits(ImageImportLimits::default_limits())
    }

    /// An importer for `limits`, with a fresh budget host sized from them.
    pub fn with_limits(limits: ImageImportLimits) -> (r: Result<Self, ImageImporterCreateError>)
        ensures
            limits_check(limits.model()) matches Err(e) ==> r == Err::<Self, ImageImporterCreateError>(ImageImporterCreateError::Limits(e)),
            limits_check(limits.model()) is Ok ==> match importer_check(limits.model(), limits.model().in_flight, limits.model().rgba) {
                Some(e) => r == Err::<Self, ImageImporterCreateError>(e),
                None => r matches Ok(i) && i.wf() && i.spec_limits() == limits && i.spec_color_space() == ImageColorSpace::Srgb
                    && i.spec_host().spec_budget().state() == crate::image::budget::empty_snapshot(),
            },
    {
        let host = match ImageImportBudgetHost::new(limits) {
            Ok(h) => h,
            Err(e) => return Err(ImageImporterCreateError::Limits(e)),
        };
        Self::with_budget_host(limits, host)
    }

    /// An importer for `limits` that reserves from `budget_host`; refused unless the host's
    /// aggregate limit is the configured one and its overlap limit admits the largest image
    /// and file.
    pub fn with_budget_host(limits: ImageImportLimits, budget_host: ImageImportBudgetHost) -> (r: Result<Self, ImageImporterCreateError>)
        requires
            budget_host.wf(),
        ensures
            match importer_check(limits.model(), budget_host.spec_limit().value(), budget_host.spec_publication_overlap_limit().value()) {
                Some(e) => r == Err::<Self, ImageImporterCreateError>(e),
                None => r matches Ok(i) && i.wf() && i.spec_limits() == limits && i.spec_host() == budget_host
                    && i.spec_color_space() == ImageColorSpace::Srgb,
            },
    {
        let limits = match limits.validate() {
            Ok(l) => l,
            Err(e) => return Err(ImageImporterCreateError::Limits(e)),
        };
        if limits.max_in_flight_bytes().get() != budget_host.limit().get() {
            return Err(ImageImporterCreateError::BudgetLimitMismatch {
                configured: limits.max_in_flight_bytes().get() as u64,
                host: budget_host.limit().get() as u64,
            });
        }
        if limits.max_rgba_bytes().get() > budget_host.publication_overlap_limit().get() {
            return Err(ImageImporterCreateError::BudgetOverlapLimitTooSmall {
                required: limits.max_rgba_bytes().get() as u64,
                host: budget_host.publication_overlap_limit().get() as u64,
            });
        }
        let required = file_admission_ceiling(limits.max_encoded_bytes().get(), budget_host.publication_overlap_limit().get());
        if limits.max_in_flight_bytes().get() < required {
            return Err(ImageImporterCreateError::BudgetAdmissionCeilingTooSmall {
                aggregate: limits.max_in_flight_bytes().get() as u64,
                required: required as u64,
            });
        }
        Ok(ImageImporter { color_space: ImageColorSpace::Srgb, limits, budget_host })
    }

    /// The same importer decoding into `color_space`.
    pub fn with_color_space(self, color_space: ImageColorSpace) -> (r: Self)
        ensures
            r.spec_color_space() == color_space,
            r.spec_limits() == self.spec_limits(),
            r.spec_host() == self.spec_host(),
            self.wf() ==> r.wf(),
    {
        ImageImporter { color_space, limits: self.limits, budget_host: self.budget_host }
    }

    pub fn limits(&self) -> (r: ImageImportLimits)
        ensures
            r == self.spec_limits(),
    {
        self.limits
    }

    pub fn budget_snapshot(&self) -> (r: ImageImportBudgetSnapshot)
        ensures
            r.model() == self.spec_host().spec_budget().state(),
    {
        self.budget_host.snapshot()
    }

    pub fn budget_host(&self) -> (r: &ImageImportBudgetHost)
        ensures
            *r == self.spec_host(),
    {
        &self.budget_host
    }

    /// Whether `other` has this importer's limits, color space and budget limits.
    pub open spec fn same_setup(self, other: Self) -> bool {
        &&& other.spec_limits() == self.spec_limits()
        &&& other.spec_color_space() == self.spec_color_space()
        &&& other.spec_host().spec_limit() == self.spec_host().spec_limit()
        &&& other.spec_host().spec_publication_overlap_limit() == self.spec_host().spec_publication_overlap_limit()
    }

    /// Releases `reservation` into this importer's budget.
    pub fn release(&mut self, reservation: ImageImportReservation)
        requires
            old(self).wf(),
            old(self).spec_host().issued(reservation),
        ensures
            final(self).wf(),
            old(self).same_setup(*final(self)),
            final(self).spec_host().spec_budget().state()
                == release_outcome(old(self).spec_host().spec_budget().state(), reservation.spec_charge()),
    {
        self.budget_host.release(reservation);
    }

    /// Decodes `source_bytes` for `publication` under a reservation already made from this
    /// importer's budget, then shrinks the reservation to the publication charge; on failure
    /// the reservation is released.
    fn decode_reserved<C: ImportCancellation>(
        &mut self,
        source_stable_id: u128,
        source_metadata: ImageSourceMetadata,
        source_bytes: &[u8],
        publication: ImagePublicationAdmission,
        reservation: ImageImportReservation,
        cancellation: Option<&C>,
    ) -> (r: Result<ImageImportedAsset, ImageImportError>)
        requires
            old(self).wf(),
            old(self).spec_host().issued(reservation),
        ensures
            final(self).wf(),
            r matches Ok(a) ==> final(self).spec_host().issued(a.spec_reservation()),
            old(self).same_setup(*final(self)),
            reserved_import_outcome(old(self).spec_limits(), old(self).spec_color_space(), source_bytes@, publication, source_stable_id,
                old(self).spec_host().spec_limit().value(),
                old(self).spec_host().spec_budget().state(), reservation.spec_charge(), final(self).spec_host().spec_budget().state(),
                r, cancellation is Some),
            r matches Ok(a) ==> a.spec_image().spec_source() == source_metadata,
    {
        let mut reservation = reservation;
        let decoded = decode_png(
            self.limits,
            self.color_space,
            source_metadata,
            source_bytes,
            source_bytes.len(),
            publication.overlap_bytes(),
            &mut self.budget_host,
            &mut reservation,
            cancellation,
        );
        match decoded {
            Err(e) => {
                self.budget_host.release(reservation);
                Err(e)
            },
            Ok((image, plan)) => {
                let imported = ImageImportedAsset::new(image, source_stable_id, plan, publication, reservation);
                imported.retain_publication_charge(&mut self.budget_host)
            },
        }
    }

    /// Admits the file of source `source_stable_id` for publication to the target captured in
    /// `publication`: the target must still be as captured in `observed`, and a charge for
    /// the largest admissible file and the replaced image is reserved now.
    pub fn admit_file(
        &mut self,
        source_stable_id: u128,
        publication: ImagePublicationSnapshot,
        observed: &PublicationObservation,
    ) -> (r: Result<AdmittedImageImport, ImageImportError>)
        requires
            old(self).wf(),
        ensures
            final(self).wf(),
            old(self).same_setup(*final(self)),
            admission_then(*old(self), old(self).spec_limits().model().encoded, source_stable_id, publication, *observed,
                final(self).spec_host().spec_budget().state(), error_of(r),
                |overlap: usize, reserved: SnapshotModel| r matches Ok(a)
                    && final(self).spec_host().spec_budget().state() == reserved
                    && a.spec_source_stable_id() == source_stable_id
                    && a.spec_publication() == (ImagePublicationAdmission { snapshot: publication, publication_overlap_bytes: overlap })
                    && a.spec_reservation().spec_charge() == admission_charge(old(self).spec_limits().model().encoded, overlap)),
            r matches Ok(a) ==> final(self).spec_host().issued(a.spec_reservation()),
    {
        let overlap_limit = self.budget_host.publication_overlap_limit().get();
        let admission = match publication.admit_source(source_stable_id, observed, overlap_limit) {
            Err(e) => return Err(e),
            Ok(a) => a,
        };
        let charge = match ImageImportCharge::admission(
            self.limits.max_encoded_bytes().get(),
            admission.overlap_bytes(),
            self.limits.max_in_flight_bytes(),
        ) {
            Err(e) => return Err(ImageImportError::Budget { stage: ImageImportStage::Admission, error: e }),
            Ok(c) => c,
        };
        let reservation = match self.budget_host.reserve(charge) {
            Err(e) => return Err(ImageImportError::Budget { stage: ImageImportStage::Admission, error: e }),
            Ok(r) => r,
        };
        Ok(AdmittedImageImport { source_stable_id, publication: admission, reservation })
    }

    /// Imports `source_bytes` of source `source_stable_id` for publication to the target
    /// captured in `publication`: the bytes must be within the encoded limit, the target still
    /// as captured in `observed`, and the admission charge must fit the budget; the decoded
    /// image then keeps its publication charge. A failed import leaves the budget's active
    /// bytes as they were.
    pub fn import_image(
        &mut self,
        source_stable_id: u128,
        source_metadata: ImageSourceMetadata,
        source_bytes: Vec<u8>,
        publication: ImagePublicationSnapshot,
        observed: &PublicationObservation,
    ) -> (r: Result<ImageImportedAsset, ImageImportError>)
        requires
            old(self).wf(),
        ensures
            final(self).wf(),
            old(self).same_setup(*final(self)),
            r matches Ok(a) ==> a.spec_image().spec_source() == source_metadata,
            r matches Ok(a) ==> final(self).spec_host().issued(a.spec_reservation()),
            r is Err ==> final(self).spec_host().spec_budget().state().active_bytes == old(self).spec_host().spec_budget().state().active_bytes,
            source_bytes@.len() > old(self).spec_limits().model().encoded ==> (r matches Err(ImageImportError::Budget { stage, error })
                && stage == ImageImportStage::Admission
                && error.model() == crate::image::limits::per_image_error(crate::image::limits::ImageImportLimitKind::EncodedBytes,
                    Some(source_bytes@.len() as u64), old(self).spec_limits().model().encoded as u64)
                && final(self).spec_host().spec_budget().state() == old(self).spec_host().spec_budget().state()),
            source_bytes@.len() <= old(self).spec_limits().model().encoded ==> admission_then(*old(self), source_bytes@.len() as usize,
                source_stable_id, publication, *observed, final(self).spec_host().spec_budget().state(), error_of(r),
                |overlap: usize, reserved: SnapshotModel| reserved_import_outcome(old(self).spec_limits(), old(self).spec_color_space(),
                    source_bytes@, ImagePublicationAdmission { snapshot: publication, publication_overlap_bytes: overlap }, source_stable_id,
                    old(self).spec_host().spec_limit().value(), reserved, admission_charge(source_bytes@.len() as usize, overlap), final(self).spec_host().spec_budget().state(), r, false)),
    {
        match check_encoded_limit(self.limits, source_bytes.len()) {
            Err(e) => return Err(e),
            Ok(()) => {},
        }
        let overlap_limit = self.budget_host.publication_overlap_limit().get();
        let admission = match publication.admit_source(source_stable_id, observed, overlap_limit) {
            Err(e) => return Err(e),
            Ok(a) => a,
        };
        let charge = match ImageImportCharge::admission(source_bytes.len(), admission.overlap_bytes(), self.limits.max_in_flight_bytes()) {
            Err(e) => return Err(ImageImportError::Budget { stage: ImageImportStage::Admission, error: e }),
            Ok(c) => c,
        };
        let reservation = match self.budget_host.reserve(charge) {
            Err(e) => return Err(ImageImportError::Budget { stage: ImageImportStage::Admission, error: e }),
            Ok(r) => r,
        };
        self.decode_reserved::<NotCancellable>(source_stable_id, source_metadata, source_bytes.as_slice(), admission, reservation, None)
    }

    /// Preflights `source_bytes` for decoding outside any asset slot: no decode allocation is
    /// made and no publication overlap assumed; the plan is bound to exactly these bytes.
    pub fn preflight_unpublished_import(&self, source_bytes: Vec<u8>) -> (r: Result<UnpublishedImageImport, ImageImportError>)
        ensures
            match crate::image::png::png_preflight_plan(self.spec_limits(), source_bytes@, source_bytes@.len() as usize, 0) {
                Err(e) => r == Err::<UnpublishedImageImport, ImageImportError>(e),
                Ok((preflight, plan)) => r matches Ok(t) && t.spec_preflight() == preflight && t.memory_plan_spec().model() == plan
                    && t.spec_source() == source_bytes@ && t.spec_limits() == self.spec_limits()
                    && t.spec_color_space() == self.spec_color_space(),
            },
    {
        let (preflight, memory_plan) = match preflight_png_memory_plan(self.limits, source_bytes.as_slice(), source_bytes.len(), 0) {
            Ok(p) => p,
            Err(e) => return Err(e),
        };
        Ok(UnpublishedImageImport { limits: self.limits, color_space: self.color_space, source_bytes, preflight, memory_plan })
    }
}

/// A file admitted for import: the target it will publish to and the reservation made for
/// the largest admissible file and the replaced image.
pub struct AdmittedImageImport {
    source_stable_id: u128,
    publication: ImagePublicationAdmission,
    reservation: ImageImportReservation,
}

impl AdmittedImageImport {
    pub closed spec fn spec_source_stable_id(&self) -> u128 {
        self.source_stable_id
    }

    pub closed spec fn spec_publication(&self) -> ImagePublicationAdmission {
        self.publication
    }

    pub closed spec fn spec_reservation(&self) -> ImageImportReservation {
        self.reservation
    }

    /// Imports the admitted file from `read`, the outcome of reading it, under `importer`'s
    /// budget, asking `cancellation` before using the bytes and between decoding stages. On
    /// any failure the admission reservation is released.
    pub fn import<C: ImportCancellation>(
        self,
        importer: &mut ImageImporter,
        source_metadata: ImageSourceMetadata,
        read: Result<Vec<u8>, ImageImportError>,
        cancellation: &C,
    ) -> (r: Result<ImageImportedAsset, ImageImportError>)
        requires
            old(importer).wf(),
            old(importer).spec_host().issued(self.spec_reservation()),
        ensures
            final(importer).wf(),
            old(importer).same_setup(*final(importer)),
            r matches Ok(a) ==> a.spec_image().spec_source() == source_metadata,
            r matches Ok(a) ==> final(importer).spec_host().issued(a.spec_reservation()),
            r is Err ==> final(importer).spec_host().spec_budget().state().active_bytes
                == sat_sub_usize(old(importer).spec_host().spec_budget().state().active_bytes, self.spec_reservation().spec_charge().total_bytes),
            r == Err::<ImageImportedAsset, ImageImportError>(ImageImportError::Cancelled { stage: ImageImportStage::SourceRead })
                || match read {
                    Err(e) => r == Err::<ImageImportedAsset, ImageImportError>(e),
                    Ok(bytes) => reserved_import_outcome(old(importer).spec_limits(), old(importer).spec_color_space(), bytes@,
                        self.spec_publication(), self.spec_source_stable_id(), old(importer).spec_host().spec_limit().value(),
                        old(importer).spec_host().spec_budget().state(),
                        self.spec_reservation().spec_charge(), final(importer).spec_host().spec_budget().state(), r, true),
                },
    {
        let AdmittedImageImport { source_stable_id, publication, reservation } = self;
        if cancellation.is_cancelled() {
            importer.budget_host.release(reservation);
            return Err(ImageImportError::Cancelled { stage: ImageImportStage::SourceRead });
        }
        let bytes = match read {
            Err(e) => {
                importer.budget_host.release(reservation);
                return Err(e);
            },
            Ok(b) => b,
        };
        importer.decode_reserved(source_stable_id, source_metadata, bytes.as_slice(), publication, reservation, Some(cancellation))
    }

    /// Gives up the admitted import, releasing its reservation from `importer`'s budget.
    pub fn abandon(self, importer: &mut ImageImporter)
        requires
            old(importer).wf(),
            old(importer).spec_host().issued(self.spec_reservation()),
        ensures
            final(importer).wf(),
            old(importer).same_setup(*final(importer)),
            final(importer).spec_host().spec_budget().state()
                == release_outcome(old(importer).spec_host().spec_budget().state(), self.spec_reservation().spec_charge()),
    {
        importer.budget_host.release(self.reservation);
    }
}

impl Default for ImageImporter {
    /// The importer with default limits, which always pair with a fresh host.
    fn default() -> (r: Self)
        ensures
            r.wf(),
            r.spec_limits().model() == default_limits_model(),
            r.spec_color_space() == ImageColorSpace::Srgb,
            r.spec_host().spec_budget().state() == crate::image::budget::empty_snapshot(),
    {
        let limits = ImageImportLimits::default_limits();
        proof {
            assert(limits_check(limits.model()) is Ok);
            assert(importer_check(limits.model(), limits.model().in_flight, limits.model().rgba) is None);
        }
        Self::with_limits(limits).unwrap()
    }
}

/// Asks for no cancellation: an import that cannot be cancelled.
pub struct NotCancellable;

impl ImportCancellation for NotCancellable {
    fn is_cancelled(&self) -> bool {
        false
    }
}

/// A preflighted source not bound to an asset slot: it owns the exact bytes the plan was made
/// for, and decodes them on [`Self::import`].
#[derive(Debug)]
pub struct UnpublishedImageImport {
    limits: ImageImportLimits,
    color_space: ImageColorSpace,
    source_bytes: Vec<u8>,
    preflight: PngHeaderPreflight,
    memory_plan: ImageImportMemoryPlan,
}

impl UnpublishedImageImport {
    pub closed spec fn spec_limits(&self) -> ImageImportLimits {
        self.limits
    }

    pub closed spec fn spec_color_space(&self) -> ImageColorSpace {
        self.color_space
    }

    pub closed spec fn spec_source(&self) -> Seq<u8> {
        self.source_bytes@
    }

    pub closed spec fn spec_preflight(&self) -> PngHeaderPreflight {
        self.preflight
    }

    pub closed spec fn memory_plan_spec(&self) -> ImageImportMemoryPlan {
        self.memory_plan
    }

    #[verifier::type_invariant]
    closed spec fn planned(self) -> bool {
        self.memory_plan.model().rgba == self.preflight.width * self.preflight.height * 4
    }

    pub fn memory_plan(&self) -> (r: ImageImportMemoryPlan)
        ensures
            r == self.memory_plan_spec(),
    {
        self.memory_plan
    }

    /// Decodes the source within `importer`'s budget: an admission charge for the encoded bytes
    /// is reserved, grown to the plan's peak for decoding, and released before returning,
    /// whatever the outcome.
    pub fn import(self, importer: &mut ImageImporter, source_metadata: ImageSourceMetadata) -> (r: Result<ImageAsset, ImageImportError>)
        requires
            old(importer).wf(),
        ensures
            final(importer).wf(),
            old(importer).same_setup(*final(importer)),
            r matches Ok(image) ==> image.spec_source() == source_metadata,
            ({
                let before = old(importer).spec_host().spec_budget().state();
                let encoded = self.spec_source().len();
                if encoded > usize::MAX {
                    true
                } else {
                    match reserve_outcome(before, old(importer).spec_host().spec_limit().value(), ImageImportCharge {
                        encoded_bytes: encoded as usize,
                        decoder_work_bytes: 0,
                        rgba_bytes: 0,
                        publication_overlap_bytes: 0,
                        total_bytes: encoded as usize,
                    }) {
                        Err(e) => (r matches Err(ImageImportError::Budget { stage, error }) && stage == ImageImportStage::Admission
                            && error.model() == e)
                            && final(importer).spec_host().spec_budget().state() == crate::image::budget::after_rejection(before),
                        Ok(reserved) => {
                            &&& match resize_outcome(reserved, old(importer).spec_host().spec_limit().value(), admission_charge(encoded as usize, 0),
                                peak_charge(self.memory_plan_spec().model())) {
                                Err(e) => r matches Err(ImageImportError::Budget { stage, error }) && stage == ImageImportStage::Metadata
                                    && error.model() == e,
                                Ok(_) => (r is Ok ==> png_decode_error(self.spec_source(), self.spec_preflight(),
                                        self.memory_plan_spec().model(), self.spec_limits().model().rgba) is None)
                                    && (r is Err ==> decode_failure_explained(r->Err_0, self.spec_source(), self.spec_preflight(),
                                        self.memory_plan_spec().model(), self.spec_limits().model().rgba, false)),
                            }
                            &&& final(importer).spec_host().spec_budget().state().active_bytes == before.active_bytes
                            &&& before.active_reservations < u64::MAX ==> final(importer).spec_host().spec_budget().state().active_reservations == before.active_reservations
                            &&& r matches Ok(image) ==> image.spec_extent() == (ImageExtent { width: self.spec_preflight().width, height: self.spec_preflight().height })
                                && image.spec_format() == ImageFormat::Rgba8
                                && image.spec_color_space() == self.spec_color_space()
                                && image.spec_pixels().len() == self.spec_preflight().width * self.spec_preflight().height * 4
                                && image.spec_pixels() == png_rgba(self.spec_source(), self.spec_preflight().width, self.spec_preflight().height)
                        },
                    }
                }
            }),
    {
        proof {
            use_type_invariant(&self);
        }
        let UnpublishedImageImport { limits, color_space, source_bytes, preflight, memory_plan } = self;
        let charge = match ImageImportCharge::admission(source_bytes.len(), 0, limits.max_in_flight_bytes()) {
            Ok(c) => c,
            Err(e) => return Err(ImageImportError::Budget { stage: ImageImportStage::Admission, error: e }),
        };
        let mut reservation = match importer.budget_host.reserve(charge) {
            Ok(r) => r,
            Err(e) => return Err(ImageImportError::Budget { stage: ImageImportStage::Admission, error: e }),
        };
        let ghost reserved = importer.budget_host.spec_budget().state();
        let result = decode_png_with_preflight::<NotCancellable>(
            limits,
            color_space,
            source_metadata,
            source_bytes.as_slice(),
            preflight,
            memory_plan,
            &mut importer.budget_host,
            &mut reservation,
            None,
        );
        importer.budget_host.release(reservation);
        result
    }
}

} // verus!
