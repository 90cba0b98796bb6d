//! Publication guards for an imported image: what the target asset slot looked like when the
//! import was admitted, the checks that it is still so, and the decoded image that holds its
//! publication charge until it is committed.

use vstd::prelude::*;

use crate::image::asset::ImageAsset;
use crate::image::budget::{
    publication_charge, release_outcome, resize_outcome, after_rejection, ImageImportBudgetHost, ImageImportCharge,
    ImageImportReservation,
};
use crate::image::import::{ImageImportStage, ImagePublicationFailureKind};
use crate::image::importer::ImageImporter;
use crate::image::limits::{per_image_error, ImageImportBudgetError, ImageImportLimitKind, ImageImportMemoryPlan};
use crate::image::png::ImageImportError;

verus! {

/// What the asset store shows of one image slot at a moment: the stable id the handle is
/// bound to, the committed version (zero before the first), the state revision, the byte
/// length of the image in the slot if one is there, and the slot revision.
#[derive(Debug, Clone, Copy, PartialEq, Eq, Structural)]
pub struct PublicationObservation {
    pub bound_stable_id: Option<u128>,
    pub current_version: u64,
    pub state_revision: u64,
    pub current_rgba_bytes: Option<usize>,
    pub slot_revision: u64,
}

/// The image slot as it was when an import was admitted.
#[derive(Debug, Clone, Copy, PartialEq, Eq, Structural)]
pub enum PreviousImageSlot {
    Vacant { revision: u64 },
    Occupied { revision: u64, rgba_bytes: usize },
}

/// The slot seen in `observed`.
pub open spec fn captured_slot(observed: PublicationObservation) -> PreviousImageSlot {
    match observed.current_rgba_bytes {
        Some(rgba_bytes) => PreviousImageSlot::Occupied { revision: observed.slot_revision, rgba_bytes },
        None => PreviousImageSlot::Vacant { revision: observed.slot_revision },
    }
}

/// Why `observed` no longer matches the captured `slot`, if it does not.
pub open spec fn slot_check(slot: PreviousImageSlot, observed: PublicationObservation) -> Result<(), ImagePublicationFailureKind> {
    match slot {
        PreviousImageSlot::Vacant { revision } => if observed.current_rgba_bytes is Some {
            Err(ImagePublicationFailureKind::AlreadyLoaded)
        } else if observed.slot_revision != revision {
            Err(ImagePublicationFailureKind::SlotChanged)
        } else {
            Ok(())
        },
        PreviousImageSlot::Occupied { revision, .. } => if observed.current_rgba_bytes is None {
            Err(ImagePublicationFailureKind::ReloadValueMissing)
        } else if observed.slot_revision != revision {
            Err(ImagePublicationFailureKind::ReloadValueChanged)
        } else {
            Ok(())
        },
    }
}

impl PreviousImageSlot {
    pub open spec fn spec_rgba_bytes(self) -> usize {
        match self {
            PreviousImageSlot::Vacant { .. } => 0,
            PreviousImageSlot::Occupied { rgba_bytes, .. } => rgba_bytes,
        }
    }

    /// The slot seen in `observed`.
    pub fn capture(observed: &PublicationObservation) -> (r: Self)
        ensures
            r == captured_slot(*observed),
    {
        match observed.current_rgba_bytes {
            Some(rgba_bytes) => PreviousImageSlot::Occupied { revision: observed.slot_revision, rgba_bytes },
            None => PreviousImageSlot::Vacant { revision: observed.slot_revision },
        }
    }

    /// Whether the slot in `observed` is still the captured one: still vacant at the same
    /// revision, or still holding a value at the same revision.
    pub fn validate(&self, observed: &PublicationObservation) -> (r: Result<(), ImagePublicationFailureKind>)
        ensures
            r == slot_check(*self, *observed),
    {
        match self {
            PreviousImageSlot::Vacant { revision } => {
                if observed.current_rgba_bytes.is_some() {
                    return Err(ImagePublicationFailureKind::AlreadyLoaded);
                }
                if observed.slot_revision != *revision {
                    return Err(ImagePublicationFailureKind::SlotChanged);
                }
            },
            PreviousImageSlot::Occupied { revision, .. } => {
                if observed.current_rgba_bytes.is_none() {
                    return Err(ImagePublicationFailureKind::ReloadValueMissing);
                }
                if observed.slot_revision != *revision {
                    return Err(ImagePublicationFailureKind::ReloadValueChanged);
                }
            },
        }
        Ok(())
    }

    /// The bytes of the image the publication will replace; none for a vacant slot.
    pub fn rgba_bytes(&self) -> (r: usize)
        ensures
            r == self.spec_rgba_bytes(),
    {
        match self {
            PreviousImageSlot::Vacant { .. } => 0,
            PreviousImageSlot::Occupied { rgba_bytes, .. } => *rgba_bytes,
        }
    }

    pub fn is_occupied(&self) -> (r: bool)
        ensures
            r == (*self is Occupied),
    {
        match self {
            PreviousImageSlot::Vacant { .. } => false,
            PreviousImageSlot::Occupied { .. } => true,
        }
    }
}

/// The publication target of an import: the handle, the stable id of its source, and the
/// version, state revision and slot it is expected to still have at commit.
#[derive(Debug, Clone, Copy, PartialEq, Eq, Structural)]
pub struct ImagePublicationSnapshot {
    pub handle: u64,
    pub source_stable_id: u128,
    pub expected_version: u64,
    pub expected_state_revision: u64,
    pub previous_slot: PreviousImageSlot,
}

/// Why the handle is no longer bound to the snapshot's source, if it is not.
pub open spec fn binding_check(s: ImagePublicationSnapshot, observed: PublicationObservation) -> Result<(), ImagePublicationFailureKind> {
    match observed.bound_stable_id {
        None => Err(ImagePublicationFailureKind::UnknownAsset),
        Some(id) => if id != s.source_stable_id {
            Err(ImagePublicationFailureKind::TargetMismatch)
        } else {
            Ok(())
        },
    }
}

/// Why the asset's version or state moved since the snapshot, if they did.
pub open spec fn state_check(s: ImagePublicationSnapshot, observed: PublicationObservation) -> Result<(), ImagePublicationFailureKind> {
    if observed.current_version != s.expected_version {
        Err(ImagePublicationFailureKind::Stale)
    } else if observed.state_revision != s.expected_state_revision {
        Err(ImagePublicationFailureKind::StateChanged)
    } else {
        Ok(())
    }
}

/// The admission of the snapshot `s` for the source `source_stable_id` against `observed`,
/// with room for `reserved_overlap_bytes` of replaced image: the first failed check, or the
/// overlap the replaced image needs.
pub open spec fn admission_outcome(
    s: ImagePublicationSnapshot,
    source_stable_id: u128,
    observed: PublicationObservation,
    reserved_overlap_bytes: usize,
) -> Result<usize, ImageImportError> {
    if source_stable_id != s.source_stable_id {
        Err(ImageImportError::Publication(ImagePublicationFailureKind::TargetMismatch))
    } else if let Err(k) = binding_check(s, observed) {
        Err(ImageImportError::Publication(k))
    } else if let Err(k) = state_check(s, observed) {
        Err(ImageImportError::Publication(k))
    } else if let Err(k) = slot_check(s.previous_slot, observed) {
        Err(ImageImportError::Publication(k))
    } else if s.previous_slot.spec_rgba_bytes() > reserved_overlap_bytes {
        Err(ImageImportError::Budget {
            stage: ImageImportStage::Admission,
            error: ImageImportBudgetError::from_model(per_image_error(
                ImageImportLimitKind::RgbaBytes,
                Some(s.previous_slot.spec_rgba_bytes() as u64),
                reserved_overlap_bytes as u64,
            )),
        })
    } else {
        Ok(s.previous_slot.spec_rgba_bytes())
    }
}

impl ImagePublicationSnapshot {
    /// The target `handle` of the source `source_stable_id`, expected at `expected_version`,
    /// with the state revision and slot seen in `observed`.
    pub fn capture(handle: u64, source_stable_id: u128, expected_version: u64, observed: &PublicationObservation) -> (r: Self)
        ensures
            r == (ImagePublicationSnapshot {
                handle,
                source_stable_id,
                expected_version,
                expected_state_revision: observed.state_revision,
                previous_slot: captured_slot(*observed),
            }),
    {
        ImagePublicationSnapshot {
            handle,
            source_stable_id,
            expected_version,
            expected_state_revision: observed.state_revision,
            previous_slot: PreviousImageSlot::capture(observed),
        }
    }

    /// Whether the handle is still bound to the snapshot's source.
    pub fn validate_binding(&self, observed: &PublicationObservation) -> (r: Result<(), ImagePublicationFailureKind>)
        ensures
            r == binding_check(*self, *observed),
    {
        match observed.bound_stable_id {
            None => Err(ImagePublicationFailureKind::UnknownAsset),
            Some(id) => if id != self.source_stable_id {
                Err(ImagePublicationFailureKind::TargetMismatch)
            } else {
                Ok(())
            },
        }
    }

    /// Whether the asset is still at the expected version and state revision.
    pub fn validate_state(&self, observed: &PublicationObservation) -> (r: Result<(), ImagePublicationFailureKind>)
        ensures
            r == state_check(*self, *observed),
    {
        if observed.current_version != self.expected_version {
            return Err(ImagePublicationFailureKind::Stale);
        }
        if observed.state_revision != self.expected_state_revision {
            return Err(ImagePublicationFailureKind::StateChanged);
        }
        Ok(())
    }

    /// Whether nothing the snapshot expects has moved: state and slot both unchanged.
    pub fn is_current(&self, observed: &PublicationObservation) -> (r: bool)
        ensures
            r == (state_check(*self, *observed) is Ok && slot_check(self.previous_slot, *observed) is Ok),
    {
        self.validate_state(observed).is_ok() && self.previous_slot.validate(observed).is_ok()
    }

    /// Admits the snapshot for the source `source_stable_id`: the source, binding, state and
    /// slot must all be as captured, and the image being replaced must fit in
    /// `reserved_overlap_bytes`.
    pub fn admit_source(self, source_stable_id: u128, observed: &PublicationObservation, reserved_overlap_bytes: usize)
        -> (r: Result<ImagePublicationAdmission, ImageImportError>)
        ensures
            match admission_outcome(self, source_stable_id, *observed, reserved_overlap_bytes) {
                Ok(overlap) => r == Ok::<ImagePublicationAdmission, ImageImportError>(
                    ImagePublicationAdmission { snapshot: self, publication_overlap_bytes: overlap }),
                Err(e) => r == Err::<ImagePublicationAdmission, ImageImportError>(e),
            },
    {
        if source_stable_id != self.source_stable_id {
            return Err(ImageImportError::Publication(ImagePublicationFailureKind::TargetMismatch));
        }
        match self.validate_binding(observed) {
            Err(k) => return Err(ImageImportError::Publication(k)),
            Ok(()) => {},
        }
        match self.validate_state(observed) {
            Err(k) => return Err(ImageImportError::Publication(k)),
            Ok(()) => {},
        }
        match self.previous_slot.validate(observed) {
            Err(k) => return Err(ImageImportError::Publication(k)),
            Ok(()) => {},
        }
        let observed_bytes = self.previous_slot.rgba_bytes();
        if observed_bytes > reserved_overlap_bytes {
            return Err(ImageImportError::Budget {
                stage: ImageImportStage::Admission,
                error: ImageImportBudgetError::per_image(
                    ImageImportLimitKind::RgbaBytes,
                    Some(observed_bytes as u64),
                    reserved_overlap_bytes as u64,
                ),
            });
        }
        Ok(ImagePublicationAdmission { snapshot: self, publication_overlap_bytes: observed_bytes })
    }
}

/// An admitted publication target and the overlap bytes its replaced image needs.
#[derive(Debug, Clone, Copy, PartialEq, Eq, Structural)]
pub struct ImagePublicationAdmission {
    pub snapshot: ImagePublicationSnapshot,
    pub publication_overlap_bytes: usize,
}

impl ImagePublicationAdmission {
    pub fn overlap_bytes(&self) -> (r: usize)
        ensures
            r == self.publication_overlap_bytes,
    {
        self.publication_overlap_bytes
    }
}

/// Why committing to the target of `s` would now fail, if it would; otherwise whether the
/// commit replaces an image.
pub open spec fn commit_check(s: ImagePublicationSnapshot, source_stable_id: u128, observed: PublicationObservation) -> Result<bool, ImagePublicationFailureKind> {
    if let Err(k) = binding_check(s, observed) {
        Err(k)
    } else if source_stable_id != s.source_stable_id {
        Err(ImagePublicationFailureKind::TargetMismatch)
    } else if let Err(k) = state_check(s, observed) {
        Err(k)
    } else if let Err(k) = slot_check(s.previous_slot, observed) {
        Err(k)
    } else {
        Ok(s.previous_slot is Occupied)
    }
}

/// A decoded image awaiting publication, holding the budget its pixels and the replaced
/// image's overlap need until it is committed.
pub struct ImageImportedAsset {
    image: ImageAsset,
    source_stable_id: u128,
    memory_plan: ImageImportMemoryPlan,
    publication: ImagePublicationAdmission,
    publication_reservation: ImageImportReservation,
}

impl ImageImportedAsset {
    pub closed spec fn spec_image(&self) -> ImageAsset {
        self.image
    }

    pub closed spec fn spec_source_stable_id(&self) -> u128 {
        self.source_stable_id
    }

    pub closed spec fn spec_memory_plan(&self) -> ImageImportMemoryPlan {
        self.memory_plan
    }

    pub closed spec fn spec_publication(&self) -> ImagePublicationAdmission {
        self.publication
    }

    pub closed spec fn spec_reservation(&self) -> ImageImportReservation {
        self.publication_reservation
    }

    /// The image decoded from the source `source_stable_id` under `memory_plan`, for the
    /// admitted `publication`, holding `publication_reservation`.
    pub fn new(
        image: ImageAsset,
        source_stable_id: u128,
        memory_plan: ImageImportMemoryPlan,
        publication: ImagePublicationAdmission,
        publication_reservation: ImageImportReservation,
    ) -> (r: Self)
        ensures
            r.spec_image() == image,
            r.spec_source_stable_id() == source_stable_id,
            r.spec_memory_plan() == memory_plan,
            r.spec_publication() == publication,
            r.spec_reservation() == publication_reservation,
    {
        ImageImportedAsset { image, source_stable_id, memory_plan, publication, publication_reservation }
    }

    pub fn image(&self) -> (r: &ImageAsset)
        ensures
            *r == self.spec_image(),
    {
        &self.image
    }

    pub fn memory_plan(&self) -> (r: ImageImportMemoryPlan)
        ensures
            r == self.spec_memory_plan(),
    {
        self.memory_plan
    }

    pub fn publication(&self) -> (r: ImagePublicationAdmission)
        ensures
            r == self.spec_publication(),
    {
        self.publication
    }

    /// Shrinks the reservation to what publication keeps: the decoded pixels and the replaced
    /// image's overlap. A refused resize is reported at the publication stage, and the
    /// reservation is then released.
    pub fn retain_publication_charge(self, host: &mut ImageImportBudgetHost) -> (r: Result<Self, ImageImportError>)
        requires
            old(host).wf(),
            old(host).issued(self.spec_reservation()),
        ensures
            final(host).wf(),
            r matches Ok(kept) ==> final(host).issued(kept.spec_reservation()),
            final(host).spec_limit() == old(host).spec_limit(),
            final(host).spec_publication_overlap_limit() == old(host).spec_publication_overlap_limit(),
            match resize_outcome(old(host).spec_budget().state(), old(host).spec_limit().value(),
                self.spec_reservation().spec_charge(), publication_charge(self.spec_memory_plan().model())) {
                Ok(s) => r matches Ok(kept) && final(host).spec_budget().state() == s
                    && kept.spec_image() == self.spec_image()
                    && kept.spec_source_stable_id() == self.spec_source_stable_id()
                    && kept.spec_memory_plan() == self.spec_memory_plan()
                    && kept.spec_publication() == self.spec_publication()
                    && kept.spec_reservation().spec_charge() == publication_charge(self.spec_memory_plan().model()),
                Err(e) => (r matches Err(ImageImportError::Budget { stage, error }) && stage == ImageImportStage::Publication
                    && error.model() == e)
                    && final(host).spec_budget().state() == release_outcome(after_rejection(old(host).spec_budget().state()),
                        self.spec_reservation().spec_charge()),
            },
    {
        let ImageImportedAsset { image, source_stable_id, memory_plan, publication, publication_reservation } = self;
        let mut reservation = publication_reservation;
        match host.resize(&mut reservation, ImageImportCharge::publication(memory_plan)) {
            Ok(()) => Ok(ImageImportedAsset { image, source_stable_id, memory_plan, publication, publication_reservation: reservation }),
            Err(error) => {
                host.release(reservation);
                Err(ImageImportError::Budget { stage: ImageImportStage::Publication, error })
            },
        }
    }

    /// Checks the target against `observed` (binding, source, state and slot, in that order)
    /// and hands out the image to publish, with whether it replaces one. The publication
    /// charge is released into `importer`'s budget either way.
    pub fn commit(self, importer: &mut ImageImporter, observed: &PublicationObservation)
        -> (r: Result<(ImageAsset, bool), ImagePublicationFailureKind>)
        requires
            old(importer).wf(),
            old(importer).spec_host().issued(self.spec_reservation()),
        ensures
            final(importer).wf(),
            old(importer).same_setup(*final(importer)),
            final(importer).spec_host().spec_budget().state()
                == release_outcome(old(importer).spec_host().spec_budget().state(), self.spec_reservation().spec_charge()),
            match commit_check(self.spec_publication().snapshot, self.spec_source_stable_id(), *observed) {
                Ok(replaces) => r matches Ok((image, was_occupied)) && image == self.spec_image() && was_occupied == replaces,
                Err(k) => r == Err::<(ImageAsset, bool), ImagePublicationFailureKind>(k),
            },
    {
        let ImageImportedAsset { image, source_stable_id, memory_plan: _, publication, publication_reservation } = self;
        importer.release(publication_reservation);
        let snapshot = publication.snapshot;
        match snapshot.validate_binding(observed) {
            Err(k) => return Err(k),
            Ok(()) => {},
        }
        if source_stable_id != snapshot.source_stable_id {
            return Err(ImagePublicationFailureKind::TargetMismatch);
        }
        match snapshot.validate_state(observed) {
            Err(k) => return Err(k),
            Ok(()) => {},
        }
        match snapshot.previous_slot.validate(observed) {
            Err(k) => return Err(k),
            Ok(()) => {},
        }
        Ok((image, snapshot.previous_slot.is_occupied()))
    }

    /// Drops the candidate unpublished, releasing its publication charge into `importer`'s
    /// budget.
    pub fn discard(self, importer: &mut ImageImporter)
        requires
            old(importer).wf(),
            old(importer).spec_host().issued(self.spec_reservation()),
        ensures
            final(importer).wf(),
            old(importer).same_setup(*final(importer)),
            final(importer).spec_host().spec_budget().state()
                == release_outcome(old(importer).spec_host().spec_budget().state(), self.spec_reservation().spec_charge()),
    {
        importer.release(self.publication_reservation);
    }
}

} // verus!
