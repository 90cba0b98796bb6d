//! The aggregate in-flight byte budget shared by image imports.

use vstd::prelude::*;

use crate::image::limits::{
    aggregate_error, file_admission_ceiling_spec, limits_check, per_image_error, BudgetErrorModel,
    ImageImportBudgetError, ImageImportLimitKind, ImageImportLimits, ImageImportLimitsError,
    ImageImportMemoryPlan, PlanModel,
};
use crate::limit::ByteLimit;

verus! {

/// `x + y`, saturating at `usize::MAX`.
pub open spec fn sat_add_usize(x: usize, y: usize) -> usize {
    if x + y > usize::MAX { usize::MAX } else { (x + y) as usize }
}

/// `x - y`, saturating at zero.
pub open spec fn sat_sub_usize(x: usize, y: usize) -> usize {
    if x < y { 0 } else { (x - y) as usize }
}

/// `x + y`, saturating at `u64::MAX`.
pub open spec fn sat_add_u64(x: u64, y: int) -> u64 {
    if x + y > u64::MAX { u64::MAX } else { (x + y) as u64 }
}

/// `x - y`, saturating at zero.
pub open spec fn sat_sub_u64(x: u64, y: int) -> u64 {
    if x < y { 0 } else { (x - y) as u64 }
}

pub open spec fn max_usize(a: usize, b: usize) -> usize {
    if a >= b { a } else { b }
}

/// The charge of a plan at its peak: the encoded allocation, decoder work, RGBA output and
/// publication overlap all held at once.
pub open spec fn peak_charge(p: PlanModel) -> ImageImportCharge {
    ImageImportCharge {
        encoded_bytes: p.encoded_allocation,
        decoder_work_bytes: p.decoder_work,
        rgba_bytes: p.rgba,
        publication_overlap_bytes: p.publication_overlap,
        total_bytes: p.peak,
    }
}

/// The charge a decoded image keeps until it is published: its RGBA output and the
/// publication overlap.
pub open spec fn publication_charge(p: PlanModel) -> ImageImportCharge {
    ImageImportCharge {
        encoded_bytes: 0,
        decoder_work_bytes: 0,
        rgba_bytes: p.rgba,
        publication_overlap_bytes: p.publication_overlap,
        total_bytes: p.publication,
    }
}

/// The bytes one import holds, by kind, and their total.
#[derive(Debug, Clone, Copy, Default, PartialEq, Eq, Structural)]
pub struct ImageImportCharge {
    pub encoded_bytes: usize,
    pub decoder_work_bytes: usize,
    pub rgba_bytes: usize,
    pub publication_overlap_bytes: usize,
    pub total_bytes: usize,
}

impl ImageImportCharge {
    /// Only encoded bytes.
    pub fn encoded(bytes: usize) -> (r: Self)
        ensures
            r == (ImageImportCharge { encoded_bytes: bytes, decoder_work_bytes: 0, rgba_bytes: 0, publication_overlap_bytes: 0, total_bytes: bytes }),
    {
        ImageImportCharge { encoded_bytes: bytes, decoder_work_bytes: 0, rgba_bytes: 0, publication_overlap_bytes: 0, total_bytes: bytes }
    }

    /// The charge of admitting a file: its encoded bytes and the publication overlap.
    pub fn admission(encoded_bytes: usize, publication_overlap_bytes: usize, aggregate_limit: ByteLimit) -> (r: Result<Self, ImageImportBudgetError>)
        ensures
            encoded_bytes + publication_overlap_bytes > usize::MAX ==> (r matches Err(e)
                && e.model() == per_image_error(ImageImportLimitKind::AggregateInFlightBytes, None, aggregate_limit.value() as u64)),
            encoded_bytes + publication_overlap_bytes <= usize::MAX ==> r == Ok::<Self, ImageImportBudgetError>(ImageImportCharge {
                encoded_bytes,
                decoder_work_bytes: 0,
                rgba_bytes: 0,
                publication_overlap_bytes,
                total_bytes: (encoded_bytes + publication_overlap_bytes) as usize,
            }),
    {
        let total_bytes = match encoded_bytes.checked_add(publication_overlap_bytes) {
            None => return Err(ImageImportBudgetError::per_image(ImageImportLimitKind::AggregateInFlightBytes, None, aggregate_limit.get() as u64)),
            Some(t) => t,
        };
        Ok(ImageImportCharge { encoded_bytes, decoder_work_bytes: 0, rgba_bytes: 0, publication_overlap_bytes, total_bytes })
    }

    /// The charge at a plan's peak.
    pub open spec fn spec_peak(plan: ImageImportMemoryPlan) -> Self {
        peak_charge(plan.model())
    }

    /// The charge at a plan's peak.
    pub fn peak(plan: ImageImportMemoryPlan) -> (r: Self)
        ensures
            r == Self::spec_peak(plan),
    {
        ImageImportCharge {
            encoded_bytes: plan.encoded_allocation_bytes(),
            decoder_work_bytes: plan.decoder_work_bytes(),
            rgba_bytes: plan.rgba_bytes(),
            publication_overlap_bytes: plan.publication_overlap_bytes(),
            total_bytes: plan.peak_bytes(),
        }
    }

    /// The charge retained while an image awaits publication.
    pub fn publication(plan: ImageImportMemoryPlan) -> (r: Self)
        ensures
            r == publication_charge(plan.model()),
    {
        ImageImportCharge {
            encoded_bytes: 0,
            decoder_work_bytes: 0,
            rgba_bytes: plan.rgba_bytes(),
            publication_overlap_bytes: plan.publication_overlap_bytes(),
            total_bytes: plan.publication_bytes(),
        }
    }
}

/// Active, high-water and cumulative figures of an image import budget.
#[derive(Debug, Clone, Copy, Default, PartialEq, Eq, Structural)]
pub struct ImageImportBudgetSnapshot {
    active_reservations: u64,
    active_bytes: usize,
    high_water_bytes: usize,
    active_encoded_bytes: usize,
    high_water_encoded_bytes: usize,
    active_decoder_work_bytes: usize,
    high_water_decoder_work_bytes: usize,
    active_rgba_bytes: usize,
    high_water_rgba_bytes: usize,
    active_publication_overlap_bytes: usize,
    high_water_publication_overlap_bytes: usize,
    total_reserved_bytes: u64,
    total_released_bytes: u64,
    accepted_reservations: u64,
    rejected_reservations: u64,
    released_reservations: u64,
}

/// The plain figures of a budget snapshot.
pub struct SnapshotModel {
    pub active_reservations: u64,
    pub active_bytes: usize,
    pub high_water_bytes: usize,
    pub active_encoded_bytes: usize,
    pub high_water_encoded_bytes: usize,
    pub active_decoder_work_bytes: usize,
    pub high_water_decoder_work_bytes: usize,
    pub active_rgba_bytes: usize,
    pub high_water_rgba_bytes: usize,
    pub active_publication_overlap_bytes: usize,
    pub high_water_publication_overlap_bytes: usize,
    pub total_reserved_bytes: u64,
    pub total_released_bytes: u64,
    pub accepted_reservations: u64,
    pub rejected_reservations: u64,
    pub released_reservations: u64,
}

/// All figures zero.
pub open spec fn empty_snapshot() -> SnapshotModel {
    SnapshotModel {
        active_reservations: 0,
        active_bytes: 0,
        high_water_bytes: 0,
        active_encoded_bytes: 0,
        high_water_encoded_bytes: 0,
        active_decoder_work_bytes: 0,
        high_water_decoder_work_bytes: 0,
        active_rgba_bytes: 0,
        high_water_rgba_bytes: 0,
        active_publication_overlap_bytes: 0,
        high_water_publication_overlap_bytes: 0,
        total_reserved_bytes: 0,
        total_released_bytes: 0,
        accepted_reservations: 0,
        rejected_reservations: 0,
        released_reservations: 0,
    }
}

/// `s` with `c`'s kinds added to the active kind figures (saturating) and the kind high-water
/// marks raised to them.
pub open spec fn with_charge_added(s: SnapshotModel, c: ImageImportCharge) -> SnapshotModel {
    let encoded = sat_add_usize(s.active_encoded_bytes, c.encoded_bytes);
    let decoder = sat_add_usize(s.active_decoder_work_bytes, c.decoder_work_bytes);
    let rgba = sat_add_usize(s.active_rgba_bytes, c.rgba_bytes);
    let overlap = sat_add_usize(s.active_publication_overlap_bytes, c.publication_overlap_bytes);
    SnapshotModel {
        active_encoded_bytes: encoded,
        high_water_encoded_bytes: max_usize(s.high_water_encoded_bytes, encoded),
        active_decoder_work_bytes: decoder,
        high_water_decoder_work_bytes: max_usize(s.high_water_decoder_work_bytes, decoder),
        active_rgba_bytes: rgba,
        high_water_rgba_bytes: max_usize(s.high_water_rgba_bytes, rgba),
        active_publication_overlap_bytes: overlap,
        high_water_publication_overlap_bytes: max_usize(s.high_water_publication_overlap_bytes, overlap),
        ..s
    }
}

/// `s` with `c`'s kinds taken from the active kind figures (saturating at zero).
pub open spec fn with_charge_removed(s: SnapshotModel, c: ImageImportCharge) -> SnapshotModel {
    SnapshotModel {
        active_encoded_bytes: sat_sub_usize(s.active_encoded_bytes, c.encoded_bytes),
        active_decoder_work_bytes: sat_sub_usize(s.active_decoder_work_bytes, c.decoder_work_bytes),
        active_rgba_bytes: sat_sub_usize(s.active_rgba_bytes, c.rgba_bytes),
        active_publication_overlap_bytes: sat_sub_usize(s.active_publication_overlap_bytes, c.publication_overlap_bytes),
        ..s
    }
}

/// Outcome of reserving `c` within `limit`: `Err` with the aggregate error, or the snapshot
/// after the reservation.
pub open spec fn reserve_outcome(s: SnapshotModel, limit: usize, c: ImageImportCharge) -> Result<SnapshotModel, BudgetErrorModel> {
    let next = s.active_bytes + c.total_bytes;
    if next > usize::MAX || next > limit {
        Err(aggregate_error(c.total_bytes as u64, s.active_bytes as u64, limit as u64))
    } else {
        let s1 = SnapshotModel {
            active_bytes: next as usize,
            high_water_bytes: max_usize(s.high_water_bytes, next as usize),
            ..s
        };
        let s2 = with_charge_added(s1, c);
        Ok(SnapshotModel {
            active_reservations: sat_add_u64(s2.active_reservations, 1),
            accepted_reservations: sat_add_u64(s2.accepted_reservations, 1),
            total_reserved_bytes: sat_add_u64(s2.total_reserved_bytes, c.total_bytes as int),
            ..s2
        })
    }
}

/// `s` after one rejected reservation.
pub open spec fn after_rejection(s: SnapshotModel) -> SnapshotModel {
    SnapshotModel { rejected_reservations: sat_add_u64(s.rejected_reservations, 1), ..s }
}

/// Outcome of resizing a reservation from `old` to `new` within `limit`.
pub open spec fn resize_outcome(s: SnapshotModel, limit: usize, old: ImageImportCharge, new: ImageImportCharge) -> Result<SnapshotModel, BudgetErrorModel> {
    if new == old {
        Ok(s)
    } else if new.total_bytes > old.total_bytes {
        let delta = new.total_bytes - old.total_bytes;
        let next = s.active_bytes + delta;
        if next > usize::MAX || next > limit {
            Err(aggregate_error(new.total_bytes as u64, s.active_bytes as u64, limit as u64))
        } else {
            let s1 = SnapshotModel {
                active_bytes: next as usize,
                high_water_bytes: max_usize(s.high_water_bytes, next as usize),
                total_reserved_bytes: sat_add_u64(s.total_reserved_bytes, delta),
                ..s
            };
            Ok(with_charge_added(with_charge_removed(s1, old), new))
        }
    } else {
        let delta = (old.total_bytes - new.total_bytes) as usize;
        let s1 = SnapshotModel {
            active_bytes: sat_sub_usize(s.active_bytes, delta),
            total_released_bytes: sat_add_u64(s.total_released_bytes, delta as int),
            ..s
        };
        Ok(with_charge_added(with_charge_removed(s1, old), new))
    }
}

/// `s` after releasing a reservation of charge `c`.
pub open spec fn release_outcome(s: SnapshotModel, c: ImageImportCharge) -> SnapshotModel {
    let s1 = with_charge_removed(SnapshotModel { active_bytes: sat_sub_usize(s.active_bytes, c.total_bytes), ..s }, c);
    SnapshotModel {
        active_reservations: sat_sub_u64(s1.active_reservations, 1),
        total_released_bytes: sat_add_u64(s1.total_released_bytes, c.total_bytes as int),
        released_reservations: sat_add_u64(s1.released_reservations, 1),
        ..s1
    }
}

impl ImageImportBudgetSnapshot {
    pub closed spec fn model(self) -> SnapshotModel {
        SnapshotModel {
            active_reservations: self.active_reservations,
            active_bytes: self.active_bytes,
            high_water_bytes: self.high_water_bytes,
            active_encoded_bytes: self.active_encoded_bytes,
            high_water_encoded_bytes: self.high_water_encoded_bytes,
            active_decoder_work_bytes: self.active_decoder_work_bytes,
            high_water_decoder_work_bytes: self.high_water_decoder_work_bytes,
            active_rgba_bytes: self.active_rgba_bytes,
            high_water_rgba_bytes: self.high_water_rgba_bytes,
            active_publication_overlap_bytes: self.active_publication_overlap_bytes,
            high_water_publication_overlap_bytes: self.high_water_publication_overlap_bytes,
            total_reserved_bytes: self.total_reserved_bytes,
            total_released_bytes: self.total_released_bytes,
            accepted_reservations: self.accepted_reservations,
            rejected_reservations: self.rejected_reservations,
            released_reservations: self.released_reservations,
        }
    }

    fn empty() -> (r: Self)
        ensures
            r.model() == empty_snapshot(),
    {
        ImageImportBudgetSnapshot {
            active_reservations: 0,
            active_bytes: 0,
            high_water_bytes: 0,
            active_encoded_bytes: 0,
            high_water_encoded_bytes: 0,
            active_decoder_work_bytes: 0,
            high_water_decoder_work_bytes: 0,
            active_rgba_bytes: 0,
            high_water_rgba_bytes: 0,
            active_publication_overlap_bytes: 0,
            high_water_publication_overlap_bytes: 0,
            total_reserved_bytes: 0,
            total_released_bytes: 0,
            accepted_reservations: 0,
            rejected_reservations: 0,
            released_reservations: 0,
        }
    }

    fn add_charge(&mut self, c: ImageImportCharge)
        ensures
            final(self).model() == with_charge_added(old(self).model(), c),
    {
        self.active_encoded_bytes = self.active_encoded_bytes.saturating_add(c.encoded_bytes);
        if self.active_encoded_bytes > self.high_water_encoded_bytes {
            self.high_water_encoded_bytes = self.active_encoded_bytes;
        }
        self.active_decoder_work_bytes = self.active_decoder_work_bytes.saturating_add(c.decoder_work_bytes);
        if self.active_decoder_work_bytes > self.high_water_decoder_work_bytes {
            self.high_water_decoder_work_bytes = self.active_decoder_work_bytes;
        }
        self.active_rgba_bytes = self.active_rgba_bytes.saturating_add(c.rgba_bytes);
        if self.active_rgba_bytes > self.high_water_rgba_bytes {
            self.high_water_rgba_bytes = self.active_rgba_bytes;
        }
        self.active_publication_overlap_bytes = self.active_publication_overlap_bytes.saturating_add(c.publication_overlap_bytes);
        if self.active_publication_overlap_bytes > self.high_water_publication_overlap_bytes {
            self.high_water_publication_overlap_bytes = self.active_publication_overlap_bytes;
        }
    }

    fn remove_charge(&mut self, c: ImageImportCharge)
        ensures
            final(self).model() == with_charge_removed(old(self).model(), c),
    {
        self.active_encoded_bytes = self.active_encoded_bytes.saturating_sub(c.encoded_bytes);
        self.active_decoder_work_bytes = self.active_decoder_work_bytes.saturating_sub(c.decoder_work_bytes);
        self.active_rgba_bytes = self.active_rgba_bytes.saturating_sub(c.rgba_bytes);
        self.active_publication_overlap_bytes = self.active_publication_overlap_bytes.saturating_sub(c.publication_overlap_bytes);
    }

    pub fn active_reservations(self) -> (r: u64)
        ensures r == self.model().active_reservations,
    {
        self.active_reservations
    }

    pub fn active_bytes(self) -> (r: usize)
        ensures r == self.model().active_bytes,
    {
        self.active_bytes
    }

    pub fn high_water_bytes(self) -> (r: usize)
        ensures r == self.model().high_water_bytes,
    {
        self.high_water_bytes
    }

    pub fn active_encoded_bytes(self) -> (r: usize)
        ensures r == self.model().active_encoded_bytes,
    {
        self.active_encoded_bytes
    }

    pub fn high_water_encoded_bytes(self) -> (r: usize)
        ensures r == self.model().high_water_encoded_bytes,
    {
        self.high_water_encoded_bytes
    }

    pub fn active_decoder_work_bytes(self) -> (r: usize)
        ensures r == self.model().active_decoder_work_bytes,
    {
        self.active_decoder_work_bytes
    }

    pub fn high_water_decoder_work_bytes(self) -> (r: usize)
        ensures r == self.model().high_water_decoder_work_bytes,
    {
        self.high_water_decoder_work_bytes
    }

    pub fn active_rgba_bytes(self) -> (r: usize)
        ensures r == self.model().active_rgba_bytes,
    {
        self.active_rgba_bytes
    }

    pub fn high_water_rgba_bytes(self) -> (r: usize)
        ensures r == self.model().high_water_rgba_bytes,
    {
        self.high_water_rgba_bytes
    }

    pub fn active_publication_overlap_bytes(self) -> (r: usize)
        ensures r == self.model().active_publication_overlap_bytes,
    {
        self.active_publication_overlap_bytes
    }

    pub fn high_water_publication_overlap_bytes(self) -> (r: usize)
        ensures r == self.model().high_water_publication_overlap_bytes,
    {
        self.high_water_publication_overlap_bytes
    }

    pub fn total_reserved_bytes(self) -> (r: u64)
        ensures r == self.model().total_reserved_bytes,
    {
        self.total_reserved_bytes
    }

    pub fn total_released_bytes(self) -> (r: u64)
        ensures r == self.model().total_released_bytes,
    {
        self.total_released_bytes
    }

    pub fn accepted_reservations(self) -> (r: u64)
        ensures r == self.model().accepted_reservations,
    {
        self.accepted_reservations
    }

    pub fn rejected_reservations(self) -> (r: u64)
        ensures r == self.model().rejected_reservations,
    {
        self.rejected_reservations
    }

    pub fn released_reservations(self) -> (r: u64)
        ensures r == self.model().released_reservations,
    {
        self.released_reservations
    }
}

/// A held share of the budget; released by handing it back to the budget that issued it.
pub struct ImageImportReservation {
    charge: ImageImportCharge,
    ticket: Ghost<nat>,
}

impl ImageImportReservation {
    pub closed spec fn spec_charge(&self) -> ImageImportCharge {
        self.charge
    }

    /// The number the issuing budget gave this reservation.
    pub closed spec fn spec_ticket(&self) -> nat {
        self.ticket@
    }

    pub fn charge(&self) -> (r: ImageImportCharge)
        ensures
            r == self.spec_charge(),
    {
        self.charge
    }
}

/// The bytes of the reservations in a ledger of issued reservations.
pub open spec fn ledger_bytes(ledger: Seq<(nat, ImageImportCharge)>) -> int
    decreases ledger.len(),
{
    if ledger.len() == 0 {
        0
    } else {
        ledger_bytes(ledger.drop_last()) + ledger.last().1.total_bytes
    }
}

proof fn lemma_ledger_bytes_push(ledger: Seq<(nat, ImageImportCharge)>, x: (nat, ImageImportCharge))
    ensures
        ledger_bytes(ledger.push(x)) == ledger_bytes(ledger) + x.1.total_bytes,
{
    assert(ledger.push(x).drop_last() =~= ledger);
}

proof fn lemma_ledger_bytes_update(ledger: Seq<(nat, ImageImportCharge)>, i: int, x: (nat, ImageImportCharge))
    requires
        0 <= i < ledger.len(),
    ensures
        ledger_bytes(ledger.update(i, x)) == ledger_bytes(ledger) - ledger[i].1.total_bytes + x.1.total_bytes,
    decreases ledger.len(),
{
    if i == ledger.len() - 1 {
        assert(ledger.update(i, x).drop_last() =~= ledger.drop_last());
    } else {
        lemma_ledger_bytes_update(ledger.drop_last(), i, x);
        assert(ledger.update(i, x).drop_last() =~= ledger.drop_last().update(i, x));
    }
}

proof fn lemma_ledger_bytes_remove(ledger: Seq<(nat, ImageImportCharge)>, i: int)
    requires
        0 <= i < ledger.len(),
    ensures
        ledger_bytes(ledger.remove(i)) == ledger_bytes(ledger) - ledger[i].1.total_bytes,
    decreases ledger.len(),
{
    if i == ledger.len() - 1 {
        assert(ledger.remove(i) =~= ledger.drop_last());
    } else {
        lemma_ledger_bytes_remove(ledger.drop_last(), i);
        assert(ledger.remove(i).drop_last() =~= ledger.drop_last().remove(i));
        assert(ledger.remove(i).last() == ledger.last());
    }
}

proof fn lemma_ledger_bytes_member(ledger: Seq<(nat, ImageImportCharge)>, i: int)
    requires
        0 <= i < ledger.len(),
    ensures
        ledger[i].1.total_bytes <= ledger_bytes(ledger),
    decreases ledger.len(),
{
    if i < ledger.len() - 1 {
        lemma_ledger_bytes_member(ledger.drop_last(), i);
    }
    lemma_ledger_bytes_nonnegative(ledger.drop_last());
}

proof fn lemma_ledger_bytes_nonnegative(ledger: Seq<(nat, ImageImportCharge)>)
    ensures
        ledger_bytes(ledger) >= 0,
    decreases ledger.len(),
{
    if ledger.len() > 0 {
        lemma_ledger_bytes_nonnegative(ledger.drop_last());
    }
}

/// Reserving `c` from `s` leaves no running total or count saturated.
pub open spec fn reserve_exact(s: SnapshotModel, c: ImageImportCharge) -> bool {
    &&& s.active_reservations < u64::MAX
    &&& s.accepted_reservations < u64::MAX
    &&& s.total_reserved_bytes + c.total_bytes <= u64::MAX
}

/// Resizing a reservation from `old` to `new` in `s` leaves no running total saturated.
pub open spec fn resize_exact(s: SnapshotModel, old: ImageImportCharge, new: ImageImportCharge) -> bool {
    &&& s.total_reserved_bytes + new.total_bytes <= u64::MAX
    &&& s.total_released_bytes + old.total_bytes <= u64::MAX
}

/// Releasing a reservation of `c` in `s` leaves no running total or count saturated.
pub open spec fn release_exact(s: SnapshotModel, c: ImageImportCharge) -> bool {
    &&& s.total_released_bytes + c.total_bytes <= u64::MAX
    &&& s.released_reservations < u64::MAX
}

/// The aggregate in-flight byte budget: reservations never take the active bytes past the limit.
/// It keeps a ledger of the reservations it issued and holds, and whether its running totals
/// have stayed exact.
pub struct ImageImportBudget {
    limit: usize,
    state: ImageImportBudgetSnapshot,
    ledger: Ghost<Seq<(nat, ImageImportCharge)>>,
    next_ticket: Ghost<nat>,
    exact: Ghost<bool>,
}

impl ImageImportBudget {
    pub closed spec fn spec_limit(&self) -> usize {
        self.limit
    }

    pub closed spec fn state(&self) -> SnapshotModel {
        self.state.model()
    }

    /// `reservation` was issued by this budget and is held: not yet released, at its charge.
    pub closed spec fn issued(&self, reservation: ImageImportReservation) -> bool {
        exists|i: int| 0 <= i < self.ledger@.len() && self.ledger@[i] == (reservation.spec_ticket(), reservation.spec_charge())
    }

    /// No running total or count of this budget has saturated.
    pub closed spec fn spec_exact(&self) -> bool {
        self.exact@
    }

    /// The held reservations have distinct numbers below the next one, and together hold the
    /// active bytes; while the totals are exact, they are the active reservations and the
    /// totals balance.
    pub closed spec fn ledger_wf(&self) -> bool {
        &&& forall|i: int, j: int| 0 <= i < j < self.ledger@.len() ==> (#[trigger] self.ledger@[i]).0 != (#[trigger] self.ledger@[j]).0
        &&& forall|i: int| 0 <= i < self.ledger@.len() ==> (#[trigger] self.ledger@[i]).0 < self.next_ticket@
        &&& ledger_bytes(self.ledger@) == self.state().active_bytes
        &&& self.exact@ ==> self.ledger@.len() == self.state().active_reservations && totals_balanced(self.state())
    }

    /// Active bytes stay within the limit and under the high-water mark, and its ledger is
    /// consistent.
    pub open spec fn wf(&self) -> bool {
        &&& self.state().active_bytes <= self.spec_limit()
        &&& self.state().active_bytes <= self.state().high_water_bytes
        &&& self.state().high_water_bytes <= self.spec_limit()
        &&& self.ledger_wf()
    }

    /// While a budget's totals are exact, the bytes reserved minus the bytes released are
    /// the active bytes, and the accepted reservations minus the released ones are the active
    /// reservations. A fresh budget is exact, and it stays exact as long as no call saturates
    /// a running total (see `reserve_exact`, `resize_exact`, `release_exact`).
    pub proof fn lemma_exact_totals_balanced(&self)
        requires
            self.wf(),
            self.spec_exact(),
        ensures
            totals_balanced(self.state()),
    {
    }

    pub fn new(limit: ByteLimit) -> (r: Self)
        ensures
            r.wf(),
            r.spec_exact(),
            r.spec_limit() == limit.value(),
            r.state() == empty_snapshot(),
    {
        ImageImportBudget {
            limit: limit.get(),
            state: ImageImportBudgetSnapshot::empty(),
            ledger: Ghost(Seq::empty()),
            next_ticket: Ghost(0),
            exact: Ghost(true),
        }
    }

    pub fn limit(&self) -> (r: usize)
        ensures
            r == self.spec_limit(),
    {
        self.limit
    }

    pub fn snapshot(&self) -> (r: ImageImportBudgetSnapshot)
        ensures
            r.model() == self.state(),
    {
        self.state
    }

    /// Reserves `charge`, or refuses it when the active bytes would pass the limit.
    pub fn reserve(&mut self, charge: ImageImportCharge) -> (r: Result<ImageImportReservation, ImageImportBudgetError>)
        requires
            old(self).wf(),
        ensures
            final(self).wf(),
            final(self).spec_limit() == old(self).spec_limit(),
            match reserve_outcome(old(self).state(), old(self).spec_limit(), charge) {
                Ok(s) => r matches Ok(res) && res.spec_charge() == charge && final(self).state() == s
                    && final(self).issued(res)
                    && (forall|x: ImageImportReservation| #[trigger] old(self).issued(x) ==> final(self).issued(x) && x.spec_ticket() != res.spec_ticket())
                    && final(self).spec_exact() == (old(self).spec_exact() && reserve_exact(old(self).state(), charge)),
                Err(e) => r matches Err(err) && err.model() == e && final(self).state() == after_rejection(old(self).state())
                    && (forall|x: ImageImportReservation| #[trigger] final(self).issued(x) == old(self).issued(x))
                    && final(self).spec_exact() == old(self).spec_exact(),
            },
    {
        let next = match self.state.active_bytes.checked_add(charge.total_bytes) {
            None => {
                self.state.rejected_reservations = self.state.rejected_reservations.saturating_add(1);
                return Err(ImageImportBudgetError::aggregate(charge.total_bytes as u64, self.state.active_bytes as u64, self.limit as u64));
            },
            Some(n) => n,
        };
        if next > self.limit {
            self.state.rejected_reservations = self.state.rejected_reservations.saturating_add(1);
            return Err(ImageImportBudgetError::aggregate(charge.total_bytes as u64, self.state.active_bytes as u64, self.limit as u64));
        }
        self.state.active_bytes = next;
        if next > self.state.high_water_bytes {
            self.state.high_water_bytes = next;
        }
        self.state.add_charge(charge);
        self.state.active_reservations = self.state.active_reservations.saturating_add(1);
        self.state.accepted_reservations = self.state.accepted_reservations.saturating_add(1);
        self.state.total_reserved_bytes = self.state.total_reserved_bytes.saturating_add(charge.total_bytes as u64);
        let ghost ticket = self.next_ticket@;
        let ghost old_ledger = self.ledger@;
        proof {
            lemma_ledger_bytes_push(old_ledger, (ticket, charge));
            self.exact@ = self.exact@ && reserve_exact(old(self).state(), charge);
            self.ledger@ = old_ledger.push((ticket, charge));
            self.next_ticket@ = ticket + 1;
        }
        let reservation = ImageImportReservation { charge, ticket: Ghost(ticket) };
        proof {
            assert(self.ledger@[old_ledger.len() as int] == (reservation.spec_ticket(), reservation.spec_charge()));
            assert forall|x: ImageImportReservation| #[trigger] old(self).issued(x) implies self.issued(x) && x.spec_ticket() != ticket by {
                let i = choose|i: int| 0 <= i < old_ledger.len() && old_ledger[i] == (x.spec_ticket(), x.spec_charge());
                assert(self.ledger@[i] == old_ledger[i]);
            }
        }
        Ok(reservation)
    }

    /// Moves `reservation` to `charge`; growth is refused when the active bytes would pass
    /// the limit, leaving the reservation as it was.
    pub fn resize(&mut self, reservation: &mut ImageImportReservation, charge: ImageImportCharge) -> (r: Result<(), ImageImportBudgetError>)
        requires
            old(self).wf(),
            old(self).issued(*old(reservation)),
        ensures
            final(self).wf(),
            final(self).spec_limit() == old(self).spec_limit(),
            final(self).issued(*final(reservation)),
            final(reservation).spec_ticket() == old(reservation).spec_ticket(),
            forall|x: ImageImportReservation| #[trigger] old(self).issued(x) && x.spec_ticket() != old(reservation).spec_ticket() ==> final(self).issued(x),
            match resize_outcome(old(self).state(), old(self).spec_limit(), old(reservation).spec_charge(), charge) {
                Ok(s) => r is Ok && final(self).state() == s && final(reservation).spec_charge() == charge
                    && final(self).spec_exact() == (old(self).spec_exact() && (charge == old(reservation).spec_charge()
                        || resize_exact(old(self).state(), old(reservation).spec_charge(), charge))),
                Err(e) => r matches Err(err) && err.model() == e && final(self).state() == after_rejection(old(self).state())
                    && final(reservation).spec_charge() == old(reservation).spec_charge()
                    && final(self).spec_exact() == old(self).spec_exact(),
            },
    {
        let old_charge = reservation.charge;
        let ghost ticket = reservation.ticket@;
        let ghost old_ledger = self.ledger@;
        let ghost at = choose|i: int| 0 <= i < old_ledger.len() && old_ledger[i] == (ticket, old_charge);
        proof {
            lemma_ledger_bytes_member(old_ledger, at);
        }
        if charge == old_charge {
            return Ok(());
        }
        if charge.total_bytes > old_charge.total_bytes {
            let delta = charge.total_bytes - old_charge.total_bytes;
            let next = match self.state.active_bytes.checked_add(delta) {
                None => {
                    self.state.rejected_reservations = self.state.rejected_reservations.saturating_add(1);
                    return Err(ImageImportBudgetError::aggregate(charge.total_bytes as u64, self.state.active_bytes as u64, self.limit as u64));
                },
                Some(n) => n,
            };
            if next > self.limit {
                self.state.rejected_reservations = self.state.rejected_reservations.saturating_add(1);
                return Err(ImageImportBudgetError::aggregate(charge.total_bytes as u64, self.state.active_bytes as u64, self.limit as u64));
            }
            self.state.active_bytes = next;
            if next > self.state.high_water_bytes {
                self.state.high_water_bytes = next;
            }
            self.state.total_reserved_bytes = self.state.total_reserved_bytes.saturating_add(delta as u64);
        } else {
            let delta = old_charge.total_bytes - charge.total_bytes;
            self.state.active_bytes = self.state.active_bytes.saturating_sub(delta);
            self.state.total_released_bytes = self.state.total_released_bytes.saturating_add(delta as u64);
        }
        self.state.remove_charge(old_charge);
        self.state.add_charge(charge);
        reservation.charge = charge;
        proof {
            lemma_ledger_bytes_update(old_ledger, at, (ticket, charge));
            self.exact@ = self.exact@ && resize_exact(old(self).state(), old_charge, charge);
            self.ledger@ = old_ledger.update(at, (ticket, charge));
            assert(self.ledger@[at] == (reservation.spec_ticket(), reservation.spec_charge()));
            assert forall|x: ImageImportReservation| #[trigger] old(self).issued(x) && x.spec_ticket() != ticket implies self.issued(x) by {
                let i = choose|i: int| 0 <= i < old_ledger.len() && old_ledger[i] == (x.spec_ticket(), x.spec_charge());
                assert(self.ledger@[i] == old_ledger[i]);
            }
        }
        Ok(())
    }

    /// Returns `reservation`'s bytes to the budget.
    pub fn release(&mut self, reservation: ImageImportReservation)
        requires
            old(self).wf(),
            old(self).issued(reservation),
        ensures
            final(self).wf(),
            final(self).spec_limit() == old(self).spec_limit(),
            final(self).state() == release_outcome(old(self).state(), reservation.spec_charge()),
            forall|x: ImageImportReservation| #[trigger] old(self).issued(x) && x.spec_ticket() != reservation.spec_ticket() ==> final(self).issued(x),
            final(self).spec_exact() == (old(self).spec_exact() && release_exact(old(self).state(), reservation.spec_charge())),
    {
        let charge = reservation.charge;
        let ghost ticket = reservation.ticket@;
        let ghost old_ledger = self.ledger@;
        let ghost at = choose|i: int| 0 <= i < old_ledger.len() && old_ledger[i] == (ticket, charge);
        proof {
            lemma_ledger_bytes_member(old_ledger, at);
            lemma_ledger_bytes_remove(old_ledger, at);
            if self.exact@ {
                assert(old_ledger.len() >= 1);
            }
        }
        self.state.active_bytes = self.state.active_bytes.saturating_sub(charge.total_bytes);
        self.state.remove_charge(charge);
        self.state.active_reservations = self.state.active_reservations.saturating_sub(1);
        self.state.total_released_bytes = self.state.total_released_bytes.saturating_add(charge.total_bytes as u64);
        self.state.released_reservations = self.state.released_reservations.saturating_add(1);
        proof {
            self.exact@ = self.exact@ && release_exact(old(self).state(), charge);
            self.ledger@ = old_ledger.remove(at);
            assert forall|x: ImageImportReservation| #[trigger] old(self).issued(x) && x.spec_ticket() != ticket implies self.issued(x) by {
                let i = choose|i: int| 0 <= i < old_ledger.len() && old_ledger[i] == (x.spec_ticket(), x.spec_charge());
                if i < at {
                    assert(self.ledger@[i] == old_ledger[i]);
                } else {
                    assert(self.ledger@[i - 1] == old_ledger[i]);
                }
            }
        }
    }
}

/// A budget sized from validated limits, with the publication overlap ceiling it admits.
pub struct ImageImportBudgetHost {
    limit: ByteLimit,
    publication_overlap_limit: ByteLimit,
    budget: ImageImportBudget,
}

impl ImageImportBudgetHost {
    pub closed spec fn spec_limit(&self) -> ByteLimit {
        self.limit
    }

    pub closed spec fn spec_publication_overlap_limit(&self) -> ByteLimit {
        self.publication_overlap_limit
    }

    pub closed spec fn spec_budget(&self) -> ImageImportBudget {
        self.budget
    }

    pub open spec fn wf(&self) -> bool {
        &&& self.spec_budget().wf()
        &&& self.spec_budget().spec_limit() == self.spec_limit().value()
    }

    /// `reservation` was issued by this host's budget and is held.
    pub open spec fn issued(&self, reservation: ImageImportReservation) -> bool {
        self.spec_budget().issued(reservation)
    }

    /// A host for validated `limits`: the aggregate limit bounds the budget, the RGBA limit
    /// bounds publication overlap.
    pub fn new(limits: ImageImportLimits) -> (r: Result<Self, ImageImportLimitsError>)
        ensures
            match limits_check(limits.model()) {
                Err(e) => r == Err::<Self, ImageImportLimitsError>(e),
                Ok(()) => r matches Ok(h) && h.wf()
                    && h.spec_limit().value() == limits.model().in_flight
                    && h.spec_publication_overlap_limit().value() == limits.model().rgba
                    && h.spec_budget().state() == empty_snapshot()
                    && h.spec_budget().spec_exact(),
            },
    {
        let limits = match limits.validate() {
            Err(e) => return Err(e),
            Ok(l) => l,
        };
        let limit = limits.max_in_flight_bytes();
        Ok(ImageImportBudgetHost {
            limit,
            publication_overlap_limit: limits.max_rgba_bytes(),
            budget: ImageImportBudget::new(limit),
        })
    }

    pub fn limit(&self) -> (r: ByteLimit)
        ensures
            r == self.spec_limit(),
    {
        self.limit
    }

    pub fn publication_overlap_limit(&self) -> (r: ByteLimit)
        ensures
            r == self.spec_publication_overlap_limit(),
    {
        self.publication_overlap_limit
    }

    pub fn snapshot(&self) -> (r: ImageImportBudgetSnapshot)
        ensures
            r.model() == self.spec_budget().state(),
    {
        self.budget.snapshot()
    }

    pub fn reserve(&mut self, charge: ImageImportCharge) -> (r: Result<ImageImportReservation, ImageImportBudgetError>)
        requires
            old(self).wf(),
        ensures
            final(self).wf(),
            final(self).spec_limit() == old(self).spec_limit(),
            final(self).spec_publication_overlap_limit() == old(self).spec_publication_overlap_limit(),
            match reserve_outcome(old(self).spec_budget().state(), old(self).spec_limit().value(), charge) {
                Ok(s) => r matches Ok(res) && res.spec_charge() == charge && final(self).spec_budget().state() == s
                    && final(self).issued(res)
                    && (forall|x: ImageImportReservation| #[trigger] old(self).issued(x) ==> final(self).issued(x) && x.spec_ticket() != res.spec_ticket())
                    && final(self).spec_budget().spec_exact() == (old(self).spec_budget().spec_exact() && reserve_exact(old(self).spec_budget().state(), charge)),
                Err(e) => r matches Err(err) && err.model() == e && final(self).spec_budget().state() == after_rejection(old(self).spec_budget().state())
                    && (forall|x: ImageImportReservation| #[trigger] final(self).issued(x) == old(self).issued(x))
                    && final(self).spec_budget().spec_exact() == old(self).spec_budget().spec_exact(),
            },
    {
        self.budget.reserve(charge)
    }

    pub fn resize(&mut self, reservation: &mut ImageImportReservation, charge: ImageImportCharge) -> (r: Result<(), ImageImportBudgetError>)
        requires
            old(self).wf(),
            old(self).issued(*old(reservation)),
        ensures
            final(self).wf(),
            final(self).spec_limit() == old(self).spec_limit(),
            final(self).spec_publication_overlap_limit() == old(self).spec_publication_overlap_limit(),
            final(self).issued(*final(reservation)),
            final(reservation).spec_ticket() == old(reservation).spec_ticket(),
            forall|x: ImageImportReservation| #[trigger] old(self).issued(x) && x.spec_ticket() != old(reservation).spec_ticket() ==> final(self).issued(x),
            match resize_outcome(old(self).spec_budget().state(), old(self).spec_limit().value(), old(reservation).spec_charge(), charge) {
                Ok(s) => r is Ok && final(self).spec_budget().state() == s && final(reservation).spec_charge() == charge
                    && final(self).spec_budget().spec_exact() == (old(self).spec_budget().spec_exact() && (charge == old(reservation).spec_charge()
                        || resize_exact(old(self).spec_budget().state(), old(reservation).spec_charge(), charge))),
                Err(e) => r matches Err(err) && err.model() == e && final(self).spec_budget().state() == after_rejection(old(self).spec_budget().state())
                    && final(reservation).spec_charge() == old(reservation).spec_charge()
                    && final(self).spec_budget().spec_exact() == old(self).spec_budget().spec_exact(),
            },
    {
        self.budget.resize(reservation, charge)
    }

    pub fn release(&mut self, reservation: ImageImportReservation)
        requires
            old(self).wf(),
            old(self).issued(reservation),
        ensures
            final(self).wf(),
            final(self).spec_limit() == old(self).spec_limit(),
            final(self).spec_publication_overlap_limit() == old(self).spec_publication_overlap_limit(),
            final(self).spec_budget().state() == release_outcome(old(self).spec_budget().state(), reservation.spec_charge()),
            forall|x: ImageImportReservation| #[trigger] old(self).issued(x) && x.spec_ticket() != reservation.spec_ticket() ==> final(self).issued(x),
            final(self).spec_budget().spec_exact() == (old(self).spec_budget().spec_exact() && release_exact(old(self).spec_budget().state(), reservation.spec_charge())),
    {
        self.budget.release(reservation)
    }
}

/// Reserving a charge and releasing it again restores every active figure, provided no kind
/// figure saturated, and counts the bytes as both reserved and released.
pub proof fn lemma_reserve_then_release_restores_active(s: SnapshotModel, limit: usize, c: ImageImportCharge)
    requires
        reserve_outcome(s, limit, c) is Ok,
        s.active_encoded_bytes + c.encoded_bytes <= usize::MAX,
        s.active_decoder_work_bytes + c.decoder_work_bytes <= usize::MAX,
        s.active_rgba_bytes + c.rgba_bytes <= usize::MAX,
        s.active_publication_overlap_bytes + c.publication_overlap_bytes <= usize::MAX,
        s.active_reservations < u64::MAX,
        s.total_reserved_bytes + c.total_bytes <= u64::MAX,
        s.total_released_bytes + c.total_bytes <= u64::MAX,
    ensures
        ({
            let after = release_outcome(reserve_outcome(s, limit, c)->Ok_0, c);
            &&& after.active_bytes == s.active_bytes
            &&& after.active_encoded_bytes == s.active_encoded_bytes
            &&& after.active_decoder_work_bytes == s.active_decoder_work_bytes
            &&& after.active_rgba_bytes == s.active_rgba_bytes
            &&& after.active_publication_overlap_bytes == s.active_publication_overlap_bytes
            &&& after.active_reservations == s.active_reservations
            &&& after.total_reserved_bytes == s.total_reserved_bytes + c.total_bytes
            &&& after.total_released_bytes == s.total_released_bytes + c.total_bytes
            &&& after.high_water_bytes >= s.active_bytes + c.total_bytes
        }),
{
}

/// A refused reservation changes nothing but the rejection count.
pub proof fn lemma_refused_reservation_only_counts(s: SnapshotModel, limit: usize, c: ImageImportCharge)
    requires
        reserve_outcome(s, limit, c) is Err,
    ensures
        s.active_bytes + c.total_bytes > limit,
        after_rejection(s).active_bytes == s.active_bytes,
        after_rejection(s).active_reservations == s.active_reservations,
        after_rejection(s).rejected_reservations == sat_add_u64(s.rejected_reservations, 1),
{
}

/// The budget's running totals agree with its active figures: the bytes reserved minus the
/// bytes released are the active bytes, and the accepted reservations minus the released ones
/// are the active reservations.
pub open spec fn totals_balanced(s: SnapshotModel) -> bool {
    &&& s.total_reserved_bytes - s.total_released_bytes == s.active_bytes
    &&& s.accepted_reservations - s.released_reservations == s.active_reservations
}

/// A fresh budget's totals are balanced.
pub proof fn lemma_empty_totals_balanced()
    ensures
        totals_balanced(empty_snapshot()),
{
}

/// Reserving keeps the totals balanced, while no running total saturates: an accepted
/// reservation adds its bytes to both the reserved total and the active bytes and counts one
/// more accepted and active reservation; a refused one only counts a rejection.
pub proof fn lemma_reserve_keeps_totals_balanced(s: SnapshotModel, limit: usize, c: ImageImportCharge)
    requires
        totals_balanced(s),
        s.total_reserved_bytes + c.total_bytes <= u64::MAX,
        s.accepted_reservations < u64::MAX,
        s.active_reservations < u64::MAX,
    ensures
        reserve_outcome(s, limit, c) matches Ok(t) ==> totals_balanced(t)
            && t.accepted_reservations == s.accepted_reservations + 1
            && t.active_reservations == s.active_reservations + 1,
        reserve_outcome(s, limit, c) is Err ==> totals_balanced(after_rejection(s))
            && after_rejection(s).accepted_reservations == s.accepted_reservations,
{
}

/// Resizing a live reservation (whose `old` charge is among the active bytes) keeps the totals
/// balanced, while the reserved and released totals do not saturate.
pub proof fn lemma_resize_keeps_totals_balanced(s: SnapshotModel, limit: usize, old: ImageImportCharge, new: ImageImportCharge)
    requires
        totals_balanced(s),
        old.total_bytes <= s.active_bytes,
        s.total_reserved_bytes + new.total_bytes <= u64::MAX,
        s.total_released_bytes + old.total_bytes <= u64::MAX,
    ensures
        resize_outcome(s, limit, old, new) matches Ok(t) ==> totals_balanced(t)
            && t.active_reservations == s.active_reservations,
{
}

/// Releasing a live reservation (whose charge is among the active bytes, one of the active
/// reservations) keeps the totals balanced and counts exactly one more released reservation,
/// while the released totals do not saturate. Once every reservation is released, the
/// released bytes equal the reserved bytes.
pub proof fn lemma_release_keeps_totals_balanced(s: SnapshotModel, c: ImageImportCharge)
    requires
        totals_balanced(s),
        c.total_bytes <= s.active_bytes,
        s.active_reservations >= 1,
        s.total_released_bytes + c.total_bytes <= u64::MAX,
        s.released_reservations < u64::MAX,
    ensures
        totals_balanced(release_outcome(s, c)),
        release_outcome(s, c).released_reservations == s.released_reservations + 1,
        release_outcome(s, c).active_reservations == s.active_reservations - 1,
        release_outcome(s, c).active_bytes == 0 ==> release_outcome(s, c).total_released_bytes == release_outcome(s, c).total_reserved_bytes,
{
}

} // verus!
