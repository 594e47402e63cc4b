//! Store progress information and echo every mutation to an observer.

use vstd::prelude::*;
use crate::error_report::ErrorReport;
use crate::progress_report::{
    apply_event, notifications_of, progress_le, Event, Progress, ProgressModel, ProgressObserver,
};
use crate::size::Size;

verus! {

/// Holds the progress record of one scan session and forwards every change
/// of it to the caller-supplied observer.
#[derive(Clone, Debug)]
pub struct EffectualReporter<D: Size, O: ProgressObserver<D>> {
    /// Progress information.
    pub progress: Progress<D>,
    /// Receives a snapshot after every mutation, and every error payload.
    pub observer: O,
}

impl<D: Size, O: ProgressObserver<D>> EffectualReporter<D, O> {
    /// Create a reporter with a zeroed progress record.
    pub fn new(observer: O) -> (r: Self)
        ensures
            r.progress@ == ProgressModel::zeroed(),
            r.observer.log() == observer.log(),
    {
        EffectualReporter { progress: Progress::default(), observer }
    }

    /// Apply one event: perform its single field mutation, then notify the
    /// observer. An `EncounterError` payload reaches the observer strictly
    /// before the snapshot that shows the incremented error counter; every
    /// event's snapshot is taken right after its own mutation. No field of
    /// the record ever shrinks.
    pub fn report(&mut self, event: Event<D>)
        ensures
            final(self).progress@ == apply_event(old(self).progress@, event@),
            final(self).observer.log() == old(self).observer.log() + notifications_of(
                event@,
                apply_event(old(self).progress@, event@),
            ),
            progress_le(old(self).progress@, final(self).progress@),
    {
        match event {
            Event::BeginScanning => {
                self.progress.known_items = self.progress.known_items.saturating_add(1);
                self.observer.observe_progress(&self.progress);
            },
            Event::FinishScanning => {
                self.progress.scanned_items = self.progress.scanned_items.saturating_add(1);
                self.observer.observe_progress(&self.progress);
            },
            Event::ReceiveData(data) => {
                self.progress.scanned_total = self.progress.scanned_total.add(data);
                self.observer.observe_progress(&self.progress);
            },
            Event::EncounterError(error_report) => {
                self.observer.observe_error(error_report);
                self.progress.errors = self.progress.errors.saturating_add(1);
                self.observer.observe_progress(&self.progress);
            },
        }
        proof {
            assert(final(self).observer.log() =~= old(self).observer.log() + notifications_of(
                event@,
                apply_event(old(self).progress@, event@),
            ));
        }
    }
}

} // verus!
