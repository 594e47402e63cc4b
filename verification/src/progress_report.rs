//! Scan telemetry: a record of monotone counters, the discrete events that
//! mutate it, and the observer interface through which every mutation is
//! echoed to the caller.

use vstd::prelude::*;
use crate::error_report::{ErrorReport, ErrorReportModel};
use crate::size::{sat_add_u64, Size};

pub mod effectual_reporter;

verus! {

/// The mathematical content of a [`Progress`] record.
pub struct ProgressModel {
    pub known_items: u64,
    pub scanned_items: u64,
    pub scanned_total: u64,
    pub errors: u64,
}

impl ProgressModel {
    /// The record every scan session starts from.
    pub open spec fn zeroed() -> ProgressModel {
        ProgressModel { known_items: 0, scanned_items: 0, scanned_total: 0, errors: 0 }
    }
}

/// Scan telemetry counters. All four fields only ever grow within one scan
/// session; each is mutated by exactly one kind of [`Event`].
#[derive(Clone, Copy, Debug)]
pub struct Progress<D: Size> {
    /// Number of nodes discovered so far.
    pub known_items: u64,
    /// Number of nodes whose subtree aggregation has completed.
    pub scanned_items: u64,
    /// Total of the sizes received so far.
    pub scanned_total: D,
    /// Number of failed per-node lookups.
    pub errors: u64,
}

impl<D: Size> View for Progress<D> {
    type V = ProgressModel;

    open spec fn view(&self) -> ProgressModel {
        ProgressModel {
            known_items: self.known_items,
            scanned_items: self.scanned_items,
            scanned_total: self.scanned_total.val(),
            errors: self.errors,
        }
    }
}

impl<D: Size> Default for Progress<D> {
    /// The zeroed record a scan session starts from.
    fn default() -> (r: Self)
        ensures
            r@ == ProgressModel::zeroed(),
    {
        Progress {
            known_items: 0,
            scanned_items: 0,
            scanned_total: D::zero(),
            errors: 0,
        }
    }
}

/// The mathematical content of an [`Event`].
pub enum EventModel {
    BeginScanning,
    FinishScanning,
    ReceiveData(u64),
    EncounterError(ErrorReportModel),
}

/// A discrete scan occurrence. Each variant drives exactly one field of
/// [`Progress`].
#[derive(Clone, Debug)]
pub enum Event<D: Size> {
    /// A node was discovered.
    BeginScanning,
    /// A node's subtree aggregation completed.
    FinishScanning,
    /// A node's own size became known.
    ReceiveData(D),
    /// A per-node lookup failed.
    EncounterError(ErrorReport),
}

impl<D: Size> View for Event<D> {
    type V = EventModel;

    open spec fn view(&self) -> EventModel {
        match self {
            Event::BeginScanning => EventModel::BeginScanning,
            Event::FinishScanning => EventModel::FinishScanning,
            Event::ReceiveData(d) => EventModel::ReceiveData(d.val()),
            Event::EncounterError(r) => EventModel::EncounterError(r@),
        }
    }
}

/// The single field mutation an event performs: each counter grows by one or
/// by the received size, saturating at `u64::MAX`.
pub open spec fn apply_event(p: ProgressModel, e: EventModel) -> ProgressModel {
    match e {
        EventModel::BeginScanning => ProgressModel {
            known_items: sat_add_u64(p.known_items, 1),
            ..p
        },
        EventModel::FinishScanning => ProgressModel {
            scanned_items: sat_add_u64(p.scanned_items, 1),
            ..p
        },
        EventModel::ReceiveData(d) => ProgressModel {
            scanned_total: sat_add_u64(p.scanned_total, d),
            ..p
        },
        EventModel::EncounterError(_) => ProgressModel { errors: sat_add_u64(p.errors, 1), ..p },
    }
}

/// `p` is pointwise no larger than `q`.
pub open spec fn progress_le(p: ProgressModel, q: ProgressModel) -> bool {
    &&& p.known_items <= q.known_items
    &&& p.scanned_items <= q.scanned_items
    &&& p.scanned_total <= q.scanned_total
    &&& p.errors <= q.errors
}

/// The record obtained by applying a whole sequence of events in order.
pub open spec fn apply_events(p: ProgressModel, es: Seq<EventModel>) -> ProgressModel
    decreases es.len(),
{
    if es.len() == 0 {
        p
    } else {
        apply_events(apply_event(p, es[0]), es.drop_first())
    }
}

/// How many of the events are `BeginScanning`.
pub open spec fn count_begin(es: Seq<EventModel>) -> int
    decreases es.len(),
{
    if es.len() == 0 {
        0
    } else {
        (if es[0] is BeginScanning {
            1int
        } else {
            0int
        }) + count_begin(es.drop_first())
    }
}

/// How many of the events are `FinishScanning`.
pub open spec fn count_finish(es: Seq<EventModel>) -> int
    decreases es.len(),
{
    if es.len() == 0 {
        0
    } else {
        (if es[0] is FinishScanning {
            1int
        } else {
            0int
        }) + count_finish(es.drop_first())
    }
}

/// How many of the events are `EncounterError`.
pub open spec fn count_error(es: Seq<EventModel>) -> int
    decreases es.len(),
{
    if es.len() == 0 {
        0
    } else {
        (if es[0] is EncounterError {
            1int
        } else {
            0int
        }) + count_error(es.drop_first())
    }
}

/// The exact sum of the sizes carried by `ReceiveData` events.
pub open spec fn total_data(es: Seq<EventModel>) -> int
    decreases es.len(),
{
    if es.len() == 0 {
        0
    } else {
        (match es[0] {
            EventModel::ReceiveData(d) => d as int,
            _ => 0int,
        }) + total_data(es.drop_first())
    }
}

/// A single event never shrinks any field of the record.
pub proof fn lemma_apply_event_monotone(p: ProgressModel, e: EventModel)
    ensures
        progress_le(p, apply_event(p, e)),
{
}

/// Within one session every field of the record is non-decreasing over time:
/// after any further sequence of events, every counter is at least what it
/// was before.
pub proof fn lemma_apply_events_monotone(p: ProgressModel, es: Seq<EventModel>)
    ensures
        progress_le(p, apply_events(p, es)),
    decreases es.len(),
{
    if es.len() > 0 {
        lemma_apply_event_monotone(p, es[0]);
        lemma_apply_events_monotone(apply_event(p, es[0]), es.drop_first());
    }
}

/// After exactly N `BeginScanning` events, `known_items` has grown by N, and
/// analogously for the other three fields, as long as no counter saturates.
pub proof fn lemma_apply_events_counts(p: ProgressModel, es: Seq<EventModel>)
    requires
        p.known_items + count_begin(es) <= u64::MAX,
        p.scanned_items + count_finish(es) <= u64::MAX,
        p.scanned_total + total_data(es) <= u64::MAX,
        p.errors + count_error(es) <= u64::MAX,
    ensures
        apply_events(p, es).known_items == p.known_items + count_begin(es),
        apply_events(p, es).scanned_items == p.scanned_items + count_finish(es),
        apply_events(p, es).scanned_total == p.scanned_total + total_data(es),
        apply_events(p, es).errors == p.errors + count_error(es),
    decreases es.len(),
{
    if es.len() > 0 {
        lemma_counts_nonnegative(es.drop_first());
        lemma_apply_events_counts(apply_event(p, es[0]), es.drop_first());
    }
}

/// Every event count and the data total are non-negative.
pub proof fn lemma_counts_nonnegative(es: Seq<EventModel>)
    ensures
        count_begin(es) >= 0,
        count_finish(es) >= 0,
        count_error(es) >= 0,
        total_data(es) >= 0,
    decreases es.len(),
{
    if es.len() > 0 {
        lemma_counts_nonnegative(es.drop_first());
    }
}

/// The mathematical content of a [`Notification`].
pub enum NotificationModel {
    Progress(ProgressModel),
    Error(ErrorReportModel),
}

/// One callback invocation as the observer sees it: either a snapshot of the
/// record right after a mutation, or an error payload.
#[derive(Clone, Debug)]
pub enum Notification<D: Size> {
    /// A snapshot of the record right after a mutation.
    Progress(Progress<D>),
    /// A forwarded error payload.
    Error(ErrorReport),
}

impl<D: Size> View for Notification<D> {
    type V = NotificationModel;

    open spec fn view(&self) -> NotificationModel {
        match self {
            Notification::Progress(p) => NotificationModel::Progress(p@),
            Notification::Error(r) => NotificationModel::Error(r@),
        }
    }
}

/// The notifications one event produces, in order: an error payload is
/// delivered strictly before the snapshot that shows its increment; every
/// other event delivers only the snapshot taken right after its mutation.
pub open spec fn notifications_of(e: EventModel, after: ProgressModel) -> Seq<NotificationModel> {
    match e {
        EventModel::EncounterError(r) => seq![
            NotificationModel::Error(r),
            NotificationModel::Progress(after),
        ],
        _ => seq![NotificationModel::Progress(after)],
    }
}

/// A caller-supplied sink for progress snapshots and error payloads. The
/// `log` names everything it has observed, in observation order, so callers
/// can state exactly which notifications a call produced.
pub trait ProgressObserver<D: Size>: Sized {
    /// Everything observed so far, in order.
    spec fn log(&self) -> Seq<NotificationModel>;

    /// Observe a snapshot of the progress record.
    fn observe_progress(&mut self, progress: &Progress<D>)
        ensures
            final(self).log() == old(self).log().push(NotificationModel::Progress(progress@)),
    ;

    /// Observe a forwarded error payload.
    fn observe_error(&mut self, error: ErrorReport)
        ensures
            final(self).log() == old(self).log().push(NotificationModel::Error(error@)),
    ;
}

/// An observer that simply records every notification, for later inspection.
#[derive(Clone, Debug)]
pub struct RecordingObserver<D: Size> {
    /// Every notification received so far, oldest first.
    pub notifications: Vec<Notification<D>>,
}

impl<D: Size> RecordingObserver<D> {
    /// An observer that has seen nothing yet.
    pub fn new() -> (r: Self)
        ensures
            r.log() == Seq::<NotificationModel>::empty(),
    {
        let r = RecordingObserver { notifications: Vec::new() };
        proof {
            assert(r.log() =~= Seq::<NotificationModel>::empty());
        }
        r
    }
}

impl<D: Size> ProgressObserver<D> for RecordingObserver<D> {
    open spec fn log(&self) -> Seq<NotificationModel> {
        Seq::new(self.notifications@.len(), |i: int| self.notifications@[i]@)
    }

    fn observe_progress(&mut self, progress: &Progress<D>)
        ensures
            final(self).log() == old(self).log().push(NotificationModel::Progress(progress@)),
    {
        self.notifications.push(Notification::Progress(*progress));
        proof {
            assert(self.log() =~= old(self).log().push(NotificationModel::Progress(progress@)));
        }
    }

    fn observe_error(&mut self, error: ErrorReport)
        ensures
            final(self).log() == old(self).log().push(NotificationModel::Error(error@)),
    {
        let ghost e = error@;
        self.notifications.push(Notification::Error(error));
        proof {
            assert(self.log() =~= old(self).log().push(NotificationModel::Error(e)));
        }
    }
}

} // verus!
