use parallel_disk_usage::error_report::ErrorReport;
use parallel_disk_usage::progress_report::effectual_reporter::EffectualReporter;
use parallel_disk_usage::progress_report::{Event, Notification, RecordingObserver};
use parallel_disk_usage::size::Bytes;

fn snapshot(n: &Notification<Bytes>) -> Option<(u64, u64, u64, u64)> {
    match n {
        Notification::Progress(p) => Some((
            p.known_items,
            p.scanned_items,
            p.scanned_total.inner(),
            p.errors,
        )),
        Notification::Error(_) => None,
    }
}

/// Progress sequencing: three discoveries, two completions, one data
/// receipt and one error leave exactly the counters they touched, notify
/// the observer once per mutation, and the snapshots never decrease.
#[test]
fn progress_sequencing() {
    let mut reporter = EffectualReporter::new(RecordingObserver::<Bytes>::new());
    reporter.report(Event::BeginScanning);
    reporter.report(Event::BeginScanning);
    reporter.report(Event::BeginScanning);
    reporter.report(Event::FinishScanning);
    reporter.report(Event::FinishScanning);
    reporter.report(Event::ReceiveData(Bytes::new(100)));
    let e = ErrorReport::new("read".to_string(), "somewhere".to_string());
    reporter.report(Event::EncounterError(e));

    assert_eq!(reporter.progress.known_items, 3);
    assert_eq!(reporter.progress.scanned_items, 2);
    assert_eq!(reporter.progress.scanned_total, Bytes::new(100));
    assert_eq!(reporter.progress.errors, 1);

    let notifications = &reporter.observer.notifications;
    let mut progress_count = 0;
    let mut error_count = 0;
    let mut last = (0u64, 0u64, 0u64, 0u64);
    for n in notifications.iter() {
        match snapshot(n) {
            Some(s) => {
                progress_count += 1;
                assert!(s.0 >= last.0 && s.1 >= last.1 && s.2 >= last.2 && s.3 >= last.3);
                last = s;
            }
            None => error_count += 1,
        }
    }
    // one snapshot per event: each of the seven events mutates one field
    // and then notifies
    assert_eq!(progress_count, 7);
    assert_eq!(error_count, 1);
    assert_eq!(last, (3, 2, 100, 1));
}

/// Error ordering: the error payload reaches the observer strictly before
/// the snapshot that shows the incremented error counter.
#[test]
fn error_before_its_increment() {
    let mut reporter = EffectualReporter::new(RecordingObserver::<Bytes>::new());
    reporter.report(Event::BeginScanning);
    let e = ErrorReport::new("stat".to_string(), "node-7".to_string());
    reporter.report(Event::EncounterError(e));
    let notifications = &reporter.observer.notifications;
    assert_eq!(notifications.len(), 3);
    match &notifications[1] {
        Notification::Error(r) => {
            assert_eq!(r.operation, "stat");
            assert_eq!(r.path, "node-7");
        }
        Notification::Progress(_) => panic!("error payload must come before its snapshot"),
    }
    match &notifications[2] {
        Notification::Progress(p) => {
            assert_eq!(p.errors, 1);
            assert_eq!(p.known_items, 1);
        }
        Notification::Error(_) => panic!("the error snapshot must follow the payload"),
    }
}

/// Counters saturate instead of wrapping, so they stay monotone.
#[test]
fn counters_saturate() {
    let mut reporter = EffectualReporter::new(RecordingObserver::<Bytes>::new());
    reporter.report(Event::ReceiveData(Bytes::new(u64::MAX)));
    reporter.report(Event::ReceiveData(Bytes::new(17)));
    assert_eq!(reporter.progress.scanned_total, Bytes::new(u64::MAX));
}
