use car_logger::pid_scan::{
    record_probe, run_scan, safe_read_services, Observed, PidProbe, PidScanConfig,
    PidScanProgress, ScanCancellation, ScanConfigError, ScanProgressSink, ScanSleeper,
};
use car_logger::time::Duration;

struct Fake {
    connected: bool,
    sent: Vec<(u8, u8)>,
    fail: bool,
}

impl PidProbe for Fake {
    fn is_connected(&self) -> bool {
        self.connected
    }
    fn probe(&mut self, s: u8, p: u8, _: Duration) -> Result<bool, anyhow::Error> {
        self.sent.push((s, p));
        if self.fail {
            return Err(anyhow::Error::msg("timeout"));
        }
        Ok(p % 2 == 0)
    }
}

struct NoSleep;

impl ScanSleeper for NoSleep {
    fn sleep(&mut self, _: Duration) {}
}

/// Counts the waits it is asked for.
struct CountingSleep(Vec<Duration>);

impl ScanSleeper for CountingSleep {
    fn sleep(&mut self, d: Duration) {
        self.0.push(d);
    }
}

/// Cancels the scan once the given number of PIDs was scanned.
struct CancelAt {
    scanned: u16,
    cancel: ScanCancellation,
}

impl ScanProgressSink for CancelAt {
    fn report(&mut self, p: PidScanProgress) {
        if p.scanned == self.scanned {
            self.cancel.cancel()
        }
    }
}

#[test]
fn only_read_services_are_allowed() {
    let mut f = Observed::new(Fake { connected: true, sent: vec![], fail: false });
    let mut sleeps = Observed::new(CountingSleep(Vec::new()));
    let mut reports = Observed::new(Vec::new());
    assert!(run_scan(
        &mut f,
        &mut sleeps,
        PidScanConfig { service: 4, ..Default::default() },
        &mut Observed::new(ScanCancellation::default()),
        &mut reports
    )
    .is_err());
    assert!(f.inner.sent.is_empty());
    assert!(sleeps.inner.0.is_empty());
    assert!(reports.inner.is_empty());
}

#[test]
fn scan_reports_progress_and_can_be_cancelled() {
    let mut f = Observed::new(Fake { connected: true, sent: vec![], fail: false });
    let cancel = ScanCancellation::default();
    let c = cancel.clone();
    let result = run_scan(
        &mut f,
        &mut Observed::new(NoSleep),
        PidScanConfig { end_pid: 10, ..Default::default() },
        &mut Observed::new(cancel),
        &mut Observed::new(CancelAt { scanned: 3, cancel: c }),
    )
    .unwrap();
    assert_eq!(result.scanned, 3);
    assert!(result.stopped);
    assert_eq!(result, PidScanProgress { scanned: 3, responses: 2, errors: 0, stopped: true });
    assert_eq!(f.inner.sent, vec![(1, 0), (1, 1), (1, 2)]);
}

#[test]
fn five_consecutive_errors_stop_the_scan() {
    let mut f = Observed::new(Fake { connected: true, sent: vec![], fail: true });
    let result = run_scan(
        &mut f,
        &mut Observed::new(NoSleep),
        Default::default(),
        &mut Observed::new(ScanCancellation::default()),
        &mut Observed::new(Vec::new()),
    )
    .unwrap();
    assert_eq!(result.errors, 5);
    assert!(result.stopped);
    assert_eq!(result, PidScanProgress { scanned: 5, responses: 0, errors: 5, stopped: true });
    assert_eq!(f.inner.sent, vec![(1, 0), (1, 1), (1, 2), (1, 3), (1, 4)]);
}

#[test]
fn full_scan_counts_answers_and_visits_every_pid_in_order() {
    let mut f = Observed::new(Fake { connected: true, sent: vec![], fail: false });
    let config = PidScanConfig { start_pid: 2, end_pid: 6, ..Default::default() };
    let mut reports = Observed::new(Vec::new());
    let mut sleeps = Observed::new(CountingSleep(Vec::new()));
    let result =
        run_scan(&mut f, &mut sleeps, config, &mut Observed::new(ScanCancellation::default()), &mut reports).unwrap();
    assert_eq!(
        result,
        PidScanProgress { scanned: 5, responses: 3, errors: 0, stopped: false }
    );
    assert_eq!(f.inner.sent, vec![(1, 2), (1, 3), (1, 4), (1, 5), (1, 6)]);
    assert_eq!(reports.inner.len(), 5);
    assert_eq!(reports.inner[0].scanned, 1);
    assert_eq!(
        reports.inner.iter().map(|p| p.scanned).collect::<Vec<_>>(),
        vec![1, 2, 3, 4, 5]
    );
    assert_eq!(sleeps.inner.0, vec![config.interval; 4]);
}

#[test]
fn error_run_reports_each_pid_and_does_not_wait_after_the_last() {
    let mut f = Observed::new(Fake { connected: true, sent: vec![], fail: true });
    let mut reports = Observed::new(Vec::new());
    let mut sleeps = Observed::new(CountingSleep(Vec::new()));
    let config = PidScanConfig::default();
    run_scan(&mut f, &mut sleeps, config, &mut Observed::new(ScanCancellation::default()), &mut reports).unwrap();
    assert_eq!(
        reports.inner.iter().map(|p| (p.scanned, p.errors, p.stopped)).collect::<Vec<_>>(),
        vec![(1, 1, false), (2, 2, false), (3, 3, false), (4, 4, false), (5, 5, true)]
    );
    assert_eq!(sleeps.inner.0, vec![config.interval; 4]);
}

#[test]
fn disconnected_adapter_stops_before_probing() {
    let mut f = Observed::new(Fake { connected: false, sent: vec![], fail: false });
    let mut sleeps = Observed::new(CountingSleep(Vec::new()));
    let result = run_scan(
        &mut f,
        &mut sleeps,
        Default::default(),
        &mut Observed::new(ScanCancellation::default()),
        &mut Observed::new(Vec::new()),
    )
    .unwrap();
    assert_eq!(result, PidScanProgress { scanned: 0, responses: 0, errors: 0, stopped: true });
    assert!(f.inner.sent.is_empty());
    assert!(sleeps.inner.0.is_empty());
}

#[test]
fn every_configuration_error_is_reported() {
    let base = PidScanConfig::default();
    assert_eq!(base.validate(), Ok(()));
    assert_eq!(
        PidScanConfig { service: 3, ..base }.validate(),
        Err(ScanConfigError::UnsafeService)
    );
    assert_eq!(
        PidScanConfig { start_pid: 5, end_pid: 4, ..base }.validate(),
        Err(ScanConfigError::InvalidRange)
    );
    assert_eq!(
        PidScanConfig { interval: Duration::from_millis(19), ..base }.validate(),
        Err(ScanConfigError::IntervalTooShort)
    );
    assert_eq!(
        PidScanConfig { response_timeout: Duration::zero(), ..base }.validate(),
        Err(ScanConfigError::MissingTimeout)
    );
    assert_eq!(ScanConfigError::InvalidRange.message(), "PID範囲が不正です");
    assert_eq!(safe_read_services(), [0x01, 0x02, 0x09]);
}

#[test]
fn record_probe_resets_and_counts_error_runs() {
    let start = PidScanProgress::default();
    let (p, c) = record_probe(start, 4, None);
    assert_eq!(c, 5);
    assert!(p.stopped);
    assert_eq!((p.scanned, p.errors), (1, 1));
    let (p, c) = record_probe(start, 4, Some(true));
    assert_eq!(c, 0);
    assert_eq!((p.scanned, p.responses, p.stopped), (1, 1, false));
}
