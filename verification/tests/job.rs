use vault_client::error::Error;
use vault_client::job::{
    TransferJob, TransferKind, UnitState, DOWNLOAD_SLOTS, MAX_ATTEMPTS, UPLOAD_SLOTS,
};

fn job_with(kind: TransferKind, units: usize) -> TransferJob {
    let mut job = TransferJob::new(kind);
    for i in 0..units {
        assert_eq!(job.add_unit(), i);
    }
    job
}

#[test]
fn the_limits_are_eight_and_sixteen_and_three() {
    assert_eq!(UPLOAD_SLOTS, 8);
    assert_eq!(DOWNLOAD_SLOTS, 16);
    assert_eq!(MAX_ATTEMPTS, 3);
    assert_eq!(TransferJob::new(TransferKind::Upload).limit(), 8);
    assert_eq!(TransferJob::new(TransferKind::Download).limit(), 16);
}

#[test]
fn a_new_job_is_empty_and_in_good_standing() {
    let job = TransferJob::new(TransferKind::Upload);
    assert_eq!(job.len(), 0);
    assert!(job.in_good_standing());
    assert!(job.is_finished());
    assert_eq!(job.result(), Ok(()));
    assert_eq!(job.state(0), None);
}

#[test]
fn a_unit_that_succeeds_at_once() {
    let mut job = job_with(TransferKind::Upload, 1);
    assert_eq!(job.state(0), Some(UnitState::Waiting));
    assert!(!job.begin_attempt(0));
    assert_eq!(job.state(0), Some(UnitState::Waiting));
    assert!(job.enter(0));
    assert_eq!(job.state(0), Some(UnitState::Idle { attempts: 0 }));
    assert!(job.begin_attempt(0));
    assert_eq!(job.state(0), Some(UnitState::Busy { attempts: 1 }));
    assert!(!job.is_finished());
    job.end_attempt(0, true);
    assert_eq!(job.state(0), Some(UnitState::Succeeded));
    assert!(job.is_finished());
    assert!(job.in_good_standing());
    assert_eq!(job.result(), Ok(()));
}

#[test]
fn a_unit_fails_only_after_three_attempts() {
    let mut job = job_with(TransferKind::Download, 1);
    assert!(job.enter(0));
    for made in 1..=3u8 {
        assert!(job.begin_attempt(0));
        assert_eq!(job.state(0), Some(UnitState::Busy { attempts: made }));
        job.end_attempt(0, false);
        assert_eq!(job.state(0), Some(UnitState::Idle { attempts: made }));
        assert!(job.in_good_standing());
    }
    assert!(!job.begin_attempt(0));
    assert_eq!(job.state(0), Some(UnitState::Failed));
    assert!(!job.in_good_standing());
    assert!(job.is_finished());
    assert_eq!(job.result(), Err(Error::DownloadFailed));
}

#[test]
fn a_unit_may_succeed_at_its_last_attempt() {
    let mut job = job_with(TransferKind::Upload, 1);
    assert!(job.enter(0));
    for _ in 0..2 {
        assert!(job.begin_attempt(0));
        job.end_attempt(0, false);
    }
    assert!(job.begin_attempt(0));
    job.end_attempt(0, true);
    assert_eq!(job.state(0), Some(UnitState::Succeeded));
    assert_eq!(job.result(), Ok(()));
}

#[test]
fn a_failed_upload_reports_upload_failed() {
    let mut job = job_with(TransferKind::Upload, 1);
    assert!(job.enter(0));
    for _ in 0..3 {
        assert!(job.begin_attempt(0));
        job.end_attempt(0, false);
    }
    assert!(!job.begin_attempt(0));
    assert_eq!(job.result(), Err(Error::UploadFailed));
}

#[test]
fn once_a_unit_has_failed_no_unit_starts_a_new_attempt() {
    let mut job = job_with(TransferKind::Download, 3);
    for unit in 0..3 {
        assert!(job.enter(unit));
    }
    // Unit 1 has an attempt under way, unit 2 has made one and failed it.
    assert!(job.begin_attempt(1));
    assert!(job.begin_attempt(2));
    job.end_attempt(2, false);
    // Unit 0 runs out of attempts.
    for _ in 0..3 {
        assert!(job.begin_attempt(0));
        job.end_attempt(0, false);
    }
    assert!(!job.begin_attempt(0));
    assert!(!job.in_good_standing());
    // Unit 2 has two attempts left but may not start one: it fails too.
    assert!(!job.begin_attempt(2));
    assert_eq!(job.state(2), Some(UnitState::Failed));
    // The attempt of unit 1 that was under way completes.
    assert_eq!(job.state(1), Some(UnitState::Busy { attempts: 1 }));
    job.end_attempt(1, true);
    assert_eq!(job.state(1), Some(UnitState::Succeeded));
    assert!(job.is_finished());
    assert!(!job.in_good_standing());
    assert_eq!(job.result(), Err(Error::DownloadFailed));
}

#[test]
fn an_attempt_under_way_that_fails_after_the_abort_is_not_repeated() {
    let mut job = job_with(TransferKind::Upload, 2);
    assert!(job.enter(0));
    assert!(job.enter(1));
    assert!(job.begin_attempt(1));
    for _ in 0..3 {
        assert!(job.begin_attempt(0));
        job.end_attempt(0, false);
    }
    assert!(!job.begin_attempt(0));
    job.end_attempt(1, false);
    assert_eq!(job.state(1), Some(UnitState::Idle { attempts: 1 }));
    assert!(!job.begin_attempt(1));
    assert_eq!(job.state(1), Some(UnitState::Failed));
}

#[test]
fn a_failure_is_never_taken_back() {
    let mut job = job_with(TransferKind::Upload, 1);
    assert!(job.enter(0));
    for _ in 0..3 {
        assert!(job.begin_attempt(0));
        job.end_attempt(0, false);
    }
    assert!(!job.begin_attempt(0));
    job.end_attempt(0, true);
    assert_eq!(job.state(0), Some(UnitState::Failed));
    assert!(!job.enter(0));
    assert!(!job.begin_attempt(0));
    assert_eq!(job.state(0), Some(UnitState::Failed));
    assert!(!job.in_good_standing());
}

#[test]
fn an_upload_runs_eight_units_at_once() {
    let mut job = job_with(TransferKind::Upload, 10);
    for unit in 0..8 {
        assert!(job.enter(unit));
    }
    assert!(!job.enter(8));
    assert_eq!(job.state(8), Some(UnitState::Waiting));
    assert!(job.begin_attempt(3));
    job.end_attempt(3, true);
    assert!(job.enter(8));
    assert!(!job.enter(9));
}

#[test]
fn a_download_runs_sixteen_units_at_once() {
    let mut job = job_with(TransferKind::Download, 18);
    for unit in 0..16 {
        assert!(job.enter(unit));
    }
    assert!(!job.enter(16));
    // A unit that fails gives its slot back as well.
    for _ in 0..3 {
        assert!(job.begin_attempt(0));
        job.end_attempt(0, false);
    }
    assert!(!job.begin_attempt(0));
    assert!(job.enter(16));
    assert!(!job.enter(17));
}

#[test]
fn units_out_of_range_change_nothing() {
    let mut job = job_with(TransferKind::Upload, 1);
    assert!(!job.enter(1));
    assert!(!job.begin_attempt(1));
    job.end_attempt(1, true);
    assert_eq!(job.len(), 1);
    assert_eq!(job.state(0), Some(UnitState::Waiting));
    assert_eq!(job.state(1), None);
    assert!(job.in_good_standing());
}

#[test]
fn a_unit_enters_once() {
    let mut job = job_with(TransferKind::Upload, 1);
    assert!(job.enter(0));
    assert!(!job.enter(0));
    assert!(job.begin_attempt(0));
    assert!(!job.begin_attempt(0));
    assert_eq!(job.state(0), Some(UnitState::Busy { attempts: 1 }));
    // A report for a unit without an attempt under way changes nothing.
    job.end_attempt(0, false);
    job.end_attempt(0, true);
    assert_eq!(job.state(0), Some(UnitState::Idle { attempts: 1 }));
}
