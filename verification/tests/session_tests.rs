use tinyinst::errors::SessionError;
use tinyinst::outcome::{classify_run_code, RunOutcome};
use tinyinst::session::Session;

fn strings(tokens: &[&str]) -> Vec<String> {
    tokens.iter().map(|t| t.to_string()).collect()
}

#[test]
fn session_rejects_empty_startup_args() {
    let startup: Vec<String> = Vec::new();
    let e = Session::new(&startup, 5000).err().unwrap();
    assert_eq!(e, SessionError::Configuration);
}

#[test]
fn session_rejects_terminator_in_startup_args() {
    let startup = strings(&["-instrument_module", "bad\0module"]);
    let e = Session::new(&startup, 5000).err().unwrap();
    assert_eq!(e, SessionError::Encoding);
}

#[test]
fn session_keeps_timeout_and_startup_args() {
    let startup = strings(&["-instrument_module", "target.exe"]);
    let session = Session::new(&startup, 5000).unwrap();
    assert_eq!(session.timeout_ms(), 5000);
    let call = session.startup_call();
    assert_eq!(call.count(), 2);
    assert_eq!(call.read_token(0), b"-instrument_module".to_vec());
    assert_eq!(call.read_token(1), b"target.exe".to_vec());
}

#[test]
fn run_call_carries_args_and_both_timeouts() {
    let startup = strings(&["-instrument_module", "target.exe"]);
    let session = Session::new(&startup, 5000).unwrap();
    let target = strings(&["target.exe", "input-small.txt"]);
    let call = session.run_call(&target, false).unwrap();
    assert_eq!(call.init_timeout_ms(), 5000);
    assert_eq!(call.run_timeout_ms(), 5000);
    assert!(!call.crash_analysis());
    assert_eq!(call.args().argc(), 2);
    assert_eq!(call.args().read_token(0), b"target.exe".to_vec());
    assert_eq!(call.args().read_token(1), b"input-small.txt".to_vec());
}

#[test]
fn run_call_crash_analysis_flag_is_kept() {
    let startup = strings(&["-instrument_module", "target.exe"]);
    let session = Session::new(&startup, 1000).unwrap();
    let target = strings(&["target.exe"]);
    let call = session.run_call(&target, true).unwrap();
    assert!(call.crash_analysis());
}

#[test]
fn run_call_rejects_empty_target_args() {
    let startup = strings(&["-instrument_module", "target.exe"]);
    let session = Session::new(&startup, 5000).unwrap();
    let target: Vec<String> = Vec::new();
    let e = session.run_call(&target, false).err().unwrap();
    assert_eq!(e, SessionError::Configuration);
}

#[test]
fn run_call_rejects_terminator_in_target_args() {
    let startup = strings(&["-instrument_module", "target.exe"]);
    let session = Session::new(&startup, 5000).unwrap();
    let target = strings(&["target.exe", "in\0put"]);
    let e = session.run_call(&target, false).err().unwrap();
    assert_eq!(e, SessionError::Encoding);
}

#[test]
fn classify_covers_the_closed_taxonomy() {
    assert_eq!(classify_run_code(0), Some(RunOutcome::Normal));
    assert_eq!(classify_run_code(1), Some(RunOutcome::Crash));
    assert_eq!(classify_run_code(2), Some(RunOutcome::Hang));
    assert_eq!(classify_run_code(3), Some(RunOutcome::OtherError));
    assert_eq!(classify_run_code(4), None);
    assert_eq!(classify_run_code(u32::MAX), None);
}

#[test]
fn collect_coverage_reports_each_location_once() {
    let startup = strings(&["-instrument_module", "target.exe"]);
    let mut session = Session::new(&startup, 5000).unwrap();
    let observed = vec![10u64, 20, 10, 30, 20];
    let delta = session.collect_coverage(&observed);
    assert_eq!(delta, vec![10u64, 20, 30]);
}

#[test]
fn collect_coverage_twice_without_run_is_empty() {
    let startup = strings(&["-instrument_module", "target.exe"]);
    let mut session = Session::new(&startup, 5000).unwrap();
    let observed = vec![10u64, 20, 30];
    let first = session.collect_coverage(&observed);
    assert_eq!(first.len(), 3);
    let second = session.collect_coverage(&observed);
    assert!(second.is_empty());
    let third = session.collect_coverage(&Vec::new());
    assert!(third.is_empty());
}

#[test]
fn collect_coverage_superset_delta_is_new_and_disjoint() {
    let startup = strings(&["-instrument_module", "target.exe"]);
    let mut session = Session::new(&startup, 5000).unwrap();
    let first_run = vec![1u64, 2];
    let second_run = vec![1u64, 2, 3, 4];
    let first = session.collect_coverage(&first_run);
    assert_eq!(first, vec![1u64, 2]);
    let second = session.collect_coverage(&second_run);
    assert_eq!(second, vec![3u64, 4]);
    assert!(!second.is_empty());
    assert!(second.iter().all(|loc| !first.contains(loc)));
}

#[test]
fn session_scenario_two_clean_runs_then_crash() {
    // A session configured to instrument the target module, bounded by five
    // seconds per phase.
    let startup = strings(&["-instrument_module", "target.exe"]);
    let mut session = Session::new(&startup, 5000).unwrap();
    let target = strings(&["target.exe", "input-small.txt"]);

    // First run: clean exit, some coverage is new.
    let call = session.run_call(&target, false).unwrap();
    assert_eq!(call.init_timeout_ms(), 5000);
    assert_eq!(classify_run_code(0), Some(RunOutcome::Normal));
    let d1 = session.collect_coverage(&vec![100u64, 200, 300]);
    assert!(d1.len() > 0);

    // Second run with identical arguments: same coverage, empty delta.
    let _call = session.run_call(&target, false).unwrap();
    assert_eq!(classify_run_code(0), Some(RunOutcome::Normal));
    let d2 = session.collect_coverage(&vec![100u64, 200, 300]);
    assert_eq!(d2.len(), 0);

    // Third run on an input that faults the target: classified as a crash.
    let crash_target = strings(&["target.exe", "crash-input.txt"]);
    let _call = session.run_call(&crash_target, false).unwrap();
    assert_eq!(classify_run_code(1), Some(RunOutcome::Crash));
}

#[test]
fn session_exists_only_initialized() {
    // The only way to hold a `Session` is through `Session::new`, which
    // validates and marshals the engine configuration before any run call
    // can be produced; an uninitialized session is not expressible.
    let startup = strings(&["-instrument_module", "target.exe"]);
    let session: Session = Session::new(&startup, 5000).unwrap();
    let target = strings(&["target.exe"]);
    assert!(session.run_call(&target, false).is_ok());
}
