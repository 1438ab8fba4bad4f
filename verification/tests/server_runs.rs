use serve_once::interceptor::intercept;
use serve_once::settings::Settings;
use serve_once::supervisor::SupervisorAction;
use serve_once::supervisor::SupervisorEvent;
use serve_once::supervisor::SupervisorState;
use serve_once::tracker::CompletionTracker;
use serve_once::tracker::MatchOutcome;

/// One whole run of the server on a clock that starts at zero. `requests`
/// gives each request's time and path, in order of time. The run is followed
/// until the supervisor terminates or the clock passes `give_up_at`.
/// Hands back the time of termination, if it came, and what was left
/// pending.
fn run(
    listing: &[&str],
    exit_timer: u32,
    requests: &[(u64, &str)],
    give_up_at: u64,
) -> (Option<u64>, Vec<String>) {
    let settings = Settings::new("served".to_string()).with_exit_timer(exit_timer);
    let mut tracker = CompletionTracker::new();
    tracker.initialize(listing.iter().map(|name| name.to_string()).collect());
    let mut supervisor = settings.supervisor();
    let mut served = 0;
    let mut now: u64 = 0;
    let mut action = supervisor.action();
    loop {
        let wake = match action {
            SupervisorAction::PollAfter { millis } => now + millis,
            SupervisorAction::DrainFor { millis } => now + millis,
            SupervisorAction::Terminate => return (Some(now), tracker.pending()),
        };
        if wake > give_up_at {
            return (None, tracker.pending());
        }
        while served < requests.len() && requests[served].0 <= wake {
            intercept(&mut tracker, requests[served].1);
            served += 1;
        }
        now = wake;
        action = match action {
            SupervisorAction::PollAfter { .. } => supervisor.poll(&tracker),
            _ => supervisor.step(SupervisorEvent::GraceElapsed),
        };
    }
}

#[test]
fn server_stays_up_while_no_file_is_fetched() {
    let (end, pending) = run(&["a.txt", "b.txt"], 60000, &[], 10_000_000);
    assert_eq!(end, None);
    assert_eq!(pending, vec!["a.txt".to_string(), "b.txt".to_string()]);
}

#[test]
fn server_stays_up_while_one_file_is_unfetched() {
    let (end, pending) = run(&["a.txt", "b.txt"], 60000, &[(100, "/a.txt"), (200, "/a.txt")], 10_000_000);
    assert_eq!(end, None);
    assert_eq!(pending, vec!["b.txt".to_string()]);
}

#[test]
fn server_stops_after_both_files_were_fetched() {
    let requests = [(1000, "/a.txt"), (7000, "/b.txt")];
    let (end, pending) = run(&["a.txt", "b.txt"], 60000, &requests, 10_000_000);
    assert_eq!(end, Some(70000));
    assert!(pending.is_empty());
    let end = end.unwrap();
    assert!(end >= 7000 + 60000);
    assert!(end <= 7000 + 60000 + 5000);
}

#[test]
fn server_with_empty_directory_stops_after_the_grace_period() {
    let (end, pending) = run(&[], 60000, &[], 10_000_000);
    assert_eq!(end, Some(65000));
    assert!(pending.is_empty());
}

#[test]
fn request_for_unknown_file_does_not_stop_the_server() {
    let (end, pending) = run(&["a.txt"], 60000, &[(1000, "/c.txt")], 10_000_000);
    assert_eq!(end, None);
    assert_eq!(pending, vec!["a.txt".to_string()]);
}

#[test]
fn requests_during_the_grace_period_change_nothing() {
    let requests = [(1000, "/a.txt"), (20000, "/a.txt"), (30000, "/zzz")];
    let (end, pending) = run(&["a.txt"], 60000, &requests, 10_000_000);
    assert_eq!(end, Some(65000));
    assert!(pending.is_empty());
}

#[test]
fn two_requests_for_one_file_have_one_winner() {
    let mut tracker = CompletionTracker::new();
    tracker.initialize(vec!["a.txt".to_string(), "b.txt".to_string()]);
    let first = intercept(&mut tracker, "/a.txt");
    let second = intercept(&mut tracker, "/a.txt");
    assert_eq!(first.outcome, MatchOutcome::Removed);
    assert_eq!(second.outcome, MatchOutcome::NotFound);
    assert_eq!(tracker.len(), 1);
}

#[test]
fn supervisor_of_a_fresh_run_is_polling() {
    let settings = Settings::new("served".to_string());
    assert_eq!(settings.supervisor().state(), SupervisorState::Polling);
}
