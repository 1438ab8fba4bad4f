use serve_once::settings::Settings;
use serve_once::settings::DEFAULT_EXIT_TIMER_MS;
use serve_once::settings::DEFAULT_PORT;
use serve_once::supervisor::SupervisorAction;
use serve_once::supervisor::SupervisorEvent;
use serve_once::supervisor::SupervisorState;

#[test]
fn defaults_are_as_documented() {
    assert_eq!(DEFAULT_PORT, 8766);
    assert_eq!(DEFAULT_EXIT_TIMER_MS, 60000);
    let settings = Settings::new("files".to_string());
    assert_eq!(settings.port, 8766);
    assert_eq!(settings.target_directory, "files");
    assert_eq!(settings.exit_timer, 60000);
}

#[test]
fn options_can_be_set_one_by_one() {
    let settings = Settings::new("d".to_string()).with_port(80).with_exit_timer(1500);
    assert_eq!(settings.port, 80);
    assert_eq!(settings.target_directory, "d");
    assert_eq!(settings.exit_timer, 1500);
    let settings = Settings::new("d".to_string()).with_exit_timer(7);
    assert_eq!(settings.port, 8766);
    assert_eq!(settings.exit_timer, 7);
}

#[test]
fn supervisor_takes_the_exit_timer_as_grace_period() {
    let settings = Settings::new("d".to_string()).with_exit_timer(2500);
    let mut supervisor = settings.supervisor();
    assert_eq!(supervisor.state(), SupervisorState::Polling);
    assert_eq!(supervisor.grace_period_ms(), 2500);
    let action = supervisor.step(SupervisorEvent::Polled { pending_empty: true });
    assert_eq!(action, SupervisorAction::DrainFor { millis: 2500 });
}
