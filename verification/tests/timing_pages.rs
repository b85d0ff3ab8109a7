use mcp_probe::probe::{next_page, PageStep};
use mcp_probe::scenario::timing::{retry_after_failure, timeout_message, RetryStep};

#[test]
fn retry_stops_after_the_retries() {
    match retry_after_failure(0, 2, 250) {
        RetryStep::Retry { next_attempt, sleep_ms } => {
            assert_eq!(next_attempt, 1);
            assert_eq!(sleep_ms, Some(250));
        }
        RetryStep::GiveUp => panic!("expected a retry"),
    }
    match retry_after_failure(1, 2, 0) {
        RetryStep::Retry { next_attempt, sleep_ms } => {
            assert_eq!(next_attempt, 2);
            assert_eq!(sleep_ms, None);
        }
        RetryStep::GiveUp => panic!("expected a retry"),
    }
    assert!(matches!(retry_after_failure(2, 2, 250), RetryStep::GiveUp));
    assert!(matches!(retry_after_failure(0, 0, 250), RetryStep::GiveUp));
}

#[test]
fn timeout_message_names_the_operation() {
    assert_eq!(timeout_message("tools.list", 1500), "tools.list timed out after 1500ms");
}

#[test]
fn pagination_follows_cursors_up_to_the_limit() {
    assert!(matches!(next_page("tools/list", 1, None), PageStep::Done));
    assert!(matches!(next_page("tools/list", 1, Some("   ")), PageStep::Done));
    match next_page("tools/list", 1, Some(" c2 ")) {
        PageStep::Next(c) => assert_eq!(c, "c2"),
        _ => panic!("expected a next page"),
    }
    match next_page("prompts/list", 64, Some("c65")) {
        PageStep::Exceeded(m) => {
            assert_eq!(m, "prompts/list pagination exceeded 64 pages without reaching the end")
        }
        _ => panic!("expected the page limit"),
    }
}
