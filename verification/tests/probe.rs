use status_checker::probe::{Attempt, Probe, ProbeStep, BACKOFF_MS};
use status_checker::status::WebsiteStatus;

fn failure(message: &str, elapsed_ms: u128) -> Attempt {
    Attempt { result: Err(String::from(message)), elapsed_ms, observed_at: Some(1_700_000_000) }
}

fn answer(code: u16, elapsed_ms: u128) -> Attempt {
    Attempt { result: Ok(code), elapsed_ms, observed_at: Some(1_700_000_000) }
}

/// Runs a probe on attempts that are taken from `script` one by one, and
/// counts how many were made.
fn drive(url: &str, retry_budget: u32, script: Vec<Attempt>) -> (WebsiteStatus, usize, Vec<u64>) {
    let mut probe = Probe::new(String::from(url), retry_budget);
    let mut made = 0;
    let mut pauses = Vec::new();
    for attempt in script {
        assert_eq!(probe.attempts_made() as usize, made);
        made += 1;
        match probe.on_attempt(attempt) {
            ProbeStep::Done(status) => return (status, made, pauses),
            ProbeStep::Retry { probe: next, backoff_ms } => {
                pauses.push(backoff_ms);
                probe = next;
            }
        }
    }
    panic!("the probe wanted more attempts than the script holds");
}

#[test]
fn a_fresh_probe_has_made_no_attempt() {
    let probe = Probe::new(String::from("https://example.com"), 3);
    assert_eq!(probe.url(), "https://example.com");
    assert_eq!(probe.retry_budget(), 3);
    assert_eq!(probe.attempts_made(), 0);
}

#[test]
fn always_failing_request_is_attempted_budget_plus_one_times() {
    for budget in 0u32..6 {
        let script: Vec<Attempt> = (0..20)
            .map(|k| failure(&format!("timeout: attempt {}", k), 100 * (k as u128 + 1)))
            .collect();
        let (status, made, pauses) = drive("https://down.example", budget, script);
        assert_eq!(made as u32, budget + 1);
        assert_eq!(pauses.len() as u32, budget);
        assert_eq!(status.url, "https://down.example");
        assert_eq!(status.action_status, Err(format!("timeout: attempt {}", budget)));
        assert_eq!(status.response_time_ms, 100 * (budget as u128 + 1));
    }
}

#[test]
fn without_retries_the_first_failure_is_final() {
    let (status, made, pauses) = drive("u", 0, vec![failure("refused", 12)]);
    assert_eq!(made, 1);
    assert!(pauses.is_empty());
    assert_eq!(
        status,
        WebsiteStatus {
            url: String::from("u"),
            action_status: Err(String::from("refused")),
            response_time_ms: 12,
            timestamp: Some(1_700_000_000),
        }
    );
}

#[test]
fn success_on_first_attempt_ends_the_probe() {
    let (status, made, pauses) =
        drive("https://example.com", 5, vec![answer(200, 87), answer(500, 900)]);
    assert_eq!(made, 1);
    assert!(pauses.is_empty());
    assert_eq!(status.action_status, Ok(200));
    assert_eq!(status.response_time_ms, 87);
}

#[test]
fn success_on_attempt_k_ends_the_probe_with_the_time_up_to_k() {
    for k in 1usize..=4 {
        let mut script = Vec::new();
        for j in 1..k {
            script.push(failure("timeout", 1000 * j as u128));
        }
        script.push(answer(204, 1000 * k as u128 + 5));
        script.push(answer(500, 99_999));
        let (status, made, pauses) = drive("https://flaky.example", 3, script);
        assert_eq!(made, k);
        assert_eq!(pauses.len(), k - 1);
        assert_eq!(status.action_status, Ok(204));
        assert_eq!(status.response_time_ms, 1000 * k as u128 + 5);
    }
}

#[test]
fn success_on_the_last_allowed_attempt_still_counts() {
    let script = vec![failure("a", 1), failure("b", 2), answer(200, 3)];
    let (status, made, _) = drive("u", 2, script);
    assert_eq!(made, 3);
    assert_eq!(status.action_status, Ok(200));
}

#[test]
fn any_status_code_is_an_answer() {
    for code in [100u16, 200, 301, 404, 500, 599, 0, u16::MAX] {
        let (status, made, _) = drive("u", 3, vec![answer(code, 1)]);
        assert_eq!(made, 1);
        assert_eq!(status.action_status, Ok(code));
    }
}

#[test]
fn every_retry_waits_the_fixed_backoff() {
    let script = vec![failure("a", 1), failure("b", 2), failure("c", 3), failure("d", 4)];
    let (_, _, pauses) = drive("u", 3, script);
    assert_eq!(pauses, vec![100, 100, 100]);
    assert_eq!(BACKOFF_MS, 100);
}

#[test]
fn a_retry_keeps_the_url_and_the_budget() {
    let probe = Probe::new(String::from("https://example.com"), 2);
    match probe.on_attempt(failure("x", 1)) {
        ProbeStep::Retry { probe, backoff_ms } => {
            assert_eq!(backoff_ms, 100);
            assert_eq!(probe.url(), "https://example.com");
            assert_eq!(probe.retry_budget(), 2);
            assert_eq!(probe.attempts_made(), 1);
        }
        ProbeStep::Done(_) => panic!("the budget allows another attempt"),
    }
}

#[test]
fn the_outcome_carries_the_time_of_observation() {
    let attempt = Attempt { result: Ok(200), elapsed_ms: 3, observed_at: None };
    match Probe::new(String::from("u"), 0).on_attempt(attempt) {
        ProbeStep::Done(status) => assert_eq!(status.timestamp, None),
        ProbeStep::Retry { .. } => panic!("an answer ends the probe"),
    }
    let attempt = Attempt { result: Err(String::from("e")), elapsed_ms: 3, observed_at: Some(42) };
    match Probe::new(String::from("u"), 0).on_attempt(attempt) {
        ProbeStep::Done(status) => assert_eq!(status.timestamp, Some(42)),
        ProbeStep::Retry { .. } => panic!("the budget is used up"),
    }
}

#[test]
fn the_largest_budget_does_not_overflow() {
    let probe = Probe::new(String::from("u"), u32::MAX);
    match probe.on_attempt(failure("x", 1)) {
        ProbeStep::Retry { probe, .. } => assert_eq!(probe.attempts_made(), 1),
        ProbeStep::Done(_) => panic!("the budget allows another attempt"),
    }
}
