use status_checker::cli::{parse_args, EXIT_OK};
use status_checker::collector::Collector;
use status_checker::pool::{next_job, WorkerAction};
use status_checker::probe::{Attempt, ProbeStep};
use status_checker::queue::JobQueue;
use status_checker::report::{decode_report, render_report};
use status_checker::status::WebsiteStatus;

/// Stands in for the network: `example.com` answers, nothing else does.
fn attempt(url: &str, elapsed_ms: u128) -> Attempt {
    let result = if url == "https://example.com" {
        Ok(200)
    } else {
        Err(String::from("error sending request: dns error: failed to lookup address"))
    };
    Attempt { result, elapsed_ms, observed_at: Some(1_700_000_000) }
}

#[test]
fn two_urls_two_workers_one_retry() {
    let args: Vec<String> = [
        "website_checker",
        "https://example.com",
        "https://nonexistent.invalid",
        "--workers",
        "2",
        "--timeout",
        "5",
        "--retries",
        "1",
    ]
    .iter()
    .map(|a| String::from(*a))
    .collect();
    let command_line = parse_args(&args, Some(16));
    assert!(command_line.file_paths().is_empty());
    let config = command_line.resolve(&Vec::new()).unwrap();
    assert_eq!(config.workers(), 2);
    assert_eq!(config.timeout_secs(), 5);
    assert_eq!(config.retries(), 1);

    let mut queue = JobQueue::new(config.urls().clone());
    let mut collector = Collector::new();
    let mut lines = Vec::new();
    let mut attempts_made: Vec<(String, u32)> = Vec::new();

    // Both workers claim before either delivers; the second one is faster.
    let mut claimed = Vec::new();
    for _ in 0..config.workers() {
        match next_job(&mut queue, config.retries()) {
            WorkerAction::Probe(probe) => claimed.push(probe),
            WorkerAction::Exit => panic!("two URLs wait for two workers"),
        }
    }
    let mut outcomes: Vec<WebsiteStatus> = Vec::new();
    for probe in claimed {
        let url = probe.url().clone();
        let mut probe = probe;
        let mut made = 0;
        let mut clock = 0;
        loop {
            clock += 40;
            made += 1;
            match probe.on_attempt(attempt(&url, clock)) {
                ProbeStep::Done(status) => {
                    outcomes.push(status);
                    break;
                }
                ProbeStep::Retry { probe: next, backoff_ms } => {
                    clock += backoff_ms as u128;
                    probe = next;
                }
            }
        }
        attempts_made.push((url, made));
    }
    outcomes.reverse();
    for status in outcomes {
        lines.push(collector.collect(status, 0));
    }
    for _ in 0..config.workers() {
        assert_eq!(next_job(&mut queue, config.retries()), WorkerAction::Exit);
    }

    assert_eq!(
        attempts_made,
        vec![
            (String::from("https://example.com"), 1),
            (String::from("https://nonexistent.invalid"), 2),
        ]
    );
    assert_eq!(
        lines,
        vec![
            String::from("[0] https://nonexistent.invalid => ERROR: error sending request"),
            String::from("[0] https://example.com => 200"),
        ]
    );

    let results = collector.into_results();
    let text = render_report(&results);
    let records = decode_report(&text).unwrap();
    assert_eq!(records.len(), 2);
    assert_eq!(records[0].url, "https://nonexistent.invalid");
    assert_eq!(
        records[0].action_status,
        Err(String::from("error sending request: dns error: failed to lookup address"))
    );
    assert_eq!(records[0].response_time_ms, 180);
    assert_eq!(records[1].url, "https://example.com");
    assert_eq!(records[1].action_status, Ok(200));
    assert_eq!(records[1].response_time_ms, 40);
    assert_eq!(EXIT_OK, 0);
}
