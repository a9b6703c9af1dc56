use status_checker::cli::{
    default_worker_count, parse_args, CommandLine, ConfigError, UrlSource, DEFAULT_RETRIES,
    DEFAULT_TIMEOUT_SECS, EXIT_NO_URLS, EXIT_OK, FALLBACK_WORKERS,
};

fn args(list: &[&str]) -> Vec<String> {
    let mut v = vec![String::from("website_checker")];
    for a in list {
        v.push(String::from(*a));
    }
    v
}

fn lines(list: &[&str]) -> Vec<String> {
    list.iter().map(|l| String::from(*l)).collect()
}

fn parse(list: &[&str]) -> CommandLine {
    parse_args(&args(list), Some(8))
}

#[test]
fn defaults_without_arguments() {
    let cl = parse(&[]);
    assert_eq!(cl.sources(), &Vec::<UrlSource>::new());
    assert_eq!(cl.workers(), 8);
    assert_eq!(cl.timeout_secs(), 5);
    assert_eq!(cl.retries(), 0);
    assert_eq!(DEFAULT_TIMEOUT_SECS, 5);
    assert_eq!(DEFAULT_RETRIES, 0);
}

#[test]
fn no_arguments_at_all_not_even_the_program_name() {
    let cl = parse_args(&Vec::new(), None);
    assert_eq!(cl.sources().len(), 0);
    assert_eq!(cl.workers(), 4);
}

#[test]
fn the_program_name_is_not_a_url() {
    let cl = parse_args(&vec![String::from("--workers")], Some(2));
    assert_eq!(cl.sources().len(), 0);
    assert_eq!(cl.workers(), 2);
}

#[test]
fn default_worker_count_follows_the_host() {
    assert_eq!(default_worker_count(Some(8)), 8);
    assert_eq!(default_worker_count(Some(1)), 1);
    assert_eq!(default_worker_count(None), 4);
    assert_eq!(default_worker_count(Some(0)), 4);
    assert_eq!(FALLBACK_WORKERS, 4);
}

#[test]
fn positional_arguments_are_urls_in_order() {
    let cl = parse(&["https://b.example", "https://a.example", "https://b.example"]);
    assert_eq!(
        cl.sources(),
        &vec![
            UrlSource::Literal(String::from("https://b.example")),
            UrlSource::Literal(String::from("https://a.example")),
            UrlSource::Literal(String::from("https://b.example")),
        ]
    );
}

#[test]
fn numeric_options_set_their_values() {
    let cl = parse(&["--workers", "3", "https://a.example", "--timeout", "10", "--retries", "2"]);
    assert_eq!(cl.workers(), 3);
    assert_eq!(cl.timeout_secs(), 10);
    assert_eq!(cl.retries(), 2);
    assert_eq!(cl.sources(), &vec![UrlSource::Literal(String::from("https://a.example"))]);
}

#[test]
fn a_plus_sign_is_accepted_in_numbers() {
    let cl = parse(&["--workers", "+3", "--retries", "+0"]);
    assert_eq!(cl.workers(), 3);
    assert_eq!(cl.retries(), 0);
}

#[test]
fn invalid_numbers_fall_back() {
    let cl = parse(&["--workers", "many", "--timeout", "1.5", "--retries", "-1"]);
    assert_eq!(cl.workers(), 8);
    assert_eq!(cl.timeout_secs(), 5);
    assert_eq!(cl.retries(), 0);
}

#[test]
fn an_invalid_timeout_or_retry_budget_puts_the_default_back() {
    let cl = parse(&["--timeout", "9", "--timeout", "soon", "--retries", "4", "--retries", ""]);
    assert_eq!(cl.timeout_secs(), 5);
    assert_eq!(cl.retries(), 0);
    let cl = parse(&["https://a.example", "--timeout", "9", "--timeout", "x"]);
    assert_eq!(cl.timeout_secs(), 5);
    let cl = parse(&["--retries", "4", "--retries", "x"]);
    assert_eq!(cl.retries(), 0);
    let cl = parse(&["--timeout", "9", "--timeout", "0"]);
    assert_eq!(cl.timeout_secs(), 5);
    let cl = parse(&["--timeout", "x", "--timeout", "9", "--retries", "x", "--retries", "4"]);
    assert_eq!(cl.timeout_secs(), 9);
    assert_eq!(cl.retries(), 4);
}

#[test]
fn an_invalid_worker_count_leaves_the_count_as_it_was() {
    let cl = parse(&["--workers", "2", "--workers", "many"]);
    assert_eq!(cl.workers(), 2);
    let cl = parse(&["--workers", "2", "--workers", "0"]);
    assert_eq!(cl.workers(), 2);
}

#[test]
fn numbers_that_do_not_fit_are_invalid() {
    let cl = parse(&[
        "--retries",
        "4294967296",
        "--timeout",
        "18446744073709551616",
        "--workers",
        "99999999999999999999999999",
    ]);
    assert_eq!(cl.retries(), 0);
    assert_eq!(cl.timeout_secs(), 5);
    assert_eq!(cl.workers(), 8);
    let cl = parse(&["--retries", "4294967295", "--timeout", "18446744073709551615"]);
    assert_eq!(cl.retries(), u32::MAX);
    assert_eq!(cl.timeout_secs(), u64::MAX);
}

#[test]
fn zero_workers_and_zero_timeout_are_invalid() {
    let cl = parse(&["--workers", "0", "--timeout", "0", "--retries", "0"]);
    assert_eq!(cl.workers(), 8);
    assert_eq!(cl.timeout_secs(), 5);
    assert_eq!(cl.retries(), 0);
}

#[test]
fn the_last_valid_value_wins() {
    let cl = parse(&["--workers", "2", "--workers", "6"]);
    assert_eq!(cl.workers(), 6);
}

#[test]
fn an_option_at_the_end_is_ignored() {
    let cl = parse(&["https://a.example", "--workers"]);
    assert_eq!(cl.workers(), 8);
    assert_eq!(cl.sources().len(), 1);
    let cl = parse(&["https://a.example", "--file"]);
    assert_eq!(cl.sources(), &vec![UrlSource::Literal(String::from("https://a.example"))]);
    assert_eq!(cl.file_paths(), Vec::<String>::new());
}

#[test]
fn an_option_takes_the_next_argument_whatever_it_is() {
    let cl = parse(&["--workers", "--file", "sites.txt"]);
    assert_eq!(cl.workers(), 8);
    assert_eq!(cl.sources(), &vec![UrlSource::Literal(String::from("sites.txt"))]);
    let cl = parse(&["--file", "--workers", "3"]);
    assert_eq!(
        cl.sources(),
        &vec![UrlSource::File(String::from("--workers")), UrlSource::Literal(String::from("3"))]
    );
    assert_eq!(cl.workers(), 8);
}

#[test]
fn unknown_options_are_urls() {
    let cl = parse(&["--verbose", "-w", "--Workers"]);
    assert_eq!(cl.sources().len(), 3);
}

#[test]
fn files_are_listed_in_order() {
    let cl = parse(&["--file", "a.txt", "https://x.example", "--file", "b.txt"]);
    assert_eq!(cl.file_paths(), vec![String::from("a.txt"), String::from("b.txt")]);
    assert_eq!(
        cl.sources(),
        &vec![
            UrlSource::File(String::from("a.txt")),
            UrlSource::Literal(String::from("https://x.example")),
            UrlSource::File(String::from("b.txt")),
        ]
    );
}

#[test]
fn resolve_keeps_settings_and_order() {
    let cl = parse(&[
        "https://first.example",
        "--file",
        "a.txt",
        "--retries",
        "3",
        "https://middle.example",
        "--file",
        "b.txt",
        "--workers",
        "2",
        "--timeout",
        "7",
    ]);
    let files = vec![
        Some(lines(&["https://a1.example", "", "  # skip", "  https://a2.example  "])),
        Some(lines(&["https://b1.example"])),
    ];
    let config = cl.resolve(&files).unwrap();
    assert_eq!(
        config.urls(),
        &lines(&[
            "https://first.example",
            "https://a1.example",
            "https://a2.example",
            "https://middle.example",
            "https://b1.example",
        ])
    );
    assert_eq!(config.workers(), 2);
    assert_eq!(config.timeout_secs(), 7);
    assert_eq!(config.retries(), 3);
}

#[test]
fn blank_lines_and_comments_are_skipped() {
    let cl = parse(&["--file", "sites.txt"]);
    let files = vec![Some(lines(&[
        "# sites",
        "",
        "   ",
        "\t#indented comment",
        "https://a.example",
        "https://b.example # not a comment",
        "\u{a0}https://c.example\u{3000}",
        "#",
    ]))];
    let config = cl.resolve(&files).unwrap();
    assert_eq!(
        config.urls(),
        &lines(&["https://a.example", "https://b.example # not a comment", "https://c.example"])
    );
}

#[test]
fn a_file_that_cannot_be_read_adds_nothing() {
    let cl = parse(&["--file", "missing.txt", "https://a.example", "--file", "b.txt"]);
    let files = vec![None, Some(lines(&["https://b.example"]))];
    let config = cl.resolve(&files).unwrap();
    assert_eq!(config.urls(), &lines(&["https://a.example", "https://b.example"]));
}

#[test]
fn a_file_without_contents_entry_adds_nothing() {
    let cl = parse(&["https://a.example", "--file", "a.txt", "--file", "b.txt"]);
    let files = vec![Some(lines(&["https://f.example"]))];
    let config = cl.resolve(&files).unwrap();
    assert_eq!(config.urls(), &lines(&["https://a.example", "https://f.example"]));
}

#[test]
fn positional_urls_are_kept_as_given() {
    let cl = parse(&[" https://a.example ", "#x", ""]);
    let config = cl.resolve(&Vec::new()).unwrap();
    assert_eq!(config.urls(), &lines(&[" https://a.example ", "#x", ""]));
}

#[test]
fn empty_url_set_is_rejected_with_exit_code_2() {
    let cl = parse(&[]);
    let rejected = cl.resolve(&Vec::new());
    assert_eq!(rejected, Err(ConfigError::NoUrls));
    let error = rejected.unwrap_err();
    assert_eq!(error.exit_code(), 2);
    assert_eq!(EXIT_NO_URLS, 2);
    assert_eq!(EXIT_OK, 0);
    assert_eq!(
        error.message(),
        "Usage: website_checker [--file sites.txt] [URL ...] [--workers N] [--timeout S] [--retries N]"
    );
}

#[test]
fn options_alone_make_no_run() {
    let cl = parse(&["--workers", "4", "--timeout", "3", "--retries", "1"]);
    assert_eq!(cl.resolve(&Vec::new()), Err(ConfigError::NoUrls));
}

#[test]
fn files_without_urls_make_no_run() {
    let cl = parse(&["--file", "a.txt", "--file", "b.txt"]);
    let files = vec![Some(lines(&["", "# nothing here"])), None];
    assert_eq!(cl.resolve(&files), Err(ConfigError::NoUrls));
}
