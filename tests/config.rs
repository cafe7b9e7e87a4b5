use loadgen::config::{parse_duration_string, Config, ConfigError, Parsed, TestType};

fn words(list: &[&str]) -> Vec<String> {
    list.iter().map(|s| s.to_string()).collect()
}

fn run_config(list: &[&str]) -> Config {
    match Config::parse(&words(list)) {
        Ok(Parsed::Run(c)) => c,
        _ => panic!("expected a run"),
    }
}

fn parse_error(list: &[&str]) -> ConfigError {
    match Config::parse(&words(list)) {
        Err(e) => e,
        _ => panic!("expected an error"),
    }
}

#[test]
fn defaults() {
    let c = Config::default();
    assert_eq!(c.requests, 10);
    assert_eq!(c.concurrency, 1);
    assert_eq!(c.threads, 1);
    assert_eq!(c.timeout, 25);
    assert_eq!(c.connection_timeout, 20);
    assert_eq!(c.test_type, TestType::RequestCount);
}

#[test]
fn no_arguments_asks_for_help() {
    assert!(matches!(Config::parse(&words(&["lg"])), Ok(Parsed::Help)));
    assert!(matches!(Config::parse(&words(&["lg", "--help"])), Ok(Parsed::Help)));
    assert!(matches!(Config::parse(&words(&["lg", "-v"])), Ok(Parsed::Version)));
}

#[test]
fn counts_attached_and_separate() {
    let c = run_config(&["lg", "-n20", "-c", "5", "--threads", "3", "http://a.example/"]);
    assert_eq!(c.requests, 20);
    assert_eq!(c.concurrency, 5);
    assert_eq!(c.threads, 3);
    assert_eq!(c.url, "http://a.example/");
    assert_eq!(c.test_type, TestType::RequestCount);
    let c = run_config(&["lg", "--requests", "+7", "http://a.example/"]);
    assert_eq!(c.requests, 7);
}

#[test]
fn durations_and_modes() {
    let c = run_config(&["lg", "-d2m", "http://a.example/"]);
    assert_eq!(c.duration, 120);
    assert_eq!(c.test_type, TestType::Duration);
    let c = run_config(&["lg", "-n", "5", "--duration1h", "http://a.example/"]);
    assert_eq!(c.duration, 3600);
    assert_eq!(c.test_type, TestType::Both);
    let c = run_config(&["lg", "-d10", "-n5", "http://a.example/"]);
    assert_eq!(c.test_type, TestType::Both);
    let c = run_config(&["lg", "-T3s", "-C4", "-s", "http://a.example/"]);
    assert_eq!(c.timeout, 3);
    assert_eq!(c.connection_timeout, 4);
    assert!(c.summarize);
}

#[test]
fn durations_in_next_word() {
    let c = run_config(&["lg", "-d", "2m", "http://a.example/"]);
    assert_eq!(c.duration, 120);
    assert_eq!(c.test_type, TestType::Duration);
    let c = run_config(&["lg", "--timeout", "7", "-C", "1h", "-n", "3", "http://a.example/"]);
    assert_eq!(c.timeout, 7);
    assert_eq!(c.connection_timeout, 3600);
    assert_eq!(c.requests, 3);
    let mut cfg = Config::default();
    let args = words(&["lg", "-d", "5s"]);
    let mut next: usize = 2;
    let mut given = false;
    assert_eq!(Config::handle_duration_test(&mut cfg, "-d", &args, &mut next, &mut given), Ok(true));
    assert_eq!(cfg.duration, 5);
    assert_eq!(next, 3);
}

#[test]
fn duration_strings() {
    assert_eq!(parse_duration_string("10"), Some(10));
    assert_eq!(parse_duration_string("10s"), Some(10));
    assert_eq!(parse_duration_string("3m"), Some(180));
    assert_eq!(parse_duration_string("2h"), Some(7200));
    assert_eq!(parse_duration_string(""), None);
    assert_eq!(parse_duration_string("s"), None);
    assert_eq!(parse_duration_string("0s"), None);
    assert_eq!(parse_duration_string("5ms"), None);
    assert_eq!(parse_duration_string("18446744073709551615h"), None);
}

#[test]
fn errors_by_kind() {
    assert_eq!(parse_error(&["lg", "-n0", "http://a.example/"]), ConfigError::InvalidRequests);
    assert_eq!(parse_error(&["lg", "-nx", "http://a.example/"]), ConfigError::InvalidRequests);
    assert_eq!(parse_error(&["lg", "-n"]), ConfigError::InvalidRequests);
    assert_eq!(parse_error(&["lg", "-c", "-1"]), ConfigError::InvalidConcurrency);
    assert_eq!(parse_error(&["lg", "-t0"]), ConfigError::InvalidThreads);
    assert_eq!(parse_error(&["lg", "-d"]), ConfigError::InvalidDuration);
    assert_eq!(parse_error(&["lg", "-d", "x"]), ConfigError::InvalidDuration);
    assert_eq!(parse_error(&["lg", "-T"]), ConfigError::InvalidTimeout);
    assert_eq!(parse_error(&["lg", "-Tx"]), ConfigError::InvalidTimeout);
    assert_eq!(parse_error(&["lg", "-C0"]), ConfigError::InvalidConnectionTimeout);
    assert_eq!(parse_error(&["lg", "-s"]), ConfigError::UrlNotProvided);
    assert_eq!(parse_error(&["lg", "not a url"]), ConfigError::InvalidUrl);
    assert_eq!(
        parse_error(&["lg", "-n2", "-c3", "http://a.example/"]),
        ConfigError::RequestsBelowConcurrency
    );
    assert_eq!(
        parse_error(&["lg", "http://a.example/", "http://b.example/"]),
        ConfigError::UnknownArgument
    );
    assert_eq!(parse_error(&["lg", "--bogus"]), ConfigError::UnknownArgument);
}

#[test]
fn handlers_leave_other_words_alone() {
    let mut c = Config::default();
    let args = words(&["lg", "-x"]);
    let mut next: usize = 2;
    let mut given = false;
    assert_eq!(Config::handle_duration_test(&mut c, "-x", &args, &mut next, &mut given), Ok(false));
    assert_eq!(Config::handle_request_count_test(&mut c, "-x", &args, &mut next, &mut given), Ok(false));
    assert_eq!(Config::handle_concurrency(&mut c, "-x", &args, &mut next), Ok(false));
    assert_eq!(Config::handle_threads(&mut c, "-x", &args, &mut next), Ok(false));
    assert_eq!(Config::handle_timeout(&mut c, "-x", &args, &mut next), Ok(false));
    assert_eq!(Config::handle_connection_timeout(&mut c, "-x", &args, &mut next), Ok(false));
    assert!(!Config::handle_summarize(&mut c, "-x"));
    assert!(!Config::handle_help("-x"));
    let mut url_set = false;
    assert_eq!(Config::handle_url(&mut c, "-x", &mut url_set), Ok(false));
    assert_eq!(next, 2);
    assert!(!url_set);
}

#[test]
fn handler_takes_next_word() {
    let mut c = Config::default();
    let args = words(&["lg", "-c", "8"]);
    let mut next: usize = 2;
    assert_eq!(Config::handle_concurrency(&mut c, "-c", &args, &mut next), Ok(true));
    assert_eq!(c.concurrency, 8);
    assert_eq!(next, 3);
}

#[test]
fn url_handler_takes_first_url_only() {
    let mut c = Config::default();
    let mut url_set = false;
    assert_eq!(Config::handle_url(&mut c, "http://x.example/", &mut url_set), Ok(true));
    assert!(url_set);
    assert_eq!(c.url, "http://x.example/");
    assert_eq!(Config::handle_url(&mut c, "http://y.example/", &mut url_set), Ok(false));
    assert_eq!(c.url, "http://x.example/");
}

#[test]
fn error_messages() {
    assert_eq!(
        ConfigError::UrlNotProvided.message(),
        "URL not provided\nUse --help for more info"
    );
}
