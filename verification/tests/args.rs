use schengen_client::args::{name_from_hostname, Args, ClientNameError, Hostname, LevelFilter};
use schengen_client::retry::{RetryConfig, RetryConfigError};

#[test]
fn test_log_level_mapping() {
    let args = Args {
        server: Some("127.0.0.1:24800".to_string()),
        name: None,
        retry: None,
        verbose: 0,
    };
    assert_eq!(args.get_log_level(), LevelFilter::Warn);

    let args = Args {
        server: Some("127.0.0.1:24800".to_string()),
        name: None,
        retry: None,
        verbose: 1,
    };
    assert_eq!(args.get_log_level(), LevelFilter::Info);

    let args = Args {
        server: Some("127.0.0.1:24800".to_string()),
        name: None,
        retry: None,
        verbose: 2,
    };
    assert_eq!(args.get_log_level(), LevelFilter::Debug);

    let args = Args {
        server: Some("127.0.0.1:24800".to_string()),
        name: None,
        retry: None,
        verbose: 3,
    };
    assert_eq!(args.get_log_level(), LevelFilter::Trace);
}

#[test]
fn test_get_client_name_with_override() {
    let args = Args {
        server: Some("127.0.0.1:24800".to_string()),
        name: Some("test-client".to_string()),
        retry: None,
        verbose: 0,
    };
    assert_eq!(args.get_client_name().unwrap(), "test-client");
}

#[test]
fn test_retry_config_default() {
    let config = RetryConfig::parse("").unwrap();
    assert_eq!(config.delay_ms, 3000);
    assert_eq!(config.max_retries, None);
}

#[test]
fn test_retry_config_delay_only() {
    let config = RetryConfig::parse("300").unwrap();
    assert_eq!(config.delay_ms, 300);
    assert_eq!(config.max_retries, None);
}

#[test]
fn test_retry_config_delay_with_max() {
    let config = RetryConfig::parse("300:5").unwrap();
    assert_eq!(config.delay_ms, 300);
    assert_eq!(config.max_retries, Some(5));
}

#[test]
fn test_retry_config_invalid_delay() {
    assert!(RetryConfig::parse("abc").is_err());
}

#[test]
fn test_retry_config_invalid_max() {
    assert!(RetryConfig::parse("300:abc").is_err());
}

fn args_with(name: Option<&str>, retry: Option<&str>, verbose: u8) -> Args {
    Args {
        server: None,
        name: name.map(|s| s.to_string()),
        retry: retry.map(|s| s.to_string()),
        verbose,
    }
}

#[test]
fn verbosity_has_an_end() {
    assert_eq!(args_with(None, None, 4).get_log_level(), LevelFilter::Trace);
    assert_eq!(args_with(None, None, 255).get_log_level(), LevelFilter::Trace);
}

#[test]
fn retry_errors_name_the_part() {
    assert!(matches!(
        RetryConfig::parse("abc"),
        Err(RetryConfigError::InvalidDelay { part }) if part == "abc"
    ));
    assert!(matches!(
        RetryConfig::parse("x:5"),
        Err(RetryConfigError::InvalidDelay { part }) if part == "x"
    ));
    assert!(matches!(
        RetryConfig::parse(":5"),
        Err(RetryConfigError::InvalidDelay { part }) if part.is_empty()
    ));
    assert!(matches!(
        RetryConfig::parse("300:abc"),
        Err(RetryConfigError::InvalidMaxRetries { part }) if part == "abc"
    ));
    assert!(matches!(
        RetryConfig::parse("300:"),
        Err(RetryConfigError::InvalidMaxRetries { part }) if part.is_empty()
    ));
    // Only the first colon parts.
    assert!(matches!(
        RetryConfig::parse("300:5:6"),
        Err(RetryConfigError::InvalidMaxRetries { part }) if part == "5:6"
    ));
}

#[test]
fn retry_numbers_are_read_as_the_standard_library_does() {
    let delays = [
        "0", "7", "0007", "+7", "+", "-1", "-0", " 7", "7 ", "1_000", "1.5", "0x10", "++1",
        "18446744073709551615", "18446744073709551616", "99999999999999999999x", "7", "é",
    ];
    for delay in delays {
        let expected = delay.parse::<u64>().ok();
        let found = RetryConfig::parse(delay).ok().map(|config| config.delay_ms);
        assert_eq!(found, expected, "{:?}", delay);

        let expected = delay.parse::<usize>().ok();
        let text = format!("1:{}", delay);
        let found = RetryConfig::parse(&text).ok().map(|config| config.max_retries.unwrap());
        assert_eq!(found, expected, "{:?}", text);
    }
}

#[test]
fn retry_config_is_optional() {
    assert!(matches!(args_with(None, None, 0).get_retry_config(), Ok(None)));
    let config = args_with(None, Some(""), 0).get_retry_config().unwrap().unwrap();
    assert_eq!(config, RetryConfig { delay_ms: 3000, max_retries: None });
    let config = args_with(None, Some("20:0"), 0).get_retry_config().unwrap().unwrap();
    assert_eq!(config, RetryConfig { delay_ms: 20, max_retries: Some(0) });
    assert!(args_with(None, Some("soon"), 0).get_retry_config().is_err());
}

#[test]
fn client_is_called_after_its_machine() {
    let expected = hostname::get().unwrap().into_string().unwrap();
    assert_eq!(args_with(None, None, 0).get_client_name().unwrap(), expected);
}

#[test]
fn hostname_errors_are_told_apart() {
    assert_eq!(
        name_from_hostname(Hostname::Text { name: "box".to_string() }),
        Ok("box".to_string())
    );
    assert_eq!(name_from_hostname(Hostname::NotUnicode), Err(ClientNameError::InvalidUtf8));
    assert_eq!(name_from_hostname(Hostname::Unavailable), Err(ClientNameError::NoHostname));
}
