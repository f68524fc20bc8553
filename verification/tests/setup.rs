use schengen_client::args::Args;
use schengen_client::portal::{get_restore_token_path, read_restore_token};
use schengen_client::retry::RetryConfig;
use schengen_client::setup::{
    after_poll, log_color, log_reset, plan_connection, wait_for_devices, ConnectionPlan, NoServer,
    Poll, WaitStep,
};
use schengen_client::text::{contains_text, parse_number, same_text, to_chars, trim};
use std::path::PathBuf;

#[test]
fn waiting_has_an_end() {
    assert_eq!(wait_for_devices(0), WaitStep::Poll);
    assert_eq!(wait_for_devices(9_999), WaitStep::Poll);
    assert_eq!(wait_for_devices(10_000), WaitStep::GiveUp);
}

#[test]
fn keyboard_and_pointer_are_needed() {
    for has_keyboard in [false, true] {
        for has_pointer in [false, true] {
            let step = after_poll(Poll::Processed { has_keyboard, has_pointer });
            if has_keyboard && has_pointer {
                assert_eq!(step, WaitStep::Ready);
            } else {
                assert_eq!(step, WaitStep::Sleep { ms: 50 });
            }
        }
    }
    assert_eq!(after_poll(Poll::Failed), WaitStep::GiveUp);
}

fn args(server: Option<&str>) -> Args {
    Args { server: server.map(|s| s.to_string()), name: None, retry: None, verbose: 0 }
}

#[test]
fn inherited_socket_comes_first() {
    let plan = plan_connection(&args(Some("host")), true, None);
    assert!(matches!(plan, Ok(ConnectionPlan::Accept)));
    let plan = plan_connection(&args(None), true, None);
    assert!(matches!(plan, Ok(ConnectionPlan::Accept)));
    let plan = plan_connection(&args(None), false, None);
    assert!(matches!(plan, Err(NoServer)));
}

#[test]
fn retry_configuration_is_followed() {
    let connect = |retry| match plan_connection(&args(Some("host:1")), false, retry) {
        Ok(ConnectionPlan::Connect { server, retry_interval_ms, retry_count }) => {
            assert_eq!(server, "host:1");
            (retry_interval_ms, retry_count)
        }
        other => panic!("{:?}", other),
    };
    assert_eq!(connect(None), (None, Some(1)));
    assert_eq!(
        connect(Some(RetryConfig { delay_ms: 300, max_retries: None })),
        (Some(300), None)
    );
    assert_eq!(
        connect(Some(RetryConfig { delay_ms: 300, max_retries: Some(5) })),
        (Some(300), Some(6))
    );
    assert_eq!(
        connect(Some(RetryConfig { delay_ms: 300, max_retries: Some(0) })),
        (Some(300), Some(1))
    );
    for max in [usize::MAX - 1, usize::MAX] {
        assert_eq!(
            connect(Some(RetryConfig { delay_ms: 300, max_retries: Some(max) })),
            (Some(300), Some(usize::MAX))
        );
    }
}

#[test]
fn log_sources_have_colors() {
    assert_eq!(log_color("schengen_client::synergy"), "\x1b[34m");
    assert_eq!(log_color("schengen_client::ei"), "\x1b[32m");
    assert_eq!(log_color("schengen_client::portal"), "\x1b[35m");
    assert_eq!(log_color("portal of ei"), "\x1b[32m");
    assert_eq!(log_color("zbus"), "");
    assert_eq!(log_color(""), "");
    assert_eq!(log_reset("\x1b[34m"), "\x1b[0m");
    assert_eq!(log_reset(""), "");
}

#[test]
fn restore_token_path_is_in_the_cache() {
    let path = |cache: Option<&str>, home: Option<&str>| {
        get_restore_token_path(cache.map(|s| s.to_string()), home.map(|s| s.to_string()))
    };
    assert_eq!(
        path(Some("/c"), Some("/home/u")),
        "/c/schengen/client-restore-token.txt"
    );
    assert_eq!(
        path(None, Some("/home/u")),
        "/home/u/.cache/schengen/client-restore-token.txt"
    );
    assert_eq!(path(None, None), "./.cache/schengen/client-restore-token.txt");
    for dir in ["", "/", "/c", "/c/", "c", "./", "\u{e9}/"] {
        let expected = PathBuf::from(dir).join("schengen").join("client-restore-token.txt");
        assert_eq!(path(Some(dir), None), expected.to_str().unwrap());
        let expected = PathBuf::from(dir)
            .join(".cache")
            .join("schengen")
            .join("client-restore-token.txt");
        assert_eq!(path(None, Some(dir)), expected.to_str().unwrap());
    }
}

#[test]
fn restore_token_is_trimmed() {
    let read = |contents: &str| read_restore_token(Some(contents.to_string()));
    assert_eq!(read_restore_token(None), None);
    assert_eq!(read(""), None);
    assert_eq!(read(" \n\t"), None);
    assert_eq!(read("token"), Some("token".to_string()));
    assert_eq!(read("\n a b \r\n"), Some("a b".to_string()));
}

#[test]
fn trimming_is_that_of_the_standard_library() {
    for code in 0..0x11_0000u32 {
        if let Some(c) = char::from_u32(code) {
            if c.is_whitespace() || code < 0x3100 {
                let text = format!("{}x{}", c, c);
                assert_eq!(trim(&text), text.trim(), "{:x}", code);
            }
        }
    }
}

#[test]
fn texts_are_compared() {
    assert!(same_text("", ""));
    assert!(same_text("ei_\u{e9}", "ei_\u{e9}"));
    assert!(!same_text("ei_pointer", "ei_pointer_absolute"));
    assert!(!same_text("abc", "abd"));
    assert_eq!(to_chars("a\u{e9}"), vec!['a', '\u{e9}']);
}

#[test]
fn parts_are_found() {
    for (text, part) in [
        ("", ""),
        ("a", ""),
        ("", "a"),
        ("aab", "ab"),
        ("aab", "b"),
        ("aab", "ba"),
        ("portal", "portal"),
        ("portal", "portals"),
        ("\u{e9}ei", "ei"),
    ] {
        assert_eq!(contains_text(text, part), text.contains(part), "{:?} {:?}", text, part);
    }
}

#[test]
fn numbers_have_a_maximum() {
    assert_eq!(parse_number("255", 255), Some(255));
    assert_eq!(parse_number("256", 255), None);
    assert_eq!(parse_number("0", 0), Some(0));
    assert_eq!(parse_number("1", 0), None);
}
