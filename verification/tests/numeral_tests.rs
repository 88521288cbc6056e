use relay_core::config::{Config, ConfigError};
use relay_core::numeral::{number_or_default, parse_number};

#[test]
fn parse_reads_decimal_numbers() {
    assert_eq!(parse_number("0", 100), Some(0));
    assert_eq!(parse_number("7", 100), Some(7));
    assert_eq!(parse_number("42", 100), Some(42));
    assert_eq!(parse_number("100", 100), Some(100));
    assert_eq!(parse_number("007", 100), Some(7));
    assert_eq!(parse_number("8888", u16::MAX as u64), Some(8888));
    assert_eq!(parse_number("65535", u16::MAX as u64), Some(65535));
    assert_eq!(parse_number("18446744073709551615", u64::MAX), Some(u64::MAX));
}

#[test]
fn parse_refuses_everything_else() {
    assert_eq!(parse_number("", 100), None);
    assert_eq!(parse_number("101", 100), None);
    assert_eq!(parse_number("65536", u16::MAX as u64), None);
    assert_eq!(parse_number("18446744073709551616", u64::MAX), None);
    assert_eq!(parse_number("99999999999999999999999", u64::MAX), None);
    assert_eq!(parse_number("-1", 100), None);
    assert_eq!(parse_number("+1", 100), None);
    assert_eq!(parse_number(" 1", 100), None);
    assert_eq!(parse_number("1 ", 100), None);
    assert_eq!(parse_number("12a", 100), None);
    assert_eq!(parse_number("abc", 100), None);
    assert_eq!(parse_number("1.5", 100), None);
    assert_eq!(parse_number("\u{0661}", 100), None);
}

#[test]
fn parse_agrees_with_std_on_every_port() {
    for port in 0u16..=u16::MAX {
        let text = format!("{}", port);
        assert_eq!(parse_number(&text, u16::MAX as u64), Some(port as u64));
    }
}

#[test]
fn unreadable_flag_falls_back_to_default() {
    assert_eq!(number_or_default("8080", 1, 65535), 8080);
    assert_eq!(number_or_default("eighty", 8080, 65535), 8080);
    assert_eq!(number_or_default("", 30, u64::MAX), 30);
    assert_eq!(number_or_default("70000", 8888, 65535), 8888);
    assert_eq!(number_or_default("0", 1000, u64::MAX), 0);
}

#[test]
fn config_from_readable_flags() {
    let c = Config::from_flags("30001", "10.0.0.5", "110", "2", "45", "64").unwrap();
    assert_eq!(c.listen_port(), 30001);
    assert_eq!(c.destination_host(), "10.0.0.5");
    assert_eq!(c.destination_port(), 110);
    assert_eq!(c.skip_count(), 2);
    assert_eq!(c.idle_timeout_secs(), 45);
    assert_eq!(c.max_connections(), 64);
    assert_eq!(c.dial_address(), "10.0.0.5:110");
    assert_eq!(c.bind_address(), "0.0.0.0:30001");
}

#[test]
fn config_from_unreadable_flags_uses_defaults() {
    let c = Config::from_flags("x", "localhost", "99999", "-3", "soon", "").unwrap();
    assert_eq!(c.listen_port(), 8888);
    assert_eq!(c.destination_host(), "localhost");
    assert_eq!(c.destination_port(), 8080);
    assert_eq!(c.skip_count(), 0);
    assert_eq!(c.idle_timeout_secs(), 30);
    assert_eq!(c.max_connections(), 1000);
}

#[test]
fn config_from_flags_refuses_zero_connections() {
    let r = Config::from_flags("1", "h", "2", "0", "0", "0");
    assert!(matches!(r, Err(ConfigError::NoConnections)));
    let off = Config::from_flags("1", "h", "2", "0", "0", "1").unwrap();
    assert_eq!(off.idle_timeout_secs(), 0);
}
