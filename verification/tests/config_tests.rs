use relay_core::config::{
    Config, ConfigError, DEFAULT_DESTINATION_PORT, DEFAULT_IDLE_TIMEOUT_SECS, DEFAULT_LISTEN_PORT,
    DEFAULT_MAX_CONNECTIONS, DEFAULT_SKIP_COUNT,
};
use relay_core::timer::TimerCheck;

fn config(listen: u16, host: &str, port: u16) -> Config {
    Config::new(listen, host.to_string(), port, 0, 30, 10).unwrap()
}

#[test]
fn defaults_are_as_documented() {
    let c = Config::default();
    assert_eq!(c.listen_port(), 8888);
    assert_eq!(c.destination_host(), "127.0.0.1");
    assert_eq!(c.destination_port(), 8080);
    assert_eq!(c.skip_count(), 0);
    assert_eq!(c.idle_timeout_secs(), 30);
    assert_eq!(c.max_connections(), 1000);
    assert_eq!(DEFAULT_LISTEN_PORT, 8888);
    assert_eq!(DEFAULT_DESTINATION_PORT, 8080);
    assert_eq!(DEFAULT_SKIP_COUNT, 0);
    assert_eq!(DEFAULT_IDLE_TIMEOUT_SECS, 30);
    assert_eq!(DEFAULT_MAX_CONNECTIONS, 1000);
}

#[test]
fn config_keeps_what_it_is_given() {
    let c = Config::new(30001, "example.org".to_string(), 110, 2, 45, 7).unwrap();
    assert_eq!(c.listen_port(), 30001);
    assert_eq!(c.destination_host(), "example.org");
    assert_eq!(c.destination_port(), 110);
    assert_eq!(c.skip_count(), 2);
    assert_eq!(c.idle_timeout_secs(), 45);
    assert_eq!(c.max_connections(), 7);
    let d = c.clone();
    assert_eq!(d.destination_host(), "example.org");
    assert_eq!(d.max_connections(), 7);
}

#[test]
fn config_without_connections_is_refused() {
    let r = Config::new(1, "h".to_string(), 2, 0, 0, 0);
    assert!(matches!(r, Err(ConfigError::NoConnections)));
}

#[test]
fn bind_address_is_every_interface() {
    assert_eq!(config(8888, "x", 1).bind_address(), "0.0.0.0:8888");
    assert_eq!(config(0, "x", 1).bind_address(), "0.0.0.0:0");
    assert_eq!(config(65535, "x", 1).bind_address(), "0.0.0.0:65535");
    assert_eq!(config(7, "x", 1).bind_address(), "0.0.0.0:7");
}

#[test]
fn dial_address_joins_host_and_port() {
    assert_eq!(config(1, "127.0.0.1", 8080).dial_address(), "127.0.0.1:8080");
    assert_eq!(config(1, "example.org", 110).dial_address(), "example.org:110");
    assert_eq!(config(1, "h", 10).dial_address(), "h:10");
    assert_eq!(config(1, "h", 1000).dial_address(), "h:1000");
    assert_eq!(config(1, "h", 40009).dial_address(), "h:40009");
}

#[test]
fn dial_address_agrees_with_std_for_every_port() {
    for port in 0u16..=u16::MAX {
        assert_eq!(config(1, "h", port).dial_address(), format!("h:{}", port));
    }
}

#[test]
fn idle_timeout_in_milliseconds() {
    let c = Config::new(1, "h".to_string(), 2, 0, 30, 1).unwrap();
    assert_eq!(c.idle_timeout_millis(), 30_000);
    let off = Config::new(1, "h".to_string(), 2, 0, 0, 1).unwrap();
    assert_eq!(off.idle_timeout_millis(), 0);
    let huge = Config::new(1, "h".to_string(), 2, 0, u64::MAX, 1).unwrap();
    assert_eq!(huge.idle_timeout_millis(), u64::MAX);
    let edge = Config::new(1, "h".to_string(), 2, 0, u64::MAX / 1000, 1).unwrap();
    assert_eq!(edge.idle_timeout_millis(), (u64::MAX / 1000) * 1000);
}

#[test]
fn config_makes_its_gate_and_timer() {
    let c = Config::new(1, "h".to_string(), 2, 0, 2, 5).unwrap();
    let g = c.gate();
    assert_eq!(g.capacity(), 5);
    assert_eq!(g.active_count(), 0);
    let t = c.idle_timer(100);
    assert_eq!(t.timeout_ms(), 2_000);
    assert_eq!(t.last_activity_ms(), 100);
    assert_eq!(t.check(2_101), TimerCheck::Expired);
}
