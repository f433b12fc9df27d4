use aegis_agent::config::{parse_ipv4, flag_of_arg, Config, ConfigError, Flag, DEFAULT_CONTROLLER_IP};

fn ip(a: u8, b: u8, c: u8, d: u8) -> u32 {
    u32::from_be_bytes([a, b, c, d])
}

fn args(list: &[&str]) -> Vec<String> {
    list.iter().map(|s| s.to_string()).collect()
}

#[test]
fn test_load_defaults() {
    let args = vec!["program_name".to_string()];
    let config = Config::load(&args).expect("Failed to load default config");

    assert_eq!(config.iface_name, "eth0");
    assert_eq!(config.controller_ip, ip(172, 21, 0, 5));
    assert_eq!(config.controller_port, 443);
}

#[test]
fn test_load_custom_values() {
    let args = args(&["aegis", "--iface", "docker0", "--ip", "10.0.0.1", "--port", "8080"]);
    let config = Config::load(&args).expect("Failed to load custom config");

    assert_eq!(config.iface_name, "docker0");
    assert_eq!(config.controller_ip, ip(10, 0, 0, 1));
    assert_eq!(config.controller_port, 8080);
}

#[test]
fn test_load_short_flags() {
    let args = args(&["aegis", "-i", "eth1", "-c", "192.168.1.1", "-p", "9090"]);
    let config = Config::load(&args).expect("Failed to load short flags");

    assert_eq!(config.iface_name, "eth1");
    assert_eq!(config.controller_ip, ip(192, 168, 1, 1));
    assert_eq!(config.controller_port, 9090);
}

#[test]
fn test_invalid_ip_format() {
    let args = args(&["aegis", "--ip", "999.999.999.999"]);
    let result = Config::load(&args);
    assert!(result.is_err());
}

#[test]
fn test_invalid_port_format() {
    let args = args(&["aegis", "--port", "invalid_port"]);
    let result = Config::load(&args);
    assert!(result.is_err());
}

#[test]
fn test_certificate_paths() {
    let args = args(&[
        "aegis",
        "--cert-pem",
        "/custom/cert.pem",
        "--cert-key",
        "/custom/key.pem",
        "--cert-ca",
        "/custom/ca.pem",
    ]);
    let config = Config::load(&args).expect("Failed to load cert paths");

    assert_eq!(config.cert_file, "/custom/cert.pem");
    assert_eq!(config.key_file, "/custom/key.pem");
    assert_eq!(config.ca_file, "/custom/ca.pem");
}

#[test]
fn test_update_timeout() {
    let args = args(&["aegis", "-n", "5000000000"]);
    let config = Config::load(&args).expect("Failed to load update timeout");

    assert_eq!(config.lazy_update_timeout, 5000000000);
}

#[test]
fn test_mixed_flags() {
    let args = args(&[
        "aegis",
        "-i",
        "eth2",
        "--ip",
        "10.1.1.1",
        "-p",
        "8443",
        "--update-time",
        "2000000000",
    ]);
    let config = Config::load(&args).expect("Failed to load mixed flags");

    assert_eq!(config.iface_name, "eth2");
    assert_eq!(config.controller_ip, ip(10, 1, 1, 1));
    assert_eq!(config.controller_port, 8443);
    assert_eq!(config.lazy_update_timeout, 2000000000);
}

#[test]
fn test_invalid_update_timeout() {
    let args = args(&["aegis", "--update-time", "not_a_number"]);
    let result = Config::load(&args);
    assert!(result.is_err());
}

#[test]
fn test_unknown_args_ignored() {
    let args = args(&["aegis", "--unknown-flag", "value", "-i", "eth0"]);
    // Should not panic, just log a warning
    let config = Config::load(&args).expect("Should handle unknown args");
    assert_eq!(config.iface_name, "eth0");
}

#[test]
fn host_flag_is_kept_for_resolution() {
    let args = args(&["aegis", "--host", "localhost"]);
    let config = Config::load(&args).expect("host flag");
    assert_eq!(config.controller_host.as_deref(), Some("localhost"));
    assert_eq!(config.controller_ip, DEFAULT_CONTROLLER_IP);
}

#[test]
fn later_host_overrides_ip_and_later_ip_overrides_host() {
    let a = args(&["aegis", "--ip", "1.1.1.1", "--host", "localhost"]);
    let config = Config::load(&a).expect("ip then host");
    assert_eq!(config.controller_host.as_deref(), Some("localhost"));

    let b = args(&["aegis", "--host", "localhost", "--ip", "1.1.1.1"]);
    let config = Config::load(&b).expect("host then ip");
    assert_eq!(config.controller_host, None);
    assert_eq!(config.controller_ip, ip(1, 1, 1, 1));
}

#[test]
fn errors_name_the_offending_argument() {
    assert_eq!(
        Config::load(&args(&["aegis", "-i", "eth0", "--ip", "10.0.0"])).unwrap_err(),
        ConfigError::InvalidIp { arg: 4 }
    );
    assert_eq!(
        Config::load(&args(&["aegis", "--port", "65536"])).unwrap_err(),
        ConfigError::InvalidPort { arg: 2 }
    );
    assert_eq!(
        Config::load(&args(&["aegis", "-r", "-1"])).unwrap_err(),
        ConfigError::InvalidRuleTimeout { arg: 2 }
    );
    assert_eq!(
        Config::load(&args(&["aegis", "--cleanup-interval", "x"])).unwrap_err(),
        ConfigError::InvalidCleanupInterval { arg: 2 }
    );
    assert_eq!(
        Config::load(&args(&["aegis", "--channel-size", ""])).unwrap_err(),
        ConfigError::InvalidChannelSize { arg: 2 }
    );
    assert_eq!(
        Config::load(&args(&["aegis", "-g", "70000"])).unwrap_err(),
        ConfigError::InvalidGrpcPort { arg: 2 }
    );
}

#[test]
fn help_stops_reading() {
    assert_eq!(
        Config::load(&args(&["aegis", "-h", "--port", "bad"])).unwrap_err(),
        ConfigError::HelpRequested
    );
    assert_eq!(
        Config::load(&args(&["aegis", "--port", "bad", "--help"])).unwrap_err(),
        ConfigError::InvalidPort { arg: 2 }
    );
}

#[test]
fn remaining_options_and_trailing_flag() {
    let a = args(&[
        "aegis",
        "-r",
        "+120000000000",
        "--cleanup-interval",
        "10",
        "--channel-size",
        "64",
        "-g",
        "50051",
        "-i",
    ]);
    let config = Config::load(&a).expect("options");
    assert_eq!(config.rule_timeout_ns, 120_000_000_000);
    assert_eq!(config.cleanup_interval_sec, 10);
    assert_eq!(config.broadcast_channel_size, 64);
    assert_eq!(config.grpc_server_port, 50051);
    assert_eq!(config.iface_name, "eth0");
}

#[test]
fn default_config_values() {
    let c = Config::default();
    assert_eq!(c.iface_name, "eth0");
    assert_eq!(c.controller_ip, ip(172, 21, 0, 5));
    assert_eq!(c.controller_port, 443);
    assert_eq!(c.lazy_update_timeout, 1_000_000_000);
    assert_eq!(c.cert_file, "certs/agent.pem");
    assert_eq!(c.key_file, "certs/agent.key");
    assert_eq!(c.ca_file, "certs/ca.pem");
    assert_eq!(c.rule_timeout_ns, 60_000_000_000);
    assert_eq!(c.cleanup_interval_sec, 30);
    assert_eq!(c.broadcast_channel_size, 16);
    assert_eq!(c.grpc_server_port, 50001);
}

#[test]
fn ipv4_text_forms() {
    assert_eq!(parse_ipv4("10.0.0.9"), Some(0x0A00_0009));
    assert_eq!(parse_ipv4("255.255.255.255"), Some(u32::MAX));
    assert_eq!(parse_ipv4("0.0.0.0"), Some(0));
    assert_eq!(parse_ipv4("256.0.0.1"), None);
    assert_eq!(parse_ipv4("10.0.0"), None);
    assert_eq!(parse_ipv4("10.0.0.1.2"), None);
    assert_eq!(parse_ipv4("10.0.0.01"), None);
    assert_eq!(parse_ipv4("10..0.1"), None);
    assert_eq!(parse_ipv4(" 10.0.0.1"), None);
    assert_eq!(parse_ipv4("1000.0.0.1"), None);
    assert_eq!(parse_ipv4(""), None);
}

#[test]
fn flag_names() {
    assert_eq!(flag_of_arg("-i"), Flag::Iface);
    assert_eq!(flag_of_arg("--grpc-port"), Flag::GrpcPort);
    assert_eq!(flag_of_arg("--help"), Flag::Help);
    assert_eq!(flag_of_arg("--iface=eth0"), Flag::Unknown);
}
