use eproxy::address::{IpAddress, SocketAddress};
use eproxy::config::{
    data_dir, default_config_template, default_log_level, join, layout_for_home,
    resolve_config, resolve_config_path, tls_names, ConfigError, ConfigErrorKind, ParsedAddresses,
    RawConfig, RawListener, RawLog, ResolvedConfig, DEFAULT_LISTEN,
};

fn listener(upstream: &str) -> RawListener {
    RawListener {
        name: None,
        listen: "127.0.0.1:9718".to_string(),
        upstream: upstream.to_string(),
        connect_ip: "10.0.0.7".to_string(),
        connect_port: 8443,
        sni: None,
        host_header: None,
    }
}

fn good_addresses() -> ParsedAddresses {
    ParsedAddresses {
        listen: Ok(SocketAddress::V4 { ipv4: 0x7f00_0001, port: 9718 }),
        connect_ip: Ok(IpAddress::V4(0x0a00_0007)),
    }
}

fn resolve(listeners: Vec<(RawListener, ParsedAddresses)>) -> Result<ResolvedConfig, ConfigError> {
    let (raws, addrs): (Vec<_>, Vec<_>) = listeners.into_iter().unzip();
    resolve_config(RawConfig { log: RawLog { level: "debug".to_string() }, listeners: raws }, addrs)
}

#[test]
fn resolves_with_defaults() {
    let c = resolve(vec![(listener("https://xxx.domain.com:8443"), good_addresses())])
        .expect("resolves");
    assert_eq!(c.log_level, "debug");
    assert_eq!(c.listeners.len(), 1);
    let l = &c.listeners[0];
    assert_eq!(l.name, "listener-1");
    assert_eq!(l.listen_addr, SocketAddress::V4 { ipv4: 0x7f00_0001, port: 9718 });
    assert_eq!(l.connect_addr, SocketAddress::V4 { ipv4: 0x0a00_0007, port: 8443 });
    assert_eq!(l.server_name, "xxx.domain.com");
    assert_eq!(l.host_header, "xxx.domain.com");
    assert_eq!(l.upstream_base, "https://xxx.domain.com:8443/");
}

#[test]
fn sni_and_host_header_overrides() {
    let mut raw = listener("https://up.example/api");
    raw.name = Some("main".to_string());
    raw.sni = Some("tls.example".to_string());
    let mut second = listener("https://up.example/api");
    second.host_header = Some("virtual.example".to_string());
    let c = resolve(vec![(raw, good_addresses()), (second, good_addresses())]).expect("resolves");
    let l = &c.listeners[0];
    assert_eq!(l.name, "main");
    assert_eq!(l.server_name, "tls.example");
    assert_eq!(l.host_header, "tls.example");
    assert_eq!(l.upstream_base, "https://tls.example/api");
    let l = &c.listeners[1];
    assert_eq!(l.name, "listener-2");
    assert_eq!(l.server_name, "up.example");
    assert_eq!(l.host_header, "virtual.example");
}

#[test]
fn ipv6_connect_address() {
    let addrs = ParsedAddresses {
        listen: Ok(SocketAddress::V6 { ipv6: 1, port: 80, flowinfo: 0, scope_id: 0 }),
        connect_ip: Ok(IpAddress::V6(0x2001_0db8 << 96)),
    };
    let c = resolve(vec![(listener("https://a.example"), addrs)]).expect("resolves");
    assert_eq!(
        c.listeners[0].connect_addr,
        SocketAddress::V6 { ipv6: 0x2001_0db8 << 96, port: 8443, flowinfo: 0, scope_id: 0 }
    );
}

fn error_of(raw: RawListener, addrs: ParsedAddresses) -> ConfigError {
    resolve(vec![(raw, addrs)]).expect_err("refused")
}

#[test]
fn refuses_empty_config() {
    let e = resolve(vec![]).expect_err("refused");
    assert_eq!(e.kind, ConfigErrorKind::NoListeners);
    assert!(e.cause.is_none());
    assert_eq!(e.message(), "config requires at least one [[listeners]] entry");
}

#[test]
fn refuses_bad_listen_address() {
    let addrs = ParsedAddresses {
        listen: Err("invalid socket address syntax".to_string()),
        connect_ip: Err("invalid IP address syntax".to_string()),
    };
    let e = error_of(listener("https://a.example"), addrs);
    assert_eq!(e.kind, ConfigErrorKind::InvalidListen);
    assert_eq!(
        e.message(),
        "listener 'listener-1' has invalid listen address: invalid socket address syntax"
    );
}

#[test]
fn refuses_bad_connect_ip() {
    let addrs = ParsedAddresses {
        listen: good_addresses().listen,
        connect_ip: Err("invalid IP address syntax".to_string()),
    };
    let e = error_of(listener("https://a.example"), addrs);
    assert_eq!(e.kind, ConfigErrorKind::InvalidConnectIp);
    assert_eq!(e.cause.as_deref(), Some("invalid IP address syntax"));
    assert_eq!(e.listener, "listener-1");
}

#[test]
fn refuses_port_zero() {
    let mut raw = listener("https://a.example");
    raw.connect_port = 0;
    raw.name = Some("edge".to_string());
    let e = error_of(raw, good_addresses());
    assert_eq!(e.kind, ConfigErrorKind::InvalidConnectPort);
    assert!(e.cause.is_none());
    assert_eq!(e.message(), "listener 'edge' has invalid connect_port: 0");
}

#[test]
fn refuses_unparsable_upstream() {
    let e = error_of(listener("xxx.domain.com"), good_addresses());
    assert_eq!(e.kind, ConfigErrorKind::InvalidUpstreamUrl);
    assert!(e.message().starts_with("listener 'listener-1' has invalid upstream URL: "));
}

#[test]
fn refuses_plain_http_upstream() {
    let e = error_of(listener("http://a.example"), good_addresses());
    assert_eq!(e.kind, ConfigErrorKind::UpstreamNotHttps);
    assert!(e.cause.is_none());
    assert_eq!(e.message(), "listener 'listener-1' upstream must use https://");
}

#[test]
fn refuses_bad_server_name() {
    let mut raw = listener("https://a.example");
    raw.sni = Some("bad name".to_string());
    let e = error_of(raw, good_addresses());
    assert_eq!(e.kind, ConfigErrorKind::InvalidServerName);
    assert!(e.message().starts_with("listener 'listener-1' has invalid sni/server_name: "));
}

#[test]
fn missing_host_message() {
    let e = ConfigError {
        kind: ConfigErrorKind::UpstreamMissingHost,
        listener: "x".to_string(),
        cause: None,
    };
    assert_eq!(e.message(), "upstream URL requires host");
}

#[test]
fn first_failing_listener_decides() {
    let ok = (listener("https://a.example"), good_addresses());
    let mut bad_port = listener("https://a.example");
    bad_port.connect_port = 0;
    let bad_scheme = listener("ftp://a.example");
    let e = resolve(vec![ok, (bad_port, good_addresses()), (bad_scheme, good_addresses())])
        .expect_err("refused");
    assert_eq!(e.kind, ConfigErrorKind::InvalidConnectPort);
    assert!(e.cause.is_none());
    assert_eq!(e.listener, "listener-2");
}

#[test]
fn layout_paths() {
    let l = layout_for_home("/home/me");
    assert_eq!(l.config_path, "/home/me/.eproxy/config.toml");
    assert_eq!(l.logs_dir, "/home/me/.eproxy/logs");
    assert_eq!(l.pid_file, "/home/me/.eproxy/eproxy.pid");
    assert_eq!(data_dir("/root/"), "/root/.eproxy");
    assert_eq!(data_dir(""), ".eproxy");
    assert_eq!(join("/a", "/etc/x"), "/etc/x");
}

#[test]
fn config_path_choice() {
    assert_eq!(resolve_config_path(Some("/tmp/c.toml"), "/d.toml"), "/tmp/c.toml");
    assert_eq!(resolve_config_path(None, "/d.toml"), "/d.toml");
}

#[test]
fn log_level_default() {
    assert_eq!(default_log_level(), "info");
    assert_eq!(RawLog::default().level, "info");
}

#[test]
fn template_is_a_working_config() {
    let text = default_config_template();
    let table: toml::Table = toml::from_str(&text).expect("template is TOML");
    assert_eq!(table["log"]["level"].as_str(), Some("info"));
    let first = &table["listeners"].as_array().expect("listeners")[0];
    assert_eq!(first["listen"].as_str(), Some(DEFAULT_LISTEN));
    assert_eq!(first["name"].as_str(), Some("default"));
    assert_eq!(first["upstream"].as_str(), Some("https://xxx.domain.com:8443"));
    assert_eq!(first["connect_port"].as_integer(), Some(8443));
    assert!(text.starts_with("# eproxy configuration\n"));
    assert!(text.ends_with("# host_header = \"xxx.domain.com\"\n"));
}

#[test]
fn tls_name_defaults() {
    let (s, h) = tls_names(&None, "up.example".to_string(), &None);
    assert_eq!((s.as_str(), h.as_str()), ("up.example", "up.example"));
    let (s, h) = tls_names(&Some("sni.example".to_string()), "up.example".to_string(), &None);
    assert_eq!((s.as_str(), h.as_str()), ("sni.example", "sni.example"));
    let (s, h) = tls_names(&None, "up.example".to_string(), &Some("h.example".to_string()));
    assert_eq!((s.as_str(), h.as_str()), ("up.example", "h.example"));
}

#[test]
fn unnamed_listeners_get_distinct_names() {
    let entries: Vec<_> = (0..12).map(|_| (listener("https://a.example"), good_addresses())).collect();
    let c = resolve(entries).expect("resolves");
    let names: Vec<&str> = c.listeners.iter().map(|l| l.name.as_str()).collect();
    assert_eq!(names[0], "listener-1");
    assert_eq!(names[9], "listener-10");
    assert_eq!(names[11], "listener-12");
    for i in 0..names.len() {
        for j in 0..i {
            assert_ne!(names[i], names[j]);
        }
    }
}

#[test]
fn named_plain_http_upstream_message() {
    let mut raw = listener("http://api.example.com");
    raw.name = Some("x".to_string());
    raw.connect_port = 443;
    let e = error_of(raw, good_addresses());
    assert_eq!(e.message(), "listener 'x' upstream must use https://");
}

#[test]
fn url_errors_carry_the_crate_message() {
    let e = error_of(listener("xxx.domain.com"), good_addresses());
    assert_eq!(e.cause.as_deref(), Some("relative URL without a base"));
    let mut raw = listener("https://a.example");
    raw.sni = Some("bad name".to_string());
    let e = error_of(raw, good_addresses());
    assert!(e.cause.is_some());
}

#[test]
fn resolved_values_clone() {
    let c = resolve(vec![(listener("https://a.example"), good_addresses())]).expect("resolves");
    let d = c.clone();
    assert_eq!(d.listeners[0].upstream_base, c.listeners[0].upstream_base);
    let l = layout_for_home("/h").clone();
    assert_eq!(l.pid_file, "/h/.eproxy/eproxy.pid");
}

#[test]
fn oversized_server_name_is_refused() {
    let mut raw = listener("https://a.example");
    raw.sni = Some("s".repeat(eproxy::upstream_url::URL_INPUT_LIMIT));
    let e = error_of(raw, good_addresses());
    assert_eq!(e.kind, ConfigErrorKind::UpstreamTooLong);
    assert!(e.cause.is_none());
    assert_eq!(
        e.message(),
        "listener 'listener-1' has an upstream URL or sni too long to edit"
    );
}

#[test]
fn unedited_template_is_refused() {
    let text = default_config_template();
    let table: toml::Table = toml::from_str(&text).expect("template is TOML");
    let entry = &table["listeners"].as_array().expect("listeners")[0];
    let raw = RawListener {
        name: entry["name"].as_str().map(str::to_string),
        listen: entry["listen"].as_str().expect("listen").to_string(),
        upstream: entry["upstream"].as_str().expect("upstream").to_string(),
        connect_ip: entry["connect_ip"].as_str().expect("connect_ip").to_string(),
        connect_port: entry["connect_port"].as_integer().expect("port") as u16,
        sni: None,
        host_header: None,
    };
    assert_eq!(raw.connect_ip, "a.b.c.d");
    let addrs = ParsedAddresses {
        listen: good_addresses().listen,
        connect_ip: Err("invalid IP address syntax".to_string()),
    };
    let e = error_of(raw, addrs);
    assert_eq!(e.kind, ConfigErrorKind::InvalidConnectIp);
    assert_eq!(
        e.message(),
        "listener 'default' has invalid connect_ip: invalid IP address syntax"
    );
}
