use eproxy::install::{service_path, shell_escape, systemd_unit, systemd_user_dir};

#[test]
fn escapes_only_when_needed() {
    assert_eq!(shell_escape("/usr/local/bin/eproxy"), "/usr/local/bin/eproxy");
    assert_eq!(shell_escape("a-b_c.d:e/F9"), "a-b_c.d:e/F9");
    assert_eq!(shell_escape("/home/me/My Files/eproxy"), "\"/home/me/My Files/eproxy\"");
    assert_eq!(shell_escape("say \"hi\""), "\"say \\\"hi\\\"\"");
    assert_eq!(shell_escape(""), "");
}

#[test]
fn escaping_keeps_values_apart() {
    let a = shell_escape("a\\\"");
    let b = shell_escape("a\"");
    assert_ne!(a, b);
    assert_ne!(shell_escape("\"x\""), shell_escape("x"));
}

#[test]
fn unit_file_text() {
    let unit = systemd_unit("/opt/eproxy", "/home/me/.eproxy/config.toml");
    assert_eq!(
        unit,
        "[Unit]\nDescription=eproxy local SNI forwarder\nAfter=network-online.target\nWants=network-online.target\n\n[Service]\nType=simple\nExecStart=/opt/eproxy run --config /home/me/.eproxy/config.toml\nRestart=always\nRestartSec=2\n\n[Install]\nWantedBy=default.target\n"
    );
    let unit = systemd_unit("/opt/e proxy", "/c.toml");
    assert!(unit.contains("ExecStart=\"/opt/e proxy\" run --config /c.toml\n"));
}

#[test]
fn unit_location() {
    assert_eq!(systemd_user_dir("/home/me"), "/home/me/.config/systemd/user");
    assert_eq!(
        service_path("/home/me/"),
        "/home/me/.config/systemd/user/eproxy.service"
    );
}

fn unquote(s: &str) -> String {
    if s.len() >= 2 && s.starts_with('"') {
        s[1..s.len() - 1].replace("\\\"", "\"")
    } else {
        s.to_string()
    }
}

#[test]
fn written_values_read_back() {
    for v in ["/usr/bin/eproxy", "", "/a b/c", "say \"hi\"", "a\\\"b", "\"", "tab\there"] {
        let q = shell_escape(v);
        assert_eq!(unquote(&q), v, "{q}");
        if v.chars().any(|c| c.is_whitespace() || c == '"') {
            assert!(q.starts_with('"') && q.ends_with('"') && q.len() >= 2);
        }
    }
}
