use eproxy::daemon::{parse_pid, pid_file_contents, process_exists};

#[test]
fn reads_pid_files() {
    assert_eq!(parse_pid("1234"), Some(1234));
    assert_eq!(parse_pid(" 1234\n"), Some(1234));
    assert_eq!(parse_pid("+5"), Some(5));
    assert_eq!(parse_pid("4294967295"), Some(u32::MAX));
    assert_eq!(parse_pid("4294967296"), None);
    assert_eq!(parse_pid("99999999999999999999"), None);
    assert_eq!(parse_pid("-5"), None);
    assert_eq!(parse_pid("+"), None);
    assert_eq!(parse_pid(""), None);
    assert_eq!(parse_pid("   "), None);
    assert_eq!(parse_pid("12a"), None);
    assert_eq!(parse_pid("1 2"), None);
}

#[test]
fn pid_file_round_trips() {
    for pid in [0u32, 1, 42, 65535, 1_000_000, u32::MAX] {
        let written = pid_file_contents(pid);
        assert_eq!(written, pid.to_string());
        assert_eq!(parse_pid(&written), Some(pid));
    }
}

#[test]
fn process_liveness_from_kill() {
    let eperm = 1;
    assert!(process_exists(0, None, eperm));
    assert!(process_exists(-1, Some(eperm), eperm));
    assert!(!process_exists(-1, Some(3), eperm));
    assert!(!process_exists(-1, None, eperm));
}
