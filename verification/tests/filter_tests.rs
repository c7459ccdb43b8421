use fim_whodata::filter::MonitoredPathSet;
use fim_whodata::filter::make_path_key;

fn padded(path: &str) -> Vec<u8> {
    let bytes: Vec<u8> = path.as_bytes().to_vec();
    make_path_key(&bytes)
}

#[test]
fn exact_registered_path_matches() {
    let mut set = MonitoredPathSet::new();
    let key = padded("/opt/data");
    set.register(key.clone());
    assert!(set.is_path_monitored(&key));
}

#[test]
fn exact_match_outside_roots_only() {
    // A prefix registered outside the five hardcoded roots is honoured only
    // for exact matches, never via the prefix branch.
    let mut set = MonitoredPathSet::new();
    set.register(padded("/opt/data"));
    assert!(set.is_path_monitored(&padded("/opt/data")));
    assert!(!set.is_path_monitored(&padded("/opt/data/file")));
}

#[test]
fn path_under_registered_root_matches() {
    let mut set = MonitoredPathSet::new();
    set.register(padded("/tmp"));
    assert!(set.is_path_monitored(&padded("/tmp/x")));
    assert!(set.is_path_monitored(&padded("/tmp")));
}

#[test]
fn path_under_unregistered_root_does_not_match() {
    let mut set = MonitoredPathSet::new();
    set.register(padded("/tmp"));
    assert!(!set.is_path_monitored(&padded("/etc/passwd")));
    assert!(!set.is_path_monitored(&padded("/var/log/syslog")));
}

#[test]
fn non_root_prefix_registration_does_not_cover_children() {
    let mut set = MonitoredPathSet::new();
    set.register(padded("/home/user"));
    // Exact key: matches.
    assert!(set.is_path_monitored(&padded("/home/user")));
    // Child of the registered prefix: the prefix branch only consults the
    // five roots, and the root key `/home` itself was never registered.
    assert!(!set.is_path_monitored(&padded("/home/user/file")));
}

#[test]
fn all_five_roots_work_as_prefixes() {
    for root in ["/tmp", "/etc", "/home", "/var", "/usr"] {
        let mut set = MonitoredPathSet::new();
        set.register(padded(root));
        let child = format!("{}/child", root);
        assert!(set.is_path_monitored(&padded(&child)), "{}", root);
    }
}

#[test]
fn empty_path_never_matches() {
    let mut set = MonitoredPathSet::new();
    set.register(padded("/tmp"));
    let empty = padded("");
    assert!(!set.is_path_monitored(&empty));
}

#[test]
fn nothing_registered_nothing_matches() {
    let set = MonitoredPathSet::new();
    assert!(!set.is_path_monitored(&padded("/tmp/x")));
    assert!(!set.is_path_monitored(&padded("/etc/passwd")));
}

#[test]
fn non_utf8_path_skips_prefix_branch() {
    let mut set = MonitoredPathSet::new();
    set.register(padded("/tmp"));
    let mut bad: Vec<u8> = b"/tmp/".to_vec();
    bad.push(0xFF);
    bad.push(0xFE);
    let bad_key = make_path_key(&bad);
    assert!(!set.is_path_monitored(&bad_key));
    // Registered exactly, the same bytes do match: the exact branch runs
    // before the UTF-8 interpretation.
    set.register(bad_key.clone());
    assert!(set.is_path_monitored(&bad_key));
}

#[test]
fn add_monitor_path_pads_like_register() {
    let mut a = MonitoredPathSet::new();
    a.add_monitor_path(&b"/tmp".to_vec());
    let mut b = MonitoredPathSet::new();
    b.register(padded("/tmp"));
    for q in ["/tmp", "/tmp/x", "/etc/x", "/other"] {
        assert_eq!(a.is_path_monitored(&padded(q)), b.is_path_monitored(&padded(q)), "{}", q);
    }
}

#[test]
fn registration_is_idempotent() {
    let mut set = MonitoredPathSet::new();
    set.register(padded("/tmp"));
    set.register(padded("/tmp"));
    assert!(set.is_path_monitored(&padded("/tmp/x")));
}

#[test]
fn key_truncates_to_width() {
    let long: Vec<u8> = vec![b'a'; 400];
    let key = make_path_key(&long);
    assert_eq!(key.len(), 256);
    assert_eq!(key[254], b'a');
    assert_eq!(key[255], 0);
}

#[test]
fn utf8_checker_agrees_with_std() {
    let samples: Vec<Vec<u8>> = vec![
        b"/tmp/plain".to_vec(),
        "caf\u{e9}/\u{4e2d}\u{6587}".as_bytes().to_vec(),
        vec![0xC0, 0xAF],
        vec![0xED, 0xA0, 0x80],
        vec![0xF4, 0x90, 0x80, 0x80],
        vec![0xE2, 0x82],
        vec![0x80],
        vec![],
    ];
    for s in samples {
        assert_eq!(
            fim_whodata::filter::check_utf8(&s),
            std::str::from_utf8(&s).is_ok(),
            "{:?}",
            s
        );
    }
}
