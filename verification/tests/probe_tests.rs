use fim_whodata::filter::MonitoredPathSet;
use fim_whodata::filter::make_path_key;
use fim_whodata::probe::CREATE_FLAG;
use fim_whodata::probe::handle_openat_entry;
use fim_whodata::probe::handle_unlinkat_entry;
use fim_whodata::wire::OP_ADD;
use fim_whodata::wire::OP_DELETE;
use fim_whodata::wire::OP_MODIFY;
use fim_whodata::wire::OP_RENAME;

fn padded(path: &str) -> Vec<u8> {
    make_path_key(&path.as_bytes().to_vec())
}

fn comm(name: &str) -> Vec<u8> {
    let mut v = name.as_bytes().to_vec();
    v.truncate(15);
    v.resize(16, 0);
    v
}

fn tmp_set() -> MonitoredPathSet {
    let mut set = MonitoredPathSet::new();
    set.register(padded("/tmp"));
    set
}

#[test]
fn create_under_registered_root_emits_one_add_event() {
    let set = tmp_set();
    let pid_tgid: u64 = (1234u64 << 32) | 5678;
    let uid_gid: u64 = (2000u64 << 32) | 1000;
    let ev = handle_openat_entry(
        &set,
        &padded("/tmp/x"),
        6,
        CREATE_FLAG,
        42_000,
        pid_tgid,
        uid_gid,
        &comm("touch"),
    )
    .expect("exactly one event");
    assert_eq!(ev.operation, OP_ADD);
    assert_eq!(ev.timestamp, 42_000);
    assert_eq!(ev.pid, 1234);
    assert_eq!(ev.tid, 5678);
    assert_eq!(ev.uid, 1000);
    assert_eq!(ev.gid, 2000);
    assert_eq!(ev.path, padded("/tmp/x"));
    assert_eq!(ev.path_len, 6);
    assert_eq!(ev.inode, 0);
    assert_eq!(ev.process_name, comm("touch"));
}

#[test]
fn open_without_create_flag_is_modify() {
    let set = tmp_set();
    let ev = handle_openat_entry(&set, &padded("/tmp/x"), 6, 0, 1, 0, 0, &comm("cat"))
        .expect("exactly one event");
    assert_eq!(ev.operation, OP_MODIFY);
    // Write-only without O_CREAT still modifies.
    let ev = handle_openat_entry(&set, &padded("/tmp/x"), 6, 0x241 & !CREATE_FLAG, 1, 0, 0, &comm("cat"))
        .expect("exactly one event");
    assert_eq!(ev.operation, OP_MODIFY);
}

#[test]
fn delete_under_registered_root_emits_one_delete_event() {
    let set = tmp_set();
    let ev = handle_unlinkat_entry(
        &set,
        &padded("/tmp/x"),
        6,
        99_000,
        (7u64 << 32) | 8,
        (10u64 << 32) | 9,
        &comm("rm"),
    )
    .expect("exactly one event");
    assert_eq!(ev.operation, OP_DELETE);
    assert_eq!(ev.path, padded("/tmp/x"));
    assert_eq!(ev.path_len, 6);
    assert_eq!(ev.pid, 7);
    assert_eq!(ev.tid, 8);
    assert_eq!(ev.uid, 9);
    assert_eq!(ev.gid, 10);
}

#[test]
fn nothing_registered_no_events() {
    let set = MonitoredPathSet::new();
    assert!(handle_openat_entry(&set, &padded("/tmp/x"), 6, CREATE_FLAG, 1, 2, 3, &comm("touch"))
        .is_none());
    assert!(handle_unlinkat_entry(&set, &padded("/tmp/x"), 6, 1, 2, 3, &comm("rm")).is_none());
}

#[test]
fn empty_or_overflowing_copy_is_silent_noop() {
    let set = tmp_set();
    assert!(handle_openat_entry(&set, &padded("/tmp/x"), 0, CREATE_FLAG, 1, 2, 3, &comm("t"))
        .is_none());
    assert!(handle_openat_entry(&set, &padded("/tmp/x"), 256, CREATE_FLAG, 1, 2, 3, &comm("t"))
        .is_none());
    assert!(handle_unlinkat_entry(&set, &padded("/tmp/x"), 0, 1, 2, 3, &comm("rm")).is_none());
    assert!(handle_unlinkat_entry(&set, &padded("/tmp/x"), 256, 1, 2, 3, &comm("rm")).is_none());
}

#[test]
fn no_probe_event_ever_carries_rename() {
    let set = tmp_set();
    for flags in [0, 1, CREATE_FLAG, 0x241, -1, i32::MIN, i32::MAX] {
        if let Some(ev) =
            handle_openat_entry(&set, &padded("/tmp/x"), 6, flags, 1, 2, 3, &comm("p"))
        {
            assert_ne!(ev.operation, OP_RENAME);
        }
    }
    let ev = handle_unlinkat_entry(&set, &padded("/tmp/x"), 6, 1, 2, 3, &comm("p")).unwrap();
    assert_ne!(ev.operation, OP_RENAME);
}
