use fim_whodata::codec::EVENT_SIZE;
use fim_whodata::codec::encode_event;
use fim_whodata::consumer::ConsumerAction;
use fim_whodata::consumer::FAULT_BACKOFF_MS;
use fim_whodata::consumer::ReadEvent;
use fim_whodata::consumer::consumer_step;
use fim_whodata::consumer::decode_cycle;
use fim_whodata::events::FimOperation;
use fim_whodata::wire::OP_ADD;
use fim_whodata::wire::OP_DELETE;
use fim_whodata::wire::WhoDataEvent;

fn record(timestamp: u64, pid: u32, path: &str, operation: u8) -> Vec<u8> {
    let mut ev = WhoDataEvent::new();
    ev.timestamp = timestamp;
    ev.pid = pid;
    ev.operation = operation;
    for (i, b) in path.as_bytes().iter().enumerate() {
        ev.path[i] = *b;
    }
    ev.path_len = path.len() as u32;
    encode_event(&ev)
}

#[test]
fn cycle_keeps_fill_order_and_skips_short_buffers() {
    let buffers: Vec<Vec<u8>> = vec![
        record(1, 10, "/tmp/a", OP_ADD),
        vec![0u8; 4],
        record(2, 20, "/tmp/b", OP_DELETE),
        vec![0u8; EVENT_SIZE - 1],
    ];
    let events = decode_cycle(&buffers, 4);
    assert_eq!(events.len(), 2);
    assert_eq!(events[0].timestamp, 1);
    assert_eq!(events[0].pid, 10);
    assert_eq!(events[0].path, "/tmp/a");
    assert_eq!(events[0].operation, FimOperation::Add);
    assert_eq!(events[1].timestamp, 2);
    assert_eq!(events[1].path, "/tmp/b");
    assert_eq!(events[1].operation, FimOperation::Delete);
}

#[test]
fn cycle_reads_only_filled_buffers() {
    let buffers: Vec<Vec<u8>> = vec![
        record(1, 10, "/tmp/a", OP_ADD),
        record(2, 20, "/tmp/b", OP_ADD),
        record(3, 30, "/tmp/c", OP_ADD),
    ];
    let events = decode_cycle(&buffers, 1);
    assert_eq!(events.len(), 1);
    assert_eq!(events[0].timestamp, 1);
}

#[test]
fn malformed_path_length_is_discarded_individually() {
    // The wire carries whatever the bytes say; the consumer must discard an
    // out-of-range path length on its own.
    let mut bad_bytes = record(9, 9, "", OP_ADD);
    let good_bytes = record(5, 50, "/tmp/ok", OP_ADD);
    // Patch the path_len field to 300 (= 44 + 256).
    bad_bytes[fim_whodata::codec::PLEN_OFF] = 44;
    bad_bytes[fim_whodata::codec::PLEN_OFF + 1] = 1;
    bad_bytes[fim_whodata::codec::PLEN_OFF + 2] = 0;
    bad_bytes[fim_whodata::codec::PLEN_OFF + 3] = 0;
    let events = decode_cycle(&vec![bad_bytes, good_bytes], 2);
    assert_eq!(events.len(), 1);
    assert_eq!(events[0].pid, 50);
    assert_eq!(events[0].path, "/tmp/ok");
}

#[test]
fn two_cores_decode_independently_in_order() {
    // One cycle per CPU core: each stream yields exactly its own events,
    // each in its core's emission order, none lost.
    let core0: Vec<Vec<u8>> = vec![
        record(100, 1, "/tmp/c0-first", OP_ADD),
        record(200, 1, "/tmp/c0-second", OP_DELETE),
    ];
    let core1: Vec<Vec<u8>> = vec![
        record(150, 2, "/tmp/c1-first", OP_ADD),
        record(250, 2, "/tmp/c1-second", OP_ADD),
    ];
    let ev0 = decode_cycle(&core0, 2);
    let ev1 = decode_cycle(&core1, 2);
    assert_eq!(ev0.len(), 2);
    assert_eq!(ev1.len(), 2);
    assert_eq!(ev0[0].path, "/tmp/c0-first");
    assert_eq!(ev0[1].path, "/tmp/c0-second");
    assert_eq!(ev1[0].path, "/tmp/c1-first");
    assert_eq!(ev1[1].path, "/tmp/c1-second");
    assert!(ev0[0].timestamp < ev0[1].timestamp);
}

#[test]
fn fault_turn_backs_off_fixed_interval_and_never_terminates() {
    let buffers: Vec<Vec<u8>> = vec![record(1, 10, "/tmp/a", OP_ADD)];
    match consumer_step(&buffers, ReadEvent::Fault) {
        ConsumerAction::BackOff(ms) => assert_eq!(ms, FAULT_BACKOFF_MS),
        ConsumerAction::Deliver(_) => panic!("a fault must back off, not deliver"),
    }
}

#[test]
fn cycle_turn_delivers_decoded_events_in_order() {
    let buffers: Vec<Vec<u8>> = vec![
        record(1, 10, "/tmp/a", OP_ADD),
        record(2, 20, "/tmp/b", OP_DELETE),
    ];
    match consumer_step(&buffers, ReadEvent::Cycle { filled: 2 }) {
        ConsumerAction::Deliver(events) => {
            assert_eq!(events.len(), 2);
            assert_eq!(events[0].path, "/tmp/a");
            assert_eq!(events[1].path, "/tmp/b");
        }
        ConsumerAction::BackOff(_) => panic!("a filled cycle must deliver"),
    }
}

#[test]
fn unknown_tag_reaches_callback_as_modify() {
    let buffers = vec![record(7, 70, "/tmp/odd", 99)];
    let events = decode_cycle(&buffers, 1);
    assert_eq!(events.len(), 1);
    assert_eq!(events[0].operation, FimOperation::Modify);
}
