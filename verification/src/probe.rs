//! Probe-entry logic: from the raw arguments a syscall-entry probe can read
//! (the copied path buffer, the flags word, the packed pid/tgid and uid/gid
//! identifiers, the clock and the task's short name) decide whether an event
//! is emitted and, when it is, populate the full wire record. An empty or
//! overflowing path copy, or an unmonitored path, is a silent no-op: the
//! observed syscall is never altered or failed.

use vstd::prelude::*;

use crate::filter::MonitoredPathSet;
use crate::filter::spec_path_monitored;
use crate::wire::COMM_CAP;
use crate::wire::OP_ADD;
use crate::wire::OP_DELETE;
use crate::wire::OP_MODIFY;
use crate::wire::OP_RENAME;
use crate::wire::PATH_CAP;
use crate::wire::WhoDataEvent;

verus! {

/// The creation bit of the open-flags word (`O_CREAT`).
pub const CREATE_FLAG: i32 = 0x40;

/// A faithful copy of a byte buffer.
pub fn copy_bytes(src: &Vec<u8>) -> (r: Vec<u8>)
    ensures
        r@ == src@,
{
    let mut r: Vec<u8> = Vec::new();
    let mut i: usize = 0;
    while i < src.len()
        invariant
            i <= src@.len(),
            r@ == src@.take(i as int),
        decreases src@.len() - i,
    {
        r.push(src[i]);
        i = i + 1;
        proof {
            assert(r@ =~= src@.take(i as int));
        }
    }
    proof {
        assert(src@.take(src@.len() as int) =~= src@);
    }
    r
}

/// The scalar fields every emitted record carries, however it was produced:
/// pid and tid unpacked from the high and low halves of the pid/tgid word,
/// uid and gid from the low and high halves of the credential word, the
/// inode left unset.
pub open spec fn spec_common_fields(
    ev: crate::wire::WhoDataEventView,
    path_buf: Seq<u8>,
    path_len: usize,
    timestamp: u64,
    pid_tgid: u64,
    uid_gid: u64,
    comm: Seq<u8>,
) -> bool {
    &&& ev.timestamp == timestamp
    &&& ev.pid == (pid_tgid >> 32) as u32
    &&& ev.tid == (pid_tgid & 0xFFFFFFFF) as u32
    &&& ev.uid == (uid_gid & 0xFFFFFFFF) as u32
    &&& ev.gid == (uid_gid >> 32) as u32
    &&& ev.path == path_buf
    &&& ev.path_len == path_len
    &&& ev.inode == 0
    &&& ev.process_name == comm
    &&& ev.wf()
}

/// Entry logic of the create/modify probe. Emits a record exactly when the
/// copied path is non-empty, fits the buffer, and is monitored; the
/// operation is `Add` when the creation flag is set, else `Modify`, and is
/// never `Rename`.
///
/// `path_len` counts the path bytes only, the terminating NUL excluded: it
/// is the length of the decoded path a consumer will see. A string-copy
/// helper that reports a NUL-inclusive count must have the terminator
/// subtracted before the call.
pub fn handle_openat_entry(
    set: &MonitoredPathSet,
    path_buf: &Vec<u8>,
    path_len: usize,
    flags: i32,
    timestamp: u64,
    pid_tgid: u64,
    uid_gid: u64,
    comm: &Vec<u8>,
) -> (r: Option<WhoDataEvent>)
    requires
        path_buf@.len() == PATH_CAP,
        comm@.len() == COMM_CAP,
    ensures
        (r is Some) <==> (0 < path_len < PATH_CAP && spec_path_monitored(set@, path_buf@)),
        r matches Some(ev) ==> {
            &&& spec_common_fields(ev@, path_buf@, path_len, timestamp, pid_tgid, uid_gid, comm@)
            &&& ev@.operation == (if flags & CREATE_FLAG != 0 {
                OP_ADD
            } else {
                OP_MODIFY
            })
            &&& ev@.operation != OP_RENAME
        },
{
    if path_len == 0 || path_len >= PATH_CAP {
        return None;
    }
    if !set.is_path_monitored(path_buf) {
        return None;
    }
    let mut ev = WhoDataEvent::new();
    ev.timestamp = timestamp;
    ev.pid = (pid_tgid >> 32u64) as u32;
    ev.tid = (pid_tgid & 0xFFFFFFFF) as u32;
    ev.uid = (uid_gid & 0xFFFFFFFF) as u32;
    ev.gid = (uid_gid >> 32u64) as u32;
    ev.path = copy_bytes(path_buf);
    ev.path_len = path_len as u32;
    ev.operation = if flags & CREATE_FLAG != 0 {
        OP_ADD
    } else {
        OP_MODIFY
    };
    ev.process_name = copy_bytes(comm);
    Some(ev)
}

/// Entry logic of the delete probe. The same path-copy and filter gate as
/// the create/modify probe; the operation is unconditionally `Delete`.
///
/// As for the create/modify probe, `path_len` counts the path bytes only,
/// the terminating NUL excluded.
pub fn handle_unlinkat_entry(
    set: &MonitoredPathSet,
    path_buf: &Vec<u8>,
    path_len: usize,
    timestamp: u64,
    pid_tgid: u64,
    uid_gid: u64,
    comm: &Vec<u8>,
) -> (r: Option<WhoDataEvent>)
    requires
        path_buf@.len() == PATH_CAP,
        comm@.len() == COMM_CAP,
    ensures
        (r is Some) <==> (0 < path_len < PATH_CAP && spec_path_monitored(set@, path_buf@)),
        r matches Some(ev) ==> {
            &&& spec_common_fields(ev@, path_buf@, path_len, timestamp, pid_tgid, uid_gid, comm@)
            &&& ev@.operation == OP_DELETE
            &&& ev@.operation != OP_RENAME
        },
{
    if path_len == 0 || path_len >= PATH_CAP {
        return None;
    }
    if !set.is_path_monitored(path_buf) {
        return None;
    }
    let mut ev = WhoDataEvent::new();
    ev.timestamp = timestamp;
    ev.pid = (pid_tgid >> 32u64) as u32;
    ev.tid = (pid_tgid & 0xFFFFFFFF) as u32;
    ev.uid = (uid_gid & 0xFFFFFFFF) as u32;
    ev.gid = (uid_gid >> 32u64) as u32;
    ev.path = copy_bytes(path_buf);
    ev.path_len = path_len as u32;
    ev.operation = OP_DELETE;
    ev.process_name = copy_bytes(comm);
    Some(ev)
}

} // verus!
