//! Binary layout of one wire record. Userspace reinterprets raw
//! kernel-written bytes without any deserialization step, so the layout is
//! the C layout of the `repr(C)` record the probes emit, byte for byte:
//! little-endian scalars, both buffers at full capacity, seven alignment
//! padding bytes between the one-byte operation tag and the 8-aligned
//! inode, and four trailing padding bytes that round the record up to its
//! 8-byte alignment. The whole record occupies exactly `EVENT_SIZE` bytes.

use vstd::prelude::*;

use crate::wire::COMM_CAP;
use crate::wire::PATH_CAP;
use crate::wire::WhoDataEvent;
use crate::wire::WhoDataEventView;

verus! {

pub const TS_OFF: usize = 0;
pub const PID_OFF: usize = 8;
pub const TID_OFF: usize = 12;
pub const UID_OFF: usize = 16;
pub const GID_OFF: usize = 20;
pub const PATH_OFF: usize = 24;
pub const OP_OFF: usize = PATH_OFF + PATH_CAP;

/// Alignment padding between the operation byte and the 8-aligned inode.
pub const OP_PAD: usize = 7;

/// Trailing padding that rounds the record up to its 8-byte alignment.
pub const TAIL_PAD: usize = 4;

pub const INODE_OFF: usize = OP_OFF + 1 + OP_PAD;
pub const COMM_OFF: usize = INODE_OFF + 8;
pub const PLEN_OFF: usize = COMM_OFF + COMM_CAP;

/// Total size of one encoded record; the restricted producer context caps
/// a record at 512 bytes, which this layout respects.
pub const EVENT_SIZE: usize = PLEN_OFF + 4 + TAIL_PAD;

/// A run of `n` padding bytes, all zero.
pub open spec fn pad_bytes(n: nat) -> Seq<u8> {
    Seq::new(n, |i: int| 0u8)
}

/// The restricted producer context caps one record at 512 bytes; the
/// layout stays within it.
pub proof fn lemma_event_size_bounded()
    ensures
        EVENT_SIZE <= 512,
{
}

/// The little-endian bytes of a `u64`.
pub open spec fn u64_le(x: u64) -> Seq<u8> {
    seq![
        (x & 0xFF) as u8,
        ((x >> 8) & 0xFF) as u8,
        ((x >> 16) & 0xFF) as u8,
        ((x >> 24) & 0xFF) as u8,
        ((x >> 32) & 0xFF) as u8,
        ((x >> 40) & 0xFF) as u8,
        ((x >> 48) & 0xFF) as u8,
        ((x >> 56) & 0xFF) as u8,
    ]
}

/// The little-endian bytes of a `u32`.
pub open spec fn u32_le(x: u32) -> Seq<u8> {
    seq![
        (x & 0xFF) as u8,
        ((x >> 8) & 0xFF) as u8,
        ((x >> 16) & 0xFF) as u8,
        ((x >> 24) & 0xFF) as u8,
    ]
}

/// The `u64` read from eight little-endian bytes.
pub open spec fn u64_of_le(b: Seq<u8>) -> u64
    recommends
        b.len() == 8,
{
    (b[0] as u64) | ((b[1] as u64) << 8) | ((b[2] as u64) << 16) | ((b[3] as u64) << 24)
        | ((b[4] as u64) << 32) | ((b[5] as u64) << 40) | ((b[6] as u64) << 48)
        | ((b[7] as u64) << 56)
}

/// The `u32` read from four little-endian bytes.
pub open spec fn u32_of_le(b: Seq<u8>) -> u32
    recommends
        b.len() == 4,
{
    (b[0] as u32) | ((b[1] as u32) << 8) | ((b[2] as u32) << 16) | ((b[3] as u32) << 24)
}

/// The encoded bytes of one record, padding included.
pub open spec fn spec_encode(v: WhoDataEventView) -> Seq<u8> {
    u64_le(v.timestamp) + u32_le(v.pid) + u32_le(v.tid) + u32_le(v.uid) + u32_le(v.gid) + v.path
        + seq![v.operation] + pad_bytes(OP_PAD as nat) + u64_le(v.inode) + v.process_name
        + u32_le(v.path_len) + pad_bytes(TAIL_PAD as nat)
}

/// The record read back from an encoded buffer's leading `EVENT_SIZE` bytes.
pub open spec fn spec_decode(b: Seq<u8>) -> WhoDataEventView
    recommends
        b.len() >= EVENT_SIZE,
{
    WhoDataEventView {
        timestamp: u64_of_le(b.subrange(TS_OFF as int, TS_OFF + 8)),
        pid: u32_of_le(b.subrange(PID_OFF as int, PID_OFF + 4)),
        tid: u32_of_le(b.subrange(TID_OFF as int, TID_OFF + 4)),
        uid: u32_of_le(b.subrange(UID_OFF as int, UID_OFF + 4)),
        gid: u32_of_le(b.subrange(GID_OFF as int, GID_OFF + 4)),
        path: b.subrange(PATH_OFF as int, PATH_OFF + PATH_CAP),
        operation: b[OP_OFF as int],
        inode: u64_of_le(b.subrange(INODE_OFF as int, INODE_OFF + 8)),
        process_name: b.subrange(COMM_OFF as int, COMM_OFF + COMM_CAP),
        path_len: u32_of_le(b.subrange(PLEN_OFF as int, PLEN_OFF + 4)),
    }
}

fn push_u64_le(out: &mut Vec<u8>, x: u64)
    ensures
        final(out)@ == old(out)@ + u64_le(x),
{
    out.push((x & 0xFF) as u8);
    out.push(((x >> 8) & 0xFF) as u8);
    out.push(((x >> 16) & 0xFF) as u8);
    out.push(((x >> 24) & 0xFF) as u8);
    out.push(((x >> 32) & 0xFF) as u8);
    out.push(((x >> 40) & 0xFF) as u8);
    out.push(((x >> 48) & 0xFF) as u8);
    out.push(((x >> 56) & 0xFF) as u8);
    proof {
        assert(out@ =~= old(out)@ + u64_le(x));
    }
}

fn push_u32_le(out: &mut Vec<u8>, x: u32)
    ensures
        final(out)@ == old(out)@ + u32_le(x),
{
    out.push((x & 0xFF) as u8);
    out.push(((x >> 8) & 0xFF) as u8);
    out.push(((x >> 16) & 0xFF) as u8);
    out.push(((x >> 24) & 0xFF) as u8);
    proof {
        assert(out@ =~= old(out)@ + u32_le(x));
    }
}

fn push_bytes(out: &mut Vec<u8>, src: &Vec<u8>)
    ensures
        final(out)@ == old(out)@ + src@,
{
    let mut i: usize = 0;
    while i < src.len()
        invariant
            i <= src.len(),
            out@ == old(out)@ + src@.take(i as int),
        decreases src.len() - i,
    {
        out.push(src[i]);
        i = i + 1;
        proof {
            assert(out@ =~= old(out)@ + src@.take(i as int));
        }
    }
    proof {
        assert(src@.take(src@.len() as int) =~= src@);
    }
}

fn push_zeros(out: &mut Vec<u8>, n: usize)
    ensures
        final(out)@ == old(out)@ + pad_bytes(n as nat),
{
    let mut i: usize = 0;
    while i < n
        invariant
            i <= n,
            out@ == old(out)@ + pad_bytes(i as nat),
        decreases n - i,
    {
        out.push(0u8);
        i = i + 1;
        proof {
            assert(out@ =~= old(out)@ + pad_bytes(i as nat));
        }
    }
}

fn read_u64_le(b: &Vec<u8>, off: usize) -> (r: u64)
    requires
        off + 8 <= b.len(),
    ensures
        r == u64_of_le(b@.subrange(off as int, off + 8)),
{
    let r = (b[off] as u64) | ((b[off + 1] as u64) << 8u64) | ((b[off + 2] as u64) << 16u64)
        | ((b[off + 3] as u64) << 24u64) | ((b[off + 4] as u64) << 32u64)
        | ((b[off + 5] as u64) << 40u64) | ((b[off + 6] as u64) << 48u64)
        | ((b[off + 7] as u64) << 56u64);
    proof {
        let s = b@.subrange(off as int, off + 8);
        assert(forall|k: int| 0 <= k < 8 ==> s[k] == b@[off + k]);
    }
    r
}

fn read_u32_le(b: &Vec<u8>, off: usize) -> (r: u32)
    requires
        off + 4 <= b.len(),
    ensures
        r == u32_of_le(b@.subrange(off as int, off + 4)),
{
    let r = (b[off] as u32) | ((b[off + 1] as u32) << 8u32) | ((b[off + 2] as u32) << 16u32)
        | ((b[off + 3] as u32) << 24u32);
    proof {
        let s = b@.subrange(off as int, off + 4);
        assert(forall|k: int| 0 <= k < 4 ==> s[k] == b@[off + k]);
    }
    r
}

fn copy_range(b: &Vec<u8>, off: usize, n: usize) -> (r: Vec<u8>)
    requires
        off + n <= b.len(),
    ensures
        r@ == b@.subrange(off as int, off + n),
{
    let mut r: Vec<u8> = Vec::new();
    let mut i: usize = 0;
    while i < n
        invariant
            i <= n,
            off + n <= b.len(),
            r@ == b@.subrange(off as int, off + i),
        decreases n - i,
    {
        r.push(b[off + i]);
        i = i + 1;
        proof {
            assert(r@ =~= b@.subrange(off as int, off + i));
        }
    }
    r
}

/// Encode one well-formed record into its `EVENT_SIZE`-byte wire form.
pub fn encode_event(ev: &WhoDataEvent) -> (r: Vec<u8>)
    requires
        ev@.wf(),
    ensures
        r@ == spec_encode(ev@),
        r@.len() == EVENT_SIZE,
{
    let mut out: Vec<u8> = Vec::new();
    push_u64_le(&mut out, ev.timestamp);
    push_u32_le(&mut out, ev.pid);
    push_u32_le(&mut out, ev.tid);
    push_u32_le(&mut out, ev.uid);
    push_u32_le(&mut out, ev.gid);
    push_bytes(&mut out, &ev.path);
    out.push(ev.operation);
    push_zeros(&mut out, OP_PAD);
    push_u64_le(&mut out, ev.inode);
    push_bytes(&mut out, &ev.process_name);
    push_u32_le(&mut out, ev.path_len);
    push_zeros(&mut out, TAIL_PAD);
    proof {
        assert(out@ =~= spec_encode(ev@));
    }
    out
}

/// Decode the leading `EVENT_SIZE` bytes of a buffer into a record; a buffer
/// shorter than one record never yields anything.
pub fn decode_event(buf: &Vec<u8>) -> (r: Option<WhoDataEvent>)
    ensures
        buf@.len() < EVENT_SIZE <==> r is None,
        buf@.len() >= EVENT_SIZE ==> (r matches Some(ev) && ev@ == spec_decode(buf@)),
{
    if buf.len() < EVENT_SIZE {
        return None;
    }
    let ev = WhoDataEvent {
        timestamp: read_u64_le(buf, TS_OFF),
        pid: read_u32_le(buf, PID_OFF),
        tid: read_u32_le(buf, TID_OFF),
        uid: read_u32_le(buf, UID_OFF),
        gid: read_u32_le(buf, GID_OFF),
        path: copy_range(buf, PATH_OFF, PATH_CAP),
        operation: buf[OP_OFF],
        inode: read_u64_le(buf, INODE_OFF),
        process_name: copy_range(buf, COMM_OFF, COMM_CAP),
        path_len: read_u32_le(buf, PLEN_OFF),
    };
    proof {
        assert(ev@ =~= spec_decode(buf@));
    }
    Some(ev)
}

proof fn lemma_u64_le_roundtrip(x: u64)
    ensures
        u64_of_le(u64_le(x)) == x,
{
    let s = u64_le(x);
    assert(s[0] == (x & 0xFF) as u8);
    assert(s[1] == ((x >> 8) & 0xFF) as u8);
    assert(s[2] == ((x >> 16) & 0xFF) as u8);
    assert(s[3] == ((x >> 24) & 0xFF) as u8);
    assert(s[4] == ((x >> 32) & 0xFF) as u8);
    assert(s[5] == ((x >> 40) & 0xFF) as u8);
    assert(s[6] == ((x >> 48) & 0xFF) as u8);
    assert(s[7] == ((x >> 56) & 0xFF) as u8);
    assert((((x & 0xFF) as u8) as u64) | ((((x >> 8) & 0xFF) as u8) as u64) << 8
        | ((((x >> 16) & 0xFF) as u8) as u64) << 16 | ((((x >> 24) & 0xFF) as u8) as u64) << 24
        | ((((x >> 32) & 0xFF) as u8) as u64) << 32 | ((((x >> 40) & 0xFF) as u8) as u64) << 40
        | ((((x >> 48) & 0xFF) as u8) as u64) << 48 | ((((x >> 56) & 0xFF) as u8) as u64) << 56
        == x) by (bit_vector);
}

proof fn lemma_u32_le_roundtrip(x: u32)
    ensures
        u32_of_le(u32_le(x)) == x,
{
    let s = u32_le(x);
    assert(s[0] == (x & 0xFF) as u8);
    assert(s[1] == ((x >> 8) & 0xFF) as u8);
    assert(s[2] == ((x >> 16) & 0xFF) as u8);
    assert(s[3] == ((x >> 24) & 0xFF) as u8);
    assert((((x & 0xFF) as u8) as u32) | ((((x >> 8) & 0xFF) as u8) as u32) << 8
        | ((((x >> 16) & 0xFF) as u8) as u32) << 16 | ((((x >> 24) & 0xFF) as u8) as u32) << 24
        == x) by (bit_vector);
}

/// Binary round-trip identity: decoding the encoding of any well-formed
/// record gives back the record, field for field.
pub proof fn lemma_event_roundtrip(v: WhoDataEventView)
    requires
        v.wf(),
    ensures
        spec_encode(v).len() == EVENT_SIZE,
        spec_decode(spec_encode(v)) == v,
{
    let e = spec_encode(v);
    assert(e.len() == EVENT_SIZE);
    assert(e.subrange(TS_OFF as int, TS_OFF + 8) =~= u64_le(v.timestamp));
    assert(e.subrange(PID_OFF as int, PID_OFF + 4) =~= u32_le(v.pid));
    assert(e.subrange(TID_OFF as int, TID_OFF + 4) =~= u32_le(v.tid));
    assert(e.subrange(UID_OFF as int, UID_OFF + 4) =~= u32_le(v.uid));
    assert(e.subrange(GID_OFF as int, GID_OFF + 4) =~= u32_le(v.gid));
    assert(e.subrange(PATH_OFF as int, PATH_OFF + PATH_CAP) =~= v.path);
    assert(e[OP_OFF as int] == v.operation);
    assert(e.subrange(INODE_OFF as int, INODE_OFF + 8) =~= u64_le(v.inode));
    assert(e.subrange(COMM_OFF as int, COMM_OFF + COMM_CAP) =~= v.process_name);
    assert(e.subrange(PLEN_OFF as int, PLEN_OFF + 4) =~= u32_le(v.path_len));
    lemma_u64_le_roundtrip(v.timestamp);
    lemma_u32_le_roundtrip(v.pid);
    lemma_u32_le_roundtrip(v.tid);
    lemma_u32_le_roundtrip(v.uid);
    lemma_u32_le_roundtrip(v.gid);
    lemma_u64_le_roundtrip(v.inode);
    lemma_u32_le_roundtrip(v.path_len);
    assert(spec_decode(e) =~= v);
}

} // verus!
