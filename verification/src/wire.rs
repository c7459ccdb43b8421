//! The wire form of one filesystem-mutation event, shared between the
//! kernel-resident producers and the userspace consumers: fixed-capacity
//! buffers, an explicit path-length field, and a one-byte operation tag.

use vstd::prelude::*;

verus! {

/// Capacity of the fixed path buffer; a recorded path is always shorter.
pub const PATH_CAP: usize = 256;

/// Capacity of the fixed process-name buffer.
pub const COMM_CAP: usize = 16;

/// Operation tag: a file was created.
pub const OP_ADD: u8 = 0;
/// Operation tag: an existing file was opened for modification.
pub const OP_MODIFY: u8 = 1;
/// Operation tag: a directory entry was removed.
pub const OP_DELETE: u8 = 2;
/// Operation tag: reserved for renames; never emitted by the current probes.
pub const OP_RENAME: u8 = 3;

/// Mathematical model of one wire record: the scalar fields as they stand,
/// the fixed buffers as byte sequences.
#[verifier::ext_equal]
pub struct WhoDataEventView {
    pub timestamp: u64,
    pub pid: u32,
    pub tid: u32,
    pub uid: u32,
    pub gid: u32,
    pub path: Seq<u8>,
    pub operation: u8,
    pub inode: u64,
    pub process_name: Seq<u8>,
    pub path_len: u32,
}

impl WhoDataEventView {
    /// Well-formedness of a record: full-capacity buffers and a recorded
    /// path length strictly below the path buffer's capacity.
    pub open spec fn wf(self) -> bool {
        &&& self.path.len() == PATH_CAP
        &&& self.process_name.len() == COMM_CAP
        &&& self.path_len < PATH_CAP
    }

    /// The all-zero record that `WhoDataEvent::new` returns.
    pub open spec fn zeroed() -> WhoDataEventView {
        WhoDataEventView {
            timestamp: 0,
            pid: 0,
            tid: 0,
            uid: 0,
            gid: 0,
            path: Seq::new(PATH_CAP as nat, |i: int| 0u8),
            operation: 0,
            inode: 0,
            process_name: Seq::new(COMM_CAP as nat, |i: int| 0u8),
            path_len: 0,
        }
    }
}

/// One filesystem-mutation observation in its wire form: fixed layout, no
/// heap-dependent variance beyond the two fixed-capacity buffers.
#[derive(Clone, Debug)]
pub struct WhoDataEvent {
    pub timestamp: u64,
    pub pid: u32,
    pub tid: u32,
    pub uid: u32,
    pub gid: u32,
    pub path: Vec<u8>,
    pub operation: u8,
    pub inode: u64,
    pub process_name: Vec<u8>,
    pub path_len: u32,
}

impl View for WhoDataEvent {
    type V = WhoDataEventView;

    open spec fn view(&self) -> WhoDataEventView {
        WhoDataEventView {
            timestamp: self.timestamp,
            pid: self.pid,
            tid: self.tid,
            uid: self.uid,
            gid: self.gid,
            path: self.path@,
            operation: self.operation,
            inode: self.inode,
            process_name: self.process_name@,
            path_len: self.path_len,
        }
    }
}

/// A vector of `n` zero bytes, used to initialise the fixed buffers.
pub fn zero_bytes(n: usize) -> (r: Vec<u8>)
    ensures
        r@ == Seq::new(n as nat, |i: int| 0u8),
{
    let mut v: Vec<u8> = Vec::new();
    let mut i: usize = 0;
    while i < n
        invariant
            i <= n,
            v@ == Seq::new(i as nat, |j: int| 0u8),
        decreases n - i,
    {
        v.push(0u8);
        i = i + 1;
        proof {
            assert(v@ =~= Seq::new(i as nat, |j: int| 0u8));
        }
    }
    v
}

/// The first `n` bytes of a buffer, copied.
pub fn copy_prefix(b: &Vec<u8>, n: usize) -> (r: Vec<u8>)
    requires
        n <= b.len(),
    ensures
        r@ == b@.take(n as int),
{
    let mut r: Vec<u8> = Vec::new();
    let mut i: usize = 0;
    while i < n
        invariant
            n <= b@.len(),
            i <= n,
            r@ == b@.take(i as int),
        decreases n - i,
    {
        r.push(b[i]);
        i = i + 1;
        proof {
            assert(r@ =~= b@.take(i as int));
        }
    }
    r
}

impl WhoDataEvent {
    /// An empty record: every scalar zero, both buffers zero-filled.
    pub fn new() -> (r: Self)
        ensures
            r@ == WhoDataEventView::zeroed(),
            r@.wf(),
    {
        let r = Self {
            timestamp: 0,
            pid: 0,
            tid: 0,
            uid: 0,
            gid: 0,
            path: zero_bytes(PATH_CAP),
            operation: 0,
            inode: 0,
            process_name: zero_bytes(COMM_CAP),
            path_len: 0,
        };
        proof {
            assert(r@ =~= WhoDataEventView::zeroed());
        }
        r
    }
}

/// The kind of mutation a record reports, as carried by the one-byte tag.
#[derive(Clone, Copy, Debug, PartialEq, Eq, Structural)]
pub enum FimOperation {
    Add,
    Modify,
    Delete,
    Rename,
}

impl FimOperation {
    /// The wire tag of each operation.
    pub open spec fn spec_tag(self) -> u8 {
        match self {
            FimOperation::Add => OP_ADD,
            FimOperation::Modify => OP_MODIFY,
            FimOperation::Delete => OP_DELETE,
            FimOperation::Rename => OP_RENAME,
        }
    }

    /// The operation a raw tag decodes to: the four defined tags map to
    /// themselves, every other byte falls back to `Modify`.
    pub open spec fn spec_from_tag(value: u8) -> FimOperation {
        if value == OP_ADD {
            FimOperation::Add
        } else if value == OP_MODIFY {
            FimOperation::Modify
        } else if value == OP_DELETE {
            FimOperation::Delete
        } else if value == OP_RENAME {
            FimOperation::Rename
        } else {
            FimOperation::Modify
        }
    }

    /// The wire tag of this operation.
    pub fn tag(self) -> (r: u8)
        ensures
            r == self.spec_tag(),
    {
        match self {
            FimOperation::Add => OP_ADD,
            FimOperation::Modify => OP_MODIFY,
            FimOperation::Delete => OP_DELETE,
            FimOperation::Rename => OP_RENAME,
        }
    }
}

impl From<u8> for FimOperation {
    /// Decode a raw tag; never fails, an unknown tag becomes `Modify`.
    fn from(value: u8) -> (r: Self) {
        match value {
            0u8 => FimOperation::Add,
            1u8 => FimOperation::Modify,
            2u8 => FimOperation::Delete,
            3u8 => FimOperation::Rename,
            _ => FimOperation::Modify,
        }
    }
}

impl vstd::std_specs::convert::FromSpecImpl<u8> for FimOperation {
    open spec fn obeys_from_spec() -> bool {
        true
    }

    open spec fn from_spec(value: u8) -> FimOperation {
        FimOperation::spec_from_tag(value)
    }
}

} // verus!
