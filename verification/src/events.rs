//! The typed, owned form of a wire record, as delivered to the consumer's
//! callback: variable-length strings in place of the fixed buffers and a
//! safe enumeration in place of the raw operation tag. One typed event is
//! produced from one wire record and never mutated afterwards.

use vstd::prelude::*;
use vstd::string::StringExecFns;

use crate::wire;
use crate::wire::PATH_CAP;

verus! {

/// What `String::from_utf8_lossy` returns for a byte sequence; a function
/// of the bytes alone.
pub uninterp spec fn lossy_decode(bytes: Seq<u8>) -> Seq<char>;

/// Relies on alloc's `String::from_utf8_lossy` (via `Cow::into_owned`):
/// decodes bytes as UTF-8, replacing each invalid sequence with the
/// replacement character; the result depends on the bytes alone.
#[verifier::external_body]
fn bytes_to_string_lossy(bytes: &Vec<u8>) -> (r: String)
    ensures
        r@ == lossy_decode(bytes@),
{
    String::from_utf8_lossy(bytes.as_slice()).into_owned()
}

/// Index of the first NUL byte, or the length when none occurs.
pub open spec fn first_nul(s: Seq<u8>) -> int
    decreases s.len(),
{
    if s.len() == 0 {
        0
    } else if s[0] == 0 {
        0
    } else {
        1 + first_nul(s.drop_first())
    }
}

proof fn lemma_first_nul_at(s: Seq<u8>, k: int)
    requires
        0 <= k <= s.len(),
        forall|j: int| 0 <= j < k ==> s[j] != 0,
        k < s.len() ==> s[k] == 0,
    ensures
        first_nul(s) == k,
    decreases s.len(),
{
    if s.len() == 0 {
    } else if s[0] == 0 {
        assert(k == 0);
    } else {
        assert(k >= 1);
        let t = s.drop_first();
        assert(forall|j: int| 0 <= j < k - 1 ==> t[j] == s[j + 1] && t[j] != 0);
        assert(k - 1 < t.len() ==> t[k - 1] == s[k]);
        lemma_first_nul_at(t, k - 1);
    }
}

/// Find the first NUL byte, or the buffer's length when none occurs.
pub fn find_nul(p: &Vec<u8>) -> (r: usize)
    ensures
        r == first_nul(p@),
{
    let mut i: usize = 0;
    while i < p.len()
        invariant
            i <= p@.len(),
            forall|j: int| 0 <= j < i ==> p@[j] != 0,
        decreases p@.len() - i,
    {
        if p[i] == 0 {
            proof {
                lemma_first_nul_at(p@, i as int);
            }
            return i;
        }
        i = i + 1;
    }
    proof {
        lemma_first_nul_at(p@, p@.len() as int);
    }
    i
}

/// The kind of mutation an event reports.
#[derive(Clone, Copy, Debug, PartialEq, Eq, Structural)]
pub enum FimOperation {
    Add,
    Modify,
    Delete,
    Rename,
}

impl FimOperation {
    /// The typed operation of each wire operation.
    pub open spec fn spec_of_wire(raw: wire::FimOperation) -> FimOperation {
        match raw {
            wire::FimOperation::Add => FimOperation::Add,
            wire::FimOperation::Modify => FimOperation::Modify,
            wire::FimOperation::Delete => FimOperation::Delete,
            wire::FimOperation::Rename => FimOperation::Rename,
        }
    }

    /// The typed operation a raw tag decodes to; an unknown tag becomes
    /// `Modify`, never an error.
    pub open spec fn spec_of_tag(tag: u8) -> FimOperation {
        FimOperation::spec_of_wire(wire::FimOperation::spec_from_tag(tag))
    }
}

impl From<wire::FimOperation> for FimOperation {
    fn from(raw: wire::FimOperation) -> (r: Self) {
        match raw {
            wire::FimOperation::Add => FimOperation::Add,
            wire::FimOperation::Modify => FimOperation::Modify,
            wire::FimOperation::Delete => FimOperation::Delete,
            wire::FimOperation::Rename => FimOperation::Rename,
        }
    }
}

impl vstd::std_specs::convert::FromSpecImpl<wire::FimOperation> for FimOperation {
    open spec fn obeys_from_spec() -> bool {
        true
    }

    open spec fn from_spec(raw: wire::FimOperation) -> FimOperation {
        FimOperation::spec_of_wire(raw)
    }
}

/// Mathematical model of a typed event: strings as character sequences.
#[verifier::ext_equal]
pub struct TypedEventView {
    pub timestamp: u64,
    pub pid: u32,
    pub tid: u32,
    pub uid: u32,
    pub gid: u32,
    pub path: Seq<char>,
    pub operation: FimOperation,
    pub inode: u64,
    pub process_name: Seq<char>,
}

/// The typed event a well-formed wire record converts to: the path is the
/// lossy decoding of the recorded path bytes, the process name the lossy
/// decoding of the bytes before the name buffer's first NUL — or the word
/// `unknown` when the buffer holds no NUL at all.
pub open spec fn spec_event_of_raw(v: wire::WhoDataEventView) -> TypedEventView {
    TypedEventView {
        timestamp: v.timestamp,
        pid: v.pid,
        tid: v.tid,
        uid: v.uid,
        gid: v.gid,
        path: lossy_decode(v.path.take(v.path_len as int)),
        operation: FimOperation::spec_of_tag(v.operation),
        inode: v.inode,
        process_name: if first_nul(v.process_name) < v.process_name.len() {
            lossy_decode(v.process_name.take(first_nul(v.process_name)))
        } else {
            "unknown"@
        },
    }
}

/// One decoded, owned filesystem-mutation event, handed to the callback.
#[derive(Clone, Debug)]
pub struct WhoDataEvent {
    pub timestamp: u64,
    pub pid: u32,
    pub tid: u32,
    pub uid: u32,
    pub gid: u32,
    pub path: String,
    pub operation: FimOperation,
    pub inode: u64,
    pub process_name: String,
}

impl View for WhoDataEvent {
    type V = TypedEventView;

    open spec fn view(&self) -> TypedEventView {
        TypedEventView {
            timestamp: self.timestamp,
            pid: self.pid,
            tid: self.tid,
            uid: self.uid,
            gid: self.gid,
            path: self.path@,
            operation: self.operation,
            inode: self.inode,
            process_name: self.process_name@,
        }
    }
}

impl WhoDataEvent {
    /// Convert one well-formed wire record into its typed form.
    pub fn from_raw(raw: &wire::WhoDataEvent) -> (r: Self)
        requires
            raw@.wf(),
        ensures
            r@ == spec_event_of_raw(raw@),
    {
        let path_bytes = crate::wire::copy_prefix(&raw.path, raw.path_len as usize);
        let path = bytes_to_string_lossy(&path_bytes);
        let nul = find_nul(&raw.process_name);
        let process_name = if nul < raw.process_name.len() {
            let name_bytes = crate::wire::copy_prefix(&raw.process_name, nul);
            bytes_to_string_lossy(&name_bytes)
        } else {
            String::from_str("unknown")
        };
        let raw_op = wire::FimOperation::from(raw.operation);
        let operation = FimOperation::from(raw_op);
        let r = WhoDataEvent {
            timestamp: raw.timestamp,
            pid: raw.pid,
            tid: raw.tid,
            uid: raw.uid,
            gid: raw.gid,
            path,
            operation,
            inode: raw.inode,
            process_name,
        };
        proof {
            assert(r@ =~= spec_event_of_raw(raw@));
        }
        r
    }
}

} // verus!
