//! The monitored-path set and the filter that gates event emission.
//!
//! The set holds fixed-width, NUL-padded path keys, registered exactly. A
//! path is in scope when its full key is registered, or when it is valid
//! UTF-8, non-empty once trailing NULs are trimmed, starts with one of five
//! hardcoded root prefixes, and that exact root's key is registered. A
//! prefix registered outside the five roots is honoured only for exact
//! matches; that asymmetry is part of the contract.

use vstd::prelude::*;

use crate::wire::PATH_CAP;

verus! {

/// The five hardcoded root prefixes honoured by the prefix branch, as bytes:
/// `/tmp`, `/etc`, `/home`, `/var`, `/usr`.
pub open spec fn spec_roots() -> Seq<Seq<u8>> {
    seq![
        seq![47u8, 116u8, 109u8, 112u8],
        seq![47u8, 101u8, 116u8, 99u8],
        seq![47u8, 104u8, 111u8, 109u8, 101u8],
        seq![47u8, 118u8, 97u8, 114u8],
        seq![47u8, 117u8, 115u8, 114u8],
    ]
}

/// A UTF-8 continuation byte.
pub open spec fn is_cont(b: u8) -> bool {
    0x80 <= b && b <= 0xBF
}

/// The admissible second byte of a multi-byte UTF-8 sequence led by `b0`;
/// the narrowed ranges exclude overlong forms, surrogates and code points
/// above U+10FFFF.
pub open spec fn valid_second(b0: u8, b1: u8) -> bool {
    if b0 == 0xE0 {
        0xA0 <= b1 && b1 <= 0xBF
    } else if b0 == 0xED {
        0x80 <= b1 && b1 <= 0x9F
    } else if b0 == 0xF0 {
        0x90 <= b1 && b1 <= 0xBF
    } else if b0 == 0xF4 {
        0x80 <= b1 && b1 <= 0x8F
    } else {
        is_cont(b1)
    }
}

/// The bytes of `s` from position `i` on form a valid UTF-8 suffix.
pub open spec fn is_utf8_from(s: Seq<u8>, i: int) -> bool
    decreases s.len() - i,
{
    if i < 0 || i >= s.len() {
        true
    } else {
        let b0 = s[i];
        if b0 < 0x80 {
            is_utf8_from(s, i + 1)
        } else if 0xC2 <= b0 && b0 <= 0xDF {
            &&& i + 1 < s.len()
            &&& valid_second(b0, s[i + 1])
            &&& is_utf8_from(s, i + 2)
        } else if 0xE0 <= b0 && b0 <= 0xEF {
            &&& i + 2 < s.len()
            &&& valid_second(b0, s[i + 1])
            &&& is_cont(s[i + 2])
            &&& is_utf8_from(s, i + 3)
        } else if 0xF0 <= b0 && b0 <= 0xF4 {
            &&& i + 3 < s.len()
            &&& valid_second(b0, s[i + 1])
            &&& is_cont(s[i + 2])
            &&& is_cont(s[i + 3])
            &&& is_utf8_from(s, i + 4)
        } else {
            false
        }
    }
}

/// The whole byte sequence is valid UTF-8.
pub open spec fn is_utf8(s: Seq<u8>) -> bool {
    is_utf8_from(s, 0)
}

/// Length of `s` once trailing NUL bytes are trimmed.
pub open spec fn trim_len(s: Seq<u8>) -> int
    decreases s.len(),
{
    if s.len() == 0 {
        0
    } else if s[s.len() - 1] == 0 {
        trim_len(s.drop_last())
    } else {
        s.len() as int
    }
}

pub proof fn lemma_trim_len_bounds(s: Seq<u8>)
    ensures
        0 <= trim_len(s) <= s.len(),
    decreases s.len(),
{
    if s.len() > 0 && s[s.len() - 1] == 0 {
        lemma_trim_len_bounds(s.drop_last());
    }
}

/// The fixed-width key of a path: its first bytes, truncated to one less
/// than the key width, padded with NULs to the full width.
pub open spec fn spec_path_key(p: Seq<u8>) -> Seq<u8> {
    let n: int = if p.len() <= PATH_CAP - 1 {
        p.len() as int
    } else {
        PATH_CAP - 1
    };
    p.take(n) + Seq::new((PATH_CAP - n) as nat, |i: int| 0u8)
}

/// The root at index `i` scores a prefix hit for path `p` against set `s`:
/// the trimmed path starts with that root and the root's own padded key is
/// registered.
pub open spec fn spec_root_hit(s: Set<Seq<u8>>, p: Seq<u8>, i: int) -> bool
    recommends
        0 <= i < 5,
{
    let r = spec_roots()[i];
    &&& r.len() <= trim_len(p)
    &&& p.take(r.len() as int) == r
    &&& s.contains(spec_path_key(r))
}

/// Whether a fixed-width path buffer is in scope for event emission.
pub open spec fn spec_path_monitored(s: Set<Seq<u8>>, p: Seq<u8>) -> bool {
    ||| s.contains(p)
    ||| {
        &&& is_utf8(p)
        &&& trim_len(p) > 0
        &&& exists|i: int| 0 <= i < 5 && #[trigger] spec_root_hit(s, p, i)
    }
}

/// The set of monitored path keys: exact fixed-width entries, created by
/// registration, never removed.
pub struct MonitoredPathSet {
    keys: Vec<Vec<u8>>,
}

impl View for MonitoredPathSet {
    type V = Set<Seq<u8>>;

    closed spec fn view(&self) -> Set<Seq<u8>> {
        Set::new(
            |s: Seq<u8>|
                exists|i: int| 0 <= i < self.keys@.len() && #[trigger] self.keys@[i]@ == s,
        )
    }
}

fn bytes_eq(a: &Vec<u8>, b: &Vec<u8>) -> (r: bool)
    ensures
        r == (a@ == b@),
{
    if a.len() != b.len() {
        return false;
    }
    let mut i: usize = 0;
    while i < a.len()
        invariant
            a@.len() == b@.len(),
            i <= a@.len(),
            forall|j: int| 0 <= j < i ==> a@[j] == b@[j],
        decreases a@.len() - i,
    {
        if a[i] != b[i] {
            return false;
        }
        i = i + 1;
    }
    proof {
        assert(a@ =~= b@);
    }
    true
}

impl MonitoredPathSet {
    /// Every stored key fills the fixed width.
    pub closed spec fn wf(self) -> bool {
        forall|i: int| 0 <= i < self.keys@.len() ==> (#[trigger] self.keys@[i])@.len() == PATH_CAP
    }

    /// An empty set: nothing is monitored.
    pub fn new() -> (r: Self)
        ensures
            r@ == Set::<Seq<u8>>::empty(),
            r.wf(),
    {
        let r = MonitoredPathSet { keys: Vec::new() };
        proof {
            assert(r@ =~= Set::<Seq<u8>>::empty());
        }
        r
    }

    /// Exact membership of a fixed-width key.
    pub fn contains_key(&self, key: &Vec<u8>) -> (r: bool)
        ensures
            r == self@.contains(key@),
    {
        let mut i: usize = 0;
        while i < self.keys.len()
            invariant
                i <= self.keys@.len(),
                forall|j: int| 0 <= j < i ==> (#[trigger] self.keys@[j])@ != key@,
            decreases self.keys@.len() - i,
        {
            if bytes_eq(&self.keys[i], key) {
                return true;
            }
            i = i + 1;
        }
        false
    }

    /// Register one key. Idempotent: registering a key twice leaves the set
    /// as one registration does; the presence marker carries no information.
    pub fn register(&mut self, key: Vec<u8>)
        requires
            old(self).wf(),
            key@.len() == PATH_CAP,
        ensures
            final(self)@ == old(self)@.insert(key@),
            final(self).wf(),
    {
        let present = self.contains_key(&key);
        if !present {
            self.keys.push(key);
        }
        proof {
            assert forall|s: Seq<u8>|
                self@.contains(s) == old(self)@.insert(key@).contains(s) by {
                if self@.contains(s) {
                    let i = choose|i: int|
                        0 <= i < self.keys@.len() && #[trigger] self.keys@[i]@ == s;
                    if i < old(self).keys@.len() {
                        assert(old(self).keys@[i]@ == s);
                        assert(old(self)@.contains(s));
                    } else {
                        assert(s == key@);
                    }
                }
                if old(self)@.insert(key@).contains(s) {
                    if old(self)@.contains(s) {
                        let i = choose|i: int|
                            0 <= i < old(self).keys@.len() && #[trigger] old(self).keys@[i]@ == s;
                        assert(self.keys@[i]@ == s);
                        assert(self@.contains(s));
                    } else {
                        assert(s == key@);
                        if present {
                            assert(old(self)@.contains(key@));
                        } else {
                            assert(self.keys@[self.keys@.len() - 1]@ == s);
                            assert(self@.contains(s));
                        }
                    }
                }
            }
            assert(self@ =~= old(self)@.insert(key@));
        }
    }

    /// Register a path given as raw bytes: build its fixed-width, NUL-padded
    /// key and register that key exactly.
    pub fn add_monitor_path(&mut self, path: &Vec<u8>)
        requires
            old(self).wf(),
        ensures
            final(self)@ == old(self)@.insert(spec_path_key(path@)),
            final(self).wf(),
    {
        let key = make_path_key(path);
        self.register(key);
    }

    /// The filter itself: exact match first, then the bounded prefix branch
    /// over the five hardcoded roots.
    pub fn is_path_monitored(&self, path: &Vec<u8>) -> (r: bool)
        requires
            path@.len() == PATH_CAP,
        ensures
            r == spec_path_monitored(self@, path@),
    {
        if self.contains_key(path) {
            return true;
        }
        if !check_utf8(path) {
            return false;
        }
        let tl = trimmed_len(path);
        if tl == 0 {
            return false;
        }
        let mut i: usize = 0;
        while i < 5
            invariant
                path@.len() == PATH_CAP,
                i <= 5,
                !self@.contains(path@),
                is_utf8(path@),
                tl == trim_len(path@),
                tl > 0,
                forall|j: int| 0 <= j < i ==> !#[trigger] spec_root_hit(self@, path@, j),
            decreases 5 - i,
        {
            let root = root_bytes(i);
            if root.len() <= tl && starts_with(path, &root) {
                let key = make_path_key(&root);
                if self.contains_key(&key) {
                    proof {
                        assert(spec_root_hit(self@, path@, i as int));
                    }
                    return true;
                }
            }
            proof {
                assert(!spec_root_hit(self@, path@, i as int));
            }
            i = i + 1;
        }
        false
    }
}

/// Whether the whole buffer is valid UTF-8, by the bounded byte-class walk
/// a restricted context allows.
pub fn check_utf8(p: &Vec<u8>) -> (r: bool)
    ensures
        r == is_utf8(p@),
{
    let n = p.len();
    let mut i: usize = 0;
    while i < n
        invariant
            n == p@.len(),
            i <= n,
            is_utf8(p@) == is_utf8_from(p@, i as int),
        decreases n - i,
    {
        let b0 = p[i];
        if b0 < 0x80 {
            i = i + 1;
        } else if 0xC2 <= b0 && b0 <= 0xDF {
            if n - i < 2 {
                return false;
            }
            if !check_second(b0, p[i + 1]) {
                return false;
            }
            i = i + 2;
        } else if 0xE0 <= b0 && b0 <= 0xEF {
            if n - i < 3 {
                return false;
            }
            if !check_second(b0, p[i + 1]) || !check_cont(p[i + 2]) {
                return false;
            }
            i = i + 3;
        } else if 0xF0 <= b0 && b0 <= 0xF4 {
            if n - i < 4 {
                return false;
            }
            if !check_second(b0, p[i + 1]) || !check_cont(p[i + 2]) || !check_cont(p[i + 3]) {
                return false;
            }
            i = i + 4;
        } else {
            return false;
        }
    }
    true
}

fn check_cont(b: u8) -> (r: bool)
    ensures
        r == is_cont(b),
{
    0x80 <= b && b <= 0xBF
}

fn check_second(b0: u8, b1: u8) -> (r: bool)
    ensures
        r == valid_second(b0, b1),
{
    if b0 == 0xE0 {
        0xA0 <= b1 && b1 <= 0xBF
    } else if b0 == 0xED {
        0x80 <= b1 && b1 <= 0x9F
    } else if b0 == 0xF0 {
        0x90 <= b1 && b1 <= 0xBF
    } else if b0 == 0xF4 {
        0x80 <= b1 && b1 <= 0x8F
    } else {
        check_cont(b1)
    }
}

/// Length of the buffer once trailing NULs are trimmed.
pub fn trimmed_len(p: &Vec<u8>) -> (r: usize)
    ensures
        r == trim_len(p@),
{
    let mut n = p.len();
    proof {
        assert(p@.take(p@.len() as int) =~= p@);
    }
    while n > 0 && p[n - 1] == 0
        invariant
            n <= p@.len(),
            trim_len(p@) == trim_len(p@.take(n as int)),
        decreases n,
    {
        n = n - 1;
        proof {
            assert(p@.take(n + 1).drop_last() =~= p@.take(n as int));
        }
    }
    proof {
        if n > 0 {
            assert(p@.take(n as int)[n - 1] == p@[n - 1]);
        }
    }
    n
}

/// The root prefix at index `i`, as bytes.
fn root_bytes(i: usize) -> (r: Vec<u8>)
    requires
        i < 5,
    ensures
        r@ == spec_roots()[i as int],
{
    let mut v: Vec<u8> = Vec::new();
    if i == 0 {
        v.push(47);
        v.push(116);
        v.push(109);
        v.push(112);
    } else if i == 1 {
        v.push(47);
        v.push(101);
        v.push(116);
        v.push(99);
    } else if i == 2 {
        v.push(47);
        v.push(104);
        v.push(111);
        v.push(109);
        v.push(101);
    } else if i == 3 {
        v.push(47);
        v.push(118);
        v.push(97);
        v.push(114);
    } else {
        v.push(47);
        v.push(117);
        v.push(115);
        v.push(114);
    }
    proof {
        assert(v@ =~= spec_roots()[i as int]);
    }
    v
}

fn starts_with(p: &Vec<u8>, prefix: &Vec<u8>) -> (r: bool)
    requires
        prefix@.len() <= p@.len(),
    ensures
        r == (p@.take(prefix@.len() as int) == prefix@),
{
    let mut i: usize = 0;
    while i < prefix.len()
        invariant
            prefix@.len() <= p@.len(),
            i <= prefix@.len(),
            forall|j: int| 0 <= j < i ==> p@[j] == prefix@[j],
        decreases prefix@.len() - i,
    {
        if p[i] != prefix[i] {
            proof {
                assert(p@.take(prefix@.len() as int)[i as int] == p@[i as int]);
            }
            return false;
        }
        i = i + 1;
    }
    proof {
        assert(p@.take(prefix@.len() as int) =~= prefix@);
    }
    true
}

/// Build the fixed-width, NUL-padded key of a path: at most one less than
/// the key width of its bytes, then NUL padding.
pub fn make_path_key(path: &Vec<u8>) -> (r: Vec<u8>)
    ensures
        r@ == spec_path_key(path@),
        r@.len() == PATH_CAP,
{
    let n = if path.len() <= PATH_CAP - 1 {
        path.len()
    } else {
        PATH_CAP - 1
    };
    let mut key: Vec<u8> = Vec::new();
    let mut i: usize = 0;
    while i < n
        invariant
            n <= path@.len(),
            i <= n,
            key@ == path@.take(i as int),
        decreases n - i,
    {
        key.push(path[i]);
        i = i + 1;
        proof {
            assert(key@ =~= path@.take(i as int));
        }
    }
    while i < PATH_CAP
        invariant
            i <= PATH_CAP,
            n <= i,
            n <= path@.len(),
            key@ == path@.take(n as int) + Seq::new((i - n) as nat, |j: int| 0u8),
        decreases PATH_CAP - i,
    {
        key.push(0);
        i = i + 1;
        proof {
            assert(key@ =~= path@.take(n as int) + Seq::new((i - n) as nat, |j: int| 0u8));
        }
    }
    key
}

/// A path registered exactly is always in scope, whatever else the set
/// holds.
pub proof fn lemma_exact_match_monitored(s: Set<Seq<u8>>, p: Seq<u8>)
    requires
        s.contains(p),
    ensures
        spec_path_monitored(s, p),
{
}

/// At most one of the five roots can prefix a given path: their second
/// bytes all differ.
proof fn lemma_root_prefix_unique(q: Seq<u8>, i: int, j: int)
    requires
        0 <= i < 5,
        0 <= j < 5,
        spec_roots()[i].len() <= q.len(),
        spec_roots()[j].len() <= q.len(),
        q.take(spec_roots()[i].len() as int) == spec_roots()[i],
        q.take(spec_roots()[j].len() as int) == spec_roots()[j],
    ensures
        i == j,
{
    let ri = spec_roots()[i];
    let rj = spec_roots()[j];
    assert(q.take(ri.len() as int)[1] == q[1]);
    assert(q.take(rj.len() as int)[1] == q[1]);
    assert(ri[1] == q[1] && rj[1] == q[1]);
    if i != j {
        assert(spec_roots()[0][1] == 116);
        assert(spec_roots()[1][1] == 101);
        assert(spec_roots()[2][1] == 104);
        assert(spec_roots()[3][1] == 118);
        assert(spec_roots()[4][1] == 117);
        assert(false);
    }
}

/// For a path under one of the five hardcoded roots and not registered
/// exactly, the filter answers true exactly when that root's own key is
/// registered: no other registration can make it match.
pub proof fn lemma_root_prefix_iff_registered(s: Set<Seq<u8>>, q: Seq<u8>, i: int)
    requires
        0 <= i < 5,
        !s.contains(q),
        is_utf8(q),
        spec_roots()[i].len() <= trim_len(q),
        q.take(spec_roots()[i].len() as int) == spec_roots()[i],
    ensures
        spec_path_monitored(s, q) == s.contains(spec_path_key(spec_roots()[i])),
{
    if s.contains(spec_path_key(spec_roots()[i])) {
        assert(spec_root_hit(s, q, i));
        assert(trim_len(q) >= spec_roots()[i].len());
        assert(spec_roots()[i].len() > 0);
        assert(spec_path_monitored(s, q));
    }
    if spec_path_monitored(s, q) {
        let j = choose|j: int| 0 <= j < 5 && #[trigger] spec_root_hit(s, q, j);
        lemma_trim_len_bounds(q);
        lemma_root_prefix_unique(q, i, j);
        assert(s.contains(spec_path_key(spec_roots()[i])));
    }
}

} // verus!
