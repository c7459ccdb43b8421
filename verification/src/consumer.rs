//! Consumer-side decoding of one read cycle: the filled buffers of a
//! per-CPU channel, in the order they were filled, become typed events.
//! A buffer shorter than one record is silently skipped, as is a record
//! whose path-length field overruns the path buffer: malformed input is
//! discarded individually and never affects its siblings. Delivery order
//! within the cycle matches fill order.

use vstd::prelude::*;

use crate::codec::EVENT_SIZE;
use crate::codec::decode_event;
use crate::codec::spec_decode;
use crate::events::TypedEventView;
use crate::events::WhoDataEvent;
use crate::events::spec_event_of_raw;
use crate::wire::PATH_CAP;

verus! {

/// Whether one raw buffer yields an event: long enough to hold a record,
/// and the decoded record is well-formed.
pub open spec fn buf_yields(b: Seq<u8>) -> bool {
    b.len() >= EVENT_SIZE && spec_decode(b).wf()
}

/// The typed events of one cycle over raw buffers, in fill order.
pub open spec fn spec_cycle(bufs: Seq<Seq<u8>>) -> Seq<TypedEventView>
    decreases bufs.len(),
{
    if bufs.len() == 0 {
        Seq::empty()
    } else {
        spec_cycle(bufs.drop_last()) + (if buf_yields(bufs.last()) {
            seq![spec_event_of_raw(spec_decode(bufs.last()))]
        } else {
            Seq::<TypedEventView>::empty()
        })
    }
}

/// The byte sequences of the first `n` buffers.
pub open spec fn views_prefix(bufs: Seq<Vec<u8>>, n: int) -> Seq<Seq<u8>> {
    bufs.map_values(|b: Vec<u8>| b@).take(n)
}

/// Fixed backoff after a transport fault, in milliseconds.
pub const FAULT_BACKOFF_MS: u64 = 100;

/// What one turn of a consumer's read loop observed: a cycle with the
/// first `filled` buffers holding data, or a channel read fault.
pub enum ReadEvent {
    Cycle { filled: usize },
    Fault,
}

/// What the consumer does next: deliver these typed events to the
/// callback, in order, then read again; or report the fault, sleep the
/// fixed backoff, and read again. No turn ever terminates the consumer:
/// only external cancellation does.
pub enum ConsumerAction {
    Deliver(Vec<WhoDataEvent>),
    BackOff(u64),
}

/// One turn of the consumer's read loop, as a pure decision: a filled
/// cycle is decoded and delivered in fill order; a transport fault is
/// retried after the fixed backoff, never propagated.
pub fn consumer_step(buffers: &Vec<Vec<u8>>, event: ReadEvent) -> (r: ConsumerAction)
    requires
        event matches ReadEvent::Cycle { filled } ==> filled <= buffers.len(),
    ensures
        event matches ReadEvent::Fault ==> r matches ConsumerAction::BackOff(ms)
            && ms == FAULT_BACKOFF_MS,
        event matches ReadEvent::Cycle { filled } ==> (r matches ConsumerAction::Deliver(evs)
            && {
            let spec_evs = spec_cycle(views_prefix(buffers@, filled as int));
            &&& evs@.len() == spec_evs.len()
            &&& forall|k: int| 0 <= k < spec_evs.len() ==> evs@[k]@ == spec_evs[k]
        }),
{
    match event {
        ReadEvent::Cycle { filled } => ConsumerAction::Deliver(decode_cycle(buffers, filled)),
        ReadEvent::Fault => ConsumerAction::BackOff(FAULT_BACKOFF_MS),
    }
}

/// Decode the first `filled` buffers of one read cycle into typed events,
/// in fill order; short or malformed buffers are skipped individually.
pub fn decode_cycle(buffers: &Vec<Vec<u8>>, filled: usize) -> (r: Vec<WhoDataEvent>)
    requires
        filled <= buffers.len(),
    ensures
        ({
            let evs = spec_cycle(views_prefix(buffers@, filled as int));
            &&& r@.len() == evs.len()
            &&& forall|k: int| 0 <= k < evs.len() ==> r@[k]@ == evs[k]
        }),
{
    let mut out: Vec<WhoDataEvent> = Vec::new();
    let mut i: usize = 0;
    while i < filled
        invariant
            filled <= buffers@.len(),
            i <= filled,
            ({
                let evs = spec_cycle(views_prefix(buffers@, i as int));
                &&& out@.len() == evs.len()
                &&& forall|k: int| 0 <= k < evs.len() ==> out@[k]@ == evs[k]
            }),
        decreases filled - i,
    {
        proof {
            assert(views_prefix(buffers@, i + 1).drop_last() =~= views_prefix(
                buffers@,
                i as int,
            ));
            assert(views_prefix(buffers@, i + 1).last() == buffers@[i as int]@);
        }
        let buf = &buffers[i];
        match decode_event(buf) {
            Some(raw) => {
                if (raw.path_len as usize) < PATH_CAP {
                    proof {
                        assert(raw@.wf());
                        assert(buf_yields(buffers@[i as int]@));
                    }
                    let ev = WhoDataEvent::from_raw(&raw);
                    out.push(ev);
                } else {
                    proof {
                        assert(!buf_yields(buffers@[i as int]@));
                    }
                }
            },
            None => {
                proof {
                    assert(!buf_yields(buffers@[i as int]@));
                }
            },
        }
        i = i + 1;
    }
    out
}

} // verus!
