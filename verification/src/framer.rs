//! The byte framer. It scans the accumulated bytes for the frame marker,
//! copies out every 32-byte candidate frame that lies whole within the
//! buffer, and drops the bytes that the last such frame used up.
//!
//! The framer does not look into a frame. A marker byte inside another
//! frame's data yields a candidate of its own; the pairing stage drops what
//! makes no pair.

use vstd::prelude::*;
use crate::packet::FRAME_LEN;

verus! {

/// The byte that opens every frame.
pub const MARKER: u8 = 0xA0;

/// Whether a whole frame starts at `at`: the marker stands there and 32
/// bytes from there on lie within the buffer.
pub open spec fn is_frame_start(buffer: Seq<u8>, at: int) -> bool {
    &&& 0 <= at
    &&& at + FRAME_LEN <= buffer.len()
    &&& buffer[at] == MARKER
}

/// The frame starts at indices under `below`, in rising order.
pub open spec fn frame_starts(buffer: Seq<u8>, below: int) -> Seq<int>
    decreases below,
{
    if below <= 0 {
        Seq::empty()
    } else if is_frame_start(buffer, below - 1) {
        frame_starts(buffer, below - 1).push(below - 1)
    } else {
        frame_starts(buffer, below - 1)
    }
}

/// The 32 bytes from `at` on.
pub open spec fn frame_at(buffer: Seq<u8>, at: int) -> Seq<u8> {
    buffer.subrange(at, at + FRAME_LEN)
}

/// Every candidate frame of the buffer, in the order of their starts.
pub open spec fn frames(buffer: Seq<u8>) -> Seq<Seq<u8>> {
    let starts = frame_starts(buffer, buffer.len() as int);
    Seq::new(starts.len(), |k: int| frame_at(buffer, starts[k]))
}

/// The end of the last candidate frame, or 0 where there is none.
pub open spec fn purge_point(buffer: Seq<u8>) -> int {
    let starts = frame_starts(buffer, buffer.len() as int);
    if starts.len() == 0 {
        0
    } else {
        starts.last() + FRAME_LEN
    }
}

/// The bytes that stay buffered: those from the purge point on.
pub open spec fn remainder(buffer: Seq<u8>) -> Seq<u8> {
    buffer.subrange(purge_point(buffer), buffer.len() as int)
}

/// `frame_starts` lists exactly the frame starts under `below`, each once,
/// in strictly rising order.
pub proof fn lemma_frame_starts(buffer: Seq<u8>, below: int)
    ensures
        forall|k: int|
            0 <= k < frame_starts(buffer, below).len() ==> {
                &&& is_frame_start(buffer, #[trigger] frame_starts(buffer, below)[k])
                &&& frame_starts(buffer, below)[k] < below
            },
        forall|j: int, k: int|
            0 <= j < k < frame_starts(buffer, below).len() ==> frame_starts(buffer, below)[j]
                < frame_starts(buffer, below)[k],
        forall|at: int|
            at < below && is_frame_start(buffer, at) ==> frame_starts(buffer, below).contains(at),
    decreases below,
{
    if below > 0 {
        lemma_frame_starts(buffer, below - 1);
        let prev = frame_starts(buffer, below - 1);
        let cur = frame_starts(buffer, below);
        assert forall|at: int| at < below && is_frame_start(buffer, at) implies cur.contains(
            at,
        ) by {
            if at < below - 1 {
                let k = choose|k: int| 0 <= k < prev.len() && prev[k] == at;
                assert(cur[k] == at);
            } else {
                assert(cur[cur.len() - 1] == at);
            }
        }
    }
}

/// Two strictly rising sequences with the same members are the same sequence.
proof fn lemma_rising_same_members(a: Seq<int>, b: Seq<int>)
    requires
        forall|j: int, k: int| 0 <= j < k < a.len() ==> a[j] < a[k],
        forall|j: int, k: int| 0 <= j < k < b.len() ==> b[j] < b[k],
        forall|x: int| a.contains(x) <==> b.contains(x),
    ensures
        a == b,
    decreases a.len(),
{
    if a.len() == 0 {
        if b.len() > 0 {
            assert(b.contains(b[0]));
        }
        assert(a =~= b);
    } else {
        assert(a.contains(a.last()));
        assert(b.len() > 0);
        assert(b.contains(b.last()));
        assert(a.last() == b.last());
        let a0 = a.drop_last();
        let b0 = b.drop_last();
        assert forall|x: int| a0.contains(x) <==> b0.contains(x) by {
            if a0.contains(x) {
                let i = choose|i: int| 0 <= i < a0.len() && a0[i] == x;
                assert(a[i] == x);
                assert(a.contains(x));
                let j = choose|j: int| 0 <= j < b.len() && b[j] == x;
                assert(j < b.len() - 1);
                assert(b0[j] == x);
            }
            if b0.contains(x) {
                let i = choose|i: int| 0 <= i < b0.len() && b0[i] == x;
                assert(b[i] == x);
                assert(b.contains(x));
                let j = choose|j: int| 0 <= j < a.len() && a[j] == x;
                assert(j < a.len() - 1);
                assert(a0[j] == x);
            }
        }
        lemma_rising_same_members(a0, b0);
        assert(a =~= a0.push(a.last()));
        assert(b =~= b0.push(b.last()));
    }
}

/// Extraction is consistent with the purge. Let a buffer hold frames at the
/// indices `starts`, none overlapping the one before it, and no marker byte
/// anywhere else from which 32 bytes lie within the buffer. Then exactly
/// these frames are extracted, in this order, and exactly the bytes behind
/// the last of them stay buffered (the whole buffer where there is none).
pub proof fn lemma_extraction_purge_consistent(buffer: Seq<u8>, starts: Seq<int>)
    requires
        forall|k: int| 0 <= k < starts.len() ==> is_frame_start(buffer, #[trigger] starts[k]),
        forall|j: int, k: int|
            0 <= j < k < starts.len() ==> #[trigger] starts[j] + FRAME_LEN <= #[trigger] starts[k],
        forall|at: int| is_frame_start(buffer, at) ==> starts.contains(at),
    ensures
        frames(buffer).len() == starts.len(),
        forall|k: int|
            0 <= k < starts.len() ==> #[trigger] frames(buffer)[k] == frame_at(buffer, starts[k]),
        remainder(buffer) == if starts.len() == 0 {
            buffer
        } else {
            buffer.subrange(starts.last() + FRAME_LEN, buffer.len() as int)
        },
{
    let found = frame_starts(buffer, buffer.len() as int);
    lemma_frame_starts(buffer, buffer.len() as int);
    assert forall|x: int| found.contains(x) <==> starts.contains(x) by {
        if found.contains(x) {
            let k = choose|k: int| 0 <= k < found.len() && found[k] == x;
            assert(is_frame_start(buffer, found[k]));
        }
        if starts.contains(x) {
            let k = choose|k: int| 0 <= k < starts.len() && starts[k] == x;
            assert(is_frame_start(buffer, starts[k]));
        }
    }
    lemma_rising_same_members(found, starts);
    if starts.len() == 0 {
        assert(remainder(buffer) =~= buffer);
    }
}

fn copy_frame(buffer: &Vec<u8>, at: usize) -> (data: [u8; 32])
    requires
        at + FRAME_LEN <= buffer@.len(),
    ensures
        data@ == frame_at(buffer@, at as int),
{
    let len = buffer.len();
    let mut data: [u8; 32] = [0; 32];
    let mut j: usize = 0;
    while j < FRAME_LEN
        invariant
            0 <= j <= FRAME_LEN,
            at + FRAME_LEN <= len == buffer@.len(),
            forall|k: int| 0 <= k < j ==> data@[k] == buffer@[at + k],
        decreases FRAME_LEN - j,
    {
        data[j] = buffer[at + j];
        j += 1;
    }
    assert(data@ =~= frame_at(buffer@, at as int));
    data
}

/// Takes every candidate frame out of the buffer. The frames come in the
/// order of their starts; the buffer keeps the bytes behind the last of them,
/// or everything where there was none.
pub fn extract_frames(buffer: &mut Vec<u8>) -> (extracted: Vec<[u8; 32]>)
    ensures
        extracted.deep_view() == frames(old(buffer)@),
        extracted@.len() == frames(old(buffer)@).len(),
        final(buffer)@ == remainder(old(buffer)@),
{
    let len = buffer.len();
    let mut extracted: Vec<[u8; 32]> = Vec::new();
    let mut purge: usize = 0;
    let mut index: usize = 0;
    while index < len
        invariant
            0 <= index <= len,
            len == buffer@.len(),
            buffer@ == old(buffer)@,
            extracted@.len() == frame_starts(buffer@, index as int).len(),
            forall|k: int|
                0 <= k < extracted@.len() ==> (#[trigger] extracted@[k])@ == frame_at(
                    buffer@,
                    frame_starts(buffer@, index as int)[k],
                ),
            purge <= len,
            purge == if frame_starts(buffer@, index as int).len() == 0 {
                0
            } else {
                frame_starts(buffer@, index as int).last() + FRAME_LEN
            },
        decreases len - index,
    {
        if buffer[index] == MARKER && len - index >= FRAME_LEN {
            let data = copy_frame(buffer, index);
            extracted.push(data);
            purge = index + FRAME_LEN;
        }
        index += 1;
    }
    let rest = buffer.split_off(purge);
    *buffer = rest;
    proof {
        let wanted = frames(old(buffer)@);
        assert(extracted.deep_view().len() == wanted.len());
        assert forall|k: int| 0 <= k < wanted.len() implies extracted.deep_view()[k]
            == wanted[k] by {
            assert(extracted.deep_view()[k] == extracted@[k].deep_view());
            assert(extracted@[k].deep_view() =~= extracted@[k]@);
        }
        assert(extracted.deep_view() =~= wanted);
    }
    extracted
}

} // verus!
