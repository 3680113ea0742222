//! Connect envelopes: a stream body is a row of frames, each of one flag byte, the
//! length of the payload in four bytes, most significant first, and the payload.

use vstd::prelude::*;

verus! {

/// The flag of the frame that ends a stream.
pub const FLAG_END_STREAM: u8 = 2;

/// One frame of a stream.
#[derive(Debug, PartialEq, Eq)]
pub struct Frame {
    /// The flag byte.
    pub flags: u8,
    /// The payload.
    pub payload: Vec<u8>,
}

/// The model of a [`Frame`].
pub struct FrameView {
    /// The flag byte.
    pub flags: u8,
    /// The payload.
    pub payload: Seq<u8>,
}

impl View for Frame {
    type V = FrameView;

    open spec fn view(&self) -> FrameView {
        FrameView { flags: self.flags, payload: self.payload@ }
    }
}

/// The number that four bytes stand for, most significant first.
pub open spec fn be_value(b0: u8, b1: u8, b2: u8, b3: u8) -> nat {
    (b0 as nat) * 0x100_0000 + (b1 as nat) * 0x1_0000 + (b2 as nat) * 0x100 + b3 as nat
}

/// The four bytes of a number below 2^32, most significant first.
pub open spec fn be_bytes(n: nat) -> Seq<u8> {
    seq![
        (n / 0x100_0000 % 0x100) as u8,
        (n / 0x1_0000 % 0x100) as u8,
        (n / 0x100 % 0x100) as u8,
        (n % 0x100) as u8,
    ]
}

/// The frame without flags that carries `payload`. Of the length only the last four
/// bytes are written.
pub open spec fn enveloped(payload: Seq<u8>) -> Seq<u8> {
    seq![0u8] + be_bytes(payload.len() % 0x1_0000_0000) + payload
}

/// The frames of a stream body; `None` where the body ends within a frame. Up to four
/// bytes behind the last frame do not matter.
pub open spec fn frames(body: Seq<u8>) -> Option<Seq<FrameView>>
    decreases body.len(),
{
    if body.len() < 5 {
        Some(Seq::empty())
    } else {
        let len = be_value(body[1], body[2], body[3], body[4]);
        if 5 + len > body.len() {
            None
        } else {
            let first = FrameView { flags: body[0], payload: body.subrange(5, 5 + len as int) };
            match frames(body.skip(5 + len as int)) {
                Some(rest) => Some(seq![first] + rest),
                None => None,
            }
        }
    }
}

/// Wraps a payload in one frame without flags.
pub fn encode_frame(payload: &[u8]) -> (r: Vec<u8>)
    ensures
        r@ == enveloped(payload@),
{
    let n: u64 = payload.len() as u64 % 0x1_0000_0000;
    let mut out: Vec<u8> = Vec::new();
    out.push(0);
    out.push((n / 0x100_0000 % 0x100) as u8);
    out.push((n / 0x1_0000 % 0x100) as u8);
    out.push((n / 0x100 % 0x100) as u8);
    out.push((n % 0x100) as u8);
    out.extend_from_slice(payload);
    proof {
        assert(out@ =~= enveloped(payload@));
    }
    out
}

/// Splits a stream body into its frames; `None` where it ends within a frame.
pub fn decode_frames(body: &[u8]) -> (r: Option<Vec<Frame>>)
    ensures
        match r {
            Some(list) => frames(body@) == Some(crate::store::views(list@)),
            None => frames(body@) is None,
        },
{
    let mut list: Vec<Frame> = Vec::new();
    let mut i: usize = 0;
    proof {
        assert(body@.skip(0) =~= body@);
    }
    while body.len() - i >= 5
        invariant
            i <= body@.len(),
            frames(body@) == (match frames(body@.skip(i as int)) {
                Some(rest) => Some(crate::store::views(list@) + rest),
                None => None,
            }),
        decreases body@.len() - i,
    {
        let ghost rest = body@.skip(i as int);
        let flags: u8 = body[i];
        let len: u64 = body[i + 1] as u64 * 0x100_0000 + body[i + 2] as u64 * 0x1_0000 + body[i
            + 3] as u64 * 0x100 + body[i + 4] as u64;
        proof {
            assert(rest[0] == body@[i as int] && rest[1] == body@[i + 1] && rest[2] == body@[i + 2]
                && rest[3] == body@[i + 3] && rest[4] == body@[i + 4]);
            assert(len == be_value(rest[1], rest[2], rest[3], rest[4]));
        }
        if len > (body.len() - i - 5) as u64 {
            return None;
        }
        let size: usize = len as usize;
        let mut payload: Vec<u8> = Vec::new();
        let start: usize = i + 5;
        let mut j: usize = 0;
        while j < size
            invariant
                j <= size,
                start == i + 5,
                start + size <= body@.len() <= usize::MAX,
                payload@ == body@.subrange(i + 5, i + 5 + j),
            decreases size - j,
        {
            payload.push(body[start + j]);
            proof {
                assert(payload@ =~= body@.subrange(i + 5, i + 5 + j + 1));
            }
            j = j + 1;
        }
        let ghost before = list@;
        let frame = Frame { flags, payload };
        let ghost added = frame@;
        list.push(frame);
        proof {
            assert(rest.subrange(5, 5 + size) =~= body@.subrange(i + 5, i + 5 + size));
            assert(rest.skip(5 + size) =~= body@.skip(i + 5 + size));
            assert(crate::store::views(list@) =~= crate::store::views(before).push(added));
            if let Some(tail) = frames(rest.skip(5 + size)) {
                assert(crate::store::views(before) + (seq![added] + tail)
                    =~= crate::store::views(list@) + tail);
            }
        }
        i = i + 5 + size;
    }
    proof {
        assert(crate::store::views(list@) + Seq::<FrameView>::empty() =~= crate::store::views(
            list@,
        ));
    }
    Some(list)
}

proof fn lemma_be_round_trip(n: nat)
    requires
        n < 0x1_0000_0000,
    ensures
        ({
            let b = be_bytes(n);
            be_value(b[0], b[1], b[2], b[3]) == n
        }),
{
}

/// A frame survives the wire: what is decoded from an encoded payload is that
/// payload, whatever frames follow it.
pub proof fn an_encoded_frame_is_decoded(payload: Seq<u8>, rest: Seq<u8>)
    requires
        payload.len() < 0x1_0000_0000,
    ensures
        frames(enveloped(payload) + rest) == (match frames(rest) {
            Some(more) => Some(seq![FrameView { flags: 0, payload }] + more),
            None => None,
        }),
        frames(enveloped(payload)) == Some(seq![FrameView { flags: 0, payload }]),
{
    lemma_one_frame(payload, rest);
    lemma_one_frame(payload, Seq::empty());
    assert(enveloped(payload) + Seq::<u8>::empty() =~= enveloped(payload));
    assert(frames(Seq::<u8>::empty()) == Some(Seq::<FrameView>::empty()));
    assert(seq![FrameView { flags: 0, payload }] + Seq::<FrameView>::empty() =~= seq![
        FrameView { flags: 0, payload },
    ]);
}

proof fn lemma_one_frame(payload: Seq<u8>, rest: Seq<u8>)
    requires
        payload.len() < 0x1_0000_0000,
    ensures
        frames(enveloped(payload) + rest) == (match frames(rest) {
            Some(more) => Some(seq![FrameView { flags: 0, payload }] + more),
            None => None,
        }),
{
    let body = enveloped(payload) + rest;
    let n = payload.len();
    lemma_be_round_trip(n);
    let b = be_bytes(n);
    assert(body[0] == 0 && body[1] == b[0] && body[2] == b[1] && body[3] == b[2] && body[4]
        == b[3]);
    assert(body.subrange(5, 5 + n as int) =~= payload);
    assert(body.skip(5 + n as int) =~= rest);
}

} // verus!
