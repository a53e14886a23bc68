//! The per-connection frame reader: a state machine that turns a byte
//! stream into a sequence of decoded messages.
//!
//! The caller owns the socket and performs every read; this module decides
//! what to read next, consumes what was read, and says what to do with it.
//! An oversized frame is not fatal: the reader emits one too-long notice and
//! resynchronizes by discarding exactly the announced payload. A header too
//! small to be well formed is dropped silently. An undecodable payload is
//! fatal for the connection.

use crate::message::InfoKind;
use crate::message::MsgModel;
use crate::message::ParsedMsg;
use crate::message::spec_frame;
use crate::message::spec_from_bytes;
use crate::wire::spec_u32_from_be_bytes;
use crate::wire::spec_u32_to_be_bytes;
use crate::wire::u32_from_be_bytes;
use crate::wire::u32_to_be_bytes;
use vstd::prelude::*;
use vstd::slice::slice_index_get;

verus! {

/// The parsing position inside one connection's byte stream.
#[derive(Debug, Clone, Copy, PartialEq, Eq, Structural)]
pub enum ReadState {
    /// Waiting for the five header bytes.
    ReadHeader,
    /// Header accepted; waiting for the `size - 5` payload bytes of a frame
    /// whose type byte is `msg_type`.
    ReadPayload { size: u32, msg_type: u8 },
    /// Resynchronizing after an oversized header: `remaining` announced
    /// bytes are still to be read and dropped.
    DiscardMessage { remaining: u32 },
}

/// What became of a complete payload.
#[derive(Debug, Clone, PartialEq, Eq)]
pub enum PayloadOutcome {
    /// The decoded message, to be forwarded tagged with the peer address.
    Forward(ParsedMsg),
    /// The payload decoded to a server-origin notice, which a peer may not
    /// send: dropped without forwarding, the connection stays up.
    Dropped,
    /// The payload did not decode: fatal for this connection.
    Invalid,
}

/// The frame-reader state machine of one connection.
pub struct FrameReader {
    state: ReadState,
    max_msg_len: u32,
}

impl FrameReader {
    /// The current parsing state.
    pub closed spec fn spec_state(&self) -> ReadState {
        self.state
    }

    /// The largest total frame size this reader accepts.
    pub closed spec fn spec_max_msg_len(&self) -> u32 {
        self.max_msg_len
    }

    /// Well-formedness: the limit admits at least a header, a pending
    /// payload fits the limit, and a discard still has work to do.
    pub open spec fn wf(&self) -> bool {
        &&& self.spec_max_msg_len() >= 5
        &&& match self.spec_state() {
            ReadState::ReadHeader => true,
            ReadState::ReadPayload { size, msg_type } => 5 < size <= self.spec_max_msg_len(),
            ReadState::DiscardMessage { remaining } => remaining >= 1,
        }
    }

    /// A fresh reader waiting for its first header.
    pub fn new(max_msg_len: u32) -> (r: Self)
        requires
            max_msg_len >= 5,
        ensures
            r.wf(),
            r.spec_state() is ReadHeader,
            r.spec_max_msg_len() == max_msg_len,
    {
        FrameReader { state: ReadState::ReadHeader, max_msg_len }
    }

    /// The current parsing state, telling the caller what to read next.
    pub fn current_state(&self) -> (s: ReadState)
        ensures
            s == self.spec_state(),
    {
        self.state
    }

    /// Consumes the five header bytes just read. An announced size over the
    /// limit emits one too-long notice and moves to discarding the announced
    /// payload; a size too small to hold a header is dropped silently; any
    /// other size moves to reading the payload.
    pub fn on_header(&mut self, header: &[u8]) -> (emit: Option<ParsedMsg>)
        requires
            old(self).wf(),
            old(self).spec_state() is ReadHeader,
            header@.len() == 5,
        ensures
            final(self).wf(),
            final(self).spec_max_msg_len() == old(self).spec_max_msg_len(),
            ({
                let size = spec_u32_from_be_bytes(header@.subrange(0, 4));
                if size > old(self).spec_max_msg_len() {
                    &&& emit matches Some(m) && m@ == MsgModel::Info(InfoKind::MessageTooLong)
                    &&& final(self).spec_state() == (ReadState::DiscardMessage {
                        remaining: (size - 5) as u32,
                    })
                } else if size <= 5 {
                    &&& emit is None
                    &&& final(self).spec_state() is ReadHeader
                } else {
                    &&& emit is None
                    &&& final(self).spec_state() == (ReadState::ReadPayload {
                        size,
                        msg_type: header@[4],
                    })
                }
            }),
    {
        let size = u32_from_be_bytes(header);
        let msg_type = *slice_index_get(header, 4);
        if size > self.max_msg_len {
            self.state = ReadState::DiscardMessage { remaining: size - 5 };
            Some(ParsedMsg::from_info(InfoKind::MessageTooLong))
        } else if size <= 5 {
            self.state = ReadState::ReadHeader;
            None
        } else {
            self.state = ReadState::ReadPayload { size, msg_type };
            None
        }
    }

    /// Consumes the complete payload of the pending frame and decodes the
    /// whole frame. A message decodes back out of the frame exactly as the
    /// codec says; a server-origin notice from a peer is dropped; a frame
    /// that does not decode is fatal.
    pub fn on_payload(&mut self, payload: &[u8]) -> (r: PayloadOutcome)
        requires
            old(self).wf(),
            old(self).spec_state() matches ReadState::ReadPayload { size, msg_type } && payload@.len()
                == size - 5,
        ensures
            final(self).wf(),
            final(self).spec_max_msg_len() == old(self).spec_max_msg_len(),
            ({
                let msg_type = old(self).spec_state()->ReadPayload_msg_type;
                match spec_from_bytes(spec_frame(msg_type, payload@)) {
                    Some(m) => {
                        if m is Info {
                            &&& r is Dropped
                            &&& final(self).spec_state() is ReadHeader
                        } else {
                            &&& r matches PayloadOutcome::Forward(p) && p@ == m
                            &&& final(self).spec_state() is ReadHeader
                        }
                    },
                    None => {
                        &&& r is Invalid
                        &&& final(self).spec_state() == old(self).spec_state()
                    },
                }
            }),
    {
        let (size, msg_type) = match self.state {
            ReadState::ReadPayload { size, msg_type } => (size, msg_type),
            _ => (0, 0),
        };
        let mut frame = u32_to_be_bytes(size);
        frame.push(msg_type);
        let mut i: usize = 0;
        while i < payload.len()
            invariant
                i <= payload@.len(),
                frame@ == spec_u32_to_be_bytes(size) + seq![msg_type] + payload@.subrange(0, i as int),
            decreases payload@.len() - i,
        {
            frame.push(*slice_index_get(payload, i));
            i = i + 1;
            proof {
                assert(frame@ =~= spec_u32_to_be_bytes(size) + seq![msg_type] + payload@.subrange(
                    0,
                    i as int,
                ));
            }
        }
        proof {
            assert(payload@.subrange(0, payload@.len() as int) =~= payload@);
            assert(frame@ =~= spec_frame(msg_type, payload@));
        }
        match ParsedMsg::from_bytes(frame.as_slice()) {
            None => PayloadOutcome::Invalid,
            Some(msg) => {
                self.state = ReadState::ReadHeader;
                if let ParsedMsg::Info(_) = msg {
                    PayloadOutcome::Dropped
                } else {
                    PayloadOutcome::Forward(msg)
                }
            },
        }
    }

    /// Consumes `count` bytes read and dropped while resynchronizing. Once
    /// the full announced payload is gone the reader parses headers again;
    /// a short read leaves the difference to discard.
    pub fn on_discarded(&mut self, count: usize)
        requires
            old(self).wf(),
            old(self).spec_state() matches ReadState::DiscardMessage { remaining } && count
                <= remaining,
        ensures
            final(self).wf(),
            final(self).spec_max_msg_len() == old(self).spec_max_msg_len(),
            final(self).spec_state() == spec_discard_step(old(self).spec_state(), count as int),
    {
        let remaining = match self.state {
            ReadState::DiscardMessage { remaining } => remaining,
            _ => 0,
        };
        if count == remaining as usize {
            self.state = ReadState::ReadHeader;
        } else {
            self.state = ReadState::DiscardMessage { remaining: remaining - count as u32 };
        }
    }
}

/// One discard step at the specification level: consuming `count` of the
/// remaining bytes, leaving the discard or finishing it.
pub open spec fn spec_discard_step(s: ReadState, count: int) -> ReadState {
    match s {
        ReadState::DiscardMessage { remaining } => if count == remaining {
            ReadState::ReadHeader
        } else {
            ReadState::DiscardMessage { remaining: (remaining - count) as u32 }
        },
        _ => s,
    }
}

/// The state after a run of discard steps of the given sizes.
pub open spec fn spec_discard_run(s: ReadState, counts: Seq<int>) -> ReadState
    decreases counts.len(),
{
    if counts.len() == 0 {
        s
    } else {
        spec_discard_run(spec_discard_step(s, counts[0]), counts.drop_first())
    }
}

/// Each read is non-negative and no larger than what then remains of `n`.
pub open spec fn spec_discard_counts_valid(n: int, counts: Seq<int>) -> bool
    decreases counts.len(),
{
    counts.len() == 0 || (0 <= counts[0] <= n && spec_discard_counts_valid(
        n - counts[0],
        counts.drop_first(),
    ))
}

/// The sum of a sequence of counts.
pub open spec fn seq_sum(counts: Seq<int>) -> int
    decreases counts.len(),
{
    if counts.len() == 0 {
        0
    } else {
        counts[0] + seq_sum(counts.drop_first())
    }
}

proof fn lemma_valid_zero_sum(counts: Seq<int>)
    requires
        spec_discard_counts_valid(0, counts),
    ensures
        seq_sum(counts) == 0,
    decreases counts.len(),
{
    if counts.len() > 0 {
        lemma_valid_zero_sum(counts.drop_first());
    }
}

proof fn lemma_run_fixed_outside_discard(s: ReadState, counts: Seq<int>)
    requires
        !(s is DiscardMessage),
    ensures
        spec_discard_run(s, counts) == s,
    decreases counts.len(),
{
    if counts.len() > 0 {
        lemma_run_fixed_outside_discard(s, counts.drop_first());
    }
}

/// Oversized-frame discard is exact: from a discard of `n` bytes, however
/// the reads are sized, the reader never consumes more than `n` bytes, and
/// it is back to parsing headers exactly when the reads sum to `n`; short of
/// that, exactly the difference is still to be discarded.
pub proof fn lemma_discard_exact(n: u32, counts: Seq<int>)
    requires
        n >= 1,
        spec_discard_counts_valid(n as int, counts),
    ensures
        0 <= seq_sum(counts) <= n,
        spec_discard_run(ReadState::DiscardMessage { remaining: n }, counts) == if seq_sum(counts)
            == n {
            ReadState::ReadHeader
        } else {
            ReadState::DiscardMessage { remaining: (n - seq_sum(counts)) as u32 }
        },
    decreases counts.len(),
{
    if counts.len() > 0 {
        let c = counts[0];
        let rest = counts.drop_first();
        if c == n {
            lemma_valid_zero_sum(rest);
            lemma_run_fixed_outside_discard(ReadState::ReadHeader, rest);
        } else {
            lemma_discard_exact((n - c) as u32, rest);
        }
    }
}

} // verus!
