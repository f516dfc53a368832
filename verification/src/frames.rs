//! The frame stream model: what a connection's byte stream means.
//!
//! A frame is `size:u32 (little-endian), seq:u8, type:u8, payload` where
//! `size` counts the whole frame, header included, and `seq` increments by
//! one per frame, wrapping at 255.  `decode` gives the meaning of any byte
//! prefix of such a stream: the payloads of the complete frames it holds, the
//! next expected sequence value, and whether the prefix already shows a
//! protocol violation.  The executable `Decoder` is proved against it.
use vstd::bytes::{spec_u32_from_le_bytes, spec_u32_to_le_bytes};
use vstd::prelude::*;

use crate::buff::Buff;
use crate::er::Er;

verus! {

/// The two protocol violations a byte stream itself can show: a frame size
/// below the 6 header bytes, and a sequence byte out of order.
#[derive(Debug, Clone, Copy, PartialEq, Eq, Structural)]
pub enum DecodeFailure {
    BadSize,
    BadSeq,
}

/// The meaning of a byte-stream prefix: completed payloads in order, the
/// sequence value the next frame must carry, and the violation found, if any.
pub struct DecodeState {
    pub done: Seq<Seq<u8>>,
    pub expected_seq: u8,
    pub failure: Option<DecodeFailure>,
}

/// The sequence value that follows `s`, wrapping at 255.
pub open spec fn next_seq(s: u8) -> u8 {
    if s == 255 {
        0u8
    } else {
        (s + 1) as u8
    }
}

/// The declared size of the frame at the head of `fed`.
pub open spec fn frame_size(fed: Seq<u8>) -> int
    recommends
        fed.len() >= 4,
{
    spec_u32_from_le_bytes(fed.subrange(0, 4)) as int
}

/// Whether `fed` starts with one complete frame carrying sequence `expected`.
pub open spec fn head_frame_complete(fed: Seq<u8>, expected: u8) -> bool {
    &&& fed.len() >= 6
    &&& frame_size(fed) >= 6
    &&& fed[4] == expected
    &&& fed.len() >= frame_size(fed)
}

/// The meaning of the byte prefix `fed` when the next frame must carry
/// sequence `expected`: complete frames are peeled off the head one by one;
/// an undersized frame or a wrong sequence byte stops decoding with a
/// failure; a trailing partial frame contributes nothing yet.
pub open spec fn decode(fed: Seq<u8>, expected: u8) -> DecodeState
    decreases fed.len(),
{
    if fed.len() < 4 {
        DecodeState { done: Seq::empty(), expected_seq: expected, failure: None }
    } else if frame_size(fed) < 6 {
        DecodeState {
            done: Seq::empty(),
            expected_seq: expected,
            failure: Some(DecodeFailure::BadSize),
        }
    } else if fed.len() < 5 {
        DecodeState { done: Seq::empty(), expected_seq: expected, failure: None }
    } else if fed[4] != expected {
        DecodeState {
            done: Seq::empty(),
            expected_seq: expected,
            failure: Some(DecodeFailure::BadSeq),
        }
    } else if fed.len() < frame_size(fed) {
        DecodeState { done: Seq::empty(), expected_seq: expected, failure: None }
    } else {
        let size = frame_size(fed);
        let rest = decode(fed.skip(size), next_seq(expected));
        DecodeState {
            done: seq![fed.subrange(6, size)].add(rest.done),
            expected_seq: rest.expected_seq,
            failure: rest.failure,
        }
    }
}

/// The meaning of a whole connection's stream, which starts at sequence 0.
pub open spec fn decode0(fed: Seq<u8>) -> DecodeState {
    decode(fed, 0u8)
}

/// Whether `fed` is exactly a concatenation of complete, in-sequence frames,
/// with nothing left over.
pub open spec fn exact_frames(fed: Seq<u8>, expected: u8) -> bool
    decreases fed.len(),
{
    ||| fed.len() == 0
    ||| (head_frame_complete(fed, expected) && exact_frames(
        fed.skip(frame_size(fed)),
        next_seq(expected),
    ))
}

/// Whether `fed` is a partial frame: too short to decide anything, or a
/// well-formed head that still waits for more bytes.
pub open spec fn partial_frame(fed: Seq<u8>, expected: u8) -> bool {
    ||| fed.len() < 4
    ||| (frame_size(fed) >= 6 && fed.len() < frame_size(fed) && (fed.len() < 5 || fed[4]
        == expected))
}

/// A partial frame decodes to nothing: no payloads, no failure, and the
/// expected sequence unchanged.
pub proof fn lemma_decode_partial(fed: Seq<u8>, expected: u8)
    requires
        partial_frame(fed, expected),
    ensures
        decode(fed, expected).done == Seq::<Seq<u8>>::empty(),
        decode(fed, expected).expected_seq == expected,
        decode(fed, expected).failure is None,
{
}

/// Decoding distributes over a prefix made of exact frames: the bytes after
/// it decode independently, starting from the sequence the prefix ends at.
pub proof fn lemma_decode_concat(a: Seq<u8>, b: Seq<u8>, expected: u8)
    requires
        exact_frames(a, expected),
    ensures
        decode(a, expected).failure is None,
        decode(a.add(b), expected).done == decode(a, expected).done.add(
            decode(b, decode(a, expected).expected_seq).done,
        ),
        decode(a.add(b), expected).expected_seq == decode(
            b,
            decode(a, expected).expected_seq,
        ).expected_seq,
        decode(a.add(b), expected).failure == decode(b, decode(a, expected).expected_seq).failure,
    decreases a.len(),
{
    if a.len() == 0 {
        assert(a.add(b) =~= b);
        assert(decode(a, expected).done.add(decode(b, expected).done) =~= decode(b, expected).done);
    } else {
        let size = frame_size(a);
        let ab = a.add(b);
        assert(ab.subrange(0, 4) =~= a.subrange(0, 4));
        assert(ab[4] == a[4]);
        assert(ab.skip(size) =~= a.skip(size).add(b));
        assert(ab.subrange(6, size) =~= a.subrange(6, size));
        lemma_decode_concat(a.skip(size), b, next_seq(expected));
        assert(decode(ab, expected).done =~= decode(a, expected).done.add(
            decode(b, decode(a, expected).expected_seq).done,
        ));
    }
}

/// Once a prefix shows a violation, further bytes change nothing: the
/// failure and the payloads delivered before it stay as they are.
pub proof fn lemma_decode_failed_extend(a: Seq<u8>, b: Seq<u8>, expected: u8)
    requires
        decode(a, expected).failure is Some,
    ensures
        decode(a.add(b), expected).failure == decode(a, expected).failure,
        decode(a.add(b), expected).done == decode(a, expected).done,
    decreases a.len(),
{
    let ab = a.add(b);
    assert(ab.subrange(0, 4) =~= a.subrange(0, 4));
    if a.len() >= 4 && frame_size(a) < 6 {
    } else if a.len() >= 5 && frame_size(a) >= 6 && a[4] != expected {
        assert(ab[4] == a[4]);
    } else {
        let size = frame_size(a);
        assert(a.len() >= size);
        assert(ab[4] == a[4]);
        assert(ab.skip(size) =~= a.skip(size).add(b));
        assert(ab.subrange(6, size) =~= a.subrange(6, size));
        lemma_decode_failed_extend(a.skip(size), b, next_seq(expected));
        assert(decode(ab, expected).done =~= decode(a, expected).done);
    }
}

/// The bytes of one frame with the given sequence byte, type byte and
/// payload.
pub open spec fn frame_bytes(seq_byte: u8, type_byte: u8, payload: Seq<u8>) -> Seq<u8>
    recommends
        payload.len() + 6 <= u32::MAX,
{
    spec_u32_to_le_bytes((payload.len() + 6) as u32).add(seq![seq_byte, type_byte]).add(payload)
}

/// The bytes of a stream of frames, each a type byte and a payload, carrying
/// sequences `seq0, seq0+1, ...` (wrapping at 255).
pub open spec fn encode_stream(frames: Seq<(u8, Seq<u8>)>, seq0: u8) -> Seq<u8>
    decreases frames.len(),
{
    if frames.len() == 0 {
        Seq::empty()
    } else {
        frame_bytes(seq0, frames[0].0, frames[0].1).add(
            encode_stream(frames.drop_first(), next_seq(seq0)),
        )
    }
}

/// The payloads of a stream of frames, in order.
pub open spec fn payloads_of(frames: Seq<(u8, Seq<u8>)>) -> Seq<Seq<u8>> {
    frames.map_values(|f: (u8, Seq<u8>)| f.1)
}

/// Facts about the head frame of an encoded stream.
proof fn lemma_frame_bytes_head(seq_byte: u8, type_byte: u8, payload: Seq<u8>, rest: Seq<u8>)
    requires
        payload.len() + 6 <= u32::MAX,
    ensures
        ({
            let s = frame_bytes(seq_byte, type_byte, payload).add(rest);
            &&& s.len() == payload.len() + 6 + rest.len()
            &&& frame_size(s) == payload.len() + 6
            &&& s[4] == seq_byte
            &&& s.subrange(6, payload.len() + 6 as int) == payload
            &&& s.skip(payload.len() + 6 as int) == rest
        }),
{
    vstd::bytes::lemma_auto_spec_u32_to_from_le_bytes();
    let f = frame_bytes(seq_byte, type_byte, payload);
    let s = f.add(rest);
    assert(s.subrange(0, 4) =~= spec_u32_to_le_bytes((payload.len() + 6) as u32));
    assert(s.subrange(6, payload.len() + 6 as int) =~= payload);
    assert(s.skip(payload.len() + 6 as int) =~= rest);
}

/// A stream of frames with in-order sequences decodes to exactly its
/// payloads, once each and in order, with no failure.
pub proof fn lemma_valid_stream_decodes(frames: Seq<(u8, Seq<u8>)>, seq0: u8)
    requires
        forall|i: int| 0 <= i < frames.len() ==> #[trigger] frames[i].1.len() + 6 <= u32::MAX,
    ensures
        exact_frames(encode_stream(frames, seq0), seq0),
        decode(encode_stream(frames, seq0), seq0).done == payloads_of(frames),
        decode(encode_stream(frames, seq0), seq0).failure is None,
    decreases frames.len(),
{
    if frames.len() == 0 {
        assert(payloads_of(frames) =~= Seq::<Seq<u8>>::empty());
    } else {
        let payload = frames[0].1;
        let size = payload.len() + 6;
        let rest = encode_stream(frames.drop_first(), next_seq(seq0));
        let s = encode_stream(frames, seq0);
        lemma_frame_bytes_head(seq0, frames[0].0, payload, rest);
        lemma_valid_stream_decodes(frames.drop_first(), next_seq(seq0));
        assert(s.skip(frame_size(s)) == rest);
        assert(decode(s, seq0).done =~= payloads_of(frames));
    }
}

/// A frame whose sequence byte is out of order stops decoding right there:
/// the payloads before it are delivered, nothing after it is, and the
/// failure reported is the bad sequence.
pub proof fn lemma_bad_seq_detected(
    frames: Seq<(u8, Seq<u8>)>,
    seq0: u8,
    bad_seq: u8,
    bad_type: u8,
    bad_payload: Seq<u8>,
    rest: Seq<u8>,
)
    requires
        forall|i: int| 0 <= i < frames.len() ==> #[trigger] frames[i].1.len() + 6 <= u32::MAX,
        bad_payload.len() + 6 <= u32::MAX,
        bad_seq != decode(encode_stream(frames, seq0), seq0).expected_seq,
    ensures
        ({
            let s = encode_stream(frames, seq0).add(
                frame_bytes(bad_seq, bad_type, bad_payload),
            ).add(rest);
            &&& decode(s, seq0).failure == Some(DecodeFailure::BadSeq)
            &&& decode(s, seq0).done == payloads_of(frames)
        }),
{
    let a = encode_stream(frames, seq0);
    let tail = frame_bytes(bad_seq, bad_type, bad_payload).add(rest);
    lemma_valid_stream_decodes(frames, seq0);
    let e1 = decode(a, seq0).expected_seq;
    lemma_frame_bytes_head(bad_seq, bad_type, bad_payload, rest);
    assert(decode(tail, e1).failure == Some(DecodeFailure::BadSeq));
    lemma_decode_concat(a, tail, seq0);
    assert(a.add(frame_bytes(bad_seq, bad_type, bad_payload)).add(rest) =~= a.add(tail));
    assert(decode(a, seq0).done.add(Seq::<Seq<u8>>::empty()) =~= payloads_of(frames));
}

/// Builds the bytes of one frame: the little-endian size of the whole frame,
/// the sequence byte, the type byte, and the payload.
pub fn build_frame(seq: u8, type_code: u8, payload: &[u8]) -> (r: Vec<u8>)
    requires
        payload@.len() + 6 <= u32::MAX,
    ensures
        r@ == frame_bytes(seq, type_code, payload@),
{
    let size = (payload.len() + 6) as u32;
    let mut r = vstd::bytes::u32_to_le_bytes(size);
    r.push(seq);
    r.push(type_code);
    r.extend_from_slice(payload);
    proof {
        assert(r@ =~= frame_bytes(seq, type_code, payload@));
    }
    r
}

/// The error reported for each stream violation.
pub open spec fn er_of_failure(f: DecodeFailure) -> Er {
    match f {
        DecodeFailure::BadSize => Er::ParseError,
        DecodeFailure::BadSeq => Er::InvalidSequence,
    }
}

/// An incremental frame decoder: feed it the bytes of a connection, in any
/// chunking, and it collects each complete frame's payload exactly once, in
/// arrival order, failing exactly where the stream violates the protocol.
pub struct Decoder {
    /// Window over the unconsumed tail of the stream.
    pub buff: Buff,
    /// Payload bytes of the current frame collected so far.
    pub partial: Vec<u8>,
    /// Payloads of the completed frames, in arrival order.
    pub out: Vec<Vec<u8>>,
    /// The error the stream showed, once one has been found.
    pub failed: Option<Er>,
    /// The bytes of the completed frames.
    pub consumed: Ghost<Seq<u8>>,
    /// The bytes of the current, incomplete frame.
    pub cur: Ghost<Seq<u8>>,
}

impl Decoder {
    /// All bytes this decoder has accepted so far.
    pub open spec fn fed(self) -> Seq<u8> {
        self.consumed@.add(self.cur@)
    }

    /// Bookkeeping of the completed frames: `consumed` is exactly their
    /// bytes, and `out` holds exactly their payloads.
    pub open spec fn frames_inv(self) -> bool {
        &&& self.buff.wf()
        &&& exact_frames(self.consumed@, 0u8)
        &&& self.out.deep_view() == decode0(self.consumed@).done
    }

    /// Bookkeeping of the current frame: how the window, the cursors and the
    /// collected payload bytes stand for the bytes of the frame in progress.
    pub open spec fn cur_inv(self) -> bool {
        let c = self.cur@;
        let b = self.buff;
        &&& b.seq == decode0(self.consumed@).expected_seq
        &&& (b.rec_size is None ==> {
            &&& c.len() <= 4
            &&& b.rec_pos == 0
            &&& b.rec_upto == 0
            &&& b.buff_pos == c.len()
            &&& (forall|j: int| 0 <= j < c.len() ==> #[trigger] c[j] == b.buffer@[j])
            &&& !b.seq_checked
            &&& self.partial@ == Seq::<u8>::empty()
        })
        &&& (b.rec_size matches Some(sz) ==> {
            &&& c.len() >= 4
            &&& sz == spec_u32_from_le_bytes(c.subrange(0, 4))
            &&& sz >= 6
            &&& c.len() <= sz
            &&& 4 <= b.rec_upto <= c.len()
            &&& (b.rec_upto < 6 ==> b.rec_pos == b.rec_upto)
            &&& (b.rec_upto >= 6 ==> b.rec_pos == 0)
            &&& b.rec_upto + (b.buff_pos - b.rec_pos) == c.len()
            &&& (forall|j: int|
                b.rec_upto <= j < c.len() ==> #[trigger] c[j] == b.buffer@[b.rec_pos + (j
                    - b.rec_upto)])
            &&& (b.seq_checked <==> b.rec_upto >= 5)
            &&& (b.rec_upto >= 5 ==> c[4] == b.seq)
            &&& (b.rec_upto >= 6 ==> self.partial@ == c.subrange(6, b.rec_upto as int))
            &&& (b.rec_upto < 6 ==> self.partial@ == Seq::<u8>::empty())
        })
    }

    /// Everything available has been processed: the window is drained and
    /// the current frame is strictly incomplete.
    pub open spec fn processed(self) -> bool {
        let b = self.buff;
        &&& (b.rec_size is None ==> self.cur@.len() < 4)
        &&& (b.rec_size is Some ==> b.rec_pos == b.buff_pos && b.buff_pos <= 5 && self.cur@.len()
            < frame_size(self.cur@))
    }

    /// The decoder's invariant between calls.
    pub open spec fn wf(self) -> bool {
        &&& self.frames_inv()
        &&& match self.failed {
            None => self.cur_inv() && self.processed(),
            Some(e) => {
                &&& (decode0(self.fed()).failure matches Some(f) && er_of_failure(f) == e)
                &&& self.out.deep_view() == decode0(self.fed()).done
            },
        }
    }

    /// A fresh decoder: nothing fed, nothing delivered, no failure.
    pub fn new() -> (d: Decoder)
        ensures
            d.wf(),
            d.fed() == Seq::<u8>::empty(),
            d.out@ == Seq::<Vec<u8>>::empty(),
            d.failed is None,
    {
        let d = Decoder {
            buff: Buff::new(),
            partial: Vec::new(),
            out: Vec::new(),
            failed: None,
            consumed: Ghost(Seq::empty()),
            cur: Ghost(Seq::empty()),
        };
        proof {
            assert(d.fed() =~= Seq::<u8>::empty());
            assert(d.out.deep_view() =~= decode0(d.consumed@).done);
            assert(d.buff.buffer@.subrange(0, 0) =~= d.cur@);
        }
        d
    }

    /// Processes whatever the window holds: reads the size, checks the
    /// sequence byte, consumes the type byte, collects payload bytes, and on
    /// completion delivers the payload.  Fails exactly when the bytes show a
    /// violation.
    #[verifier::rlimit(60)]
    fn pump(&mut self) -> (r: Result<(), Er>)
        requires
            old(self).frames_inv(),
            old(self).cur_inv(),
            old(self).failed is None,
        ensures
            final(self).wf(),
            final(self).fed() == old(self).fed(),
            r is Ok <==> final(self).failed is None,
            r matches Err(e) ==> final(self).failed == Some(e),
    {
        let ghost c = self.cur@;

        // Frame size: the leading u32, present once four bytes are in.
        if self.buff.rec_size.is_none() {
            let ghost pre = *self;
            if let Some(sz) = self.buff.read_u32() {
                proof {
                    assert(pre.buff.buffer@.subrange(0, 4) =~= c.subrange(0, 4));
                }
                if sz < 6 {
                    self.failed = Some(Er::ParseError);
                    proof {
                        lemma_decode_concat(self.consumed@, c, 0u8);
                        assert(decode0(self.consumed@).done.add(Seq::<Seq<u8>>::empty())
                            =~= decode0(self.consumed@).done);
                    }
                    return Err(Er::ParseError);
                }
                self.buff.rec_size = Some(sz);
            }
        }

        // Sequence byte: checked once, right after the size.
        if self.buff.rec_size.is_some() && !self.buff.seq_checked {
            let ghost pre = *self;
            proof {
                assert(pre.buff.rec_upto == 4);
                if pre.buff.rec_pos < pre.buff.buff_pos {
                    assert(c[4] == pre.buff.buffer@[pre.buff.rec_pos as int]);
                }
            }
            match self.buff.check_seq() {
                Ok(_) => {},
                Err(e) => {
                    self.failed = Some(e);
                    proof {
                        assert(c.len() >= 5);
                        assert(decode(c, pre.buff.seq).failure == Some(DecodeFailure::BadSeq));
                        lemma_decode_concat(self.consumed@, c, 0u8);
                        assert(decode0(self.consumed@).done.add(Seq::<Seq<u8>>::empty())
                            =~= decode0(self.consumed@).done);
                    }
                    return Err(e);
                },
            }
        }

        // Type byte: consumed right after the sequence byte; the decoder
        // keeps payloads only, so its value is not recorded.
        if self.buff.rec_size.is_some() && self.buff.seq_checked && self.buff.rec_upto == 5 {
            let t = self.buff.read_u8();
            proof {
                if t is Some {
                    assert(self.partial@ =~= c.subrange(6, 6));
                }
            }
        }

        // Payload: surface what is visible, and on completion deliver it.
        if self.buff.rec_size.is_some() && self.buff.rec_upto >= 6 {
            let ghost pre = *self;
            let vis = self.buff.data();
            proof {
                assert(pre.buff.read_to_spec() == pre.buff.buff_pos);
                assert(pre.buff.visible_seq() =~= c.subrange(
                    pre.buff.rec_upto as int,
                    c.len() as int,
                ));
            }
            self.partial.extend_from_slice(vis);
            proof {
                if pre.buff.rec_upto > 6 {
                    assert(self.partial@ =~= c.subrange(6, c.len() as int));
                } else {
                    assert(self.partial@ =~= c.subrange(6, c.len() as int));
                }
            }
            let complete = self.buff.is_end_of_record();
            self.buff.reset();
            if complete {
                let payload = self.partial.split_off(0);
                proof {
                    assert(self.partial@ =~= Seq::<u8>::empty());
                }
                proof {
                    assert(payload.deep_view() =~= payload@);
                    assert(payload@ =~= c.subrange(6, c.len() as int));
                }
                self.out.push(payload);
                proof {
                    lemma_exact_frames_push(self.consumed@, c, 0u8);
                    assert(self.out.deep_view() =~= decode0(self.consumed@.add(c)).done);
                }
                self.consumed = Ghost(self.consumed@.add(c));
                self.cur = Ghost(Seq::empty());
                proof {
                    assert(self.fed() =~= old(self).fed());
                }
            }
        }

        Ok(())
    }

    /// Accepts the next bytes of the stream, in any chunking, and decodes as
    /// far as they reach: afterwards the delivered payloads are exactly those
    /// of the complete frames in everything fed so far, and the result
    /// reports the first protocol violation the stream shows, if any.
    #[verifier::rlimit(60)]
    pub fn feed(&mut self, input: &[u8]) -> (r: Result<(), Er>)
        requires
            old(self).wf(),
        ensures
            final(self).wf(),
            final(self).out.deep_view() == decode0(old(self).fed().add(input@)).done,
            r is Ok <==> decode0(old(self).fed().add(input@)).failure is None,
            decode0(old(self).fed().add(input@)).failure matches Some(f) ==> (r matches Err(e)
                && e == er_of_failure(f)),
            r is Ok ==> final(self).fed() == old(self).fed().add(input@) && final(self).failed
                is None,
    {
        let ghost whole = old(self).fed().add(input@);

        if let Some(e) = self.failed {
            proof {
                lemma_decode_failed_extend(self.fed(), input@, 0u8);
            }
            return Err(e);
        }

        let mut pos: usize = 0;
        while pos < input.len()
            invariant
                self.frames_inv(),
                self.cur_inv(),
                self.processed(),
                self.failed is None,
                pos <= input.len(),
                self.fed() == old(self).fed().add(input@.subrange(0, pos as int)),
                whole == old(self).fed().add(input@),
            decreases input.len() - pos,
        {
            let allowed: usize = match self.buff.rec_size {
                None => 4 - self.buff.buff_pos as usize,
                Some(s) => (s - self.buff.rec_upto) as usize,
            };
            let remaining = input.len() - pos;
            let chunk = if allowed <= remaining {
                allowed
            } else {
                remaining
            };
            let piece = vstd::slice::slice_subrange(input, pos, pos + chunk);
            let ghost pre = *self;
            let took = match self.buff.read_data(piece) {
                Ok(n) => n,
                Err(_) => vstd::pervasive::unreached(),
            };
            self.cur = Ghost(self.cur@.add(input@.subrange(pos as int, pos + took)));
            proof {
                assert(input@.subrange(pos as int, pos + took) =~= piece@.subrange(
                    0,
                    took as int,
                ));
                if pre.buff.rec_size is Some {
                    assert(self.cur@.subrange(0, 4) =~= pre.cur@.subrange(0, 4));
                    if pre.buff.rec_upto >= 6 {
                        assert(self.partial@ =~= self.cur@.subrange(
                            6,
                            self.buff.rec_upto as int,
                        ));
                    }
                }
                assert(input@.subrange(0, pos + took) =~= input@.subrange(0, pos as int).add(
                    input@.subrange(pos as int, pos + took),
                ));
                assert(self.consumed@.add(self.cur@) =~= pre.consumed@.add(pre.cur@).add(
                    input@.subrange(pos as int, pos + took),
                ));
                assert(old(self).fed().add(input@.subrange(0, pos as int)).add(
                    input@.subrange(pos as int, pos + took),
                ) =~= old(self).fed().add(input@.subrange(0, pos + took)));
                assert(self.fed() == old(self).fed().add(input@.subrange(0, pos + took)));
            }
            pos = pos + took;
            match self.pump() {
                Ok(_) => {},
                Err(e) => {
                    proof {
                        assert(whole =~= self.fed().add(input@.subrange(pos as int, input@.len() as int)));
                        lemma_decode_failed_extend(
                            self.fed(),
                            input@.subrange(pos as int, input@.len() as int),
                            0u8,
                        );
                    }
                    return Err(e);
                },
            }
        }
        proof {
            assert(input@.subrange(0, input@.len() as int) =~= input@);
            lemma_decode_concat(self.consumed@, self.cur@, 0u8);
            lemma_decode_partial(self.cur@, self.buff.seq);
            assert(decode0(self.consumed@).done.add(Seq::<Seq<u8>>::empty()) =~= decode0(
                self.consumed@,
            ).done);
        }
        Ok(())
    }
}

/// The payloads a well-formed decoder has delivered are exactly those of the
/// complete frames among the bytes fed to it, whatever the chunking was.
pub proof fn lemma_decoder_output(d: Decoder)
    requires
        d.wf(),
    ensures
        d.out.deep_view() == decode0(d.fed()).done,
        d.failed is None ==> decode0(d.fed()).failure is None,
{
    match d.failed {
        None => {
            lemma_decode_concat(d.consumed@, d.cur@, 0u8);
            lemma_decode_partial(d.cur@, d.buff.seq);
            assert(decode0(d.consumed@).done.add(Seq::<Seq<u8>>::empty()) =~= decode0(
                d.consumed@,
            ).done);
        },
        Some(_) => {},
    }
}

/// A decoder fed a stream of valid frames with in-order sequences has
/// delivered exactly that stream's payloads, once each and in order, and has
/// found no violation.
pub proof fn lemma_decoder_on_valid_stream(d: Decoder, frames: Seq<(u8, Seq<u8>)>)
    requires
        d.wf(),
        d.fed() == encode_stream(frames, 0u8),
        forall|i: int| 0 <= i < frames.len() ==> #[trigger] frames[i].1.len() + 6 <= u32::MAX,
    ensures
        d.out.deep_view() == payloads_of(frames),
        d.failed is None,
{
    lemma_valid_stream_decodes(frames, 0u8);
    lemma_decoder_output(d);
}

/// Delivering a stream in parts changes nothing: two well-formed decoders
/// that were fed the same bytes, in whatever chunking each, have delivered
/// the same payloads.
pub proof fn lemma_split_delivery(d1: Decoder, d2: Decoder)
    requires
        d1.wf(),
        d2.wf(),
        d1.fed() == d2.fed(),
    ensures
        d1.out.deep_view() == d2.out.deep_view(),
{
    lemma_decoder_output(d1);
    lemma_decoder_output(d2);
}

/// Appending one complete, in-sequence frame to an exact prefix keeps it
/// exact, delivers exactly that frame's payload, and advances the sequence.
pub proof fn lemma_exact_frames_push(a: Seq<u8>, f: Seq<u8>, expected: u8)
    requires
        exact_frames(a, expected),
        head_frame_complete(f, decode(a, expected).expected_seq),
        f.len() == frame_size(f),
    ensures
        exact_frames(a.add(f), expected),
        decode(a.add(f), expected).done == decode(a, expected).done.push(f.subrange(6, f.len() as int)),
        decode(a.add(f), expected).expected_seq == next_seq(decode(a, expected).expected_seq),
    decreases a.len(),
{
    let e1 = decode(a, expected).expected_seq;
    assert(f.skip(frame_size(f)) =~= Seq::<u8>::empty());
    lemma_decode_concat(a, f, expected);
    assert(decode(Seq::<u8>::empty(), next_seq(e1)).done == Seq::<Seq<u8>>::empty());
    assert(exact_frames(Seq::<u8>::empty(), next_seq(e1)));
    assert(decode(f, e1).done =~= seq![f.subrange(6, f.len() as int)]);
    assert(decode(a, expected).done.add(seq![f.subrange(6, f.len() as int)]) =~= decode(
        a,
        expected,
    ).done.push(f.subrange(6, f.len() as int)));
    // exactness of the extended prefix, by walking the frames of `a`
    if a.len() == 0 {
        assert(a.add(f) =~= f);
    } else {
        let size = frame_size(a);
        let af = a.add(f);
        assert(af.subrange(0, 4) =~= a.subrange(0, 4));
        assert(af[4] == a[4]);
        assert(af.skip(size) =~= a.skip(size).add(f));
        lemma_exact_frames_push(a.skip(size), f, next_seq(expected));
    }
}

} // verus!
