//! The client library: the frame encoders producers and consumers send with,
//! the frame decoder they receive with, and the message reassembler that
//! turns a data feed and an index feed back into whole records.
use std::collections::VecDeque;

use vstd::bytes::{spec_u32_to_le_bytes, spec_u64_from_le_bytes, u32_to_le_bytes};
use vstd::prelude::*;
use vstd::string::StringSliceAdditionalSpecFns;

use crate::buff::Buff;
use crate::er::Er;
use crate::frames::{build_frame, frame_bytes, next_seq};
use crate::tcp::{record_type_of_code, RecordType};

verus! {

/// The client-side message reassembler.  Data bytes arrive in FIFO order and
/// index boundaries arrive as absolute offsets; each successive pair of
/// boundaries delimits one record, the follow snapshot's data offset serving
/// as the first record's start.  A record is emitted only when its boundary
/// and all its bytes have arrived.
pub struct Messages {
    /// Data-feed bytes not yet emitted as records.
    pub data: VecDeque<u8>,
    /// Record boundaries not yet consumed, as absolute data-file offsets.
    pub index: VecDeque<u64>,
    /// Absolute offset of the first byte in `data`.
    pub data_offset: u64,
    /// Count of boundaries consumed, from the follow snapshot's index offset.
    pub index_offset: u64,
    /// The highest boundary accepted so far; new boundaries may not go back.
    pub high: u64,
}

/// The reassembler's state as mathematics: the queued bytes and boundaries
/// and the absolute offsets they stand at.
pub struct MessagesModel {
    pub data: Seq<u8>,
    pub index: Seq<u64>,
    pub data_offset: u64,
    pub index_offset: u64,
    pub high: u64,
}

/// What one emission step returns and leaves behind, exactly as
/// `Messages::next` does: the bytes up to the first queued boundary, once
/// they have all arrived.
pub open spec fn pop_model(m: MessagesModel) -> (Option<Seq<u8>>, MessagesModel) {
    if m.index.len() == 0 {
        (None::<Seq<u8>>, m)
    } else {
        let idx = m.index[0];
        let size = idx - m.data_offset;
        if 0 <= size <= m.data.len() {
            (
                Some(m.data.subrange(0, size)),
                MessagesModel {
                    data: m.data.skip(size),
                    index: m.index.skip(1),
                    data_offset: idx,
                    index_offset: (m.index_offset + 1) as u64,
                    high: m.high,
                },
            )
        } else {
            (None::<Seq<u8>>, m)
        }
    }
}

/// Every record the reassembler can emit right now, in order, and the state
/// it leaves behind: emission steps repeat until a boundary or its bytes are
/// missing (or the boundary counter runs out of headroom).
pub open spec fn drain(m: MessagesModel) -> (Seq<Seq<u8>>, MessagesModel)
    decreases m.index.len(),
{
    if m.index.len() == 0 {
        (Seq::<Seq<u8>>::empty(), m)
    } else {
        let idx = m.index[0];
        let size = idx - m.data_offset;
        if 0 <= size <= m.data.len() && m.index_offset < u64::MAX - 1 {
            let rec = m.data.subrange(0, size);
            let m1 = MessagesModel {
                data: m.data.skip(size),
                index: m.index.skip(1),
                data_offset: idx,
                index_offset: (m.index_offset + 1) as u64,
                high: m.high,
            };
            let rest = drain(m1);
            (seq![rec].add(rest.0), rest.1)
        } else {
            (Seq::<Seq<u8>>::empty(), m)
        }
    }
}

impl Messages {
    /// The reassembler's invariant: boundaries are non-decreasing, never
    /// before the data already emitted, and capped by the highest accepted.
    pub open spec fn wf(self) -> bool {
        &&& self.data_offset <= self.high
        &&& (forall|k: int| 0 <= k < self.index@.len() ==> self.data_offset <= #[trigger] self.index@[k] <= self.high)
        &&& (forall|k1: int, k2: int|
            0 <= k1 < k2 < self.index@.len() ==> #[trigger] self.index@[k1]
                <= #[trigger] self.index@[k2])
        &&& (self.index@.len() > 0 ==> self.index@.last() == self.high)
    }

    /// The absolute offset just past the last data byte received: the queue's
    /// end never moves backwards, and grows by exactly what is pushed.
    pub open spec fn data_end(self) -> int {
        self.data_offset + self.data@.len()
    }

    /// This reassembler's state as mathematics.
    pub open spec fn model(self) -> MessagesModel {
        MessagesModel {
            data: self.data@,
            index: self.index@,
            data_offset: self.data_offset,
            index_offset: self.index_offset,
            high: self.high,
        }
    }

    /// A reassembler starting from a follow snapshot's offsets.
    pub fn new(index_offset: u64, data_offset: u64) -> (m: Messages)
        ensures
            m.wf(),
            m.data@ == Seq::<u8>::empty(),
            m.index@ == Seq::<u64>::empty(),
            m.data_offset == data_offset,
            m.index_offset == index_offset,
            m.high == data_offset,
    {
        Messages {
            data: VecDeque::new(),
            index: VecDeque::new(),
            data_offset,
            index_offset,
            high: data_offset,
        }
    }

    /// Queues data-feed bytes, in arrival order.
    pub fn push_data(&mut self, input_data: &[u8])
        requires
            old(self).wf(),
        ensures
            final(self).wf(),
            final(self).data@ == old(self).data@ + input_data@,
            *final(self) == (Messages { data: final(self).data, ..*old(self) }),
    {
        let mut i: usize = 0;
        while i < input_data.len()
            invariant
                i <= input_data@.len(),
                self.data@ == old(self).data@ + input_data@.subrange(0, i as int),
                self.index == old(self).index,
                self.data_offset == old(self).data_offset,
                self.index_offset == old(self).index_offset,
                self.high == old(self).high,
            decreases input_data@.len() - i,
        {
            let b = *vstd::slice::slice_index_get(input_data, i);
            self.data.push_back(b);
            proof {
                assert(self.data@ =~= old(self).data@ + input_data@.subrange(0, i + 1));
            }
            i = i + 1;
        }
        proof {
            assert(input_data@.subrange(0, input_data@.len() as int) =~= input_data@);
        }
    }

    /// Queues one record boundary; boundaries never go backwards.
    pub fn push_index(&mut self, input_index: u64)
        requires
            old(self).wf(),
            input_index >= old(self).high,
        ensures
            final(self).wf(),
            final(self).index@ == old(self).index@.push(input_index),
            final(self).high == input_index,
            final(self).data@ == old(self).data@,
            final(self).data_offset == old(self).data_offset,
            final(self).index_offset == old(self).index_offset,
    {
        self.index.push_back(input_index);
        self.high = input_index;
    }

    /// Emits the next whole record, when its boundary and all its bytes have
    /// arrived: the bytes from the current data offset up to the first
    /// queued boundary.  Nothing is emitted while the boundary or bytes are
    /// still missing.
    pub fn next(&mut self) -> (r: Option<Vec<u8>>)
        requires
            old(self).wf(),
            old(self).index_offset < u64::MAX,
        ensures
            final(self).wf(),
            old(self).index@.len() == 0 ==> r is None && final(self).data@ == old(self).data@
                && final(self).index@ == old(self).index@ && final(self).data_offset == old(self).data_offset
                && final(self).index_offset == old(self).index_offset && final(self).high == old(self).high,
            old(self).index@.len() > 0 ==> {
                let idx = old(self).index@[0];
                let size = idx - old(self).data_offset;
                if old(self).data@.len() >= size {
                    &&& r matches Some(v) && v@ == old(self).data@.subrange(0, size as int)
                    &&& final(self).data@ == old(self).data@.subrange(
                        size as int,
                        old(self).data@.len() as int,
                    )
                    &&& final(self).index@ == old(self).index@.subrange(
                        1,
                        old(self).index@.len() as int,
                    )
                    &&& final(self).data_offset == idx
                    &&& final(self).index_offset == old(self).index_offset + 1
                    &&& final(self).high == old(self).high
                } else {
                    &&& r is None
                    &&& final(self).data@ == old(self).data@
                    &&& final(self).index@ == old(self).index@
                    &&& final(self).data_offset == old(self).data_offset
                    &&& final(self).index_offset == old(self).index_offset
                    &&& final(self).high == old(self).high
                }
            },
    {
        let idx = match self.index.pop_front() {
            Some(v) => v,
            None => {
                return None;
            },
        };
        let size64 = idx - self.data_offset;
        if size64 <= self.data.len() as u64 {
            let size = size64 as usize;
            let mut out: Vec<u8> = Vec::new();
            let mut k: usize = 0;
            while k < size
                invariant
                    k <= size,
                    size <= old(self).data@.len(),
                    out@ == old(self).data@.subrange(0, k as int),
                    self.data@ == old(self).data@.subrange(k as int, old(self).data@.len() as int),
                    self.index@ == old(self).index@.subrange(1, old(self).index@.len() as int),
                    self.data_offset == old(self).data_offset,
                    self.index_offset == old(self).index_offset,
                    self.high == old(self).high,
                decreases size - k,
            {
                let b = match self.data.pop_front() {
                    Some(v) => v,
                    None => vstd::pervasive::unreached(),
                };
                out.push(b);
                proof {
                    assert(out@ =~= old(self).data@.subrange(0, k + 1));
                    assert(self.data@ =~= old(self).data@.subrange(
                        k + 1,
                        old(self).data@.len() as int,
                    ));
                }
                k = k + 1;
            }
            self.data_offset = idx;
            self.index_offset = self.index_offset + 1;
            Some(out)
        } else {
            self.index.push_front(idx);
            proof {
                assert(self.index@ =~= old(self).index@);
            }
            None
        }
    }
}

/// A reassembler with no queued boundary emits nothing.
proof fn lemma_drain_empty(m: MessagesModel)
    requires
        m.index.len() == 0,
    ensures
        drain(m).0 == Seq::<Seq<u8>>::empty(),
        drain(m).1 == m,
{
}

/// Emits every record the reassembler has completed, in order: exactly the
/// drain of its state, leaving exactly the drained state behind.
fn drain_messages(m: &mut Messages) -> (out: Vec<Vec<u8>>)
    requires
        old(m).wf(),
        old(m).index_offset < u64::MAX,
    ensures
        final(m).wf(),
        final(m).index_offset < u64::MAX,
        out.deep_view() == drain(old(m).model()).0,
        final(m).model() == drain(old(m).model()).1,
        drain(final(m).model()).0 == Seq::<Seq<u8>>::empty(),
    {
    let mut out: Vec<Vec<u8>> = Vec::new();
    loop
        invariant
            m.wf(),
            m.index_offset < u64::MAX,
            drain(old(m).model()).0 == out.deep_view().add(drain(m.model()).0),
            drain(old(m).model()).1 == drain(m.model()).1,
        ensures
            m.wf(),
            m.index_offset < u64::MAX,
            drain(old(m).model()).0 == out.deep_view().add(drain(m.model()).0),
            drain(old(m).model()).1 == drain(m.model()).1,
            drain(m.model()).0 == Seq::<Seq<u8>>::empty(),
            drain(m.model()).1 == m.model(),
        decreases m.index@.len(),
    {
        proof {
            assert(out.deep_view().add(Seq::<Seq<u8>>::empty()) =~= out.deep_view());
        }
        if m.index_offset >= u64::MAX - 1 {
            break;
        }
        let ghost pre = m.model();
        let popped = m.next();
        match popped {
            Some(v) => {
                proof {
                    let idx = pre.index[0];
                    let size = idx - pre.data_offset;
                    assert(m.model().data =~= pre.data.skip(size));
                    assert(m.model().index =~= pre.index.skip(1));
                    assert(m.model() == pop_model(pre).1);
                    assert(drain(pre).0 =~= seq![v@].add(drain(m.model()).0));
                }
                let ghost out0 = out.deep_view();
                proof {
                    assert(v.deep_view() =~= v@);
                }
                out.push(v);
                proof {
                    assert(out.deep_view() =~= out0.push(v@));
                    assert(out0.push(v@).add(drain(m.model()).0) =~= out0.add(
                        seq![v@].add(drain(m.model()).0),
                    ));
                }
            },
            None => {
                break;
            },
        }
    }
    proof {
        assert(out.deep_view().add(Seq::<Seq<u8>>::empty()) =~= out.deep_view());
    }
    out
}

/// Whether a decoded frame is waiting to be finished; the second component
/// of the decode loops' termination measure.
pub open spec fn pending_flag(c: Client) -> int {
    if c.pending_type is Some {
        1
    } else {
        0
    }
}

/// A producer or consumer connection's sending side and frame decoder.  The
/// caller owns the socket: it writes the frames the encoders return, and
/// fills `tcp_buff` with the bytes it read for `next` to decode.
pub struct Client {
    /// The sequence byte the next outgoing frame carries.
    pub seq: u8,
    /// The connection's framed buffer for incoming bytes.
    pub tcp_buff: Buff,
    /// The record type of a fully buffered incoming frame, once decoded.
    pub pending_type: Option<RecordType>,
}

impl Client {
    /// The decoder's invariant: the framed buffer is valid and the cursors
    /// stand where the protocol phases put them.
    pub open spec fn wf(self) -> bool {
        &&& self.tcp_buff.wf()
        &&& (self.tcp_buff.rec_size is None ==> self.tcp_buff.rec_upto == 0
            && self.pending_type is None)
        &&& (self.tcp_buff.rec_size matches Some(s) ==> {
            &&& s >= 6
            &&& (self.pending_type is None ==> self.tcp_buff.rec_upto == 4)
            &&& (self.pending_type is Some ==> self.tcp_buff.rec_upto >= 6
                && self.tcp_buff.is_end_spec())
        })
    }

    /// The current frame's declared size, as soon as it can be known.
    pub open spec fn frame_size(self) -> Option<u32> {
        self.tcp_buff.frame_size_known()
    }

    /// Whether the whole current frame is buffered.
    pub open spec fn frame_complete(self) -> bool {
        match self.frame_size() {
            Some(s) => s >= 6 && self.tcp_buff.frame_avail() >= s,
            None => false,
        }
    }

    /// The current frame's record type, once decoded or once its type byte
    /// is buffered.
    pub open spec fn frame_rtype(self) -> RecordType {
        match self.pending_type {
            Some(t) => t,
            None => record_type_of_code(self.tcp_buff.frame_byte(5)),
        }
    }

    /// The current frame's payload, once the frame is whole.
    pub open spec fn frame_payload(self) -> Seq<u8> {
        self.tcp_buff.frame_bytes_at(6, self.frame_size()->Some_0 as int)
    }

    /// A fresh connection and its Auth frame: sequence 0, type Auth, and the
    /// topic name and token joined by the separator as payload.
    pub fn new(topic: &str, auth: &str) -> (r: (Client, Vec<u8>))
        requires
            topic.spec_bytes().len() + auth.spec_bytes().len() + 7 <= u32::MAX,
        ensures
            r.0.wf(),
            r.0.seq == 1,
            r.0.tcp_buff.buff_pos == 0,
            r.1@ == frame_bytes(0, 1, topic.spec_bytes().add(seq![59u8]).add(auth.spec_bytes())),
    {
        let mut payload: Vec<u8> = Vec::new();
        payload.extend_from_slice(topic.as_bytes());
        payload.push(59);
        payload.extend_from_slice(auth.as_bytes());
        proof {
            assert(payload@ =~= topic.spec_bytes().add(seq![59u8]).add(auth.spec_bytes()));
        }
        let frame = build_frame(0, 1, payload.as_slice());
        let client = Client { seq: 1, tcp_buff: Buff::new(), pending_type: None };
        (client, frame)
    }

    /// The Producer frame for one record on topic 1: the topic id, then the
    /// record's bytes.  Advances the outgoing sequence.
    pub fn send(&mut self, content: &str) -> (r: Vec<u8>)
        requires
            content.spec_bytes().len() + 10 <= u32::MAX,
        ensures
            r@ == frame_bytes(
                old(self).seq,
                2,
                spec_u32_to_le_bytes(1u32).add(content.spec_bytes()),
            ),
            final(self).seq == next_seq(old(self).seq),
            *final(self) == (Client { seq: final(self).seq, ..*old(self) }),
    {
        let mut payload = u32_to_le_bytes(1);
        payload.extend_from_slice(content.as_bytes());
        proof {
            assert(payload@ =~= spec_u32_to_le_bytes(1u32).add(content.spec_bytes()));
        }
        let frame = build_frame(self.seq, 2, payload.as_slice());
        self.seq = if self.seq == 255 {
            0
        } else {
            self.seq + 1
        };
        frame
    }

    /// The ConsumerFollowTopics frame for one topic.  Advances the outgoing
    /// sequence.
    pub fn follow_topic(&mut self, topic_id: u32) -> (r: Vec<u8>)
        ensures
            r@ == frame_bytes(old(self).seq, 3, spec_u32_to_le_bytes(topic_id)),
            final(self).seq == next_seq(old(self).seq),
            *final(self) == (Client { seq: final(self).seq, ..*old(self) }),
    {
        let payload = u32_to_le_bytes(topic_id);
        let frame = build_frame(self.seq, 3, payload.as_slice());
        self.seq = if self.seq == 255 {
            0
        } else {
            self.seq + 1
        };
        frame
    }

    /// Decodes the buffered bytes: exactly when a whole frame is in the
    /// buffer, its sequence byte is consumed (clients need not validate
    /// inbound sequences) and its record type is surfaced; the payload stays
    /// visible for the caller, who finishes the frame with `reset`.  A frame
    /// declaring fewer than its 6 header bytes fails with `ParseError`,
    /// touching nothing.
    pub fn next(&mut self) -> (r: Result<Option<RecordType>, Er>)
        requires
            old(self).wf(),
        ensures
            final(self).wf(),
            r == Err::<Option<RecordType>, Er>(Er::ParseError) <==> (old(self).frame_size()
                matches Some(s) && s < 6),
            r is Err ==> r == Err::<Option<RecordType>, Er>(Er::ParseError) && *final(self)
                == *old(self),
            r is Ok ==> (r->Ok_0 is Some <==> old(self).frame_complete()),
            r matches Ok(Some(t)) ==> t == old(self).frame_rtype() && final(self).pending_type
                == Some(t) && final(self).tcp_buff.is_end_spec() && final(self).seq == old(self).seq && final(self).tcp_buff.seq == old(self).tcp_buff.seq,
            r matches Ok(Some(t)) && old(self).pending_type is None ==> final(self).tcp_buff.visible_seq() == old(self).frame_payload()
                && final(self).tcp_buff.rec_upto == 6 && final(self).tcp_buff.rec_size == Some(
                old(self).frame_size()->Some_0,
            ) && final(self).tcp_buff.frame_avail() == old(self).tcp_buff.frame_avail(),
            r matches Ok(None) ==> final(self).pending_type is None && final(self).frame_size()
                == old(self).frame_size() && final(self).tcp_buff.frame_avail() == old(self).tcp_buff.frame_avail() && final(self).tcp_buff.buffer@ == old(self).tcp_buff.buffer@
                && final(self).seq == old(self).seq,
            r matches Ok(None) && old(self).frame_size() is None ==> *final(self) == *old(self),
            final(self).tcp_buff.buff_pos - final(self).tcp_buff.rec_pos <= old(self).tcp_buff.buff_pos
                - old(self).tcp_buff.rec_pos,
            r is Ok && r->Ok_0 is Some && old(self).pending_type is None ==> final(self).tcp_buff.buff_pos
                - final(self).tcp_buff.rec_pos < old(self).tcp_buff.buff_pos - old(self).tcp_buff.rec_pos,
            old(self).pending_type is Some ==> *final(self) == *old(self),
    {
        let ghost pre = *old(self);
        if self.tcp_buff.rec_size.is_none() {
            let sz = match self.tcp_buff.peek_u32() {
                Some(v) => v,
                None => {
                    return Ok(None);
                },
            };
            if sz < 6 {
                return Err(Er::ParseError);
            }
            let consumed = match self.tcp_buff.read_u32() {
                Some(v) => v,
                None => vstd::pervasive::unreached(),
            };
            self.tcp_buff.rec_size = Some(consumed);
        }
        proof {
            assert(self.tcp_buff.rec_size == Some(pre.frame_size()->Some_0));
            assert(self.tcp_buff.frame_avail() == pre.tcp_buff.frame_avail());
            assert(self.tcp_buff.buffer@ == pre.tcp_buff.buffer@);
            assert(self.tcp_buff.rec_pos - self.tcp_buff.rec_upto == pre.tcp_buff.rec_pos
                - pre.tcp_buff.rec_upto);
        }
        if let Some(t) = self.pending_type {
            return Ok(Some(t));
        }
        if self.tcp_buff.is_end_of_record() {
            proof {
                assert(pre.tcp_buff.frame_avail() >= pre.frame_size()->Some_0);
                assert(pre.frame_complete());
            }
            let _seq_byte = match self.tcp_buff.read_u8() {
                Some(b) => b,
                None => vstd::pervasive::unreached(),
            };
            let ghost at_type = *self;
            let type_byte = match self.tcp_buff.read_u8() {
                Some(b) => b,
                None => vstd::pervasive::unreached(),
            };
            proof {
                assert(at_type.tcp_buff.buffer@[at_type.tcp_buff.rec_pos as int]
                    == pre.tcp_buff.frame_byte(5));
            }
            let t = RecordType::from(type_byte);
            self.pending_type = Some(t);
            proof {
                assert(self.tcp_buff.rec_upto == 6);
                assert(self.tcp_buff.read_to_spec() == self.tcp_buff.rec_pos + (
                pre.frame_size()->Some_0 - 6));
                assert(self.tcp_buff.visible_seq() =~= pre.frame_payload());
            }
            Ok(Some(t))
        } else {
            proof {
                assert(!pre.frame_complete());
            }
            Ok(None)
        }
    }

    /// The visible payload of the frame being decoded.
    pub fn data(&self) -> (r: &[u8])
        requires
            self.wf(),
            self.tcp_buff.rec_size is Some,
        ensures
            r@ == self.tcp_buff.visible_seq(),
    {
        self.tcp_buff.data()
    }

    /// Finishes the fully buffered frame: consumes what is left of it and
    /// readies the decoder for the next one.
    pub fn reset(&mut self)
        requires
            old(self).wf(),
            old(self).pending_type is Some,
        ensures
            final(self).wf(),
            final(self).pending_type is None,
            final(self).tcp_buff == old(self).tcp_buff.after_reset(),
            final(self).seq == old(self).seq,
    {
        self.tcp_buff.reset();
        self.pending_type = None;
    }
}

/// The receiving half of a consumer connection: decodes the feed frames the
/// broker sends and reassembles them into whole records.  The follow reply
/// must arrive before any feed frame; its snapshot offsets seed the
/// reassembler.
pub struct ReadClient {
    /// The connection's decoder.
    pub client: Client,
    /// The reassembler, once the follow reply has arrived.
    pub messages: Option<Messages>,
}

impl ReadClient {
    /// The receiver's invariant.
    pub open spec fn wf(self) -> bool {
        &&& self.client.wf()
        &&& (self.messages matches Some(m) ==> m.wf() && m.index_offset < u64::MAX)
    }

    /// A fresh receiver with nothing buffered.
    pub fn new() -> (r: ReadClient)
        ensures
            r.wf(),
            r.client.tcp_buff.buff_pos == 0,
            r.messages is None,
    {
        ReadClient {
            client: Client { seq: 0, tcp_buff: Buff::new(), pending_type: None },
            messages: None,
        }
    }

    /// Whether the buffered bytes hold exactly one whole frame and this
    /// pass brings no new ones: the single-step case the contract pins
    /// exactly.
    pub open spec fn single_frame(self, input: Seq<u8>) -> bool {
        &&& self.client.pending_type is None
        &&& self.client.frame_complete()
        &&& self.client.tcp_buff.frame_avail() < self.client.frame_size()->Some_0 + 4
        &&& input.len() == 0
    }

    /// Whether the head of the buffer declares a frame smaller than its own
    /// header.
    pub open spec fn head_small(self) -> bool {
        self.client.frame_size() matches Some(s) && s < 6
    }

    /// Whether a whole feed frame sits at the head with no reassembler to
    /// take it.
    pub open spec fn head_feed_unseeded(self) -> bool {
        &&& self.client.pending_type is None
        &&& self.client.frame_complete()
        &&& self.messages is None
        &&& (self.client.frame_rtype() == RecordType::DataFeed || (self.client.frame_rtype()
            == RecordType::IndexFeed && self.client.frame_size()->Some_0 >= 14))
    }

    /// Whether a whole index feed too short for one boundary sits at the
    /// head.
    pub open spec fn head_index_short(self) -> bool {
        &&& self.client.pending_type is None
        &&& self.client.frame_complete()
        &&& self.client.frame_rtype() == RecordType::IndexFeed
        &&& self.client.frame_size()->Some_0 < 14
    }

    /// Whether a whole follow reply sits at the head.
    pub open spec fn head_follow(self) -> bool {
        &&& self.client.pending_type is None
        &&& self.client.frame_complete()
        &&& self.client.frame_rtype() == RecordType::ConsumerFollowTopics
    }

    /// The first snapshot offset of a follow reply at the head.
    pub open spec fn head_index_start(self) -> u64 {
        spec_u64_from_le_bytes(self.client.frame_payload().subrange(0, 8))
    }

    /// One pass over the bytes read from the socket: takes what fits into
    /// the buffer, decodes every whole frame in it — the follow reply seeds
    /// the reassembler, data and index feeds fill it, anything else is
    /// dropped — and returns how many bytes were taken along with every
    /// record completed by this pass, in order.  Feed frames before the
    /// follow reply fail with `NoConsumerStart`; a feed frame too short for
    /// its kind, or an index boundary going backwards, fails with
    /// `ParseError`.
    #[verifier::rlimit(80)]
    pub fn run(&mut self, input: &[u8]) -> (r: Result<(usize, Vec<Vec<u8>>), Er>)
        requires
            old(self).wf(),
        ensures
            r is Ok ==> final(self).wf(),
            r matches Err(e) ==> e == Er::ParseError || e == Er::NoConsumerStart || e
                == Er::FailedToReadDataStart,
            r matches Ok((taken, msgs)) ==> taken == if input@.len() <= crate::buff::BUFF_SIZE
                - old(self).client.tcp_buff.buff_pos {
                input@.len() as int
            } else {
                crate::buff::BUFF_SIZE - old(self).client.tcp_buff.buff_pos
            },
            // A malformed frame at the head is refused.
            old(self).head_small() ==> r == Err::<(usize, Vec<Vec<u8>>), Er>(Er::ParseError),
            // Feed frames ahead of the follow reply are refused.
            old(self).head_feed_unseeded() ==> r == Err::<(usize, Vec<Vec<u8>>), Er>(
                Er::NoConsumerStart,
            ),
            // An index feed too short for one boundary is refused.
            old(self).head_index_short() ==> r == Err::<(usize, Vec<Vec<u8>>), Er>(Er::ParseError),
            // The follow reply seeds the reassembler from its two offsets, or
            // is refused when short or unreadable.
            old(self).head_follow() && old(self).client.frame_size()->Some_0 < 22 ==> r == Err::<
                (usize, Vec<Vec<u8>>),
                Er,
            >(Er::FailedToReadDataStart),
            old(self).head_follow() && old(self).client.frame_size()->Some_0 >= 22 && old(self).head_index_start() == u64::MAX ==> r == Err::<(usize, Vec<Vec<u8>>), Er>(
                Er::FailedToReadDataStart,
            ),
            old(self).head_follow() && old(self).client.frame_size()->Some_0 >= 22 && old(self).head_index_start() != u64::MAX ==> final(self).messages is Some,
            // With exactly one whole frame buffered, the step is pinned: the
            // frame lands in the reassembler and the returned records are
            // exactly its drain afterwards.
            old(self).single_frame(input@) ==> {
                let s = old(self).client.frame_size()->Some_0;
                let payload = old(self).client.frame_payload();
                let m = old(self).messages->Some_0;
                &&& (old(self).client.frame_rtype() == RecordType::DataFeed && old(self).messages
                    is Some ==> {
                    let pushed = (MessagesModel { data: m.model().data + payload, ..(m.model()) });
                    &&& (r matches Ok(p) && p.1.deep_view() == drain(pushed).0)
                    &&& final(self).messages is Some
                    &&& final(self).messages->Some_0.model() == drain(pushed).1
                })
                &&& (old(self).client.frame_rtype() == RecordType::IndexFeed && s >= 14 && old(self).messages
                    is Some && spec_u64_from_le_bytes(payload.subrange(0, 8)) >= m.high ==> {
                    let idx = spec_u64_from_le_bytes(payload.subrange(0, 8));
                    let pushed = (MessagesModel {
                        index: m.model().index.push(idx),
                        high: idx,
                        ..(m.model())
                    });
                    &&& (r matches Ok(p) && p.1.deep_view() == drain(pushed).0)
                    &&& final(self).messages is Some
                    &&& final(self).messages->Some_0.model() == drain(pushed).1
                })
                &&& (old(self).client.frame_rtype() == RecordType::ConsumerFollowTopics && s >= 22
                    && spec_u64_from_le_bytes(payload.subrange(0, 8)) != u64::MAX ==> {
                    let fresh = (MessagesModel {
                        data: Seq::empty(),
                        index: Seq::empty(),
                        data_offset: spec_u64_from_le_bytes(payload.subrange(8, 16)),
                        index_offset: spec_u64_from_le_bytes(payload.subrange(0, 8)),
                        high: spec_u64_from_le_bytes(payload.subrange(8, 16)),
                    });
                    &&& (r matches Ok(p) && p.1@.len() == 0)
                    &&& final(self).messages is Some
                    &&& final(self).messages->Some_0.model() == fresh
                })
            },
            // Whatever was decoded, every record completed by this pass is
            // returned: nothing emittable is left queued behind.
            r is Ok && final(self).messages is Some ==> drain(
                final(self).messages->Some_0.model(),
            ).0 == Seq::<Seq<u8>>::empty(),
            // With nothing decodable buffered and no new bytes, the pass is
            // exactly the reassembler's drain.
            input@.len() == 0 && old(self).client.pending_type is None && old(self).client.frame_size() is None ==> {
                &&& (old(self).messages is Some ==> (r matches Ok(p) && p.1.deep_view() == drain(
                    old(self).messages->Some_0.model(),
                ).0 && final(self).messages is Some && final(self).messages->Some_0.model()
                    == drain(old(self).messages->Some_0.model()).1))
                &&& (old(self).messages is None ==> (r matches Ok(p) && p.1@.len() == 0 && final(self).messages is None))
            },
    {
        let taken = if input.len() > 0 {
            match self.client.tcp_buff.read_data(input) {
                Ok(n) => n,
                Err(_) => vstd::pervasive::unreached(),
            }
        } else {
            0
        };
        let ghost entry = *self;
        proof {
            // The head frame's view survives the intake: its bytes sit below
            // the old end of the window, which the intake does not touch.
            if old(self).client.tcp_buff.rec_size is None && old(self).client.tcp_buff.buff_pos
                - old(self).client.tcp_buff.rec_pos >= 4 {
                assert(entry.client.tcp_buff.buffer@.subrange(
                    entry.client.tcp_buff.rec_pos as int,
                    entry.client.tcp_buff.rec_pos + 4,
                ) =~= old(self).client.tcp_buff.buffer@.subrange(
                    old(self).client.tcp_buff.rec_pos as int,
                    old(self).client.tcp_buff.rec_pos + 4,
                ));
            }
            if old(self).client.frame_complete() && old(self).client.pending_type is None {
                let s0 = old(self).client.frame_size()->Some_0;
                assert(entry.client.frame_size() == old(self).client.frame_size());
                assert(old(self).client.tcp_buff.rec_pos + (s0
                    - old(self).client.tcp_buff.rec_upto) <= old(self).client.tcp_buff.buff_pos);
                assert(entry.client.frame_payload() =~= old(self).client.frame_payload());
                assert(entry.client.tcp_buff.frame_byte(5) == old(self).client.tcp_buff.frame_byte(5));
            }
        }

        loop
            invariant
                entry.messages == old(self).messages,
                old(self).head_small() ==> entry.head_small(),
                old(self).head_feed_unseeded() ==> entry.head_feed_unseeded(),
                old(self).head_index_short() ==> entry.head_index_short(),
                old(self).head_follow() ==> entry.head_follow(),
                old(self).head_follow() || old(self).single_frame(input@)
                    ==> entry.client.frame_size() == old(self).client.frame_size()
                    && entry.client.frame_payload() == old(self).client.frame_payload()
                    && entry.client.frame_rtype() == old(self).client.frame_rtype()
                    && entry.client.pending_type is None && entry.client.frame_complete(),
                old(self).head_index_short() || old(self).head_feed_unseeded() || old(self).head_small() ==> entry.client.frame_size() == old(self).client.frame_size(),
                input@.len() == 0 ==> entry == *old(self),
                old(self).single_frame(input@) ==> entry == *old(self),
                self.wf(),
                entry.head_small() ==> *self == entry,
                entry.head_feed_unseeded() ==> *self == entry,
                entry.head_index_short() ==> *self == entry,
                entry.head_follow() && entry.client.frame_size()->Some_0 < 22 ==> *self == entry,
                entry.head_follow() && entry.client.frame_size()->Some_0 >= 22
                    && entry.head_index_start() == u64::MAX ==> *self == entry,
                entry.head_follow() && entry.client.frame_size()->Some_0 >= 22
                    && entry.head_index_start() != u64::MAX ==> (self.messages is Some || *self
                    == entry),
                input@.len() == 0 && entry.client.pending_type is None
                    && entry.client.frame_size() is None ==> *self == entry,
                old(self).single_frame(input@) && entry.client.frame_rtype()
                    == RecordType::DataFeed && entry.messages is Some ==> ((self.messages is Some
                    && self.messages->Some_0.model() == (MessagesModel {
                    data: entry.messages->Some_0.model().data + entry.client.frame_payload(),
                    ..(entry.messages->Some_0.model())
                }) && self.client.frame_size() is None && self.client.pending_type is None)
                    || *self == entry),
                old(self).single_frame(input@) && entry.client.frame_rtype()
                    == RecordType::IndexFeed && entry.client.frame_size()->Some_0 >= 14
                    && entry.messages is Some && spec_u64_from_le_bytes(
                    entry.client.frame_payload().subrange(0, 8),
                ) >= entry.messages->Some_0.high ==> ((self.messages is Some
                    && self.messages->Some_0.model() == (MessagesModel {
                    index: entry.messages->Some_0.model().index.push(
                        spec_u64_from_le_bytes(entry.client.frame_payload().subrange(0, 8)),
                    ),
                    high: spec_u64_from_le_bytes(entry.client.frame_payload().subrange(0, 8)),
                    ..(entry.messages->Some_0.model())
                }) && self.client.frame_size() is None && self.client.pending_type is None)
                    || *self == entry),
                old(self).single_frame(input@) && entry.client.frame_rtype()
                    == RecordType::ConsumerFollowTopics && entry.client.frame_size()->Some_0 >= 22
                    && entry.head_index_start() != u64::MAX ==> ((self.messages is Some
                    && self.messages->Some_0.model() == (MessagesModel {
                    data: Seq::empty(),
                    index: Seq::empty(),
                    data_offset: spec_u64_from_le_bytes(
                        entry.client.frame_payload().subrange(8, 16),
                    ),
                    index_offset: entry.head_index_start(),
                    high: spec_u64_from_le_bytes(entry.client.frame_payload().subrange(8, 16)),
                }) && self.client.frame_size() is None && self.client.pending_type is None)
                    || *self == entry),
            ensures
                self.wf(),
                !entry.head_small(),
                !entry.head_feed_unseeded(),
                !entry.head_index_short(),
                !(entry.head_follow() && entry.client.frame_size()->Some_0 < 22),
                !(entry.head_follow() && entry.client.frame_size()->Some_0 >= 22
                    && entry.head_index_start() == u64::MAX),
                entry.head_follow() && entry.client.frame_size()->Some_0 >= 22
                    && entry.head_index_start() != u64::MAX ==> self.messages is Some,
                input@.len() == 0 && entry.client.pending_type is None
                    && entry.client.frame_size() is None ==> *self == entry,
                old(self).single_frame(input@) && entry.client.frame_rtype()
                    == RecordType::DataFeed && entry.messages is Some ==> (self.messages is Some
                    && self.messages->Some_0.model() == (MessagesModel {
                    data: entry.messages->Some_0.model().data + entry.client.frame_payload(),
                    ..(entry.messages->Some_0.model())
                })),
                old(self).single_frame(input@) && entry.client.frame_rtype()
                    == RecordType::IndexFeed && entry.client.frame_size()->Some_0 >= 14
                    && entry.messages is Some && spec_u64_from_le_bytes(
                    entry.client.frame_payload().subrange(0, 8),
                ) >= entry.messages->Some_0.high ==> (self.messages is Some
                    && self.messages->Some_0.model() == (MessagesModel {
                    index: entry.messages->Some_0.model().index.push(
                        spec_u64_from_le_bytes(entry.client.frame_payload().subrange(0, 8)),
                    ),
                    high: spec_u64_from_le_bytes(entry.client.frame_payload().subrange(0, 8)),
                    ..(entry.messages->Some_0.model())
                })),
                old(self).single_frame(input@) && entry.client.frame_rtype()
                    == RecordType::ConsumerFollowTopics && entry.client.frame_size()->Some_0 >= 22
                    && entry.head_index_start() != u64::MAX ==> (self.messages is Some
                    && self.messages->Some_0.model() == (MessagesModel {
                    data: Seq::empty(),
                    index: Seq::empty(),
                    data_offset: spec_u64_from_le_bytes(
                        entry.client.frame_payload().subrange(8, 16),
                    ),
                    index_offset: entry.head_index_start(),
                    high: spec_u64_from_le_bytes(entry.client.frame_payload().subrange(8, 16)),
                })),
            decreases
                    self.client.tcp_buff.buff_pos - self.client.tcp_buff.rec_pos,
                    pending_flag(self.client),
        {
            let ghost it = *self;
            let t = match self.client.next() {
                Ok(Some(t)) => t,
                Ok(None) => {
                    break;
                },
                Err(e) => {
                    return Err(e);
                },
            };
            let rec_size = match self.client.tcp_buff.rec_size {
                Some(s) => s,
                None => vstd::pervasive::unreached(),
            };
            match t {
                RecordType::DataFeed => {
                    proof {
                        if it == entry && entry.client.pending_type is None {
                            assert(self.client.tcp_buff.visible_seq()
                                == entry.client.frame_payload());
                        }
                    }
                    match &mut self.messages {
                        Some(m) => {
                            m.push_data(self.client.tcp_buff.data());
                        },
                        None => {
                            return Err(Er::NoConsumerStart);
                        },
                    }
                    proof {
                        if it == entry && old(self).single_frame(input@) {
                            assert(self.client.tcp_buff.frame_avail()
                                == entry.client.tcp_buff.frame_avail());
                        }
                    }
                    self.client.reset();
                    proof {
                        if it == entry && old(self).single_frame(input@) {
                            assert(self.client.tcp_buff.rec_size is None);
                            assert(self.client.tcp_buff.buff_pos - self.client.tcp_buff.rec_pos
                                < 4);
                            assert(self.client.frame_size() is None);
                        }
                    }
                },
                RecordType::IndexFeed => {
                    if rec_size - self.client.tcp_buff.rec_upto < 8 {
                        return Err(Er::ParseError);
                    }
                    let ghost at_idx = *self;
                    let idx = match self.client.tcp_buff.read_u64() {
                        Some(v) => v,
                        None => vstd::pervasive::unreached(),
                    };
                    proof {
                        if it == entry && entry.client.pending_type is None {
                            assert(at_idx.client.tcp_buff.buffer@.subrange(
                                at_idx.client.tcp_buff.rec_pos as int,
                                at_idx.client.tcp_buff.rec_pos + 8,
                            ) =~= entry.client.frame_payload().subrange(0, 8));
                        }
                    }
                    match &mut self.messages {
                        Some(m) => {
                            if idx < m.high {
                                return Err(Er::ParseError);
                            }
                            m.push_index(idx);
                        },
                        None => {
                            return Err(Er::NoConsumerStart);
                        },
                    }
                    proof {
                        if it == entry && old(self).single_frame(input@) {
                            assert(self.client.tcp_buff.frame_avail()
                                == entry.client.tcp_buff.frame_avail());
                            assert(self.client.tcp_buff.frame_avail()
                                >= entry.client.frame_size()->Some_0);
                        }
                    }
                    self.client.reset();
                    proof {
                        if it == entry && old(self).single_frame(input@) {
                            assert(self.client.tcp_buff.rec_size is None);
                            assert(self.client.tcp_buff.buff_pos - self.client.tcp_buff.rec_pos
                                < 4);
                            assert(self.client.frame_size() is None);
                        }
                    }
                },
                RecordType::ConsumerFollowTopics => {
                    if rec_size - self.client.tcp_buff.rec_upto < 16 {
                        return Err(Er::FailedToReadDataStart);
                    }
                    let ghost at1 = *self;
                    let index_start = match self.client.tcp_buff.read_u64() {
                        Some(v) => v,
                        None => vstd::pervasive::unreached(),
                    };
                    let ghost at2 = *self;
                    let data_start = match self.client.tcp_buff.read_u64() {
                        Some(v) => v,
                        None => vstd::pervasive::unreached(),
                    };
                    proof {
                        if it == entry && entry.client.pending_type is None {
                            assert(at1.client.tcp_buff.buffer@.subrange(
                                at1.client.tcp_buff.rec_pos as int,
                                at1.client.tcp_buff.rec_pos + 8,
                            ) =~= entry.client.frame_payload().subrange(0, 8));
                            assert(at2.client.tcp_buff.buffer@.subrange(
                                at2.client.tcp_buff.rec_pos as int,
                                at2.client.tcp_buff.rec_pos + 8,
                            ) =~= entry.client.frame_payload().subrange(8, 16));
                        }
                    }
                    if index_start == u64::MAX {
                        return Err(Er::FailedToReadDataStart);
                    }
                    self.messages = Some(Messages::new(index_start, data_start));
                    proof {
                        if it == entry && old(self).single_frame(input@) {
                            assert(self.client.tcp_buff.frame_avail()
                                == entry.client.tcp_buff.frame_avail());
                            assert(self.client.tcp_buff.frame_avail()
                                >= entry.client.frame_size()->Some_0);
                        }
                    }
                    self.client.reset();
                    proof {
                        if it == entry && old(self).single_frame(input@) {
                            assert(self.client.tcp_buff.rec_size is None);
                            assert(self.client.tcp_buff.buff_pos - self.client.tcp_buff.rec_pos
                                < 4);
                            assert(self.client.frame_size() is None);
                        }
                    }
                },
                _ => {
                    // Unassigned inbound types: drop the record.
                    self.client.reset();
                },
            }
        }

        // Emit every record completed by this pass.
        let mut out: Vec<Vec<u8>> = Vec::new();
        match &mut self.messages {
            Some(m) => {
                out = drain_messages(m);
            },
            None => {},
        }
        proof {
            assert(out.deep_view().len() == out@.len());
            if old(self).single_frame(input@) && entry.client.frame_rtype()
                == RecordType::ConsumerFollowTopics && entry.client.frame_size()->Some_0 >= 22
                && entry.head_index_start() != u64::MAX {
                lemma_drain_empty(
                    MessagesModel {
                        data: Seq::empty(),
                        index: Seq::empty(),
                        data_offset: spec_u64_from_le_bytes(
                            entry.client.frame_payload().subrange(8, 16),
                        ),
                        index_offset: entry.head_index_start(),
                        high: spec_u64_from_le_bytes(entry.client.frame_payload().subrange(8, 16)),
                    },
                );
            }
        }
        Ok((taken, out))
    }
}

/// A polling consumer: decodes feed frames as they arrive and hands back one
/// whole record at a time.
pub struct Listener {
    /// The connection's decoder.
    pub client: Client,
    /// The reassembler, seeded from the follow reply's snapshot.
    pub messages: Messages,
}

impl Listener {
    /// The listener's invariant.
    pub open spec fn wf(self) -> bool {
        &&& self.client.wf()
        &&& self.messages.wf()
        &&& self.messages.index_offset < u64::MAX
    }

    /// Looks for the follow reply among the buffered frames: exactly when a
    /// whole frame is in, a reply frame surfaces its snapshot — the two
    /// little-endian u64 values opening its payload, index offset then data
    /// offset — and is consumed; a complete frame of any other type, or a
    /// reply too short for its offsets, fails with `FailedToReadDataStart`.
    pub fn poll_new(client: &mut Client) -> (r: Result<Option<(u64, u64)>, Er>)
        requires
            old(client).wf(),
            old(client).pending_type is None,
        ensures
            final(client).wf(),
            r == Err::<Option<(u64, u64)>, Er>(Er::ParseError) <==> (old(client).frame_size()
                matches Some(s) && s < 6),
            !(old(client).frame_size() matches Some(s) && s < 6) ==> {
                &&& (r == Err::<Option<(u64, u64)>, Er>(Er::FailedToReadDataStart) <==> (old(client).frame_complete()
                    && (old(client).frame_rtype() != RecordType::ConsumerFollowTopics || old(client).frame_size()->Some_0
                    < 22)))
                &&& ((r matches Ok(o) && o is Some) <==> (old(client).frame_complete() && old(client).frame_rtype()
                    == RecordType::ConsumerFollowTopics && old(client).frame_size()->Some_0 >= 22))
                &&& (r matches Ok(Some(p)) ==> p.0 == spec_u64_from_le_bytes(
                    old(client).frame_payload().subrange(0, 8),
                ) && p.1 == spec_u64_from_le_bytes(old(client).frame_payload().subrange(8, 16))
                    && final(client).pending_type is None)
                &&& (r == Ok::<Option<(u64, u64)>, Er>(None) <==> !old(client).frame_complete())
            },
    {
        let ghost pre = *old(client);
        let t = match client.next() {
            Ok(Some(t)) => t,
            Ok(None) => {
                return Ok(None);
            },
            Err(e) => {
                return Err(e);
            },
        };
        match t {
            RecordType::ConsumerFollowTopics => {
                let rec_size = match client.tcp_buff.rec_size {
                    Some(s) => s,
                    None => vstd::pervasive::unreached(),
                };
                if rec_size - client.tcp_buff.rec_upto < 16 {
                    return Err(Er::FailedToReadDataStart);
                }
                let ghost at1 = *client;
                let index_start = match client.tcp_buff.read_u64() {
                    Some(v) => v,
                    None => vstd::pervasive::unreached(),
                };
                let ghost at2 = *client;
                let data_start = match client.tcp_buff.read_u64() {
                    Some(v) => v,
                    None => vstd::pervasive::unreached(),
                };
                proof {
                    assert(at1.tcp_buff.buffer@.subrange(
                        at1.tcp_buff.rec_pos as int,
                        at1.tcp_buff.rec_pos + 8,
                    ) =~= pre.frame_payload().subrange(0, 8));
                    assert(at2.tcp_buff.buffer@.subrange(
                        at2.tcp_buff.rec_pos as int,
                        at2.tcp_buff.rec_pos + 8,
                    ) =~= pre.frame_payload().subrange(8, 16));
                }
                client.reset();
                Ok(Some((index_start, data_start)))
            },
            _ => Err(Er::FailedToReadDataStart),
        }
    }

    /// A listener whose handshake is done: the connection and the follow
    /// snapshot it reported.
    pub fn new(client: Client, index_offset: u64, data_offset: u64) -> (r: Result<Listener, Er>)
        requires
            client.wf(),
        ensures
            r matches Ok(l) ==> l.wf() && l.client == client && l.messages.data_offset
                == data_offset && l.messages.index_offset == index_offset
                && l.messages.data@.len() == 0 && l.messages.index@.len() == 0,
            r is Err ==> r == Err::<Listener, Er>(Er::FailedToReadDataStart) && index_offset
                == u64::MAX,
    {
        if index_offset == u64::MAX {
            return Err(Er::FailedToReadDataStart);
        }
        Ok(Listener { client, messages: Messages::new(index_offset, data_offset) })
    }

    /// Whether the buffered bytes hold exactly one whole frame: the
    /// single-step case the contract pins exactly.
    pub open spec fn single_frame(self) -> bool {
        &&& self.client.pending_type is None
        &&& self.client.frame_complete()
        &&& self.client.tcp_buff.frame_avail() < self.client.frame_size()->Some_0 + 4
    }

    /// Decodes every whole frame in the buffer into the reassembler — data
    /// feeds queue their payload, index feeds their boundary — then hands
    /// back the next completed record, if any: the bytes up to the first
    /// queued boundary, once they have all arrived.
    pub fn next(&mut self) -> (r: Result<Option<Vec<u8>>, Er>)
        requires
            old(self).wf(),
        ensures
            r is Ok ==> final(self).wf(),
            r matches Err(e) ==> e == Er::ParseError,
            // A malformed frame at the head is refused.
            (old(self).client.frame_size() matches Some(s) && s < 6) ==> r == Err::<
                Option<Vec<u8>>,
                Er,
            >(Er::ParseError),
            // A whole data feed at the head queues exactly its payload.
            old(self).client.pending_type is None && old(self).client.frame_complete() && old(self).client.frame_rtype() == RecordType::DataFeed ==> final(self).messages.data_end()
                >= old(self).messages.data_end() + (old(self).client.frame_size()->Some_0 - 6),
            // A whole index feed at the head queues its boundary, or is
            // refused when short or going backwards.
            old(self).client.pending_type is None && old(self).client.frame_complete() && old(self).client.frame_rtype() == RecordType::IndexFeed ==> {
                let s = old(self).client.frame_size()->Some_0;
                let idx = spec_u64_from_le_bytes(old(self).client.frame_payload().subrange(0, 8));
                &&& (s < 14 ==> r == Err::<Option<Vec<u8>>, Er>(Er::ParseError))
                &&& (s >= 14 && idx < old(self).messages.high ==> r == Err::<
                    Option<Vec<u8>>,
                    Er,
                >(Er::ParseError))
                &&& (s >= 14 && idx >= old(self).messages.high ==> final(self).messages.high
                    >= idx)
            },
            // With nothing decodable buffered, the reassembler alone decides,
            // exactly as its own contract says.
            old(self).client.pending_type is None && old(self).client.frame_size() is None && old(self).messages.index_offset < u64::MAX - 1 ==> {
                &&& r is Ok
                &&& (old(self).messages.index@.len() == 0 ==> r == Ok::<Option<Vec<u8>>, Er>(None))
                &&& (old(self).messages.index@.len() > 0 ==> {
                    let idx = old(self).messages.index@[0];
                    let size = idx - old(self).messages.data_offset;
                    if old(self).messages.data@.len() >= size {
                        &&& (r matches Ok(o) && o matches Some(v) && v@ == old(self).messages.data@.subrange(0, size as int))
                        &&& final(self).messages.data_offset == idx
                    } else {
                        r == Ok::<Option<Vec<u8>>, Er>(None)
                    }
                })
            },
            // With exactly one whole feed frame buffered, the step is pinned:
            // the frame lands in the reassembler and one emission step of the
            // updated state follows.
            old(self).single_frame() && old(self).messages.index_offset < u64::MAX - 1 ==> {
                let s = old(self).client.frame_size()->Some_0;
                let payload = old(self).client.frame_payload();
                &&& (old(self).client.frame_rtype() == RecordType::DataFeed ==> {
                    let pm = (MessagesModel {
                        data: old(self).messages.model().data + payload,
                        ..(old(self).messages.model())
                    });
                    &&& (pop_model(pm).0 is None ==> r == Ok::<Option<Vec<u8>>, Er>(None))
                    &&& (pop_model(pm).0 matches Some(rec) ==> (r matches Ok(o) && o matches Some(
                        v,
                    ) && v@ == rec))
                    &&& final(self).messages.model() == pop_model(pm).1
                })
                &&& (old(self).client.frame_rtype() == RecordType::IndexFeed && s >= 14
                    && spec_u64_from_le_bytes(payload.subrange(0, 8)) >= old(self).messages.high
                    ==> {
                    let idx = spec_u64_from_le_bytes(payload.subrange(0, 8));
                    let pm = (MessagesModel {
                        index: old(self).messages.model().index.push(idx),
                        high: idx,
                        ..(old(self).messages.model())
                    });
                    &&& (pop_model(pm).0 is None ==> r == Ok::<Option<Vec<u8>>, Er>(None))
                    &&& (pop_model(pm).0 matches Some(rec) ==> (r matches Ok(o) && o matches Some(
                        v,
                    ) && v@ == rec))
                    &&& final(self).messages.model() == pop_model(pm).1
                })
            },
    {
        let ghost entry = *old(self);
        loop
            invariant
                entry == *old(self),
                self.wf(),
                self.messages.data_end() >= entry.messages.data_end(),
                self.messages.high >= entry.messages.high,
                entry.client.pending_type is None && entry.client.frame_complete()
                    && entry.client.frame_rtype() == RecordType::DataFeed ==> (
                self.messages.data_end() >= entry.messages.data_end() + (
                entry.client.frame_size()->Some_0 - 6) || *self == entry),
                entry.client.pending_type is None && entry.client.frame_complete()
                    && entry.client.frame_rtype() == RecordType::IndexFeed ==> ((
                entry.client.frame_size()->Some_0 >= 14 && spec_u64_from_le_bytes(
                    entry.client.frame_payload().subrange(0, 8),
                ) >= entry.messages.high ==> self.messages.high >= spec_u64_from_le_bytes(
                    entry.client.frame_payload().subrange(0, 8),
                )) || *self == entry),
                entry.client.pending_type is None && entry.client.frame_complete() && (
                entry.client.frame_rtype() == RecordType::IndexFeed && (
                entry.client.frame_size()->Some_0 < 14 || spec_u64_from_le_bytes(
                    entry.client.frame_payload().subrange(0, 8),
                ) < entry.messages.high)) ==> *self == entry,
                (entry.client.frame_size() matches Some(s) && s < 6) ==> *self == entry,
                entry.client.pending_type is None && entry.client.frame_size() is None ==> *self
                    == entry,
                entry.single_frame() && entry.client.frame_rtype() == RecordType::DataFeed ==> ((
                self.messages.model() == (MessagesModel {
                    data: entry.messages.model().data + entry.client.frame_payload(),
                    ..(entry.messages.model())
                }) && self.client.frame_size() is None && self.client.pending_type is None)
                    || *self == entry),
                entry.single_frame() && entry.client.frame_rtype() == RecordType::IndexFeed
                    && entry.client.frame_size()->Some_0 >= 14 && spec_u64_from_le_bytes(
                    entry.client.frame_payload().subrange(0, 8),
                ) >= entry.messages.high ==> ((self.messages.model() == (MessagesModel {
                    index: entry.messages.model().index.push(
                        spec_u64_from_le_bytes(entry.client.frame_payload().subrange(0, 8)),
                    ),
                    high: spec_u64_from_le_bytes(entry.client.frame_payload().subrange(0, 8)),
                    ..(entry.messages.model())
                }) && self.client.frame_size() is None && self.client.pending_type is None)
                    || *self == entry),
            ensures
                entry.single_frame() && entry.client.frame_rtype() == RecordType::DataFeed ==> self.messages.model() == (MessagesModel {
                    data: entry.messages.model().data + entry.client.frame_payload(),
                    ..(entry.messages.model())
                }),
                entry.single_frame() && entry.client.frame_rtype() == RecordType::IndexFeed
                    && entry.client.frame_size()->Some_0 >= 14 && spec_u64_from_le_bytes(
                    entry.client.frame_payload().subrange(0, 8),
                ) >= entry.messages.high ==> self.messages.model() == (MessagesModel {
                    index: entry.messages.model().index.push(
                        spec_u64_from_le_bytes(entry.client.frame_payload().subrange(0, 8)),
                    ),
                    high: spec_u64_from_le_bytes(entry.client.frame_payload().subrange(0, 8)),
                    ..(entry.messages.model())
                }),
                self.wf(),
                !(entry.client.frame_size() matches Some(s) && s < 6),
                entry.client.pending_type is None && entry.client.frame_complete()
                    && entry.client.frame_rtype() == RecordType::DataFeed ==> self.messages.data_end()
                    >= entry.messages.data_end() + (entry.client.frame_size()->Some_0 - 6),
                entry.client.pending_type is None && entry.client.frame_complete()
                    && entry.client.frame_rtype() == RecordType::IndexFeed
                    ==> entry.client.frame_size()->Some_0 >= 14 && spec_u64_from_le_bytes(
                    entry.client.frame_payload().subrange(0, 8),
                ) >= entry.messages.high && self.messages.high >= spec_u64_from_le_bytes(
                    entry.client.frame_payload().subrange(0, 8),
                ),
                entry.client.pending_type is None && entry.client.frame_size() is None ==> *self
                    == entry,
                self.messages.index_offset < u64::MAX - 1 ==> self.messages.index_offset
                    < u64::MAX,
            decreases
                    self.client.tcp_buff.buff_pos - self.client.tcp_buff.rec_pos,
                    pending_flag(self.client),
        {
            let ghost it = *self;
            let t = match self.client.next() {
                Ok(Some(t)) => t,
                Ok(None) => {
                    break;
                },
                Err(e) => {
                    return Err(e);
                },
            };
            let rec_size = match self.client.tcp_buff.rec_size {
                Some(s) => s,
                None => vstd::pervasive::unreached(),
            };
            match t {
                RecordType::DataFeed => {
                    proof {
                        if it == entry && entry.client.pending_type is None {
                            assert(self.client.tcp_buff.visible_seq()
                                == entry.client.frame_payload());
                        }
                    }
                    self.messages.push_data(self.client.tcp_buff.data());
                    proof {
                        if it == entry && entry.single_frame() {
                            assert(self.client.tcp_buff.frame_avail()
                                == entry.client.tcp_buff.frame_avail());
                            assert(self.messages.model() == (MessagesModel {
                                data: entry.messages.model().data
                                    + entry.client.frame_payload(),
                                ..(entry.messages.model())
                            }));
                        }
                    }
                    self.client.reset();
                    proof {
                        if it == entry && entry.single_frame() {
                            assert(self.client.tcp_buff.rec_size is None);
                            assert(self.client.tcp_buff.buff_pos - self.client.tcp_buff.rec_pos
                                < 4);
                            assert(self.client.frame_size() is None);
                        }
                    }
                },
                RecordType::IndexFeed => {
                    if rec_size - self.client.tcp_buff.rec_upto < 8 {
                        return Err(Er::ParseError);
                    }
                    let ghost at_idx = *self;
                    let idx = match self.client.tcp_buff.read_u64() {
                        Some(v) => v,
                        None => vstd::pervasive::unreached(),
                    };
                    proof {
                        if it == entry && entry.client.pending_type is None {
                            assert(at_idx.client.tcp_buff.buffer@.subrange(
                                at_idx.client.tcp_buff.rec_pos as int,
                                at_idx.client.tcp_buff.rec_pos + 8,
                            ) =~= entry.client.frame_payload().subrange(0, 8));
                        }
                    }
                    if idx < self.messages.high {
                        return Err(Er::ParseError);
                    }
                    self.messages.push_index(idx);
                    proof {
                        if it == entry && entry.single_frame() {
                            assert(self.client.tcp_buff.frame_avail()
                                == entry.client.tcp_buff.frame_avail());
                            assert(self.messages.model() == (MessagesModel {
                                index: entry.messages.model().index.push(idx),
                                high: idx,
                                ..(entry.messages.model())
                            }));
                        }
                    }
                    self.client.reset();
                    proof {
                        if it == entry && entry.single_frame() {
                            assert(self.client.tcp_buff.rec_size is None);
                            assert(self.client.tcp_buff.buff_pos - self.client.tcp_buff.rec_pos
                                < 4);
                            assert(self.client.frame_size() is None);
                        }
                    }
                },
                _ => {
                    self.client.reset();
                },
            }
        }
        if self.messages.index_offset >= u64::MAX - 1 {
            return Ok(None);
        }
        let ghost pre_pop = self.messages.model();
        let popped = self.messages.next();
        proof {
            if pre_pop.index.len() > 0 {
                let idx = pre_pop.index[0];
                let size = idx - pre_pop.data_offset;
                if 0 <= size <= pre_pop.data.len() {
                    assert(self.messages.model().data =~= pre_pop.data.skip(size));
                    assert(self.messages.model().index =~= pre_pop.index.skip(1));
                    assert(self.messages.model() == pop_model(pre_pop).1);
                }
            }
        }
        Ok(popped)
    }
}

} // verus!
