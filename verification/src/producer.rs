//! The producer session: authenticates a connection, then streams Producer
//! frames into the topic store and acknowledges each committed record.
use vstd::bytes::{spec_u32_from_le_bytes, spec_u64_to_le_bytes, u64_to_le_bytes};
use vstd::prelude::*;

use crate::auth::{auth_accepted, Auth};
use crate::buff::Buff;
use crate::er::Er;
use crate::tcp::BufferState;
use crate::topic::{Topic, TopicList};

verus! {

/// Machine limits under which a topic can take one more record.
pub open spec fn topic_has_room(t: Topic) -> bool {
    &&& t.index < u64::MAX
    &&& t.generation < u64::MAX
    &&& t.index_file@.len() + 8 <= usize::MAX
}

/// One producer connection's state machine.  The caller owns the socket: it
/// fills `buff` with the bytes it read and writes back the bytes `process`
/// returns.
pub struct ProducerClient {
    /// This session's id; the topic store tracks it as the current producer
    /// while a record is in flight.
    pub id: u32,
    /// Where the session stands: awaiting auth, streaming records, or done.
    pub state: BufferState,
    /// The connection's framed buffer.
    pub buff: Buff,
    /// The current frame's type byte, 0 while unread.
    pub rec_type: u8,
    /// The topic bound to the in-progress Producer frame, 0 while unread.
    pub topic_id: u32,
}

impl ProducerClient {
    /// The session invariant: the framed buffer is valid and the cursors
    /// stand where the protocol phases put them.
    pub open spec fn wf(self) -> bool {
        &&& self.buff.wf()
        &&& (self.state is Closed || {
            &&& (self.buff.rec_size is None ==> self.buff.rec_upto == 0
                && !self.buff.seq_checked && self.rec_type == 0 && self.topic_id == 0)
            &&& (self.buff.rec_size matches Some(s) ==> {
                &&& s >= 6
                &&& (!self.buff.seq_checked ==> self.buff.rec_upto == 4)
                &&& (self.buff.seq_checked ==> 5 <= self.buff.rec_upto)
                &&& (self.rec_type == 0 && self.buff.seq_checked ==> self.buff.rec_upto == 5)
                &&& (self.rec_type != 0 && self.topic_id == 0 ==> self.buff.rec_upto == 6)
                &&& (self.rec_type != 0 ==> self.buff.rec_upto >= 6)
                &&& (self.topic_id != 0 ==> self.rec_type == 2 && self.buff.rec_upto >= 10)
            })
        })
    }

    /// The current frame's declared size, as soon as it can be known.
    pub open spec fn frame_size(self) -> Option<u32> {
        self.buff.frame_size_known()
    }

    /// Whether the whole current frame is at hand.
    pub open spec fn frame_complete(self) -> bool {
        match self.frame_size() {
            Some(s) => s >= 6 && self.buff.frame_avail() >= s,
            None => false,
        }
    }

    /// The current frame's type byte, once at hand.
    pub open spec fn frame_type(self) -> u8 {
        if self.rec_type != 0 {
            self.rec_type
        } else {
            self.buff.frame_byte(5)
        }
    }

    /// Whether the current frame's type byte is at hand.
    pub open spec fn type_at_hand(self) -> bool {
        ||| self.rec_type != 0
        ||| (self.frame_size() is Some && self.buff.frame_avail() >= 6)
    }

    /// The topic id a Producer frame names, once at hand.
    pub open spec fn frame_topic(self) -> u32 {
        if self.topic_id != 0 {
            self.topic_id
        } else {
            spec_u32_from_le_bytes(self.buff.frame_bytes_at(6, 10))
        }
    }

    /// Whether the Producer frame's topic id is at hand.
    pub open spec fn topic_at_hand(self) -> bool {
        self.topic_id != 0 || self.buff.frame_avail() >= 10
    }

    /// The current frame's payload, once the frame is whole.
    pub open spec fn frame_payload(self) -> Seq<u8> {
        self.buff.frame_bytes_at(6, self.frame_size()->Some_0 as int)
    }

    /// The record bytes of the Producer frame that are at hand and not yet
    /// appended to the topic.
    pub open spec fn record_rest(self) -> Seq<u8> {
        let s = self.frame_size()->Some_0 as int;
        let from = if self.buff.rec_upto >= 10 {
            self.buff.rec_upto as int
        } else {
            10
        };
        let upto = if self.buff.frame_avail() <= s {
            self.buff.frame_avail()
        } else {
            s
        };
        if from <= upto {
            self.buff.frame_bytes_at(from, upto)
        } else {
            Seq::empty()
        }
    }

    /// The protocol violation the buffered bytes already show, if any, in
    /// the order the state machine meets them: an undersized frame, a wrong
    /// sequence byte, an unassigned type byte, then what the session state
    /// refuses — a complete non-Auth frame or a rejected token while
    /// Pending; a complete non-Producer frame or a Producer frame too short
    /// for its topic id while Active.
    pub open spec fn violation(self) -> Option<Er> {
        match self.frame_size() {
            None => None,
            Some(s) => if s < 6 {
                Some(Er::ParseError)
            } else if !self.buff.seq_checked && self.buff.frame_avail() >= 5
                && self.buff.frame_byte(4) != self.buff.seq {
                Some(Er::InvalidSequence)
            } else if !self.buff.seq_checked && self.buff.frame_avail() < 5 {
                None
            } else if !self.type_at_hand() {
                None
            } else if self.frame_type() == 0 {
                Some(Er::ParseError)
            } else if self.state is Pending {
                if self.frame_type() == 1 {
                    if self.frame_complete() && !auth_accepted(self.frame_payload()) {
                        Some(Er::BadAuth)
                    } else {
                        None
                    }
                } else {
                    if self.frame_complete() {
                        Some(Er::BadAuth)
                    } else {
                        None
                    }
                }
            } else {
                if self.frame_type() != 2 {
                    if self.frame_complete() {
                        Some(Er::ParseError)
                    } else {
                        None
                    }
                } else if s < 10 {
                    Some(Er::ParseError)
                } else {
                    None
                }
            },
        }
    }

    /// Whether this step may append to a topic: the session is streaming a
    /// clean Producer frame naming a registered, unclaimed topic, with
    /// record bytes at hand or a whole (possibly empty) record.
    pub open spec fn append_enabled(self, topics: Seq<Topic>) -> bool {
        &&& self.state is Active
        &&& self.violation() is None
        &&& self.type_at_hand()
        &&& self.frame_type() == 2
        &&& self.topic_at_hand()
        &&& self.frame_topic() != 0
        &&& (exists|i: int|
            0 <= i < topics.len() && (#[trigger] topics[i]).config.topic_id == self.frame_topic()
                && !(topics[i].current_producer matches Some(p) && p != self.id))
        &&& (self.record_rest().len() > 0 || self.frame_complete())
    }

    /// A fresh session awaiting authentication.
    pub fn new(id: u32) -> (c: ProducerClient)
        ensures
            c.wf(),
            c.state == BufferState::Pending,
            c.buff.buff_pos == 0,
            c.id == id,
    {
        ProducerClient {
            id,
            state: BufferState::Pending,
            buff: Buff::new(),
            rec_type: 0,
            topic_id: 0,
        }
    }

    /// The session's state.
    pub fn state(&self) -> (s: &BufferState)
        ensures
            *s == self.state,
    {
        &self.state
    }

    /// One step of the session's state machine over whatever the buffer
    /// holds.  While Pending, only a complete Auth frame with an accepted
    /// token activates the session, and no topic is touched.  While Active,
    /// a Producer frame's record bytes are appended to the topic it names as
    /// they arrive, and the frame's completion commits the record and
    /// acknowledges it with the frame's sequence byte and the assigned
    /// index.  Each protocol violation is reported exactly and closes the
    /// session; a topic busy with another producer yields `NotReady` and
    /// changes nothing, for a later attempt.
    #[verifier::rlimit(80)]
    pub fn process(&mut self, topic_list: &mut TopicList) -> (r: Result<Vec<u8>, Er>)
        requires
            old(self).wf(),
            old(topic_list).wf(),
            forall|i: int|
                0 <= i < old(topic_list).topics@.len() ==> topic_has_room(
                    #[trigger] old(topic_list).topics@[i],
                ),
        ensures
            final(self).wf(),
            final(topic_list).wf(),
            final(topic_list).topics@.len() == old(topic_list).topics@.len(),
            final(topic_list).topic_names@ == old(topic_list).topic_names@,
            forall|i: int|
                0 <= i < old(topic_list).topics@.len()
                    ==> (#[trigger] final(topic_list).topics@[i]).config
                    == old(topic_list).topics@[i].config,
            // Errors are reported exactly, and an erring step changes no topic.
            r is Err ==> final(topic_list).topics@ == old(topic_list).topics@,
            r == Err::<Vec<u8>, Er>(Er::IsClosed) <==> old(self).state is Closed,
            old(self).state is Closed ==> *final(self) == *old(self) && *final(topic_list)
                == *old(topic_list),
            !(old(self).state is Closed) ==> {
                &&& (r == Err::<Vec<u8>, Er>(Er::ParseError) <==> old(self).violation() == Some(
                    Er::ParseError,
                ))
                &&& (r == Err::<Vec<u8>, Er>(Er::InvalidSequence) <==> old(self).violation()
                    == Some(Er::InvalidSequence))
                &&& (r == Err::<Vec<u8>, Er>(Er::BadAuth) <==> old(self).violation() == Some(
                    Er::BadAuth,
                ))
                &&& (r == Err::<Vec<u8>, Er>(Er::TopicNotFound) <==> (old(self).violation()
                    is None && old(self).state is Active && old(self).type_at_hand() && old(self).frame_type() == 2 && old(self).topic_at_hand() && (old(self).frame_topic() == 0
                    || (forall|i: int|
                    0 <= i < old(topic_list).topics@.len()
                        ==> (#[trigger] old(topic_list).topics@[i]).config.topic_id != old(self).frame_topic()))))
                &&& (r == Err::<Vec<u8>, Er>(Er::NotReady) <==> (old(self).violation() is None
                    && old(self).state is Active && old(self).type_at_hand() && old(self).frame_type() == 2 && old(self).topic_at_hand() && old(self).frame_topic() != 0
                    && (exists|i: int|
                    0 <= i < old(topic_list).topics@.len()
                        && (#[trigger] old(topic_list).topics@[i]).config.topic_id == old(self).frame_topic() && (old(topic_list).topics@[i].current_producer matches Some(p)
                        && p != old(self).id)) && (old(self).record_rest().len() > 0 || old(self).frame_complete())))
            },
            // Violations close the session; a busy topic does not.
            r matches Err(e) && !(e == Er::IsClosed || e == Er::NotReady) ==> final(self).state
                is Closed,
            r == Err::<Vec<u8>, Er>(Er::NotReady) ==> final(self).state == old(self).state,
            // While Pending no topic is touched, and only a complete,
            // accepted Auth frame activates the session.
            old(self).state is Pending ==> final(topic_list).topics@ == old(topic_list).topics@
                && (final(self).state is Active <==> (old(self).violation() is None && old(self).type_at_hand() && old(self).frame_type() == 1 && old(self).frame_complete()
                && auth_accepted(old(self).frame_payload()))),
            old(self).state is Active ==> !(final(self).state is Pending),
            // Topics change exactly when an append is enabled, and then only
            // the topic the frame names.
            !old(self).append_enabled(old(topic_list).topics@) ==> final(topic_list).topics@
                == old(topic_list).topics@,
            old(self).append_enabled(old(topic_list).topics@) ==> (r matches Ok(reply) && (forall|
                i: int,
            |
                0 <= i < old(topic_list).topics@.len()
                    && (#[trigger] old(topic_list).topics@[i]).config.topic_id == old(self).frame_topic() ==> {
                    let t0 = old(topic_list).topics@[i];
                    let t1 = final(topic_list).topics@[i];
                    &&& (forall|j: int|
                        0 <= j < old(topic_list).topics@.len() && j != i ==> #[trigger] final(topic_list).topics@[j] == old(topic_list).topics@[j])
                    &&& if old(self).frame_complete() {
                        // The record is committed and acknowledged.
                        &&& t1.index == t0.index + 1
                        &&& (!t0.full ==> t1.generation == t0.generation && t1.data_file@
                            == t0.data_file@ + old(self).record_rest() && t1.index_file@
                            == t0.index_file@ + spec_u64_to_le_bytes(
                            (t0.data_file@.len() + old(self).record_rest().len()) as u64,
                        ))
                        &&& (t0.full ==> t1.generation == t0.generation + 1 && t1.data_file@
                            == old(self).record_rest() && t1.index_file@ == spec_u64_to_le_bytes(
                            old(self).record_rest().len() as u64,
                        ))
                        &&& reply@ == seq![old(self).buff.seq].add(
                            spec_u64_to_le_bytes(t0.index),
                        )
                        &&& t1.current_producer is None
                        &&& final(self).state is Active
                        &&& final(self).buff.rec_size is None
                        &&& final(self).rec_type == 0
                        &&& final(self).topic_id == 0
                        &&& final(self).buff.seq == crate::frames::next_seq(old(self).buff.seq)
                        // The frame is consumed: what remains buffered is
                        // exactly the bytes after it, ready for the next one.
                        &&& final(self).buff.rec_upto == 0
                        &&& !final(self).buff.seq_checked
                        &&& final(self).buff.frame_avail() == old(self).buff.frame_avail() - old(
                            self,
                        ).frame_size()->Some_0
                        &&& (forall|k: int|
                            0 <= k < old(self).buff.frame_avail() - old(self).frame_size()->Some_0
                                ==> #[trigger] final(self).buff.frame_byte(k) == old(
                                self,
                            ).buff.frame_byte(old(self).frame_size()->Some_0 + k))
                    } else {
                        // The record streams: its bytes at hand are appended.
                        &&& t1.index == t0.index
                        &&& (!t0.full ==> t1.generation == t0.generation && t1.data_file@
                            == t0.data_file@ + old(self).record_rest() && t1.index_file@
                            == t0.index_file@)
                        &&& (t0.full ==> t1.generation == t0.generation + 1 && t1.data_file@
                            == old(self).record_rest() && t1.index_file@.len() == 0)
                        &&& t1.current_producer == Some(old(self).id)
                        &&& reply@.len() == 0
                        &&& final(self).state is Active
                    }
                })),
    {
        match self.state {
            BufferState::Closed => {
                return Err(Er::IsClosed);
            },
            _ => {},
        }
        let ghost pre = *old(self);

        // Frame size: the leading u32; a declared size below the 6 header
        // bytes is a protocol violation.
        if self.buff.rec_size.is_none() {
            if let Some(sz) = self.buff.read_u32() {
                if sz < 6 {
                    self.state = BufferState::Closed;
                    return Err(Er::ParseError);
                }
                self.buff.rec_size = Some(sz);
            } else {
                return Ok(Vec::new());
            }
        }
        proof {
            assert(self.buff.rec_size == Some(pre.frame_size()->Some_0));
            assert(self.buff.frame_avail() == pre.buff.frame_avail());
            assert(self.buff.rec_pos - self.buff.rec_upto == pre.buff.rec_pos
                - pre.buff.rec_upto);
            assert(self.buff.buffer@ == pre.buff.buffer@);
        }

        // Sequence byte, validated once per frame.
        if !self.buff.seq_checked {
            let ghost at_seq = *self;
            match self.buff.check_seq() {
                Ok(_) => {},
                Err(e) => {
                    proof {
                        assert(at_seq.buff.buffer@[at_seq.buff.rec_pos as int]
                            == pre.buff.frame_byte(4));
                    }
                    self.state = BufferState::Closed;
                    return Err(e);
                },
            }
            if !self.buff.seq_checked {
                proof {
                    assert(pre.buff.frame_avail() < 5);
                }
                return Ok(Vec::new());
            }
            proof {
                assert(at_seq.buff.buffer@[at_seq.buff.rec_pos as int] == pre.buff.frame_byte(4));
            }
        }

        // Type byte.
        if self.rec_type == 0 {
            let ghost at_type = *self;
            if let Some(t) = self.buff.read_u8() {
                proof {
                    assert(at_type.buff.buffer@[at_type.buff.rec_pos as int]
                        == pre.frame_type());
                }
                if t == 0 {
                    self.state = BufferState::Closed;
                    return Err(Er::ParseError);
                }
                self.rec_type = t;
            } else {
                proof {
                    assert(pre.buff.frame_avail() < 6);
                }
                return Ok(Vec::new());
            }
        }
        proof {
            assert(self.rec_type == pre.frame_type());
            assert(pre.type_at_hand());
        }

        match self.state {
            BufferState::Pending => {
                if self.rec_type == 1 {
                    proof {
                        assert(self.buff.rec_upto == 6);
                        assert(self.buff.buffer@ == pre.buff.buffer@);
                        assert(self.buff.buff_pos == pre.buff.buff_pos);
                        assert(self.buff.rec_pos - 6 == pre.buff.rec_pos - pre.buff.rec_upto);
                        assert(self.buff.rec_size == Some(pre.frame_size()->Some_0));
                        assert(self.buff.frame_avail() == pre.buff.frame_avail());
                        if self.buff.is_end_spec() {
                            assert(pre.buff.frame_avail() >= pre.frame_size()->Some_0);
                            assert(pre.frame_complete());
                            assert(self.buff.read_to_spec() == self.buff.rec_pos
                                + (pre.frame_size()->Some_0 - 6));
                            assert(self.buff.visible_seq() =~= pre.frame_payload());
                        } else {
                            assert(!pre.frame_complete());
                        }
                    }
                    match Auth::new(&self.buff) {
                        Ok(Some(_)) => {
                            self.state = BufferState::Active;
                            self.rec_type = 0;
                            self.buff.reset();
                            Ok(Vec::new())
                        },
                        Ok(None) => Ok(Vec::new()),
                        Err(_) => {
                            self.state = BufferState::Closed;
                            Err(Er::BadAuth)
                        },
                    }
                } else {
                    if self.buff.is_end_of_record() {
                        proof {
                            assert(pre.frame_complete());
                        }
                        self.state = BufferState::Closed;
                        Err(Er::BadAuth)
                    } else {
                        proof {
                            assert(!pre.frame_complete());
                        }
                        Ok(Vec::new())
                    }
                }
            },
            BufferState::Active => {
                if self.rec_type != 2 {
                    if self.buff.is_end_of_record() {
                        proof {
                            assert(pre.frame_complete());
                        }
                        self.state = BufferState::Closed;
                        return Err(Er::ParseError);
                    }
                    proof {
                        assert(!pre.frame_complete());
                    }
                    return Ok(Vec::new());
                }
                let rec_size = match self.buff.rec_size {
                    Some(s) => s,
                    None => vstd::pervasive::unreached(),
                };

                // The payload opens with the topic id.
                if self.topic_id == 0 {
                    if rec_size - self.buff.rec_upto < 4 {
                        self.state = BufferState::Closed;
                        return Err(Er::ParseError);
                    }
                    let ghost at_tid = *self;
                    if let Some(tid) = self.buff.read_u32() {
                        proof {
                            assert(at_tid.buff.buffer@.subrange(
                                at_tid.buff.rec_pos as int,
                                at_tid.buff.rec_pos + 4,
                            ) =~= pre.buff.frame_bytes_at(6, 10));
                            assert(tid == pre.frame_topic());
                        }
                        if tid == 0 {
                            self.state = BufferState::Closed;
                            return Err(Er::TopicNotFound);
                        }
                        self.topic_id = tid;
                    } else {
                        proof {
                            assert(!pre.topic_at_hand());
                        }
                        return Ok(Vec::new());
                    }
                }
                proof {
                    assert(self.topic_id == pre.frame_topic());
                    assert(pre.topic_at_hand());
                }

                let ti = match topic_list.index_for_id(self.topic_id) {
                    Some(i) => i,
                    None => {
                        self.state = BufferState::Closed;
                        return Err(Er::TopicNotFound);
                    },
                };
                let ghost list0 = topic_list.topics@;
                proof {
                    assert(self.buff.visible_seq() =~= pre.record_rest());
                }

                if self.buff.has_data() {
                    let complete = self.buff.is_end_of_record();
                    proof {
                        assert(complete == pre.frame_complete());
                    }
                    let topic = topic_list.topic_mut(ti);
                    match topic.write(self.id, self.buff.data()) {
                        Ok(_) => {},
                        Err(_) => {
                            proof {
                                assert(topic_list.topics@ =~= list0);
                            }
                            return Err(Er::NotReady);
                        },
                    }
                    if complete {
                        let idx = match topic.end_rec() {
                            Ok(v) => v,
                            Err(_) => vstd::pervasive::unreached(),
                        };
                        let seq_byte = self.buff.seq;
                        self.rec_type = 0;
                        self.topic_id = 0;
                        self.buff.reset();
                        let mut reply: Vec<u8> = Vec::new();
                        reply.push(seq_byte);
                        let mut idx_bytes = u64_to_le_bytes(idx);
                        reply.append(&mut idx_bytes);
                        proof {
                            assert(reply@ =~= seq![pre.buff.seq].add(
                                spec_u64_to_le_bytes(list0[ti as int].index),
                            ));
                            if !list0[ti as int].full {
                                assert(topic_list.topics@[ti as int].index_file@
                                    =~= list0[ti as int].index_file@ + spec_u64_to_le_bytes(
                                    (list0[ti as int].data_file@.len()
                                        + pre.record_rest().len()) as u64,
                                ));
                            }
                            assert(forall|j: int|
                                0 <= j < list0.len() && j != ti ==> topic_list.topics@[j]
                                    == #[trigger] list0[j]);
                        }
                        Ok(reply)
                    } else {
                        self.buff.reset();
                        proof {
                            assert(forall|j: int|
                                0 <= j < list0.len() && j != ti ==> topic_list.topics@[j]
                                    == #[trigger] list0[j]);
                        }
                        Ok(Vec::new())
                    }
                } else {
                    if self.buff.is_end_of_record() {
                        // An empty record: commit it without payload bytes.
                        let topic = topic_list.topic_mut(ti);
                        let busy = match topic.current_producer {
                            Some(p) => p != self.id,
                            None => false,
                        };
                        if busy {
                            proof {
                                assert(topic_list.topics@ =~= list0);
                            }
                            return Err(Er::NotReady);
                        }
                        let idx = match topic.end_rec() {
                            Ok(v) => v,
                            Err(_) => vstd::pervasive::unreached(),
                        };
                        let seq_byte = self.buff.seq;
                        self.rec_type = 0;
                        self.topic_id = 0;
                        self.buff.reset();
                        let mut reply: Vec<u8> = Vec::new();
                        reply.push(seq_byte);
                        let mut idx_bytes = u64_to_le_bytes(idx);
                        reply.append(&mut idx_bytes);
                        proof {
                            assert(pre.record_rest() =~= Seq::<u8>::empty());
                            assert(reply@ =~= seq![pre.buff.seq].add(
                                spec_u64_to_le_bytes(list0[ti as int].index),
                            ));
                            if !list0[ti as int].full {
                                assert(topic_list.topics@[ti as int].data_file@
                                    =~= list0[ti as int].data_file@ + pre.record_rest());
                                assert(topic_list.topics@[ti as int].index_file@
                                    =~= list0[ti as int].index_file@ + spec_u64_to_le_bytes(
                                    (list0[ti as int].data_file@.len()
                                        + pre.record_rest().len()) as u64,
                                ));
                            } else {
                                assert(topic_list.topics@[ti as int].data_file@
                                    =~= pre.record_rest());
                            }
                            assert(forall|j: int|
                                0 <= j < list0.len() && j != ti ==> topic_list.topics@[j]
                                    == #[trigger] list0[j]);
                        }
                        Ok(reply)
                    } else {
                        proof {
                            assert(pre.record_rest().len() == 0);
                            assert(!pre.frame_complete());
                        }
                        Ok(Vec::new())
                    }
                }
            },
            BufferState::Closed => Err(Er::IsClosed),
        }
    }
}

} // verus!
