//! The consumer session: authenticates a connection, registers follows, and
//! frames the feed bytes the dispatcher emits to each follower.
use vstd::bytes::{spec_u32_from_le_bytes, spec_u64_to_le_bytes, u64_to_le_bytes};
use vstd::prelude::*;
use vstd::string::StrSliceExecFns;

use crate::auth::{auth_accepted, Auth};
use crate::buff::Buff;
use crate::er::Er;
use crate::frames::{build_frame, frame_bytes, next_seq};
use crate::tcp::{code_of_record_type, record_type_of_code, BufferState, RecordType};
use crate::topic::TopicList;

verus! {

/// One consumer connection's state machine.  The caller owns the socket: it
/// fills `buff` with the bytes it read and writes back the bytes `process`
/// and `send_feed` return.
pub struct ConsumerClient {
    /// This session's id, as kept in the followed topics' follower sets.
    pub id: u32,
    /// Where the session stands: awaiting auth, following, or done.
    pub state: BufferState,
    /// The connection's framed buffer.
    pub buff: Buff,
    /// The authenticated principal, once auth has succeeded.
    pub auth: Option<Auth>,
    /// The record type of the frame being decoded.
    pub rec_type: Option<RecordType>,
    /// The topic a follow frame in progress has named.
    pub topic_id: Option<u32>,
    /// The sequence byte for the next broker-to-client frame.
    pub out_seq: u8,
}

impl ConsumerClient {
    /// The session invariant: the framed buffer is valid and the cursors
    /// stand where the protocol phases put them.
    pub open spec fn wf(self) -> bool {
        &&& self.buff.wf()
        &&& (self.state is Closed || {
            &&& (self.buff.rec_size is None ==> self.buff.rec_upto == 0
                && !self.buff.seq_checked && self.rec_type is None && self.topic_id is None)
            &&& (self.buff.rec_size matches Some(s) ==> {
                &&& s >= 6
                &&& (!self.buff.seq_checked ==> self.buff.rec_upto == 4)
                &&& (self.buff.seq_checked ==> 5 <= self.buff.rec_upto)
                &&& (self.rec_type is None && self.buff.seq_checked ==> self.buff.rec_upto == 5)
                &&& (self.rec_type matches Some(t) && (t == RecordType::Auth || t
                    == RecordType::ConsumerFollowTopics) && self.topic_id is None
                    ==> self.buff.rec_upto == 6)
                &&& (self.rec_type is Some ==> self.buff.rec_upto >= 6)
                &&& (self.topic_id is Some ==> self.rec_type == Some(
                    RecordType::ConsumerFollowTopics,
                ) && self.buff.rec_upto >= 10)
            })
        })
    }

    /// The current frame's declared size, as soon as it can be known.
    pub open spec fn frame_size(self) -> Option<u32> {
        self.buff.frame_size_known()
    }

    /// Whether the whole current frame is at hand.
    pub open spec fn frame_complete(self) -> bool {
        match self.frame_size() {
            Some(s) => s >= 6 && self.buff.frame_avail() >= s,
            None => false,
        }
    }

    /// The current frame's record type, once its type byte is at hand.
    pub open spec fn frame_rtype(self) -> RecordType {
        match self.rec_type {
            Some(t) => t,
            None => record_type_of_code(self.buff.frame_byte(5)),
        }
    }

    /// Whether the current frame's type byte is at hand.
    pub open spec fn type_at_hand(self) -> bool {
        ||| self.rec_type is Some
        ||| (self.frame_size() is Some && self.buff.frame_avail() >= 6)
    }

    /// The topic id a follow frame names, once at hand.
    pub open spec fn frame_topic(self) -> u32 {
        match self.topic_id {
            Some(t) => t,
            None => spec_u32_from_le_bytes(self.buff.frame_bytes_at(6, 10)),
        }
    }

    /// Whether the follow frame's topic id is at hand.
    pub open spec fn topic_at_hand(self) -> bool {
        self.topic_id is Some || self.buff.frame_avail() >= 10
    }

    /// The current frame's payload, once the frame is whole.
    pub open spec fn frame_payload(self) -> Seq<u8> {
        self.buff.frame_bytes_at(6, self.frame_size()->Some_0 as int)
    }

    /// The protocol violation the buffered bytes already show, if any, in
    /// the order the state machine meets them: an undersized frame, a wrong
    /// sequence byte, then what the frame's type refuses — a rejected token
    /// on a complete Auth frame, a follow from an unauthenticated session,
    /// or a follow frame too short for its topic id.  Other types are
    /// dropped and never err.
    pub open spec fn violation(self) -> Option<Er> {
        match self.frame_size() {
            None => None,
            Some(s) => if s < 6 {
                Some(Er::ParseError)
            } else if !self.buff.seq_checked && self.buff.frame_avail() >= 5
                && self.buff.frame_byte(4) != self.buff.seq {
                Some(Er::InvalidSequence)
            } else if !self.buff.seq_checked && self.buff.frame_avail() < 5 {
                None
            } else if !self.type_at_hand() {
                None
            } else {
                match self.frame_rtype() {
                    RecordType::Auth => if self.frame_complete() && !auth_accepted(
                        self.frame_payload(),
                    ) {
                        Some(Er::BadAuth)
                    } else {
                        None
                    },
                    RecordType::ConsumerFollowTopics => if self.auth is None {
                        Some(Er::BadAuth)
                    } else if s < 10 && self.topic_id is None {
                        Some(Er::ParseError)
                    } else {
                        None
                    },
                    _ => None,
                }
            },
        }
    }

    /// Whether this step registers a follow: a clean follow frame from an
    /// authenticated session, naming a registered topic whose id is at hand
    /// and not yet taken in.
    pub open spec fn follow_enabled(self, topics: Seq<crate::topic::Topic>) -> bool {
        &&& !(self.state is Closed)
        &&& self.violation() is None
        &&& self.type_at_hand()
        &&& self.frame_rtype() == RecordType::ConsumerFollowTopics
        &&& self.topic_id is None
        &&& self.topic_at_hand()
        &&& (exists|i: int|
            0 <= i < topics.len() && (#[trigger] topics[i]).config.topic_id
                == self.frame_topic())
    }

    /// A fresh session awaiting authentication.
    pub fn new(id: u32) -> (c: ConsumerClient)
        ensures
            c.wf(),
            c.state == BufferState::Pending,
            c.buff.buff_pos == 0,
            c.id == id,
            c.out_seq == 0,
    {
        ConsumerClient {
            id,
            state: BufferState::Pending,
            buff: Buff::new(),
            auth: None,
            rec_type: None,
            topic_id: None,
            out_seq: 0,
        }
    }

    /// The session's state.
    pub fn state(&self) -> (s: &BufferState)
        ensures
            *s == self.state,
    {
        &self.state
    }

    /// One step of the session's state machine over whatever the buffer
    /// holds.  A complete Auth frame with an accepted token activates the
    /// session; a follow frame from an authenticated session subscribes it
    /// to the topic the frame names and answers, exactly once, with the
    /// reply frame carrying that topic's follow snapshot (index offset, then
    /// data offset); frames of other types are dropped, keeping the
    /// connection.  Each protocol violation is reported exactly and closes
    /// the session.
    #[verifier::rlimit(80)]
    pub fn process(&mut self, topic_list: &mut TopicList) -> (r: Result<Vec<u8>, Er>)
        requires
            old(self).wf(),
            old(topic_list).wf(),
        ensures
            final(self).wf(),
            final(topic_list).wf(),
            final(topic_list).topics@.len() == old(topic_list).topics@.len(),
            final(topic_list).topic_names@ == old(topic_list).topic_names@,
            forall|i: int|
                0 <= i < old(topic_list).topics@.len() ==> {
                    let t0 = #[trigger] old(topic_list).topics@[i];
                    let t1 = final(topic_list).topics@[i];
                    &&& t1.config == t0.config
                    &&& t1.data_file@ == t0.data_file@
                    &&& t1.index_file@ == t0.index_file@
                    &&& t1.last_data_offset == t0.last_data_offset
                    &&& t1.last_index_offset == t0.last_index_offset
                    &&& t0.followers@.is_prefix_of(t1.followers@)
                },
            // Errors are reported exactly, and an erring step changes no topic.
            r is Err ==> final(topic_list).topics@ == old(topic_list).topics@,
            r == Err::<Vec<u8>, Er>(Er::IsClosed) <==> old(self).state is Closed,
            old(self).state is Closed ==> *final(self) == *old(self) && *final(topic_list)
                == *old(topic_list),
            !(old(self).state is Closed) ==> {
                &&& (r == Err::<Vec<u8>, Er>(Er::ParseError) <==> old(self).violation() == Some(
                    Er::ParseError,
                ))
                &&& (r == Err::<Vec<u8>, Er>(Er::InvalidSequence) <==> old(self).violation()
                    == Some(Er::InvalidSequence))
                &&& (r == Err::<Vec<u8>, Er>(Er::BadAuth) <==> old(self).violation() == Some(
                    Er::BadAuth,
                ))
                &&& (r == Err::<Vec<u8>, Er>(Er::TopicNotFound) <==> (old(self).violation()
                    is None && old(self).type_at_hand() && old(self).frame_rtype()
                    == RecordType::ConsumerFollowTopics && old(self).topic_id is None && old(self).topic_at_hand() && (forall|i: int|
                    0 <= i < old(topic_list).topics@.len()
                        ==> (#[trigger] old(topic_list).topics@[i]).config.topic_id != old(self).frame_topic())))
            },
            r matches Err(e) && e != Er::IsClosed ==> final(self).state is Closed,
            // A session authenticates exactly on a complete, accepted Auth
            // frame, and an authenticated session is Active.
            !(old(self).state is Closed) && r is Ok ==> (final(self).auth is Some <==> (old(self).auth is Some || (old(self).type_at_hand() && old(self).frame_rtype()
                == RecordType::Auth && old(self).frame_complete() && auth_accepted(
                old(self).frame_payload(),
            )))) && (final(self).state is Active <==> (old(self).state is Active || (old(self).type_at_hand() && old(self).frame_rtype() == RecordType::Auth && old(self).frame_complete() && auth_accepted(old(self).frame_payload())))),
            // Follower sets change exactly when a follow is enabled, and then
            // only on the topic the frame names, which gets this session.
            !old(self).follow_enabled(old(topic_list).topics@) ==> final(topic_list).topics@
                == old(topic_list).topics@,
            r matches Ok(reply) ==> (reply@.len() > 0 <==> old(self).follow_enabled(
                old(topic_list).topics@,
            )),
            old(self).follow_enabled(old(topic_list).topics@) ==> (r matches Ok(reply) && (forall|
                i: int,
            |
                0 <= i < old(topic_list).topics@.len()
                    && (#[trigger] old(topic_list).topics@[i]).config.topic_id == old(self).frame_topic() ==> {
                    let t0 = old(topic_list).topics@[i];
                    let t1 = final(topic_list).topics@[i];
                    &&& (forall|j: int|
                        0 <= j < old(topic_list).topics@.len() && j != i ==> #[trigger] final(topic_list).topics@[j] == old(topic_list).topics@[j])
                    &&& t1.followers@ == if t0.followers@.contains(old(self).id) {
                        t0.followers@
                    } else {
                        t0.followers@.push(old(self).id)
                    }
                    &&& reply@ == frame_bytes(
                        old(self).out_seq,
                        3,
                        spec_u64_to_le_bytes(t0.last_index_offset).add(
                            spec_u64_to_le_bytes(t0.last_data_offset),
                        ),
                    )
                    &&& final(self).out_seq == next_seq(old(self).out_seq)
                })),
            // A whole follow frame is consumed: what remains buffered is
            // exactly the bytes after it, ready for the next one.
            old(self).follow_enabled(old(topic_list).topics@) && old(self).frame_complete() ==> {
                &&& final(self).rec_type is None
                &&& final(self).topic_id is None
                &&& final(self).buff.rec_size is None
                &&& final(self).buff.rec_upto == 0
                &&& !final(self).buff.seq_checked
                &&& final(self).buff.seq == next_seq(old(self).buff.seq)
                &&& final(self).buff.frame_avail() == old(self).buff.frame_avail() - old(
                    self,
                ).frame_size()->Some_0
                &&& (forall|k: int|
                    0 <= k < old(self).buff.frame_avail() - old(self).frame_size()->Some_0
                        ==> #[trigger] final(self).buff.frame_byte(k) == old(self).buff.frame_byte(
                        old(self).frame_size()->Some_0 + k,
                    ))
            },
    {
        match self.state {
            BufferState::Closed => {
                return Err(Er::IsClosed);
            },
            _ => {},
        }
        let ghost pre = *old(self);

        // Frame size: the leading u32; a declared size below the 6 header
        // bytes is a protocol violation.
        if self.buff.rec_size.is_none() {
            if let Some(sz) = self.buff.read_u32() {
                if sz < 6 {
                    self.state = BufferState::Closed;
                    return Err(Er::ParseError);
                }
                self.buff.rec_size = Some(sz);
            } else {
                return Ok(Vec::new());
            }
        }
        proof {
            assert(self.buff.rec_size == Some(pre.frame_size()->Some_0));
            assert(self.buff.frame_avail() == pre.buff.frame_avail());
            assert(self.buff.rec_pos - self.buff.rec_upto == pre.buff.rec_pos
                - pre.buff.rec_upto);
            assert(self.buff.buffer@ == pre.buff.buffer@);
        }

        // Sequence byte, validated once per frame.
        if !self.buff.seq_checked {
            let ghost at_seq = *self;
            match self.buff.check_seq() {
                Ok(_) => {},
                Err(e) => {
                    proof {
                        assert(at_seq.buff.buffer@[at_seq.buff.rec_pos as int]
                            == pre.buff.frame_byte(4));
                    }
                    self.state = BufferState::Closed;
                    return Err(e);
                },
            }
            if !self.buff.seq_checked {
                proof {
                    assert(pre.buff.frame_avail() < 5);
                }
                return Ok(Vec::new());
            }
            proof {
                assert(at_seq.buff.buffer@[at_seq.buff.rec_pos as int] == pre.buff.frame_byte(4));
            }
        }

        // Type byte.
        if self.rec_type.is_none() {
            let ghost at_type = *self;
            if let Some(t) = self.buff.read_u8() {
                proof {
                    assert(at_type.buff.buffer@[at_type.buff.rec_pos as int]
                        == pre.buff.frame_byte(5));
                }
                self.rec_type = Some(RecordType::from(t));
            } else {
                proof {
                    assert(pre.buff.frame_avail() < 6);
                }
                return Ok(Vec::new());
            }
        }
        proof {
            assert(self.rec_type == Some(pre.frame_rtype()));
            assert(pre.type_at_hand());
        }

        let rec_type = match self.rec_type {
            Some(t) => t,
            None => vstd::pervasive::unreached(),
        };

        match rec_type {
            RecordType::Auth => {
                proof {
                    assert(self.buff.rec_upto == 6);
                    if self.buff.is_end_spec() {
                        assert(pre.buff.frame_avail() >= pre.frame_size()->Some_0);
                        assert(pre.frame_complete());
                        assert(self.buff.read_to_spec() == self.buff.rec_pos
                            + (pre.frame_size()->Some_0 - 6));
                        assert(self.buff.visible_seq() =~= pre.frame_payload());
                    } else {
                        assert(!pre.frame_complete());
                    }
                }
                match Auth::new(&self.buff) {
                    Ok(Some(a)) => {
                        self.auth = Some(a);
                        self.state = BufferState::Active;
                        self.rec_type = None;
                        self.buff.reset();
                        Ok(Vec::new())
                    },
                    Ok(None) => Ok(Vec::new()),
                    Err(_) => {
                        self.state = BufferState::Closed;
                        Err(Er::BadAuth)
                    },
                }
            },
            RecordType::ConsumerFollowTopics => {
                if self.auth.is_none() {
                    self.state = BufferState::Closed;
                    return Err(Er::BadAuth);
                }
                let rec_size = match self.buff.rec_size {
                    Some(s) => s,
                    None => vstd::pervasive::unreached(),
                };
                let mut reply: Vec<u8> = Vec::new();
                let ghost list0 = topic_list.topics@;
                if self.topic_id.is_none() {
                    if rec_size - self.buff.rec_upto < 4 {
                        self.state = BufferState::Closed;
                        return Err(Er::ParseError);
                    }
                    let ghost at_tid = *self;
                    let tid = match self.buff.read_u32() {
                        Some(v) => v,
                        None => {
                            proof {
                                assert(!pre.topic_at_hand());
                            }
                            return Ok(Vec::new());
                        },
                    };
                    proof {
                        assert(at_tid.buff.buffer@.subrange(
                            at_tid.buff.rec_pos as int,
                            at_tid.buff.rec_pos + 4,
                        ) =~= pre.buff.frame_bytes_at(6, 10));
                        assert(tid == pre.frame_topic());
                    }
                    self.topic_id = Some(tid);
                    let ti = match topic_list.index_for_id(tid) {
                        Some(i) => i,
                        None => {
                            self.state = BufferState::Closed;
                            return Err(Er::TopicNotFound);
                        },
                    };
                    let topic = topic_list.topic_mut(ti);
                    let (index_pos, data_pos) = match topic.follow(self.id) {
                        Ok(p) => p,
                        Err(_) => vstd::pervasive::unreached(),
                    };
                    let mut payload = u64_to_le_bytes(index_pos);
                    let mut data_bytes = u64_to_le_bytes(data_pos);
                    payload.append(&mut data_bytes);
                    reply = build_frame(self.out_seq, 3, payload.as_slice());
                    self.out_seq = if self.out_seq == 255 {
                        0
                    } else {
                        self.out_seq + 1
                    };
                    proof {
                        assert(payload@ =~= spec_u64_to_le_bytes(
                            list0[ti as int].last_index_offset,
                        ).add(spec_u64_to_le_bytes(list0[ti as int].last_data_offset)));
                        let fs = topic_list.topics@[ti as int].followers@;
                        if !list0[ti as int].followers@.contains(pre.id) {
                            assert(fs[fs.len() - 1] == pre.id);
                        }
                        assert(list0[ti as int].followers@.is_prefix_of(fs)) by {
                            assert(list0[ti as int].followers@.is_prefix_of(
                                list0[ti as int].followers@.push(pre.id),
                            ));
                        }
                        assert(forall|j: int|
                            0 <= j < list0.len() && j != ti ==> topic_list.topics@[j]
                                == #[trigger] list0[j]);
                        assert(reply@.len() > 0);
                    }
                } else {
                    proof {
                        assert(!pre.follow_enabled(list0));
                    }
                }
                let complete = self.buff.is_end_of_record();
                self.buff.reset();
                if complete {
                    self.rec_type = None;
                    self.topic_id = None;
                }
                Ok(reply)
            },
            _ => {
                // Unassigned or one-way types: drop the record, keep the
                // connection.
                let complete = self.buff.is_end_of_record();
                self.buff.reset();
                if complete {
                    self.rec_type = None;
                }
                Ok(Vec::new())
            },
        }
    }

    /// Frames one feed emission for this follower: the standard header with
    /// this connection's outgoing sequence and the feed type, carrying the
    /// dispatched bytes, exactly as every other follower of the tick
    /// receives them.
    pub fn send_feed(&mut self, offset: u64, buffer: &[u8], feed_type: RecordType) -> (r: Result<
        Vec<u8>,
        Er,
    >)
        requires
            old(self).wf(),
            buffer@.len() + 6 <= u32::MAX,
        ensures
            final(self).wf(),
            r matches Ok(frame) && frame@ == frame_bytes(
                old(self).out_seq,
                code_of_record_type(feed_type),
                buffer@,
            ),
            final(self).out_seq == next_seq(old(self).out_seq),
            *final(self) == (ConsumerClient { out_seq: final(self).out_seq, ..*old(self) }),
    {
        let frame = build_frame(self.out_seq, feed_type.code(), buffer);
        self.out_seq = if self.out_seq == 255 {
            0
        } else {
            self.out_seq + 1
        };
        Ok(frame)
    }
}

/// Which feed a modified file belongs to: index files carry IndexFeed, data
/// files carry DataFeed, anything else is unassigned.
pub fn feed_type_for(file_name: &str) -> (t: RecordType)
    ensures
        file_name@.len() > 0 && file_name@[0] == 'i' ==> t == RecordType::IndexFeed,
        file_name@.len() > 0 && file_name@[0] == 'd' ==> t == RecordType::DataFeed,
        file_name@.len() == 0 || (file_name@[0] != 'i' && file_name@[0] != 'd') ==> t
            == RecordType::Undefined,
{
    let n = file_name.unicode_len();
    if n == 0 {
        return RecordType::Undefined;
    }
    let c0 = file_name.get_char(0);
    if c0 == 'i' {
        RecordType::IndexFeed
    } else if c0 == 'd' {
        RecordType::DataFeed
    } else {
        RecordType::Undefined
    }
}

/// When the fan-out cursor stood at the end of a file, the next dispatch
/// carries exactly the bytes appended since: the dispatched range of the
/// grown file is the appended bytes, no more and no fewer.
pub proof fn lemma_dispatch_carries_exactly_new_bytes(
    before: Seq<u8>,
    appended: Seq<u8>,
    cursor: u64,
)
    requires
        cursor == before.len(),
    ensures
        before.add(appended).subrange(cursor as int, before.add(appended).len() as int)
            == appended,
{
    assert(before.add(appended).subrange(cursor as int, before.add(appended).len() as int)
        =~= appended);
}

} // verus!
