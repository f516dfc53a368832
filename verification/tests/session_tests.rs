use redfoam::client::{Client, Listener, Messages, ReadClient};
use redfoam::config::{Config, TopicConfig};
use redfoam::consumer::{feed_type_for, ConsumerClient};
use redfoam::er::Er;
use redfoam::frames::build_frame;
use redfoam::producer::ProducerClient;
use redfoam::tcp::{BufferState, RecordType};
use redfoam::topic::{TopicDir, TopicList};

fn broker(file_mask: u8) -> TopicList {
    let config = Config {
        node_id: 0,
        topics: vec![TopicConfig {
            topic_id: 1,
            topic_name: "test".to_string(),
            folder: "/tmp".to_string(),
            replication: 0,
            file_mask,
        }],
    };
    let dirs = vec![TopicDir { entries: Vec::new(), data: Vec::new(), index: Vec::new() }];
    TopicList::init(true, config, dirs).expect("opening the registry")
}

fn feed_producer(p: &mut ProducerClient, list: &mut TopicList, bytes: &[u8]) -> Result<Vec<u8>, Er> {
    let mut rest = bytes;
    let mut reply = Vec::new();
    while !rest.is_empty() {
        let taken = p.buff.read_data(rest).unwrap();
        rest = &rest[taken..];
        let r = p.process(list)?;
        if !r.is_empty() {
            reply = r;
        }
    }
    Ok(reply)
}

fn feed_consumer(c: &mut ConsumerClient, list: &mut TopicList, bytes: &[u8]) -> Result<Vec<u8>, Er> {
    let mut rest = bytes;
    let mut reply = Vec::new();
    while !rest.is_empty() {
        let taken = c.buff.read_data(rest).unwrap();
        rest = &rest[taken..];
        let r = c.process(list)?;
        if !r.is_empty() {
            reply = r;
        }
    }
    Ok(reply)
}

// Single record round-trip: auth, then one Producer frame; the index file
// grows by one entry holding the data file's new length, and the data file
// ends with the payload.
#[test]
fn single_record_round_trip() {
    let mut list = broker(0);
    let mut p = ProducerClient::new(1);
    let (mut client, auth_frame) = Client::new("test", "ANON");

    let r = feed_producer(&mut p, &mut list, &auth_frame).unwrap();
    assert!(r.is_empty());
    assert!(matches!(p.state(), BufferState::Active));

    let frame = client.send("hello world!");
    let ack = feed_producer(&mut p, &mut list, &frame).unwrap();
    assert_eq!(ack.len(), 9, "seq byte plus the assigned index");
    assert_eq!(ack[0], 1, "the frame's sequence byte");
    assert_eq!(u64::from_le_bytes(ack[1..9].try_into().unwrap()), 0, "first record");

    let t = list.topic_for_id(1).unwrap();
    assert_eq!(t.index_file.len(), 8, "index file grew by one entry");
    let entry = u64::from_le_bytes(t.index_file[0..8].try_into().unwrap());
    assert_eq!(entry, 12, "prev_data_len + 12");
    assert!(t.data_file.ends_with(b"hello world!"));
}

// Two records on one connection: the second frame carries seq 2 and the
// second entry is the first plus its payload length.
#[test]
fn two_records_one_connection() {
    let mut list = broker(0);
    let mut p = ProducerClient::new(1);
    let (mut client, auth_frame) = Client::new("test", "ANON");
    feed_producer(&mut p, &mut list, &auth_frame).unwrap();
    let f1 = client.send("hello world!");
    feed_producer(&mut p, &mut list, &f1).unwrap();

    let f2 = client.send("another message");
    assert_eq!(f2[4], 2, "second record frame carries seq 2");
    let ack = feed_producer(&mut p, &mut list, &f2).unwrap();
    assert_eq!(u64::from_le_bytes(ack[1..9].try_into().unwrap()), 1);

    let t = list.topic_for_id(1).unwrap();
    assert_eq!(t.index_file.len(), 16, "index grew by 16 bytes total since start");
    let e1 = u64::from_le_bytes(t.index_file[0..8].try_into().unwrap());
    let e2 = u64::from_le_bytes(t.index_file[8..16].try_into().unwrap());
    assert_eq!(e2, e1 + 15, "second entry = first + 15");
}

// Consumer follow after two records: the reply frame carries the index-file
// and data-file sizes current just before it was sent.
#[test]
fn consumer_follow_after_two_records() {
    let mut list = broker(0);
    let mut p = ProducerClient::new(1);
    let (mut pclient, p_auth) = Client::new("test", "ANON");
    feed_producer(&mut p, &mut list, &p_auth).unwrap();
    let f1 = pclient.send("hello world!");
    feed_producer(&mut p, &mut list, &f1).unwrap();
    let f2 = pclient.send("another message");
    feed_producer(&mut p, &mut list, &f2).unwrap();

    // The dispatcher has caught up with both files before the consumer
    // attaches, so the fan-out cursors stand at the file ends.
    {
        let i = list.index_for_id(1).unwrap();
        list.topic_mut(i).send_followers(RecordType::DataFeed).unwrap();
        list.topic_mut(i).send_followers(RecordType::IndexFeed).unwrap();
    }

    let mut c = ConsumerClient::new(7);
    let (mut cclient, c_auth) = Client::new("test", "ANON");
    let r = feed_consumer(&mut c, &mut list, &c_auth).unwrap();
    assert!(r.is_empty());

    let follow = cclient.follow_topic(1);
    let reply = feed_consumer(&mut c, &mut list, &follow).unwrap();

    let mut expected_payload = Vec::new();
    expected_payload.extend_from_slice(&16u64.to_le_bytes());
    expected_payload.extend_from_slice(&27u64.to_le_bytes());
    let expected = build_frame(0, 3, &expected_payload);
    assert_eq!(reply, expected, "reply carries the index and data sizes at follow time");

    {
        let t = list.topic_for_id(1).unwrap();
        assert_eq!(t.followers, vec![7]);
    }
    let i = list.index_for_id(1).unwrap();
    let (_, dbytes, _) = list.topic_mut(i).send_followers(RecordType::DataFeed).unwrap();
    assert!(dbytes.is_empty(), "no feed frames until a producer appends more");
}

// Live feed: with a follower attached, a new record reaches it as one
// DataFeed frame with the payload and one IndexFeed frame with the new
// boundary, and the client reassembles the record.
#[test]
fn live_feed() {
    let mut list = broker(0);
    let mut p = ProducerClient::new(1);
    let (mut pclient, p_auth) = Client::new("test", "ANON");
    feed_producer(&mut p, &mut list, &p_auth).unwrap();
    let f1 = pclient.send("hello world!");
    feed_producer(&mut p, &mut list, &f1).unwrap();
    let f2 = pclient.send("another message");
    feed_producer(&mut p, &mut list, &f2).unwrap();

    // The dispatcher has caught up before the consumer attaches.
    {
        let i = list.index_for_id(1).unwrap();
        list.topic_mut(i).send_followers(RecordType::DataFeed).unwrap();
        list.topic_mut(i).send_followers(RecordType::IndexFeed).unwrap();
    }

    let mut c = ConsumerClient::new(7);
    let (cclient, c_auth) = Client::new("test", "ANON");
    feed_consumer(&mut c, &mut list, &c_auth).unwrap();
    let mut cclient = cclient;
    let follow = cclient.follow_topic(1);
    feed_consumer(&mut c, &mut list, &follow).unwrap();

    // The producer appends one more record.
    let f3 = pclient.send("alphabet soup");
    feed_producer(&mut p, &mut list, &f3).unwrap();

    // The dispatcher emits the new bytes of each file to every follower.
    let i = list.index_for_id(1).unwrap();
    let (doff, dbytes, dfs) = list.topic_mut(i).send_followers(RecordType::DataFeed).unwrap();
    assert_eq!(dfs, vec![7]);
    assert_eq!(dbytes, b"alphabet soup".to_vec());
    let (ioff, ibytes, _) = list.topic_mut(i).send_followers(RecordType::IndexFeed).unwrap();
    assert_eq!(ibytes, (27u64 + 13).to_le_bytes().to_vec());

    let data_frame = c.send_feed(doff, &dbytes, RecordType::DataFeed).unwrap();
    let index_frame = c.send_feed(ioff, &ibytes, RecordType::IndexFeed).unwrap();
    assert_eq!(data_frame.len(), 6 + 13, "one DataFeed frame with the 13 bytes");
    assert_eq!(index_frame.len(), 6 + 8, "one IndexFeed frame with the 8 bytes");

    // The client reassembles the record from the follow snapshot onward.
    let mut listener = Listener::new(cclient, 16, 27).unwrap();
    listener.client.tcp_buff.read_data(&data_frame).unwrap();
    listener.client.tcp_buff.read_data(&index_frame).unwrap();
    let msg = listener.next().unwrap();
    assert_eq!(msg, Some(b"alphabet soup".to_vec()));
    assert_eq!(listener.next().unwrap(), None);
}

// Sequence violation: a frame that skips a sequence number closes the
// connection and changes no file.
#[test]
fn sequence_violation() {
    let mut list = broker(0);
    let mut p = ProducerClient::new(1);
    let (_client, auth_frame) = Client::new("test", "ANON");
    feed_producer(&mut p, &mut list, &auth_frame).unwrap();

    let mut payload = Vec::new();
    payload.extend_from_slice(&1u32.to_le_bytes());
    payload.extend_from_slice(b"skipped");
    let bad = build_frame(2, 2, &payload);
    let r = feed_producer(&mut p, &mut list, &bad);
    assert_eq!(r, Err(Er::InvalidSequence), "broker refuses the skipped sequence");
    assert!(matches!(p.state(), BufferState::Closed));
    let t = list.topic_for_id(1).unwrap();
    assert_eq!(t.data_file.len(), 0, "no data-file change");
    assert_eq!(t.index_file.len(), 0);
}

// A bad token is refused with BadAuth and the session closes.
#[test]
fn bad_token_closes_session() {
    let mut list = broker(0);
    let mut p = ProducerClient::new(1);
    let (_c, frame) = Client::new("test", "letmein");
    let r = feed_producer(&mut p, &mut list, &frame);
    assert_eq!(r, Err(Er::BadAuth));
    assert!(matches!(p.state(), BufferState::Closed));
    assert_eq!(p.process(&mut list), Err(Er::IsClosed));
}

// An empty token is accepted.
#[test]
fn empty_token_accepted() {
    let mut list = broker(0);
    let mut p = ProducerClient::new(1);
    let (_c, frame) = Client::new("test", "");
    feed_producer(&mut p, &mut list, &frame).unwrap();
    assert!(matches!(p.state(), BufferState::Active));
}

// A Producer frame naming an unknown topic closes the session.
#[test]
fn unknown_topic_is_refused() {
    let mut list = broker(0);
    let mut p = ProducerClient::new(1);
    let (_c, auth_frame) = Client::new("test", "ANON");
    feed_producer(&mut p, &mut list, &auth_frame).unwrap();
    let mut payload = Vec::new();
    payload.extend_from_slice(&9u32.to_le_bytes());
    payload.extend_from_slice(b"x");
    let frame = build_frame(1, 2, &payload);
    let r = feed_producer(&mut p, &mut list, &frame);
    assert_eq!(r, Err(Er::TopicNotFound));
}

// A frame whose declared size cannot hold its own header closes the session.
#[test]
fn undersized_frame_is_refused() {
    let mut list = broker(0);
    let mut p = ProducerClient::new(1);
    let bad: Vec<u8> = vec![3, 0, 0, 0];
    let r = feed_producer(&mut p, &mut list, &bad);
    assert_eq!(r, Err(Er::ParseError));
}

// An unauthenticated follow closes the consumer session.
#[test]
fn follow_requires_auth() {
    let mut list = broker(0);
    let mut c = ConsumerClient::new(7);
    let frame = build_frame(0, 3, &1u32.to_le_bytes());
    let r = feed_consumer(&mut c, &mut list, &frame);
    assert_eq!(r, Err(Er::BadAuth));
}

// The dispatcher's per-file decision: index files feed IndexFeed, data files
// feed DataFeed, anything else is unassigned.
#[test]
fn feed_type_decision() {
    assert!(matches!(feed_type_for("i0000000000000000"), RecordType::IndexFeed));
    assert!(matches!(feed_type_for("d0000000000000000"), RecordType::DataFeed));
    assert!(matches!(feed_type_for("lost+found"), RecordType::Undefined));
    assert!(matches!(feed_type_for(""), RecordType::Undefined));
}

// The reassembler emits a record only once its boundary and bytes are in.
#[test]
fn messages_reassembles_records() {
    let mut m = Messages::new(100, 8);
    m.push_data(b"hello");
    assert_eq!(m.next(), None, "no boundary yet");
    m.push_index(8 + 5);
    m.push_data(b" worl");
    assert_eq!(m.next(), Some(b"hello".to_vec()));
    m.push_index(13 + 7);
    assert_eq!(m.next(), None, "boundary known but bytes missing");
    m.push_data(b"d!");
    assert_eq!(m.next(), Some(b" world!".to_vec()));
    assert_eq!(m.next(), None);
    assert_eq!(m.index_offset, 102, "two boundaries consumed");
    assert_eq!(m.data_offset, 20);
}

// The receiving half seeds itself from the follow reply, then reassembles
// the feed; feed frames before the reply are refused.
#[test]
fn read_client_reassembles_feed() {
    let mut rc = ReadClient::new();
    let premature = build_frame(0, 4, b"early");
    assert_eq!(rc.run(&premature).err(), Some(Er::NoConsumerStart));

    let mut rc = ReadClient::new();
    let mut reply_payload = Vec::new();
    reply_payload.extend_from_slice(&0u64.to_le_bytes());
    reply_payload.extend_from_slice(&0u64.to_le_bytes());
    let mut stream = build_frame(0, 3, &reply_payload);
    stream.extend_from_slice(&build_frame(1, 4, b"abc"));
    stream.extend_from_slice(&build_frame(2, 5, &3u64.to_le_bytes()));
    let (taken, msgs) = rc.run(&stream).unwrap();
    assert_eq!(taken, stream.len());
    assert_eq!(msgs, vec![b"abc".to_vec()]);
}

// The receive pass returns every record its frames complete, exactly once
// and in order, and never holds a completed record back.
#[test]
fn read_client_returns_every_completed_record() {
    let mut rc = ReadClient::new();
    let mut reply_payload = Vec::new();
    reply_payload.extend_from_slice(&0u64.to_le_bytes());
    reply_payload.extend_from_slice(&100u64.to_le_bytes());
    let reply = build_frame(0, 3, &reply_payload);
    let (_, msgs) = rc.run(&reply).unwrap();
    assert!(msgs.is_empty(), "the reply seeds, nothing is emitted yet");

    // Two records' bytes, then their boundaries, delivered across passes.
    let data = build_frame(1, 4, b"onetwo");
    let (_, msgs) = rc.run(&data).unwrap();
    assert!(msgs.is_empty(), "bytes without boundaries complete nothing");

    let idx1 = build_frame(2, 5, &103u64.to_le_bytes());
    let (_, msgs) = rc.run(&idx1).unwrap();
    assert_eq!(msgs, vec![b"one".to_vec()], "the first boundary completes one record");

    let idx2 = build_frame(3, 5, &106u64.to_le_bytes());
    let (_, msgs) = rc.run(&idx2).unwrap();
    assert_eq!(msgs, vec![b"two".to_vec()], "the second completes the rest");

    let (_, msgs) = rc.run(&[]).unwrap();
    assert!(msgs.is_empty(), "nothing emittable is ever held back");
}

// The handshake poll surfaces the follow reply's snapshot and refuses any
// other frame arriving first.
#[test]
fn listener_poll_new() {
    let mut reply_payload = Vec::new();
    reply_payload.extend_from_slice(&16u64.to_le_bytes());
    reply_payload.extend_from_slice(&27u64.to_le_bytes());
    let reply = build_frame(0, 3, &reply_payload);

    let (mut client, _auth) = Client::new("test", "ANON");
    client.tcp_buff.read_data(&reply).unwrap();
    assert_eq!(Listener::poll_new(&mut client), Ok(Some((16, 27))));

    let (mut client2, _auth2) = Client::new("test", "ANON");
    client2.tcp_buff.read_data(&build_frame(0, 4, b"zz")).unwrap();
    assert_eq!(Listener::poll_new(&mut client2), Err(Er::FailedToReadDataStart));
}
