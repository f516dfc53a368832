use redfoam::config::{Config, TopicConfig};
use redfoam::er::Er;
use redfoam::tcp::RecordType;
use redfoam::topic::{latest_generation, Topic, TopicDir, TopicList};

fn test_config(file_mask: u8) -> TopicConfig {
    TopicConfig {
        topic_id: 1,
        topic_name: "test".to_string(),
        folder: "/tmp".to_string(),
        replication: 0,
        file_mask,
    }
}

fn fresh_topic(file_mask: u8) -> Topic {
    let entries: Vec<String> = Vec::new();
    Topic::open(test_config(file_mask), true, &entries, Vec::new(), Vec::new())
        .expect("open on an empty directory")
}

#[test]
fn test_topicwrite() {
    let mut t = fresh_topic(0);
    let written = t.write(1, b"hello").expect("trying to write to file");
    assert_eq!(written, 5, "5 bytes should be written to file");
    let first = t.end_rec().expect("committing first record");
    t.write(1, b"again").expect("trying to write to file");
    let second = t.end_rec().expect("committing second record");
    assert_eq!(second, first + 1, "checking index is incremented by one");
}

#[test]
fn test_readfirstrecord() {
    let mut t = fresh_topic(0);
    t.write(1, b"First Record").expect("writing the record");
    t.end_rec().expect("committing the record");

    let mut buf: Vec<u8> = vec![0; 1024];
    let n = t.read_index_into(&mut buf, 0).expect("error reading index");
    assert_eq!(n, 8, "check 8 index bytes read");
    let mut raw = [0u8; 8];
    raw.copy_from_slice(&buf[0..8]);
    let idx = u64::from_le_bytes(raw);
    assert!(idx != 0, "check index value is not zero");

    let mut dbuf: Vec<u8> = vec![0; 1024];
    let dn = t.read_data_into(&mut dbuf, 0).expect("error reading data");
    assert_eq!(dn as u64, idx, "check {} data bytes read", idx);
    assert_eq!(dbuf[0], b'F', "check first char");
    assert_eq!(dbuf[dn - 1], b'd', "check last char");
}

// After N commits the index file holds 8 bytes per record, the data file is
// the payloads in order, and each entry is the running total of the payload
// lengths.
#[test]
fn store_accounting_after_commits() {
    let mut t = fresh_topic(0);
    let payloads: [&[u8]; 3] = [b"one", b"second!", b""];
    let mut total: u64 = 0;
    let mut expected_data: Vec<u8> = Vec::new();
    let mut expected_entries: Vec<u64> = Vec::new();
    for (k, p) in payloads.iter().enumerate() {
        assert_eq!(t.write(1, p), Ok(p.len()));
        assert_eq!(t.end_rec(), Ok(k as u64));
        total += p.len() as u64;
        expected_data.extend_from_slice(p);
        expected_entries.push(total);
    }
    assert_eq!(t.index_file.len(), 8 * payloads.len());
    assert_eq!(t.data_file, expected_data);
    for (k, e) in expected_entries.iter().enumerate() {
        let mut raw = [0u8; 8];
        raw.copy_from_slice(&t.index_file[8 * k..8 * k + 8]);
        assert_eq!(u64::from_le_bytes(raw), *e, "entry {} is the running total", k);
    }
    assert_eq!(t.index, payloads.len() as u64);
}

// Opening picks the largest generation suffix among the directory entries.
#[test]
fn latest_file() {
    let entries: Vec<String> = vec![
        "d0000000000000000".to_string(),
        "i0000000000000000".to_string(),
        "d000000000000001c".to_string(),
        "i000000000000001c".to_string(),
        "d00000000000000a3".to_string(),
        "i00000000000000a3".to_string(),
    ];
    assert_eq!(latest_generation(&entries), Ok(0xa3));

    let t = Topic::open(test_config(0), false, &entries, Vec::new(), Vec::new())
        .expect("trying to get latest index file without error");
    assert!(
        t.get_data_file_name().ends_with("d00000000000000a3"),
        "trying to get latest data file"
    );
    assert!(
        t.get_index_file_name().ends_with("i00000000000000a3"),
        "trying to get latest index file"
    );
}

// A consumer cannot open a topic whose newest pair is incomplete; a producer
// creates the missing files.
#[test]
fn open_missing_pair() {
    let entries: Vec<String> = vec!["d0000000000000003".to_string()];
    let r = Topic::open(test_config(0), false, &entries, Vec::new(), Vec::new());
    assert_eq!(r.err(), Some(Er::CantOpenFile));
    let ok = Topic::open(test_config(0), true, &entries, Vec::new(), Vec::new());
    assert!(ok.is_ok());
}

// A d/i entry without a hex suffix is a bad offset; an empty name is a bad
// file name.
#[test]
fn open_bad_entries() {
    let entries: Vec<String> = vec!["data.txt".to_string()];
    let r = Topic::open(test_config(0), true, &entries, Vec::new(), Vec::new());
    assert_eq!(r.err(), Some(Er::BadOffset));
    let entries2: Vec<String> = vec!["".to_string()];
    let r2 = Topic::open(test_config(0), true, &entries2, Vec::new(), Vec::new());
    assert_eq!(r2.err(), Some(Er::BadFileName));
}

// Latest-reads surface each byte once: the reported ranges of consecutive
// reads never overlap, and a read after the last byte returns nothing.
#[test]
fn latest_reads_never_resurface() {
    let mut t = fresh_topic(0);
    t.write(1, b"0123456789").unwrap();
    t.end_rec().unwrap();

    let mut buf: Vec<u8> = vec![0; 4];
    let (off1, n1) = t.read_data_latest(&mut buf).unwrap();
    assert_eq!((off1, n1), (0, 4));
    assert_eq!(&buf[..4], b"0123");
    let (off2, n2) = t.read_data_latest(&mut buf).unwrap();
    assert_eq!((off2, n2), (4, 4));
    assert_eq!(&buf[..4], b"4567");
    let (off3, n3) = t.read_data_latest(&mut buf).unwrap();
    assert_eq!((off3, n3), (8, 2));
    assert_eq!(&buf[..2], b"89");
    let (off4, n4) = t.read_data_latest(&mut buf).unwrap();
    assert_eq!((off4, n4), (10, 0));

    let mut ibuf: Vec<u8> = vec![0; 12];
    let (ioff1, in1) = t.read_index_latest(&mut ibuf).unwrap();
    assert_eq!((ioff1, in1), (0, 8), "rounded down to whole entries");
    let (ioff2, in2) = t.read_index_latest(&mut ibuf).unwrap();
    assert_eq!((ioff2, in2), (8, 0));
}

// One dispatch tick sends every follower exactly the bytes appended since
// the last tick, and moves the cursor exactly past them.
#[test]
fn dispatch_sends_exactly_new_bytes() {
    let mut t = fresh_topic(0);
    t.follow(21).unwrap();
    t.follow(33).unwrap();
    t.follow(21).unwrap();

    t.write(1, b"alphabet soup").unwrap();
    t.end_rec().unwrap();

    let (doff, dbytes, dfollowers) = t.send_followers(RecordType::DataFeed).unwrap();
    assert_eq!(doff, 0);
    assert_eq!(dbytes, b"alphabet soup".to_vec());
    assert_eq!(dfollowers, vec![21, 33], "each follower once");
    assert_eq!(t.last_data_offset, 13, "cursor advanced by exactly the payload");

    let (ioff, ibytes, _) = t.send_followers(RecordType::IndexFeed).unwrap();
    assert_eq!(ioff, 0);
    assert_eq!(ibytes, 13u64.to_le_bytes().to_vec());
    assert_eq!(t.last_index_offset, 8);

    let (_, dbytes2, _) = t.send_followers(RecordType::DataFeed).unwrap();
    assert!(dbytes2.is_empty(), "nothing new to send");

    assert_eq!(
        t.send_followers(RecordType::Auth).err(),
        Some(Er::BadFileName),
        "only feed types dispatch"
    );
}

// A follow snapshot reports the offsets current at call time, and dispatches
// after it never carry earlier bytes.
#[test]
fn follow_snapshot_offsets() {
    let mut t = fresh_topic(0);
    t.write(1, b"before").unwrap();
    t.end_rec().unwrap();
    let (_, _, _) = t.send_followers(RecordType::DataFeed).unwrap();
    let (_, _, _) = t.send_followers(RecordType::IndexFeed).unwrap();

    let (ipos, dpos) = t.follow(5).unwrap();
    assert_eq!((ipos, dpos), (8, 6));

    t.write(1, b"after").unwrap();
    t.end_rec().unwrap();
    let (doff, dbytes, fs) = t.send_followers(RecordType::DataFeed).unwrap();
    assert!(doff >= dpos, "no byte before the snapshot is sent");
    assert_eq!(dbytes, b"after".to_vec());
    assert_eq!(fs, vec![5]);
}

// With a file mask of 1 a generation holds 16 records; the filled pair keeps
// all 16 entries, and the 17th record opens the next generation's fresh pair.
#[test]
fn generation_rollover() {
    let mut t = fresh_topic(1);
    for k in 0..16u64 {
        t.write(1, b"0123456789abcdef").unwrap();
        assert_eq!(t.end_rec(), Ok(k));
    }
    assert!(t.full, "sixteen records fill generation zero");
    assert_eq!(t.generation, 0, "the filled pair is still the current one");
    assert_eq!(t.index_file.len(), 128, "all sixteen entries stand in it");
    assert_eq!(t.data_file.len(), 16 * 16);
    let mut last = [0u8; 8];
    last.copy_from_slice(&t.index_file[120..128]);
    assert_eq!(u64::from_le_bytes(last), 256, "the final entry was not lost");
    assert!(t.get_data_file_name().ends_with("d0000000000000000"));

    t.write(1, b"seventeenth").unwrap();
    assert_eq!(t.generation, 1, "the next append opened the next pair");
    assert!(t.get_data_file_name().ends_with("d0000000000000001"));
    assert!(t.get_index_file_name().ends_with("i0000000000000001"));
    assert_eq!(t.end_rec(), Ok(16));
    assert_eq!(t.index_file.len(), 8, "one entry in the new generation");
    let mut raw = [0u8; 8];
    raw.copy_from_slice(&t.index_file[0..8]);
    assert_eq!(u64::from_le_bytes(raw), 11, "offsets restart in the new file");
    assert!(!t.full);
}

// While one session is mid-record, another session's append is refused and
// changes nothing; the commit releases the claim.
#[test]
fn single_current_producer() {
    let mut t = fresh_topic(0);
    assert_eq!(t.write(1, b"abc"), Ok(3));
    assert_eq!(t.write(2, b"zzz"), Err(Er::NotReady));
    assert_eq!(t.data_file, b"abc".to_vec());
    assert_eq!(t.write(1, b"def"), Ok(3));
    t.end_rec().unwrap();
    assert_eq!(t.write(2, b"zzz"), Ok(3));
}

// Switching to a newly created generation file points future dispatches at
// it, from its start.
#[test]
fn switch_file_changes_generation() {
    let mut t = fresh_topic(0);
    t.ingest_data(b"old");
    let (_, _, _) = t.send_followers(RecordType::DataFeed).unwrap();
    assert_eq!(t.last_data_offset, 3);

    t.switch_file("d0000000000000001", b"nn".to_vec()).unwrap();
    assert_eq!(t.get_data_file_name(), "d0000000000000001");
    assert_eq!(t.last_data_offset, 0);
    let (off, bytes, _) = t.send_followers(RecordType::DataFeed).unwrap();
    assert_eq!((off, bytes), (0, b"nn".to_vec()));

    assert_eq!(t.switch_file("x123", Vec::new()).err(), Some(Er::BadFileName));
}

// The registry opens every configured topic and finds them by id and name.
#[test]
fn test_topiclist() {
    let config = Config {
        node_id: 0,
        topics: vec![test_config(0)],
    };
    let dirs = vec![TopicDir { entries: Vec::new(), data: Vec::new(), index: Vec::new() }];
    let mut list = TopicList::init(true, config, dirs).expect("opening the registry");
    assert_eq!(list.get_topic(&"test".to_string()), 1, "topic 1 should be in topic list");
    assert!(list.topic_for_id(1).is_ok());
    assert_eq!(list.topic_for_id(9).err(), Some(Er::TopicNotFound));

    let i = list.index_for_id(1).unwrap();
    let t = list.topic_mut(i);
    t.write(4, b"TopicList test message").expect("problem while writing to topic");
    t.end_rec().expect("problem while writing to topic for end record");
    let t2 = list.topic_for_id(1).unwrap();
    assert_eq!(t2.data_file, b"TopicList test message".to_vec());
}

// The built-in configuration describes the test topic.
#[test]
fn default_config() {
    let config = Config::new();
    assert_eq!(config.node_id, 0);
    let t = &config.topics[0];
    assert_eq!(t.topic_id, 1);
    assert_eq!(t.topic_name, "test");
    assert_eq!(t.replication, 0);
    assert_eq!(t.folder, "/tmp");
    assert_eq!(t.file_mask, 4);
}
