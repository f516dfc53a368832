//! Broker configuration: the topics the broker serves.
use vstd::prelude::*;
use vstd::string::StringExecFns;

verus! {

/// Configuration of one topic.  `file_mask` bounds the records per file
/// generation: a generation holds `16^file_mask` records, and 0 means a
/// single pair of files that never rolls.
pub struct TopicConfig {
    pub topic_id: u32,
    pub topic_name: String,
    pub folder: String,
    pub replication: u8,
    pub file_mask: u8,
}

impl Clone for TopicConfig {
    /// A field-for-field copy.
    fn clone(&self) -> (r: Self)
        ensures
            r.topic_id == self.topic_id,
            r.topic_name@ == self.topic_name@,
            r.folder@ == self.folder@,
            r.replication == self.replication,
            r.file_mask == self.file_mask,
    {
        TopicConfig {
            topic_id: self.topic_id,
            topic_name: self.topic_name.clone(),
            folder: self.folder.clone(),
            replication: self.replication,
            file_mask: self.file_mask,
        }
    }
}

/// The broker's configuration: a node id and its topic descriptors.
pub struct Config {
    pub node_id: u32,
    pub topics: Vec<TopicConfig>,
}

impl Config {
    /// The built-in configuration this broker ships with: node 0 serving one
    /// topic, `test` with id 1, stored under `/tmp`, rolling every `16^4`
    /// records.  Reading configuration from elsewhere is an external concern.
    pub fn new() -> (c: Config)
        ensures
            c.node_id == 0,
            c.topics@.len() == 1,
            c.topics@[0].topic_id == 1,
            c.topics@[0].topic_name@ == "test"@,
            c.topics@[0].folder@ == "/tmp"@,
            c.topics@[0].replication == 0,
            c.topics@[0].file_mask == 4,
    {
        let topic = TopicConfig {
            topic_id: 1,
            topic_name: String::from_str("test"),
            folder: String::from_str("/tmp"),
            replication: 0,
            file_mask: 4,
        };
        let mut topics: Vec<TopicConfig> = Vec::new();
        topics.push(topic);
        Config { node_id: 0, topics }
    }
}

} // verus!
