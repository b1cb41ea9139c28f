//! Where the log of a topic partition lies on disk.
use crate::adapters::outgoing::kraft_metadata_store::METADATA_SEGMENT;
use vstd::prelude::*;
use vstd::string::*;

verus! {

/// The message store below a log directory.
pub struct DiskMessageStore {
    pub log_dir: String,
}

impl DiskMessageStore {
    /// The store below the log directory `log_dir`.
    pub fn new(log_dir: String) -> (r: Self)
        ensures
            r.log_dir == log_dir,
    {
        DiskMessageStore { log_dir }
    }

    /// The path of the first log segment of a partition: the log
    /// directory, a directory named after the topic and the partition
    /// number in the form that `to_string` gives it, and the segment.
    pub fn get_topic_log_path(&self, topic_name: &str, partition: i32) -> (path: String)
        ensures
            exists|number: String| #[trigger]
                to_string_from_display_ensures::<i32>(&partition, number) && path@
                    == self.log_dir@ + seq!['/'] + topic_name@ + seq!['-'] + number@ + seq!['/']
                    + METADATA_SEGMENT@,
    {
        let number = partition.to_string();
        self.partition_log_path(topic_name, number.as_str())
    }

    /// The path of the first log segment of the partition whose number is
    /// written `partition`.
    pub fn partition_log_path(&self, topic_name: &str, partition: &str) -> (path: String)
        ensures
            path@ == self.log_dir@ + seq!['/'] + topic_name@ + seq!['-'] + partition@ + seq!['/']
                + METADATA_SEGMENT@,
    {
        proof {
            reveal_strlit("/");
            reveal_strlit("-");
        }
        let mut path = self.log_dir.clone();
        path.append("/");
        path.append(topic_name);
        path.append("-");
        path.append(partition);
        path.append("/");
        path.append(METADATA_SEGMENT);
        proof {
            assert("/"@ =~= seq!['/']);
            assert("-"@ =~= seq!['-']);
        }
        path
    }
}

} // verus!
