//! What the broker knows of a topic and of its partitions.
use vstd::prelude::*;

verus! {

/// The operations that every topic is reported to allow.
pub const TOPIC_AUTHORIZED_OPERATIONS: i32 = 0x0000_0DF8;

/// The state of one partition of a topic.
#[derive(Debug, Clone, PartialEq)]
pub struct Partition {
    pub error_code: i16,
    pub partition_index: u32,
    pub leader_id: u32,
    pub leader_epoch: u32,
    pub replicas: Vec<u32>,
    pub in_sync_replicas: Vec<u32>,
    pub eligible_leader_replicas: Vec<u32>,
    pub last_known_eligible_leader_replicas: Vec<u32>,
    pub off_line_replicas: Vec<u32>,
    pub partition_epoch: u32,
}

/// A topic as the metadata store reports it, found or not.
#[derive(Debug, Clone, PartialEq)]
pub struct TopicMetadata {
    pub error_code: i16,
    pub name: String,
    pub topic_id: String,
    pub is_internal: bool,
    pub partitions: Vec<Partition>,
    pub topic_authorized_operations: i32,
}

/// Mathematical model of a [`Partition`].
pub struct PartitionEntryModel {
    pub error_code: i16,
    pub partition_index: u32,
    pub leader_id: u32,
    pub leader_epoch: u32,
    pub replicas: Seq<u32>,
    pub in_sync_replicas: Seq<u32>,
    pub eligible_leader_replicas: Seq<u32>,
    pub last_known_eligible_leader_replicas: Seq<u32>,
    pub off_line_replicas: Seq<u32>,
    pub partition_epoch: u32,
}

/// Mathematical model of a [`TopicMetadata`].
pub struct TopicMetadataModel {
    pub error_code: i16,
    pub name: Seq<char>,
    pub topic_id: Seq<char>,
    pub is_internal: bool,
    pub partitions: Seq<PartitionEntryModel>,
    pub topic_authorized_operations: i32,
}

impl DeepView for Partition {
    type V = PartitionEntryModel;

    open spec fn deep_view(&self) -> PartitionEntryModel {
        PartitionEntryModel {
            error_code: self.error_code,
            partition_index: self.partition_index,
            leader_id: self.leader_id,
            leader_epoch: self.leader_epoch,
            replicas: self.replicas@,
            in_sync_replicas: self.in_sync_replicas@,
            eligible_leader_replicas: self.eligible_leader_replicas@,
            last_known_eligible_leader_replicas: self.last_known_eligible_leader_replicas@,
            off_line_replicas: self.off_line_replicas@,
            partition_epoch: self.partition_epoch,
        }
    }
}

impl DeepView for TopicMetadata {
    type V = TopicMetadataModel;

    open spec fn deep_view(&self) -> TopicMetadataModel {
        TopicMetadataModel {
            error_code: self.error_code,
            name: self.name@,
            topic_id: self.topic_id@,
            is_internal: self.is_internal,
            partitions: self.partitions.deep_view(),
            topic_authorized_operations: self.topic_authorized_operations,
        }
    }
}

impl Partition {
    /// A partition with the given state.
    pub fn new(
        error_code: i16,
        partition_index: u32,
        leader_id: u32,
        leader_epoch: u32,
        replicas: Vec<u32>,
        in_sync_replicas: Vec<u32>,
        eligible_leader_replicas: Vec<u32>,
        last_known_eligible_leader_replicas: Vec<u32>,
        off_line_replicas: Vec<u32>,
        partition_epoch: u32,
    ) -> (r: Self)
        ensures
            r == (Partition {
                error_code,
                partition_index,
                leader_id,
                leader_epoch,
                replicas,
                in_sync_replicas,
                eligible_leader_replicas,
                last_known_eligible_leader_replicas,
                off_line_replicas,
                partition_epoch,
            }),
    {
        Partition {
            error_code,
            partition_index,
            leader_id,
            leader_epoch,
            replicas,
            in_sync_replicas,
            eligible_leader_replicas,
            last_known_eligible_leader_replicas,
            off_line_replicas,
            partition_epoch,
        }
    }
}

/// A copy of `items`.
pub fn copy_ids(items: &Vec<u32>) -> (r: Vec<u32>)
    ensures
        r@ == items@,
{
    let mut out: Vec<u32> = Vec::new();
    let mut i: usize = 0;
    while i < items.len()
        invariant
            i <= items@.len(),
            out@ == items@.take(i as int),
        decreases items@.len() - i,
    {
        out.push(items[i]);
        assert(out@ =~= items@.take(i + 1));
        i = i + 1;
    }
    assert(items@.take(i as int) =~= items@);
    out
}

} // verus!
