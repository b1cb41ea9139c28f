//! The metadata store that answers from the cluster-metadata log: which
//! topics exist, under which ids, and with which partitions.
use crate::adapters::outgoing::protocol::kraft_record::{
    decode_log, BatchModel, PartitionModel, PartitionValue, Record, RecordBatch, RecordModel,
    RecordValue, TopicModel, ValueModel,
};
use crate::application::error::{malformed, ApplicationError};
use crate::codec::buffer::cursor_over;
use crate::domain::message::{
    copy_ids, Partition, PartitionEntryModel, TopicMetadata, TopicMetadataModel,
    TOPIC_AUTHORIZED_OPERATIONS,
};
use vstd::prelude::*;
use vstd::string::*;

verus! {

/// Directory of the metadata partition below the log directory.
pub const METADATA_PARTITION_DIR: &'static str = "__cluster_metadata-0";

/// Name of the one log segment that is read.
pub const METADATA_SEGMENT: &'static str = "00000000000000000000.log";

/// The store over the metadata log that lies below `log_dir`.
pub struct KraftMetadataStore {
    pub log_dir: String,
}

/// `value` is the record of the topic that `key` names: by its id when
/// `by_id` holds, else by its name.
pub open spec fn names_topic(value: ValueModel, key: Seq<char>, by_id: bool) -> bool {
    value matches ValueModel::Topic(t) && if by_id {
        t.topic_id == key
    } else {
        t.topic_name == key
    }
}

/// The first topic record among `records` that `key` names.
pub open spec fn find_in_records(records: Seq<RecordModel>, key: Seq<char>, by_id: bool) -> Option<
    TopicModel,
>
    decreases records.len(),
{
    if records.len() == 0 {
        None
    } else if names_topic(records[0].value, key, by_id) {
        Some(records[0].value->Topic_0)
    } else {
        find_in_records(records.skip(1), key, by_id)
    }
}

/// The first topic record of the log that `key` names.
pub open spec fn find_topic(batches: Seq<BatchModel>, key: Seq<char>, by_id: bool) -> Option<
    TopicModel,
>
    decreases batches.len(),
{
    if batches.len() == 0 {
        None
    } else {
        match find_in_records(batches[0].records, key, by_id) {
            Some(t) => Some(t),
            None => find_topic(batches.skip(1), key, by_id),
        }
    }
}

/// The partition state that a partition record reports.
pub open spec fn partition_entry(p: PartitionModel) -> PartitionEntryModel {
    PartitionEntryModel {
        error_code: 0,
        partition_index: p.partition_id,
        leader_id: p.leader_id,
        leader_epoch: p.leader_epoch,
        replicas: p.replicas,
        in_sync_replicas: p.in_sync_replicas,
        eligible_leader_replicas: p.adding_replicas,
        last_known_eligible_leader_replicas: Seq::empty(),
        off_line_replicas: p.removing_replicas,
        partition_epoch: p.partition_epoch,
    }
}

/// The partitions of the topic `topic_id` among `records`, in order.
pub open spec fn partitions_in_records(records: Seq<RecordModel>, topic_id: Seq<char>) -> Seq<
    PartitionEntryModel,
>
    decreases records.len(),
{
    if records.len() == 0 {
        Seq::empty()
    } else {
        let before = partitions_in_records(records.drop_last(), topic_id);
        match records.last().value {
            ValueModel::Partition(p) => if p.topic_id == topic_id {
                before.push(partition_entry(p))
            } else {
                before
            },
            _ => before,
        }
    }
}

/// The partitions of the topic `topic_id` in the whole log, in log order.
pub open spec fn partitions_in(batches: Seq<BatchModel>, topic_id: Seq<char>) -> Seq<
    PartitionEntryModel,
>
    decreases batches.len(),
{
    if batches.len() == 0 {
        Seq::empty()
    } else {
        partitions_in(batches.drop_last(), topic_id) + partitions_in_records(
            batches.last().records,
            topic_id,
        )
    }
}

/// What the store reports for one requested key. A topic that the log
/// holds is reported with all its partitions; one that it does not hold is
/// reported as unknown, with the key in place of both name and id.
pub open spec fn topic_metadata(batches: Seq<BatchModel>, key: Seq<char>, by_id: bool) -> TopicMetadataModel {
    match find_topic(batches, key, by_id) {
        Some(t) => TopicMetadataModel {
            error_code: 0,
            name: t.topic_name,
            topic_id: t.topic_id,
            is_internal: false,
            partitions: partitions_in(batches, t.topic_id),
            topic_authorized_operations: 0x0000_0DF8,
        },
        None => TopicMetadataModel {
            error_code: 3,
            name: key,
            topic_id: key,
            is_internal: false,
            partitions: Seq::empty(),
            topic_authorized_operations: 0x0000_0DF8,
        },
    }
}

/// What the store reports for a list of keys: one entry per key, in the
/// order of the keys.
pub open spec fn lookup(batches: Seq<BatchModel>, keys: Seq<Seq<char>>, by_id: bool) -> Seq<
    TopicMetadataModel,
> {
    Seq::new(keys.len(), |i: int| topic_metadata(batches, keys[i], by_id))
}

/// What a query over the bytes of a log returns.
pub open spec fn query(content: Seq<u8>, keys: Seq<Seq<char>>, by_id: bool) -> Result<
    Seq<TopicMetadataModel>,
    ApplicationError,
> {
    match decode_log(content) {
        Ok((batches, _)) => Ok(lookup(batches, keys, by_id)),
        Err(reason) => Err(malformed(reason)),
    }
}

/// Whether `r` is the outcome `expected` of a query.
pub open spec fn is_outcome(
    r: Result<Vec<TopicMetadata>, ApplicationError>,
    expected: Result<Seq<TopicMetadataModel>, ApplicationError>,
) -> bool {
    match r {
        Ok(topics) => expected == Ok::<Seq<TopicMetadataModel>, ApplicationError>(
            topics.deep_view(),
        ),
        Err(e) => expected == Err::<Seq<TopicMetadataModel>, ApplicationError>(e),
    }
}

/// Two answers to the same query over the same log are equal.
pub proof fn lemma_query_is_idempotent(
    content: Seq<u8>,
    keys: Seq<Seq<char>>,
    by_id: bool,
    first: Result<Vec<TopicMetadata>, ApplicationError>,
    second: Result<Vec<TopicMetadata>, ApplicationError>,
)
    requires
        is_outcome(first, query(content, keys, by_id)),
        is_outcome(second, query(content, keys, by_id)),
    ensures
        match (first, second) {
            (Ok(a), Ok(b)) => a.deep_view() == b.deep_view(),
            (Err(a), Err(b)) => a == b,
            _ => false,
        },
{
}

/// The first topic record among the records of one batch that `key` names.
fn search_records(records: &Vec<Record>, key: &String, by_id: bool) -> (r: Option<
    (String, String),
>)
    ensures
        match r {
            Some((name, id)) => find_in_records(records.deep_view(), key@, by_id) == Some(
                TopicModel { topic_name: name@, topic_id: id@ },
            ),
            None => find_in_records(records.deep_view(), key@, by_id) is None,
        },
{
    let ghost models = records.deep_view();
    let mut j: usize = 0;
    assert(models.skip(0) =~= models);
    while j < records.len()
        invariant
            j <= records@.len(),
            models == records.deep_view(),
            find_in_records(models, key@, by_id) == find_in_records(
                models.skip(j as int),
                key@,
                by_id,
            ),
        decreases records@.len() - j,
    {
        proof {
            assert(models.skip(j as int)[0] == records@[j as int].deep_view());
            assert(models.skip(j as int).skip(1) =~= models.skip(j + 1));
        }
        match &records[j].value {
            RecordValue::Topic(topic) => {
                let hit = if by_id {
                    topic.topic_id == *key
                } else {
                    topic.topic_name == *key
                };
                if hit {
                    return Some((topic.topic_name.clone(), topic.topic_id.clone()));
                }
            },
            _ => {},
        }
        j = j + 1;
    }
    None
}

/// The first topic record of the log that `key` names.
fn search_topic(batches: &Vec<RecordBatch>, key: &String, by_id: bool) -> (r: Option<
    (String, String),
>)
    ensures
        match r {
            Some((name, id)) => find_topic(batches.deep_view(), key@, by_id) == Some(
                TopicModel { topic_name: name@, topic_id: id@ },
            ),
            None => find_topic(batches.deep_view(), key@, by_id) is None,
        },
{
    let ghost models = batches.deep_view();
    let mut i: usize = 0;
    assert(models.skip(0) =~= models);
    while i < batches.len()
        invariant
            i <= batches@.len(),
            models == batches.deep_view(),
            find_topic(models, key@, by_id) == find_topic(models.skip(i as int), key@, by_id),
        decreases batches@.len() - i,
    {
        proof {
            assert(models.skip(i as int)[0] == batches@[i as int].deep_view());
            assert(models.skip(i as int).skip(1) =~= models.skip(i + 1));
        }
        match search_records(&batches[i].records, key, by_id) {
            Some(found) => {
                return Some(found);
            },
            None => {},
        }
        i = i + 1;
    }
    None
}

/// The partition state that the record `p` reports.
fn entry_of(p: &PartitionValue) -> (r: Partition)
    ensures
        r.deep_view() == partition_entry(p.deep_view()),
{
    Partition::new(
        0,
        p.partition_id,
        p.leader_id,
        p.leader_epoch,
        copy_ids(&p.replicas),
        copy_ids(&p.in_sync_replicas),
        copy_ids(&p.adding_replicas),
        Vec::new(),
        copy_ids(&p.removing_replicas),
        p.partition_epoch,
    )
}

/// The partitions of the topic `topic_id` in the whole log.
fn collect_partitions(batches: &Vec<RecordBatch>, topic_id: &String) -> (r: Vec<Partition>)
    ensures
        r.deep_view() == partitions_in(batches.deep_view(), topic_id@),
{
    let ghost models = batches.deep_view();
    let mut out: Vec<Partition> = Vec::new();
    let mut i: usize = 0;
    assert(out.deep_view() =~= Seq::<PartitionEntryModel>::empty());
    assert(models.take(0) =~= Seq::<BatchModel>::empty());
    while i < batches.len()
        invariant
            i <= batches@.len(),
            models == batches.deep_view(),
            out.deep_view() == partitions_in(models.take(i as int), topic_id@),
        decreases batches@.len() - i,
    {
        let records = &batches[i].records;
        let ghost row = records.deep_view();
        let ghost base = out.deep_view();
        let mut j: usize = 0;
        proof {
            assert(row.take(0) =~= Seq::<RecordModel>::empty());
            assert(base + Seq::<PartitionEntryModel>::empty() =~= base);
        }
        while j < records.len()
            invariant
                j <= records@.len(),
                row == records.deep_view(),
                out.deep_view() == base + partitions_in_records(row.take(j as int), topic_id@),
            decreases records@.len() - j,
        {
            let ghost done = out.deep_view();
            proof {
                assert(row.take(j + 1).drop_last() =~= row.take(j as int));
                assert(row.take(j + 1).last() == records@[j as int].deep_view());
            }
            match &records[j].value {
                RecordValue::Partition(p) => {
                    if p.topic_id == *topic_id {
                        let entry = entry_of(p);
                        let ghost model = entry.deep_view();
                        out.push(entry);
                        proof {
                            assert(out.deep_view() =~= done.push(model));
                            assert(done.push(model) =~= base + partitions_in_records(
                                row.take(j as int),
                                topic_id@,
                            ).push(model));
                        }
                    }
                },
                _ => {},
            }
            j = j + 1;
        }
        proof {
            assert(row.take(j as int) =~= row);
            assert(models.take(i + 1).drop_last() =~= models.take(i as int));
            assert(models.take(i + 1).last() == batches@[i as int].deep_view());
        }
        i = i + 1;
    }
    proof {
        assert(models.take(i as int) =~= models);
    }
    out
}

/// What the store reports for the one key `key`.
fn describe(batches: &Vec<RecordBatch>, key: &String, by_id: bool) -> (r: TopicMetadata)
    ensures
        r.deep_view() == topic_metadata(batches.deep_view(), key@, by_id),
{
    match search_topic(batches, key, by_id) {
        Some((name, topic_id)) => {
            let partitions = collect_partitions(batches, &topic_id);
            TopicMetadata {
                error_code: 0,
                name,
                topic_id,
                is_internal: false,
                partitions,
                topic_authorized_operations: TOPIC_AUTHORIZED_OPERATIONS,
            }
        },
        None => {
            let partitions: Vec<Partition> = Vec::new();
            assert(partitions.deep_view() =~= Seq::<PartitionEntryModel>::empty());
            TopicMetadata {
                error_code: 3,
                name: key.clone(),
                topic_id: key.clone(),
                is_internal: false,
                partitions,
                topic_authorized_operations: TOPIC_AUTHORIZED_OPERATIONS,
            }
        },
    }
}

impl KraftMetadataStore {
    /// The store over the log directory `log_dir`.
    pub fn new(log_dir: String) -> (r: Self)
        ensures
            r.log_dir == log_dir,
    {
        KraftMetadataStore { log_dir }
    }

    /// The path of the log segment that holds the cluster metadata.
    pub fn get_metadata_log_path(&self) -> (path: String)
        ensures
            path@ == self.log_dir@ + seq!['/'] + METADATA_PARTITION_DIR@ + seq!['/']
                + METADATA_SEGMENT@,
    {
        proof {
            reveal_strlit("/");
        }
        let mut path = self.log_dir.clone();
        path.append("/");
        path.append(METADATA_PARTITION_DIR);
        path.append("/");
        path.append(METADATA_SEGMENT);
        proof {
            assert("/"@ =~= seq!['/']);
        }
        path
    }

    /// What the batches of a log report for each of the keys `keys`.
    pub fn lookup_in(batches: &Vec<RecordBatch>, keys: &Vec<String>, by_id: bool) -> (r: Vec<
        TopicMetadata,
    >)
        ensures
            r.deep_view() == lookup(batches.deep_view(), keys.deep_view(), by_id),
    {
        let mut out: Vec<TopicMetadata> = Vec::new();
        let mut i: usize = 0;
        while i < keys.len()
            invariant
                i <= keys@.len(),
                out@.len() == i,
                forall|k: int|
                    0 <= k < i ==> (#[trigger] out@[k]).deep_view() == topic_metadata(
                        batches.deep_view(),
                        keys@[k]@,
                        by_id,
                    ),
            decreases keys@.len() - i,
        {
            let entry = describe(batches, &keys[i], by_id);
            out.push(entry);
            i = i + 1;
        }
        assert(out.deep_view() =~= lookup(batches.deep_view(), keys.deep_view(), by_id));
        out
    }

    /// Answers a query from the bytes of the metadata log: one entry per
    /// requested key, in request order. `content` is what the log segment
    /// holds; a log that does not decode fails the whole query.
    pub fn get_topic_metadata_internal(
        content: &[u8],
        requested_topics: &Vec<String>,
        is_uuid_search: bool,
    ) -> (r: Result<Vec<TopicMetadata>, ApplicationError>)
        ensures
            is_outcome(r, query(content@, requested_topics.deep_view(), is_uuid_search)),
    {
        let mut data = cursor_over(content);
        let batches = RecordBatch::read_log(&mut data)?;
        Ok(KraftMetadataStore::lookup_in(&batches, requested_topics, is_uuid_search))
    }

    /// The topics that `names` name, looked up in the log `content`.
    pub fn by_names(content: &[u8], names: &Vec<String>) -> (r: Result<
        Vec<TopicMetadata>,
        ApplicationError,
    >)
        ensures
            is_outcome(r, query(content@, names.deep_view(), false)),
    {
        KraftMetadataStore::get_topic_metadata_internal(content, names, false)
    }

    /// The topics with the ids `ids`, looked up in the log `content`.
    pub fn by_ids(content: &[u8], ids: &Vec<String>) -> (r: Result<
        Vec<TopicMetadata>,
        ApplicationError,
    >)
        ensures
            is_outcome(r, query(content@, ids.deep_view(), true)),
    {
        KraftMetadataStore::get_topic_metadata_internal(content, ids, true)
    }
}

} // verus!
