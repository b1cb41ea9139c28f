//! The dispatcher: from a decoded request to the response that answers it.
use crate::adapters::incoming::kafka_protocol_parser::unsupported_version_response;
use crate::adapters::incoming::protocol::constants::{
    API_VERSIONS_KEY, DESCRIBE_TOPIC_PARTITIONS_KEY, FETCH_KEY, UNKNOWN_TOPIC_OR_PARTITION,
    UNSUPPORTED_VERSION,
};
use crate::adapters::incoming::protocol::messages::request::{
    supported_version, KafkaRequest, PayloadModel, RequestModel, RequestPayload, TopicRequest,
    TopicRequestModel,
};
use crate::adapters::incoming::protocol::messages::response::{
    default_api_versions, empty_fetch, single_topic_fetch, unknown_topic_entry,
    ApiVersionsResponse, DescribeTopicPartitionsResponse, FetchResponse, KafkaResponse,
    PartitionInfo, PartitionInfoModel, ResponseModel, ResponsePayload, ResponsePayloadModel,
    TopicResponse, TopicResponseModel,
};
use crate::application::error::{ApplicationError, Violation};
use crate::codec::integers::signed32;
use crate::codec::uuid::{uuid_bytes, zero_uuid, Uuid};
use crate::domain::message::{Partition, PartitionEntryModel, TopicMetadata, TopicMetadataModel};
use crate::ports::incoming::message_handler::MessageHandler;
use crate::ports::outgoing::message_store::MessageStore;
use crate::ports::outgoing::metadata_store::MetadataStore;
use vstd::prelude::*;

verus! {

/// The broker: a dispatcher over a message store and a metadata store.
pub struct KafkaBroker<M: MessageStore, S: MetadataStore> {
    pub message_store: M,
    pub metadata_store: S,
}

/// The answer to an `ApiVersions` request: no error, the advertised APIs.
pub open spec fn api_versions_answer(correlation_id: i32) -> ResponseModel {
    ResponseModel {
        correlation_id,
        error_code: 0,
        payload: ResponsePayloadModel::ApiVersions(default_api_versions()),
    }
}

/// A node id, a partition number or an epoch as the signed 32-bit number
/// with the same bits.
pub open spec fn as_wire(v: u32) -> i32 {
    signed32(v as nat) as i32
}

/// The partition that a response reports for a partition of the store,
/// field by field.
pub open spec fn partition_info_of(p: PartitionEntryModel) -> PartitionInfoModel {
    PartitionInfoModel {
        partition_id: as_wire(p.partition_index),
        error_code: p.error_code,
        leader_id: as_wire(p.leader_id),
        leader_epoch: as_wire(p.leader_epoch),
        replicas: p.replicas.map_values(|v: u32| as_wire(v)),
        isr: p.in_sync_replicas.map_values(|v: u32| as_wire(v)),
        eligible_leader_replicas: p.eligible_leader_replicas.map_values(|v: u32| as_wire(v)),
        last_known_eligible_leader_replicas: p.last_known_eligible_leader_replicas.map_values(
            |v: u32| as_wire(v),
        ),
        offline_replicas: p.off_line_replicas.map_values(|v: u32| as_wire(v)),
    }
}

/// The topic that a response reports for an entry of the store. The error
/// code is the store's. The id is the bytes that the store's id text stands
/// for, and sixteen zeros for a topic that the store reports an error for.
pub open spec fn topic_response_of(m: TopicMetadataModel) -> TopicResponseModel {
    TopicResponseModel {
        topic_name: m.name,
        topic_id: if m.error_code == 0 {
            uuid_bytes(m.topic_id)
        } else {
            zero_uuid()
        },
        error_code: m.error_code,
        is_internal: m.is_internal,
        partitions: m.partitions.map_values(|p: PartitionEntryModel| partition_info_of(p)),
        topic_authorized_operations: m.topic_authorized_operations,
    }
}

/// The topics of the answer to a `DescribeTopicPartitions` request for
/// `names`, when the store came back with `found`: one topic per entry of
/// the store, or, when the store has nothing to report, every requested
/// name as an unknown topic.
pub open spec fn described_topics(
    names: Seq<Seq<char>>,
    found: Option<Seq<TopicMetadataModel>>,
) -> Seq<TopicResponseModel> {
    match found {
        Some(entries) => entries.map_values(|m: TopicMetadataModel| topic_response_of(m)),
        None => names.map_values(|name: Seq<char>| unknown_topic_entry(name)),
    }
}

/// The answer to a `DescribeTopicPartitions` request.
pub open spec fn describe_answer(
    correlation_id: i32,
    names: Seq<Seq<char>>,
    found: Option<Seq<TopicMetadataModel>>,
) -> ResponseModel {
    ResponseModel {
        correlation_id,
        error_code: 0,
        payload: ResponsePayloadModel::DescribeTopicPartitions(described_topics(names, found)),
    }
}

/// The answer to a `Fetch` request for the topic `topic_id`, when the store
/// came back with `found`: the topic is present and empty when the first
/// entry of the store carries another error code than "unknown topic or
/// partition", and is unknown in every other case.
pub open spec fn fetch_answer(
    correlation_id: i32,
    topic_id: Seq<u8>,
    found: Option<Seq<TopicMetadataModel>>,
) -> ResponseModel {
    ResponseModel {
        correlation_id,
        error_code: 0,
        payload: ResponsePayloadModel::Fetch(
            if found matches Some(entries) && entries.len() > 0 && entries[0].error_code != 3 {
                single_topic_fetch(topic_id, 0)
            } else {
                single_topic_fetch(topic_id, 100)
            },
        ),
    }
}

/// The answer to a `Fetch` request that names no topic.
pub open spec fn empty_fetch_answer(correlation_id: i32) -> ResponseModel {
    ResponseModel {
        correlation_id,
        error_code: 0,
        payload: ResponsePayloadModel::Fetch(empty_fetch()),
    }
}

/// The names that a `DescribeTopicPartitions` request asks about.
pub open spec fn requested_names(topics: Seq<TopicRequestModel>) -> Seq<Seq<char>> {
    topics.map_values(|t: TopicRequestModel| t.topic_name)
}

/// Model of what a store came back with.
pub open spec fn found_model(found: Option<Vec<TopicMetadata>>) -> Option<Seq<TopicMetadataModel>> {
    match found {
        Some(entries) => Some(entries.deep_view()),
        None => None,
    }
}

/// Whether the body `payload` belongs to the API `api_key`.
pub open spec fn answers_api(api_key: i16, payload: ResponsePayloadModel) -> bool {
    match payload {
        ResponsePayloadModel::ApiVersions(_) => api_key == API_VERSIONS_KEY,
        ResponsePayloadModel::DescribeTopicPartitions(_) => api_key
            == DESCRIBE_TOPIC_PARTITIONS_KEY,
        ResponsePayloadModel::Fetch(_) => api_key == FETCH_KEY,
    }
}

/// What the broker may answer to `request`, given that stores may come
/// back with anything.
pub open spec fn is_answer(request: RequestModel, response: ResponseModel) -> bool {
    let cid = request.header.correlation_id;
    if !supported_version(request.header.api_key, request.header.api_version) {
        response == unsupported_version_response(cid)
    } else if request.header.api_key == API_VERSIONS_KEY {
        response == api_versions_answer(cid)
    } else if request.header.api_key == DESCRIBE_TOPIC_PARTITIONS_KEY {
        request.payload matches PayloadModel::DescribeTopicPartitions(topics) && exists|
            found: Option<Seq<TopicMetadataModel>>,
        | #[trigger]
            describe_answer(cid, requested_names(topics), found) == response
    } else {
        request.payload matches PayloadModel::Fetch(topics) && if topics.len() == 0 {
            response == empty_fetch_answer(cid)
        } else {
            exists|found: Option<Seq<TopicMetadataModel>>| #[trigger]
                fetch_answer(cid, topics[0].topic_id, found) == response
        }
    }
}

/// The body of `request` is not the one that its API key calls for.
pub open spec fn payload_mismatch(request: RequestModel) -> bool {
    if request.header.api_key == API_VERSIONS_KEY {
        false
    } else if request.header.api_key == DESCRIBE_TOPIC_PARTITIONS_KEY {
        !(request.payload is DescribeTopicPartitions)
    } else {
        !(request.payload is Fetch)
    }
}

/// The request is answered without a question to any store.
pub open spec fn needs_no_store(request: RequestModel) -> bool {
    ||| !supported_version(request.header.api_key, request.header.api_version)
    ||| request.header.api_key == API_VERSIONS_KEY
    ||| request.payload matches PayloadModel::Fetch(topics) && request.header.api_key == FETCH_KEY
        && topics.len() == 0
}

/// Every answer to a request in a served version is of the API that was
/// asked for, and every answer to another request carries error code 35
/// and the advertised APIs.
pub proof fn lemma_answer_matches_api(
    request: RequestModel,
    response: ResponseModel,
)
    requires
        is_answer(request, response),
    ensures
        response.correlation_id == request.header.correlation_id,
        supported_version(request.header.api_key, request.header.api_version) ==> answers_api(
            request.header.api_key,
            response.payload,
        ),
        !supported_version(request.header.api_key, request.header.api_version) ==> {
            &&& response.error_code == 35
            &&& response.payload == ResponsePayloadModel::ApiVersions(default_api_versions())
        },
{
}

/// The signed 32-bit number with the bits of `v`.
fn wire(v: u32) -> (r: i32)
    ensures
        r == as_wire(v),
{
    if v < 0x8000_0000 {
        v as i32
    } else {
        (v as i64 - 0x1_0000_0000) as i32
    }
}

/// The signed 32-bit numbers with the bits of `ids`.
fn wire_ids(ids: &Vec<u32>) -> (r: Vec<i32>)
    ensures
        r@ == ids@.map_values(|v: u32| as_wire(v)),
{
    let mut out: Vec<i32> = Vec::new();
    let mut i: usize = 0;
    while i < ids.len()
        invariant
            i <= ids@.len(),
            out@.len() == i,
            forall|k: int| 0 <= k < i ==> out@[k] == as_wire(ids@[k]),
        decreases ids@.len() - i,
    {
        out.push(wire(ids[i]));
        i = i + 1;
    }
    assert(out@ =~= ids@.map_values(|v: u32| as_wire(v)));
    out
}

/// The partition that a response reports for the partition `p` of the store.
fn partition_info(p: &Partition) -> (r: PartitionInfo)
    ensures
        r.deep_view() == partition_info_of(p.deep_view()),
{
    PartitionInfo {
        partition_id: wire(p.partition_index),
        error_code: p.error_code,
        leader_id: wire(p.leader_id),
        leader_epoch: wire(p.leader_epoch),
        replicas: wire_ids(&p.replicas),
        isr: wire_ids(&p.in_sync_replicas),
        eligible_leader_replicas: wire_ids(&p.eligible_leader_replicas),
        last_known_eligible_leader_replicas: wire_ids(&p.last_known_eligible_leader_replicas),
        offline_replicas: wire_ids(&p.off_line_replicas),
    }
}

/// The topic that a response reports for the entry `m` of the store.
fn topic_response(m: &TopicMetadata) -> (r: TopicResponse)
    ensures
        r.deep_view() == topic_response_of(m.deep_view()),
{
    let mut partitions: Vec<PartitionInfo> = Vec::new();
    let mut i: usize = 0;
    while i < m.partitions.len()
        invariant
            i <= m.partitions@.len(),
            partitions@.len() == i,
            forall|k: int|
                0 <= k < i ==> (#[trigger] partitions@[k]).deep_view() == partition_info_of(
                    m.partitions@[k].deep_view(),
                ),
        decreases m.partitions@.len() - i,
    {
        partitions.push(partition_info(&m.partitions[i]));
        i = i + 1;
    }
    assert(partitions.deep_view() =~= m.partitions.deep_view().map_values(
        |p: PartitionEntryModel| partition_info_of(p),
    ));
    let topic_id = if m.error_code == 0 {
        Uuid::parse(m.topic_id.as_str())
    } else {
        let zeros = [0u8;16];
        assert(zeros@ =~= zero_uuid());
        zeros
    };
    TopicResponse {
        topic_name: m.name.clone(),
        topic_id,
        error_code: m.error_code,
        is_internal: m.is_internal,
        partitions,
        topic_authorized_operations: m.topic_authorized_operations,
    }
}

/// The names that `topics` ask about.
pub fn names_of(topics: &Vec<TopicRequest>) -> (r: Vec<String>)
    ensures
        r.deep_view() == requested_names(topics.deep_view()),
{
    let mut names: Vec<String> = Vec::new();
    let mut i: usize = 0;
    while i < topics.len()
        invariant
            i <= topics@.len(),
            names@.len() == i,
            forall|k: int| 0 <= k < i ==> (#[trigger] names@[k])@ == topics@[k].topic_name@,
        decreases topics@.len() - i,
    {
        names.push(topics[i].topic_name.clone());
        i = i + 1;
    }
    assert(names.deep_view() =~= requested_names(topics.deep_view()));
    names
}

/// The answer to an `ApiVersions` request.
pub fn answer_api_versions(correlation_id: i32) -> (r: KafkaResponse)
    ensures
        r.deep_view() == api_versions_answer(correlation_id),
{
    KafkaResponse::new(
        correlation_id,
        0,
        ResponsePayload::ApiVersions(ApiVersionsResponse::default()),
    )
}

/// The answer to a request in a version that is not served.
pub fn answer_unsupported_version(correlation_id: i32) -> (r: KafkaResponse)
    ensures
        r.deep_view() == unsupported_version_response(correlation_id),
{
    KafkaResponse::new(
        correlation_id,
        UNSUPPORTED_VERSION,
        ResponsePayload::ApiVersions(ApiVersionsResponse::default()),
    )
}

/// The answer to a `DescribeTopicPartitions` request for `names`, given
/// what the metadata store came back with.
pub fn answer_describe_topic_partitions(
    correlation_id: i32,
    names: &Vec<String>,
    found: &Option<Vec<TopicMetadata>>,
) -> (r: KafkaResponse)
    ensures
        r.deep_view() == describe_answer(correlation_id, names.deep_view(), found_model(*found)),
{
    let mut topics: Vec<TopicResponse> = Vec::new();
    match found {
        Some(entries) => {
            let mut i: usize = 0;
            while i < entries.len()
                invariant
                    i <= entries@.len(),
                    topics@.len() == i,
                    forall|k: int|
                        0 <= k < i ==> (#[trigger] topics@[k]).deep_view() == topic_response_of(
                            entries@[k].deep_view(),
                        ),
                decreases entries@.len() - i,
            {
                topics.push(topic_response(&entries[i]));
                i = i + 1;
            }
            assert(topics.deep_view() =~= described_topics(
                names.deep_view(),
                found_model(*found),
            ));
        },
        None => {
            let mut i: usize = 0;
            while i < names.len()
                invariant
                    i <= names@.len(),
                    topics@.len() == i,
                    forall|k: int|
                        0 <= k < i ==> (#[trigger] topics@[k]).deep_view() == unknown_topic_entry(
                            names@[k]@,
                        ),
                decreases names@.len() - i,
            {
                topics.push(TopicResponse::unknown(names[i].clone()));
                i = i + 1;
            }
            assert(topics.deep_view() =~= described_topics(
                names.deep_view(),
                found_model(*found),
            ));
        },
    }
    KafkaResponse::new(
        correlation_id,
        0,
        ResponsePayload::DescribeTopicPartitions(DescribeTopicPartitionsResponse { topics }),
    )
}

/// The answer to a `Fetch` request for the topic `topic_id`, given what the
/// metadata store came back with.
pub fn answer_fetch(correlation_id: i32, topic_id: [u8; 16], found: &Option<Vec<TopicMetadata>>) -> (r:
    KafkaResponse)
    ensures
        r.deep_view() == fetch_answer(correlation_id, topic_id@, found_model(*found)),
{
    let present = match found {
        Some(entries) => entries.len() > 0 && entries[0].error_code != UNKNOWN_TOPIC_OR_PARTITION,
        None => false,
    };
    let body = if present {
        FetchResponse::empty_topic(topic_id)
    } else {
        FetchResponse::unknown_topic(topic_id)
    };
    KafkaResponse::new(correlation_id, 0, ResponsePayload::Fetch(body))
}

impl<M: MessageStore, S: MetadataStore> KafkaBroker<M, S> {
    /// The broker over the two stores.
    pub fn new(message_store: M, metadata_store: S) -> (r: Self)
        ensures
            r.message_store == message_store,
            r.metadata_store == metadata_store,
    {
        KafkaBroker { message_store, metadata_store }
    }
}

impl<M: MessageStore, S: MetadataStore> MessageHandler for KafkaBroker<M, S> {
    /// Answers one request. A request in a version that is not served is
    /// answered with error code 35 whatever it asks for. `ApiVersions` is
    /// answered from what the broker serves; the other two APIs are
    /// answered from what the metadata store comes back with. The request
    /// fails with the store's error when the store fails, and with a
    /// protocol error when its body does not belong to its API key.
    fn handle_request(&self, request: KafkaRequest) -> (r: Result<KafkaResponse, ApplicationError>)
        ensures
            match r {
                Ok(response) => is_answer(request.deep_view(), response.deep_view()),
                Err(e) => !needs_no_store(request.deep_view()) && (payload_mismatch(
                    request.deep_view(),
                ) ==> e == ApplicationError::Protocol(Violation::PayloadMismatch)),
            },
            needs_no_store(request.deep_view()) ==> r is Ok,
            !needs_no_store(request.deep_view()) && payload_mismatch(request.deep_view()) ==> r
                is Err,
    {
        let cid = request.header.correlation_id;
        if !request.header.is_supported_version() {
            return Ok(answer_unsupported_version(cid));
        }
        if request.header.api_key == API_VERSIONS_KEY {
            return Ok(answer_api_versions(cid));
        }
        if request.header.api_key == DESCRIBE_TOPIC_PARTITIONS_KEY {
            match &request.payload {
                RequestPayload::DescribeTopicPartitions(body) => {
                    let names = names_of(&body.topics);
                    let asked = names_of(&body.topics);
                    let found = self.metadata_store.get_topic_metadata_by_names(asked)?;
                    let response = answer_describe_topic_partitions(cid, &names, &found);
                    assert(describe_answer(
                        cid,
                        requested_names(body.topics.deep_view()),
                        found_model(found),
                    ) == response.deep_view());
                    Ok(response)
                },
                _ => Err(ApplicationError::Protocol(Violation::PayloadMismatch)),
            }
        } else {
            match &request.payload {
                RequestPayload::Fetch(body) => {
                    assert(body.topics.deep_view().len() == body.topics@.len());
                    if body.topics.len() == 0 {
                        let response = KafkaResponse::new(
                            cid,
                            0,
                            ResponsePayload::Fetch(FetchResponse::empty()),
                        );
                        return Ok(response);
                    }
                    let topic_id = body.topics[0].topic_id;
                    assert(topic_id@ == body.topics.deep_view()[0].topic_id);
                    let mut ids: Vec<String> = Vec::new();
                    ids.push(Uuid::format(&topic_id));
                    let found = self.metadata_store.get_topic_metadata_by_ids(ids)?;
                    let response = answer_fetch(cid, topic_id, &found);
                    assert(fetch_answer(cid, topic_id@, found_model(found))
                        == response.deep_view());
                    Ok(response)
                },
                _ => Err(ApplicationError::Protocol(Violation::PayloadMismatch)),
            }
        }
    }
}

} // verus!
