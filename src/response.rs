//! The responses, and their encoders. ApiVersions answers with the v0
//! response header (the correlation id alone); every other response uses v1
//! (the correlation id and a tag buffer).

use crate::protocol::{ApiKey, ErrorCode};
use crate::types::{
    compact_array_bytes, compact_bytes_bytes, compact_string_bytes, i16_bytes, i32_bytes,
    i64_bytes, is_uuid_text, tag_buffer_bytes, u32_bytes, u8_bytes, uuid_bytes, views,
    CompactArray, CompactNullableBytes, CompactString, Serialize, TaggedFields, Uuid, write_i16,
    write_i32, write_i64, write_u32, write_u8,
};
use vstd::prelude::*;

verus! {

pub open spec fn header_v0_bytes(correlation_id: i32) -> Seq<u8> {
    i32_bytes(correlation_id)
}

pub open spec fn header_v1_bytes(correlation_id: i32) -> Seq<u8> {
    i32_bytes(correlation_id) + tag_buffer_bytes()
}

fn write_header_v0(out: &mut Vec<u8>, correlation_id: i32)
    ensures
        final(out)@ == old(out)@ + header_v0_bytes(correlation_id),
{
    write_i32(out, correlation_id);
}

fn write_header_v1(out: &mut Vec<u8>, correlation_id: i32)
    ensures
        final(out)@ == old(out)@ + header_v1_bytes(correlation_id),
{
    write_i32(out, correlation_id);
    TaggedFields::serialize(out);
    proof {
        assert(final(out)@ =~= old(out)@ + header_v1_bytes(correlation_id));
    }
}

fn write_error_code(out: &mut Vec<u8>, e: ErrorCode)
    ensures
        final(out)@ == old(out)@ + i16_bytes(e.spec_code()),
{
    write_i16(out, e.code());
}

fn write_u32_array(out: &mut Vec<u8>, v: &Vec<u32>)
    ensures
        final(out)@ == old(out)@ + compact_array_bytes::<u32>(v@),
{
    proof {
        assert(views(v@) =~= v@);
    }
    CompactArray::serialize(out, v.as_slice());
}

// ---------------------------------------------------------------------------
// ApiVersions, version 3.

/// A served API key and the versions of it that the server accepts.
#[derive(Clone, Copy, Debug, PartialEq, Eq, Structural)]
pub struct ApiVersionsApiKeys {
    pub api_key: ApiKey,
    pub min_version: i16,
    pub max_version: i16,
}

impl View for ApiVersionsApiKeys {
    type V = ApiVersionsApiKeys;

    open spec fn view(&self) -> ApiVersionsApiKeys {
        *self
    }
}

impl Serialize for ApiVersionsApiKeys {
    open spec fn valid(v: ApiVersionsApiKeys) -> bool {
        true
    }

    open spec fn wire(v: ApiVersionsApiKeys) -> Seq<u8> {
        i16_bytes(v.api_key.spec_code()) + i16_bytes(v.min_version) + i16_bytes(v.max_version)
            + tag_buffer_bytes()
    }

    fn serialize(&self, out: &mut Vec<u8>) {
        write_i16(out, self.api_key.code());
        write_i16(out, self.min_version);
        write_i16(out, self.max_version);
        TaggedFields::serialize(out);
        proof {
            assert(final(out)@ =~= old(out)@ + Self::wire(self@));
        }
    }
}

pub struct ApiVersionsResponseV3 {
    pub correlation_id: i32,
    pub error_code: ErrorCode,
    pub api_keys: Vec<ApiVersionsApiKeys>,
    pub throttle_time_ms: i32,
}

pub struct ApiVersionsResponseView {
    pub correlation_id: i32,
    pub error_code: ErrorCode,
    pub api_keys: Seq<ApiVersionsApiKeys>,
    pub throttle_time_ms: i32,
}

impl View for ApiVersionsResponseV3 {
    type V = ApiVersionsResponseView;

    open spec fn view(&self) -> ApiVersionsResponseView {
        ApiVersionsResponseView {
            correlation_id: self.correlation_id,
            error_code: self.error_code,
            api_keys: views(self.api_keys@),
            throttle_time_ms: self.throttle_time_ms,
        }
    }
}

/// The API keys that the server serves, with the versions of each.
pub open spec fn supported_api_keys() -> Seq<ApiVersionsApiKeys> {
    seq![
        ApiVersionsApiKeys { api_key: ApiKey::Fetch, min_version: 0, max_version: 16 },
        ApiVersionsApiKeys { api_key: ApiKey::ApiVersions, min_version: 0, max_version: 4 },
        ApiVersionsApiKeys { api_key: ApiKey::DescribeTopicPartitions, min_version: 0, max_version: 0 },
    ]
}

/// The ApiVersions versions that the server accepts.
pub open spec fn api_versions_supported(version: i16) -> bool {
    0 <= version <= 4
}

/// The answer to an ApiVersions request: the served keys always, with an
/// error when the request's own version is not accepted.
pub open spec fn api_versions_response(correlation_id: i32, request_api_version: i16) -> ApiVersionsResponseView {
    ApiVersionsResponseView {
        correlation_id,
        error_code: if api_versions_supported(request_api_version) {
            ErrorCode::NoError
        } else {
            ErrorCode::UnsupportedVersion
        },
        api_keys: supported_api_keys(),
        throttle_time_ms: 0,
    }
}

impl ApiVersionsResponseV3 {
    pub fn new(correlation_id: i32, request_api_version: i16) -> (r: ApiVersionsResponseV3)
        ensures
            r@ == api_versions_response(correlation_id, request_api_version),
    {
        let api_keys = vec![
            ApiVersionsApiKeys { api_key: ApiKey::Fetch, min_version: 0, max_version: 16 },
            ApiVersionsApiKeys { api_key: ApiKey::ApiVersions, min_version: 0, max_version: 4 },
            ApiVersionsApiKeys { api_key: ApiKey::DescribeTopicPartitions, min_version: 0, max_version: 0 },
        ];
        let error_code = if 0 <= request_api_version && request_api_version <= 4 {
            ErrorCode::NoError
        } else {
            ErrorCode::UnsupportedVersion
        };
        let r = ApiVersionsResponseV3 { correlation_id, error_code, api_keys, throttle_time_ms: 0 };
        proof {
            assert(views(r.api_keys@) =~= supported_api_keys());
        }
        r
    }
}

impl Serialize for ApiVersionsResponseV3 {
    open spec fn valid(v: ApiVersionsResponseView) -> bool {
        true
    }

    open spec fn wire(v: ApiVersionsResponseView) -> Seq<u8> {
        header_v0_bytes(v.correlation_id) + i16_bytes(v.error_code.spec_code()) + compact_array_bytes::<
            ApiVersionsApiKeys,
        >(v.api_keys) + i32_bytes(v.throttle_time_ms) + tag_buffer_bytes()
    }

    fn serialize(&self, out: &mut Vec<u8>) {
        write_header_v0(out, self.correlation_id);
        write_error_code(out, self.error_code);
        CompactArray::serialize(out, self.api_keys.as_slice());
        write_i32(out, self.throttle_time_ms);
        TaggedFields::serialize(out);
        proof {
            assert(final(out)@ =~= old(out)@ + Self::wire(self@));
        }
    }
}

// ---------------------------------------------------------------------------
// DescribeTopicPartitions, version 0.

/// A partition of a described topic.
pub struct Partition {
    pub error_code: ErrorCode,
    pub partition_index: u32,
    pub leader_id: u32,
    pub leader_epoch: u32,
    pub replicas: Vec<u32>,
    pub in_sync_replicas: Vec<u32>,
    pub eligible_leader_replicas: Vec<u32>,
    pub last_known_eligible_leader_replicas: Vec<u32>,
    pub off_line_replicas: Vec<u32>,
}

pub struct PartitionView {
    pub error_code: ErrorCode,
    pub partition_index: u32,
    pub leader_id: u32,
    pub leader_epoch: u32,
    pub replicas: Seq<u32>,
    pub in_sync_replicas: Seq<u32>,
    pub eligible_leader_replicas: Seq<u32>,
    pub last_known_eligible_leader_replicas: Seq<u32>,
    pub off_line_replicas: Seq<u32>,
}

impl View for Partition {
    type V = PartitionView;

    open spec fn view(&self) -> PartitionView {
        PartitionView {
            error_code: self.error_code,
            partition_index: self.partition_index,
            leader_id: self.leader_id,
            leader_epoch: self.leader_epoch,
            replicas: self.replicas@,
            in_sync_replicas: self.in_sync_replicas@,
            eligible_leader_replicas: self.eligible_leader_replicas@,
            last_known_eligible_leader_replicas: self.last_known_eligible_leader_replicas@,
            off_line_replicas: self.off_line_replicas@,
        }
    }
}

impl Partition {
    pub fn new(
        error_code: ErrorCode,
        partition_index: u32,
        leader_id: u32,
        leader_epoch: u32,
        replicas: Vec<u32>,
        in_sync_replicas: Vec<u32>,
        eligible_leader_replicas: Vec<u32>,
        last_known_eligible_leader_replicas: Vec<u32>,
        off_line_replicas: Vec<u32>,
    ) -> (r: Partition)
        ensures
            r@ == (PartitionView {
                error_code,
                partition_index,
                leader_id,
                leader_epoch,
                replicas: replicas@,
                in_sync_replicas: in_sync_replicas@,
                eligible_leader_replicas: eligible_leader_replicas@,
                last_known_eligible_leader_replicas: last_known_eligible_leader_replicas@,
                off_line_replicas: off_line_replicas@,
            }),
    {
        Partition {
            error_code,
            partition_index,
            leader_id,
            leader_epoch,
            replicas,
            in_sync_replicas,
            eligible_leader_replicas,
            last_known_eligible_leader_replicas,
            off_line_replicas,
        }
    }
}

impl Serialize for Partition {
    open spec fn valid(v: PartitionView) -> bool {
        true
    }

    open spec fn wire(v: PartitionView) -> Seq<u8> {
        i16_bytes(v.error_code.spec_code()) + u32_bytes(v.partition_index) + u32_bytes(v.leader_id)
            + u32_bytes(v.leader_epoch) + compact_array_bytes::<u32>(v.replicas) + compact_array_bytes::<
            u32,
        >(v.in_sync_replicas) + compact_array_bytes::<u32>(v.eligible_leader_replicas)
            + compact_array_bytes::<u32>(v.last_known_eligible_leader_replicas) + compact_array_bytes::<
            u32,
        >(v.off_line_replicas) + tag_buffer_bytes()
    }

    fn serialize(&self, out: &mut Vec<u8>) {
        write_error_code(out, self.error_code);
        write_u32(out, self.partition_index);
        write_u32(out, self.leader_id);
        write_u32(out, self.leader_epoch);
        write_u32_array(out, &self.replicas);
        write_u32_array(out, &self.in_sync_replicas);
        write_u32_array(out, &self.eligible_leader_replicas);
        write_u32_array(out, &self.last_known_eligible_leader_replicas);
        write_u32_array(out, &self.off_line_replicas);
        TaggedFields::serialize(out);
        proof {
            assert(final(out)@ =~= old(out)@ + Self::wire(self@));
        }
    }
}

/// A described topic.
pub struct Topic {
    pub error_code: ErrorCode,
    pub name: String,
    pub topic_id: String,
    pub is_internal: bool,
    pub partitions: Vec<Partition>,
    /// A bit field of the operations that the client may perform.
    pub topic_authorized_operations: i32,
}

pub struct TopicView {
    pub error_code: ErrorCode,
    pub name: Seq<char>,
    pub topic_id: Seq<char>,
    pub is_internal: bool,
    pub partitions: Seq<PartitionView>,
    pub topic_authorized_operations: i32,
}

impl View for Topic {
    type V = TopicView;

    open spec fn view(&self) -> TopicView {
        TopicView {
            error_code: self.error_code,
            name: self.name@,
            topic_id: self.topic_id@,
            is_internal: self.is_internal,
            partitions: views(self.partitions@),
            topic_authorized_operations: self.topic_authorized_operations,
        }
    }
}

pub open spec fn bool_byte(b: bool) -> u8 {
    if b {
        1
    } else {
        0
    }
}

impl Serialize for Topic {
    open spec fn valid(v: TopicView) -> bool {
        is_uuid_text(v.topic_id)
    }

    open spec fn wire(v: TopicView) -> Seq<u8> {
        i16_bytes(v.error_code.spec_code()) + compact_string_bytes(v.name) + uuid_bytes(v.topic_id)
            + u8_bytes(bool_byte(v.is_internal)) + compact_array_bytes::<Partition>(v.partitions)
            + i32_bytes(v.topic_authorized_operations) + tag_buffer_bytes()
    }

    fn serialize(&self, out: &mut Vec<u8>) {
        write_error_code(out, self.error_code);
        CompactString::serialize(out, self.name.as_str());
        Uuid::serialize(out, self.topic_id.as_str());
        write_u8(out, if self.is_internal { 1 } else { 0 });
        CompactArray::serialize(out, self.partitions.as_slice());
        write_i32(out, self.topic_authorized_operations);
        TaggedFields::serialize(out);
        proof {
            assert(final(out)@ =~= old(out)@ + Self::wire(self@));
        }
    }
}

pub struct DescribeTopicPartitionsResponseV0 {
    pub correlation_id: i32,
    pub throttle_time_ms: i32,
    pub topics: Vec<Topic>,
    /// 0xff: no further page.
    pub next_cursor: u8,
}

pub struct DescribeTopicPartitionsResponseView {
    pub correlation_id: i32,
    pub throttle_time_ms: i32,
    pub topics: Seq<TopicView>,
    pub next_cursor: u8,
}

impl View for DescribeTopicPartitionsResponseV0 {
    type V = DescribeTopicPartitionsResponseView;

    open spec fn view(&self) -> DescribeTopicPartitionsResponseView {
        DescribeTopicPartitionsResponseView {
            correlation_id: self.correlation_id,
            throttle_time_ms: self.throttle_time_ms,
            topics: views(self.topics@),
            next_cursor: self.next_cursor,
        }
    }
}

impl DescribeTopicPartitionsResponseV0 {
    /// A response with no throttling and no further page.
    pub fn new(correlation_id: i32, topics: Vec<Topic>) -> (r: DescribeTopicPartitionsResponseV0)
        ensures
            r.correlation_id == correlation_id,
            r.throttle_time_ms == 0,
            r.topics == topics,
            r.next_cursor == 0xff,
    {
        DescribeTopicPartitionsResponseV0 { correlation_id, throttle_time_ms: 0, topics, next_cursor: 0xff }
    }
}

impl Serialize for DescribeTopicPartitionsResponseV0 {
    open spec fn valid(v: DescribeTopicPartitionsResponseView) -> bool {
        forall|i: int| 0 <= i < v.topics.len() ==> Topic::valid(#[trigger] v.topics[i])
    }

    open spec fn wire(v: DescribeTopicPartitionsResponseView) -> Seq<u8> {
        header_v1_bytes(v.correlation_id) + i32_bytes(v.throttle_time_ms) + compact_array_bytes::<Topic>(
            v.topics,
        ) + u8_bytes(v.next_cursor) + tag_buffer_bytes()
    }

    fn serialize(&self, out: &mut Vec<u8>) {
        write_header_v1(out, self.correlation_id);
        write_i32(out, self.throttle_time_ms);
        proof {
            assert forall|i: int| 0 <= i < self.topics@.len() implies Topic::valid(
                #[trigger] self.topics@[i]@,
            ) by {
                let v = self@;
                assert(v.topics[i] == self.topics@[i]@);
                assert(Topic::valid(v.topics[i]));
            }
        }
        CompactArray::serialize(out, self.topics.as_slice());
        write_u8(out, self.next_cursor);
        TaggedFields::serialize(out);
        proof {
            assert(final(out)@ =~= old(out)@ + Self::wire(self@));
        }
    }
}

// ---------------------------------------------------------------------------
// Fetch, version 16.

/// An aborted transaction in a fetched partition.
#[derive(Clone, Copy, Debug, PartialEq, Eq, Structural)]
pub struct AbortedTransaction {
    pub producer_id: i64,
    pub first_offset: i64,
}

impl View for AbortedTransaction {
    type V = AbortedTransaction;

    open spec fn view(&self) -> AbortedTransaction {
        *self
    }
}

impl Serialize for AbortedTransaction {
    open spec fn valid(v: AbortedTransaction) -> bool {
        true
    }

    open spec fn wire(v: AbortedTransaction) -> Seq<u8> {
        i64_bytes(v.producer_id) + i64_bytes(v.first_offset) + tag_buffer_bytes()
    }

    fn serialize(&self, out: &mut Vec<u8>) {
        write_i64(out, self.producer_id);
        write_i64(out, self.first_offset);
        TaggedFields::serialize(out);
        proof {
            assert(final(out)@ =~= old(out)@ + Self::wire(self@));
        }
    }
}

/// The record batches of a fetched partition, passed through as they stand
/// in the log.
pub struct BatchBytes {
    pub bytes: Vec<u8>,
}

impl View for BatchBytes {
    type V = Seq<u8>;

    open spec fn view(&self) -> Seq<u8> {
        self.bytes@
    }
}

impl Serialize for BatchBytes {
    open spec fn valid(v: Seq<u8>) -> bool {
        true
    }

    /// A compact byte run; no batches at all is the empty run.
    open spec fn wire(v: Seq<u8>) -> Seq<u8> {
        compact_bytes_bytes(v)
    }

    fn serialize(&self, out: &mut Vec<u8>) {
        let ghost before = out@;
        CompactNullableBytes::serialize(out, self.bytes.as_slice());
        assert(out@ == before + compact_bytes_bytes(self.bytes@));
        assert(Self::wire(self@) == compact_bytes_bytes(self.bytes@));
    }
}

/// A fetched partition.
pub struct TopicPartition {
    pub partition_index: u32,
    pub error_code: ErrorCode,
    pub high_watermark: i64,
    pub last_stable_offset: i64,
    pub log_start_offset: i64,
    pub aborted_transactions: Vec<AbortedTransaction>,
    pub preferred_read_replica: i32,
    pub record_batches: BatchBytes,
}

pub struct TopicPartitionView {
    pub partition_index: u32,
    pub error_code: ErrorCode,
    pub high_watermark: i64,
    pub last_stable_offset: i64,
    pub log_start_offset: i64,
    pub aborted_transactions: Seq<AbortedTransaction>,
    pub preferred_read_replica: i32,
    pub record_batches: Seq<u8>,
}

impl View for TopicPartition {
    type V = TopicPartitionView;

    open spec fn view(&self) -> TopicPartitionView {
        TopicPartitionView {
            partition_index: self.partition_index,
            error_code: self.error_code,
            high_watermark: self.high_watermark,
            last_stable_offset: self.last_stable_offset,
            log_start_offset: self.log_start_offset,
            aborted_transactions: views(self.aborted_transactions@),
            preferred_read_replica: self.preferred_read_replica,
            record_batches: self.record_batches@,
        }
    }
}

impl Serialize for TopicPartition {
    open spec fn valid(v: TopicPartitionView) -> bool {
        true
    }

    open spec fn wire(v: TopicPartitionView) -> Seq<u8> {
        u32_bytes(v.partition_index) + i16_bytes(v.error_code.spec_code()) + i64_bytes(v.high_watermark)
            + i64_bytes(v.last_stable_offset) + i64_bytes(v.log_start_offset) + compact_array_bytes::<
            AbortedTransaction,
        >(v.aborted_transactions) + i32_bytes(v.preferred_read_replica) + compact_bytes_bytes(
            v.record_batches,
        ) + tag_buffer_bytes()
    }

    fn serialize(&self, out: &mut Vec<u8>) {
        write_u32(out, self.partition_index);
        write_error_code(out, self.error_code);
        write_i64(out, self.high_watermark);
        write_i64(out, self.last_stable_offset);
        write_i64(out, self.log_start_offset);
        CompactArray::serialize(out, self.aborted_transactions.as_slice());
        write_i32(out, self.preferred_read_replica);
        self.record_batches.serialize(out);
        TaggedFields::serialize(out);
        proof {
            assert(final(out)@ =~= old(out)@ + Self::wire(self@));
        }
    }
}

/// A fetched topic.
pub struct TopicResponse {
    pub topic_id: String,
    pub partitions: Vec<TopicPartition>,
}

pub struct TopicResponseView {
    pub topic_id: Seq<char>,
    pub partitions: Seq<TopicPartitionView>,
}

impl View for TopicResponse {
    type V = TopicResponseView;

    open spec fn view(&self) -> TopicResponseView {
        TopicResponseView { topic_id: self.topic_id@, partitions: views(self.partitions@) }
    }
}

impl TopicResponse {
    pub fn new(topic_id: String, partitions: Vec<TopicPartition>) -> (r: TopicResponse)
        ensures
            r.topic_id == topic_id,
            r.partitions == partitions,
    {
        TopicResponse { topic_id, partitions }
    }
}

impl Serialize for TopicResponse {
    open spec fn valid(v: TopicResponseView) -> bool {
        is_uuid_text(v.topic_id)
    }

    open spec fn wire(v: TopicResponseView) -> Seq<u8> {
        uuid_bytes(v.topic_id) + compact_array_bytes::<TopicPartition>(v.partitions) + tag_buffer_bytes()
    }

    fn serialize(&self, out: &mut Vec<u8>) {
        Uuid::serialize(out, self.topic_id.as_str());
        CompactArray::serialize(out, self.partitions.as_slice());
        TaggedFields::serialize(out);
        proof {
            assert(final(out)@ =~= old(out)@ + Self::wire(self@));
        }
    }
}

pub struct FetchResponseV16 {
    pub correlation_id: i32,
    pub throttle_time_ms: i32,
    pub error_code: ErrorCode,
    pub session_id: u32,
    pub responses: Vec<TopicResponse>,
}

pub struct FetchResponseView {
    pub correlation_id: i32,
    pub throttle_time_ms: i32,
    pub error_code: ErrorCode,
    pub session_id: u32,
    pub responses: Seq<TopicResponseView>,
}

impl View for FetchResponseV16 {
    type V = FetchResponseView;

    open spec fn view(&self) -> FetchResponseView {
        FetchResponseView {
            correlation_id: self.correlation_id,
            throttle_time_ms: self.throttle_time_ms,
            error_code: self.error_code,
            session_id: self.session_id,
            responses: views(self.responses@),
        }
    }
}

impl FetchResponseV16 {
    /// A response with no throttling and no error.
    pub fn new(correlation_id: i32, session_id: u32, responses: Vec<TopicResponse>) -> (r: FetchResponseV16)
        ensures
            r.correlation_id == correlation_id,
            r.throttle_time_ms == 0,
            r.error_code == ErrorCode::NoError,
            r.session_id == session_id,
            r.responses == responses,
    {
        FetchResponseV16 { correlation_id, throttle_time_ms: 0, error_code: ErrorCode::NoError, session_id, responses }
    }
}

impl Serialize for FetchResponseV16 {
    open spec fn valid(v: FetchResponseView) -> bool {
        forall|i: int| 0 <= i < v.responses.len() ==> TopicResponse::valid(#[trigger] v.responses[i])
    }

    open spec fn wire(v: FetchResponseView) -> Seq<u8> {
        header_v1_bytes(v.correlation_id) + i32_bytes(v.throttle_time_ms) + i16_bytes(
            v.error_code.spec_code(),
        ) + u32_bytes(v.session_id) + compact_array_bytes::<TopicResponse>(v.responses)
            + tag_buffer_bytes()
    }

    fn serialize(&self, out: &mut Vec<u8>) {
        write_header_v1(out, self.correlation_id);
        write_i32(out, self.throttle_time_ms);
        write_error_code(out, self.error_code);
        write_u32(out, self.session_id);
        proof {
            assert forall|i: int| 0 <= i < self.responses@.len() implies TopicResponse::valid(
                #[trigger] self.responses@[i]@,
            ) by {
                let v = self@;
                assert(v.responses[i] == self.responses@[i]@);
                assert(TopicResponse::valid(v.responses[i]));
            }
        }
        CompactArray::serialize(out, self.responses.as_slice());
        TaggedFields::serialize(out);
        proof {
            assert(final(out)@ =~= old(out)@ + Self::wire(self@));
        }
    }
}

/// A response that can be written out whole.
pub trait Response: Serialize {
    /// The encoding of the response.
    fn as_bytes(&self) -> (r: Vec<u8>)
        requires
            Self::valid(self@),
        ensures
            r@ == Self::wire(self@),
    ;
}

impl Response for ApiVersionsResponseV3 {
    fn as_bytes(&self) -> (r: Vec<u8>) {
        let mut out: Vec<u8> = Vec::new();
        self.serialize(&mut out);
        assert(out@ =~= Self::wire(self@));
        out
    }
}

impl Response for DescribeTopicPartitionsResponseV0 {
    fn as_bytes(&self) -> (r: Vec<u8>) {
        let mut out: Vec<u8> = Vec::new();
        self.serialize(&mut out);
        assert(out@ =~= Self::wire(self@));
        out
    }
}

impl Response for FetchResponseV16 {
    fn as_bytes(&self) -> (r: Vec<u8>) {
        let mut out: Vec<u8> = Vec::new();
        self.serialize(&mut out);
        assert(out@ =~= Self::wire(self@));
        out
    }
}

} // verus!
