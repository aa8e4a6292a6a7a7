//! The requests that the server accepts, decoded from the bytes of a framed
//! message (the size prefix already taken off).

use crate::error::ProcessError;
use crate::response::{api_versions_response, ApiVersionsResponseV3};
use crate::types::{
    is_uuid_text, lemma_elems_satisfy, lemma_parse_uuid_is_uuid, parse_elems,
    parse_compact_array, parse_compact_string, parse_i16, parse_i32, parse_nullable_string,
    parse_tag_buffer, parse_u32, parse_u64, parse_u8, parse_uuid, read_as, read_i16, read_i32,
    read_u32, read_u64, read_u8, views, CompactArray, CompactString, Deserialize, NullableString,
    TaggedFields, Uuid,
};
use vstd::prelude::*;

verus! {

/// What a request decoder returns for the message `buf`, given what the spec
/// parser makes of it.
pub open spec fn decoded_as<T: View>(r: Result<T, ProcessError>, e: Option<(T::V, int)>) -> bool {
    match e {
        Some((v, _)) => r is Ok && r.unwrap()@ == v,
        None => r == Err::<T, ProcessError>(ProcessError::MalformedRequest),
    }
}

// ---------------------------------------------------------------------------
// The request header, version 2.

pub struct HeaderV2 {
    pub request_api_key: i16,
    pub request_api_version: i16,
    pub correlation_id: i32,
    pub client_id: String,
}

pub struct HeaderV2View {
    pub request_api_key: i16,
    pub request_api_version: i16,
    pub correlation_id: i32,
    pub client_id: Seq<char>,
}

impl View for HeaderV2 {
    type V = HeaderV2View;

    open spec fn view(&self) -> HeaderV2View {
        HeaderV2View {
            request_api_key: self.request_api_key,
            request_api_version: self.request_api_version,
            correlation_id: self.correlation_id,
            client_id: self.client_id@,
        }
    }
}

/// API key, API version, correlation id, client id, tag buffer.
pub open spec fn parse_header(s: Seq<u8>, p: int) -> Option<(HeaderV2View, int)> {
    match parse_i16(s, p) {
        Some((request_api_key, p)) => match parse_i16(s, p) {
            Some((request_api_version, p)) => match parse_i32(s, p) {
                Some((correlation_id, p)) => match parse_nullable_string(s, p) {
                    Some((client_id, p)) => match parse_tag_buffer(s, p) {
                        Some(p) => Some(
                            (
                                HeaderV2View {
                                    request_api_key,
                                    request_api_version,
                                    correlation_id,
                                    client_id,
                                },
                                p,
                            ),
                        ),
                        None => None,
                    },
                    None => None,
                },
                None => None,
            },
            None => None,
        },
        None => None,
    }
}

impl HeaderV2 {
    pub fn deserialize(buf: &[u8], p: usize) -> (r: Option<(HeaderV2, usize)>)
        ensures
            read_as(r, parse_header(buf@, p as int)),
    {
        let (request_api_key, p) = match read_i16(buf, p) {
            Some(x) => x,
            None => return None,
        };
        let (request_api_version, p) = match read_i16(buf, p) {
            Some(x) => x,
            None => return None,
        };
        let (correlation_id, p) = match read_i32(buf, p) {
            Some(x) => x,
            None => return None,
        };
        let (client_id, p) = match NullableString::deserialize(buf, p) {
            Some(x) => x,
            None => return None,
        };
        let p = match TaggedFields::deserialize(buf, p) {
            Some(x) => x,
            None => return None,
        };
        Some((HeaderV2 { request_api_key, request_api_version, correlation_id, client_id }, p))
    }

    /// Decodes the header at the start of a message.
    pub fn from_bytes(buf: &[u8]) -> (r: Result<HeaderV2, ProcessError>)
        ensures
            decoded_as(r, parse_header(buf@, 0)),
    {
        match Self::deserialize(buf, 0) {
            Some((h, _)) => Ok(h),
            None => Err(ProcessError::MalformedRequest),
        }
    }
}

// ---------------------------------------------------------------------------
// ApiVersions: only the header is read; the client's name and version that
// follow it are not used.

pub struct ApiVersionsRequest {
    pub header: HeaderV2,
}

impl View for ApiVersionsRequest {
    type V = HeaderV2View;

    open spec fn view(&self) -> HeaderV2View {
        self.header@
    }
}

impl ApiVersionsRequest {
    pub fn from_bytes(buf: &[u8]) -> (r: Result<ApiVersionsRequest, ProcessError>)
        ensures
            decoded_as(r, parse_header(buf@, 0)),
    {
        match HeaderV2::from_bytes(buf) {
            Ok(header) => Ok(ApiVersionsRequest { header }),
            Err(e) => Err(e),
        }
    }
}

impl ApiVersionsRequest {
    /// Answers the request.
    pub fn process(self) -> (r: ApiVersionsResponseV3)
        ensures
            r@ == api_versions_response(self.header.correlation_id, self.header.request_api_version),
    {
        ApiVersionsResponseV3::new(self.header.correlation_id, self.header.request_api_version)
    }
}

// ---------------------------------------------------------------------------
// DescribeTopicPartitions, version 0.

pub struct DescribeTopicPartitionsRequestV0 {
    pub header: HeaderV2,
    pub topics: Vec<String>,
    pub response_partition_limit: i32,
    /// 0xff when no cursor is given.
    pub cursor: u8,
}

pub struct DescribeTopicPartitionsRequestView {
    pub header: HeaderV2View,
    pub topics: Seq<Seq<char>>,
    pub response_partition_limit: i32,
    pub cursor: u8,
}

impl View for DescribeTopicPartitionsRequestV0 {
    type V = DescribeTopicPartitionsRequestView;

    open spec fn view(&self) -> DescribeTopicPartitionsRequestView {
        DescribeTopicPartitionsRequestView {
            header: self.header@,
            topics: views(self.topics@),
            response_partition_limit: self.response_partition_limit,
            cursor: self.cursor,
        }
    }
}

/// The decoder of a requested topic: its name, then a tag buffer.
pub struct TopicName;

impl Deserialize<String> for TopicName {
    open spec fn parse(s: Seq<u8>, p: int) -> Option<(Seq<char>, int)> {
        match parse_compact_string(s, p) {
            Some((name, p)) => match parse_tag_buffer(s, p) {
                Some(p) => Some((name, p)),
                None => None,
            },
            None => None,
        }
    }

    fn deserialize(buf: &[u8], p: usize) -> (r: Option<(String, usize)>) {
        let (name, p) = match CompactString::deserialize(buf, p) {
            Some(x) => x,
            None => return None,
        };
        let p = match TaggedFields::deserialize(buf, p) {
            Some(x) => x,
            None => return None,
        };
        Some((name, p))
    }
}

pub open spec fn parse_describe_topic_partitions(s: Seq<u8>, p: int) -> Option<
    (DescribeTopicPartitionsRequestView, int),
> {
    match parse_header(s, p) {
        Some((header, p)) => match parse_compact_array::<String, TopicName>(s, p) {
            Some((topics, p)) => match parse_i32(s, p) {
                Some((response_partition_limit, p)) => match parse_u8(s, p) {
                    Some((cursor, p)) => match parse_tag_buffer(s, p) {
                        Some(p) => Some(
                            (
                                DescribeTopicPartitionsRequestView {
                                    header,
                                    topics,
                                    response_partition_limit,
                                    cursor,
                                },
                                p,
                            ),
                        ),
                        None => None,
                    },
                    None => None,
                },
                None => None,
            },
            None => None,
        },
        None => None,
    }
}

impl DescribeTopicPartitionsRequestV0 {
    pub fn from_bytes(buf: &[u8]) -> (r: Result<DescribeTopicPartitionsRequestV0, ProcessError>)
        ensures
            decoded_as(r, parse_describe_topic_partitions(buf@, 0)),
    {
        let (header, p) = match HeaderV2::deserialize(buf, 0) {
            Some(x) => x,
            None => return Err(ProcessError::MalformedRequest),
        };
        let (topics, p) = match CompactArray::deserialize::<String, TopicName>(buf, p) {
            Some(x) => x,
            None => return Err(ProcessError::MalformedRequest),
        };
        let (response_partition_limit, p) = match read_i32(buf, p) {
            Some(x) => x,
            None => return Err(ProcessError::MalformedRequest),
        };
        let (cursor, p) = match read_u8(buf, p) {
            Some(x) => x,
            None => return Err(ProcessError::MalformedRequest),
        };
        match TaggedFields::deserialize(buf, p) {
            Some(_) => {},
            None => return Err(ProcessError::MalformedRequest),
        };
        Ok(DescribeTopicPartitionsRequestV0 { header, topics, response_partition_limit, cursor })
    }
}

// ---------------------------------------------------------------------------
// Fetch, version 16.

/// A partition to fetch.
#[derive(Clone, Copy, Debug, PartialEq, Eq, Structural)]
pub struct Partition {
    pub partition: u32,
    pub current_leader_epoch: u32,
    pub fetch_offset: u64,
    pub last_fetched_epoch: u32,
    pub log_start_offset: u64,
    pub partition_max_bytes: u32,
}

impl View for Partition {
    type V = Partition;

    open spec fn view(&self) -> Partition {
        *self
    }
}

pub open spec fn parse_fetch_partition(s: Seq<u8>, p: int) -> Option<(Partition, int)> {
    match parse_u32(s, p) {
        Some((partition, p)) => match parse_u32(s, p) {
            Some((current_leader_epoch, p)) => match parse_u64(s, p) {
                Some((fetch_offset, p)) => match parse_u32(s, p) {
                    Some((last_fetched_epoch, p)) => match parse_u64(s, p) {
                        Some((log_start_offset, p)) => match parse_u32(s, p) {
                            Some((partition_max_bytes, p)) => match parse_tag_buffer(s, p) {
                                Some(p) => Some(
                                    (
                                        Partition {
                                            partition,
                                            current_leader_epoch,
                                            fetch_offset,
                                            last_fetched_epoch,
                                            log_start_offset,
                                            partition_max_bytes,
                                        },
                                        p,
                                    ),
                                ),
                                None => None,
                            },
                            None => None,
                        },
                        None => None,
                    },
                    None => None,
                },
                None => None,
            },
            None => None,
        },
        None => None,
    }
}

impl Deserialize<Partition> for Partition {
    open spec fn parse(s: Seq<u8>, p: int) -> Option<(Partition, int)> {
        parse_fetch_partition(s, p)
    }

    fn deserialize(buf: &[u8], p: usize) -> (r: Option<(Partition, usize)>) {
        let (partition, p) = match read_u32(buf, p) {
            Some(x) => x,
            None => return None,
        };
        let (current_leader_epoch, p) = match read_u32(buf, p) {
            Some(x) => x,
            None => return None,
        };
        let (fetch_offset, p) = match read_u64(buf, p) {
            Some(x) => x,
            None => return None,
        };
        let (last_fetched_epoch, p) = match read_u32(buf, p) {
            Some(x) => x,
            None => return None,
        };
        let (log_start_offset, p) = match read_u64(buf, p) {
            Some(x) => x,
            None => return None,
        };
        let (partition_max_bytes, p) = match read_u32(buf, p) {
            Some(x) => x,
            None => return None,
        };
        let p = match TaggedFields::deserialize(buf, p) {
            Some(x) => x,
            None => return None,
        };
        Some(
            (
                Partition {
                    partition,
                    current_leader_epoch,
                    fetch_offset,
                    last_fetched_epoch,
                    log_start_offset,
                    partition_max_bytes,
                },
                p,
            ),
        )
    }
}

/// A topic to fetch, by id, with its partitions.
pub struct TopicRequest {
    pub topic_id: String,
    pub partitions: Vec<Partition>,
}

pub struct TopicRequestView {
    pub topic_id: Seq<char>,
    pub partitions: Seq<Partition>,
}

impl View for TopicRequest {
    type V = TopicRequestView;

    open spec fn view(&self) -> TopicRequestView {
        TopicRequestView { topic_id: self.topic_id@, partitions: views(self.partitions@) }
    }
}

pub open spec fn parse_topic_request(s: Seq<u8>, p: int) -> Option<(TopicRequestView, int)> {
    match parse_uuid(s, p) {
        Some((topic_id, p)) => match parse_compact_array::<Partition, Partition>(s, p) {
            Some((partitions, p)) => match parse_tag_buffer(s, p) {
                Some(p) => Some((TopicRequestView { topic_id, partitions }, p)),
                None => None,
            },
            None => None,
        },
        None => None,
    }
}

impl Deserialize<TopicRequest> for TopicRequest {
    open spec fn parse(s: Seq<u8>, p: int) -> Option<(TopicRequestView, int)> {
        parse_topic_request(s, p)
    }

    fn deserialize(buf: &[u8], p: usize) -> (r: Option<(TopicRequest, usize)>) {
        let (topic_id, p) = match Uuid::deserialize(buf, p) {
            Some(x) => x,
            None => return None,
        };
        let (partitions, p) = match CompactArray::deserialize::<Partition, Partition>(buf, p) {
            Some(x) => x,
            None => return None,
        };
        let p = match TaggedFields::deserialize(buf, p) {
            Some(x) => x,
            None => return None,
        };
        Some((TopicRequest { topic_id, partitions }, p))
    }
}

/// In an incremental fetch, a topic whose partitions leave the session.
pub struct ForgottenTopicData {
    pub topic_id: String,
    pub partitions: Vec<u32>,
}

pub struct ForgottenTopicDataView {
    pub topic_id: Seq<char>,
    pub partitions: Seq<u32>,
}

impl View for ForgottenTopicData {
    type V = ForgottenTopicDataView;

    open spec fn view(&self) -> ForgottenTopicDataView {
        ForgottenTopicDataView { topic_id: self.topic_id@, partitions: self.partitions@ }
    }
}

pub open spec fn parse_forgotten_topic(s: Seq<u8>, p: int) -> Option<(ForgottenTopicDataView, int)> {
    match parse_uuid(s, p) {
        Some((topic_id, p)) => match parse_compact_array::<u32, u32>(s, p) {
            Some((partitions, p)) => match parse_tag_buffer(s, p) {
                Some(p) => Some((ForgottenTopicDataView { topic_id, partitions }, p)),
                None => None,
            },
            None => None,
        },
        None => None,
    }
}

impl Deserialize<ForgottenTopicData> for ForgottenTopicData {
    open spec fn parse(s: Seq<u8>, p: int) -> Option<(ForgottenTopicDataView, int)> {
        parse_forgotten_topic(s, p)
    }

    fn deserialize(buf: &[u8], p: usize) -> (r: Option<(ForgottenTopicData, usize)>) {
        let (topic_id, p) = match Uuid::deserialize(buf, p) {
            Some(x) => x,
            None => return None,
        };
        let (partitions, p) = match CompactArray::deserialize::<u32, u32>(buf, p) {
            Some(x) => x,
            None => return None,
        };
        proof {
            assert(views(partitions@) =~= partitions@);
        }
        let p = match TaggedFields::deserialize(buf, p) {
            Some(x) => x,
            None => return None,
        };
        Some((ForgottenTopicData { topic_id, partitions }, p))
    }
}

pub struct FetchRequestV16 {
    pub header: HeaderV2,
    /// The longest the client will wait for the response, in milliseconds.
    pub max_wait_ms: u32,
    /// The fewest bytes the client wants in the response.
    pub min_bytes: u32,
    /// The most bytes the client wants in the response.
    pub max_bytes: u32,
    pub isolation_level: u8,
    /// The fetch session.
    pub session_id: u32,
    /// The position of this request within its session.
    pub session_epoch: u32,
    pub topics: Vec<TopicRequest>,
    pub forgotten_topics_data: Vec<ForgottenTopicData>,
    /// The rack of the client.
    pub rack_id: String,
}

pub struct FetchRequestView {
    pub header: HeaderV2View,
    pub max_wait_ms: u32,
    pub min_bytes: u32,
    pub max_bytes: u32,
    pub isolation_level: u8,
    pub session_id: u32,
    pub session_epoch: u32,
    pub topics: Seq<TopicRequestView>,
    pub forgotten_topics_data: Seq<ForgottenTopicDataView>,
    pub rack_id: Seq<char>,
}

impl View for FetchRequestV16 {
    type V = FetchRequestView;

    open spec fn view(&self) -> FetchRequestView {
        FetchRequestView {
            header: self.header@,
            max_wait_ms: self.max_wait_ms,
            min_bytes: self.min_bytes,
            max_bytes: self.max_bytes,
            isolation_level: self.isolation_level,
            session_id: self.session_id,
            session_epoch: self.session_epoch,
            topics: views(self.topics@),
            forgotten_topics_data: views(self.forgotten_topics_data@),
            rack_id: self.rack_id@,
        }
    }
}

pub open spec fn parse_fetch(s: Seq<u8>, p: int) -> Option<(FetchRequestView, int)> {
    match parse_header(s, p) {
        Some((header, p)) => match parse_u32(s, p) {
            Some((max_wait_ms, p)) => match parse_u32(s, p) {
                Some((min_bytes, p)) => match parse_u32(s, p) {
                    Some((max_bytes, p)) => match parse_u8(s, p) {
                        Some((isolation_level, p)) => match parse_u32(s, p) {
                            Some((session_id, p)) => match parse_u32(s, p) {
                                Some((session_epoch, p)) => parse_fetch_tail(
                                    s,
                                    p,
                                    header,
                                    max_wait_ms,
                                    min_bytes,
                                    max_bytes,
                                    isolation_level,
                                    session_id,
                                    session_epoch,
                                ),
                                None => None,
                            },
                            None => None,
                        },
                        None => None,
                    },
                    None => None,
                },
                None => None,
            },
            None => None,
        },
        None => None,
    }
}

/// The fields of a fetch request after its session epoch.
pub open spec fn parse_fetch_tail(
    s: Seq<u8>,
    p: int,
    header: HeaderV2View,
    max_wait_ms: u32,
    min_bytes: u32,
    max_bytes: u32,
    isolation_level: u8,
    session_id: u32,
    session_epoch: u32,
) -> Option<(FetchRequestView, int)> {
    match parse_compact_array::<TopicRequest, TopicRequest>(s, p) {
        Some((topics, p)) => match parse_compact_array::<ForgottenTopicData, ForgottenTopicData>(s, p) {
            Some((forgotten_topics_data, p)) => match parse_compact_string(s, p) {
                Some((rack_id, p)) => match parse_tag_buffer(s, p) {
                    Some(p) => Some(
                        (
                            FetchRequestView {
                                header,
                                max_wait_ms,
                                min_bytes,
                                max_bytes,
                                isolation_level,
                                session_id,
                                session_epoch,
                                topics,
                                forgotten_topics_data,
                                rack_id,
                            },
                            p,
                        ),
                    ),
                    None => None,
                },
                None => None,
            },
            None => None,
        },
        None => None,
    }
}

impl FetchRequestV16 {
    pub fn from_bytes(buf: &[u8]) -> (r: Result<FetchRequestV16, ProcessError>)
        ensures
            decoded_as(r, parse_fetch(buf@, 0)),
    {
        let (header, p) = match HeaderV2::deserialize(buf, 0) {
            Some(x) => x,
            None => return Err(ProcessError::MalformedRequest),
        };
        let (max_wait_ms, p) = match read_u32(buf, p) {
            Some(x) => x,
            None => return Err(ProcessError::MalformedRequest),
        };
        let (min_bytes, p) = match read_u32(buf, p) {
            Some(x) => x,
            None => return Err(ProcessError::MalformedRequest),
        };
        let (max_bytes, p) = match read_u32(buf, p) {
            Some(x) => x,
            None => return Err(ProcessError::MalformedRequest),
        };
        let (isolation_level, p) = match read_u8(buf, p) {
            Some(x) => x,
            None => return Err(ProcessError::MalformedRequest),
        };
        let (session_id, p) = match read_u32(buf, p) {
            Some(x) => x,
            None => return Err(ProcessError::MalformedRequest),
        };
        let (session_epoch, p) = match read_u32(buf, p) {
            Some(x) => x,
            None => return Err(ProcessError::MalformedRequest),
        };
        let (topics, p) = match CompactArray::deserialize::<TopicRequest, TopicRequest>(buf, p) {
            Some(x) => x,
            None => return Err(ProcessError::MalformedRequest),
        };
        let (forgotten_topics_data, p) = match CompactArray::deserialize::<
            ForgottenTopicData,
            ForgottenTopicData,
        >(buf, p) {
            Some(x) => x,
            None => return Err(ProcessError::MalformedRequest),
        };
        let (rack_id, p) = match CompactString::deserialize(buf, p) {
            Some(x) => x,
            None => return Err(ProcessError::MalformedRequest),
        };
        match TaggedFields::deserialize(buf, p) {
            Some(_) => {},
            None => return Err(ProcessError::MalformedRequest),
        };
        Ok(
            FetchRequestV16 {
                header,
                max_wait_ms,
                min_bytes,
                max_bytes,
                isolation_level,
                session_id,
                session_epoch,
                topics,
                forgotten_topics_data,
                rack_id,
            },
        )
    }
}

/// Every topic id of a decoded Fetch request is UUID text.
pub proof fn lemma_fetch_topic_ids(s: Seq<u8>, p: int)
    ensures
        parse_fetch(s, p) matches Some((req, _)) ==> forall|i: int|
            0 <= i < req.topics.len() ==> is_uuid_text(#[trigger] req.topics[i].topic_id),
{
    let pred = |t: TopicRequestView| is_uuid_text(t.topic_id);
    assert forall|q: int| (#[trigger] <TopicRequest as Deserialize<TopicRequest>>::parse(s, q)) is Some implies pred(
        <TopicRequest as Deserialize<TopicRequest>>::parse(s, q).unwrap().0,
    ) by {
        lemma_parse_uuid_is_uuid(s, q);
    }
    assert forall|q: int, n: nat| (#[trigger] parse_elems::<TopicRequest, TopicRequest>(s, q, n)) is Some implies forall|i: int|
        0 <= i < parse_elems::<TopicRequest, TopicRequest>(s, q, n).unwrap().0.len() ==> pred(
            #[trigger] parse_elems::<TopicRequest, TopicRequest>(s, q, n).unwrap().0[i],
        ) by {
        lemma_elems_satisfy::<TopicRequest, TopicRequest>(s, q, n, pred);
    }
}

} // verus!
