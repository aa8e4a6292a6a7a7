//! Decoders of the responses, as a client reads them.

use crate::protocol::{ApiKey, ErrorCode};
use crate::response::{
    AbortedTransaction, ApiVersionsApiKeys, ApiVersionsResponseV3, ApiVersionsResponseView,
    BatchBytes, DescribeTopicPartitionsResponseV0, DescribeTopicPartitionsResponseView,
    FetchResponseV16, FetchResponseView, Partition, PartitionView, Topic, TopicPartition,
    TopicPartitionView, TopicResponse, TopicResponseView, TopicView,
};
use crate::types::{
    parse_compact_array, parse_compact_bytes, parse_compact_string, parse_i16, parse_i32,
    parse_i64, parse_tag_buffer, parse_u32, parse_u8, parse_uuid, read_as, read_i16, read_i32,
    read_i64, read_u32, read_u8, views, CompactArray, CompactNullableBytes, CompactString,
    Deserialize, TaggedFields, Uuid,
};
use vstd::prelude::*;

verus! {

pub open spec fn parse_error_code(s: Seq<u8>, p: int) -> Option<(ErrorCode, int)> {
    match parse_i16(s, p) {
        Some((c, q)) => match ErrorCode::spec_from_code(c) {
            Some(e) => Some((e, q)),
            None => None,
        },
        None => None,
    }
}

fn read_error_code(buf: &[u8], p: usize) -> (r: Option<(ErrorCode, usize)>)
    ensures
        read_as(r, parse_error_code(buf@, p as int)),
{
    let (c, q) = match read_i16(buf, p) {
        Some(x) => x,
        None => return None,
    };
    match ErrorCode::from_code(c) {
        Some(e) => Some((e, q)),
        None => None,
    }
}

fn read_u32_array(buf: &[u8], p: usize) -> (r: Option<(Vec<u32>, usize)>)
    ensures
        read_as(r, parse_compact_array::<u32, u32>(buf@, p as int)),
{
    match CompactArray::deserialize::<u32, u32>(buf, p) {
        Some((v, q)) => {
            assert(views(v@) =~= v@);
            Some((v, q))
        },
        None => None,
    }
}

// ---------------------------------------------------------------------------
// ApiVersions.

pub open spec fn parse_api_key_entry(s: Seq<u8>, p: int) -> Option<(ApiVersionsApiKeys, int)> {
    match parse_i16(s, p) {
        Some((code, p)) => match ApiKey::spec_from_code(code) {
            Some(api_key) => match parse_i16(s, p) {
                Some((min_version, p)) => match parse_i16(s, p) {
                    Some((max_version, p)) => match parse_tag_buffer(s, p) {
                        Some(p) => Some((ApiVersionsApiKeys { api_key, min_version, max_version }, p)),
                        None => None,
                    },
                    None => None,
                },
                None => None,
            },
            None => None,
        },
        None => None,
    }
}

impl Deserialize<ApiVersionsApiKeys> for ApiVersionsApiKeys {
    open spec fn parse(s: Seq<u8>, p: int) -> Option<(ApiVersionsApiKeys, int)> {
        parse_api_key_entry(s, p)
    }

    fn deserialize(buf: &[u8], p: usize) -> (r: Option<(ApiVersionsApiKeys, usize)>) {
        let (code, p) = match read_i16(buf, p) {
            Some(x) => x,
            None => return None,
        };
        let api_key = match ApiKey::from_code(code) {
            Some(k) => k,
            None => return None,
        };
        let (min_version, p) = match read_i16(buf, p) {
            Some(x) => x,
            None => return None,
        };
        let (max_version, p) = match read_i16(buf, p) {
            Some(x) => x,
            None => return None,
        };
        let p = match TaggedFields::deserialize(buf, p) {
            Some(x) => x,
            None => return None,
        };
        Some((ApiVersionsApiKeys { api_key, min_version, max_version }, p))
    }
}

pub open spec fn parse_api_versions_response(s: Seq<u8>, p: int) -> Option<(ApiVersionsResponseView, int)> {
    match parse_i32(s, p) {
        Some((correlation_id, p)) => match parse_error_code(s, p) {
            Some((error_code, p)) => match parse_compact_array::<ApiVersionsApiKeys, ApiVersionsApiKeys>(s, p) {
                Some((api_keys, p)) => match parse_i32(s, p) {
                    Some((throttle_time_ms, p)) => match parse_tag_buffer(s, p) {
                        Some(p) => Some(
                            (ApiVersionsResponseView { correlation_id, error_code, api_keys, throttle_time_ms }, p),
                        ),
                        None => None,
                    },
                    None => None,
                },
                None => None,
            },
            None => None,
        },
        None => None,
    }
}

impl Deserialize<ApiVersionsResponseV3> for ApiVersionsResponseV3 {
    open spec fn parse(s: Seq<u8>, p: int) -> Option<(ApiVersionsResponseView, int)> {
        parse_api_versions_response(s, p)
    }

    fn deserialize(buf: &[u8], p: usize) -> (r: Option<(ApiVersionsResponseV3, usize)>) {
        let (correlation_id, p) = match read_i32(buf, p) {
            Some(x) => x,
            None => return None,
        };
        let (error_code, p) = match read_error_code(buf, p) {
            Some(x) => x,
            None => return None,
        };
        let (api_keys, p) = match CompactArray::deserialize::<ApiVersionsApiKeys, ApiVersionsApiKeys>(buf, p) {
            Some(x) => x,
            None => return None,
        };
        let (throttle_time_ms, p) = match read_i32(buf, p) {
            Some(x) => x,
            None => return None,
        };
        let p = match TaggedFields::deserialize(buf, p) {
            Some(x) => x,
            None => return None,
        };
        Some((ApiVersionsResponseV3 { correlation_id, error_code, api_keys, throttle_time_ms }, p))
    }
}

// ---------------------------------------------------------------------------
// DescribeTopicPartitions.

pub open spec fn parse_partition_info(s: Seq<u8>, p: int) -> Option<(PartitionView, int)> {
    match parse_error_code(s, p) {
        Some((error_code, p)) => match parse_u32(s, p) {
            Some((partition_index, p)) => match parse_u32(s, p) {
                Some((leader_id, p)) => match parse_u32(s, p) {
                    Some((leader_epoch, p)) => match parse_compact_array::<u32, u32>(s, p) {
                        Some((replicas, p)) => match parse_compact_array::<u32, u32>(s, p) {
                            Some((in_sync_replicas, p)) => match parse_compact_array::<u32, u32>(s, p) {
                                Some((eligible_leader_replicas, p)) => match parse_compact_array::<u32, u32>(s, p) {
                                    Some((last_known_eligible_leader_replicas, p)) => match parse_compact_array::<
                                        u32,
                                        u32,
                                    >(s, p) {
                                        Some((off_line_replicas, p)) => match parse_tag_buffer(s, p) {
                                            Some(p) => Some(
                                                (
                                                    PartitionView {
                                                        error_code,
                                                        partition_index,
                                                        leader_id,
                                                        leader_epoch,
                                                        replicas,
                                                        in_sync_replicas,
                                                        eligible_leader_replicas,
                                                        last_known_eligible_leader_replicas,
                                                        off_line_replicas,
                                                    },
                                                    p,
                                                ),
                                            ),
                                            None => None,
                                        },
                                        None => None,
                                    },
                                    None => None,
                                },
                                None => None,
                            },
                            None => None,
                        },
                        None => None,
                    },
                    None => None,
                },
                None => None,
            },
            None => None,
        },
        None => None,
    }
}

impl Deserialize<Partition> for Partition {
    open spec fn parse(s: Seq<u8>, p: int) -> Option<(PartitionView, int)> {
        parse_partition_info(s, p)
    }

    fn deserialize(buf: &[u8], p: usize) -> (r: Option<(Partition, usize)>) {
        let (error_code, p) = match read_error_code(buf, p) {
            Some(x) => x,
            None => return None,
        };
        let (partition_index, p) = match read_u32(buf, p) {
            Some(x) => x,
            None => return None,
        };
        let (leader_id, p) = match read_u32(buf, p) {
            Some(x) => x,
            None => return None,
        };
        let (leader_epoch, p) = match read_u32(buf, p) {
            Some(x) => x,
            None => return None,
        };
        let (replicas, p) = match read_u32_array(buf, p) {
            Some(x) => x,
            None => return None,
        };
        let (in_sync_replicas, p) = match read_u32_array(buf, p) {
            Some(x) => x,
            None => return None,
        };
        let (eligible_leader_replicas, p) = match read_u32_array(buf, p) {
            Some(x) => x,
            None => return None,
        };
        let (last_known_eligible_leader_replicas, p) = match read_u32_array(buf, p) {
            Some(x) => x,
            None => return None,
        };
        let (off_line_replicas, p) = match read_u32_array(buf, p) {
            Some(x) => x,
            None => return None,
        };
        let p = match TaggedFields::deserialize(buf, p) {
            Some(x) => x,
            None => return None,
        };
        Some(
            (
                Partition {
                    error_code,
                    partition_index,
                    leader_id,
                    leader_epoch,
                    replicas,
                    in_sync_replicas,
                    eligible_leader_replicas,
                    last_known_eligible_leader_replicas,
                    off_line_replicas,
                },
                p,
            ),
        )
    }
}

pub open spec fn parse_bool(s: Seq<u8>, p: int) -> Option<(bool, int)> {
    match parse_u8(s, p) {
        Some((b, q)) => if b == 0 {
            Some((false, q))
        } else if b == 1 {
            Some((true, q))
        } else {
            None
        },
        None => None,
    }
}

pub open spec fn parse_topic_info(s: Seq<u8>, p: int) -> Option<(TopicView, int)> {
    match parse_error_code(s, p) {
        Some((error_code, p)) => match parse_compact_string(s, p) {
            Some((name, p)) => match parse_uuid(s, p) {
                Some((topic_id, p)) => match parse_bool(s, p) {
                    Some((is_internal, p)) => match parse_compact_array::<Partition, Partition>(s, p) {
                        Some((partitions, p)) => match parse_i32(s, p) {
                            Some((topic_authorized_operations, p)) => match parse_tag_buffer(s, p) {
                                Some(p) => Some(
                                    (
                                        TopicView {
                                            error_code,
                                            name,
                                            topic_id,
                                            is_internal,
                                            partitions,
                                            topic_authorized_operations,
                                        },
                                        p,
                                    ),
                                ),
                                None => None,
                            },
                            None => None,
                        },
                        None => None,
                    },
                    None => None,
                },
                None => None,
            },
            None => None,
        },
        None => None,
    }
}

impl Deserialize<Topic> for Topic {
    open spec fn parse(s: Seq<u8>, p: int) -> Option<(TopicView, int)> {
        parse_topic_info(s, p)
    }

    fn deserialize(buf: &[u8], p: usize) -> (r: Option<(Topic, usize)>) {
        let (error_code, p) = match read_error_code(buf, p) {
            Some(x) => x,
            None => return None,
        };
        let (name, p) = match CompactString::deserialize(buf, p) {
            Some(x) => x,
            None => return None,
        };
        let (topic_id, p) = match Uuid::deserialize(buf, p) {
            Some(x) => x,
            None => return None,
        };
        let (b, p) = match read_u8(buf, p) {
            Some(x) => x,
            None => return None,
        };
        if b > 1 {
            return None;
        }
        let (partitions, p) = match CompactArray::deserialize::<Partition, Partition>(buf, p) {
            Some(x) => x,
            None => return None,
        };
        let (topic_authorized_operations, p) = match read_i32(buf, p) {
            Some(x) => x,
            None => return None,
        };
        let p = match TaggedFields::deserialize(buf, p) {
            Some(x) => x,
            None => return None,
        };
        Some(
            (
                Topic { error_code, name, topic_id, is_internal: b == 1, partitions, topic_authorized_operations },
                p,
            ),
        )
    }
}

pub open spec fn parse_describe_response(s: Seq<u8>, p: int) -> Option<(DescribeTopicPartitionsResponseView, int)> {
    match parse_i32(s, p) {
        Some((correlation_id, p)) => match parse_tag_buffer(s, p) {
            Some(p) => match parse_i32(s, p) {
                Some((throttle_time_ms, p)) => match parse_compact_array::<Topic, Topic>(s, p) {
                    Some((topics, p)) => match parse_u8(s, p) {
                        Some((next_cursor, p)) => match parse_tag_buffer(s, p) {
                            Some(p) => Some(
                                (
                                    DescribeTopicPartitionsResponseView {
                                        correlation_id,
                                        throttle_time_ms,
                                        topics,
                                        next_cursor,
                                    },
                                    p,
                                ),
                            ),
                            None => None,
                        },
                        None => None,
                    },
                    None => None,
                },
                None => None,
            },
            None => None,
        },
        None => None,
    }
}

impl Deserialize<DescribeTopicPartitionsResponseV0> for DescribeTopicPartitionsResponseV0 {
    open spec fn parse(s: Seq<u8>, p: int) -> Option<(DescribeTopicPartitionsResponseView, int)> {
        parse_describe_response(s, p)
    }

    fn deserialize(buf: &[u8], p: usize) -> (r: Option<(DescribeTopicPartitionsResponseV0, usize)>) {
        let (correlation_id, p) = match read_i32(buf, p) {
            Some(x) => x,
            None => return None,
        };
        let p = match TaggedFields::deserialize(buf, p) {
            Some(x) => x,
            None => return None,
        };
        let (throttle_time_ms, p) = match read_i32(buf, p) {
            Some(x) => x,
            None => return None,
        };
        let (topics, p) = match CompactArray::deserialize::<Topic, Topic>(buf, p) {
            Some(x) => x,
            None => return None,
        };
        let (next_cursor, p) = match read_u8(buf, p) {
            Some(x) => x,
            None => return None,
        };
        let p = match TaggedFields::deserialize(buf, p) {
            Some(x) => x,
            None => return None,
        };
        Some((DescribeTopicPartitionsResponseV0 { correlation_id, throttle_time_ms, topics, next_cursor }, p))
    }
}

// ---------------------------------------------------------------------------
// Fetch.

pub open spec fn parse_aborted_transaction(s: Seq<u8>, p: int) -> Option<(AbortedTransaction, int)> {
    match parse_i64(s, p) {
        Some((producer_id, p)) => match parse_i64(s, p) {
            Some((first_offset, p)) => match parse_tag_buffer(s, p) {
                Some(p) => Some((AbortedTransaction { producer_id, first_offset }, p)),
                None => None,
            },
            None => None,
        },
        None => None,
    }
}

impl Deserialize<AbortedTransaction> for AbortedTransaction {
    open spec fn parse(s: Seq<u8>, p: int) -> Option<(AbortedTransaction, int)> {
        parse_aborted_transaction(s, p)
    }

    fn deserialize(buf: &[u8], p: usize) -> (r: Option<(AbortedTransaction, usize)>) {
        let (producer_id, p) = match read_i64(buf, p) {
            Some(x) => x,
            None => return None,
        };
        let (first_offset, p) = match read_i64(buf, p) {
            Some(x) => x,
            None => return None,
        };
        let p = match TaggedFields::deserialize(buf, p) {
            Some(x) => x,
            None => return None,
        };
        Some((AbortedTransaction { producer_id, first_offset }, p))
    }
}

pub open spec fn parse_topic_partition(s: Seq<u8>, p: int) -> Option<(TopicPartitionView, int)> {
    match parse_u32(s, p) {
        Some((partition_index, p)) => match parse_error_code(s, p) {
            Some((error_code, p)) => match parse_i64(s, p) {
                Some((high_watermark, p)) => match parse_i64(s, p) {
                    Some((last_stable_offset, p)) => match parse_i64(s, p) {
                        Some((log_start_offset, p)) => match parse_compact_array::<
                            AbortedTransaction,
                            AbortedTransaction,
                        >(s, p) {
                            Some((aborted_transactions, p)) => match parse_i32(s, p) {
                                Some((preferred_read_replica, p)) => match parse_compact_bytes(s, p) {
                                    Some((record_batches, p)) => match parse_tag_buffer(s, p) {
                                        Some(p) => Some(
                                            (
                                                TopicPartitionView {
                                                    partition_index,
                                                    error_code,
                                                    high_watermark,
                                                    last_stable_offset,
                                                    log_start_offset,
                                                    aborted_transactions,
                                                    preferred_read_replica,
                                                    record_batches,
                                                },
                                                p,
                                            ),
                                        ),
                                        None => None,
                                    },
                                    None => None,
                                },
                                None => None,
                            },
                            None => None,
                        },
                        None => None,
                    },
                    None => None,
                },
                None => None,
            },
            None => None,
        },
        None => None,
    }
}

impl Deserialize<TopicPartition> for TopicPartition {
    open spec fn parse(s: Seq<u8>, p: int) -> Option<(TopicPartitionView, int)> {
        parse_topic_partition(s, p)
    }

    fn deserialize(buf: &[u8], p: usize) -> (r: Option<(TopicPartition, usize)>) {
        let (partition_index, p) = match read_u32(buf, p) {
            Some(x) => x,
            None => return None,
        };
        let (error_code, p) = match read_error_code(buf, p) {
            Some(x) => x,
            None => return None,
        };
        let (high_watermark, p) = match read_i64(buf, p) {
            Some(x) => x,
            None => return None,
        };
        let (last_stable_offset, p) = match read_i64(buf, p) {
            Some(x) => x,
            None => return None,
        };
        let (log_start_offset, p) = match read_i64(buf, p) {
            Some(x) => x,
            None => return None,
        };
        let (aborted_transactions, p) = match CompactArray::deserialize::<AbortedTransaction, AbortedTransaction>(
            buf,
            p,
        ) {
            Some(x) => x,
            None => return None,
        };
        let (preferred_read_replica, p) = match read_i32(buf, p) {
            Some(x) => x,
            None => return None,
        };
        let (bytes, p) = match CompactNullableBytes::deserialize(buf, p) {
            Some(x) => x,
            None => return None,
        };
        let p = match TaggedFields::deserialize(buf, p) {
            Some(x) => x,
            None => return None,
        };
        Some(
            (
                TopicPartition {
                    partition_index,
                    error_code,
                    high_watermark,
                    last_stable_offset,
                    log_start_offset,
                    aborted_transactions,
                    preferred_read_replica,
                    record_batches: BatchBytes { bytes },
                },
                p,
            ),
        )
    }
}

pub open spec fn parse_topic_response(s: Seq<u8>, p: int) -> Option<(TopicResponseView, int)> {
    match parse_uuid(s, p) {
        Some((topic_id, p)) => match parse_compact_array::<TopicPartition, TopicPartition>(s, p) {
            Some((partitions, p)) => match parse_tag_buffer(s, p) {
                Some(p) => Some((TopicResponseView { topic_id, partitions }, p)),
                None => None,
            },
            None => None,
        },
        None => None,
    }
}

impl Deserialize<TopicResponse> for TopicResponse {
    open spec fn parse(s: Seq<u8>, p: int) -> Option<(TopicResponseView, int)> {
        parse_topic_response(s, p)
    }

    fn deserialize(buf: &[u8], p: usize) -> (r: Option<(TopicResponse, usize)>) {
        let (topic_id, p) = match Uuid::deserialize(buf, p) {
            Some(x) => x,
            None => return None,
        };
        let (partitions, p) = match CompactArray::deserialize::<TopicPartition, TopicPartition>(buf, p) {
            Some(x) => x,
            None => return None,
        };
        let p = match TaggedFields::deserialize(buf, p) {
            Some(x) => x,
            None => return None,
        };
        Some((TopicResponse { topic_id, partitions }, p))
    }
}

pub open spec fn parse_fetch_response(s: Seq<u8>, p: int) -> Option<(FetchResponseView, int)> {
    match parse_i32(s, p) {
        Some((correlation_id, p)) => match parse_tag_buffer(s, p) {
            Some(p) => match parse_i32(s, p) {
                Some((throttle_time_ms, p)) => match parse_error_code(s, p) {
                    Some((error_code, p)) => match parse_u32(s, p) {
                        Some((session_id, p)) => match parse_compact_array::<TopicResponse, TopicResponse>(s, p) {
                            Some((responses, p)) => match parse_tag_buffer(s, p) {
                                Some(p) => Some(
                                    (
                                        FetchResponseView {
                                            correlation_id,
                                            throttle_time_ms,
                                            error_code,
                                            session_id,
                                            responses,
                                        },
                                        p,
                                    ),
                                ),
                                None => None,
                            },
                            None => None,
                        },
                        None => None,
                    },
                    None => None,
                },
                None => None,
            },
            None => None,
        },
        None => None,
    }
}

impl Deserialize<FetchResponseV16> for FetchResponseV16 {
    open spec fn parse(s: Seq<u8>, p: int) -> Option<(FetchResponseView, int)> {
        parse_fetch_response(s, p)
    }

    fn deserialize(buf: &[u8], p: usize) -> (r: Option<(FetchResponseV16, usize)>) {
        let (correlation_id, p) = match read_i32(buf, p) {
            Some(x) => x,
            None => return None,
        };
        let p = match TaggedFields::deserialize(buf, p) {
            Some(x) => x,
            None => return None,
        };
        let (throttle_time_ms, p) = match read_i32(buf, p) {
            Some(x) => x,
            None => return None,
        };
        let (error_code, p) = match read_error_code(buf, p) {
            Some(x) => x,
            None => return None,
        };
        let (session_id, p) = match read_u32(buf, p) {
            Some(x) => x,
            None => return None,
        };
        let (responses, p) = match CompactArray::deserialize::<TopicResponse, TopicResponse>(buf, p) {
            Some(x) => x,
            None => return None,
        };
        let p = match TaggedFields::deserialize(buf, p) {
            Some(x) => x,
            None => return None,
        };
        Some((FetchResponseV16 { correlation_id, throttle_time_ms, error_code, session_id, responses }, p))
    }
}

} // verus!
