use kafka_wire::protocol::{ApiKey, ErrorCode};
use kafka_wire::response::{
    AbortedTransaction, ApiVersionsApiKeys, ApiVersionsResponseV3, BatchBytes,
    DescribeTopicPartitionsResponseV0, FetchResponseV16, Partition, Response, Topic,
    TopicPartition, TopicResponse,
};
use kafka_wire::types::{Deserialize, Serialize};

const ID: &str = "0a1b2c3d-4e5f-6071-8293-a4b5c6d7e8f9";

#[test]
fn api_versions_response_round_trip() {
    let resp = ApiVersionsResponseV3::new(7, 4);
    let bytes = resp.as_bytes();
    assert_eq!(bytes.len(), 33);
    let (back, next) = ApiVersionsResponseV3::deserialize(&bytes, 0).unwrap();
    assert_eq!(next, bytes.len());
    assert_eq!(back.correlation_id, 7);
    assert_eq!(back.error_code, ErrorCode::NoError);
    assert_eq!(back.throttle_time_ms, 0);
    assert_eq!(
        back.api_keys,
        vec![
            ApiVersionsApiKeys { api_key: ApiKey::Fetch, min_version: 0, max_version: 16 },
            ApiVersionsApiKeys { api_key: ApiKey::ApiVersions, min_version: 0, max_version: 4 },
            ApiVersionsApiKeys { api_key: ApiKey::DescribeTopicPartitions, min_version: 0, max_version: 0 },
        ]
    );
}

#[test]
fn api_versions_response_unsupported_round_trip() {
    let bytes = ApiVersionsResponseV3::new(9, 7).as_bytes();
    let (back, _) = ApiVersionsResponseV3::deserialize(&bytes, 0).unwrap();
    assert_eq!(back.error_code, ErrorCode::UnsupportedVersion);
    assert_eq!(back.api_keys.len(), 3);
}

#[test]
fn describe_response_round_trip() {
    let partition = Partition::new(ErrorCode::NoError, 2, 1, 5, vec![1, 2], vec![1], vec![3], vec![], vec![4]);
    let topic = Topic {
        error_code: ErrorCode::NoError,
        name: "orders".to_string(),
        topic_id: ID.to_string(),
        is_internal: true,
        partitions: vec![partition],
        topic_authorized_operations: 0x0df,
    };
    let resp = DescribeTopicPartitionsResponseV0::new(42, vec![topic]);
    let bytes = resp.as_bytes();
    let (back, next) = DescribeTopicPartitionsResponseV0::deserialize(&bytes, 0).unwrap();
    assert_eq!(next, bytes.len());
    assert_eq!(back.correlation_id, 42);
    assert_eq!(back.next_cursor, 0xff);
    let t = &back.topics[0];
    assert_eq!(t.name, "orders");
    assert_eq!(t.topic_id, ID);
    assert!(t.is_internal);
    assert_eq!(t.topic_authorized_operations, 0x0df);
    let p = &t.partitions[0];
    assert_eq!(p.partition_index, 2);
    assert_eq!(p.leader_id, 1);
    assert_eq!(p.leader_epoch, 5);
    assert_eq!(p.replicas, vec![1, 2]);
    assert_eq!(p.in_sync_replicas, vec![1]);
    assert_eq!(p.eligible_leader_replicas, vec![3]);
    assert!(p.last_known_eligible_leader_replicas.is_empty());
    assert_eq!(p.off_line_replicas, vec![4]);
}

#[test]
fn fetch_response_round_trip() {
    let partition = TopicPartition {
        partition_index: 1,
        error_code: ErrorCode::UnknownTopicId,
        high_watermark: -1,
        last_stable_offset: 2,
        log_start_offset: 3,
        aborted_transactions: vec![AbortedTransaction { producer_id: 9, first_offset: -4 }],
        preferred_read_replica: -1,
        record_batches: BatchBytes { bytes: vec![5, 6, 7] },
    };
    let resp = FetchResponseV16::new(8, 77, vec![TopicResponse::new(ID.to_string(), vec![partition])]);
    let mut bytes = Vec::new();
    resp.serialize(&mut bytes);
    bytes.extend_from_slice(&[0xaa, 0xbb]);
    let (back, next) = FetchResponseV16::deserialize(&bytes, 0).unwrap();
    assert_eq!(next, bytes.len() - 2);
    assert_eq!(back.correlation_id, 8);
    assert_eq!(back.session_id, 77);
    assert_eq!(back.error_code, ErrorCode::NoError);
    let t = &back.responses[0];
    assert_eq!(t.topic_id, ID);
    let p = &t.partitions[0];
    assert_eq!(p.partition_index, 1);
    assert_eq!(p.error_code, ErrorCode::UnknownTopicId);
    assert_eq!(p.high_watermark, -1);
    assert_eq!(p.last_stable_offset, 2);
    assert_eq!(p.log_start_offset, 3);
    assert_eq!(p.aborted_transactions, vec![AbortedTransaction { producer_id: 9, first_offset: -4 }]);
    assert_eq!(p.preferred_read_replica, -1);
    assert_eq!(p.record_batches.bytes, vec![5, 6, 7]);
}

#[test]
fn response_decoder_refuses_unknown_error_code() {
    let mut bytes = ApiVersionsResponseV3::new(7, 4).as_bytes();
    bytes[5] = 0x07;
    assert!(ApiVersionsResponseV3::deserialize(&bytes, 0).is_none());
}

#[test]
fn response_decoder_refuses_truncation() {
    let bytes = ApiVersionsResponseV3::new(7, 4).as_bytes();
    assert!(ApiVersionsResponseV3::deserialize(&bytes[..bytes.len() - 1], 0).is_none());
}

#[test]
fn error_codes_on_the_wire() {
    assert_eq!(ErrorCode::NoError.code(), 0);
    assert_eq!(ErrorCode::UnknownTopicOrPartition.code(), 3);
    assert_eq!(ErrorCode::UnsupportedVersion.code(), 35);
    assert_eq!(ErrorCode::InvalidRequest.code(), 42);
    assert_eq!(ErrorCode::UnknownTopicId.code(), 100);
    assert_eq!(ErrorCode::from_code(100), Some(ErrorCode::UnknownTopicId));
    assert_eq!(ErrorCode::from_code(1), None);
}

#[test]
fn api_keys_on_the_wire() {
    assert_eq!(ApiKey::Fetch.code(), 1);
    assert_eq!(ApiKey::ApiVersions.code(), 18);
    assert_eq!(ApiKey::DescribeTopicPartitions.code(), 75);
    assert_eq!(ApiKey::from_code(75), Some(ApiKey::DescribeTopicPartitions));
    assert_eq!(ApiKey::from_code(0), None);
}
