use kafka_wire::error::{ProcessError, UnsupportedApiKeyError};
use kafka_wire::fetch_responses;
use kafka_wire::logic::{process, request_api_key};
use kafka_wire::protocol::{message_size, ApiKey, ErrorCode, FrameError, ResponseMessage};
use kafka_wire::record_batch::{RecordBatches, RecordValue};
use kafka_wire::request::{DescribeTopicPartitionsRequestV0, FetchRequestV16, HeaderV2};
use kafka_wire::topic_partitions;

const TOPIC_ID: [u8; 16] = [
    0x71, 0xa5, 0x9a, 0x51, 0x1b, 0xe8, 0x4a, 0x0d, 0x8f, 0x3d, 0x0b, 0x7e, 0x6a, 0x0f, 0x5c, 0x29,
];
const TOPIC_ID_TEXT: &str = "71a59a51-1be8-4a0d-8f3d-0b7e6a0f5c29";

fn header(api_key: i16, api_version: i16, correlation_id: i32) -> Vec<u8> {
    let mut b = Vec::new();
    b.extend_from_slice(&api_key.to_be_bytes());
    b.extend_from_slice(&api_version.to_be_bytes());
    b.extend_from_slice(&correlation_id.to_be_bytes());
    b.extend_from_slice(&[0x00, 0x09]);
    b.extend_from_slice(b"kafka-cli");
    b.push(0x00);
    b
}

fn api_versions_request(api_version: i16) -> Vec<u8> {
    let mut b = header(18, api_version, 7);
    b.push(0x0a);
    b.extend_from_slice(b"kafka-cli");
    b.push(0x06);
    b.extend_from_slice(b"1.0.0");
    b.push(0x00);
    b
}

fn api_versions_response(error: u8) -> Vec<u8> {
    vec![
        0, 0, 0, 7, // correlation id
        0, error, // error code
        4, // three keys
        0, 1, 0, 0, 0, 16, 0, // Fetch
        0, 18, 0, 0, 0, 4, 0, // ApiVersions
        0, 75, 0, 0, 0, 0, 0, // DescribeTopicPartitions
        0, 0, 0, 0, // throttle
        0, // tag buffer
    ]
}

fn describe_request(names: &[&str]) -> Vec<u8> {
    let mut b = header(75, 0, 11);
    b.push(names.len() as u8 + 1);
    for n in names {
        b.push(n.len() as u8 + 1);
        b.extend_from_slice(n.as_bytes());
        b.push(0);
    }
    b.extend_from_slice(&100i32.to_be_bytes());
    b.push(0xff);
    b.push(0);
    b
}

fn fetch_request(topics: &[([u8; 16], u32)]) -> Vec<u8> {
    let mut b = header(1, 16, 21);
    b.extend_from_slice(&500u32.to_be_bytes());
    b.extend_from_slice(&1u32.to_be_bytes());
    b.extend_from_slice(&52428800u32.to_be_bytes());
    b.push(0);
    b.extend_from_slice(&0x1234u32.to_be_bytes());
    b.extend_from_slice(&0u32.to_be_bytes());
    b.push(topics.len() as u8 + 1);
    for (id, partition) in topics {
        b.extend_from_slice(id);
        b.push(2);
        b.extend_from_slice(&partition.to_be_bytes());
        b.extend_from_slice(&0u32.to_be_bytes());
        b.extend_from_slice(&0u64.to_be_bytes());
        b.extend_from_slice(&0u32.to_be_bytes());
        b.extend_from_slice(&0u64.to_be_bytes());
        b.extend_from_slice(&1048576u32.to_be_bytes());
        b.push(0);
        b.push(0);
    }
    b.push(1);
    b.push(1);
    b.push(0);
    b
}

fn record(value: &[u8]) -> Vec<u8> {
    let mut body = vec![0x00, 0x00, 0x00, 0x01, value.len() as u8];
    body.extend_from_slice(value);
    body.push(0x00);
    let mut r = vec![body.len() as u8];
    r.extend_from_slice(&body);
    r
}

fn topic_value(name: &str, id: &[u8; 16]) -> Vec<u8> {
    let mut v = vec![0x01, 0x02, 0x00, name.len() as u8 + 1];
    v.extend_from_slice(name.as_bytes());
    v.extend_from_slice(id);
    v.push(0);
    v
}

fn partition_value(partition_id: u32, id: &[u8; 16], leader: u32) -> Vec<u8> {
    let mut v = vec![0x01, 0x03, 0x01];
    v.extend_from_slice(&partition_id.to_be_bytes());
    v.extend_from_slice(id);
    v.extend_from_slice(&[0x02, 0, 0, 0, 1]);
    v.extend_from_slice(&[0x02, 0, 0, 0, 1]);
    v.push(0x01);
    v.push(0x01);
    v.extend_from_slice(&leader.to_be_bytes());
    v.extend_from_slice(&0u32.to_be_bytes());
    v.extend_from_slice(&0u32.to_be_bytes());
    v.push(0x01);
    v.push(0);
    v
}

fn feature_level_value() -> Vec<u8> {
    let mut v = vec![0x01, 0x0c, 0x00, 0x11];
    v.extend_from_slice(b"metadata.version");
    v.extend_from_slice(&20u16.to_be_bytes());
    v.push(0);
    v
}

fn batch(base_offset: i64, records: &[Vec<u8>]) -> Vec<u8> {
    let mut rest = Vec::new();
    rest.extend_from_slice(&0i32.to_be_bytes());
    rest.push(2);
    rest.extend_from_slice(&0u32.to_be_bytes());
    rest.extend_from_slice(&0i16.to_be_bytes());
    rest.extend_from_slice(&(records.len() as i32 - 1).to_be_bytes());
    rest.extend_from_slice(&0i64.to_be_bytes());
    rest.extend_from_slice(&0i64.to_be_bytes());
    rest.extend_from_slice(&(-1i64).to_be_bytes());
    rest.extend_from_slice(&(-1i16).to_be_bytes());
    rest.extend_from_slice(&(-1i32).to_be_bytes());
    rest.extend_from_slice(&(records.len() as i32).to_be_bytes());
    for r in records {
        rest.extend_from_slice(r);
    }
    let mut b = Vec::new();
    b.extend_from_slice(&base_offset.to_be_bytes());
    b.extend_from_slice(&(rest.len() as i32).to_be_bytes());
    b.extend_from_slice(&rest);
    b
}

fn log_with_bar() -> (Vec<u8>, Vec<u8>) {
    let features = batch(0, &[record(&feature_level_value())]);
    let topic = batch(1, &[record(&topic_value("bar", &TOPIC_ID)), record(&partition_value(0, &TOPIC_ID, 1))]);
    let mut log = features.clone();
    log.extend_from_slice(&topic);
    (log, topic)
}

#[test]
fn api_versions_probe() {
    let msg = api_versions_request(4);
    assert_eq!(process(&msg, &[]), Ok(api_versions_response(0)));
}

#[test]
fn api_versions_probe_framed() {
    let resp = process(&api_versions_request(4), &[]).unwrap();
    let framed = ResponseMessage::from_bytes(&resp);
    assert_eq!(&framed.as_bytes()[..4], &(resp.len() as i32).to_be_bytes());
    assert_eq!(framed.as_bytes().len(), resp.len() + 4);
    assert_eq!(&framed.as_bytes()[4..], &resp[..]);
}

#[test]
fn api_versions_unsupported_version() {
    let msg = api_versions_request(5);
    assert_eq!(process(&msg, &[]), Ok(api_versions_response(35)));
}

#[test]
fn api_versions_negative_version_unsupported() {
    let msg = api_versions_request(-1);
    assert_eq!(process(&msg, &[]), Ok(api_versions_response(35)));
}

#[test]
fn describe_unknown_topic_with_empty_log() {
    let msg = describe_request(&["foo"]);
    let mut expected = vec![0, 0, 0, 11, 0, 0, 0, 0, 0, 2, 0, 3, 4, b'f', b'o', b'o'];
    expected.extend_from_slice(&[0u8; 16]);
    expected.extend_from_slice(&[0, 1, 0, 0, 0, 0xdf, 0, 0xff, 0]);
    assert_eq!(process(&msg, &[]), Ok(expected));
}

#[test]
fn describe_unknown_topic_entity() {
    let req = DescribeTopicPartitionsRequestV0::from_bytes(&describe_request(&["foo"])).unwrap();
    let batches = RecordBatches::from_bytes(&[]).unwrap();
    let resp = topic_partitions::process(req, &batches);
    assert_eq!(resp.topics.len(), 1);
    let t = &resp.topics[0];
    assert_eq!(t.error_code, ErrorCode::UnknownTopicOrPartition);
    assert_eq!(t.name, "foo");
    assert_eq!(t.topic_id, "00000000-0000-0000-0000-000000000000");
    assert!(!t.is_internal);
    assert!(t.partitions.is_empty());
    assert_eq!(t.topic_authorized_operations, 0x0df);
    assert_eq!(resp.next_cursor, 0xff);
}

#[test]
fn describe_known_topic() {
    let (log, _) = log_with_bar();
    let req = DescribeTopicPartitionsRequestV0::from_bytes(&describe_request(&["bar"])).unwrap();
    let batches = RecordBatches::from_bytes(&log).unwrap();
    let resp = topic_partitions::process(req, &batches);
    assert_eq!(resp.correlation_id, 11);
    assert_eq!(resp.topics.len(), 1);
    let t = &resp.topics[0];
    assert_eq!(t.error_code, ErrorCode::NoError);
    assert_eq!(t.name, "bar");
    assert_eq!(t.topic_id, TOPIC_ID_TEXT);
    assert_eq!(t.partitions.len(), 1);
    let p = &t.partitions[0];
    assert_eq!(p.error_code, ErrorCode::NoError);
    assert_eq!(p.partition_index, 0);
    assert_eq!(p.leader_id, 1);
    assert_eq!(p.leader_epoch, 0);
    assert_eq!(p.replicas, vec![1]);
    assert_eq!(p.in_sync_replicas, vec![1]);
    assert!(p.eligible_leader_replicas.is_empty());
    assert!(p.last_known_eligible_leader_replicas.is_empty());
    assert!(p.off_line_replicas.is_empty());
}

#[test]
fn describe_known_topic_bytes() {
    let (log, _) = log_with_bar();
    let resp = process(&describe_request(&["bar"]), &log).unwrap();
    let mut expected = vec![0, 0, 0, 11, 0, 0, 0, 0, 0, 2, 0, 0, 4, b'b', b'a', b'r'];
    expected.extend_from_slice(&TOPIC_ID);
    expected.push(0);
    expected.push(2);
    expected.extend_from_slice(&[0, 0, 0, 0, 0, 0, 0, 0, 0, 1, 0, 0, 0, 0]);
    expected.extend_from_slice(&[2, 0, 0, 0, 1, 2, 0, 0, 0, 1, 1, 1, 1, 0]);
    expected.extend_from_slice(&[0, 0, 0, 0xdf, 0, 0xff, 0]);
    assert_eq!(resp, expected);
}

#[test]
fn describe_keeps_request_order() {
    let (log, _) = log_with_bar();
    let req = DescribeTopicPartitionsRequestV0::from_bytes(&describe_request(&["zed", "bar", "foo"])).unwrap();
    let batches = RecordBatches::from_bytes(&log).unwrap();
    let resp = topic_partitions::process(req, &batches);
    let names: Vec<&str> = resp.topics.iter().map(|t| t.name.as_str()).collect();
    assert_eq!(names, vec!["zed", "bar", "foo"]);
    assert_eq!(resp.topics[0].error_code, ErrorCode::UnknownTopicOrPartition);
    assert_eq!(resp.topics[1].error_code, ErrorCode::NoError);
    assert_eq!(resp.topics[2].error_code, ErrorCode::UnknownTopicOrPartition);
}

#[test]
fn fetch_with_empty_topics() {
    let resp = process(&fetch_request(&[]), &[]).unwrap();
    let mut expected = vec![0, 0, 0, 21, 0, 0, 0, 0, 0, 0, 0];
    expected.extend_from_slice(&0x1234u32.to_be_bytes());
    expected.extend_from_slice(&[1, 0]);
    assert_eq!(resp, expected);
}

#[test]
fn fetch_unknown_topic_id() {
    let unknown = [0x5au8; 16];
    let req = FetchRequestV16::from_bytes(&fetch_request(&[(unknown, 0)])).unwrap();
    let batches = RecordBatches::from_bytes(&[]).unwrap();
    let resp = fetch_responses::process(req, &batches);
    assert_eq!(resp.error_code, ErrorCode::NoError);
    assert_eq!(resp.session_id, 0x1234);
    assert_eq!(resp.responses.len(), 1);
    assert_eq!(resp.responses[0].topic_id, "5a5a5a5a-5a5a-5a5a-5a5a-5a5a5a5a5a5a");
    assert_eq!(resp.responses[0].partitions.len(), 1);
    let p = &resp.responses[0].partitions[0];
    assert_eq!(p.error_code, ErrorCode::UnknownTopicId);
    assert!(p.record_batches.bytes.is_empty());
}

#[test]
fn fetch_unknown_topic_id_bytes() {
    let unknown = [0x5au8; 16];
    let resp = process(&fetch_request(&[(unknown, 0)]), &[]).unwrap();
    let mut expected = vec![0, 0, 0, 21, 0, 0, 0, 0, 0, 0, 0];
    expected.extend_from_slice(&0x1234u32.to_be_bytes());
    expected.push(2);
    expected.extend_from_slice(&unknown);
    expected.push(2);
    expected.extend_from_slice(&[0, 0, 0, 0, 0, 100]);
    expected.extend_from_slice(&[0u8; 24]);
    expected.extend_from_slice(&[1, 0, 0, 0, 0, 1, 0]);
    expected.extend_from_slice(&[0, 0]);
    assert_eq!(resp, expected);
}

#[test]
fn fetch_known_topic_returns_its_batch() {
    let (log, topic_batch) = log_with_bar();
    let req = FetchRequestV16::from_bytes(&fetch_request(&[(TOPIC_ID, 3)])).unwrap();
    let batches = RecordBatches::from_bytes(&log).unwrap();
    let resp = fetch_responses::process(req, &batches);
    let p = &resp.responses[0].partitions[0];
    assert_eq!(p.error_code, ErrorCode::NoError);
    assert_eq!(p.partition_index, 3);
    assert_eq!(p.record_batches.bytes, topic_batch);
}

#[test]
fn log_reader_reads_batches_and_ranges() {
    let (log, topic_batch) = log_with_bar();
    let batches = RecordBatches::from_bytes(&log).unwrap();
    assert_eq!(batches.batches().len(), 2);
    assert_eq!(batches.batches()[1].raw, topic_batch);
    assert_eq!(batches.batches()[1].base_offset, 1);
    assert_eq!(batches.batches()[1].records.len(), 2);
    match &batches.batches()[0].records[0].value {
        RecordValue::FeatureLevel(f) => {
            assert_eq!(f.name, "metadata.version");
            assert_eq!(f.level, 20);
        }
        _ => panic!("expected a feature level record"),
    }
    let b = batches.batch_for_topic(TOPIC_ID_TEXT).unwrap();
    assert_eq!(b.base_offset, 1);
    assert!(batches.batch_for_topic("00000000-0000-0000-0000-000000000001").is_none());
    let (id, parts) = batches.find_topic(&"bar".to_string()).unwrap();
    assert_eq!(id, TOPIC_ID_TEXT);
    assert_eq!(parts.len(), 1);
    assert_eq!(parts[0].leader_id, 1);
    assert!(batches.find_topic(&"baz".to_string()).is_none());
}

#[test]
fn log_reader_rejects_truncated_batch() {
    let (log, _) = log_with_bar();
    assert!(matches!(RecordBatches::from_bytes(&log[..log.len() - 3]), Err(ProcessError::MalformedMetadata)));
}

#[test]
fn log_reader_rejects_unknown_record_type() {
    let mut v = topic_value("bar", &TOPIC_ID);
    v[1] = 0x09;
    let log = batch(0, &[record(&v)]);
    assert!(matches!(RecordBatches::from_bytes(&log), Err(ProcessError::MalformedMetadata)));
}

#[test]
fn log_reader_rejects_bad_frame_version() {
    let mut v = topic_value("bar", &TOPIC_ID);
    v[0] = 0x02;
    let log = batch(0, &[record(&v)]);
    assert!(matches!(RecordBatches::from_bytes(&log), Err(ProcessError::MalformedMetadata)));
}

#[test]
fn malformed_metadata_ends_the_turn() {
    let (log, _) = log_with_bar();
    assert_eq!(process(&describe_request(&["bar"]), &log[..20]), Err(ProcessError::MalformedMetadata));
}

#[test]
fn unsupported_api_key_is_refused() {
    let msg = header(3, 0, 1);
    assert_eq!(request_api_key(&msg), Err(ProcessError::UnsupportedApiKey(UnsupportedApiKeyError(3))));
    assert_eq!(process(&msg, &[]), Err(ProcessError::UnsupportedApiKey(UnsupportedApiKeyError(3))));
}

#[test]
fn truncated_request_is_malformed() {
    let msg = describe_request(&["foo"]);
    assert_eq!(process(&msg[..msg.len() - 2], &[]), Err(ProcessError::MalformedRequest));
    assert_eq!(process(&[0, 18], &[]), Err(ProcessError::MalformedRequest));
}

#[test]
fn request_api_key_names_the_kind() {
    assert_eq!(request_api_key(&api_versions_request(4)), Ok(ApiKey::ApiVersions));
    assert_eq!(request_api_key(&fetch_request(&[])), Ok(ApiKey::Fetch));
    assert!(!ApiKey::ApiVersions.reads_metadata_log());
    assert!(ApiKey::Fetch.reads_metadata_log());
}

#[test]
fn header_decodes_fields() {
    let h = HeaderV2::from_bytes(&api_versions_request(4)).unwrap();
    assert_eq!(h.request_api_key, 18);
    assert_eq!(h.request_api_version, 4);
    assert_eq!(h.correlation_id, 7);
    assert_eq!(h.client_id, "kafka-cli");
}

#[test]
fn fetch_request_decodes_fields() {
    let req = FetchRequestV16::from_bytes(&fetch_request(&[(TOPIC_ID, 2)])).unwrap();
    assert_eq!(req.max_wait_ms, 500);
    assert_eq!(req.min_bytes, 1);
    assert_eq!(req.max_bytes, 52428800);
    assert_eq!(req.session_id, 0x1234);
    assert_eq!(req.topics.len(), 1);
    assert_eq!(req.topics[0].topic_id, TOPIC_ID_TEXT);
    assert_eq!(req.topics[0].partitions[0].partition, 2);
    assert_eq!(req.topics[0].partitions[0].partition_max_bytes, 1048576);
    assert!(req.forgotten_topics_data.is_empty());
    assert_eq!(req.rack_id, "");
}

#[test]
fn same_input_same_output() {
    let (log, _) = log_with_bar();
    let msg = describe_request(&["bar", "foo"]);
    assert_eq!(process(&msg, &log), process(&msg, &log));
    let msg = fetch_request(&[(TOPIC_ID, 0)]);
    assert_eq!(process(&msg, &log), process(&msg, &log));
}

#[test]
fn message_size_checks_prefix() {
    assert_eq!(message_size([0, 0, 0, 0x23]), Ok(35));
    assert_eq!(message_size([0xff, 0xff, 0xff, 0xff]), Err(FrameError::NegativeSize));
    assert_eq!(message_size([0x10, 0, 0, 0]), Err(FrameError::TooLarge));
    assert_eq!(message_size([0x06, 0x40, 0, 0]), Ok(104857600));
}
