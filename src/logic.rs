//! One request turn: the header names the kind of request, the request is
//! decoded, answered from the cluster-metadata log where it needs it, and the
//! response encoded.

use crate::error::{ProcessError, UnsupportedApiKeyError};
use crate::fetch_responses::{self, fetch_response};
use crate::protocol::ApiKey;
use crate::record_batch::{parse_batches, RecordBatches};
use crate::request::{
    lemma_fetch_topic_ids, parse_describe_topic_partitions, parse_fetch, parse_header,
    ApiVersionsRequest, DescribeTopicPartitionsRequestV0, FetchRequestV16, HeaderV2,
};
use crate::response::{
    api_versions_response, ApiVersionsResponseV3, DescribeTopicPartitionsResponseV0,
    FetchResponseV16, Response, TopicResponse,
};
use crate::topic_partitions::{self, describe_response, lemma_describe_response_valid};
use crate::types::Serialize;
use vstd::prelude::*;

verus! {

/// The kind of request that the message `msg` announces.
pub open spec fn api_key_of(msg: Seq<u8>) -> Result<ApiKey, ProcessError> {
    match parse_header(msg, 0) {
        Some((h, _)) => match ApiKey::spec_from_code(h.request_api_key) {
            Some(k) => Ok(k),
            None => Err(ProcessError::UnsupportedApiKey(UnsupportedApiKeyError(h.request_api_key))),
        },
        None => Err(ProcessError::MalformedRequest),
    }
}

/// The encoded response to the message `msg`, given the bytes of the
/// cluster-metadata log (read only by the kinds that need it), or why there
/// is none.
pub open spec fn response_for(msg: Seq<u8>, log: Seq<u8>) -> Result<Seq<u8>, ProcessError> {
    match api_key_of(msg) {
        Err(e) => Err(e),
        Ok(ApiKey::ApiVersions) => {
            let h = parse_header(msg, 0).unwrap().0;
            Ok(
                ApiVersionsResponseV3::wire(
                    api_versions_response(h.correlation_id, h.request_api_version),
                ),
            )
        },
        Ok(ApiKey::DescribeTopicPartitions) => match parse_describe_topic_partitions(msg, 0) {
            None => Err(ProcessError::MalformedRequest),
            Some((req, _)) => match parse_batches(log, 0) {
                None => Err(ProcessError::MalformedMetadata),
                Some(bs) => Ok(DescribeTopicPartitionsResponseV0::wire(describe_response(req, bs))),
            },
        },
        Ok(ApiKey::Fetch) => match parse_fetch(msg, 0) {
            None => Err(ProcessError::MalformedRequest),
            Some((req, _)) => match parse_batches(log, 0) {
                None => Err(ProcessError::MalformedMetadata),
                Some(bs) => Ok(FetchResponseV16::wire(fetch_response(req, bs))),
            },
        },
    }
}

/// The kind of request that a message announces.
pub fn request_api_key(msg: &[u8]) -> (r: Result<ApiKey, ProcessError>)
    ensures
        r == api_key_of(msg@),
{
    match HeaderV2::from_bytes(msg) {
        Ok(header) => match ApiKey::from_code(header.request_api_key) {
            Some(k) => Ok(k),
            None => Err(ProcessError::UnsupportedApiKey(UnsupportedApiKeyError(header.request_api_key))),
        },
        Err(e) => Err(e),
    }
}

/// Answers the message `msg` (a request without its size prefix). The bytes
/// of the cluster-metadata log are read only for the kinds of request that
/// need them.
pub fn process(msg: &[u8], metadata_log: &[u8]) -> (r: Result<Vec<u8>, ProcessError>)
    ensures
        match response_for(msg@, metadata_log@) {
            Ok(b) => r is Ok && r.unwrap()@ == b,
            Err(e) => r == Err::<Vec<u8>, ProcessError>(e),
        },
{
    let key = match request_api_key(msg) {
        Ok(k) => k,
        Err(e) => return Err(e),
    };
    let out = match key {
        ApiKey::ApiVersions => {
            let req = match ApiVersionsRequest::from_bytes(msg) {
                Ok(req) => req,
                Err(e) => return Err(e),
            };
            let resp = req.process();
            resp.as_bytes()
        },
        ApiKey::DescribeTopicPartitions => {
            let req = match DescribeTopicPartitionsRequestV0::from_bytes(msg) {
                Ok(req) => req,
                Err(e) => return Err(e),
            };
            let batches = match RecordBatches::from_bytes(metadata_log) {
                Ok(b) => b,
                Err(e) => return Err(e),
            };
            proof {
                lemma_describe_response_valid(req@, batches@);
            }
            let resp = topic_partitions::process(req, &batches);
            resp.as_bytes()
        },
        ApiKey::Fetch => {
            let req = match FetchRequestV16::from_bytes(msg) {
                Ok(req) => req,
                Err(e) => return Err(e),
            };
            let batches = match RecordBatches::from_bytes(metadata_log) {
                Ok(b) => b,
                Err(e) => return Err(e),
            };
            proof {
                lemma_fetch_topic_ids(msg@, 0);
                let v = fetch_response(req@, batches@);
                assert forall|i: int| 0 <= i < v.responses.len() implies TopicResponse::valid(
                    #[trigger] v.responses[i],
                ) by {
                    assert(v.responses[i].topic_id == req@.topics[i].topic_id);
                }
            }
            let resp = fetch_responses::process(req, &batches);
            resp.as_bytes()
        },
    };
    proof {
        assert(out@ =~= response_for(msg@, metadata_log@).unwrap());
    }
    Ok(out)
}

/// The same message over the same log bytes always gets the same answer,
/// byte for byte: `process` returns `response_for`, a function of the two
/// byte sequences alone.
pub proof fn handler_determinism(msg1: Seq<u8>, log1: Seq<u8>, msg2: Seq<u8>, log2: Seq<u8>)
    requires
        msg1 == msg2,
        log1 == log2,
    ensures
        response_for(msg1, log1) == response_for(msg2, log2),
{
}

} // verus!
