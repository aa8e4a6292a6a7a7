//! The Fetch handler: for each requested partition, the first batch of the
//! cluster-metadata log that records its topic, passed through as it stands.

use crate::protocol::ErrorCode;
use crate::record_batch::{first_batch_with_topic, RecordBatchView, RecordBatches};
use crate::request::{FetchRequestV16, FetchRequestView, Partition, TopicRequest, TopicRequestView};
use crate::response::{
    AbortedTransaction, BatchBytes, FetchResponseV16, FetchResponseView, TopicPartition,
    TopicPartitionView, TopicResponse, TopicResponseView,
};
use crate::types::views;
use vstd::prelude::*;

verus! {

/// The answer for one requested partition of the topic with id `topic_id`.
/// Which partition was asked for does not change which batch is returned.
pub open spec fn fetch_partition(topic_id: Seq<char>, part: Partition, log: Seq<RecordBatchView>) -> TopicPartitionView {
    let found = first_batch_with_topic(log, topic_id);
    TopicPartitionView {
        partition_index: part.partition,
        error_code: if found is Some {
            ErrorCode::NoError
        } else {
            ErrorCode::UnknownTopicId
        },
        high_watermark: 0,
        last_stable_offset: 0,
        log_start_offset: 0,
        aborted_transactions: Seq::empty(),
        preferred_read_replica: 0,
        record_batches: match found {
            Some(i) => log[i].raw,
            None => Seq::empty(),
        },
    }
}

pub open spec fn fetch_topic(t: TopicRequestView, log: Seq<RecordBatchView>) -> TopicResponseView {
    TopicResponseView {
        topic_id: t.topic_id,
        partitions: t.partitions.map_values(|p: Partition| fetch_partition(t.topic_id, p, log)),
    }
}

/// The response to a Fetch request over a log.
pub open spec fn fetch_response(req: FetchRequestView, log: Seq<RecordBatchView>) -> FetchResponseView {
    FetchResponseView {
        correlation_id: req.header.correlation_id,
        throttle_time_ms: 0,
        error_code: ErrorCode::NoError,
        session_id: req.session_id,
        responses: req.topics.map_values(|t: TopicRequestView| fetch_topic(t, log)),
    }
}

fn fetch_one(topic_id: &String, part: &Partition, batches: &RecordBatches) -> (r: TopicPartition)
    ensures
        r@ == fetch_partition(topic_id@, *part, batches@),
{
    let (error_code, bytes) = match batches.raw_batch_for_topic(topic_id.as_str(), part.partition) {
        Some(raw) => (ErrorCode::NoError, raw),
        None => (ErrorCode::UnknownTopicId, Vec::new()),
    };
    let r = TopicPartition {
        partition_index: part.partition,
        error_code,
        high_watermark: 0,
        last_stable_offset: 0,
        log_start_offset: 0,
        aborted_transactions: Vec::new(),
        preferred_read_replica: 0,
        record_batches: BatchBytes { bytes },
    };
    proof {
        assert(r@.aborted_transactions =~= Seq::<AbortedTransaction>::empty());
        assert(r@.record_batches =~= fetch_partition(topic_id@, *part, batches@).record_batches);
    }
    r
}

fn fetch_topic_partitions(t: &TopicRequest, batches: &RecordBatches) -> (r: TopicResponse)
    ensures
        r@ == fetch_topic(t@, batches@),
{
    let mut partitions: Vec<TopicPartition> = Vec::new();
    let mut k: usize = 0;
    while k < t.partitions.len()
        invariant
            k <= t.partitions@.len(),
            views(partitions@) =~= views(t.partitions@).take(k as int).map_values(
                |p: Partition| fetch_partition(t.topic_id@, p, batches@),
            ),
        decreases t.partitions@.len() - k,
    {
        let tp = fetch_one(&t.topic_id, &t.partitions[k], batches);
        let ghost before = partitions@;
        let ghost tv = tp@;
        partitions.push(tp);
        proof {
            assert(views(partitions@) =~= views(before).push(tv));
            assert(views(t.partitions@).take(k + 1).map_values(
                |p: Partition| fetch_partition(t.topic_id@, p, batches@),
            ) =~= views(t.partitions@).take(k as int).map_values(
                |p: Partition| fetch_partition(t.topic_id@, p, batches@),
            ).push(fetch_partition(t.topic_id@, t.partitions@[k as int], batches@)));
        }
        k = k + 1;
    }
    proof {
        assert(views(t.partitions@).take(t.partitions@.len() as int) =~= views(t.partitions@));
    }
    TopicResponse::new(t.topic_id.clone(), partitions)
}

/// Answers a Fetch request from the batches of the log.
pub fn process(req: FetchRequestV16, batches: &RecordBatches) -> (r: FetchResponseV16)
    ensures
        r@ == fetch_response(req@, batches@),
{
    let mut responses: Vec<TopicResponse> = Vec::new();
    let mut i: usize = 0;
    while i < req.topics.len()
        invariant
            i <= req.topics@.len(),
            views(responses@) =~= views(req.topics@).take(i as int).map_values(
                |t: TopicRequestView| fetch_topic(t, batches@),
            ),
        decreases req.topics@.len() - i,
    {
        let tr = fetch_topic_partitions(&req.topics[i], batches);
        let ghost before = responses@;
        let ghost tv = tr@;
        responses.push(tr);
        proof {
            assert(views(responses@) =~= views(before).push(tv));
            assert(views(req.topics@).take(i + 1).map_values(|t: TopicRequestView| fetch_topic(t, batches@))
                =~= views(req.topics@).take(i as int).map_values(
                |t: TopicRequestView| fetch_topic(t, batches@),
            ).push(fetch_topic(req.topics@[i as int]@, batches@)));
        }
        i = i + 1;
    }
    proof {
        assert(views(req.topics@).take(req.topics@.len() as int) =~= views(req.topics@));
    }
    FetchResponseV16::new(req.header.correlation_id, req.session_id, responses)
}

} // verus!
