//! The DescribeTopicPartitions handler: each requested topic, in request
//! order, with its partitions from the cluster-metadata log.

use crate::protocol::ErrorCode;
use crate::record_batch::{
    lemma_topic_id_named_is_uuid, log_values, partitions_of, topic_id_named, topic_ids_are_uuids, PartitionValue, PartitionValueView,
    RecordBatchView, RecordBatches, RecordValueView,
};
use crate::request::{DescribeTopicPartitionsRequestV0, DescribeTopicPartitionsRequestView};
use crate::response::{
    DescribeTopicPartitionsResponseV0, DescribeTopicPartitionsResponseView, Partition,
    PartitionView, Topic, TopicView,
};
use crate::types::{is_uuid_char, is_uuid_dash, is_uuid_text, views, Serialize};
use vstd::utf8::is_ascii_chars;
use vstd::prelude::*;
use vstd::slice::slice_to_vec;

verus! {

/// The operations that a client may perform on a known topic, as a bit field.
pub const TOPIC_AUTHORIZED_OPERATIONS: i32 = 0x0df;

/// The id given for a topic that the log does not know.
pub open spec fn unknown_topic_id() -> Seq<char> {
    Seq::new(36, |i: int| if is_uuid_dash(i) { '-' } else { '0' })
}

/// A partition record as the response describes it. The eligible leader
/// replicas are the replicas being added, and the offline replicas those
/// being removed.
pub open spec fn partition_info(p: PartitionValueView) -> PartitionView {
    PartitionView {
        error_code: ErrorCode::NoError,
        partition_index: p.partition_id,
        leader_id: p.leader_id,
        leader_epoch: p.leader_epoch,
        replicas: p.replicas,
        in_sync_replicas: p.in_sync_replicas,
        eligible_leader_replicas: p.adding_replicas,
        last_known_eligible_leader_replicas: Seq::empty(),
        off_line_replicas: p.removing_replicas,
    }
}

/// The description of the topic named `name` among the log's values.
pub open spec fn topic_info(name: Seq<char>, vs: Seq<RecordValueView>) -> TopicView {
    match topic_id_named(vs, name) {
        Some(id) => TopicView {
            error_code: ErrorCode::NoError,
            name,
            topic_id: id,
            is_internal: false,
            partitions: partitions_of(vs, id).map_values(|p: PartitionValueView| partition_info(p)),
            topic_authorized_operations: TOPIC_AUTHORIZED_OPERATIONS,
        },
        None => TopicView {
            error_code: ErrorCode::UnknownTopicOrPartition,
            name,
            topic_id: unknown_topic_id(),
            is_internal: false,
            partitions: Seq::empty(),
            topic_authorized_operations: TOPIC_AUTHORIZED_OPERATIONS,
        },
    }
}

/// The response to a request over a log.
pub open spec fn describe_response(
    req: DescribeTopicPartitionsRequestView,
    log: Seq<RecordBatchView>,
) -> DescribeTopicPartitionsResponseView {
    DescribeTopicPartitionsResponseView {
        correlation_id: req.header.correlation_id,
        throttle_time_ms: 0,
        topics: req.topics.map_values(|name: Seq<char>| topic_info(name, log_values(log))),
        next_cursor: 0xff,
    }
}

fn unknown_topic_id_text() -> (r: String)
    ensures
        r@ == unknown_topic_id(),
{
    let t = "00000000-0000-0000-0000-000000000000";
    proof {
        reveal_strlit("00000000-0000-0000-0000-000000000000");
        assert(t@ =~= unknown_topic_id());
    }
    t.to_owned()
}

fn partition_from_record(p: &PartitionValue) -> (r: Partition)
    ensures
        r@ == partition_info(p@),
{
    let r = Partition::new(
        ErrorCode::NoError,
        p.partition_id,
        p.leader_id,
        p.leader_epoch,
        slice_to_vec(p.replicas.as_slice()),
        slice_to_vec(p.in_sync_replicas.as_slice()),
        slice_to_vec(p.adding_replicas.as_slice()),
        Vec::new(),
        slice_to_vec(p.removing_replicas.as_slice()),
    );
    proof {
        assert(r@.last_known_eligible_leader_replicas =~= Seq::<u32>::empty());
    }
    r
}

/// Describes the topic named `name`.
fn describe_topic(name: &String, batches: &RecordBatches) -> (r: Topic)
    ensures
        r@ == topic_info(name@, log_values(batches@)),
{
    match batches.find_topic(name) {
        Some((topic_id, records)) => {
            let mut partitions: Vec<Partition> = Vec::new();
            let mut k: usize = 0;
            while k < records.len()
                invariant
                    k <= records@.len(),
                    views(partitions@) =~= views(records@).take(k as int).map_values(
                        |p: PartitionValueView| partition_info(p),
                    ),
                decreases records@.len() - k,
            {
                let pi = partition_from_record(&records[k]);
                let ghost before = partitions@;
                let ghost pv = pi@;
                partitions.push(pi);
                proof {
                    assert(views(partitions@) =~= views(before).push(pv));
                    assert(views(records@).take(k + 1).map_values(|p: PartitionValueView| partition_info(p))
                        =~= views(records@).take(k as int).map_values(
                        |p: PartitionValueView| partition_info(p),
                    ).push(partition_info(records@[k as int]@)));
                }
                k = k + 1;
            }
            proof {
                assert(views(records@).take(records@.len() as int) =~= views(records@));
            }
            Topic {
                error_code: ErrorCode::NoError,
                name: name.clone(),
                topic_id,
                is_internal: false,
                partitions,
                topic_authorized_operations: TOPIC_AUTHORIZED_OPERATIONS,
            }
        },
        None => {
            let r = Topic {
                error_code: ErrorCode::UnknownTopicOrPartition,
                name: name.clone(),
                topic_id: unknown_topic_id_text(),
                is_internal: false,
                partitions: Vec::new(),
                topic_authorized_operations: TOPIC_AUTHORIZED_OPERATIONS,
            };
            proof {
                assert(r@.partitions =~= Seq::<PartitionView>::empty());
            }
            r
        },
    }
}

/// Answers a DescribeTopicPartitions request from the batches of the log.
pub fn process(req: DescribeTopicPartitionsRequestV0, batches: &RecordBatches) -> (r: DescribeTopicPartitionsResponseV0)
    ensures
        r@ == describe_response(req@, batches@),
{
    let mut topics: Vec<Topic> = Vec::new();
    let mut i: usize = 0;
    while i < req.topics.len()
        invariant
            i <= req.topics@.len(),
            views(topics@) =~= views(req.topics@).take(i as int).map_values(
                |name: Seq<char>| topic_info(name, log_values(batches@)),
            ),
        decreases req.topics@.len() - i,
    {
        let t = describe_topic(&req.topics[i], batches);
        let ghost before = topics@;
        let ghost tv = t@;
        topics.push(t);
        proof {
            assert(views(topics@) =~= views(before).push(tv));
            assert(views(req.topics@).take(i + 1).map_values(
                |name: Seq<char>| topic_info(name, log_values(batches@)),
            ) =~= views(req.topics@).take(i as int).map_values(
                |name: Seq<char>| topic_info(name, log_values(batches@)),
            ).push(topic_info(req.topics@[i as int]@, log_values(batches@))));
        }
        i = i + 1;
    }
    proof {
        assert(views(req.topics@).take(req.topics@.len() as int) =~= views(req.topics@));
    }
    DescribeTopicPartitionsResponseV0::new(req.header.correlation_id, topics)
}

/// Over a log whose topic ids are UUID text, every response has an encoding.
pub proof fn lemma_describe_response_valid(req: DescribeTopicPartitionsRequestView, log: Seq<RecordBatchView>)
    requires
        topic_ids_are_uuids(log_values(log)),
    ensures
        DescribeTopicPartitionsResponseV0::valid(describe_response(req, log)),
{
    let v = describe_response(req, log);
    assert(is_uuid_text(unknown_topic_id())) by {
        let t = unknown_topic_id();
        assert forall|i: int| 0 <= i < 36 implies is_uuid_char(i, #[trigger] t[i]) && '\0' <= t[i] <= '\u{7f}' by {
            if is_uuid_dash(i) {
                assert(t[i] == '-');
            } else {
                assert(t[i] == '0');
            }
        }
        assert(is_ascii_chars(t)) by {
            assert forall|i: int| 0 <= i < t.len() implies '\0' <= #[trigger] t[i] <= '\u{7f}' by {
                assert(is_uuid_char(i, t[i]));
            }
        }
    }
    assert forall|i: int| 0 <= i < v.topics.len() implies Topic::valid(#[trigger] v.topics[i]) by {
        lemma_topic_id_named_is_uuid(log_values(log), req.topics[i]);
    }
}

} // verus!
