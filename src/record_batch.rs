//! The reader of the KRaft cluster-metadata log: a run of record batches,
//! each holding records whose values describe topics, partitions and feature
//! levels.

use crate::error::ProcessError;
use crate::types::{
    is_uuid_text, lemma_elems_satisfy, lemma_parse_uuid_is_uuid, parse_elems,
    parse_array, parse_compact_bytes, parse_compact_len, parse_i16, parse_i32, parse_i64, parse_i8,
    parse_varint, read_i16, read_i32, read_i64, read_i8, Array, CompactNullableBytes,
    Deserialize, VarInt,
    parse_compact_array, parse_compact_string, parse_tag_buffer, parse_u16, parse_u32, parse_u8,
    parse_uuid, read_as, read_u16, read_u32, read_u8, views, CompactArray, CompactString,
    TaggedFields, Uuid,
};
use vstd::prelude::*;
use vstd::slice::{slice_subrange, slice_to_vec};

verus! {

// ---------------------------------------------------------------------------
// Typed record values.

/// A topic: its name and id.
pub struct TopicValue {
    pub topic_name: String,
    pub topic_id: String,
}

pub struct TopicValueView {
    pub topic_name: Seq<char>,
    pub topic_id: Seq<char>,
}

impl View for TopicValue {
    type V = TopicValueView;

    open spec fn view(&self) -> TopicValueView {
        TopicValueView { topic_name: self.topic_name@, topic_id: self.topic_id@ }
    }
}

/// A partition of a topic, with its replica sets and leader.
pub struct PartitionValue {
    pub partition_id: u32,
    pub topic_id: String,
    pub replicas: Vec<u32>,
    /// The in-sync replicas.
    pub in_sync_replicas: Vec<u32>,
    /// The replicas being removed.
    pub removing_replicas: Vec<u32>,
    /// The replicas being added.
    pub adding_replicas: Vec<u32>,
    pub leader_id: u32,
    pub leader_epoch: u32,
    pub partition_epoch: u32,
    pub directories: Vec<String>,
}

pub struct PartitionValueView {
    pub partition_id: u32,
    pub topic_id: Seq<char>,
    pub replicas: Seq<u32>,
    pub in_sync_replicas: Seq<u32>,
    pub removing_replicas: Seq<u32>,
    pub adding_replicas: Seq<u32>,
    pub leader_id: u32,
    pub leader_epoch: u32,
    pub partition_epoch: u32,
    pub directories: Seq<Seq<char>>,
}

impl View for PartitionValue {
    type V = PartitionValueView;

    open spec fn view(&self) -> PartitionValueView {
        PartitionValueView {
            partition_id: self.partition_id,
            topic_id: self.topic_id@,
            replicas: self.replicas@,
            in_sync_replicas: self.in_sync_replicas@,
            removing_replicas: self.removing_replicas@,
            adding_replicas: self.adding_replicas@,
            leader_id: self.leader_id,
            leader_epoch: self.leader_epoch,
            partition_epoch: self.partition_epoch,
            directories: views(self.directories@),
        }
    }
}

fn copy_strings(v: &Vec<String>) -> (r: Vec<String>)
    ensures
        views(r@) == views(v@),
{
    let mut r: Vec<String> = Vec::new();
    let mut i: usize = 0;
    while i < v.len()
        invariant
            i <= v@.len(),
            views(r@) =~= views(v@).take(i as int),
        decreases v@.len() - i,
    {
        let ghost before = r@;
        let c = v[i].clone();
        r.push(c);
        proof {
            assert(r@ =~= before.push(c));
            assert(views(r@) =~= views(before).push(c@));
        }
        i = i + 1;
    }
    assert(views(v@).take(v@.len() as int) =~= views(v@));
    r
}

impl PartitionValue {
    /// A copy of this value.
    pub fn copy(&self) -> (r: PartitionValue)
        ensures
            r@ == self@,
    {
        PartitionValue {
            partition_id: self.partition_id,
            topic_id: self.topic_id.clone(),
            replicas: slice_to_vec(self.replicas.as_slice()),
            in_sync_replicas: slice_to_vec(self.in_sync_replicas.as_slice()),
            removing_replicas: slice_to_vec(self.removing_replicas.as_slice()),
            adding_replicas: slice_to_vec(self.adding_replicas.as_slice()),
            leader_id: self.leader_id,
            leader_epoch: self.leader_epoch,
            partition_epoch: self.partition_epoch,
            directories: copy_strings(&self.directories),
        }
    }
}

/// A feature and its level.
pub struct FeatureLevelValue {
    pub name: String,
    pub level: u16,
}

pub struct FeatureLevelValueView {
    pub name: Seq<char>,
    pub level: u16,
}

impl View for FeatureLevelValue {
    type V = FeatureLevelValueView;

    open spec fn view(&self) -> FeatureLevelValueView {
        FeatureLevelValueView { name: self.name@, level: self.level }
    }
}

/// The value of a metadata record, by record type.
pub enum RecordValue {
    FeatureLevel(FeatureLevelValue),
    Topic(TopicValue),
    Partition(PartitionValue),
}

pub enum RecordValueView {
    FeatureLevel(FeatureLevelValueView),
    Topic(TopicValueView),
    Partition(PartitionValueView),
}

impl View for RecordValue {
    type V = RecordValueView;

    open spec fn view(&self) -> RecordValueView {
        match self {
            RecordValue::FeatureLevel(v) => RecordValueView::FeatureLevel(v@),
            RecordValue::Topic(v) => RecordValueView::Topic(v@),
            RecordValue::Partition(v) => RecordValueView::Partition(v@),
        }
    }
}

/// The record types that the reader knows.
pub const TOPIC_RECORD: u8 = 2;

pub const PARTITION_RECORD: u8 = 3;

pub const FEATURE_LEVEL_RECORD: u8 = 12;

/// The body of a topic record (version 0).
pub open spec fn parse_topic_value(s: Seq<u8>, p: int) -> Option<(TopicValueView, int)> {
    match parse_u8(s, p) {
        Some((version, p)) => if version != 0 {
            None
        } else {
            match parse_compact_string(s, p) {
                Some((topic_name, p)) => match parse_uuid(s, p) {
                    Some((topic_id, p)) => match parse_tag_buffer(s, p) {
                        Some(p) => Some((TopicValueView { topic_name, topic_id }, p)),
                        None => None,
                    },
                    None => None,
                },
                None => None,
            }
        },
        None => None,
    }
}

/// The body of a partition record (version 1).
pub open spec fn parse_partition_value(s: Seq<u8>, p: int) -> Option<(PartitionValueView, int)> {
    match parse_u8(s, p) {
        Some((version, p)) => if version != 1 {
            None
        } else {
            match parse_u32(s, p) {
                Some((partition_id, p)) => match parse_uuid(s, p) {
                    Some((topic_id, p)) => match parse_compact_array::<u32, u32>(s, p) {
                        Some((replicas, p)) => match parse_compact_array::<u32, u32>(s, p) {
                            Some((in_sync_replicas, p)) => match parse_compact_array::<u32, u32>(s, p) {
                                Some((removing_replicas, p)) => match parse_compact_array::<u32, u32>(s, p) {
                                    Some((adding_replicas, p)) => parse_partition_tail(
                                        s,
                                        p,
                                        partition_id,
                                        topic_id,
                                        replicas,
                                        in_sync_replicas,
                                        removing_replicas,
                                        adding_replicas,
                                    ),
                                    None => None,
                                },
                                None => None,
                            },
                            None => None,
                        },
                        None => None,
                    },
                    None => None,
                },
                None => None,
            }
        },
        None => None,
    }
}

/// The fields of a partition record after its replica sets.
pub open spec fn parse_partition_tail(
    s: Seq<u8>,
    p: int,
    partition_id: u32,
    topic_id: Seq<char>,
    replicas: Seq<u32>,
    in_sync_replicas: Seq<u32>,
    removing_replicas: Seq<u32>,
    adding_replicas: Seq<u32>,
) -> Option<(PartitionValueView, int)> {
    match parse_u32(s, p) {
        Some((leader_id, p)) => match parse_u32(s, p) {
            Some((leader_epoch, p)) => match parse_u32(s, p) {
                Some((partition_epoch, p)) => match parse_compact_array::<String, Uuid>(s, p) {
                    Some((directories, p)) => match parse_tag_buffer(s, p) {
                        Some(p) => Some(
                            (
                                PartitionValueView {
                                    partition_id,
                                    topic_id,
                                    replicas,
                                    in_sync_replicas,
                                    removing_replicas,
                                    adding_replicas,
                                    leader_id,
                                    leader_epoch,
                                    partition_epoch,
                                    directories,
                                },
                                p,
                            ),
                        ),
                        None => None,
                    },
                    None => None,
                },
                None => None,
            },
            None => None,
        },
        None => None,
    }
}

/// The body of a feature-level record (version 0).
pub open spec fn parse_feature_level_value(s: Seq<u8>, p: int) -> Option<(FeatureLevelValueView, int)> {
    match parse_u8(s, p) {
        Some((version, p)) => if version != 0 {
            None
        } else {
            match parse_compact_string(s, p) {
                Some((name, p)) => match parse_u16(s, p) {
                    Some((level, p)) => match parse_tag_buffer(s, p) {
                        Some(p) => Some((FeatureLevelValueView { name, level }, p)),
                        None => None,
                    },
                    None => None,
                },
                None => None,
            }
        },
        None => None,
    }
}

/// A record value: frame version 1, the record type, then the body of that
/// type.
pub open spec fn parse_record_value(s: Seq<u8>, p: int) -> Option<(RecordValueView, int)> {
    match parse_u8(s, p) {
        Some((frame_version, p)) => if frame_version != 1 {
            None
        } else {
            match parse_u8(s, p) {
                Some((record_type, p)) => if record_type == TOPIC_RECORD {
                    match parse_topic_value(s, p) {
                        Some((v, p)) => Some((RecordValueView::Topic(v), p)),
                        None => None,
                    }
                } else if record_type == PARTITION_RECORD {
                    match parse_partition_value(s, p) {
                        Some((v, p)) => Some((RecordValueView::Partition(v), p)),
                        None => None,
                    }
                } else if record_type == FEATURE_LEVEL_RECORD {
                    match parse_feature_level_value(s, p) {
                        Some((v, p)) => Some((RecordValueView::FeatureLevel(v), p)),
                        None => None,
                    }
                } else {
                    None
                },
                None => None,
            }
        },
        None => None,
    }
}

impl TopicValue {
    fn from_bytes(buf: &[u8], p: usize) -> (r: Option<(TopicValue, usize)>)
        ensures
            read_as(r, parse_topic_value(buf@, p as int)),
    {
        let (version, p) = match read_u8(buf, p) {
            Some(x) => x,
            None => return None,
        };
        if version != 0 {
            return None;
        }
        let (topic_name, p) = match CompactString::deserialize(buf, p) {
            Some(x) => x,
            None => return None,
        };
        let (topic_id, p) = match Uuid::deserialize(buf, p) {
            Some(x) => x,
            None => return None,
        };
        let p = match TaggedFields::deserialize(buf, p) {
            Some(x) => x,
            None => return None,
        };
        Some((TopicValue { topic_name, topic_id }, p))
    }
}

impl PartitionValue {
    fn from_bytes(buf: &[u8], p: usize) -> (r: Option<(PartitionValue, usize)>)
        ensures
            read_as(r, parse_partition_value(buf@, p as int)),
    {
        let (version, p) = match read_u8(buf, p) {
            Some(x) => x,
            None => return None,
        };
        if version != 1 {
            return None;
        }
        let (partition_id, p) = match read_u32(buf, p) {
            Some(x) => x,
            None => return None,
        };
        let (topic_id, p) = match Uuid::deserialize(buf, p) {
            Some(x) => x,
            None => return None,
        };
        let (replicas, p) = match CompactArray::deserialize::<u32, u32>(buf, p) {
            Some(x) => x,
            None => return None,
        };
        let (in_sync_replicas, p) = match CompactArray::deserialize::<u32, u32>(buf, p) {
            Some(x) => x,
            None => return None,
        };
        let (removing_replicas, p) = match CompactArray::deserialize::<u32, u32>(buf, p) {
            Some(x) => x,
            None => return None,
        };
        let (adding_replicas, p) = match CompactArray::deserialize::<u32, u32>(buf, p) {
            Some(x) => x,
            None => return None,
        };
        proof {
            assert(views(replicas@) =~= replicas@);
            assert(views(in_sync_replicas@) =~= in_sync_replicas@);
            assert(views(removing_replicas@) =~= removing_replicas@);
            assert(views(adding_replicas@) =~= adding_replicas@);
        }
        let (leader_id, p) = match read_u32(buf, p) {
            Some(x) => x,
            None => return None,
        };
        let (leader_epoch, p) = match read_u32(buf, p) {
            Some(x) => x,
            None => return None,
        };
        let (partition_epoch, p) = match read_u32(buf, p) {
            Some(x) => x,
            None => return None,
        };
        let (directories, p) = match CompactArray::deserialize::<String, Uuid>(buf, p) {
            Some(x) => x,
            None => return None,
        };
        let p = match TaggedFields::deserialize(buf, p) {
            Some(x) => x,
            None => return None,
        };
        Some(
            (
                PartitionValue {
                    partition_id,
                    topic_id,
                    replicas,
                    in_sync_replicas,
                    removing_replicas,
                    adding_replicas,
                    leader_id,
                    leader_epoch,
                    partition_epoch,
                    directories,
                },
                p,
            ),
        )
    }
}

impl FeatureLevelValue {
    fn from_bytes(buf: &[u8], p: usize) -> (r: Option<(FeatureLevelValue, usize)>)
        ensures
            read_as(r, parse_feature_level_value(buf@, p as int)),
    {
        let (version, p) = match read_u8(buf, p) {
            Some(x) => x,
            None => return None,
        };
        if version != 0 {
            return None;
        }
        let (name, p) = match CompactString::deserialize(buf, p) {
            Some(x) => x,
            None => return None,
        };
        let (level, p) = match read_u16(buf, p) {
            Some(x) => x,
            None => return None,
        };
        let p = match TaggedFields::deserialize(buf, p) {
            Some(x) => x,
            None => return None,
        };
        Some((FeatureLevelValue { name, level }, p))
    }
}

impl RecordValue {
    pub fn from_bytes(buf: &[u8], p: usize) -> (r: Option<(RecordValue, usize)>)
        ensures
            read_as(r, parse_record_value(buf@, p as int)),
    {
        let (frame_version, p) = match read_u8(buf, p) {
            Some(x) => x,
            None => return None,
        };
        if frame_version != 1 {
            return None;
        }
        let (record_type, p) = match read_u8(buf, p) {
            Some(x) => x,
            None => return None,
        };
        if record_type == TOPIC_RECORD {
            match TopicValue::from_bytes(buf, p) {
                Some((v, p)) => Some((RecordValue::Topic(v), p)),
                None => None,
            }
        } else if record_type == PARTITION_RECORD {
            match PartitionValue::from_bytes(buf, p) {
                Some((v, p)) => Some((RecordValue::Partition(v), p)),
                None => None,
            }
        } else if record_type == FEATURE_LEVEL_RECORD {
            match FeatureLevelValue::from_bytes(buf, p) {
                Some((v, p)) => Some((RecordValue::FeatureLevel(v), p)),
                None => None,
            }
        } else {
            None
        }
    }
}

// ---------------------------------------------------------------------------
// Records.

/// A record of the log.
pub struct Record {
    /// The length of the record, from its attributes to its end.
    pub length: i64,
    /// Unused.
    pub attributes: i8,
    /// The record's timestamp less the batch's base timestamp.
    pub timestamp_delta: i64,
    /// The record's offset less the batch's base offset.
    pub offset_delta: i64,
    pub key: Vec<u8>,
    pub value_length: i64,
    pub value: RecordValue,
}

pub struct RecordView {
    pub length: i64,
    pub attributes: i8,
    pub timestamp_delta: i64,
    pub offset_delta: i64,
    pub key: Seq<u8>,
    pub value_length: i64,
    pub value: RecordValueView,
}

impl View for Record {
    type V = RecordView;

    open spec fn view(&self) -> RecordView {
        RecordView {
            length: self.length,
            attributes: self.attributes,
            timestamp_delta: self.timestamp_delta,
            offset_delta: self.offset_delta,
            key: self.key@,
            value_length: self.value_length,
            value: self.value@,
        }
    }
}

/// A record: its length, attributes, deltas, key and value, and an empty
/// array of headers.
pub open spec fn parse_record(s: Seq<u8>, p: int) -> Option<(RecordView, int)> {
    match parse_varint(s, p) {
        Some((length, p)) => match parse_i8(s, p) {
            Some((attributes, p)) => match parse_varint(s, p) {
                Some((timestamp_delta, p)) => match parse_varint(s, p) {
                    Some((offset_delta, p)) => match parse_compact_bytes(s, p) {
                        Some((key, p)) => match parse_varint(s, p) {
                            Some((value_length, p)) => match parse_record_value(s, p) {
                                Some((value, p)) => match parse_compact_len(s, p) {
                                    Some((headers, p)) => if headers == 0 {
                                        Some(
                                            (
                                                RecordView {
                                                    length,
                                                    attributes,
                                                    timestamp_delta,
                                                    offset_delta,
                                                    key,
                                                    value_length,
                                                    value,
                                                },
                                                p,
                                            ),
                                        )
                                    } else {
                                        None
                                    },
                                    None => None,
                                },
                                None => None,
                            },
                            None => None,
                        },
                        None => None,
                    },
                    None => None,
                },
                None => None,
            },
            None => None,
        },
        None => None,
    }
}

impl Record {
    pub fn from_bytes(buf: &[u8], p: usize) -> (r: Option<(Record, usize)>)
        ensures
            read_as(r, parse_record(buf@, p as int)),
    {
        let (length, p) = match VarInt::deserialize(buf, p) {
            Some(x) => x,
            None => return None,
        };
        let (attributes, p) = match read_i8(buf, p) {
            Some(x) => x,
            None => return None,
        };
        let (timestamp_delta, p) = match VarInt::deserialize(buf, p) {
            Some(x) => x,
            None => return None,
        };
        let (offset_delta, p) = match VarInt::deserialize(buf, p) {
            Some(x) => x,
            None => return None,
        };
        let (key, p) = match CompactNullableBytes::deserialize(buf, p) {
            Some(x) => x,
            None => return None,
        };
        let (value_length, p) = match VarInt::deserialize(buf, p) {
            Some(x) => x,
            None => return None,
        };
        let (value, p) = match RecordValue::from_bytes(buf, p) {
            Some(x) => x,
            None => return None,
        };
        let (headers, p) = match VarInt::deserialize(buf, p) {
            Some(x) => x,
            None => return None,
        };
        if headers > 1 {
            return None;
        }
        Some((Record { length, attributes, timestamp_delta, offset_delta, key, value_length, value }, p))
    }
}

impl Deserialize<Record> for Record {
    open spec fn parse(s: Seq<u8>, p: int) -> Option<(RecordView, int)> {
        parse_record(s, p)
    }

    fn deserialize(buf: &[u8], p: usize) -> (r: Option<(Record, usize)>) {
        Record::from_bytes(buf, p)
    }
}

// ---------------------------------------------------------------------------
// Record batches.

/// The bytes of a batch before its `batch_length` count starts.
pub const BATCH_PREFIX_LEN: usize = 12;

/// A record batch, with the bytes that it occupied in the log.
pub struct RecordBatch {
    /// The offset of the first record.
    pub base_offset: i64,
    /// The bytes that follow this field and the base offset.
    pub batch_length: i32,
    pub partition_leader_epoch: i32,
    /// The version of the batch format.
    pub magic: i8,
    /// The CRC-32C of the rest of the batch (not checked).
    pub crc: u32,
    pub attributes: i16,
    pub last_offset_delta: i32,
    pub base_timestamp: i64,
    pub max_timestamp: i64,
    pub producer_id: i64,
    pub producer_epoch: i16,
    pub base_sequence: i32,
    pub records: Vec<Record>,
    /// The batch exactly as it stands in the log.
    pub raw: Vec<u8>,
}

pub struct RecordBatchView {
    pub base_offset: i64,
    pub batch_length: i32,
    pub partition_leader_epoch: i32,
    pub magic: i8,
    pub crc: u32,
    pub attributes: i16,
    pub last_offset_delta: i32,
    pub base_timestamp: i64,
    pub max_timestamp: i64,
    pub producer_id: i64,
    pub producer_epoch: i16,
    pub base_sequence: i32,
    pub records: Seq<RecordView>,
    pub raw: Seq<u8>,
}

impl View for RecordBatch {
    type V = RecordBatchView;

    open spec fn view(&self) -> RecordBatchView {
        RecordBatchView {
            base_offset: self.base_offset,
            batch_length: self.batch_length,
            partition_leader_epoch: self.partition_leader_epoch,
            magic: self.magic,
            crc: self.crc,
            attributes: self.attributes,
            last_offset_delta: self.last_offset_delta,
            base_timestamp: self.base_timestamp,
            max_timestamp: self.max_timestamp,
            producer_id: self.producer_id,
            producer_epoch: self.producer_epoch,
            base_sequence: self.base_sequence,
            records: views(self.records@),
            raw: self.raw@,
        }
    }
}

/// The fields of a batch after its length, read from the batch's own bytes
/// `b`; the records end wherever they end inside the batch.
pub open spec fn parse_batch_body(b: Seq<u8>, base_offset: i64, batch_length: i32) -> Option<RecordBatchView> {
    match parse_i32(b, 12) {
        Some((partition_leader_epoch, p)) => match parse_i8(b, p) {
            Some((magic, p)) => match parse_u32(b, p) {
                Some((crc, p)) => match parse_i16(b, p) {
                    Some((attributes, p)) => match parse_i32(b, p) {
                        Some((last_offset_delta, p)) => match parse_i64(b, p) {
                            Some((base_timestamp, p)) => match parse_i64(b, p) {
                                Some((max_timestamp, p)) => match parse_i64(b, p) {
                                    Some((producer_id, p)) => match parse_i16(b, p) {
                                        Some((producer_epoch, p)) => match parse_i32(b, p) {
                                            Some((base_sequence, p)) => match parse_array::<Record, Record>(b, p) {
                                                Some((records, _)) => Some(
                                                    RecordBatchView {
                                                        base_offset,
                                                        batch_length,
                                                        partition_leader_epoch,
                                                        magic,
                                                        crc,
                                                        attributes,
                                                        last_offset_delta,
                                                        base_timestamp,
                                                        max_timestamp,
                                                        producer_id,
                                                        producer_epoch,
                                                        base_sequence,
                                                        records,
                                                        raw: b,
                                                    },
                                                ),
                                                None => None,
                                            },
                                            None => None,
                                        },
                                        None => None,
                                    },
                                    None => None,
                                },
                                None => None,
                            },
                            None => None,
                        },
                        None => None,
                    },
                    None => None,
                },
                None => None,
            },
            None => None,
        },
        None => None,
    }
}

/// A batch at `p`: its base offset and length, then `batch_length` bytes that
/// bound the rest of it.
pub open spec fn parse_record_batch(s: Seq<u8>, p: int) -> Option<(RecordBatchView, int)> {
    match parse_i64(s, p) {
        Some((base_offset, p1)) => match parse_i32(s, p1) {
            Some((batch_length, p2)) => if batch_length < 0 || p2 + batch_length > s.len() {
                None
            } else {
                match parse_batch_body(s.subrange(p, p2 + batch_length), base_offset, batch_length) {
                    Some(v) => Some((v, p2 + batch_length)),
                    None => None,
                }
            },
            None => None,
        },
        None => None,
    }
}

impl RecordBatch {
    pub fn from_bytes(buf: &[u8], p: usize) -> (r: Option<(RecordBatch, usize)>)
        ensures
            read_as(r, parse_record_batch(buf@, p as int)),
    {
        let start = p;
        let (base_offset, p) = match read_i64(buf, p) {
            Some(x) => x,
            None => return None,
        };
        let (batch_length, p) = match read_i32(buf, p) {
            Some(x) => x,
            None => return None,
        };
        if batch_length < 0 || batch_length as usize > buf.len() - p {
            return None;
        }
        let end = p + batch_length as usize;
        let b = slice_subrange(buf, start, end);
        let (partition_leader_epoch, p) = match read_i32(b, BATCH_PREFIX_LEN) {
            Some(x) => x,
            None => return None,
        };
        let (magic, p) = match read_i8(b, p) {
            Some(x) => x,
            None => return None,
        };
        let (crc, p) = match read_u32(b, p) {
            Some(x) => x,
            None => return None,
        };
        let (attributes, p) = match read_i16(b, p) {
            Some(x) => x,
            None => return None,
        };
        let (last_offset_delta, p) = match read_i32(b, p) {
            Some(x) => x,
            None => return None,
        };
        let (base_timestamp, p) = match read_i64(b, p) {
            Some(x) => x,
            None => return None,
        };
        let (max_timestamp, p) = match read_i64(b, p) {
            Some(x) => x,
            None => return None,
        };
        let (producer_id, p) = match read_i64(b, p) {
            Some(x) => x,
            None => return None,
        };
        let (producer_epoch, p) = match read_i16(b, p) {
            Some(x) => x,
            None => return None,
        };
        let (base_sequence, p) = match read_i32(b, p) {
            Some(x) => x,
            None => return None,
        };
        let (records, _) = match Array::deserialize::<Record, Record>(b, p) {
            Some(x) => x,
            None => return None,
        };
        let raw = slice_to_vec(b);
        Some(
            (
                RecordBatch {
                    base_offset,
                    batch_length,
                    partition_leader_epoch,
                    magic,
                    crc,
                    attributes,
                    last_offset_delta,
                    base_timestamp,
                    max_timestamp,
                    producer_id,
                    producer_epoch,
                    base_sequence,
                    records,
                    raw,
                },
                end,
            ),
        )
    }
}

// ---------------------------------------------------------------------------
// The whole log.

/// The batches from `p` to the end of `s`, in order.
pub open spec fn parse_batches(s: Seq<u8>, p: int) -> Option<Seq<RecordBatchView>>
    decreases (s.len() - p) as nat,
{
    if p >= s.len() {
        Some(Seq::empty())
    } else {
        match parse_record_batch(s, p) {
            Some((b, q)) => if q <= p {
                None
            } else {
                match parse_batches(s, q) {
                    Some(bs) => Some(seq![b] + bs),
                    None => None,
                }
            },
            None => None,
        }
    }
}

/// `xs` followed by what `o` holds, if it holds anything.
pub open spec fn prepend<V>(xs: Seq<V>, o: Option<Seq<V>>) -> Option<Seq<V>> {
    match o {
        Some(r) => Some(xs + r),
        None => None,
    }
}

/// The values of a run of records.
pub open spec fn record_values(rs: Seq<RecordView>) -> Seq<RecordValueView> {
    rs.map_values(|r: RecordView| r.value)
}

/// The values of all records of all batches, in log order.
pub open spec fn log_values(bs: Seq<RecordBatchView>) -> Seq<RecordValueView>
    decreases bs.len(),
{
    if bs.len() == 0 {
        Seq::empty()
    } else {
        log_values(bs.drop_last()) + record_values(bs.last().records)
    }
}

/// The id of the first topic named `name`.
pub open spec fn topic_id_named(vs: Seq<RecordValueView>, name: Seq<char>) -> Option<Seq<char>>
    decreases vs.len(),
{
    if vs.len() == 0 {
        None
    } else {
        match topic_id_named(vs.drop_last(), name) {
            Some(id) => Some(id),
            None => match vs.last() {
                RecordValueView::Topic(t) => if t.topic_name == name {
                    Some(t.topic_id)
                } else {
                    None
                },
                _ => None,
            },
        }
    }
}

/// The partitions of the topic with id `id`, in log order.
pub open spec fn partitions_of(vs: Seq<RecordValueView>, id: Seq<char>) -> Seq<PartitionValueView>
    decreases vs.len(),
{
    if vs.len() == 0 {
        Seq::empty()
    } else {
        partitions_of(vs.drop_last(), id) + match vs.last() {
            RecordValueView::Partition(pv) => if pv.topic_id == id {
                seq![pv]
            } else {
                Seq::empty()
            },
            _ => Seq::empty(),
        }
    }
}

/// Whether a topic record with id `id` stands among `vs`.
pub open spec fn has_topic_id(vs: Seq<RecordValueView>, id: Seq<char>) -> bool {
    exists|i: int| 0 <= i < vs.len() && is_topic_with_id(#[trigger] vs[i], id)
}

pub open spec fn is_topic_with_id(v: RecordValueView, id: Seq<char>) -> bool {
    match v {
        RecordValueView::Topic(t) => t.topic_id == id,
        _ => false,
    }
}

/// The index of the first batch that holds a topic record with id `id`.
pub open spec fn first_batch_with_topic(bs: Seq<RecordBatchView>, id: Seq<char>) -> Option<int>
    decreases bs.len(),
{
    if bs.len() == 0 {
        None
    } else {
        match first_batch_with_topic(bs.drop_last(), id) {
            Some(i) => Some(i),
            None => if has_topic_id(record_values(bs.last().records), id) {
                Some(bs.len() - 1)
            } else {
                None
            },
        }
    }
}

/// The batches of a cluster-metadata log.
pub struct RecordBatches {
    pub batches: Vec<RecordBatch>,
}

impl View for RecordBatches {
    type V = Seq<RecordBatchView>;

    open spec fn view(&self) -> Seq<RecordBatchView> {
        views(self.batches@)
    }
}

impl RecordBatches {
    /// Parses a whole log: batches one after the other until the bytes end.
    #[verifier::rlimit(40)]
    pub fn from_bytes(buf: &[u8]) -> (r: Result<RecordBatches, ProcessError>)
        ensures
            match parse_batches(buf@, 0) {
                Some(bs) => r is Ok && r.unwrap()@ == bs,
                None => r == Err::<RecordBatches, ProcessError>(ProcessError::MalformedMetadata),
            },
            r is Ok ==> topic_ids_are_uuids(log_values(r.unwrap()@)),
    {
        proof {
            lemma_parsed_log_ids(buf@);
        }
        let mut batches: Vec<RecordBatch> = Vec::new();
        let mut p: usize = 0;
        proof {
            match parse_batches(buf@, 0) {
                Some(r) => assert(Seq::<RecordBatchView>::empty() + r =~= r),
                None => {},
            }
        }
        while p < buf.len()
            invariant
                p <= buf@.len(),
                parse_batches(buf@, 0) == prepend(views(batches@), parse_batches(buf@, p as int)),
            decreases buf@.len() - p,
        {
            match RecordBatch::from_bytes(buf, p) {
                Some((b, q)) => {
                    let ghost before = batches@;
                    let ghost bv = b@;
                    proof {
                        match parse_batches(buf@, q as int) {
                            Some(r) => assert(views(before) + (seq![bv] + r) =~= views(before).push(bv) + r),
                            None => {},
                        }
                    }
                    batches.push(b);
                    proof {
                        assert(views(batches@) =~= views(before).push(bv));
                    }
                    p = q;
                },
                None => return Err(ProcessError::MalformedMetadata),
            }
        }
        proof {
            assert(views(batches@) + Seq::<RecordBatchView>::empty() =~= views(batches@));
        }
        Ok(RecordBatches { batches })
    }

    pub fn batches(&self) -> (r: &[RecordBatch])
        ensures
            r@ == self.batches@,
    {
        self.batches.as_slice()
    }

    /// The first batch that holds a topic record with id `topic_id`.
    pub fn batch_for_topic(&self, topic_id: &str) -> (r: Option<&RecordBatch>)
        ensures
            match first_batch_with_topic(self@, topic_id@) {
                Some(i) => r is Some && r.unwrap()@ == self@[i],
                None => r is None,
            },
    {
        let id = topic_id.to_owned();
        let mut i: usize = 0;
        while i < self.batches.len()
            invariant
                i <= self.batches@.len(),
                id@ == topic_id@,
                first_batch_with_topic(self@.take(i as int), topic_id@) is None,
            decreases self.batches@.len() - i,
        {
            let b = &self.batches[i];
            let found = has_topic_record(&b.records, &id);
            proof {
                assert(self@.take(i + 1).drop_last() =~= self@.take(i as int));
                lemma_first_batch_prefix(self@, topic_id@, i + 1);
            }
            if found {
                proof {
                    lemma_first_batch_extends(self@, topic_id@, i + 1);
                }
                return Some(b);
            }
            i = i + 1;
        }
        proof {
            assert(self@.take(self@.len() as int) =~= self@);
        }
        None
    }

    /// The bytes of the first batch that holds a topic record with id
    /// `topic_id`. The partition is not consulted.
    pub fn raw_batch_for_topic(&self, topic_id: &str, partition_id: u32) -> (r: Option<Vec<u8>>)
        ensures
            match first_batch_with_topic(self@, topic_id@) {
                Some(i) => r is Some && r.unwrap()@ == self@[i].raw,
                None => r is None,
            },
    {
        match self.batch_for_topic(topic_id) {
            Some(b) => Some(slice_to_vec(b.raw.as_slice())),
            None => None,
        }
    }
}

proof fn lemma_first_batch_prefix(bs: Seq<RecordBatchView>, id: Seq<char>, n: int)
    requires
        0 < n <= bs.len(),
        first_batch_with_topic(bs.take(n - 1), id) is None,
    ensures
        first_batch_with_topic(bs.take(n), id) == if has_topic_id(record_values(bs[n - 1].records), id) {
            Some(n - 1)
        } else {
            None::<int>
        },
{
    assert(bs.take(n).drop_last() =~= bs.take(n - 1));
}

proof fn lemma_first_batch_extends(bs: Seq<RecordBatchView>, id: Seq<char>, n: int)
    requires
        0 <= n <= bs.len(),
        first_batch_with_topic(bs.take(n), id) is Some,
    ensures
        first_batch_with_topic(bs, id) == first_batch_with_topic(bs.take(n), id),
    decreases bs.len() - n,
{
    if n == bs.len() {
        assert(bs.take(n) =~= bs);
    } else {
        assert(bs.drop_last().take(n) =~= bs.take(n));
        lemma_first_batch_extends(bs.drop_last(), id, n);
    }
}

/// Whether a topic record with id `id` stands among `records`.
fn has_topic_record(records: &Vec<Record>, id: &String) -> (r: bool)
    ensures
        r == has_topic_id(record_values(views(records@)), id@),
{
    let mut j: usize = 0;
    while j < records.len()
        invariant
            j <= records@.len(),
            forall|k: int| 0 <= k < j ==> !is_topic_with_id(#[trigger] record_values(views(records@))[k], id@),
        decreases records@.len() - j,
    {
        match &records[j].value {
            RecordValue::Topic(t) => {
                if t.topic_id == *id {
                    assert(is_topic_with_id(record_values(views(records@))[j as int], id@));
                    return true;
                }
            },
            _ => {},
        }
        j = j + 1;
    }
    false
}

/// The text that an optional string holds.
pub open spec fn opt_text(o: Option<String>) -> Option<Seq<char>> {
    match o {
        Some(t) => Some(t@),
        None => None,
    }
}

proof fn lemma_log_values_step(bs: Seq<RecordBatchView>, i: int, j: int)
    requires
        0 <= i < bs.len(),
        0 <= j < bs[i].records.len(),
    ensures
        log_values(bs.take(i)) + record_values(bs[i].records.take(j + 1)) == (log_values(bs.take(i))
            + record_values(bs[i].records.take(j))).push(bs[i].records[j].value),
{
    assert(record_values(bs[i].records.take(j + 1)) =~= record_values(bs[i].records.take(j)).push(
        bs[i].records[j].value,
    ));
    assert(log_values(bs.take(i)) + record_values(bs[i].records.take(j + 1)) =~= (log_values(bs.take(i))
        + record_values(bs[i].records.take(j))).push(bs[i].records[j].value));
}

proof fn lemma_log_values_next_batch(bs: Seq<RecordBatchView>, i: int)
    requires
        0 <= i < bs.len(),
    ensures
        log_values(bs.take(i + 1)) == log_values(bs.take(i)) + record_values(bs[i].records.take(
            bs[i].records.len() as int,
        )),
        log_values(bs.take(i)) + record_values(bs[i].records.take(0)) == log_values(bs.take(i)),
{
    assert(bs.take(i + 1).drop_last() =~= bs.take(i));
    assert(bs[i].records.take(bs[i].records.len() as int) =~= bs[i].records);
    assert(log_values(bs.take(i)) + record_values(bs[i].records.take(0)) =~= log_values(bs.take(i)));
}

impl RecordBatches {
    /// The id of the first topic record named `name`, if any.
    pub fn topic_id_for_name(&self, name: &String) -> (r: Option<String>)
        ensures
            opt_text(r) == topic_id_named(log_values(self@), name@),
    {
        let mut found: Option<String> = None;
        let mut i: usize = 0;
        proof {
            assert(self@.take(0) =~= Seq::<RecordBatchView>::empty());
        }
        while i < self.batches.len()
            invariant
                i <= self@.len(),
                opt_text(found) == topic_id_named(log_values(self@.take(i as int)), name@),
            decreases self@.len() - i,
        {
            let records = &self.batches[i].records;
            let mut j: usize = 0;
            proof {
                lemma_log_values_next_batch(self@, i as int);
            }
            while j < records.len()
                invariant
                    i < self@.len(),
                    records == self.batches@[i as int].records,
                    j <= records@.len(),
                    opt_text(found) == topic_id_named(
                        log_values(self@.take(i as int)) + record_values(self@[i as int].records.take(j as int)),
                        name@,
                    ),
                decreases records@.len() - j,
            {
                proof {
                    lemma_log_values_step(self@, i as int, j as int);
                    let pre = log_values(self@.take(i as int)) + record_values(self@[i as int].records.take(j as int));
                    let v = self@[i as int].records[j as int].value;
                    assert(pre.push(v).drop_last() =~= pre);
                    assert(v == records@[j as int].value@);
                }
                if found.is_none() {
                    match &records[j].value {
                        RecordValue::Topic(t) => {
                            if t.topic_name == *name {
                                found = Some(t.topic_id.clone());
                            }
                        },
                        _ => {},
                    }
                }
                j = j + 1;
            }
            proof {
                lemma_log_values_next_batch(self@, i as int);
            }
            i = i + 1;
        }
        proof {
            assert(self@.take(self@.len() as int) =~= self@);
        }
        found
    }

    /// The partition records of the topic with id `topic_id`, in log order.
    pub fn partitions_for_topic(&self, topic_id: &String) -> (r: Vec<PartitionValue>)
        ensures
            views(r@) == partitions_of(log_values(self@), topic_id@),
    {
        let mut parts: Vec<PartitionValue> = Vec::new();
        let mut i: usize = 0;
        proof {
            assert(self@.take(0) =~= Seq::<RecordBatchView>::empty());
            assert(views(parts@) =~= Seq::<PartitionValueView>::empty());
        }
        while i < self.batches.len()
            invariant
                i <= self@.len(),
                views(parts@) == partitions_of(log_values(self@.take(i as int)), topic_id@),
            decreases self@.len() - i,
        {
            let records = &self.batches[i].records;
            let mut j: usize = 0;
            proof {
                lemma_log_values_next_batch(self@, i as int);
            }
            while j < records.len()
                invariant
                    i < self@.len(),
                    records == self.batches@[i as int].records,
                    j <= records@.len(),
                    views(parts@) == partitions_of(
                        log_values(self@.take(i as int)) + record_values(self@[i as int].records.take(j as int)),
                        topic_id@,
                    ),
                decreases records@.len() - j,
            {
                proof {
                    lemma_log_values_step(self@, i as int, j as int);
                    let pre = log_values(self@.take(i as int)) + record_values(self@[i as int].records.take(j as int));
                    let v = self@[i as int].records[j as int].value;
                    assert(pre.push(v).drop_last() =~= pre);
                    assert(v == records@[j as int].value@);
                }
                let ghost before = parts@;
                match &records[j].value {
                    RecordValue::Partition(pv) => {
                        if pv.topic_id == *topic_id {
                            let c = pv.copy();
                            parts.push(c);
                            proof {
                                assert(views(parts@) =~= views(before) + seq![c@]);
                            }
                        } else {
                            proof {
                                assert(views(parts@) =~= views(before) + Seq::<PartitionValueView>::empty());
                            }
                        }
                    },
                    _ => {
                        proof {
                            assert(views(parts@) =~= views(before) + Seq::<PartitionValueView>::empty());
                        }
                    },
                }
                j = j + 1;
            }
            proof {
                lemma_log_values_next_batch(self@, i as int);
            }
            i = i + 1;
        }
        proof {
            assert(self@.take(self@.len() as int) =~= self@);
        }
        parts
    }

    /// The topic named `name`: its id and its partitions in log order.
    pub fn find_topic(&self, name: &String) -> (r: Option<(String, Vec<PartitionValue>)>)
        ensures
            match topic_id_named(log_values(self@), name@) {
                Some(id) => r is Some && r.unwrap().0@ == id && views(r.unwrap().1@) == partitions_of(
                    log_values(self@),
                    id,
                ),
                None => r is None,
            },
    {
        match self.topic_id_for_name(name) {
            Some(id) => {
                let parts = self.partitions_for_topic(&id);
                Some((id, parts))
            },
            None => None,
        }
    }
}

// ---------------------------------------------------------------------------
// Every topic id in a parsed log is UUID text.

pub open spec fn value_id_is_uuid(v: RecordValueView) -> bool {
    match v {
        RecordValueView::Topic(t) => is_uuid_text(t.topic_id),
        _ => true,
    }
}

pub open spec fn topic_ids_are_uuids(vs: Seq<RecordValueView>) -> bool {
    forall|i: int| 0 <= i < vs.len() ==> value_id_is_uuid(#[trigger] vs[i])
}

proof fn lemma_record_value_id(s: Seq<u8>, p: int)
    ensures
        parse_record_value(s, p) matches Some((v, _)) ==> value_id_is_uuid(v),
{
    assert forall|q: int| (#[trigger] parse_uuid(s, q)) is Some implies is_uuid_text(parse_uuid(s, q).unwrap().0) by {
        lemma_parse_uuid_is_uuid(s, q);
    }
}

proof fn lemma_batch_record_ids(b: Seq<u8>, base_offset: i64, batch_length: i32)
    ensures
        parse_batch_body(b, base_offset, batch_length) matches Some(v) ==> forall|i: int|
            0 <= i < v.records.len() ==> value_id_is_uuid(#[trigger] v.records[i].value),
{
    let pred = |r: RecordView| value_id_is_uuid(r.value);
    assert forall|q: int| (#[trigger] parse_record(b, q)) is Some implies pred(parse_record(b, q).unwrap().0) by {
        assert forall|q2: int| (#[trigger] parse_record_value(b, q2)) is Some implies value_id_is_uuid(parse_record_value(b, q2).unwrap().0) by {
            lemma_record_value_id(b, q2);
        }
    }
    assert forall|q: int| (#[trigger] <Record as Deserialize<Record>>::parse(b, q)) is Some implies pred(<Record as Deserialize<Record>>::parse(b, q).unwrap().0) by {
        assert(<Record as Deserialize<Record>>::parse(b, q) == parse_record(b, q));
    }
    if let Some(v) = parse_batch_body(b, base_offset, batch_length) {
        // The records of a batch start 61 bytes into it.
        let p = 61int;
        assert forall|n: nat| (#[trigger] parse_elems::<Record, Record>(b, p, n)) is Some implies forall|i: int|
            0 <= i < parse_elems::<Record, Record>(b, p, n).unwrap().0.len() ==> pred(
                #[trigger] parse_elems::<Record, Record>(b, p, n).unwrap().0[i],
            ) by {
            lemma_elems_satisfy::<Record, Record>(b, p, n, pred);
        }
    }
}

pub open spec fn batch_ids_are_uuids(bs: Seq<RecordBatchView>) -> bool {
    forall|j: int, i: int|
        0 <= j < bs.len() && 0 <= i < bs[j].records.len() ==> value_id_is_uuid(#[trigger] bs[j].records[i].value)
}

proof fn lemma_batches_ids(s: Seq<u8>, p: int)
    ensures
        parse_batches(s, p) matches Some(bs) ==> batch_ids_are_uuids(bs),
    decreases (s.len() - p) as nat,
{
    if p < s.len() {
        if let Some((b, q)) = parse_record_batch(s, p) {
            if q > p {
                lemma_batches_ids(s, q);
                if let Some((base_offset, p1)) = parse_i64(s, p) {
                    if let Some((batch_length, p2)) = parse_i32(s, p1) {
                        lemma_batch_record_ids(s.subrange(p, p2 + batch_length), base_offset, batch_length);
                    }
                }
                if let Some(bs) = parse_batches(s, q) {
                    let all = seq![b] + bs;
                    assert forall|j: int, i: int| 0 <= j < all.len() && 0 <= i < all[j].records.len() implies value_id_is_uuid(
                        #[trigger] all[j].records[i].value,
                    ) by {
                        if j > 0 {
                            assert(all[j] == bs[j - 1]);
                        }
                    }
                }
            }
        }
    }
}

proof fn lemma_log_values_ids(bs: Seq<RecordBatchView>)
    requires
        batch_ids_are_uuids(bs),
    ensures
        topic_ids_are_uuids(log_values(bs)),
    decreases bs.len(),
{
    if bs.len() > 0 {
        let front = bs.drop_last();
        assert forall|j: int, i: int| 0 <= j < front.len() && 0 <= i < front[j].records.len() implies value_id_is_uuid(
            #[trigger] front[j].records[i].value,
        ) by {
            assert(front[j] == bs[j]);
        }
        lemma_log_values_ids(front);
        let last = record_values(bs.last().records);
        let all = log_values(front) + last;
        assert forall|i: int| 0 <= i < all.len() implies value_id_is_uuid(#[trigger] all[i]) by {
            if i >= log_values(front).len() {
                let k = i - log_values(front).len();
                assert(all[i] == bs[bs.len() - 1].records[k].value);
            }
        }
    }
}

/// The id of a named topic in a log whose ids are UUID text is UUID text.
pub proof fn lemma_topic_id_named_is_uuid(vs: Seq<RecordValueView>, name: Seq<char>)
    requires
        topic_ids_are_uuids(vs),
    ensures
        topic_id_named(vs, name) matches Some(id) ==> is_uuid_text(id),
    decreases vs.len(),
{
    if vs.len() > 0 {
        assert(topic_ids_are_uuids(vs.drop_last())) by {
            assert forall|i: int| 0 <= i < vs.drop_last().len() implies value_id_is_uuid(#[trigger] vs.drop_last()[i]) by {
                assert(vs.drop_last()[i] == vs[i]);
            }
        }
        lemma_topic_id_named_is_uuid(vs.drop_last(), name);
        assert(value_id_is_uuid(vs[vs.len() - 1]));
    }
}

/// The log that the reader returns has UUID text for every topic id.
pub proof fn lemma_parsed_log_ids(s: Seq<u8>)
    ensures
        parse_batches(s, 0) matches Some(bs) ==> topic_ids_are_uuids(log_values(bs)),
{
    lemma_batches_ids(s, 0);
    if let Some(bs) = parse_batches(s, 0) {
        lemma_log_values_ids(bs);
    }
}

} // verus!
