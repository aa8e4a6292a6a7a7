//! What the request decoders make of well-formed encodings: each request, as
//! its fields are laid out on the wire, decodes back to itself whatever bytes
//! follow it.

use crate::types::{
    be_bytes, compact_len_bytes, compact_string_bytes, i16_bytes, i32_bytes,
    lemma_be_bytes_len, lemma_be_round_trip, parse_compact_len, parse_compact_string, parse_i16,
    parse_i32, parse_nullable_string, parse_tag_buffer, parse_u32, parse_u64, parse_u8,
    parse_uint, parse_uuid, pow256, tag_buffer_bytes, u32_bytes, u8_bytes, uuid_bytes,
    uuid_round_trip, is_canonical_uuid_text, varint_bytes, varint_round_trip,
};
use crate::request::{
    parse_describe_topic_partitions, parse_fetch, parse_header, DescribeTopicPartitionsRequestView,
    FetchRequestView, ForgottenTopicData, ForgottenTopicDataView, HeaderV2View, Partition,
    TopicName, TopicRequest, TopicRequestView,
};
use crate::protocol::ErrorCode;
use crate::response::{
    bool_byte, AbortedTransaction, ApiVersionsApiKeys, ApiVersionsResponseV3,
    ApiVersionsResponseView, DescribeTopicPartitionsResponseV0,
    DescribeTopicPartitionsResponseView, FetchResponseV16, FetchResponseView,
    Partition as PartitionInfo, PartitionView, Topic, TopicPartition, TopicPartitionView,
    TopicResponse, TopicResponseView, TopicView,
};
use crate::response_decode::{
    parse_api_versions_response, parse_describe_response, parse_error_code, parse_fetch_response,
};
use crate::types::{
    compact_array_bytes, compact_bytes_bytes, i64_bytes, parse_compact_array, parse_compact_bytes,
    parse_elems, parse_i64, wires, Deserialize, Serialize,
};
use vstd::prelude::*;
use vstd::utf8::{encode_utf8, encode_utf8_decode_utf8, encode_utf8_valid_utf8};

verus! {

/// The bytes `e` stand in `s` from position `p`.
pub open spec fn bytes_at(s: Seq<u8>, p: int, e: Seq<u8>) -> bool {
    0 <= p && p + e.len() <= s.len() && s.subrange(p, p + e.len()) == e
}

/// Two runs of bytes one after the other are each where they should be.
pub proof fn lemma_split(s: Seq<u8>, p: int, e1: Seq<u8>, e2: Seq<u8>)
    requires
        bytes_at(s, p, e1 + e2),
    ensures
        bytes_at(s, p, e1),
        bytes_at(s, p + e1.len(), e2),
{
    let whole = s.subrange(p, p + e1.len() + e2.len());
    assert(whole == e1 + e2);
    assert forall|k: int| 0 <= k < e1.len() implies s.subrange(p, p + e1.len())[k] == e1[k] by {
        assert(whole[k] == s[p + k]);
        assert((e1 + e2)[k] == e1[k]);
    }
    assert(s.subrange(p, p + e1.len()) =~= e1);
    assert forall|k: int| 0 <= k < e2.len() implies s.subrange(p + e1.len(), p + e1.len() + e2.len())[k]
        == e2[k] by {
        assert(whole[e1.len() + k] == s[p + e1.len() + k]);
        assert((e1 + e2)[e1.len() + k] == e2[k]);
    }
    assert(s.subrange(p + e1.len(), p + e1.len() + e2.len()) =~= e2);
}

proof fn lemma_uint_at(s: Seq<u8>, p: int, v: nat, n: nat)
    requires
        bytes_at(s, p, be_bytes(v, n)),
        v < pow256(n),
    ensures
        parse_uint(s, p, n) == Some((v, p + n)),
{
    lemma_be_bytes_len(v, n);
    lemma_be_round_trip(s, p, v, n);
    vstd::arithmetic::div_mod::lemma_small_mod(v, pow256(n));
}

pub proof fn lemma_u8_at(s: Seq<u8>, p: int, x: u8)
    requires
        bytes_at(s, p, u8_bytes(x)),
    ensures
        parse_u8(s, p) == Some((x, p + 1)),
{
    reveal_with_fuel(pow256, 2);
    lemma_uint_at(s, p, x as nat, 1);
}

pub proof fn lemma_i16_at(s: Seq<u8>, p: int, x: i16)
    requires
        bytes_at(s, p, i16_bytes(x)),
    ensures
        parse_i16(s, p) == Some((x, p + 2)),
{
    reveal_with_fuel(pow256, 3);
    lemma_uint_at(s, p, x as u16 as nat, 2);
    assert((x as u16) as i16 == x) by (bit_vector);
}

pub proof fn lemma_i32_at(s: Seq<u8>, p: int, x: i32)
    requires
        bytes_at(s, p, i32_bytes(x)),
    ensures
        parse_i32(s, p) == Some((x, p + 4)),
{
    reveal_with_fuel(pow256, 5);
    lemma_uint_at(s, p, x as u32 as nat, 4);
    assert((x as u32) as i32 == x) by (bit_vector);
}

pub proof fn lemma_u32_at(s: Seq<u8>, p: int, x: u32)
    requires
        bytes_at(s, p, u32_bytes(x)),
    ensures
        parse_u32(s, p) == Some((x, p + 4)),
{
    reveal_with_fuel(pow256, 5);
    lemma_uint_at(s, p, x as nat, 4);
}

pub proof fn lemma_u64_at(s: Seq<u8>, p: int, x: u64)
    requires
        bytes_at(s, p, be_bytes(x as nat, 8)),
    ensures
        parse_u64(s, p) == Some((x, p + 8)),
{
    reveal_with_fuel(pow256, 9);
    lemma_uint_at(s, p, x as nat, 8);
}

pub proof fn lemma_tag_buffer_at(s: Seq<u8>, p: int)
    requires
        bytes_at(s, p, tag_buffer_bytes()),
    ensures
        parse_tag_buffer(s, p) == Some(p + 1),
{
    assert(varint_bytes(0) =~= tag_buffer_bytes());
    varint_round_trip(0, s, p);
}

pub proof fn lemma_compact_len_at(s: Seq<u8>, p: int, n: nat)
    requires
        n < i64::MAX,
        bytes_at(s, p, compact_len_bytes(n)),
    ensures
        parse_compact_len(s, p) == Some((n, p + compact_len_bytes(n).len())),
{
    varint_round_trip((n + 1) as u64, s, p);
}

/// Text whose UTF-8 encoding a compact string can carry.
pub open spec fn compact_text_ok(t: Seq<char>) -> bool {
    encode_utf8(t).len() + 1 < i64::MAX
}

pub proof fn lemma_compact_string_at(s: Seq<u8>, p: int, t: Seq<char>)
    requires
        compact_text_ok(t),
        bytes_at(s, p, compact_string_bytes(t)),
    ensures
        parse_compact_string(s, p) == Some((t, p + compact_string_bytes(t).len())),
{
    let b = encode_utf8(t);
    lemma_split(s, p, compact_len_bytes(b.len()), b);
    lemma_compact_len_at(s, p, b.len());
    encode_utf8_valid_utf8(t);
    encode_utf8_decode_utf8(t);
}

/// The bytes of a nullable string that holds `t`.
pub open spec fn nullable_string_bytes(t: Seq<char>) -> Seq<u8> {
    i16_bytes(encode_utf8(t).len() as i16) + encode_utf8(t)
}

pub proof fn lemma_nullable_string_at(s: Seq<u8>, p: int, t: Seq<char>)
    requires
        encode_utf8(t).len() <= i16::MAX,
        bytes_at(s, p, nullable_string_bytes(t)),
    ensures
        parse_nullable_string(s, p) == Some((t, p + nullable_string_bytes(t).len())),
{
    let b = encode_utf8(t);
    lemma_split(s, p, i16_bytes(b.len() as i16), b);
    lemma_i16_at(s, p, b.len() as i16);
    lemma_be_bytes_len(b.len() as i16 as u16 as nat, 2);
    encode_utf8_valid_utf8(t);
    encode_utf8_decode_utf8(t);
}

pub proof fn lemma_uuid_at(s: Seq<u8>, p: int, t: Seq<char>)
    requires
        is_canonical_uuid_text(t),
        bytes_at(s, p, uuid_bytes(t)),
    ensures
        parse_uuid(s, p) == Some((t, p + 16)),
{
    uuid_round_trip(t);
}

// ---------------------------------------------------------------------------
// Arrays.

/// The encodings of `xs` one after the other.
pub open spec fn concat_enc<V>(xs: Seq<V>, enc: spec_fn(V) -> Seq<u8>) -> Seq<u8>
    decreases xs.len(),
{
    if xs.len() == 0 {
        Seq::empty()
    } else {
        concat_enc(xs.drop_last(), enc) + enc(xs.last())
    }
}

/// The element reader `U` reads back every value `x` with `ok(x)` from its
/// encoding `enc(x)`.
pub open spec fn reads_back<T: View, U: Deserialize<T>>(
    s: Seq<u8>,
    enc: spec_fn(T::V) -> Seq<u8>,
    ok: spec_fn(T::V) -> bool,
) -> bool {
    forall|q: int, x: T::V|
        ok(x) && #[trigger] bytes_at(s, q, enc(x)) ==> U::parse(s, q) == Some((x, q + enc(x).len()))
}

pub proof fn lemma_elems_at<T: View, U: Deserialize<T>>(
    s: Seq<u8>,
    p: int,
    xs: Seq<T::V>,
    enc: spec_fn(T::V) -> Seq<u8>,
    ok: spec_fn(T::V) -> bool,
)
    requires
        reads_back::<T, U>(s, enc, ok),
        forall|i: int| 0 <= i < xs.len() ==> ok(#[trigger] xs[i]),
        bytes_at(s, p, concat_enc(xs, enc)),
    ensures
        parse_elems::<T, U>(s, p, xs.len()) == Some((xs, p + concat_enc(xs, enc).len())),
    decreases xs.len(),
{
    if xs.len() > 0 {
        let front = xs.drop_last();
        let x = xs.last();
        lemma_split(s, p, concat_enc(front, enc), enc(x));
        assert forall|i: int| 0 <= i < front.len() implies ok(#[trigger] front[i]) by {
            assert(front[i] == xs[i]);
        }
        lemma_elems_at::<T, U>(s, p, front, enc, ok);
        assert(ok(xs[xs.len() - 1]));
        assert(front.push(x) =~= xs);
    } else {
        assert(xs =~= Seq::<T::V>::empty());
    }
}

pub open spec fn compact_array_enc<V>(xs: Seq<V>, enc: spec_fn(V) -> Seq<u8>) -> Seq<u8> {
    compact_len_bytes(xs.len()) + concat_enc(xs, enc)
}

pub proof fn lemma_compact_array_at<T: View, U: Deserialize<T>>(
    s: Seq<u8>,
    p: int,
    xs: Seq<T::V>,
    enc: spec_fn(T::V) -> Seq<u8>,
    ok: spec_fn(T::V) -> bool,
)
    requires
        reads_back::<T, U>(s, enc, ok),
        xs.len() < i64::MAX,
        forall|i: int| 0 <= i < xs.len() ==> ok(#[trigger] xs[i]),
        bytes_at(s, p, compact_array_enc(xs, enc)),
    ensures
        parse_compact_array::<T, U>(s, p) == Some((xs, p + compact_array_enc(xs, enc).len())),
{
    lemma_split(s, p, compact_len_bytes(xs.len()), concat_enc(xs, enc));
    lemma_compact_len_at(s, p, xs.len());
    lemma_elems_at::<T, U>(s, p + compact_len_bytes(xs.len()).len(), xs, enc, ok);
}

pub proof fn lemma_u32_reads_back(s: Seq<u8>)
    ensures
        reads_back::<u32, u32>(s, |x: u32| u32_bytes(x), |x: u32| true),
{
    assert forall|q: int, x: u32| true && #[trigger] bytes_at(s, q, u32_bytes(x)) implies <u32 as Deserialize<
        u32,
    >>::parse(s, q) == Some((x, q + u32_bytes(x).len())) by {
        lemma_u32_at(s, q, x);
        lemma_be_bytes_len(x as nat, 4);
    }
}

// ---------------------------------------------------------------------------
// The request header.

/// The bytes of a request header, version 2.
pub open spec fn header_bytes(h: HeaderV2View) -> Seq<u8> {
    i16_bytes(h.request_api_key) + i16_bytes(h.request_api_version) + i32_bytes(h.correlation_id)
        + nullable_string_bytes(h.client_id) + tag_buffer_bytes()
}

/// A header that the wire can carry: a client id of at most `i16::MAX` bytes.
pub open spec fn header_ok(h: HeaderV2View) -> bool {
    encode_utf8(h.client_id).len() <= i16::MAX
}

pub proof fn lemma_header_at(s: Seq<u8>, p: int, h: HeaderV2View)
    requires
        header_ok(h),
        bytes_at(s, p, header_bytes(h)),
    ensures
        parse_header(s, p) == Some((h, p + header_bytes(h).len())),
{
    let a = i16_bytes(h.request_api_key);
    let b = i16_bytes(h.request_api_version);
    let c = i32_bytes(h.correlation_id);
    let d = nullable_string_bytes(h.client_id);
    let e = tag_buffer_bytes();
    lemma_be_bytes_len(h.request_api_key as u16 as nat, 2);
    lemma_be_bytes_len(h.request_api_version as u16 as nat, 2);
    lemma_be_bytes_len(h.correlation_id as u32 as nat, 4);
    lemma_split(s, p, a + b + c + d, e);
    lemma_split(s, p, a + b + c, d);
    lemma_split(s, p, a + b, c);
    lemma_split(s, p, a, b);
    lemma_i16_at(s, p, h.request_api_key);
    lemma_i16_at(s, p + 2, h.request_api_version);
    lemma_i32_at(s, p + 4, h.correlation_id);
    lemma_nullable_string_at(s, p + 8, h.client_id);
    lemma_tag_buffer_at(s, p + 8 + d.len());
}

// ---------------------------------------------------------------------------
// DescribeTopicPartitions.

pub open spec fn topic_name_bytes(name: Seq<char>) -> Seq<u8> {
    compact_string_bytes(name) + tag_buffer_bytes()
}

pub open spec fn describe_request_bytes(r: DescribeTopicPartitionsRequestView) -> Seq<u8> {
    header_bytes(r.header) + compact_array_enc(r.topics, |n: Seq<char>| topic_name_bytes(n)) + i32_bytes(
        r.response_partition_limit,
    ) + u8_bytes(r.cursor) + tag_buffer_bytes()
}

pub open spec fn describe_request_ok(r: DescribeTopicPartitionsRequestView) -> bool {
    &&& header_ok(r.header)
    &&& r.topics.len() < i64::MAX
    &&& forall|i: int| 0 <= i < r.topics.len() ==> compact_text_ok(#[trigger] r.topics[i])
}

proof fn lemma_topic_name_reads_back(s: Seq<u8>)
    ensures
        reads_back::<String, TopicName>(s, |n: Seq<char>| topic_name_bytes(n), |n: Seq<char>| compact_text_ok(n)),
{
    assert forall|q: int, x: Seq<char>| compact_text_ok(x) && #[trigger] bytes_at(s, q, topic_name_bytes(x)) implies <TopicName as Deserialize<
        String,
    >>::parse(s, q) == Some((x, q + topic_name_bytes(x).len())) by {
        lemma_split(s, q, compact_string_bytes(x), tag_buffer_bytes());
        lemma_compact_string_at(s, q, x);
        lemma_tag_buffer_at(s, q + compact_string_bytes(x).len());
    }
}

/// A DescribeTopicPartitions request, laid out on the wire, decodes back to
/// itself whatever follows it.
pub proof fn describe_request_round_trip(r: DescribeTopicPartitionsRequestView, s: Seq<u8>)
    requires
        describe_request_ok(r),
        bytes_at(s, 0, describe_request_bytes(r)),
    ensures
        parse_describe_topic_partitions(s, 0) == Some((r, describe_request_bytes(r).len() as int)),
{
    let enc = |n: Seq<char>| topic_name_bytes(n);
    let a = header_bytes(r.header);
    let b = compact_array_enc(r.topics, enc);
    let c = i32_bytes(r.response_partition_limit);
    let d = u8_bytes(r.cursor);
    let e = tag_buffer_bytes();
    lemma_be_bytes_len(r.response_partition_limit as u32 as nat, 4);
    lemma_be_bytes_len(r.cursor as nat, 1);
    lemma_split(s, 0, a + b + c + d, e);
    lemma_split(s, 0, a + b + c, d);
    lemma_split(s, 0, a + b, c);
    lemma_split(s, 0, a, b);
    lemma_header_at(s, 0, r.header);
    lemma_topic_name_reads_back(s);
    lemma_compact_array_at::<String, TopicName>(s, a.len() as int, r.topics, enc, |n: Seq<char>| compact_text_ok(n));
    lemma_i32_at(s, (a.len() + b.len()) as int, r.response_partition_limit);
    lemma_u8_at(s, (a.len() + b.len() + 4) as int, r.cursor);
    lemma_tag_buffer_at(s, (a.len() + b.len() + 5) as int);
}

// ---------------------------------------------------------------------------
// Fetch.

pub open spec fn u64_bytes(v: u64) -> Seq<u8> {
    be_bytes(v as nat, 8)
}

pub open spec fn fetch_partition_bytes(p: Partition) -> Seq<u8> {
    u32_bytes(p.partition) + u32_bytes(p.current_leader_epoch) + u64_bytes(p.fetch_offset) + u32_bytes(
        p.last_fetched_epoch,
    ) + u64_bytes(p.log_start_offset) + u32_bytes(p.partition_max_bytes) + tag_buffer_bytes()
}

proof fn lemma_fetch_partition_reads_back(s: Seq<u8>)
    ensures
        reads_back::<Partition, Partition>(s, |x: Partition| fetch_partition_bytes(x), |x: Partition| true),
{
    assert forall|q: int, x: Partition| true && #[trigger] bytes_at(s, q, fetch_partition_bytes(x)) implies <Partition as Deserialize<
        Partition,
    >>::parse(s, q) == Some((x, q + fetch_partition_bytes(x).len())) by {
        let a = u32_bytes(x.partition);
        let b = u32_bytes(x.current_leader_epoch);
        let c = u64_bytes(x.fetch_offset);
        let d = u32_bytes(x.last_fetched_epoch);
        let e = u64_bytes(x.log_start_offset);
        let f = u32_bytes(x.partition_max_bytes);
        let g = tag_buffer_bytes();
        lemma_be_bytes_len(x.partition as nat, 4);
        lemma_be_bytes_len(x.current_leader_epoch as nat, 4);
        lemma_be_bytes_len(x.fetch_offset as nat, 8);
        lemma_be_bytes_len(x.last_fetched_epoch as nat, 4);
        lemma_be_bytes_len(x.log_start_offset as nat, 8);
        lemma_be_bytes_len(x.partition_max_bytes as nat, 4);
        lemma_split(s, q, a + b + c + d + e + f, g);
        lemma_split(s, q, a + b + c + d + e, f);
        lemma_split(s, q, a + b + c + d, e);
        lemma_split(s, q, a + b + c, d);
        lemma_split(s, q, a + b, c);
        lemma_split(s, q, a, b);
        lemma_u32_at(s, q, x.partition);
        lemma_u32_at(s, q + 4, x.current_leader_epoch);
        lemma_u64_at(s, q + 8, x.fetch_offset);
        lemma_u32_at(s, q + 16, x.last_fetched_epoch);
        lemma_u64_at(s, q + 20, x.log_start_offset);
        lemma_u32_at(s, q + 28, x.partition_max_bytes);
        lemma_tag_buffer_at(s, q + 32);
    }
}

pub open spec fn topic_request_bytes(t: TopicRequestView) -> Seq<u8> {
    uuid_bytes(t.topic_id) + compact_array_enc(t.partitions, |x: Partition| fetch_partition_bytes(x))
        + tag_buffer_bytes()
}

pub open spec fn topic_request_ok(t: TopicRequestView) -> bool {
    is_canonical_uuid_text(t.topic_id) && t.partitions.len() < i64::MAX
}

proof fn lemma_topic_request_reads_back(s: Seq<u8>)
    ensures
        reads_back::<TopicRequest, TopicRequest>(
            s,
            |t: TopicRequestView| topic_request_bytes(t),
            |t: TopicRequestView| topic_request_ok(t),
        ),
{
    lemma_fetch_partition_reads_back(s);
    assert forall|q: int, x: TopicRequestView| topic_request_ok(x) && #[trigger] bytes_at(s, q, topic_request_bytes(x)) implies <TopicRequest as Deserialize<
        TopicRequest,
    >>::parse(s, q) == Some((x, q + topic_request_bytes(x).len())) by {
        let enc = |y: Partition| fetch_partition_bytes(y);
        let a = uuid_bytes(x.topic_id);
        let b = compact_array_enc(x.partitions, enc);
        let c = tag_buffer_bytes();
        uuid_round_trip(x.topic_id);
        lemma_split(s, q, a + b, c);
        lemma_split(s, q, a, b);
        lemma_uuid_at(s, q, x.topic_id);
        lemma_compact_array_at::<Partition, Partition>(s, q + 16, x.partitions, enc, |y: Partition| true);
        lemma_tag_buffer_at(s, q + 16 + b.len());
    }
}

pub open spec fn forgotten_topic_bytes(f: ForgottenTopicDataView) -> Seq<u8> {
    uuid_bytes(f.topic_id) + compact_array_enc(f.partitions, |x: u32| u32_bytes(x)) + tag_buffer_bytes()
}

pub open spec fn forgotten_topic_ok(f: ForgottenTopicDataView) -> bool {
    is_canonical_uuid_text(f.topic_id) && f.partitions.len() < i64::MAX
}

proof fn lemma_forgotten_topic_reads_back(s: Seq<u8>)
    ensures
        reads_back::<ForgottenTopicData, ForgottenTopicData>(
            s,
            |f: ForgottenTopicDataView| forgotten_topic_bytes(f),
            |f: ForgottenTopicDataView| forgotten_topic_ok(f),
        ),
{
    lemma_u32_reads_back(s);
    assert forall|q: int, x: ForgottenTopicDataView| forgotten_topic_ok(x) && #[trigger] bytes_at(s, q, forgotten_topic_bytes(x)) implies <ForgottenTopicData as Deserialize<
        ForgottenTopicData,
    >>::parse(s, q) == Some((x, q + forgotten_topic_bytes(x).len())) by {
        let enc = |y: u32| u32_bytes(y);
        let a = uuid_bytes(x.topic_id);
        let b = compact_array_enc(x.partitions, enc);
        let c = tag_buffer_bytes();
        uuid_round_trip(x.topic_id);
        lemma_split(s, q, a + b, c);
        lemma_split(s, q, a, b);
        lemma_uuid_at(s, q, x.topic_id);
        lemma_compact_array_at::<u32, u32>(s, q + 16, x.partitions, enc, |y: u32| true);
        lemma_tag_buffer_at(s, q + 16 + b.len());
    }
}

pub open spec fn fetch_request_bytes(r: FetchRequestView) -> Seq<u8> {
    header_bytes(r.header) + u32_bytes(r.max_wait_ms) + u32_bytes(r.min_bytes) + u32_bytes(r.max_bytes)
        + u8_bytes(r.isolation_level) + u32_bytes(r.session_id) + u32_bytes(r.session_epoch)
        + compact_array_enc(r.topics, |t: TopicRequestView| topic_request_bytes(t)) + compact_array_enc(
        r.forgotten_topics_data,
        |f: ForgottenTopicDataView| forgotten_topic_bytes(f),
    ) + compact_string_bytes(r.rack_id) + tag_buffer_bytes()
}

/// A Fetch request that the wire can carry, with canonical topic ids.
pub open spec fn fetch_request_ok(r: FetchRequestView) -> bool {
    &&& header_ok(r.header)
    &&& r.topics.len() < i64::MAX
    &&& forall|i: int| 0 <= i < r.topics.len() ==> topic_request_ok(#[trigger] r.topics[i])
    &&& r.forgotten_topics_data.len() < i64::MAX
    &&& forall|i: int|
        0 <= i < r.forgotten_topics_data.len() ==> forgotten_topic_ok(#[trigger] r.forgotten_topics_data[i])
    &&& compact_text_ok(r.rack_id)
}

/// A Fetch request, laid out on the wire, decodes back to itself whatever
/// follows it.
pub proof fn fetch_request_round_trip(r: FetchRequestView, s: Seq<u8>)
    requires
        fetch_request_ok(r),
        bytes_at(s, 0, fetch_request_bytes(r)),
    ensures
        parse_fetch(s, 0) == Some((r, fetch_request_bytes(r).len() as int)),
{
    let te = |t: TopicRequestView| topic_request_bytes(t);
    let fe = |f: ForgottenTopicDataView| forgotten_topic_bytes(f);
    let a = header_bytes(r.header);
    let b1 = u32_bytes(r.max_wait_ms);
    let b2 = u32_bytes(r.min_bytes);
    let b3 = u32_bytes(r.max_bytes);
    let b4 = u8_bytes(r.isolation_level);
    let b5 = u32_bytes(r.session_id);
    let b6 = u32_bytes(r.session_epoch);
    let c = compact_array_enc(r.topics, te);
    let d = compact_array_enc(r.forgotten_topics_data, fe);
    let e = compact_string_bytes(r.rack_id);
    let f = tag_buffer_bytes();
    lemma_be_bytes_len(r.max_wait_ms as nat, 4);
    lemma_be_bytes_len(r.min_bytes as nat, 4);
    lemma_be_bytes_len(r.max_bytes as nat, 4);
    lemma_be_bytes_len(r.isolation_level as nat, 1);
    lemma_be_bytes_len(r.session_id as nat, 4);
    lemma_be_bytes_len(r.session_epoch as nat, 4);
    lemma_split(s, 0, a + b1 + b2 + b3 + b4 + b5 + b6 + c + d + e, f);
    lemma_split(s, 0, a + b1 + b2 + b3 + b4 + b5 + b6 + c + d, e);
    lemma_split(s, 0, a + b1 + b2 + b3 + b4 + b5 + b6 + c, d);
    lemma_split(s, 0, a + b1 + b2 + b3 + b4 + b5 + b6, c);
    lemma_split(s, 0, a + b1 + b2 + b3 + b4 + b5, b6);
    lemma_split(s, 0, a + b1 + b2 + b3 + b4, b5);
    lemma_split(s, 0, a + b1 + b2 + b3, b4);
    lemma_split(s, 0, a + b1 + b2, b3);
    lemma_split(s, 0, a + b1, b2);
    lemma_split(s, 0, a, b1);
    let h = a.len() as int;
    lemma_header_at(s, 0, r.header);
    lemma_u32_at(s, h, r.max_wait_ms);
    lemma_u32_at(s, h + 4, r.min_bytes);
    lemma_u32_at(s, h + 8, r.max_bytes);
    lemma_u8_at(s, h + 12, r.isolation_level);
    lemma_u32_at(s, h + 13, r.session_id);
    lemma_u32_at(s, h + 17, r.session_epoch);
    lemma_topic_request_reads_back(s);
    lemma_compact_array_at::<TopicRequest, TopicRequest>(s, h + 21, r.topics, te, |t: TopicRequestView| topic_request_ok(t));
    lemma_forgotten_topic_reads_back(s);
    lemma_compact_array_at::<ForgottenTopicData, ForgottenTopicData>(
        s,
        h + 21 + c.len(),
        r.forgotten_topics_data,
        fe,
        |x: ForgottenTopicDataView| forgotten_topic_ok(x),
    );
    lemma_compact_string_at(s, h + 21 + c.len() + d.len(), r.rack_id);
    lemma_tag_buffer_at(s, h + 21 + c.len() + d.len() + e.len());
}

/// An ApiVersions request decodes as its header, whatever follows it.
pub proof fn api_versions_request_round_trip(h: HeaderV2View, s: Seq<u8>)
    requires
        header_ok(h),
        bytes_at(s, 0, header_bytes(h)),
    ensures
        parse_header(s, 0) == Some((h, header_bytes(h).len() as int)),
{
    lemma_header_at(s, 0, h);
}

// ---------------------------------------------------------------------------
// Responses.

pub proof fn lemma_wires_concat<T: Serialize>(xs: Seq<T::V>)
    ensures
        wires::<T>(xs) == concat_enc(xs, |x: T::V| T::wire(x)),
    decreases xs.len(),
{
    if xs.len() > 0 {
        lemma_wires_concat::<T>(xs.drop_last());
    }
}

/// The encoding of a compact array of `T` as `compact_array_enc` spells it.
proof fn lemma_compact_array_bytes<T: Serialize>(xs: Seq<T::V>)
    ensures
        compact_array_bytes::<T>(xs) == compact_array_enc(xs, |x: T::V| T::wire(x)),
{
    lemma_wires_concat::<T>(xs);
}

pub proof fn lemma_i64_at(s: Seq<u8>, p: int, x: i64)
    requires
        bytes_at(s, p, i64_bytes(x)),
    ensures
        parse_i64(s, p) == Some((x, p + 8)),
{
    reveal_with_fuel(pow256, 9);
    lemma_uint_at(s, p, x as u64 as nat, 8);
    assert((x as u64) as i64 == x) by (bit_vector);
}

pub proof fn lemma_error_code_at(s: Seq<u8>, p: int, e: ErrorCode)
    requires
        bytes_at(s, p, i16_bytes(e.spec_code())),
    ensures
        parse_error_code(s, p) == Some((e, p + 2)),
{
    lemma_i16_at(s, p, e.spec_code());
}

pub proof fn lemma_compact_bytes_at(s: Seq<u8>, p: int, b: Seq<u8>)
    requires
        b.len() + 1 < i64::MAX,
        bytes_at(s, p, compact_bytes_bytes(b)),
    ensures
        parse_compact_bytes(s, p) == Some((b, p + compact_bytes_bytes(b).len())),
{
    lemma_split(s, p, compact_len_bytes(b.len()), b);
    lemma_compact_len_at(s, p, b.len());
}

proof fn lemma_api_key_reads_back(s: Seq<u8>)
    ensures
        reads_back::<ApiVersionsApiKeys, ApiVersionsApiKeys>(
            s,
            |x: ApiVersionsApiKeys| ApiVersionsApiKeys::wire(x),
            |x: ApiVersionsApiKeys| true,
        ),
{
    assert forall|q: int, x: ApiVersionsApiKeys| true && #[trigger] bytes_at(s, q, ApiVersionsApiKeys::wire(x)) implies <ApiVersionsApiKeys as Deserialize<
        ApiVersionsApiKeys,
    >>::parse(s, q) == Some((x, q + ApiVersionsApiKeys::wire(x).len())) by {
        let a = i16_bytes(x.api_key.spec_code());
        let b = i16_bytes(x.min_version);
        let c = i16_bytes(x.max_version);
        let d = tag_buffer_bytes();
        lemma_be_bytes_len(x.api_key.spec_code() as u16 as nat, 2);
        lemma_be_bytes_len(x.min_version as u16 as nat, 2);
        lemma_be_bytes_len(x.max_version as u16 as nat, 2);
        lemma_split(s, q, a + b + c, d);
        lemma_split(s, q, a + b, c);
        lemma_split(s, q, a, b);
        lemma_i16_at(s, q, x.api_key.spec_code());
        lemma_i16_at(s, q + 2, x.min_version);
        lemma_i16_at(s, q + 4, x.max_version);
        lemma_tag_buffer_at(s, q + 6);
    }
}

/// An ApiVersions response that the wire can carry.
pub open spec fn api_versions_response_ok(v: ApiVersionsResponseView) -> bool {
    v.api_keys.len() < i64::MAX
}

/// An ApiVersions response, encoded, decodes back to itself whatever follows
/// it.
pub proof fn api_versions_response_round_trip(v: ApiVersionsResponseView, s: Seq<u8>)
    requires
        api_versions_response_ok(v),
        bytes_at(s, 0, ApiVersionsResponseV3::wire(v)),
    ensures
        parse_api_versions_response(s, 0) == Some((v, ApiVersionsResponseV3::wire(v).len() as int)),
{
    let enc = |x: ApiVersionsApiKeys| ApiVersionsApiKeys::wire(x);
    let a = i32_bytes(v.correlation_id);
    let b = i16_bytes(v.error_code.spec_code());
    let c = compact_array_bytes::<ApiVersionsApiKeys>(v.api_keys);
    let d = i32_bytes(v.throttle_time_ms);
    let e = tag_buffer_bytes();
    lemma_compact_array_bytes::<ApiVersionsApiKeys>(v.api_keys);
    lemma_be_bytes_len(v.correlation_id as u32 as nat, 4);
    lemma_be_bytes_len(v.error_code.spec_code() as u16 as nat, 2);
    lemma_be_bytes_len(v.throttle_time_ms as u32 as nat, 4);
    lemma_split(s, 0, a + b + c + d, e);
    lemma_split(s, 0, a + b + c, d);
    lemma_split(s, 0, a + b, c);
    lemma_split(s, 0, a, b);
    lemma_i32_at(s, 0, v.correlation_id);
    lemma_error_code_at(s, 4, v.error_code);
    lemma_api_key_reads_back(s);
    lemma_compact_array_at::<ApiVersionsApiKeys, ApiVersionsApiKeys>(
        s,
        6,
        v.api_keys,
        enc,
        |x: ApiVersionsApiKeys| true,
    );
    lemma_i32_at(s, (6 + c.len()) as int, v.throttle_time_ms);
    lemma_tag_buffer_at(s, (10 + c.len()) as int);
}

pub open spec fn partition_info_ok(v: PartitionView) -> bool {
    &&& v.replicas.len() < i64::MAX
    &&& v.in_sync_replicas.len() < i64::MAX
    &&& v.eligible_leader_replicas.len() < i64::MAX
    &&& v.last_known_eligible_leader_replicas.len() < i64::MAX
    &&& v.off_line_replicas.len() < i64::MAX
}

proof fn lemma_u32_array_at(s: Seq<u8>, p: int, xs: Seq<u32>)
    requires
        xs.len() < i64::MAX,
        bytes_at(s, p, compact_array_bytes::<u32>(xs)),
    ensures
        parse_compact_array::<u32, u32>(s, p) == Some((xs, p + compact_array_bytes::<u32>(xs).len())),
{
    lemma_compact_array_bytes::<u32>(xs);
    lemma_u32_reads_back(s);
    let enc = |x: u32| u32_bytes(x);
    assert(compact_array_enc(xs, |x: u32| <u32 as Serialize>::wire(x)) == compact_array_enc(xs, enc)) by {
        assert((|x: u32| <u32 as Serialize>::wire(x)) =~= enc);
    }
    lemma_compact_array_at::<u32, u32>(s, p, xs, enc, |x: u32| true);
}

proof fn lemma_partition_info_reads_back(s: Seq<u8>)
    ensures
        reads_back::<PartitionInfo, PartitionInfo>(
            s,
            |x: PartitionView| PartitionInfo::wire(x),
            |x: PartitionView| partition_info_ok(x),
        ),
{
    assert forall|q: int, x: PartitionView| partition_info_ok(x) && #[trigger] bytes_at(s, q, PartitionInfo::wire(x)) implies <PartitionInfo as Deserialize<
        PartitionInfo,
    >>::parse(s, q) == Some((x, q + PartitionInfo::wire(x).len())) by {
        let a = i16_bytes(x.error_code.spec_code());
        let b = u32_bytes(x.partition_index);
        let c = u32_bytes(x.leader_id);
        let d = u32_bytes(x.leader_epoch);
        let e = compact_array_bytes::<u32>(x.replicas);
        let f = compact_array_bytes::<u32>(x.in_sync_replicas);
        let g = compact_array_bytes::<u32>(x.eligible_leader_replicas);
        let h = compact_array_bytes::<u32>(x.last_known_eligible_leader_replicas);
        let i = compact_array_bytes::<u32>(x.off_line_replicas);
        let j = tag_buffer_bytes();
        lemma_be_bytes_len(x.error_code.spec_code() as u16 as nat, 2);
        lemma_be_bytes_len(x.partition_index as nat, 4);
        lemma_be_bytes_len(x.leader_id as nat, 4);
        lemma_be_bytes_len(x.leader_epoch as nat, 4);
        lemma_split(s, q, a + b + c + d + e + f + g + h + i, j);
        lemma_split(s, q, a + b + c + d + e + f + g + h, i);
        lemma_split(s, q, a + b + c + d + e + f + g, h);
        lemma_split(s, q, a + b + c + d + e + f, g);
        lemma_split(s, q, a + b + c + d + e, f);
        lemma_split(s, q, a + b + c + d, e);
        lemma_split(s, q, a + b + c, d);
        lemma_split(s, q, a + b, c);
        lemma_split(s, q, a, b);
        lemma_error_code_at(s, q, x.error_code);
        lemma_u32_at(s, q + 2, x.partition_index);
        lemma_u32_at(s, q + 6, x.leader_id);
        lemma_u32_at(s, q + 10, x.leader_epoch);
        lemma_u32_array_at(s, q + 14, x.replicas);
        lemma_u32_array_at(s, q + 14 + e.len(), x.in_sync_replicas);
        lemma_u32_array_at(s, q + 14 + e.len() + f.len(), x.eligible_leader_replicas);
        lemma_u32_array_at(s, q + 14 + e.len() + f.len() + g.len(), x.last_known_eligible_leader_replicas);
        lemma_u32_array_at(s, q + 14 + e.len() + f.len() + g.len() + h.len(), x.off_line_replicas);
        lemma_tag_buffer_at(s, q + 14 + e.len() + f.len() + g.len() + h.len() + i.len());
    }
}

pub open spec fn topic_info_ok(v: TopicView) -> bool {
    &&& compact_text_ok(v.name)
    &&& is_canonical_uuid_text(v.topic_id)
    &&& v.partitions.len() < i64::MAX
    &&& forall|i: int| 0 <= i < v.partitions.len() ==> partition_info_ok(#[trigger] v.partitions[i])
}

proof fn lemma_topic_info_reads_back(s: Seq<u8>)
    ensures
        reads_back::<Topic, Topic>(s, |x: TopicView| Topic::wire(x), |x: TopicView| topic_info_ok(x)),
{
    lemma_partition_info_reads_back(s);
    assert forall|q: int, x: TopicView| topic_info_ok(x) && #[trigger] bytes_at(s, q, Topic::wire(x)) implies <Topic as Deserialize<
        Topic,
    >>::parse(s, q) == Some((x, q + Topic::wire(x).len())) by {
        let enc = |y: PartitionView| PartitionInfo::wire(y);
        let a = i16_bytes(x.error_code.spec_code());
        let b = compact_string_bytes(x.name);
        let c = uuid_bytes(x.topic_id);
        let d = u8_bytes(bool_byte(x.is_internal));
        let e = compact_array_bytes::<PartitionInfo>(x.partitions);
        let f = i32_bytes(x.topic_authorized_operations);
        let g = tag_buffer_bytes();
        lemma_compact_array_bytes::<PartitionInfo>(x.partitions);
        uuid_round_trip(x.topic_id);
        lemma_be_bytes_len(x.error_code.spec_code() as u16 as nat, 2);
        lemma_be_bytes_len(bool_byte(x.is_internal) as nat, 1);
        lemma_be_bytes_len(x.topic_authorized_operations as u32 as nat, 4);
        lemma_split(s, q, a + b + c + d + e + f, g);
        lemma_split(s, q, a + b + c + d + e, f);
        lemma_split(s, q, a + b + c + d, e);
        lemma_split(s, q, a + b + c, d);
        lemma_split(s, q, a + b, c);
        lemma_split(s, q, a, b);
        lemma_error_code_at(s, q, x.error_code);
        lemma_compact_string_at(s, q + 2, x.name);
        lemma_uuid_at(s, q + 2 + b.len(), x.topic_id);
        lemma_u8_at(s, q + 18 + b.len(), bool_byte(x.is_internal));
        lemma_compact_array_at::<PartitionInfo, PartitionInfo>(
            s,
            q + 19 + b.len(),
            x.partitions,
            enc,
            |y: PartitionView| partition_info_ok(y),
        );
        lemma_i32_at(s, q + 19 + b.len() + e.len(), x.topic_authorized_operations);
        lemma_tag_buffer_at(s, q + 23 + b.len() + e.len());
    }
}

/// A DescribeTopicPartitions response that the wire can carry, with
/// canonical topic ids.
pub open spec fn describe_response_ok(v: DescribeTopicPartitionsResponseView) -> bool {
    &&& v.topics.len() < i64::MAX
    &&& forall|i: int| 0 <= i < v.topics.len() ==> topic_info_ok(#[trigger] v.topics[i])
}

/// A DescribeTopicPartitions response, encoded, decodes back to itself
/// whatever follows it.
pub proof fn describe_response_round_trip(v: DescribeTopicPartitionsResponseView, s: Seq<u8>)
    requires
        describe_response_ok(v),
        bytes_at(s, 0, DescribeTopicPartitionsResponseV0::wire(v)),
    ensures
        parse_describe_response(s, 0) == Some((v, DescribeTopicPartitionsResponseV0::wire(v).len() as int)),
{
    let enc = |x: TopicView| Topic::wire(x);
    let a = i32_bytes(v.correlation_id);
    let t = tag_buffer_bytes();
    let b = i32_bytes(v.throttle_time_ms);
    let c = compact_array_bytes::<Topic>(v.topics);
    let d = u8_bytes(v.next_cursor);
    let e = tag_buffer_bytes();
    lemma_compact_array_bytes::<Topic>(v.topics);
    lemma_be_bytes_len(v.correlation_id as u32 as nat, 4);
    lemma_be_bytes_len(v.throttle_time_ms as u32 as nat, 4);
    lemma_be_bytes_len(v.next_cursor as nat, 1);
    assert(DescribeTopicPartitionsResponseV0::wire(v) == a + t + b + c + d + e);
    lemma_split(s, 0, a + t + b + c + d, e);
    lemma_split(s, 0, a + t + b + c, d);
    lemma_split(s, 0, a + t + b, c);
    lemma_split(s, 0, a + t, b);
    lemma_split(s, 0, a, t);
    lemma_i32_at(s, 0, v.correlation_id);
    lemma_tag_buffer_at(s, 4);
    lemma_i32_at(s, 5, v.throttle_time_ms);
    lemma_topic_info_reads_back(s);
    lemma_compact_array_at::<Topic, Topic>(s, 9, v.topics, enc, |x: TopicView| topic_info_ok(x));
    lemma_u8_at(s, (9 + c.len()) as int, v.next_cursor);
    lemma_tag_buffer_at(s, (10 + c.len()) as int);
}

proof fn lemma_aborted_reads_back(s: Seq<u8>)
    ensures
        reads_back::<AbortedTransaction, AbortedTransaction>(
            s,
            |x: AbortedTransaction| AbortedTransaction::wire(x),
            |x: AbortedTransaction| true,
        ),
{
    assert forall|q: int, x: AbortedTransaction| true && #[trigger] bytes_at(s, q, AbortedTransaction::wire(x)) implies <AbortedTransaction as Deserialize<
        AbortedTransaction,
    >>::parse(s, q) == Some((x, q + AbortedTransaction::wire(x).len())) by {
        let a = i64_bytes(x.producer_id);
        let b = i64_bytes(x.first_offset);
        let c = tag_buffer_bytes();
        lemma_be_bytes_len(x.producer_id as u64 as nat, 8);
        lemma_be_bytes_len(x.first_offset as u64 as nat, 8);
        lemma_split(s, q, a + b, c);
        lemma_split(s, q, a, b);
        lemma_i64_at(s, q, x.producer_id);
        lemma_i64_at(s, q + 8, x.first_offset);
        lemma_tag_buffer_at(s, q + 16);
    }
}

pub open spec fn topic_partition_ok(v: TopicPartitionView) -> bool {
    v.aborted_transactions.len() < i64::MAX && v.record_batches.len() + 1 < i64::MAX
}

proof fn lemma_topic_partition_reads_back(s: Seq<u8>)
    ensures
        reads_back::<TopicPartition, TopicPartition>(
            s,
            |x: TopicPartitionView| TopicPartition::wire(x),
            |x: TopicPartitionView| topic_partition_ok(x),
        ),
{
    lemma_aborted_reads_back(s);
    assert forall|q: int, x: TopicPartitionView| topic_partition_ok(x) && #[trigger] bytes_at(s, q, TopicPartition::wire(x)) implies <TopicPartition as Deserialize<
        TopicPartition,
    >>::parse(s, q) == Some((x, q + TopicPartition::wire(x).len())) by {
        let enc = |y: AbortedTransaction| AbortedTransaction::wire(y);
        let a = u32_bytes(x.partition_index);
        let b = i16_bytes(x.error_code.spec_code());
        let c = i64_bytes(x.high_watermark);
        let d = i64_bytes(x.last_stable_offset);
        let e = i64_bytes(x.log_start_offset);
        let f = compact_array_bytes::<AbortedTransaction>(x.aborted_transactions);
        let g = i32_bytes(x.preferred_read_replica);
        let h = compact_bytes_bytes(x.record_batches);
        let i = tag_buffer_bytes();
        lemma_compact_array_bytes::<AbortedTransaction>(x.aborted_transactions);
        lemma_be_bytes_len(x.partition_index as nat, 4);
        lemma_be_bytes_len(x.error_code.spec_code() as u16 as nat, 2);
        lemma_be_bytes_len(x.high_watermark as u64 as nat, 8);
        lemma_be_bytes_len(x.last_stable_offset as u64 as nat, 8);
        lemma_be_bytes_len(x.log_start_offset as u64 as nat, 8);
        lemma_be_bytes_len(x.preferred_read_replica as u32 as nat, 4);
        lemma_split(s, q, a + b + c + d + e + f + g + h, i);
        lemma_split(s, q, a + b + c + d + e + f + g, h);
        lemma_split(s, q, a + b + c + d + e + f, g);
        lemma_split(s, q, a + b + c + d + e, f);
        lemma_split(s, q, a + b + c + d, e);
        lemma_split(s, q, a + b + c, d);
        lemma_split(s, q, a + b, c);
        lemma_split(s, q, a, b);
        lemma_u32_at(s, q, x.partition_index);
        lemma_error_code_at(s, q + 4, x.error_code);
        lemma_i64_at(s, q + 6, x.high_watermark);
        lemma_i64_at(s, q + 14, x.last_stable_offset);
        lemma_i64_at(s, q + 22, x.log_start_offset);
        lemma_compact_array_at::<AbortedTransaction, AbortedTransaction>(
            s,
            q + 30,
            x.aborted_transactions,
            enc,
            |y: AbortedTransaction| true,
        );
        lemma_i32_at(s, q + 30 + f.len(), x.preferred_read_replica);
        lemma_compact_bytes_at(s, q + 34 + f.len(), x.record_batches);
        lemma_tag_buffer_at(s, q + 34 + f.len() + h.len());
    }
}

pub open spec fn topic_response_ok(v: TopicResponseView) -> bool {
    &&& is_canonical_uuid_text(v.topic_id)
    &&& v.partitions.len() < i64::MAX
    &&& forall|i: int| 0 <= i < v.partitions.len() ==> topic_partition_ok(#[trigger] v.partitions[i])
}

proof fn lemma_topic_response_reads_back(s: Seq<u8>)
    ensures
        reads_back::<TopicResponse, TopicResponse>(
            s,
            |x: TopicResponseView| TopicResponse::wire(x),
            |x: TopicResponseView| topic_response_ok(x),
        ),
{
    lemma_topic_partition_reads_back(s);
    assert forall|q: int, x: TopicResponseView| topic_response_ok(x) && #[trigger] bytes_at(s, q, TopicResponse::wire(x)) implies <TopicResponse as Deserialize<
        TopicResponse,
    >>::parse(s, q) == Some((x, q + TopicResponse::wire(x).len())) by {
        let enc = |y: TopicPartitionView| TopicPartition::wire(y);
        let a = uuid_bytes(x.topic_id);
        let b = compact_array_bytes::<TopicPartition>(x.partitions);
        let c = tag_buffer_bytes();
        lemma_compact_array_bytes::<TopicPartition>(x.partitions);
        uuid_round_trip(x.topic_id);
        lemma_split(s, q, a + b, c);
        lemma_split(s, q, a, b);
        lemma_uuid_at(s, q, x.topic_id);
        lemma_compact_array_at::<TopicPartition, TopicPartition>(
            s,
            q + 16,
            x.partitions,
            enc,
            |y: TopicPartitionView| topic_partition_ok(y),
        );
        lemma_tag_buffer_at(s, q + 16 + b.len());
    }
}

/// A Fetch response that the wire can carry, with canonical topic ids.
pub open spec fn fetch_response_ok(v: FetchResponseView) -> bool {
    &&& v.responses.len() < i64::MAX
    &&& forall|i: int| 0 <= i < v.responses.len() ==> topic_response_ok(#[trigger] v.responses[i])
}

/// A Fetch response, encoded, decodes back to itself whatever follows it.
pub proof fn fetch_response_round_trip(v: FetchResponseView, s: Seq<u8>)
    requires
        fetch_response_ok(v),
        bytes_at(s, 0, FetchResponseV16::wire(v)),
    ensures
        parse_fetch_response(s, 0) == Some((v, FetchResponseV16::wire(v).len() as int)),
{
    let enc = |x: TopicResponseView| TopicResponse::wire(x);
    let a = i32_bytes(v.correlation_id);
    let t = tag_buffer_bytes();
    let b = i32_bytes(v.throttle_time_ms);
    let c = i16_bytes(v.error_code.spec_code());
    let d = u32_bytes(v.session_id);
    let e = compact_array_bytes::<TopicResponse>(v.responses);
    let f = tag_buffer_bytes();
    lemma_compact_array_bytes::<TopicResponse>(v.responses);
    lemma_be_bytes_len(v.correlation_id as u32 as nat, 4);
    lemma_be_bytes_len(v.throttle_time_ms as u32 as nat, 4);
    lemma_be_bytes_len(v.error_code.spec_code() as u16 as nat, 2);
    lemma_be_bytes_len(v.session_id as nat, 4);
    assert(FetchResponseV16::wire(v) == a + t + b + c + d + e + f);
    lemma_split(s, 0, a + t + b + c + d + e, f);
    lemma_split(s, 0, a + t + b + c + d, e);
    lemma_split(s, 0, a + t + b + c, d);
    lemma_split(s, 0, a + t + b, c);
    lemma_split(s, 0, a + t, b);
    lemma_split(s, 0, a, t);
    lemma_i32_at(s, 0, v.correlation_id);
    lemma_tag_buffer_at(s, 4);
    lemma_i32_at(s, 5, v.throttle_time_ms);
    lemma_error_code_at(s, 9, v.error_code);
    lemma_u32_at(s, 11, v.session_id);
    lemma_topic_response_reads_back(s);
    lemma_compact_array_at::<TopicResponse, TopicResponse>(s, 15, v.responses, enc, |x: TopicResponseView| topic_response_ok(x));
    lemma_tag_buffer_at(s, (15 + e.len()) as int);
}

} // verus!
