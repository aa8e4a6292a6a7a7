//! A partial server-side implementation of the Kafka wire protocol: a codec
//! for the wire primitives, decoders for the supported requests, encoders for
//! their responses, the request handlers, and a reader for the KRaft
//! cluster-metadata log.

pub mod error;
pub mod fetch_responses;
pub mod logic;
pub mod protocol;
pub mod record_batch;
pub mod request;
pub mod response;
pub mod response_decode;
pub mod round_trip;
pub mod topic_partitions;
pub mod types;
