//! API keys, error codes and the length frame around each response.

use crate::types::{
    be_bytes, lemma_be_bytes_len, lemma_be_round_trip, parse_i32, pow256, put_slice, write_i32,
};
use vstd::prelude::*;

verus! {

/// The request kinds that the server serves.
#[derive(Clone, Copy, Debug, PartialEq, Eq, Structural)]
pub enum ApiKey {
    Fetch,
    ApiVersions,
    DescribeTopicPartitions,
}

impl ApiKey {
    pub open spec fn spec_code(self) -> i16 {
        match self {
            ApiKey::Fetch => 1,
            ApiKey::ApiVersions => 18,
            ApiKey::DescribeTopicPartitions => 75,
        }
    }

    /// The key on the wire.
    pub fn code(self) -> (r: i16)
        ensures
            r == self.spec_code(),
    {
        match self {
            ApiKey::Fetch => 1,
            ApiKey::ApiVersions => 18,
            ApiKey::DescribeTopicPartitions => 75,
        }
    }

    pub open spec fn spec_from_code(code: i16) -> Option<ApiKey> {
        if code == 1 {
            Some(ApiKey::Fetch)
        } else if code == 18 {
            Some(ApiKey::ApiVersions)
        } else if code == 75 {
            Some(ApiKey::DescribeTopicPartitions)
        } else {
            None
        }
    }

    /// The kind of request that a key on the wire names, if it is served.
    pub fn from_code(code: i16) -> (r: Option<ApiKey>)
        ensures
            r == Self::spec_from_code(code),
            r matches Some(k) ==> k.spec_code() == code,
    {
        if code == 1 {
            Some(ApiKey::Fetch)
        } else if code == 18 {
            Some(ApiKey::ApiVersions)
        } else if code == 75 {
            Some(ApiKey::DescribeTopicPartitions)
        } else {
            None
        }
    }

    /// Whether the handler of this kind reads the cluster-metadata log.
    pub fn reads_metadata_log(self) -> (r: bool)
        ensures
            r == (self != ApiKey::ApiVersions),
    {
        match self {
            ApiKey::ApiVersions => false,
            _ => true,
        }
    }
}

/// The error codes that responses carry.
#[derive(Clone, Copy, Debug, PartialEq, Eq, Structural)]
pub enum ErrorCode {
    NoError,
    UnknownTopicOrPartition,
    UnsupportedVersion,
    InvalidRequest,
    UnknownTopicId,
}

impl ErrorCode {
    pub open spec fn spec_code(self) -> i16 {
        match self {
            ErrorCode::NoError => 0,
            ErrorCode::UnknownTopicOrPartition => 3,
            ErrorCode::UnsupportedVersion => 35,
            ErrorCode::InvalidRequest => 42,
            ErrorCode::UnknownTopicId => 100,
        }
    }

    /// The code on the wire.
    pub fn code(self) -> (r: i16)
        ensures
            r == self.spec_code(),
    {
        match self {
            ErrorCode::NoError => 0,
            ErrorCode::UnknownTopicOrPartition => 3,
            ErrorCode::UnsupportedVersion => 35,
            ErrorCode::InvalidRequest => 42,
            ErrorCode::UnknownTopicId => 100,
        }
    }
}

impl View for ErrorCode {
    type V = ErrorCode;

    open spec fn view(&self) -> ErrorCode {
        *self
    }
}

impl ErrorCode {
    pub open spec fn spec_from_code(code: i16) -> Option<ErrorCode> {
        if code == 0 {
            Some(ErrorCode::NoError)
        } else if code == 3 {
            Some(ErrorCode::UnknownTopicOrPartition)
        } else if code == 35 {
            Some(ErrorCode::UnsupportedVersion)
        } else if code == 42 {
            Some(ErrorCode::InvalidRequest)
        } else if code == 100 {
            Some(ErrorCode::UnknownTopicId)
        } else {
            None
        }
    }

    /// The error that a code on the wire names, if it is one of these.
    pub fn from_code(code: i16) -> (r: Option<ErrorCode>)
        ensures
            r == Self::spec_from_code(code),
    {
        if code == 0 {
            Some(ErrorCode::NoError)
        } else if code == 3 {
            Some(ErrorCode::UnknownTopicOrPartition)
        } else if code == 35 {
            Some(ErrorCode::UnsupportedVersion)
        } else if code == 42 {
            Some(ErrorCode::InvalidRequest)
        } else if code == 100 {
            Some(ErrorCode::UnknownTopicId)
        } else {
            None
        }
    }
}

/// The largest message that the server reads: 100 MiB.
pub const MAX_MESSAGE_SIZE: i32 = 104857600;

/// Why a size prefix is refused.
#[derive(Clone, Copy, Debug, PartialEq, Eq, Structural)]
pub enum FrameError {
    /// The prefix is negative.
    NegativeSize,
    /// The prefix exceeds the largest message read.
    TooLarge,
}

/// The size of the message that a 4-byte big-endian prefix announces.
pub fn message_size(prefix: [u8; 4]) -> (r: Result<usize, FrameError>)
    ensures
        ({
            let n = (prefix@[0] as int * 0x1000000 + prefix@[1] as int * 0x10000 + prefix@[2] as int
                * 0x100 + prefix@[3] as int) as u32 as i32;
            &&& n < 0 ==> r == Err::<usize, FrameError>(FrameError::NegativeSize)
            &&& n > MAX_MESSAGE_SIZE ==> r == Err::<usize, FrameError>(FrameError::TooLarge)
            &&& 0 <= n <= MAX_MESSAGE_SIZE ==> r == Ok::<usize, FrameError>(n as usize)
        }),
{
    let v: u32 = prefix[0] as u32 * 0x1000000 + prefix[1] as u32 * 0x10000 + prefix[2] as u32 * 0x100
        + prefix[3] as u32;
    let n = v as i32;
    if n < 0 {
        Err(FrameError::NegativeSize)
    } else if n > MAX_MESSAGE_SIZE {
        Err(FrameError::TooLarge)
    } else {
        Ok(n as usize)
    }
}

/// A response with its 4-byte big-endian size prefix.
pub struct ResponseMessage {
    pub bytes: Vec<u8>,
}

impl ResponseMessage {
    /// Prepends the size of `src` to it.
    pub fn from_bytes(src: &[u8]) -> (r: ResponseMessage)
        requires
            src@.len() <= i32::MAX,
        ensures
            r.bytes@ == be_bytes(src@.len(), 4) + src@,
    {
        let mut bytes: Vec<u8> = Vec::new();
        write_i32(&mut bytes, src.len() as i32);
        put_slice(&mut bytes, src);
        proof {
            assert(bytes@ =~= be_bytes(src@.len(), 4) + src@);
        }
        ResponseMessage { bytes }
    }

    pub fn as_bytes(&self) -> (r: &[u8])
        ensures
            r@ == self.bytes@,
    {
        self.bytes.as_slice()
    }
}

/// The size prefix of a framed response reads back as the exact number of
/// bytes that follow it.
pub proof fn length_frame(body: Seq<u8>)
    requires
        body.len() <= i32::MAX,
    ensures
        ({
            let framed = be_bytes(body.len(), 4) + body;
            &&& parse_i32(framed, 0) == Some((body.len() as i32, 4int))
            &&& framed.len() - 4 == body.len()
        }),
{
    let framed = be_bytes(body.len(), 4) + body;
    lemma_be_bytes_len(body.len(), 4);
    assert(framed.subrange(0, 4) =~= be_bytes(body.len(), 4));
    lemma_be_round_trip(framed, 0, body.len(), 4);
    reveal_with_fuel(pow256, 5);
    assert(pow256(4) == 0x100000000);
    assert(body.len() % 0x100000000 == body.len());
    assert(framed.len() >= 4);
}

} // verus!
