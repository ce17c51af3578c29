//! The envelope around a stored cache: a mark, a version and a length in
//! front of the payload, so that a file of another make is told apart from a
//! damaged one.

use vstd::bytes::{
    lemma_auto_spec_u64_to_from_le_bytes, spec_u64_from_le_bytes, spec_u64_to_le_bytes,
    u64_from_le_bytes, u64_to_le_bytes,
};
use vstd::prelude::*;
use vstd::slice::slice_subrange;

verus! {

/// The name of the file that holds the cache.
pub const CACHE_FILE_NAME: &'static str = "cache.bin";

/// The version of the envelope that is written.
pub const ENVELOPE_VERSION: u8 = 1;

/// The length of what stands in front of the payload: four bytes of mark,
/// one of version, eight of length.
pub const ENVELOPE_HEADER_LEN: usize = 13;

/// Why bytes hold no cache.
#[derive(Clone, Copy, Debug, PartialEq, Eq, Structural)]
pub enum EnvelopeError {
    /// The bytes do not start with the mark: the file is of another make.
    /// The cache starts empty.
    Foreign,
    /// The envelope is of another version. The cache starts empty.
    UnsupportedVersion(u8),
    /// The length in the envelope is not that of the payload: the file is
    /// damaged, and is for the user to delete.
    Corrupt,
}

/// The four bytes that every envelope starts with.
pub open spec fn envelope_mark() -> Seq<u8> {
    seq![0x52u8, 0x50u8, 0x41u8, 0x44u8]
}

/// The payload in its envelope.
pub open spec fn framed(payload: Seq<u8>) -> Seq<u8> {
    envelope_mark() + seq![ENVELOPE_VERSION] + spec_u64_to_le_bytes(payload.len() as u64) + payload
}

/// The payload out of its envelope, or why there is none.
pub open spec fn unframed(bytes: Seq<u8>) -> Result<Seq<u8>, EnvelopeError> {
    if bytes.len() < ENVELOPE_HEADER_LEN || bytes.subrange(0, 4) != envelope_mark() {
        Err(EnvelopeError::Foreign)
    } else if bytes[4] != ENVELOPE_VERSION {
        Err(EnvelopeError::UnsupportedVersion(bytes[4]))
    } else if spec_u64_from_le_bytes(bytes.subrange(5, 13)) != bytes.len() - ENVELOPE_HEADER_LEN {
        Err(EnvelopeError::Corrupt)
    } else {
        Ok(bytes.subrange(ENVELOPE_HEADER_LEN as int, bytes.len() as int))
    }
}

/// Puts a payload into its envelope.
pub fn frame(payload: &[u8]) -> (bytes: Vec<u8>)
    ensures
        bytes@ == framed(payload@),
        unframed(bytes@) == Ok::<Seq<u8>, EnvelopeError>(payload@),
{
    let payload_len = payload.len();
    let mut bytes: Vec<u8> = Vec::new();
    bytes.push(0x52);
    bytes.push(0x50);
    bytes.push(0x41);
    bytes.push(0x44);
    bytes.push(ENVELOPE_VERSION);
    let length = u64_to_le_bytes(payload_len as u64);
    bytes.extend_from_slice(length.as_slice());
    bytes.extend_from_slice(payload);
    proof {
        assert(bytes@ =~= framed(payload@));
        lemma_frame_round_trip(payload@);
    }
    bytes
}

/// Takes a payload out of its envelope.
pub fn unframe(bytes: &[u8]) -> (payload: Result<Vec<u8>, EnvelopeError>)
    ensures
        payload is Ok <==> unframed(bytes@) is Ok,
        payload is Ok ==> payload->Ok_0@ == unframed(bytes@)->Ok_0,
        payload is Err ==> unframed(bytes@) == Err::<Seq<u8>, EnvelopeError>(payload->Err_0),
{
    let len = bytes.len();
    if len < ENVELOPE_HEADER_LEN {
        return Err(EnvelopeError::Foreign);
    }
    if bytes[0] != 0x52 || bytes[1] != 0x50 || bytes[2] != 0x41 || bytes[3] != 0x44 {
        assert(bytes@.subrange(0, 4) != envelope_mark()) by {
            let mark = bytes@.subrange(0, 4);
            assert(mark[0] == bytes@[0] && mark[1] == bytes@[1] && mark[2] == bytes@[2] && mark[3]
                == bytes@[3]);
        }
        return Err(EnvelopeError::Foreign);
    }
    assert(bytes@.subrange(0, 4) =~= envelope_mark());
    if bytes[4] != ENVELOPE_VERSION {
        return Err(EnvelopeError::UnsupportedVersion(bytes[4]));
    }
    let length = u64_from_le_bytes(slice_subrange(bytes, 5, 13));
    let rest = len - ENVELOPE_HEADER_LEN;
    if length != rest as u64 {
        return Err(EnvelopeError::Corrupt);
    }
    let mut payload: Vec<u8> = Vec::new();
    payload.extend_from_slice(slice_subrange(bytes, ENVELOPE_HEADER_LEN, len));
    assert(payload@ =~= bytes@.subrange(ENVELOPE_HEADER_LEN as int, len as int));
    Ok(payload)
}

/// What is put into an envelope comes out of it unchanged.
pub proof fn lemma_frame_round_trip(payload: Seq<u8>)
    requires
        payload.len() <= u64::MAX,
    ensures
        unframed(framed(payload)) == Ok::<Seq<u8>, EnvelopeError>(payload),
{
    lemma_auto_spec_u64_to_from_le_bytes();
    let bytes = framed(payload);
    let length = spec_u64_to_le_bytes(payload.len() as u64);
    assert(length.len() == 8);
    assert(bytes.subrange(0, 4) =~= envelope_mark());
    assert(bytes[4] == ENVELOPE_VERSION);
    assert(bytes.subrange(5, 13) =~= length);
    assert(bytes.subrange(ENVELOPE_HEADER_LEN as int, bytes.len() as int) =~= payload);
}

} // verus!
