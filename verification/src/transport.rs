//! What the agent exchanges with HQ: the compressed event batch and the
//! heartbeat messages. Serializing events to JSON and the HTTP exchange
//! itself are the caller's part.
use vstd::prelude::*;

use crate::policy::Policy;
use crate::text::{append, owned};

verus! {

/// `std::io::Error`, as the compressor reports failures.
#[verifier::external_type_specification]
#[verifier::external_body]
pub struct ExIoError(std::io::Error);

/// The zstd frame (level 3, content size recorded in the frame header) that
/// `zstd::stream::write::Encoder` produces for `data`.
pub uninterp spec fn zstd_frame_spec(data: Seq<u8>) -> Seq<u8>;

/// `zstd::stream::write::Encoder` at level 3 with the source size pledged
/// and recorded in the frame header: the frame for `data`. The sequence
/// (create the encoder on a `Vec`, pledge `data.len()`, include the content
/// size, write `data`, finish) succeeds: level 3 is a valid level, the
/// pledged size is the size written, and writing into a `Vec` cannot fail.
#[verifier::external_body]
fn zstd_encode_sized(data: &[u8]) -> (r: Result<Vec<u8>, std::io::Error>)
    ensures
        r is Ok,
        r matches Ok(v) ==> v@ == zstd_frame_spec(data@),
{
    let mut encoder = zstd::stream::write::Encoder::new(Vec::new(), 3)?;
    encoder.set_pledged_src_size(Some(data.len() as u64))?;
    encoder.include_contentsize(true)?;
    std::io::Write::write_all(&mut encoder, data)?;
    encoder.finish()
}

/// The compressor failed.
#[derive(Debug, Clone, Copy, PartialEq, Eq, Structural)]
pub enum BatchError {
    Compression,
}

/// The serialized events joined by commas.
pub open spec fn join_items(items: Seq<Seq<u8>>) -> Seq<u8>
    decreases items.len(),
{
    if items.len() == 0 {
        Seq::empty()
    } else if items.len() == 1 {
        items[0]
    } else {
        join_items(items.drop_last()) + seq![44u8] + items.last()
    }
}

/// The compact JSON array of the serialized events: `[e1,e2,...]`.
pub open spec fn json_array_spec(items: Seq<Seq<u8>>) -> Seq<u8> {
    seq![91u8] + join_items(items) + seq![93u8]
}

/// The byte contents of each serialized event.
pub open spec fn item_bytes(items: Seq<Vec<u8>>) -> Seq<Seq<u8>> {
    items.map_values(|v: Vec<u8>| v@)
}

/// Frame already serialized events (each one compact JSON object) as the
/// JSON array the backend expects, not as newline-delimited JSON.
pub fn frame_json_array(items: &[Vec<u8>]) -> (r: Vec<u8>)
    ensures
        r@ == json_array_spec(item_bytes(items@)),
{
    let mut out: Vec<u8> = Vec::new();
    out.push(91u8);
    let mut i: usize = 0;
    while i < items.len()
        invariant
            0 <= i <= items.len(),
            out@ == seq![91u8] + join_items(item_bytes(items@).take(i as int)),
        decreases items.len() - i,
    {
        let ghost before = out@;
        let ghost all = item_bytes(items@);
        if i > 0 {
            out.push(44u8);
        }
        let ghost mid = out@;
        out.extend_from_slice(items[i].as_slice());
        proof {
            assert(out@ =~= mid + items@[i as int]@);
            assert(all.take(i as int + 1).drop_last() =~= all.take(i as int));
            assert(all.take(i as int + 1).last() == items@[i as int]@);
            if i == 0 {
                assert(all.take(1) =~= seq![items@[0]@]);
            }
        }
        i += 1;
    }
    out.push(93u8);
    proof {
        assert(item_bytes(items@).take(items@.len() as int) =~= item_bytes(items@));
    }
    out
}

/// Event batching and compression before shipping.
pub struct Batcher;

impl Batcher {
    /// Frame the serialized events as one JSON array and compress it into a
    /// zstd frame that records the content size in its header, as the
    /// backend requires. This always succeeds.
    pub fn compress_batch(items: &[Vec<u8>]) -> (r: Result<Vec<u8>, BatchError>)
        ensures
            r matches Ok(v) && v@ == zstd_frame_spec(json_array_spec(item_bytes(items@))),
    {
        let json_array = frame_json_array(items);
        match zstd_encode_sized(json_array.as_slice()) {
            Ok(v) => Ok(v),
            Err(_) => Err(BatchError::Compression),
        }
    }
}

/// The exchanges with HQ.
#[derive(Debug, Clone, Copy, PartialEq, Eq, Structural)]
pub enum Endpoint {
    Register,
    Heartbeat,
    FetchPolicy,
    ShipEvents,
}

/// Whether HQ accepted a request: registration succeeds on 201 Created or
/// 200 OK only, every other exchange on any 2xx status.
pub open spec fn accepted_spec(endpoint: Endpoint, status: u16) -> bool {
    match endpoint {
        Endpoint::Register => status == 201 || status == 200,
        _ => 200 <= status <= 299,
    }
}

/// Whether HQ accepted a request, by its HTTP status code; otherwise the
/// exchange fails with the status and the response body.
pub fn status_accepted(endpoint: Endpoint, status: u16) -> (r: bool)
    ensures
        r == accepted_spec(endpoint, status),
{
    match endpoint {
        Endpoint::Register => status == 201 || status == 200,
        _ => 200 <= status && status <= 299,
    }
}

/// The error of a refused exchange: `"<what> failed: <status> - Response:
/// <body>"`.
pub fn failure_message(what: &str, status: &str, body: &str) -> (m: String)
    ensures
        m@ == what@ + " failed: "@ + status@ + " - Response: "@ + body@,
{
    let mut m = owned(what);
    append(&mut m, " failed: ");
    append(&mut m, status);
    append(&mut m, " - Response: ");
    append(&mut m, body);
    m
}

/// Heartbeat request body.
#[derive(Clone, Debug)]
pub struct HeartbeatRequest {
    pub policy_version: u64,
    /// Current role of the agent.
    pub role: String,
    /// Group/department this agent belongs to.
    pub group: String,
    pub uptime_secs: u64,
    pub buffer_depth: usize,
    pub events_shipped: u64,
}

/// Heartbeat response.
#[derive(Clone, Debug)]
pub struct HeartbeatResponse {
    pub status: String,
    /// The full policy update from the backend, if available.
    pub policy_update: Option<Policy>,
    /// New role assigned by the backend; `None` means "no change".
    pub role_assignment: Option<String>,
}

} // verus!
