use vstd::prelude::*;
use vstd::string::*;
use vstd::utf8::encode_utf8;

verus! {

/// The label that tags every pushed stream as firewall traffic.
pub const STREAM_LABEL: &'static str = "{namespace=\"iptables\"}";

/// Largest input, in bytes, that the block compressor takes (`u32::MAX`).
pub const COMPRESS_INPUT_MAX: u64 = 0xffff_ffff;

#[verifier::external_type_specification]
#[verifier::external_body]
pub struct ExSnappyEncoder(snap::raw::Encoder);

#[verifier::external_type_specification]
#[verifier::external_body]
pub struct ExSnappyError(snap::Error);

/// Protobuf base-128 varint: seven bits per byte, least significant first,
/// high bit set on every byte but the last.
pub open spec fn varint(v: u64) -> Seq<u8>
    decreases v,
{
    if v < 128 {
        seq![v as u8]
    } else {
        seq![((v % 128) + 128) as u8] + varint(v / 128)
    }
}

/// A length-delimited field (wire type 2): key, payload length, payload.
pub open spec fn length_delimited(field: u64, payload: Seq<u8>) -> Seq<u8> {
    varint((field * 8 + 2) as u64) + varint(payload.len() as u64) + payload
}

/// `google.protobuf.Timestamp` with whole seconds; zero fields are omitted.
pub open spec fn timestamp_message(seconds: i64) -> Seq<u8> {
    if seconds == 0 {
        Seq::empty()
    } else {
        varint(8) + varint(seconds as u64)
    }
}

/// One log entry: its timestamp (always present) and its line (omitted when empty).
pub open spec fn entry_message(seconds: i64, line: Seq<char>) -> Seq<u8> {
    length_delimited(1, timestamp_message(seconds)) + if line.len() == 0 {
        Seq::<u8>::empty()
    } else {
        length_delimited(2, encode_utf8(line))
    }
}

/// The repeated `entries` field of a stream, one element per entry, in order.
pub open spec fn entries_field(entries: Seq<(i64, String)>) -> Seq<u8>
    decreases entries.len(),
{
    if entries.len() == 0 {
        Seq::empty()
    } else {
        entries_field(entries.drop_last()) + length_delimited(
            2,
            entry_message(entries.last().0, entries.last().1@),
        )
    }
}

/// The serialized push request: one stream, labelled with `STREAM_LABEL`,
/// holding every entry in order.
pub open spec fn push_request_bytes(entries: Seq<(i64, String)>) -> Seq<u8> {
    length_delimited(
        1,
        length_delimited(1, encode_utf8(STREAM_LABEL@)) + entries_field(entries),
    )
}

/// Whether the block compressor takes an input of `n` bytes: its worst-case
/// output bound must stay within `COMPRESS_INPUT_MAX`.
pub open spec fn compressible_len(n: int) -> bool {
    32 + n + n / 6 <= COMPRESS_INPUT_MAX
}

/// The raw Snappy block compression of `input`.
pub uninterp spec fn snappy_block(input: Seq<u8>) -> Seq<u8>;

/// Relies on prost::encoding::encode_varint: appends the varint of `value`.
#[verifier::external_body]
fn put_varint(value: u64, buf: &mut Vec<u8>)
    ensures
        final(buf)@ == old(buf)@ + varint(value),
{
    prost::encoding::encode_varint(value, buf)
}

/// Relies on snap::raw::Encoder::compress_vec: it fails exactly when
/// `max_compress_len` of the input length is 0, and otherwise returns the
/// compressed block.
#[verifier::external_body]
fn compress_block(enc: &mut snap::raw::Encoder, input: &Vec<u8>) -> (r: Result<Vec<u8>, snap::Error>)
    ensures
        r is Ok <==> compressible_len(input@.len() as int),
        r matches Ok(out) ==> out@ == snappy_block(input@),
{
    enc.compress_vec(input.as_slice())
}

/// Appends field `field` holding `payload`, and leaves `payload` empty.
fn put_length_delimited(field: u64, payload: &mut Vec<u8>, buf: &mut Vec<u8>)
    requires
        field < 16,
    ensures
        final(buf)@ == old(buf)@ + length_delimited(field, old(payload)@),
        final(payload)@.len() == 0,
{
    put_varint(field * 8 + 2, buf);
    put_varint(payload.len() as u64, buf);
    buf.append(payload);
    assert(buf@ =~= old(buf)@ + length_delimited(field, old(payload)@));
}

/// Appends the bytes of one entry message.
fn put_entry(seconds: i64, line: &String, buf: &mut Vec<u8>)
    ensures
        final(buf)@ == old(buf)@ + entry_message(seconds, line@),
{
    let mut ts: Vec<u8> = Vec::new();
    if seconds != 0 {
        put_varint(8, &mut ts);
        put_varint(seconds as u64, &mut ts);
    }
    assert(ts@ =~= timestamp_message(seconds));
    put_length_delimited(1, &mut ts, buf);
    if line.as_str().unicode_len() != 0 {
        let mut text = line.as_str().as_bytes_vec();
        put_length_delimited(2, &mut text, buf);
    }
    assert(buf@ =~= old(buf)@ + entry_message(seconds, line@));
}

/// Appends the serialized push request for `entries`.
pub fn encode_push_request(entries: &Vec<(i64, String)>, buf: &mut Vec<u8>)
    ensures
        final(buf)@ == old(buf)@ + push_request_bytes(entries@),
{
    let mut stream: Vec<u8> = Vec::new();
    let mut label = STREAM_LABEL.as_bytes_vec();
    put_length_delimited(1, &mut label, &mut stream);
    let ghost head = stream@;
    let mut i: usize = 0;
    while i < entries.len()
        invariant
            i <= entries.len(),
            stream@ == head + entries_field(entries@.take(i as int)),
        decreases entries.len() - i,
    {
        let mut one: Vec<u8> = Vec::new();
        put_entry(entries[i].0, &entries[i].1, &mut one);
        put_length_delimited(2, &mut one, &mut stream);
        proof {
            let next = entries@.take(i + 1);
            assert(next.drop_last() =~= entries@.take(i as int));
            assert(stream@ =~= head + entries_field(next));
        }
        i = i + 1;
    }
    assert(entries@.take(entries.len() as int) =~= entries@);
    put_length_delimited(1, &mut stream, buf);
}

/// Serializes the batch in `entries` into a push request and compresses it.
/// `entries` and `encode_buf` are left empty whatever the outcome;
/// `encode_buf` is scratch space whose capacity serves the next batch.
pub fn create_push_request(
    snappy: &mut snap::raw::Encoder,
    encode_buf: &mut Vec<u8>,
    entries: &mut Vec<(i64, String)>,
) -> (r: Result<Vec<u8>, PushError>)
    ensures
        final(entries)@.len() == 0,
        final(encode_buf)@.len() == 0,
        r is Ok <==> compressible_len(push_request_bytes(old(entries)@).len() as int),
        r matches Ok(out) ==> out@ == snappy_block(push_request_bytes(old(entries)@)),
        r matches Err(e) ==> e == PushError::TooBig,
{
    encode_buf.clear();
    encode_push_request(entries, encode_buf);
    assert(encode_buf@ =~= push_request_bytes(old(entries)@));
    entries.clear();
    let r = match compress_block(snappy, encode_buf) {
        Ok(out) => Ok(out),
        Err(_) => Err(PushError::TooBig),
    };
    encode_buf.clear();
    r
}

/// Failure to build a push payload.
#[derive(Debug, Clone, Copy, PartialEq, Eq, Structural)]
pub enum PushError {
    /// The serialized batch exceeds what the block compressor takes.
    TooBig,
}

} // verus!
