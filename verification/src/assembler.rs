//! Inbound Frame Assembler: buffers the telephony provider's media chunks and
//! forwards them to the speech-recognition leg in provider arrival order,
//! batching small chunks into larger frames and flushing early when the
//! provider's chunk timestamps show the stream resumed after a gap.

use vstd::prelude::*;

use crate::b64::{base64_decode, base64_of};

verus! {

/// Flush once this much audio has accumulated: one frame the recognition
/// transport accepts comfortably (400 ms of 8 kHz mu-law).
pub const FLUSH_THRESHOLD_BYTES: usize = 3200;

/// Expected spacing of consecutive media-chunk timestamps, in milliseconds.
pub const CHUNK_INTERVAL_MS: u64 = 20;

/// Per-call buffering state of the assembler: the bytes not yet forwarded and
/// the timestamp of the last processed media chunk (zero before the first).
pub struct BufferData {
    pub inbound_buffer: Vec<u8>,
    pub inbound_last_timestamp: u64,
}

/// The provider's clock jumped past one chunk interval: the telephony side
/// resumed after a gap.
pub open spec fn spec_timestamp_gap(last: u64, ts: u64) -> bool {
    last != 0 && ts > last + CHUNK_INTERVAL_MS
}

/// One assembler step over already-decoded media bytes: append the chunk,
/// remember its timestamp, and flush the whole buffer when it reached the
/// frame size or the timestamps show a gap. Yields the state after the step
/// and the frame emitted, if any.
pub open spec fn spec_assembler_step(buffer: Seq<u8>, last: u64, chunk: Seq<u8>, ts: u64) -> (
    Seq<u8>,
    u64,
    Option<Seq<u8>>,
) {
    let grown = buffer + chunk;
    if grown.len() > 0 && (spec_timestamp_gap(last, ts) || grown.len()
        >= FLUSH_THRESHOLD_BYTES) {
        (Seq::empty(), ts, Some(grown))
    } else {
        (grown, ts, None)
    }
}

/// The bytes an emitted frame carries; none when nothing was emitted.
pub open spec fn spec_emitted(r: Option<Vec<u8>>) -> Seq<u8> {
    match r {
        Some(v) => v@,
        None => Seq::empty(),
    }
}

impl BufferData {
    /// Fresh per-call state: nothing buffered, no chunk seen yet.
    pub fn new() -> (r: Self)
        ensures
            r.inbound_buffer@ == Seq::<u8>::empty(),
            r.inbound_last_timestamp == 0,
    {
        BufferData { inbound_buffer: Vec::new(), inbound_last_timestamp: 0 }
    }
}

/// Feeds one decoded media chunk to the assembler. The step never reorders or
/// drops audio: the emitted frame (if any) followed by the remaining buffer is
/// exactly the old buffer followed by the chunk.
pub fn process_media_bytes(chunk: Vec<u8>, timestamp: u64, buf: &mut BufferData) -> (r: Option<
    Vec<u8>,
>)
    ensures
        ({
            let (nbuf, nlast, emit) = spec_assembler_step(
                old(buf).inbound_buffer@,
                old(buf).inbound_last_timestamp,
                chunk@,
                timestamp,
            );
            &&& final(buf).inbound_buffer@ == nbuf
            &&& final(buf).inbound_last_timestamp == nlast
            &&& spec_emitted(r) == spec_emitted_seq(emit)
            &&& r is Some <==> emit is Some
        }),
        spec_emitted(r) + final(buf).inbound_buffer@ == old(buf).inbound_buffer@ + chunk@,
{
    let ghost chunk0: Seq<u8> = chunk@;
    let mut chunk = chunk;
    buf.inbound_buffer.append(&mut chunk);
    let last = buf.inbound_last_timestamp;
    let gap = last != 0 && timestamp > last && timestamp - last > CHUNK_INTERVAL_MS;
    buf.inbound_last_timestamp = timestamp;
    if buf.inbound_buffer.len() > 0 && (gap || buf.inbound_buffer.len() >= FLUSH_THRESHOLD_BYTES) {
        let out = buf.inbound_buffer.split_off(0);
        proof {
            assert(out@ + buf.inbound_buffer@ =~= old(buf).inbound_buffer@ + chunk0);
        }
        Some(out)
    } else {
        proof {
            assert(Seq::<u8>::empty() + buf.inbound_buffer@ =~= old(buf).inbound_buffer@ + chunk0);
        }
        None
    }
}

/// The bytes a spec-level emission carries; none when nothing was emitted.
pub open spec fn spec_emitted_seq(e: Option<Seq<u8>>) -> Seq<u8> {
    match e {
        Some(s) => s,
        None => Seq::empty(),
    }
}

/// The assembler run over a whole sequence of decoded media events (chunk
/// bytes paired with their timestamp): the final state and the concatenation
/// of everything emitted along the way.
pub open spec fn spec_assembler_run(buffer: Seq<u8>, last: u64, events: Seq<(Seq<u8>, u64)>) -> (
    Seq<u8>,
    u64,
    Seq<u8>,
)
    decreases events.len(),
{
    if events.len() == 0 {
        (buffer, last, Seq::empty())
    } else {
        let (b1, l1, e1) = spec_assembler_step(buffer, last, events[0].0, events[0].1);
        let (bn, ln, en) = spec_assembler_run(b1, l1, events.drop_first());
        (bn, ln, spec_emitted_seq(e1) + en)
    }
}

/// All the audio bytes a sequence of media events carries, in arrival order.
pub open spec fn spec_concat_payloads(events: Seq<(Seq<u8>, u64)>) -> Seq<u8>
    decreases events.len(),
{
    if events.len() == 0 {
        Seq::empty()
    } else {
        events[0].0 + spec_concat_payloads(events.drop_first())
    }
}

/// For every sequence of inbound media events, the assembler forwards audio
/// bytes in the order they were received, with no reordering or loss across
/// frame boundaries: what was emitted, followed by what is still buffered, is
/// exactly what was buffered at the start followed by all received bytes.
pub proof fn lemma_assembler_preserves_order(
    buffer: Seq<u8>,
    last: u64,
    events: Seq<(Seq<u8>, u64)>,
)
    ensures
        ({
            let (bn, ln, emitted) = spec_assembler_run(buffer, last, events);
            emitted + bn == buffer + spec_concat_payloads(events)
        }),
    decreases events.len(),
{
    let (bn, ln, emitted) = spec_assembler_run(buffer, last, events);
    if events.len() == 0 {
        assert(emitted + bn =~= buffer + spec_concat_payloads(events));
    } else {
        let (b1, l1, e1) = spec_assembler_step(buffer, last, events[0].0, events[0].1);
        assert(spec_emitted_seq(e1) + b1 =~= buffer + events[0].0);
        lemma_assembler_preserves_order(b1, l1, events.drop_first());
        let (bn2, ln2, en) = spec_assembler_run(b1, l1, events.drop_first());
        assert(emitted + bn =~= buffer + spec_concat_payloads(events));
    }
}

/// The flush policy keeps the buffer bounded: whatever state the assembler
/// was in and whatever chunk arrived, the audio still buffered after a step
/// is less than one flush threshold.
pub proof fn lemma_assembler_buffer_bounded(buffer: Seq<u8>, last: u64, chunk: Seq<u8>, ts: u64)
    requires
        buffer.len() < FLUSH_THRESHOLD_BYTES,
    ensures
        ({
            let (nbuf, nlast, emit) = spec_assembler_step(buffer, last, chunk, ts);
            nbuf.len() < FLUSH_THRESHOLD_BYTES
        }),
{
}

/// A decimal digit.
pub open spec fn spec_is_digit(c: char) -> bool {
    '0' <= c && c <= '9'
}

/// Every character of the sequence is a decimal digit.
pub open spec fn spec_all_digits(s: Seq<char>) -> bool {
    forall|i: int| 0 <= i < s.len() ==> spec_is_digit(#[trigger] s[i])
}

/// The value of a digit string read as a base-10 numeral.
pub open spec fn spec_digits_value(s: Seq<char>) -> int
    decreases s.len(),
{
    if s.len() == 0 {
        0
    } else {
        spec_digits_value(s.drop_last()) * 10 + (s.last() as int - 48)
    }
}

/// What a provider timestamp string denotes: a non-empty, all-digit numeral
/// whose value fits in 64 bits; anything else is malformed.
pub open spec fn spec_parse_u64(s: Seq<char>) -> Option<u64> {
    if s.len() > 0 && spec_all_digits(s) && spec_digits_value(s) <= u64::MAX {
        Some(spec_digits_value(s) as u64)
    } else {
        None
    }
}

/// A digit string's value is never negative.
proof fn lemma_digits_value_nonneg(s: Seq<char>)
    requires
        spec_all_digits(s),
    ensures
        spec_digits_value(s) >= 0,
    decreases s.len(),
{
    if s.len() > 0 {
        assert(spec_all_digits(s.drop_last()));
        lemma_digits_value_nonneg(s.drop_last());
    }
}

/// Extending a digit string never shrinks its value.
proof fn lemma_digits_prefix_le(s: Seq<char>, i: int)
    requires
        spec_all_digits(s),
        0 <= i <= s.len(),
    ensures
        spec_digits_value(s.take(i)) <= spec_digits_value(s),
    decreases s.len() - i,
{
    if i == s.len() {
        assert(s.take(i) =~= s);
    } else {
        assert(s.take(i + 1).drop_last() =~= s.take(i));
        assert(s.take(i + 1).last() == s[i]);
        assert(spec_all_digits(s.take(i)));
        lemma_digits_value_nonneg(s.take(i));
        assert(spec_digits_value(s.take(i + 1)) == spec_digits_value(s.take(i)) * 10 + (s[i] as int
            - 48));
        assert(spec_digits_value(s.take(i)) <= spec_digits_value(s.take(i + 1)));
        lemma_digits_prefix_le(s, i + 1);
    }
}

/// Reads a provider timestamp: the value of a non-empty decimal numeral, or
/// nothing when the string is empty, has a non-digit, or overflows 64 bits.
pub fn parse_decimal_u64(s: &str) -> (r: Option<u64>)
    ensures
        r == spec_parse_u64(s@),
{
    let n = s.unicode_len();
    if n == 0 {
        return None;
    }
    let mut acc: u64 = 0;
    let mut i: usize = 0;
    while i < n
        invariant
            n == s@.len(),
            0 <= i <= n,
            spec_all_digits(s@.take(i as int)),
            acc == spec_digits_value(s@.take(i as int)),
        decreases n - i,
    {
        let c = s.get_char(i);
        let cv: u32 = c as u32;
        if cv < 48 || cv > 57 {
            proof {
                assert(!spec_is_digit(s@[i as int]));
            }
            return None;
        }
        let d: u64 = (cv - 48) as u64;
        proof {
            assert(s@.take(i + 1).drop_last() =~= s@.take(i as int));
            assert(s@.take(i + 1).last() == s@[i as int]);
        }
        if acc > (u64::MAX - d) / 10 {
            proof {
                vstd::arithmetic::div_mod::lemma_fundamental_div_mod((u64::MAX - d) as int, 10);
                vstd::arithmetic::div_mod::lemma_mod_bound((u64::MAX - d) as int, 10);
                assert(acc * 10 + d > u64::MAX) by (nonlinear_arith)
                    requires
                        acc as int > ((u64::MAX - d) as int) / 10,
                        (u64::MAX - d) as int == 10 * (((u64::MAX - d) as int) / 10) + ((u64::MAX
                            - d) as int) % 10,
                        0 <= ((u64::MAX - d) as int) % 10 < 10,
                        0 <= d <= 9,
                {
                }
                assert(spec_digits_value(s@.take(i + 1)) > u64::MAX);
                assert(spec_all_digits(s@.take(i + 1)));
                if spec_all_digits(s@) {
                    lemma_digits_prefix_le(s@, i + 1);
                    assert(spec_digits_value(s@) > u64::MAX);
                }
                assert(spec_parse_u64(s@) is None);
            }
            return None;
        }
        proof {
            vstd::arithmetic::div_mod::lemma_fundamental_div_mod((u64::MAX - d) as int, 10);
            vstd::arithmetic::div_mod::lemma_mod_bound((u64::MAX - d) as int, 10);
            assert(acc * 10 + d <= u64::MAX) by (nonlinear_arith)
                requires
                    acc as int <= ((u64::MAX - d) as int) / 10,
                    (u64::MAX - d) as int == 10 * (((u64::MAX - d) as int) / 10) + ((u64::MAX
                        - d) as int) % 10,
                    0 <= ((u64::MAX - d) as int) % 10 < 10,
                    0 <= d <= 9,
                    acc >= 0,
            {
            }
        }
        acc = acc * 10 + d;
        i = i + 1;
    }
    proof {
        assert(s@.take(n as int) =~= s@);
    }
    Some(acc)
}

/// Feeds one inbound media event, as it arrives on the wire: a base64 payload
/// and a decimal timestamp. A malformed event (payload that is not a canonical
/// base64 encoding, or a timestamp that is not a 64-bit decimal numeral) is
/// ignored: the state is unchanged and nothing is emitted. A well-formed event
/// takes exactly one assembler step over the decoded bytes.
pub fn process_media(payload: &str, timestamp: &str, buf: &mut BufferData) -> (r: Option<Vec<u8>>)
    ensures
        forall|b: Seq<u8>|
            payload@ == #[trigger] base64_of(b) && spec_parse_u64(timestamp@) is Some ==> ({
                let (nbuf, nlast, emit) = spec_assembler_step(
                    old(buf).inbound_buffer@,
                    old(buf).inbound_last_timestamp,
                    b,
                    spec_parse_u64(timestamp@)->Some_0,
                );
                &&& final(buf).inbound_buffer@ == nbuf
                &&& final(buf).inbound_last_timestamp == nlast
                &&& spec_emitted(r) == spec_emitted_seq(emit)
                &&& r is Some <==> emit is Some
            }),
        (spec_parse_u64(timestamp@) is None || (forall|b: Seq<u8>|
            payload@ != #[trigger] base64_of(b))) ==> {
            &&& final(buf).inbound_buffer@ == old(buf).inbound_buffer@
            &&& final(buf).inbound_last_timestamp == old(buf).inbound_last_timestamp
            &&& r is None
        },
{
    let ts = match parse_decimal_u64(timestamp) {
        Some(ts) => ts,
        None => {
            return None;
        },
    };
    match base64_decode(payload) {
        Ok(bytes) => process_media_bytes(bytes, ts, buf),
        Err(_) => None,
    }
}

} // verus!
