//! Server-side random key generation and delivery: lenient decimal request
//! parsing, the bounded (request/response) mode that clamps a chunk count,
//! and the streaming mode that emits chunk-sized frames until a requested
//! total is reached, then reports a structured completion record.

use vstd::prelude::*;

use crate::rng::try_random_bytes;
use vstd::string::StringSliceAdditionalSpecFns;

verus! {

/// Size of one delivery chunk, in bytes.
pub const CHUNK_SIZE: usize = 16384;

/// Upper bound on the chunk count of one bounded request.
pub const MAX_CHUNK_COUNT: usize = 8000;

/// The streaming loop cedes control to the host scheduler after this many
/// chunks, so concurrent connections are not starved.
pub const YIELD_INTERVAL: usize = 10;

/// An error of the delivery service: the entropy source failed, with its
/// diagnostic reason.
#[derive(Debug, PartialEq, Eq)]
pub enum ServiceError {
    EntropyFailure(String),
}

/// Whether a byte is an ASCII decimal digit.
pub open spec fn is_dec_digit(b: u8) -> bool {
    48 <= b <= 57
}

/// Whether every byte of the sequence is an ASCII decimal digit.
pub open spec fn all_dec_digits(s: Seq<u8>) -> bool {
    forall|i: int| 0 <= i < s.len() ==> is_dec_digit(#[trigger] s[i])
}

/// The digits of a numeric literal: an optional leading `+` is dropped.
pub open spec fn numeric_body(s: Seq<u8>) -> Seq<u8> {
    if s.len() > 0 && s[0] == 43 {
        s.skip(1)
    } else {
        s
    }
}

/// Whether the bytes form an unsigned decimal literal: after an optional
/// leading `+`, one or more digits and nothing else.
pub open spec fn is_decimal(s: Seq<u8>) -> bool {
    numeric_body(s).len() > 0 && all_dec_digits(numeric_body(s))
}

/// The value of a digit sequence read in base ten.
pub open spec fn digits_value(s: Seq<u8>) -> int
    decreases s.len(),
{
    if s.len() == 0 {
        0
    } else {
        digits_value(s.drop_last()) * 10 + (s.last() - 48)
    }
}

/// The value of a decimal literal, its optional leading `+` dropped.
pub open spec fn decimal_value(s: Seq<u8>) -> int {
    digits_value(numeric_body(s))
}

/// A digit sequence has a non-negative value.
proof fn lemma_digits_value_nonneg(s: Seq<u8>)
    requires
        all_dec_digits(s),
    ensures
        digits_value(s) >= 0,
    decreases s.len(),
{
    if s.len() > 0 {
        assert forall|i: int| 0 <= i < s.drop_last().len() implies is_dec_digit(
            #[trigger] s.drop_last()[i],
        ) by {
            assert(s.drop_last()[i] == s[i]);
        }
        lemma_digits_value_nonneg(s.drop_last());
    }
}

/// Reading one more digit multiplies the prefix value by ten and adds it.
proof fn lemma_digits_value_step(s: Seq<u8>, k: int)
    requires
        0 <= k < s.len(),
    ensures
        digits_value(s.take(k + 1)) == digits_value(s.take(k)) * 10 + (s[k] - 48),
{
    assert(s.take(k + 1).drop_last() =~= s.take(k));
    assert(s.take(k + 1).last() == s[k]);
}

/// The value of a digit sequence is at least the value of any prefix.
proof fn lemma_digits_value_prefix_le(s: Seq<u8>, k: int)
    requires
        all_dec_digits(s),
        0 <= k <= s.len(),
    ensures
        digits_value(s.take(k)) <= digits_value(s),
    decreases s.len() - k,
{
    if k == s.len() {
        assert(s.take(k) =~= s);
    } else {
        lemma_digits_value_step(s, k);
        assert forall|i: int| 0 <= i < s.take(k).len() implies is_dec_digit(
            #[trigger] s.take(k)[i],
        ) by {
            assert(s.take(k)[i] == s[i]);
        }
        lemma_digits_value_nonneg(s.take(k));
        lemma_digits_value_prefix_le(s, k + 1);
    }
}

/// Parse an unsigned decimal literal, as the request paths carry one:
/// `Some` exactly when the text is a decimal literal whose value fits in
/// `usize`, and then the parsed value; `None` otherwise.
pub fn parse_usize(s: &str) -> (parsed: Option<usize>)
    ensures
        parsed matches Some(v) ==> is_decimal(s.spec_bytes()) && v == decimal_value(
            s.spec_bytes(),
        ),
        parsed is None ==> !is_decimal(s.spec_bytes()) || decimal_value(s.spec_bytes())
            > usize::MAX,
{
    let bytes = s.as_bytes();
    let start: usize = if bytes.len() > 0 && bytes[0] == 43 {
        1
    } else {
        0
    };
    let ghost body = numeric_body(s.spec_bytes());
    proof {
        assert(body =~= s.spec_bytes().skip(start as int));
    }
    if start >= bytes.len() {
        return None;
    }
    let mut value: usize = 0;
    let mut i: usize = start;
    while i < bytes.len()
        invariant
            bytes@ == s.spec_bytes(),
            body == numeric_body(s.spec_bytes()),
            body == s.spec_bytes().skip(start as int),
            start <= i <= bytes@.len(),
            start < bytes@.len(),
            all_dec_digits(body.take(i - start)),
            value == digits_value(body.take(i - start)),
        decreases bytes@.len() - i,
    {
        let b = bytes[i];
        if b < 48 || b > 57 {
            proof {
                assert(body[i - start] == b);
                assert(!all_dec_digits(body));
            }
            return None;
        }
        let d = (b - 48) as usize;
        proof {
            lemma_digits_value_step(body, i - start);
            assert(body.take(i - start + 1).drop_last() =~= body.take(i - start));
            assert forall|j: int| 0 <= j < i - start + 1 implies is_dec_digit(
                #[trigger] body.take(i - start + 1)[j],
            ) by {
                if j < i - start {
                    assert(body.take(i - start + 1)[j] == body.take(i - start)[j]);
                } else {
                    assert(body.take(i - start + 1)[j] == b);
                }
            }
        }
        if value > (usize::MAX - d) / 10 {
            proof {
                if is_decimal(s.spec_bytes()) {
                    lemma_digits_value_prefix_le(body, i - start + 1);
                }
            }
            return None;
        }
        value = value * 10 + d;
        i = i + 1;
    }
    proof {
        assert(body.take(i - start) =~= body);
    }
    Some(value)
}

/// The chunk count a bounded request asks for: the parsed decimal when it is
/// one and fits, and one chunk for a missing or malformed count.
pub open spec fn requested_chunk_count(s: Seq<u8>) -> int {
    if is_decimal(s) && decimal_value(s) <= usize::MAX {
        decimal_value(s)
    } else {
        1
    }
}

/// The chunk count a bounded request is served: the requested count, clamped
/// to `MAX_CHUNK_COUNT`.
pub open spec fn clamped_chunk_count(s: Seq<u8>) -> int {
    if requested_chunk_count(s) <= MAX_CHUNK_COUNT as int {
        requested_chunk_count(s)
    } else {
        MAX_CHUNK_COUNT as int
    }
}

/// Parse the chunk count of a bounded request: a malformed or missing count
/// defaults to one chunk rather than failing, and the result is clamped to
/// `MAX_CHUNK_COUNT` to bound memory and response size.
pub fn parse_chunk_count(s: &str) -> (count: usize)
    ensures
        count == clamped_chunk_count(s.spec_bytes()),
{
    match parse_usize(s) {
        Some(v) => if v <= MAX_CHUNK_COUNT {
            v
        } else {
            MAX_CHUNK_COUNT
        },
        None => 1,
    }
}

/// The total a streaming request asks for: the parsed decimal when it is one
/// and fits, and zero — which is rejected — otherwise.
pub open spec fn requested_stream_size(s: Seq<u8>) -> int {
    if is_decimal(s) && decimal_value(s) <= usize::MAX {
        decimal_value(s)
    } else {
        0
    }
}

/// Parse the total byte count of a streaming request. A zero, malformed or
/// overlarge total is rejected up front, before any channel is opened.
pub fn parse_stream_size(s: &str) -> (size: Option<usize>)
    ensures
        size matches Some(v) ==> v == requested_stream_size(s.spec_bytes()) && v > 0,
        size is None ==> requested_stream_size(s.spec_bytes()) == 0,
{
    match parse_usize(s) {
        Some(v) => if v == 0 {
            None
        } else {
            Some(v)
        },
        None => None,
    }
}

/// The response of one bounded request: the generated key material together
/// with the chunk count and chunk size it declares.
pub struct KeyResponse {
    pub data: Vec<u8>,
    pub chunk_count: usize,
    pub chunk_size: usize,
}

/// Serve one bounded key request: parse and clamp the chunk count, generate
/// `count * CHUNK_SIZE` fresh random bytes in one call, and return them with
/// the declared chunk count and size. Fails only when the entropy source
/// does, and then with its diagnostic reason and no partial data.
pub fn handle_key_request(count_text: &str) -> (response: Result<KeyResponse, ServiceError>)
    ensures
        response matches Ok(r) ==> r.chunk_count == clamped_chunk_count(count_text.spec_bytes())
            && r.chunk_size == CHUNK_SIZE && r.data@.len() == r.chunk_count * CHUNK_SIZE,
{
    let count = parse_chunk_count(count_text);
    let total = count * CHUNK_SIZE;
    match try_random_bytes(total) {
        Ok(data) => Ok(KeyResponse { data, chunk_count: count, chunk_size: CHUNK_SIZE }),
        Err(reason) => Err(ServiceError::EntropyFailure(reason)),
    }
}

/// How many chunk-sized frames a streaming request of `total` bytes takes:
/// the total divided by `CHUNK_SIZE`, rounded up.
pub open spec fn chunk_count_of(total: int) -> int {
    (total + CHUNK_SIZE - 1) / (CHUNK_SIZE as int)
}

/// A chunk count bounded multiplicatively is the rounded-up quotient.
proof fn lemma_chunk_count_of(total: int, n: int)
    requires
        0 < total,
        (n - 1) * (CHUNK_SIZE as int) < total <= n * (CHUNK_SIZE as int),
    ensures
        n == chunk_count_of(total),
{
    let c = CHUNK_SIZE as int;
    assert(n * c <= total + c - 1 < (n + 1) * c);
    assert((total + c - 1) / c == n) by (nonlinear_arith)
        requires
            c == 16384,
            n * c <= total + c - 1 < (n + 1) * c,
    ;
}

/// One frame of a streaming delivery: its freshly generated bytes, and
/// whether the loop should cede control to the host scheduler after sending
/// it.
pub struct StreamFrame {
    pub bytes: Vec<u8>,
    pub should_yield: bool,
}

/// The structured record a completed stream reports: how many chunks were
/// delivered and the total byte count they carried.
pub struct CompletionRecord {
    pub chunks: usize,
    pub size: usize,
}

/// One streaming delivery: emits chunk-sized frames (the last may be
/// shorter) until the requested total is reached. The transport around it
/// sends each frame in order and closes the channel on failure.
pub struct StreamSession {
    total: usize,
    remaining: usize,
    chunks_sent: usize,
}

impl StreamSession {
    /// The requested total byte count.
    pub closed spec fn total_spec(&self) -> int {
        self.total as int
    }

    /// How many bytes are still to be delivered.
    pub closed spec fn remaining_spec(&self) -> int {
        self.remaining as int
    }

    /// How many frames have been emitted so far.
    pub closed spec fn chunks_sent_spec(&self) -> int {
        self.chunks_sent as int
    }

    /// Every frame but the last carries exactly `CHUNK_SIZE` bytes, so while
    /// bytes remain the delivered amount is a whole number of chunks, and a
    /// finished session has emitted exactly the rounded-up chunk count.
    pub open spec fn wf(&self) -> bool {
        &&& 0 < self.total_spec()
        &&& self.remaining_spec() <= self.total_spec()
        &&& (self.remaining_spec() > 0 ==> self.total_spec() - self.remaining_spec()
            == self.chunks_sent_spec() * (CHUNK_SIZE as int))
        &&& (self.remaining_spec() == 0 ==> (self.chunks_sent_spec() - 1) * (CHUNK_SIZE as int)
            < self.total_spec() <= self.chunks_sent_spec() * (CHUNK_SIZE as int))
    }

    /// Open a streaming session for `total` bytes. A zero total is rejected
    /// up front; any positive total is accepted.
    pub fn new(total: usize) -> (session: Option<StreamSession>)
        ensures
            total == 0 ==> session is None,
            total > 0 ==> (session matches Some(s) && s.wf() && s.total_spec() == total
                && s.remaining_spec() == total && s.chunks_sent_spec() == 0),
    {
        if total == 0 {
            None
        } else {
            Some(StreamSession { total, remaining: total, chunks_sent: 0 })
        }
    }

    /// Whether every requested byte has been delivered.
    pub fn is_done(&self) -> (done: bool)
        ensures
            done == (self.remaining_spec() == 0),
    {
        self.remaining == 0
    }

    /// Generate the next frame: `CHUNK_SIZE` fresh random bytes, or all the
    /// remaining bytes when fewer are left. The frame says whether the loop
    /// should yield to the host scheduler after sending it. If the entropy
    /// source fails the session is left unchanged and no partial frame is
    /// handed out — the transport closes the channel with the reason.
    pub fn next_frame(&mut self) -> (frame: Result<StreamFrame, ServiceError>)
        requires
            old(self).wf(),
            old(self).remaining_spec() > 0,
        ensures
            frame matches Ok(f) ==> {
                &&& final(self).wf()
                &&& final(self).total_spec() == old(self).total_spec()
                &&& f.bytes@.len() == (if old(self).remaining_spec() <= CHUNK_SIZE as int {
                    old(self).remaining_spec()
                } else {
                    CHUNK_SIZE as int
                })
                &&& f.should_yield == (old(self).chunks_sent_spec() % (YIELD_INTERVAL as int)
                    == 0)
                &&& final(self).remaining_spec() == old(self).remaining_spec() - f.bytes@.len()
                &&& final(self).chunks_sent_spec() == old(self).chunks_sent_spec() + 1
            },
            frame is Err ==> *final(self) == *old(self),
    {
        let size = if self.remaining <= CHUNK_SIZE {
            self.remaining
        } else {
            CHUNK_SIZE
        };
        match try_random_bytes(size) {
            Ok(bytes) => {
                let should_yield = self.chunks_sent % YIELD_INTERVAL == 0;
                self.remaining = self.remaining - size;
                self.chunks_sent = self.chunks_sent + 1;
                Ok(StreamFrame { bytes, should_yield })
            },
            Err(reason) => Err(ServiceError::EntropyFailure(reason)),
        }
    }

    /// The completion record of a finished stream: exactly the rounded-up
    /// chunk count of the requested total, and the total itself.
    pub fn completion(&self) -> (record: CompletionRecord)
        requires
            self.wf(),
            self.remaining_spec() == 0,
        ensures
            record.chunks == chunk_count_of(self.total_spec()),
            record.size == self.total_spec(),
    {
        proof {
            lemma_chunk_count_of(self.total_spec(), self.chunks_sent_spec());
        }
        CompletionRecord { chunks: self.chunks_sent, size: self.total }
    }
}

/// The decimal digits of a non-negative number, most significant first.
pub open spec fn dec_chars(n: int) -> Seq<char>
    recommends
        n >= 0,
    decreases n,
{
    if n < 10 {
        seq![digit_char(n)]
    } else {
        dec_chars(n / 10).push(digit_char(n % 10))
    }
}

/// The character of one decimal digit.
pub open spec fn digit_char(d: int) -> char {
    ((48 + d) as u8) as char
}

/// The text frame a completed stream sends: a JSON record of its chunk
/// count and total size.
pub open spec fn completion_json(chunks: int, size: int) -> Seq<char> {
    "{\"type\":\"complete\",\"chunks\":"@ + dec_chars(chunks) + ",\"size\":"@ + dec_chars(size)
        + "}"@
}

/// Relies on String::push: appends exactly the one character.
#[verifier::external_body]
fn append_char(s: &mut String, c: char)
    ensures
        final(s)@ == old(s)@.push(c),
{
    s.push(c)
}

/// Relies on String::push_str: appends exactly the given slice.
#[verifier::external_body]
fn append_text(s: &mut String, part: &str)
    ensures
        final(s)@ == old(s)@ + part@,
{
    s.push_str(part)
}

/// Render a number as its decimal digits.
pub fn render_decimal(n: usize) -> (text: String)
    ensures
        text@ == dec_chars(n as int),
    decreases n,
{
    if n < 10 {
        let mut s = String::new();
        append_char(&mut s, (48 + n as u8) as char);
        proof {
            assert(s@ =~= seq![digit_char(n as int)]);
        }
        s
    } else {
        let mut s = render_decimal(n / 10);
        append_char(&mut s, (48 + (n % 10) as u8) as char);
        s
    }
}

/// Render the completion record as the JSON text frame the stream sends.
pub fn completion_message(record: &CompletionRecord) -> (text: String)
    ensures
        text@ == completion_json(record.chunks as int, record.size as int),
{
    let mut s = String::new();
    append_text(&mut s, "{\"type\":\"complete\",\"chunks\":");
    let chunks_text = render_decimal(record.chunks);
    append_text(&mut s, chunks_text.as_str());
    append_text(&mut s, ",\"size\":");
    let size_text = render_decimal(record.size);
    append_text(&mut s, size_text.as_str());
    append_text(&mut s, "}");
    proof {
        assert(s@ =~= completion_json(record.chunks as int, record.size as int));
    }
    s
}

} // verus!
