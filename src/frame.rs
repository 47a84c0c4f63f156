//! Wire framing: outbound frames are `id ':' payload` in one write; inbound frames are
//! assembled from pushed chunks until the buffer ends with the end marker.

use vstd::prelude::*;
use vstd::utf8::{decode_utf8, encode_utf8, valid_utf8};
use vstd::slice::{slice_subrange, slice_to_vec};
use crate::request_id::{id_text, id_to_text, is_id_text, lemma_id_text_digits, lemma_id_text_injective, parse_id, RequestId};

verus! {

/// Byte that separates the request id from the payload (`:`).
pub const FIELD_SEPARATOR: u8 = 58;

/// Number of bytes in the end-of-frame marker.
pub const END_MARKER_LEN: usize = 7;

/// Text handed on in place of a payload that is not well-formed UTF-8.
pub open spec fn parse_error_text() -> Seq<char> {
    "<Parse Error>"@
}

/// The literal end-of-frame marker `#;EOF;#`.
pub open spec fn end_marker() -> Seq<u8> {
    seq![35u8, 59u8, 69u8, 79u8, 70u8, 59u8, 35u8]
}

/// Whether `s` ends with the end-of-frame marker.
pub open spec fn ends_with_marker(s: Seq<u8>) -> bool {
    s.len() >= END_MARKER_LEN && s.subrange(s.len() - END_MARKER_LEN, s.len() as int)
        == end_marker()
}

/// `s` without its last `END_MARKER_LEN` bytes.
pub open spec fn strip_marker(s: Seq<u8>) -> Seq<u8> {
    s.subrange(0, s.len() - END_MARKER_LEN)
}

/// Bytes of the outbound frame that carries `payload` under `id`.
pub open spec fn frame_bytes(id: RequestId, payload: Seq<u8>) -> Seq<u8> {
    id_text(id) + seq![FIELD_SEPARATOR] + payload
}

/// One assembly step: the buffer after appending `chunk`, and the frame body completed
/// by it, if any (the buffer is then empty again).
pub open spec fn assemble_step(buffer: Seq<u8>, chunk: Seq<u8>) -> (Seq<u8>, Option<Seq<u8>>) {
    let joined = buffer + chunk;
    if ends_with_marker(joined) {
        (Seq::empty(), Some(strip_marker(joined)))
    } else {
        (joined, None)
    }
}

/// Feeding `chunks` in order, starting from `buffer`: the buffer left over and the frame
/// bodies completed, in arrival order.
pub open spec fn assemble(buffer: Seq<u8>, chunks: Seq<Seq<u8>>) -> (Seq<u8>, Seq<Seq<u8>>)
    decreases chunks.len(),
{
    if chunks.len() == 0 {
        (buffer, Seq::empty())
    } else {
        let (next, done) = assemble_step(buffer, chunks[0]);
        let (rest_buffer, rest) = assemble(next, chunks.drop_first());
        match done {
            Some(body) => (rest_buffer, seq![body] + rest),
            None => (rest_buffer, rest),
        }
    }
}

/// `i` is the position of the first field separator in `s`.
pub open spec fn is_first_separator(s: Seq<u8>, i: int) -> bool {
    &&& 0 <= i < s.len()
    &&& s[i] == FIELD_SEPARATOR
    &&& forall|j: int| 0 <= j < i ==> s[j] != FIELD_SEPARATOR
}

/// `s` split at its first separator into the id part and the payload part.
pub open spec fn split_fields(s: Seq<u8>) -> Option<(Seq<u8>, Seq<u8>)> {
    if exists|i: int| is_first_separator(s, i) {
        let i = choose|i: int| is_first_separator(s, i);
        Some((s.subrange(0, i), s.subrange(i + 1, s.len() as int)))
    } else {
        None
    }
}

/// A payload read as text: its UTF-8 decoding, or the parse-error text.
pub open spec fn payload_text(p: Seq<u8>) -> Seq<char> {
    if valid_utf8(p) {
        decode_utf8(p)
    } else {
        parse_error_text()
    }
}

/// The id and payload text carried by a completed frame body, or `None` when the body has
/// no separator or its id part is not the wire form of an id.
pub open spec fn decode_body(body: Seq<u8>) -> Option<(RequestId, Seq<char>)> {
    match split_fields(body) {
        Some((id_part, payload)) => if is_id_text(id_part) {
            Some((choose|id: RequestId| id_part == id_text(id), payload_text(payload)))
        } else {
            None
        },
        None => None,
    }
}

/// A completed inbound frame.
pub struct Frame {
    pub id: RequestId,
    pub payload: String,
}

/// Appends `src` to `dst`.
fn append_bytes(dst: &mut Vec<u8>, src: &[u8])
    ensures
        final(dst)@ == old(dst)@ + src@,
{
    let mut i: usize = 0;
    while i < src.len()
        invariant
            i <= src@.len(),
            dst@ == old(dst)@ + src@.subrange(0, i as int),
        decreases src@.len() - i,
    {
        dst.push(src[i]);
        i = i + 1;
        assert(dst@ =~= old(dst)@ + src@.subrange(0, i as int));
    }
    assert(src@.subrange(0, src@.len() as int) =~= src@);
}

/// The outbound frame for `payload` under `id`: the id's wire form, the separator, and
/// the payload bytes, to be sent as one write.
pub fn encode_frame(id: RequestId, payload: &[u8]) -> (r: Vec<u8>)
    ensures
        r@ == frame_bytes(id, payload@),
{
    let mut r = id_to_text(id);
    r.push(FIELD_SEPARATOR);
    append_bytes(&mut r, payload);
    r
}

/// Whether `buffer` ends with the end-of-frame marker.
pub fn ends_with_end_marker(buffer: &[u8]) -> (r: bool)
    ensures
        r == ends_with_marker(buffer@),
{
    let n = buffer.len();
    if n < END_MARKER_LEN {
        return false;
    }
    let r = buffer[n - 7] == 35 && buffer[n - 6] == 59 && buffer[n - 5] == 69 && buffer[n - 4]
        == 79 && buffer[n - 3] == 70 && buffer[n - 2] == 59 && buffer[n - 1] == 35;
    let ghost tail = buffer@.subrange(n - 7, n as int);
    assert(r ==> tail =~= end_marker());
    assert(tail == end_marker() ==> tail[0] == 35u8 && tail[1] == 59u8 && tail[2] == 69u8
        && tail[3] == 79u8 && tail[4] == 70u8 && tail[5] == 59u8 && tail[6] == 35u8);
    r
}

/// Splits a frame body at its first separator: the id part and the payload part, which
/// may itself hold separators.
pub fn split_frame(body: &[u8]) -> (r: Option<(Vec<u8>, Vec<u8>)>)
    ensures
        match r {
            Some((id_part, payload)) => split_fields(body@) == Some((id_part@, payload@)),
            None => split_fields(body@) is None,
        },
{
    let mut i: usize = 0;
    while i < body.len()
        invariant
            i <= body@.len(),
            forall|j: int| 0 <= j < i ==> body@[j] != FIELD_SEPARATOR,
        decreases body@.len() - i,
    {
        if body[i] == FIELD_SEPARATOR {
            assert(is_first_separator(body@, i as int));
            proof {
                let k = choose|k: int| is_first_separator(body@, k);
                assert(k == i) by {
                    if k < i {
                        assert(body@[k] != FIELD_SEPARATOR);
                    } else if k > i {
                        assert(body@[i as int] != FIELD_SEPARATOR);
                    }
                }
            }
            let id_part = slice_to_vec(slice_subrange(body, 0, i));
            let payload = slice_to_vec(slice_subrange(body, i + 1, body.len()));
            return Some((id_part, payload));
        }
        i = i + 1;
    }
    assert(!exists|k: int| is_first_separator(body@, k));
    None
}

/// Relies on `String::from_utf8`: it succeeds exactly on well-formed UTF-8, and the string
/// then holds the decoded characters.
#[verifier::external_body]
fn utf8_to_string(bytes: Vec<u8>) -> (r: Option<String>)
    ensures
        r is Some <==> valid_utf8(bytes@),
        r matches Some(s) ==> s@ == decode_utf8(bytes@),
{
    match String::from_utf8(bytes) {
        Ok(s) => Some(s),
        Err(_) => None,
    }
}

/// A payload as text: decoded as UTF-8, or the parse-error text when it is malformed.
pub fn payload_to_text(payload: Vec<u8>) -> (r: String)
    ensures
        r@ == payload_text(payload@),
{
    match utf8_to_string(payload) {
        Some(s) => s,
        None => String::from_str("<Parse Error>"),
    }
}

/// Reads a completed frame body: its id and payload text, or `None` when the body is
/// malformed (no separator, or an id part that is not eight lowercase hex digits).
pub fn decode_frame(body: &[u8]) -> (r: Option<Frame>)
    ensures
        match r {
            Some(f) => decode_body(body@) == Some((f.id, f.payload@)),
            None => decode_body(body@) is None,
        },
{
    match split_frame(body) {
        None => None,
        Some((id_part, payload)) => match parse_id(id_part.as_slice()) {
            None => None,
            Some(id) => {
                proof {
                    let c = choose|c: RequestId| id_part@ == id_text(c);
                    crate::request_id::lemma_id_text_injective(c, id);
                }
                Some(Frame { id, payload: payload_to_text(payload) })
            },
        },
    }
}

/// Accumulates pushed chunks until the buffered bytes end with the end marker.
pub struct FrameAssembler {
    buffer: Vec<u8>,
}

impl View for FrameAssembler {
    type V = Seq<u8>;

    /// The bytes buffered since the last completed frame.
    closed spec fn view(&self) -> Seq<u8> {
        self.buffer@
    }
}

impl FrameAssembler {
    /// An assembler with an empty buffer.
    pub fn new() -> (r: Self)
        ensures
            r@ == Seq::<u8>::empty(),
    {
        FrameAssembler { buffer: Vec::new() }
    }

    /// Appends `chunk`. When the buffer then ends with the end marker, returns the frame
    /// body (the buffer without the marker) and starts over with an empty buffer.
    pub fn push_chunk(&mut self, chunk: &[u8]) -> (r: Option<Vec<u8>>)
        ensures
            final(self)@ == assemble_step(old(self)@, chunk@).0,
            match r {
                Some(body) => assemble_step(old(self)@, chunk@).1 == Some(body@),
                None => assemble_step(old(self)@, chunk@).1 is None,
            },
    {
        append_bytes(&mut self.buffer, chunk);
        if ends_with_end_marker(self.buffer.as_slice()) {
            let n = self.buffer.len() - END_MARKER_LEN;
            let body = slice_to_vec(slice_subrange(self.buffer.as_slice(), 0, n));
            self.buffer = Vec::new();
            Some(body)
        } else {
            None
        }
    }

    /// Whether no partial frame is buffered.
    pub fn is_idle(&self) -> (r: bool)
        ensures
            r == (self@.len() == 0),
    {
        self.buffer.len() == 0
    }
}

/// The bytes of `chunks` laid end to end.
pub open spec fn concat_chunks(chunks: Seq<Seq<u8>>) -> Seq<u8>
    decreases chunks.len(),
{
    if chunks.len() == 0 {
        Seq::empty()
    } else {
        chunks[0] + concat_chunks(chunks.drop_first())
    }
}

/// The end marker occurs in `s` at its very end and nowhere before.
pub open spec fn marker_only_at_end(s: Seq<u8>) -> bool {
    &&& ends_with_marker(s)
    &&& forall|i: int|
        0 <= i && i + END_MARKER_LEN < s.len() ==> #[trigger] s.subrange(i, i + END_MARKER_LEN)
            != end_marker()
}

proof fn lemma_empty_chunks_yield_nothing(chunks: Seq<Seq<u8>>)
    requires
        concat_chunks(chunks) == Seq::<u8>::empty(),
    ensures
        assemble(Seq::empty(), chunks) == (Seq::<u8>::empty(), Seq::<Seq<u8>>::empty()),
    decreases chunks.len(),
{
    if chunks.len() > 0 {
        let c = chunks[0];
        assert(concat_chunks(chunks) == c + concat_chunks(chunks.drop_first()));
        assert(c.len() + concat_chunks(chunks.drop_first()).len() == 0);
        assert(c =~= Seq::<u8>::empty());
        assert(concat_chunks(chunks.drop_first()) =~= Seq::<u8>::empty());
        assert(Seq::<u8>::empty() + c =~= Seq::<u8>::empty());
        lemma_empty_chunks_yield_nothing(chunks.drop_first());
    }
}

proof fn lemma_assemble_stream(s: Seq<u8>, k: int, chunks: Seq<Seq<u8>>)
    requires
        marker_only_at_end(s),
        0 <= k < s.len(),
        concat_chunks(chunks) == s.subrange(k, s.len() as int),
    ensures
        assemble(s.subrange(0, k), chunks) == (Seq::<u8>::empty(), seq![strip_marker(s)]),
    decreases chunks.len(),
{
    let n = s.len() as int;
    if chunks.len() == 0 {
        assert(s.subrange(k, n).len() == 0);
    } else {
        let c = chunks[0];
        let rest = chunks.drop_first();
        let e = k + c.len();
        assert(concat_chunks(chunks) == c + concat_chunks(rest));
        assert(e <= n) by {
            assert((c + concat_chunks(rest)).len() == n - k);
        }
        assert(c =~= s.subrange(k, e)) by {
            assert forall|i: int| 0 <= i < c.len() implies c[i] == s.subrange(k, e)[i] by {
                assert((c + concat_chunks(rest))[i] == s.subrange(k, n)[i]);
            }
        }
        assert(concat_chunks(rest) =~= s.subrange(e, n)) by {
            let r = concat_chunks(rest);
            assert(r.len() == n - e) by {
                assert((c + r).len() == n - k);
            }
            assert forall|i: int| 0 <= i < r.len() implies r[i] == s.subrange(e, n)[i] by {
                assert((c + r)[c.len() + i] == s.subrange(k, n)[c.len() + i]);
            }
        }
        let joined = s.subrange(0, k) + c;
        assert(joined =~= s.subrange(0, e));
        if e == n {
            assert(s.subrange(0, e) =~= s);
            assert(s.subrange(e, n) =~= Seq::<u8>::empty());
            lemma_empty_chunks_yield_nothing(rest);
            assert(seq![strip_marker(s)] + Seq::<Seq<u8>>::empty() =~= seq![strip_marker(s)]);
        } else {
            assert(!ends_with_marker(joined)) by {
                if ends_with_marker(joined) {
                    let i = e - END_MARKER_LEN;
                    assert(joined.subrange(i, e) =~= s.subrange(i, i + END_MARKER_LEN));
                }
            }
            lemma_assemble_stream(s, e, rest);
        }
    }
}

/// A frame body split at its first separator gives back the id's wire form and the
/// payload, since an id's wire form holds no separator.
pub proof fn lemma_split_frame_bytes(id: RequestId, payload: Seq<u8>)
    ensures
        split_fields(frame_bytes(id, payload)) == Some((id_text(id), payload)),
        decode_body(frame_bytes(id, payload)) == Some((id, payload_text(payload))),
{
    let b = frame_bytes(id, payload);
    lemma_id_text_digits(id);
    assert(b[8] == FIELD_SEPARATOR);
    assert forall|j: int| 0 <= j < 8 implies b[j] != FIELD_SEPARATOR by {
        assert(b[j] == id_text(id)[j]);
    }
    assert(is_first_separator(b, 8));
    let i = choose|i: int| is_first_separator(b, i);
    assert(i == 8) by {
        if i < 8 {
            assert(b[i] != FIELD_SEPARATOR);
        }
        if i > 8 {
            assert(b[8] != FIELD_SEPARATOR);
        }
    }
    assert(b.subrange(0, 8) =~= id_text(id));
    assert(b.subrange(9, b.len() as int) =~= payload);
    assert(is_id_text(id_text(id)));
    let c = choose|c: RequestId| id_text(id) == id_text(c);
    lemma_id_text_injective(c, id);
}

/// Round trip of the framing: the bytes that `encode_frame` writes for `(id, payload)`,
/// followed by the end marker and cut into chunks at arbitrary boundaries, assemble into
/// exactly one frame body, which decodes to `id` and the payload's text, and leave the
/// assembler idle. This holds whenever the marker occurs in that byte stream only at
/// its end (a marker inside the payload would close the frame early).
pub proof fn lemma_round_trip(id: RequestId, payload: Seq<u8>, chunks: Seq<Seq<u8>>)
    requires
        concat_chunks(chunks) == frame_bytes(id, payload) + end_marker(),
        marker_only_at_end(frame_bytes(id, payload) + end_marker()),
    ensures
        assemble(Seq::empty(), chunks) == (Seq::<u8>::empty(), seq![frame_bytes(id, payload)]),
        split_fields(frame_bytes(id, payload)) == Some((id_text(id), payload)),
        decode_body(frame_bytes(id, payload)) == Some((id, payload_text(payload))),
{
    let s = frame_bytes(id, payload) + end_marker();
    assert(s.subrange(0, s.len() as int) =~= s);
    assert(s.subrange(0, 0) =~= Seq::<u8>::empty());
    lemma_assemble_stream(s, 0, chunks);
    assert(strip_marker(s) =~= frame_bytes(id, payload));
    lemma_split_frame_bytes(id, payload);
}

/// A payload that is the UTF-8 encoding of some text reads back as exactly that text.
pub proof fn lemma_payload_text_round_trip(text: Seq<char>)
    ensures
        payload_text(encode_utf8(text)) == text,
{
    vstd::utf8::encode_utf8_valid_utf8(text);
    vstd::utf8::encode_utf8_decode_utf8(text);
}

} // verus!
