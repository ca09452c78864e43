//! Response-transform decisions and the streaming compression state.
//!
//! Two header-driven decisions are made here: whether an event-stream
//! response is gzip-compressed for the requesting client, and whether an
//! unauthorized response is rewritten into an HTML redirect page.  Both are
//! pure functions of the header bytes, stated exactly.
//!
//! [`CompressedStream`] is the body transform itself: each inbound chunk is
//! fed to a stateful gzip encoder and flushed at once, and the flushed bytes
//! form the one corresponding outbound chunk, so chunk boundaries — and with
//! them the low latency of a live feed — survive compression.

use vstd::prelude::*;
use vstd::string::StringSliceAdditionalSpecFns;

verus! {

/// The comma that separates the elements of an `Accept-Encoding` or
/// `Accept` header list.
pub const COMMA: u8 = 44;

/// ASCII whitespace, as `u8::is_ascii_whitespace` defines it: space, tab,
/// newline, form feed, carriage return.
pub open spec fn is_ws(b: u8) -> bool {
    b == 32 || b == 9 || b == 10 || b == 12 || b == 13
}

/// `s` without its leading ASCII whitespace.
pub open spec fn trim_start(s: Seq<u8>) -> Seq<u8>
    decreases s.len(),
{
    if s.len() == 0 {
        s
    } else if is_ws(s.first()) {
        trim_start(s.drop_first())
    } else {
        s
    }
}

/// `s` without its trailing ASCII whitespace.
pub open spec fn trim_end(s: Seq<u8>) -> Seq<u8>
    decreases s.len(),
{
    if s.len() == 0 {
        s
    } else if is_ws(s.last()) {
        trim_end(s.drop_last())
    } else {
        s
    }
}

/// `s` without leading and trailing ASCII whitespace.
pub open spec fn spec_trim(s: Seq<u8>) -> Seq<u8> {
    trim_end(trim_start(s))
}

/// `trim_start` keeps a suffix whose dropped margin is all whitespace and
/// whose own first byte is none.
proof fn lemma_trim_start_props(s: Seq<u8>)
    ensures
        trim_start(s).len() <= s.len(),
        trim_start(s) == s.skip(s.len() - trim_start(s).len()),
        trim_start(s).len() > 0 ==> !is_ws(trim_start(s).first()),
        forall|k: int| 0 <= k < s.len() - trim_start(s).len() ==> is_ws(#[trigger] s[k]),
    decreases s.len(),
{
    if s.len() > 0 && is_ws(s.first()) {
        lemma_trim_start_props(s.drop_first());
        assert(s.drop_first() =~= s.skip(1));
        let n = s.len() - trim_start(s).len();
        assert(s.skip(1).skip(s.skip(1).len() - trim_start(s).len()) =~= s.skip(n));
        assert forall|k: int| 0 <= k < n implies is_ws(s[k]) by {
            if k > 0 {
                assert(s.skip(1)[k - 1] == s[k]);
            }
        }
    } else {
        assert(s.skip(0) =~= s);
    }
}

/// `trim_end` keeps a prefix whose dropped margin is all whitespace and
/// whose own last byte is none.
proof fn lemma_trim_end_props(s: Seq<u8>)
    ensures
        trim_end(s).len() <= s.len(),
        trim_end(s) == s.take(trim_end(s).len() as int),
        trim_end(s).len() > 0 ==> !is_ws(trim_end(s).last()),
        forall|k: int| trim_end(s).len() <= k < s.len() ==> is_ws(#[trigger] s[k]),
    decreases s.len(),
{
    if s.len() > 0 && is_ws(s.last()) {
        lemma_trim_end_props(s.drop_last());
        assert(s.drop_last() =~= s.take(s.len() - 1));
        assert(s.take(s.len() - 1).take(trim_end(s).len() as int) =~= s.take(
            trim_end(s).len() as int,
        ));
        assert forall|k: int| trim_end(s).len() <= k < s.len() implies is_ws(s[k]) by {
            if k < s.len() - 1 {
                assert(s.take(s.len() - 1)[k] == s[k]);
            }
        }
    } else {
        assert(s.take(s.len() as int) =~= s);
    }
}

/// Trimming only strips whitespace margins: a non-empty result neither
/// starts nor ends with whitespace, and an empty result means the whole
/// list was whitespace.
pub proof fn lemma_trim_margins(s: Seq<u8>)
    ensures
        spec_trim(s).len() <= s.len(),
        spec_trim(s).len() > 0 ==> !is_ws(spec_trim(s).first()) && !is_ws(spec_trim(s).last()),
        spec_trim(s).len() == 0 ==> forall|k: int| 0 <= k < s.len() ==> is_ws(#[trigger] s[k]),
{
    lemma_trim_start_props(s);
    let ts = trim_start(s);
    lemma_trim_end_props(ts);
    let n = s.len() - ts.len();
    if spec_trim(s).len() > 0 {
        assert(spec_trim(s).first() == ts.take(spec_trim(s).len() as int)[0]);
        assert(ts.take(spec_trim(s).len() as int)[0] == ts[0]);
    } else {
        assert forall|k: int| 0 <= k < s.len() implies is_ws(s[k]) by {
            if k >= n {
                assert(s.skip(n)[k - n] == s[k]);
                assert(ts[k - n] == s[k]);
            }
        }
    }
}

fn is_ascii_ws(b: u8) -> (r: bool)
    ensures
        r == is_ws(b),
{
    b == 32 || b == 9 || b == 10 || b == 12 || b == 13
}

/// Strips leading and trailing ASCII whitespace from a byte slice.
pub fn trim_whitespace(bytes: &[u8]) -> (r: &[u8])
    ensures
        r@ == spec_trim(bytes@),
{
    let len = bytes.len();
    let mut start: usize = 0;
    proof {
        assert(bytes@.skip(0) =~= bytes@);
    }
    while start < len && is_ascii_ws(bytes[start])
        invariant
            0 <= start <= len,
            len == bytes@.len(),
            trim_start(bytes@) == trim_start(bytes@.skip(start as int)),
        decreases len - start,
    {
        proof {
            assert(bytes@.skip(start as int).drop_first() =~= bytes@.skip(start + 1));
        }
        start = start + 1;
    }
    proof {
        if start < len {
            assert(!is_ws(bytes@.skip(start as int).first()));
        }
        assert(trim_start(bytes@) == bytes@.skip(start as int));
    }
    let rest = &bytes[start..len];
    let rest_len = rest.len();
    let mut end: usize = rest_len;
    proof {
        assert(rest@.take(rest_len as int) =~= rest@);
    }
    while end > 0 && is_ascii_ws(rest[end - 1])
        invariant
            0 <= end <= rest_len,
            rest_len == rest@.len(),
            trim_end(rest@) == trim_end(rest@.take(end as int)),
        decreases end,
    {
        proof {
            assert(rest@.take(end as int).drop_last() =~= rest@.take(end - 1));
        }
        end = end - 1;
    }
    proof {
        if end > 0 {
            assert(rest@.take(end as int).last() == rest@[end - 1]);
        }
        assert(trim_end(rest@) == rest@.take(end as int));
    }
    &rest[0..end]
}

/// Element-for-element comparison of byte slices.
pub fn bytes_eq(a: &[u8], b: &[u8]) -> (r: bool)
    ensures
        r == (a@ == b@),
{
    let la = a.len();
    let lb = b.len();
    if la != lb {
        return false;
    }
    let mut i: usize = 0;
    while i < la
        invariant
            0 <= i <= la,
            la == a@.len(),
            la == b@.len(),
            forall|k: int| 0 <= k < i ==> a@[k] == b@[k],
        decreases la - i,
    {
        if a[i] != b[i] {
            return false;
        }
        i = i + 1;
    }
    proof {
        assert(a@ =~= b@);
    }
    true
}

/// The position of the first comma in `s`, or `s.len()` if there is none.
pub open spec fn first_comma(s: Seq<u8>) -> int
    decreases s.len(),
{
    if s.len() == 0 {
        0
    } else if s.first() == COMMA {
        0
    } else {
        1 + first_comma(s.drop_first())
    }
}

/// The comma-separated elements of a header list.  A list without commas is
/// one element; each comma ends an element, so `n` commas give `n + 1`
/// elements, empty ones included.
pub open spec fn split_commas(s: Seq<u8>) -> Seq<Seq<u8>>
    decreases s.len(),
{
    let i = first_comma(s);
    if 0 <= i < s.len() {
        seq![s.take(i)] + split_commas(s.skip(i + 1))
    } else {
        seq![s]
    }
}

/// Whether some element of the comma-separated list `s` equals `token`,
/// after trimming the element when `trimmed` is set.
pub open spec fn spec_has_token(s: Seq<u8>, token: Seq<u8>, trimmed: bool) -> bool {
    exists|k: int|
        0 <= k < split_commas(s).len() && (if trimmed {
            spec_trim(#[trigger] split_commas(s)[k])
        } else {
            split_commas(s)[k]
        }) == token
}

/// `first_comma` stays within the sequence, points at a comma when there
/// is one, and passes over none.
proof fn lemma_first_comma_chars(s: Seq<u8>)
    ensures
        0 <= first_comma(s) <= s.len(),
        forall|k: int| 0 <= k < first_comma(s) ==> s[k] != COMMA,
        first_comma(s) < s.len() ==> s[first_comma(s)] == COMMA,
    decreases s.len(),
{
    if s.len() > 0 && s.first() != COMMA {
        lemma_first_comma_chars(s.drop_first());
        assert forall|k: int| 0 <= k < first_comma(s) implies s[k] != COMMA by {
            if k > 0 {
                assert(s.drop_first()[k - 1] == s[k]);
            }
        }
    }
}

/// The elements of a split rejoined with commas.
pub open spec fn join_commas(parts: Seq<Seq<u8>>) -> Seq<u8>
    decreases parts.len(),
{
    if parts.len() == 0 {
        Seq::empty()
    } else if parts.len() == 1 {
        parts.first()
    } else {
        parts.first() + seq![COMMA] + join_commas(parts.drop_first())
    }
}

/// `split_commas` neither loses nor invents a byte: rejoining its elements
/// with commas restores the header list, there is always at least one
/// element, and no element holds a comma of its own.
pub proof fn lemma_split_commas_exact(s: Seq<u8>)
    ensures
        join_commas(split_commas(s)) == s,
        split_commas(s).len() >= 1,
        forall|k: int, b: int|
            0 <= k < split_commas(s).len() && 0 <= b < split_commas(s)[k].len()
                ==> #[trigger] split_commas(s)[k][b] != COMMA,
    decreases s.len(),
{
    lemma_first_comma_chars(s);
    let i = first_comma(s);
    if i < s.len() {
        lemma_split_commas_exact(s.skip(i + 1));
        let rest = split_commas(s.skip(i + 1));
        let parts = split_commas(s);
        assert(parts == seq![s.take(i)] + rest);
        assert(parts.first() == s.take(i));
        assert(parts.drop_first() =~= rest);
        assert(parts.len() >= 2);
        assert(join_commas(parts) == s.take(i) + seq![COMMA] + join_commas(rest));
        assert(s.take(i) + seq![COMMA] + s.skip(i + 1) =~= s);
        assert forall|k: int, b: int|
            0 <= k < parts.len() && 0 <= b < parts[k].len() implies #[trigger] parts[k][b]
            != COMMA by {
            if k == 0 {
                assert(parts[0] == s.take(i));
                assert(s.take(i)[b] == s[b]);
            } else {
                assert(parts[k] == rest[k - 1]);
            }
        }
    } else {
        assert(split_commas(s) =~= seq![s]);
        assert(split_commas(s)[0] == s);
    }
}

/// Scans the comma-separated elements of `s` for one equal to `token`,
/// trimmed first when `trimmed` is set.
pub fn has_token(s: &[u8], token: &[u8], trimmed: bool) -> (r: bool)
    ensures
        r == spec_has_token(s@, token@, trimmed),
    decreases s@.len(),
{
    let len = s.len();
    let mut i: usize = 0;
    proof {
        assert(s@.skip(0) =~= s@);
    }
    while i < len && s[i] != COMMA
        invariant
            0 <= i <= len,
            len == s@.len(),
            first_comma(s@) == i + first_comma(s@.skip(i as int)),
        decreases len - i,
    {
        proof {
            assert(s@.skip(i as int).drop_first() =~= s@.skip(i + 1));
        }
        i = i + 1;
    }
    proof {
        lemma_first_comma_chars(s@.skip(i as int));
        if i < len {
            assert(s@.skip(i as int).first() == s@[i as int]);
        }
        assert(first_comma(s@) == i);
    }
    if i == len {
        // the whole of `s` is the single remaining element
        let elem = if trimmed {
            trim_whitespace(s)
        } else {
            s
        };
        let r = bytes_eq(elem, token);
        proof {
            assert(split_commas(s@) =~= seq![s@]);
            assert(split_commas(s@)[0] == s@);
            if r {
                assert(spec_has_token(s@, token@, trimmed));
            }
        }
        r
    } else {
        let head = &s[0..i];
        let elem = if trimmed {
            trim_whitespace(head)
        } else {
            head
        };
        proof {
            assert(head@ =~= s@.take(i as int));
        }
        if bytes_eq(elem, token) {
            proof {
                assert(split_commas(s@)[0] == s@.take(i as int));
            }
            return true;
        }
        let rest = &s[i + 1..len];
        proof {
            assert(rest@ =~= s@.skip(i + 1));
        }
        let r = has_token(rest, token, trimmed);
        proof {
            let parts = split_commas(s@);
            let rest_parts = split_commas(s@.skip(i + 1));
            assert(parts =~= seq![s@.take(i as int)] + rest_parts);
            if r {
                let k = choose|k: int|
                    0 <= k < rest_parts.len() && (if trimmed {
                        spec_trim(#[trigger] rest_parts[k])
                    } else {
                        rest_parts[k]
                    }) == token@;
                assert(parts[k + 1] == rest_parts[k]);
                assert(spec_has_token(s@, token@, trimmed));
            } else {
                if spec_has_token(s@, token@, trimmed) {
                    let k = choose|k: int|
                        0 <= k < parts.len() && (if trimmed {
                            spec_trim(#[trigger] parts[k])
                        } else {
                            parts[k]
                        }) == token@;
                    if k == 0 {
                        assert(parts[0] == s@.take(i as int));
                    } else {
                        assert(parts[k] == rest_parts[k - 1]);
                        assert(spec_has_token(s@.skip(i + 1), token@, trimmed));
                    }
                }
            }
        }
        r
    }
}

/// An `Option` of header bytes, viewed.
pub open spec fn opt_bytes(o: Option<&[u8]>) -> Option<Seq<u8>> {
    match o {
        Some(b) => Some(b@),
        None => None,
    }
}

/// The compression decision, made once per response: the declared content
/// type is exactly the event-stream type up to surrounding whitespace, no
/// content encoding is set yet, and the client's `Accept-Encoding` list
/// holds a `gzip` element (case-sensitive, whitespace-trimmed).
pub open spec fn spec_should_compress(
    content_type: Option<Seq<u8>>,
    has_content_encoding: bool,
    accept_encoding: Option<Seq<u8>>,
) -> bool {
    &&& content_type matches Some(ct) && spec_trim(ct) == "text/event-stream".spec_bytes()
    &&& !has_content_encoding
    &&& accept_encoding matches Some(ae) && spec_has_token(ae, "gzip".spec_bytes(), true)
}

/// Decides whether to compress a response, from the response's
/// `Content-Type`, whether it already has a `Content-Encoding`, and the
/// request's `Accept-Encoding`.  `None` stands for an absent header.
pub fn should_compress(
    content_type: Option<&[u8]>,
    has_content_encoding: bool,
    accept_encoding: Option<&[u8]>,
) -> (r: bool)
    ensures
        r == spec_should_compress(
            opt_bytes(content_type),
            has_content_encoding,
            opt_bytes(accept_encoding),
        ),
{
    let ct_ok = match content_type {
        Some(ct) => bytes_eq(trim_whitespace(ct), "text/event-stream".as_bytes()),
        None => false,
    };
    let ae_ok = match accept_encoding {
        Some(ae) => has_token(ae, "gzip".as_bytes(), true),
        None => false,
    };
    ct_ok && !has_content_encoding && ae_ok
}

/// Negotiation: a request whose `Accept-Encoding` list has no `gzip`
/// element is never compressed for, whatever the response headers say.
pub proof fn lemma_no_gzip_no_compress(
    content_type: Option<Seq<u8>>,
    has_content_encoding: bool,
    accept_encoding: Option<Seq<u8>>,
)
    requires
        accept_encoding matches Some(ae) ==> !spec_has_token(ae, "gzip".spec_bytes(), true),
    ensures
        !spec_should_compress(content_type, has_content_encoding, accept_encoding),
{
}

/// The rewrite decision for unauthorized responses: the response is
/// unauthorized with an empty body, its content type (if declared) is HTML,
/// and the request's `Accept` list (if sent) names `text/html` exactly.
pub open spec fn spec_should_rewrite_unauthorized(
    is_unauthorized: bool,
    body_is_empty: bool,
    content_type: Option<Seq<u8>>,
    accept: Option<Seq<u8>>,
) -> bool {
    &&& is_unauthorized
    &&& body_is_empty
    &&& (content_type matches Some(ct) ==> ct == "text/html".spec_bytes())
    &&& (accept matches Some(a) ==> spec_has_token(a, "text/html".spec_bytes(), false))
}

/// Decides whether an unauthorized response is replaced by the HTML
/// redirect-to-login page.
pub fn should_rewrite_unauthorized(
    is_unauthorized: bool,
    body_is_empty: bool,
    content_type: Option<&[u8]>,
    accept: Option<&[u8]>,
) -> (r: bool)
    ensures
        r == spec_should_rewrite_unauthorized(
            is_unauthorized,
            body_is_empty,
            opt_bytes(content_type),
            opt_bytes(accept),
        ),
{
    let ct_ok = match content_type {
        Some(ct) => bytes_eq(ct, "text/html".as_bytes()),
        None => true,
    };
    let accept_ok = match accept {
        Some(a) => has_token(a, "text/html".as_bytes(), false),
        None => true,
    };
    is_unauthorized && body_is_empty && ct_ok && accept_ok
}

/// The bytes fed into the streaming compression state so far.
pub uninterp spec fn gz_fed(e: CompressedStream) -> Seq<u8>;

/// The compressed bytes the streaming compression state has emitted so far.
pub uninterp spec fn gz_emitted(e: CompressedStream) -> Seq<u8>;

/// What streaming gzip decompression recovers from a byte sequence.
pub uninterp spec fn gunzip(b: Seq<u8>) -> Seq<u8>;

/// The streaming compression state owned by one response stream.  It holds
/// a `flate2` gzip encoder writing into an owned buffer.
///
/// Feeding it the inbound chunk sequence yields the outbound chunk sequence,
/// one outbound chunk per inbound chunk, each produced by compressing the
/// inbound chunk and forcing a flush, so that delivery stays interactive
/// instead of buffering until the stream ends.
#[verifier::external_body]
pub struct CompressedStream {
    compression: flate2::write::GzEncoder<Vec<u8>>,
}

impl CompressedStream {
    /// The concatenation of the inbound chunks fed so far.
    pub open spec fn spec_fed(&self) -> Seq<u8> {
        gz_fed(*self)
    }

    /// The concatenation of the outbound chunks emitted so far.
    pub open spec fn spec_emitted(&self) -> Seq<u8> {
        gz_emitted(*self)
    }

    /// Relies on `flate2::write::GzEncoder::new` over an empty `Vec` sink: a
    /// fresh encoder has been fed nothing and has emitted nothing.
    #[verifier::external_body]
    pub fn new() -> (r: Self)
        ensures
            gz_fed(r) == Seq::<u8>::empty(),
            gz_emitted(r) == Seq::<u8>::empty(),
    {
        Self { compression: flate2::write::GzEncoder::new(Vec::new(), flate2::Compression::default()) }
    }

    /// Transforms one inbound chunk into its one outbound chunk.  After the
    /// call, decompressing everything emitted so far recovers everything fed
    /// so far: compression is transparent at every chunk boundary.
    ///
    /// Relies on `flate2::write::GzEncoder`'s `Write` impl and `get_mut`:
    /// writing feeds the chunk to the compressor, `flush` inserts a
    /// sync-flush point, and taking the sink afterwards hands out exactly
    /// the bytes emitted since the last take.  Per `get_mut`'s
    /// documentation, after a flush all input accepted so far is decodable
    /// from the output emitted so far.  Writing to a `Vec` sink cannot
    /// fail, so the `unwrap`s cannot fire.
    #[verifier::external_body]
    pub fn push_chunk(&mut self, chunk: &[u8]) -> (out: Vec<u8>)
        ensures
            gz_fed(*final(self)) == gz_fed(*old(self)) + chunk@,
            gz_emitted(*final(self)) == gz_emitted(*old(self)) + out@,
            gunzip(gz_emitted(*final(self))) == gz_fed(*final(self)),
    {
        std::io::Write::write_all(&mut self.compression, chunk).unwrap();
        std::io::Write::flush(&mut self.compression).unwrap();
        std::mem::take(self.compression.get_mut())
    }
}

/// Compression transparency over a whole stream: the outbound chunk count
/// equals the inbound chunk count, and decompressing the concatenation of
/// all outbound chunks reproduces the concatenation of all inbound chunks.
pub fn compress_chunks(chunks: &Vec<Vec<u8>>) -> (out: Vec<Vec<u8>>)
    ensures
        out@.len() == chunks@.len(),
        chunks@.len() > 0 ==> gunzip(out.deep_view().flatten()) == chunks.deep_view().flatten(),
        forall|j: int|
            0 < j <= chunks@.len() ==> gunzip(
                (#[trigger] out.deep_view().take(j)).flatten(),
            ) == chunks.deep_view().take(j).flatten(),
{
    broadcast use Seq::lemma_flatten_push;

    let mut stream = CompressedStream::new();
    let mut out: Vec<Vec<u8>> = Vec::new();
    let mut i: usize = 0;
    proof {
        assert(chunks.deep_view().take(0) =~= Seq::<Seq<u8>>::empty());
        assert(Seq::<Seq<u8>>::empty().flatten() =~= Seq::<u8>::empty());
        assert(out.deep_view() =~= Seq::<Seq<u8>>::empty());
    }
    while i < chunks.len()
        invariant
            0 <= i <= chunks@.len(),
            out@.len() == i,
            stream.spec_fed() == chunks.deep_view().take(i as int).flatten(),
            stream.spec_emitted() == out.deep_view().flatten(),
            i > 0 ==> gunzip(stream.spec_emitted()) == stream.spec_fed(),
            forall|j: int|
                0 < j <= i ==> gunzip((#[trigger] out.deep_view().take(j)).flatten())
                    == chunks.deep_view().take(j).flatten(),
        decreases chunks@.len() - i,
    {
        let ghost prev_in = chunks.deep_view().take(i as int);
        let ghost prev_out = out.deep_view();
        let compressed = stream.push_chunk(chunks[i].as_slice());
        let ghost comp_view = compressed@;
        out.push(compressed);
        proof {
            assert(chunks.deep_view()[i as int] =~= chunks@[i as int]@);
            assert(chunks.deep_view().take(i + 1) =~~= prev_in.push(chunks.deep_view()[i as int]));
            prev_in.lemma_flatten_push(chunks.deep_view()[i as int]);
            assert(out.deep_view() =~~= prev_out.push(comp_view));
            prev_out.lemma_flatten_push(comp_view);
            assert forall|j: int| 0 < j <= i + 1 implies gunzip(
                (#[trigger] out.deep_view().take(j)).flatten(),
            ) == chunks.deep_view().take(j).flatten() by {
                if j == i + 1 {
                    assert(out.deep_view().take(j) =~~= out.deep_view());
                } else {
                    assert(out.deep_view().take(j) =~~= prev_out.take(j));
                }
            }
        }
        i = i + 1;
    }
    proof {
        assert(chunks.deep_view().take(chunks@.len() as int) =~= chunks.deep_view());
    }
    out
}

} // verus!
