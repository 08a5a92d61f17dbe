use vstd::prelude::*;

use crate::strutil::lower_chars;
use crate::strutil::lower_ascii;

verus! {

/// The capture buffer of the streaming relay: when enabled, every byte
/// that passes through is appended for the one diagnostic emission after
/// the relay finishes.
pub struct Capture {
    pub enabled: bool,
    pub data: Vec<u8>,
}

/// The capture after one chunk passes through.
pub open spec fn capture_step(data: Seq<u8>, enabled: bool, chunk: Seq<u8>) -> Seq<u8> {
    if enabled {
        data + chunk
    } else {
        data
    }
}

/// The capture after a whole sequence of chunks passes through, in order.
pub open spec fn capture_after(data: Seq<u8>, enabled: bool, chunks: Seq<Seq<u8>>) -> Seq<u8>
    decreases chunks.len(),
{
    if chunks.len() == 0 {
        data
    } else {
        capture_after(capture_step(data, enabled, chunks[0]), enabled, chunks.drop_first())
    }
}

/// All bytes of a chunk sequence, in order.
pub open spec fn concat_chunks(chunks: Seq<Seq<u8>>) -> Seq<u8>
    decreases chunks.len(),
{
    if chunks.len() == 0 {
        Seq::empty()
    } else {
        chunks[0] + concat_chunks(chunks.drop_first())
    }
}

impl Capture {
    /// An empty capture buffer.
    pub fn new(enabled: bool) -> (r: Capture)
        ensures
            r.enabled == enabled,
            r.data@ == Seq::<u8>::empty(),
    {
        Capture { enabled, data: Vec::new() }
    }
}

/// Passes one chunk through the relay: the bytes handed back for the
/// client equal the bytes read from upstream, and when capture is enabled
/// they are also appended to the capture buffer.
pub fn relay_chunk(cap: &mut Capture, chunk: &[u8]) -> (out: Vec<u8>)
    ensures
        out@ == chunk@,
        final(cap).enabled == old(cap).enabled,
        final(cap).data@ == capture_step(old(cap).data@, old(cap).enabled, chunk@),
{
    let out = vstd::slice::slice_to_vec(chunk);
    if cap.enabled {
        cap.data.extend_from_slice(chunk);
        proof {
            assert(cap.data@ =~= old(cap).data@ + chunk@);
        }
    }
    out
}

/// Law of the tee: after any sequence of chunks has passed through, an
/// enabled capture holds exactly its prior bytes followed by every byte
/// that passed, in order, and a disabled capture is unchanged. Together
/// with `relay_chunk`, which hands each chunk on unmodified, the bytes
/// written to the client, the bytes read from upstream, and the captured
/// bytes are one and the same sequence.
pub proof fn lemma_capture_is_stream(data: Seq<u8>, chunks: Seq<Seq<u8>>)
    ensures
        capture_after(data, true, chunks) == data + concat_chunks(chunks),
        capture_after(data, false, chunks) == data,
    decreases chunks.len(),
{
    if chunks.len() == 0 {
        assert(data + concat_chunks(chunks) =~= data);
    } else {
        lemma_capture_is_stream(data + chunks[0], chunks.drop_first());
        lemma_capture_is_stream(data, chunks.drop_first());
        assert((data + chunks[0]) + concat_chunks(chunks.drop_first()) =~= data + (chunks[0]
            + concat_chunks(chunks.drop_first())));
    }
}

/// The content length announced to the client: passed through only when
/// the upstream length is known and representable; otherwise the serving
/// layer falls back to streaming framing.
pub fn representable_content_length(len: u64) -> (r: Option<usize>)
    ensures
        r == (if len <= usize::MAX as u64 {
            Some(len as usize)
        } else {
            None::<usize>
        }),
{
    if len <= usize::MAX as u64 {
        Some(len as usize)
    } else {
        None
    }
}

/// Substring containment over character sequences.
pub open spec fn contains_seq(s: Seq<char>, sub: Seq<char>) -> bool {
    exists|i: int| 0 <= i <= s.len() - sub.len() && #[trigger] s.subrange(i, i + sub.len()) == sub
}

/// The event-stream media type, as it appears in a Content-Type value.
pub open spec fn event_stream_marker() -> Seq<char> {
    "text/event-stream"@
}

/// Whether an advertised Content-Type announces an event stream: the
/// marker occurs in the value under ASCII case folding.
pub fn is_event_stream(content_type: &str) -> (r: bool)
    ensures
        r == contains_seq(lower_chars(content_type@), event_stream_marker()),
{
    let lower = lower_ascii(content_type);
    let marker = "text/event-stream";
    let n: usize = lower.as_str().unicode_len();
    let m: usize = marker.unicode_len();
    let ghost ls = lower_chars(content_type@);
    if m > n {
        return false;
    }
    let mut i: usize = 0;
    while i <= n - m
        invariant
            0 <= i <= n - m + 1,
            m <= n,
            n == ls.len(),
            m == event_stream_marker().len(),
            ls == lower_chars(content_type@),
            lower@ == ls,
            marker@ == event_stream_marker(),
            forall|x: int|
                0 <= x < i ==> #[trigger] ls.subrange(x, x + m as int) != event_stream_marker(),
        decreases n + 1 - m - i,
    {
        let mut j: usize = 0;
        let mut hit: bool = true;
        while j < m
            invariant
                0 <= j <= m,
                i + m <= n,
                n == ls.len(),
                m == event_stream_marker().len(),
                lower@ == ls,
                marker@ == event_stream_marker(),
                hit == (forall|y: int| 0 <= y < j ==> ls[i + y] == event_stream_marker()[y]),
            decreases m - j,
        {
            if lower.as_str().get_char(i + j) != marker.get_char(j) {
                hit = false;
                proof {
                    assert(ls[i + j] != event_stream_marker()[j as int]);
                }
                j = m;
            } else {
                proof {
                    assert(hit ==> forall|y: int|
                        0 <= y < j + 1 ==> ls[i + y] == event_stream_marker()[y]);
                }
                j = j + 1;
            }
        }
        if hit {
            proof {
                assert(ls.subrange(i as int, i as int + event_stream_marker().len())
                    =~= event_stream_marker());
                assert(0 <= i as int <= ls.len() - event_stream_marker().len());
                assert(contains_seq(ls, event_stream_marker()));
            }
            return true;
        }
        proof {
            if ls.subrange(i as int, i + m as int) == event_stream_marker() {
                assert(forall|y: int|
                    0 <= y < m ==> ls[i + y] == #[trigger] ls.subrange(i as int, i + m as int)[y]);
                assert(false);
            }
        }
        i = i + 1;
    }
    proof {
        if contains_seq(ls, event_stream_marker()) {
            let x = choose|x: int|
                0 <= x <= ls.len() - m && #[trigger] ls.subrange(x, x + m as int)
                    == event_stream_marker();
            assert(x < i);
        }
    }
    false
}

} // verus!
