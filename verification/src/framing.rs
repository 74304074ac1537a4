//! Finding the end of a header block in a stream that carries no length.
//!
//! The caller peeks at the stream without consuming, hands the peeked window
//! to [`HeaderReader::advance`], and takes off the stream exactly as many
//! bytes as the answer says. Bytes that follow the block are never taken.
//!
//! A block may be of any size: the reader sets no limit, and a peer that
//! never sends the empty line is read for as long as it sends.

use vstd::prelude::*;
use vstd::slice::slice_subrange;
use vstd::utf8::*;

verus! {

/// The most bytes a caller should ask for in one peek.
pub const PEEK_SIZE: usize = 4096;

/// Room set aside for a header block before the first byte arrives.
pub const INITIAL_CAPACITY: usize = 65536;

/// Whether the empty line that ends a header block (`\r\n\r\n`) stands in `s`
/// at offset `i`.
pub open spec fn terminator_at(s: Seq<u8>, i: int) -> bool {
    &&& 0 <= i
    &&& i + 4 <= s.len()
    &&& s[i] == 13
    &&& s[i + 1] == 10
    &&& s[i + 2] == 13
    &&& s[i + 3] == 10
}

/// Whether `i` is the offset of the first terminator in `s`.
pub open spec fn is_first_terminator(s: Seq<u8>, i: int) -> bool {
    &&& terminator_at(s, i)
    &&& forall|j: int| 0 <= j < i ==> !terminator_at(s, j)
}

/// The offset of the first terminator in `s`, if `s` holds one.
pub open spec fn first_terminator(s: Seq<u8>) -> Option<int> {
    if exists|i: int| is_first_terminator(s, i) {
        Some(choose|i: int| is_first_terminator(s, i))
    } else {
        None
    }
}

/// There is at most one first terminator, and `first_terminator` names it.
pub proof fn lemma_first_terminator_is(s: Seq<u8>, i: int)
    requires
        is_first_terminator(s, i),
    ensures
        first_terminator(s) == Some(i),
{
    let c = choose|k: int| is_first_terminator(s, k);
    assert(is_first_terminator(s, c));
    if c < i {
        assert(!terminator_at(s, c));
    } else if i < c {
        assert(!terminator_at(s, i));
    }
}

/// Without any terminator there is no first one.
pub proof fn lemma_first_terminator_none(s: Seq<u8>)
    requires
        forall|j: int| !terminator_at(s, j),
    ensures
        first_terminator(s) is None,
{
}

/// Scans `window` for the first `\r\n\r\n`.
pub fn find_terminator(window: &[u8]) -> (found: Option<usize>)
    ensures
        match found {
            Some(i) => first_terminator(window@) == Some(i as int),
            None => first_terminator(window@) is None,
        },
        found matches Some(i) ==> is_first_terminator(window@, i as int),
        found is None ==> forall|j: int| !terminator_at(window@, j),
{
    let n: usize = window.len();
    if n < 4 {
        proof {
            lemma_first_terminator_none(window@);
        }
        return None;
    }
    let mut i: usize = 0;
    while i <= n - 4
        invariant
            n == window@.len(),
            4 <= n,
            forall|j: int| 0 <= j < i ==> !terminator_at(window@, j),
        decreases n - i,
    {
        if window[i] == 13 && window[i + 1] == 10 && window[i + 2] == 13 && window[i + 3] == 10 {
            proof {
                lemma_first_terminator_is(window@, i as int);
            }
            return Some(i);
        }
        i = i + 1;
    }
    proof {
        lemma_first_terminator_none(window@);
    }
    None
}

/// Why no header text came out of a connection.
#[derive(Clone, Copy, Debug, PartialEq, Eq)]
pub enum HeaderError {
    /// The stream ended before an empty line was seen.
    UnexpectedEof,
    /// The block is complete but is not UTF-8.
    InvalidUtf8,
}

impl HeaderError {
    /// The text that describes the error to an operator.
    pub fn message(&self) -> (text: &'static str)
        ensures
            text@ == match *self {
                HeaderError::UnexpectedEof => "Unexpected EOF"@,
                HeaderError::InvalidUtf8 => "invalid utf-8 sequence in header"@,
            },
    {
        match self {
            HeaderError::UnexpectedEof => "Unexpected EOF",
            HeaderError::InvalidUtf8 => "invalid utf-8 sequence in header",
        }
    }
}

/// The bytes of a header block taken off a stream so far; the block is not
/// complete yet.
pub struct HeaderReader {
    buffer: Vec<u8>,
}

impl View for HeaderReader {
    type V = Seq<u8>;

    closed spec fn view(&self) -> Seq<u8> {
        self.buffer@
    }
}

/// What the caller does after a window was examined.
pub enum ReadStep {
    /// Take `consume` bytes off the stream and peek again.
    Continue { reader: HeaderReader, consume: usize },
    /// Take `consume` bytes off the stream: `header` is the whole block.
    Complete { header: String, consume: usize },
    /// Take `consume` bytes off the stream and give the connection up.
    Failed { error: HeaderError, consume: usize },
}

/// A [`ReadStep`] as contracts speak of it.
pub ghost enum ReadStepView {
    Continue { bytes: Seq<u8>, consume: nat },
    Complete { header: Seq<char>, consume: nat },
    Failed { error: HeaderError, consume: nat },
}

impl ReadStepView {
    /// How many bytes the caller takes off the stream.
    pub open spec fn taken(self) -> nat {
        match self {
            ReadStepView::Continue { consume, .. } => consume,
            ReadStepView::Complete { consume, .. } => consume,
            ReadStepView::Failed { consume, .. } => consume,
        }
    }
}

impl View for ReadStep {
    type V = ReadStepView;

    open spec fn view(&self) -> ReadStepView {
        match *self {
            ReadStep::Continue { reader, consume } => ReadStepView::Continue {
                bytes: reader@,
                consume: consume as nat,
            },
            ReadStep::Complete { header, consume } => ReadStepView::Complete {
                header: header@,
                consume: consume as nat,
            },
            ReadStep::Failed { error, consume } => ReadStepView::Failed {
                error,
                consume: consume as nat,
            },
        }
    }
}

/// One round of reading: `bytes` were taken before, `window` was peeked now.
///
/// An empty window means that the stream has ended. A window with a
/// terminator completes the block with the window's bytes up to the
/// terminator's end, and nothing after them is taken. Any other window is
/// taken whole.
pub open spec fn read_step(bytes: Seq<u8>, window: Seq<u8>) -> ReadStepView {
    if window.len() == 0 {
        ReadStepView::Failed { error: HeaderError::UnexpectedEof, consume: 0 }
    } else {
        match first_terminator(window) {
            Some(i) => {
                let block = bytes + window.take(i + 4);
                if valid_utf8(block) {
                    ReadStepView::Complete { header: decode_utf8(block), consume: (i + 4) as nat }
                } else {
                    ReadStepView::Failed {
                        error: HeaderError::InvalidUtf8,
                        consume: (i + 4) as nat,
                    }
                }
            },
            None => ReadStepView::Continue { bytes: bytes + window, consume: window.len() },
        }
    }
}

/// Calls `String::from_utf8`, which hands back the text that `bytes` encode,
/// or fails where they are not UTF-8.
#[verifier::external_body]
fn decode(bytes: Vec<u8>) -> (text: Option<String>)
    ensures
        text matches Some(t) ==> valid_utf8(bytes@) && t@ == decode_utf8(bytes@),
        text is None ==> !valid_utf8(bytes@),
{
    String::from_utf8(bytes).ok()
}

impl HeaderReader {
    /// A reader at the start of a connection.
    pub fn new() -> (reader: HeaderReader)
        ensures
            reader@ == Seq::<u8>::empty(),
    {
        HeaderReader { buffer: Vec::with_capacity(INITIAL_CAPACITY) }
    }

    /// Examines the window that a peek returned. What is to be taken off
    /// the stream lies within the window.
    pub fn advance(self, window: &[u8]) -> (step: ReadStep)
        ensures
            step@ == read_step(self@, window@),
            step@.taken() <= window@.len(),
    {
        if window.len() == 0 {
            return ReadStep::Failed { error: HeaderError::UnexpectedEof, consume: 0 };
        }
        let mut buffer = self.buffer;
        let ghost before = buffer@;
        match find_terminator(window) {
            Some(i) => {
                let consume: usize = i + 4;
                buffer.extend_from_slice(slice_subrange(window, 0, consume));
                assert(buffer@ == before + window@.take(i + 4));
                match decode(buffer) {
                    Some(header) => ReadStep::Complete { header, consume },
                    None => ReadStep::Failed { error: HeaderError::InvalidUtf8, consume },
                }
            },
            None => {
                buffer.extend_from_slice(window);
                assert(buffer@ == before + window@);
                ReadStep::Continue { reader: HeaderReader { buffer }, consume: window.len() }
            },
        }
    }
}

/// How many bytes the first `k` rounds of `peeks` take off a stream when each
/// window is taken whole: the offset at which round `k` begins.
pub open spec fn boundary(peeks: Seq<nat>, k: nat) -> nat
    decreases k,
{
    if k == 0 || peeks.len() == 0 {
        0
    } else {
        peeks[0] + boundary(peeks.drop_first(), (k - 1) as nat)
    }
}

/// The reader run over `stream` for as many rounds as `peeks` has entries,
/// round `k` peeking `peeks[k]` bytes (or what is left of the stream, if that
/// is less). Gives the step at which reading stopped and the number of bytes
/// taken off the stream in all.
pub open spec fn read_rounds(bytes: Seq<u8>, stream: Seq<u8>, peeks: Seq<nat>) -> (
    ReadStepView,
    nat,
)
    decreases peeks.len(),
{
    if peeks.len() == 0 {
        (ReadStepView::Continue { bytes, consume: 0 }, 0)
    } else {
        let n = if peeks[0] <= stream.len() {
            peeks[0] as int
        } else {
            stream.len() as int
        };
        match read_step(bytes, stream.take(n)) {
            ReadStepView::Continue { bytes: more, consume } => {
                let rest = read_rounds(more, stream.skip(consume as int), peeks.drop_first());
                (rest.0, consume + rest.1)
            },
            ReadStepView::Complete { header, consume } => (
                ReadStepView::Complete { header, consume },
                consume,
            ),
            ReadStepView::Failed { error, consume } => (
                ReadStepView::Failed { error, consume },
                consume,
            ),
        }
    }
}

/// What reading makes of a complete block: its text, or the failure to
/// decode it.
pub open spec fn block_outcome(block: Seq<u8>, last: ReadStepView) -> bool {
    if valid_utf8(block) {
        last matches ReadStepView::Complete { header, .. } && header == decode_utf8(block)
            && encode_utf8(header) == block
    } else {
        last matches ReadStepView::Failed { error, .. } && error == HeaderError::InvalidUtf8
    }
}

proof fn lemma_rounds(bytes: Seq<u8>, stream: Seq<u8>, peeks: Seq<nat>, t: int)
    requires
        is_first_terminator(stream, t),
        forall|k: int| 0 <= k < peeks.len() ==> peeks[k] >= 1,
        boundary(peeks, peeks.len()) >= t + 4,
        forall|k: nat|
            k <= peeks.len() ==> {
                let b = #[trigger] boundary(peeks, k);
                b <= t || t + 4 <= b
            },
    ensures
        read_rounds(bytes, stream, peeks).1 == t + 4,
        block_outcome(bytes + stream.take(t + 4), read_rounds(bytes, stream, peeks).0),
    decreases peeks.len(),
{
    broadcast use decode_utf8_encode_utf8;

    assert(peeks.len() > 0);
    let rest_peeks = peeks.drop_first();
    assert(boundary(rest_peeks, 0) == 0);
    assert(boundary(peeks, 1) == peeks[0]);
    let block = bytes + stream.take(t + 4);
    if peeks[0] >= t + 4 {
        let n = if peeks[0] <= stream.len() {
            peeks[0] as int
        } else {
            stream.len() as int
        };
        let window = stream.take(n);
        assert(terminator_at(window, t));
        assert forall|j: int| 0 <= j < t implies !terminator_at(window, j) by {
            if terminator_at(window, j) {
                assert(terminator_at(stream, j));
            }
        }
        lemma_first_terminator_is(window, t);
        assert(window.take(t + 4) == stream.take(t + 4));
    } else {
        let n = peeks[0] as int;
        let window = stream.take(n);
        assert forall|j: int| !terminator_at(window, j) by {
            if terminator_at(window, j) {
                assert(terminator_at(stream, j));
            }
        }
        lemma_first_terminator_none(window);
        let rest = stream.skip(n);
        assert(terminator_at(rest, t - n));
        assert forall|j: int| 0 <= j < t - n implies !terminator_at(rest, j) by {
            if terminator_at(rest, j) {
                assert(terminator_at(stream, j + n));
            }
        }
        assert forall|k: nat| k <= rest_peeks.len() implies {
            let b = #[trigger] boundary(rest_peeks, k);
            b <= t - n || t - n + 4 <= b
        } by {
            assert(boundary(peeks, k + 1) == peeks[0] + boundary(rest_peeks, k));
        }
        assert(boundary(peeks, peeks.len()) == peeks[0] + boundary(
            rest_peeks,
            rest_peeks.len(),
        ));
        assert forall|k: int| 0 <= k < rest_peeks.len() implies rest_peeks[k] >= 1 by {
            assert(rest_peeks[k] == peeks[k + 1]);
        }
        lemma_rounds(bytes + window, rest, rest_peeks, t - n);
        assert((bytes + window) + rest.take(t - n + 4) == block);
    }
}

/// Header framing. Let a stream hold its first `\r\n\r\n` at offset `t`, and
/// let it be read in rounds that each peek at least one byte, that together
/// reach the terminator's end, and none of which ends inside the terminator.
/// Then reading stops with exactly `t + 4` bytes taken off the stream, so what
/// follows the block is left for whoever reads next, and the header is the
/// text of the stream's first `t + 4` bytes (or, where those are not UTF-8,
/// the failure to decode them).
///
/// A round that ends inside the terminator is left out: the reader looks for
/// the terminator in one window at a time and does not see one that two
/// windows share.
pub proof fn lemma_header_framing(stream: Seq<u8>, peeks: Seq<nat>, t: int)
    requires
        is_first_terminator(stream, t),
        forall|k: int| 0 <= k < peeks.len() ==> peeks[k] >= 1,
        boundary(peeks, peeks.len()) >= t + 4,
        forall|k: nat|
            k <= peeks.len() ==> {
                let b = #[trigger] boundary(peeks, k);
                b <= t || t + 4 <= b
            },
    ensures
        read_rounds(Seq::empty(), stream, peeks).1 == t + 4,
        block_outcome(stream.take(t + 4), read_rounds(Seq::empty(), stream, peeks).0),
{
    lemma_rounds(Seq::empty(), stream, peeks, t);
    assert(Seq::<u8>::empty() + stream.take(t + 4) == stream.take(t + 4));
}

} // verus!
