//! Line framing over a byte stream: splits a buffer into `\n`-delimited
//! lines (an optional `\r` before the delimiter is stripped) and frames an
//! outbound line by appending a single `\n`.

use vstd::prelude::*;

verus! {

/// The line-feed delimiter.
pub open spec fn nl() -> u8 {
    '\n' as u8
}

/// The carriage return that may precede the delimiter.
pub open spec fn cr() -> u8 {
    '\r' as u8
}

/// A line with a trailing carriage return loses it; any other line is kept.
pub open spec fn strip_cr(line: Seq<u8>) -> Seq<u8> {
    if line.len() > 0 && line.last() == cr() {
        line.drop_last()
    } else {
        line
    }
}

/// Index of the first line feed in `s` at or after `from`, if any.
pub open spec fn first_nl_from(s: Seq<u8>, from: int) -> Option<int>
    decreases s.len() - from,
{
    if from < 0 || from >= s.len() {
        None
    } else if s[from] == nl() {
        Some(from)
    } else {
        first_nl_from(s, from + 1)
    }
}

/// One decoding step on a buffer, as a mathematical function: cursor and
/// buffer in, new cursor, remaining buffer and extracted line out.
///
/// When a delimiter stands at or after the cursor, the line before the
/// first such delimiter is extracted (its trailing carriage return
/// stripped), the consumed bytes leave the buffer, and the cursor resets.
/// Otherwise the buffer is kept whole and the cursor advances to its end.
pub open spec fn spec_decode(cursor: nat, buf: Seq<u8>) -> (nat, Seq<u8>, Option<Seq<u8>>) {
    match first_nl_from(buf, cursor as int) {
        Some(n) => (0 as nat, buf.skip(n + 1), Some(strip_cr(buf.take(n)))),
        None => (buf.len(), buf, None),
    }
}

/// One decoding step at end of stream: as `spec_decode`, except that an
/// undelimited remainder is flushed as a final line, unless it is empty or
/// a lone carriage return.
pub open spec fn spec_decode_eof(cursor: nat, buf: Seq<u8>) -> (nat, Seq<u8>, Option<Seq<u8>>) {
    match first_nl_from(buf, cursor as int) {
        Some(n) => (0 as nat, buf.skip(n + 1), Some(strip_cr(buf.take(n)))),
        None => if buf.len() == 0 || buf == seq![cr()] {
            (buf.len(), buf, None)
        } else {
            (0 as nat, Seq::<u8>::empty(), Some(strip_cr(buf)))
        },
    }
}

/// What `first_nl_from` returns: the found index carries the first
/// delimiter at or after `from`, and `None` means the scanned range holds
/// none.
pub proof fn lemma_first_nl_spec(s: Seq<u8>, from: int)
    requires
        0 <= from <= s.len(),
    ensures
        match first_nl_from(s, from) {
            Some(n) => from <= n < s.len() && s[n] == nl() && (forall|j: int|
                from <= j < n ==> s[j] != nl()),
            None => forall|j: int| from <= j < s.len() ==> s[j] != nl(),
        },
    decreases s.len() - from,
{
    if from < s.len() && s[from] != nl() {
        lemma_first_nl_spec(s, from + 1);
    }
}

/// A delimiter at `n` with none before it (at or after `from`) is the one
/// that `first_nl_from` finds.
pub proof fn lemma_first_nl_at(s: Seq<u8>, from: int, n: int)
    requires
        0 <= from <= n < s.len(),
        s[n] == nl(),
        forall|j: int| from <= j < n ==> s[j] != nl(),
    ensures
        first_nl_from(s, from) == Some(n),
    decreases n - from,
{
    if from < n {
        lemma_first_nl_at(s, from + 1, n);
    }
}

/// A range without a delimiter makes `first_nl_from` come back empty.
pub proof fn lemma_first_nl_none(s: Seq<u8>, from: int)
    requires
        0 <= from <= s.len(),
        forall|j: int| from <= j < s.len() ==> s[j] != nl(),
    ensures
        first_nl_from(s, from) is None,
    decreases s.len() - from,
{
    if from < s.len() {
        lemma_first_nl_none(s, from + 1);
    }
}

/// What `encode` makes of a line: the line's bytes followed by a single
/// delimiter.
pub open spec fn spec_encode(line: Seq<u8>) -> Seq<u8> {
    line + seq![nl()]
}

/// A delimiter-free range leaves `first_nl_from` indifferent to where in
/// it the scan starts.
pub proof fn lemma_first_nl_skip_clean(s: Seq<u8>, from: int, to: int)
    requires
        0 <= from <= to <= s.len(),
        forall|j: int| from <= j < to ==> s[j] != nl(),
    ensures
        first_nl_from(s, from) == first_nl_from(s, to),
    decreases to - from,
{
    if from < to {
        lemma_first_nl_skip_clean(s, from + 1, to);
    }
}

/// Law: a delimiter-free line, once framed by `encode`, decodes back to
/// itself in one step and leaves an empty buffer. A line whose own last
/// byte is a carriage return is left out: decoding strips that byte.
pub proof fn lemma_encode_decode_round_trip(line: Seq<u8>)
    requires
        forall|i: int| 0 <= i < line.len() ==> line[i] != nl(),
        line.len() > 0 ==> line.last() != cr(),
    ensures
        spec_decode(0, spec_encode(line)).0 == 0,
        spec_decode(0, spec_encode(line)).1 == Seq::<u8>::empty(),
        spec_decode(0, spec_encode(line)).2 == Some(line),
{
    let buf = spec_encode(line);
    assert(buf[line.len() as int] == nl());
    lemma_first_nl_at(buf, 0, line.len() as int);
    assert(buf.take(line.len() as int) =~= line);
    assert(buf.skip(line.len() as int + 1) =~= Seq::<u8>::empty());
}

/// Law: a chunk without a delimiter yields no line and stays buffered
/// whole, with the cursor moved past it.
pub proof fn lemma_decode_partial(a: Seq<u8>)
    requires
        forall|i: int| 0 <= i < a.len() ==> a[i] != nl(),
    ensures
        spec_decode(0, a).0 == a.len(),
        spec_decode(0, a).1 == a,
        spec_decode(0, a).2 == None::<Seq<u8>>,
{
    lemma_first_nl_none(a, 0);
}

/// Law: a line split over two reads is neither lost nor changed. After a
/// delimiter-free chunk `a` was scanned (cursor at its end), decoding the
/// grown buffer `a + b` gives exactly what decoding `a + b` from scratch
/// would give.
pub proof fn lemma_decode_two_chunks(a: Seq<u8>, b: Seq<u8>)
    requires
        forall|i: int| 0 <= i < a.len() ==> a[i] != nl(),
    ensures
        spec_decode(a.len(), a + b) == spec_decode(0, a + b),
{
    let s = a + b;
    assert(forall|j: int| 0 <= j < a.len() ==> s[j] != nl());
    lemma_first_nl_skip_clean(s, 0, a.len() as int);
}

/// Law: bytes arriving after a buffered delimiter do not change the line
/// that decoding extracts, only the remainder that stays buffered.
pub proof fn lemma_decode_prefix_stable(a: Seq<u8>, b: Seq<u8>)
    requires
        first_nl_from(a, 0) is Some,
    ensures
        spec_decode(0, a + b).0 == spec_decode(0, a).0,
        spec_decode(0, a + b).1 == spec_decode(0, a).1 + b,
        spec_decode(0, a + b).2 == spec_decode(0, a).2,
{
    let n = first_nl_from(a, 0).unwrap();
    lemma_first_nl_spec(a, 0);
    let s = a + b;
    lemma_first_nl_at(s, 0, n);
    assert(s.take(n) =~= a.take(n));
    assert(s.skip(n + 1) =~= a.skip(n + 1) + b);
}

/// Law: a payload arriving as `payload CR LF` and as `payload LF` decodes
/// to the same line, the payload itself: the carriage return before the
/// delimiter is invisible. A payload whose own last byte is a carriage
/// return is left out: there the bare-LF form strips that byte too.
pub proof fn lemma_cr_invisible(p: Seq<u8>)
    requires
        forall|i: int| 0 <= i < p.len() ==> p[i] != nl(),
        p.len() > 0 ==> p.last() != cr(),
    ensures
        spec_decode(0, p + seq![cr(), nl()]).2 == Some(p),
        spec_decode(0, p + seq![nl()]).2 == Some(p),
{
    let b1 = p + seq![cr(), nl()];
    assert(b1[p.len() as int + 1] == nl());
    lemma_first_nl_at(b1, 0, p.len() as int + 1);
    assert(b1.take(p.len() as int + 1) =~= p + seq![cr()]);
    assert(strip_cr(p + seq![cr()]) =~= p);

    let b2 = p + seq![nl()];
    assert(b2[p.len() as int] == nl());
    lemma_first_nl_at(b2, 0, p.len() as int);
    assert(b2.take(p.len() as int) =~= p);
}

/// Law: at end of stream an undelimited tail is flushed exactly once: the
/// flush empties the buffer and yields the tail, its trailing carriage
/// return stripped, and a further end-of-stream step on the emptied buffer
/// yields nothing more.
pub proof fn lemma_eof_flush(t: Seq<u8>)
    requires
        forall|i: int| 0 <= i < t.len() ==> t[i] != nl(),
        t.len() > 0,
        t != seq![cr()],
    ensures
        spec_decode_eof(0, t).0 == 0,
        spec_decode_eof(0, t).1 == Seq::<u8>::empty(),
        spec_decode_eof(0, t).2 == Some(strip_cr(t)),
        spec_decode_eof(0, Seq::<u8>::empty()).2 == None::<Seq<u8>>,
{
    lemma_first_nl_none(t, 0);
}

/// Law: an empty residue, or one of a lone carriage return, yields nothing
/// at end of stream.
pub proof fn lemma_eof_residue_noise(t: Seq<u8>)
    requires
        t.len() == 0 || t == seq![cr()],
    ensures
        spec_decode_eof(0, t).1 == t,
        spec_decode_eof(0, t).2 == None::<Seq<u8>>,
{
    assert(forall|j: int| 0 <= j < t.len() ==> t[j] != nl());
    lemma_first_nl_none(t, 0);
}

/// Incremental line splitter. `next_index` remembers how far the current
/// buffer has already been scanned for a delimiter, so that repeated calls
/// on a growing buffer never rescan bytes known to hold none.
#[derive(Clone, Debug, Eq, PartialEq, Ord, PartialOrd, Hash)]
pub struct ByteLinesCodec {
    next_index: usize,
}

impl View for ByteLinesCodec {
    type V = nat;

    /// The scan cursor: every byte of the buffer before it is known to be
    /// no delimiter.
    closed spec fn view(&self) -> nat {
        self.next_index as nat
    }
}

/// Position of the first delimiter in `buf` at or after `from`.
fn find_nl(buf: &Vec<u8>, from: usize) -> (r: Option<usize>)
    requires
        from <= buf@.len(),
    ensures
        match r {
            Some(n) => from <= n < buf@.len() && first_nl_from(buf@, from as int) == Some(n as int),
            None => first_nl_from(buf@, from as int) is None,
        },
{
    let mut i: usize = from;
    while i < buf.len()
        invariant
            from <= i <= buf@.len(),
            forall|j: int| from <= j < i ==> buf@[j] != nl(),
        decreases buf@.len() - i,
    {
        if buf[i] == '\n' as u8 {
            proof {
                lemma_first_nl_at(buf@, from as int, i as int);
            }
            return Some(i);
        }
        i = i + 1;
    }
    proof {
        lemma_first_nl_none(buf@, from as int);
    }
    None
}

/// Copy of `buf[from..to]` as a fresh vector.
fn copy_range(buf: &Vec<u8>, from: usize, to: usize) -> (r: Vec<u8>)
    requires
        from <= to <= buf@.len(),
    ensures
        r@ == buf@.subrange(from as int, to as int),
{
    let mut r: Vec<u8> = Vec::new();
    let mut k: usize = from;
    while k < to
        invariant
            from <= k <= to <= buf@.len(),
            r@ == buf@.subrange(from as int, k as int),
        decreases to - k,
    {
        r.push(buf[k]);
        proof {
            assert(r@ =~= buf@.subrange(from as int, k + 1 as int));
        }
        k = k + 1;
    }
    r
}

/// Removes a trailing carriage return, if the line ends in one.
fn trim_cr(line: &mut Vec<u8>)
    ensures
        final(line)@ == strip_cr(old(line)@),
{
    if line.len() > 0 && line[line.len() - 1] == '\r' as u8 {
        line.pop();
        proof {
            assert(final(line)@ =~= strip_cr(old(line)@));
        }
    }
}

impl Default for ByteLinesCodec {
    fn default() -> (c: Self)
        ensures
            c@ == 0,
    {
        ByteLinesCodec::new()
    }
}

impl ByteLinesCodec {
    pub fn new() -> (c: ByteLinesCodec)
        ensures
            c@ == 0,
    {
        ByteLinesCodec { next_index: 0 }
    }

    /// The scan cursor's position: never past the end of the buffer the
    /// codec last saw.
    pub fn cursor(&self) -> (i: usize)
        ensures
            i == self@,
    {
        self.next_index
    }

    /// Extracts the next delimited line from `buf`, if one is complete, per
    /// `spec_decode`: the line and its delimiter leave the buffer, a
    /// trailing carriage return is stripped off the line, and the cursor
    /// resets; with no delimiter yet the buffer is kept and the cursor
    /// advances past it, awaiting more bytes.
    pub fn decode(&mut self, buf: &mut Vec<u8>) -> (r: Option<Vec<u8>>)
        requires
            old(self)@ <= old(buf)@.len(),
        ensures
            ({
                let (c2, b2, l) = spec_decode(old(self)@, old(buf)@);
                &&& final(self)@ == c2
                &&& final(buf)@ == b2
                &&& match (r, l) {
                    (Some(line), Some(sl)) => line@ == sl,
                    (None, None) => true,
                    _ => false,
                }
            }),
    {
        match find_nl(buf, self.next_index) {
            Some(n) => {
                proof {
                    assert(n < buf@.len());
                }
                self.next_index = 0;
                let mut line = copy_range(buf, 0, n);
                trim_cr(&mut line);
                let len = buf.len();
                let rest = copy_range(buf, n + 1, len);
                proof {
                    assert(old(buf)@.subrange(0, n as int) =~= old(buf)@.take(n as int));
                    assert(old(buf)@.subrange(n + 1 as int, old(buf)@.len() as int) =~= old(
                        buf,
                    )@.skip(n + 1 as int));
                }
                *buf = rest;
                Some(line)
            },
            None => {
                self.next_index = buf.len();
                None
            },
        }
    }

    /// As `decode`, at end of stream, per `spec_decode_eof`: an undelimited
    /// remainder is flushed as a final line unless it is empty or a lone
    /// carriage return, which is noise and yields nothing.
    pub fn decode_eof(&mut self, buf: &mut Vec<u8>) -> (r: Option<Vec<u8>>)
        requires
            old(self)@ <= old(buf)@.len(),
        ensures
            ({
                let (c2, b2, l) = spec_decode_eof(old(self)@, old(buf)@);
                &&& final(self)@ == c2
                &&& final(buf)@ == b2
                &&& match (r, l) {
                    (Some(line), Some(sl)) => line@ == sl,
                    (None, None) => true,
                    _ => false,
                }
            }),
    {
        match self.decode(buf) {
            Some(line) => Some(line),
            None => {
                if buf.len() == 0 || (buf.len() == 1 && buf[0] == '\r' as u8) {
                    proof {
                        if buf@.len() == 1 && buf@[0] == cr() {
                            assert(buf@ =~= seq![cr()]);
                        }
                    }
                    None
                } else {
                    proof {
                        assert(old(buf)@ != seq![cr()]);
                    }
                    let mut line = copy_range(buf, 0, buf.len());
                    trim_cr(&mut line);
                    buf.clear();
                    self.next_index = 0;
                    proof {
                        assert(old(buf)@.subrange(0, old(buf)@.len() as int) =~= old(buf)@);
                        assert(final(buf)@ =~= Seq::<u8>::empty());
                    }
                    Some(line)
                }
            },
        }
    }

    /// Frames one outbound line: appends the line's bytes and a single
    /// delimiter to `buf`. The payload is written as it is, unescaped.
    pub fn encode(&mut self, line: &Vec<u8>, buf: &mut Vec<u8>)
        ensures
            final(buf)@ == old(buf)@ + spec_encode(line@),
            *old(self) == *final(self),
    {
        let mut i: usize = 0;
        while i < line.len()
            invariant
                i <= line.len(),
                buf@ == old(buf)@ + line@.take(i as int),
            decreases line.len() - i,
        {
            buf.push(line[i]);
            i = i + 1;
        }
        buf.push('\n' as u8);
        proof {
            assert(buf@ =~= old(buf)@ + line@ + seq![nl()]);
        }
    }
}

} // verus!
