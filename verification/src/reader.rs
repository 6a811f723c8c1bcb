//! Classification of inbound lines and the reader's per-event decision:
//! server status lines are inspected and absorbed, short lines are noise,
//! everything else is yielded as a raw packet; a liveness timeout or an
//! I/O failure ends the stream with a typed error.

use vstd::prelude::*;
use vstd::utf8::valid_utf8;
use crate::error::ISReadError;
use crate::RawPacket;

verus! {

/// How a framed line is treated by the reader.
pub enum LineClass {
    /// Too short to be data and no status line: absorbed as noise.
    Noise,
    /// A server status line (first byte `#`): inspected, never yielded.
    Status,
    /// A data line: yielded to the caller as a raw packet.
    Data,
}

/// The classification rule: a line whose first byte is `#` is a server
/// status line; any other line of at least three bytes is data; the rest
/// is noise.
pub open spec fn spec_classify(line: Seq<u8>) -> LineClass {
    if line.len() > 0 && line[0] == '#' as u8 {
        LineClass::Status
    } else if line.len() >= 3 {
        LineClass::Data
    } else {
        LineClass::Noise
    }
}

pub fn classify_line(line: &Vec<u8>) -> (c: LineClass)
    ensures
        c == spec_classify(line@),
{
    if line.len() > 0 && line[0] == '#' as u8 {
        LineClass::Status
    } else if line.len() >= 3 {
        LineClass::Data
    } else {
        LineClass::Noise
    }
}

/// Whether the reader treats this line as a server status line.
pub fn is_status_line(line: &Vec<u8>) -> (r: bool)
    ensures
        r == (spec_classify(line@) is Status),
{
    line.len() > 0 && line[0] == '#' as u8
}

/// `needle` stands in `hay` at position `i`.
pub open spec fn subseq_at(hay: Seq<u8>, needle: Seq<u8>, i: int) -> bool {
    &&& 0 <= i
    &&& i + needle.len() <= hay.len()
    &&& hay.subrange(i, i + needle.len()) == needle
}

/// `needle` stands somewhere in `hay`.
pub open spec fn contains_seq(hay: Seq<u8>, needle: Seq<u8>) -> bool {
    exists|i: int| subseq_at(hay, needle, i)
}

/// Whether `needle` stands in `hay` at position `i`.
fn match_at(hay: &Vec<u8>, needle: &Vec<u8>, i: usize) -> (r: bool)
    requires
        i + needle@.len() <= hay@.len(),
    ensures
        r == subseq_at(hay@, needle@, i as int),
{
    let m = needle.len();
    let hlen = hay.len();
    let mut j: usize = 0;
    while j < m
        invariant
            j <= m,
            m == needle@.len(),
            hlen == hay@.len(),
            i + m <= hlen,
            forall|l: int| 0 <= l < j ==> hay@[i + l] == needle@[l],
        decreases m - j,
    {
        if hay[i + j] != needle[j] {
            proof {
                assert(hay@.subrange(i as int, i + m as int)[j as int] == hay@[i + j]);
            }
            return false;
        }
        j = j + 1;
    }
    proof {
        assert(hay@.subrange(i as int, i + m as int) =~= needle@);
    }
    true
}

/// Byte-level substring search.
pub fn contains_subseq(hay: &Vec<u8>, needle: &Vec<u8>) -> (r: bool)
    ensures
        r == contains_seq(hay@, needle@),
{
    let m = needle.len();
    let n = hay.len();
    if m > n {
        proof {
            assert(forall|i: int| !subseq_at(hay@, needle@, i));
        }
        return false;
    }
    if m == 0 {
        proof {
            assert(hay@.subrange(0, 0) =~= needle@);
            assert(subseq_at(hay@, needle@, 0));
        }
        return true;
    }
    let mut i: usize = 0;
    while i <= n - m
        invariant
            m == needle@.len(),
            n == hay@.len(),
            1 <= m <= n,
            i <= n - m + 1,
            forall|k: int| 0 <= k < i ==> !subseq_at(hay@, needle@, k),
        decreases n - m - i + 1,
    {
        if match_at(hay, needle, i) {
            proof {
                assert(subseq_at(hay@, needle@, i as int));
            }
            return true;
        }
        i = i + 1;
    }
    proof {
        assert(forall|k: int| !subseq_at(hay@, needle@, k));
    }
    false
}

/// The marker a server status line carries when the login's credential was
/// not accepted.
pub open spec fn unverified_marker() -> Seq<u8> {
    seq![
        'u' as u8,
        'n' as u8,
        'v' as u8,
        'e' as u8,
        'r' as u8,
        'i' as u8,
        'f' as u8,
        'i' as u8,
        'e' as u8,
        'd' as u8,
    ]
}

/// The marker it carries when the credential was accepted: the word alone,
/// behind a space, so that it does not also match the rejection marker.
pub open spec fn verified_marker() -> Seq<u8> {
    seq![
        ' ' as u8,
        'v' as u8,
        'e' as u8,
        'r' as u8,
        'i' as u8,
        'f' as u8,
        'i' as u8,
        'e' as u8,
        'd' as u8,
    ]
}

fn unverified_needle() -> (r: Vec<u8>)
    ensures
        r@ == unverified_marker(),
{
    let mut r: Vec<u8> = Vec::new();
    r.push('u' as u8);
    r.push('n' as u8);
    r.push('v' as u8);
    r.push('e' as u8);
    r.push('r' as u8);
    r.push('i' as u8);
    r.push('f' as u8);
    r.push('i' as u8);
    r.push('e' as u8);
    r.push('d' as u8);
    proof {
        assert(r@ =~= unverified_marker());
    }
    r
}

fn verified_needle() -> (r: Vec<u8>)
    ensures
        r@ == verified_marker(),
{
    let mut r: Vec<u8> = Vec::new();
    r.push(' ' as u8);
    r.push('v' as u8);
    r.push('e' as u8);
    r.push('r' as u8);
    r.push('i' as u8);
    r.push('f' as u8);
    r.push('i' as u8);
    r.push('e' as u8);
    r.push('d' as u8);
    proof {
        assert(r@ =~= verified_marker());
    }
    r
}

/// What a server status line says of the login, as far as the client
/// inspects it. Observability only: the line is absorbed either way.
pub enum LoginOutcome {
    /// The line carries the rejection marker.
    Unverified,
    /// The line carries the acceptance marker.
    Verified,
    /// The line says nothing about the login.
    Other,
}

/// The inspection rule, the rejection marker checked first: a line that
/// carries both markers counts as rejected.
pub open spec fn spec_login_outcome(line: Seq<u8>) -> LoginOutcome {
    if contains_seq(line, unverified_marker()) {
        LoginOutcome::Unverified
    } else if contains_seq(line, verified_marker()) {
        LoginOutcome::Verified
    } else {
        LoginOutcome::Other
    }
}

pub fn login_outcome(line: &Vec<u8>) -> (o: LoginOutcome)
    ensures
        o == spec_login_outcome(line@),
{
    let unverified = unverified_needle();
    if contains_subseq(line, &unverified) {
        return LoginOutcome::Unverified;
    }
    let verified = verified_needle();
    if contains_subseq(line, &verified) {
        return LoginOutcome::Verified;
    }
    LoginOutcome::Other
}

/// Relies on `String::from_utf8`: succeeds exactly on well-formed UTF-8,
/// decoding it; on failure, `into_bytes` hands the input back unchanged.
#[verifier::external_body]
fn bytes_to_string(v: Vec<u8>) -> (r: Result<String, Vec<u8>>)
    ensures
        r is Ok <==> valid_utf8(v@),
        r is Ok ==> r.unwrap()@ == vstd::utf8::decode_utf8(v@),
        r is Err ==> r.unwrap_err() == v,
{
    match String::from_utf8(v) {
        Ok(s) => Ok(s),
        Err(e) => Err(e.into_bytes()),
    }
}

/// What the transport handed the reader for one iteration of the stream.
pub enum ReaderEvent {
    /// A complete framed line.
    Line(Vec<u8>),
    /// The remote closed the stream in an orderly way.
    Closed,
    /// The liveness timer fired before a line arrived.
    TimedOut,
    /// The transport failed; carries the I/O layer's message.
    Failed(String),
}

/// What the stream does with one event.
pub enum ReaderAction {
    /// Yield this packet to the caller and go on.
    Yield(RawPacket),
    /// Absorb the line and go on.
    Skip,
    /// Yield this error as the stream's final item and end.
    Fail(ISReadError),
    /// End the stream without a further item.
    End,
}

/// The reader's decision rule, one event at a time: a timeout or a
/// transport failure ends the stream with its typed error, an orderly
/// close ends it quietly; of the lines, noise is absorbed, a status line
/// is absorbed when it decodes as text and ends the stream with the
/// one-shot text error when it does not, and every other line is yielded
/// verbatim.
pub open spec fn spec_reader_step(event: ReaderEvent) -> ReaderAction {
    match event {
        ReaderEvent::TimedOut => ReaderAction::Fail(ISReadError::TcpReadTimeout),
        ReaderEvent::Closed => ReaderAction::End,
        ReaderEvent::Failed(m) => ReaderAction::Fail(ISReadError::IoError(m)),
        ReaderEvent::Line(l) => match spec_classify(l@) {
            LineClass::Noise => ReaderAction::Skip,
            LineClass::Data => ReaderAction::Yield(RawPacket { raw: l }),
            LineClass::Status => if valid_utf8(l@) {
                ReaderAction::Skip
            } else {
                ReaderAction::Fail(ISReadError::ServerCommandInvalidUtf8(l))
            },
        },
    }
}

/// Law: no server status line and no noise line is ever yielded as a
/// packet, while every data line is yielded verbatim, its bytes untouched.
pub proof fn lemma_status_never_yielded(l: Vec<u8>)
    ensures
        !(spec_classify(l@) is Data) ==> !(spec_reader_step(ReaderEvent::Line(l)) is Yield),
        spec_classify(l@) is Data ==> spec_reader_step(ReaderEvent::Line(l))
            == ReaderAction::Yield((RawPacket { raw: l })),
{
}

/// The items a run of the stream yields for a sequence of transport
/// events: the decision rule applied event by event, packets and skipped
/// lines in order, until a failure is yielded as the final item or an
/// orderly close ends the stream quietly.
pub open spec fn spec_stream_items(events: Seq<ReaderEvent>) -> Seq<
    Result<RawPacket, ISReadError>,
>
    decreases events.len(),
{
    if events.len() == 0 {
        Seq::empty()
    } else {
        match spec_reader_step(events[0]) {
            ReaderAction::Yield(p) => seq![Ok(p)] + spec_stream_items(events.drop_first()),
            ReaderAction::Skip => spec_stream_items(events.drop_first()),
            ReaderAction::Fail(e) => seq![Err(e)],
            ReaderAction::End => Seq::empty(),
        }
    }
}

/// Law: a read failure is the stream's final item. After yielding one
/// error the stream yields nothing more, whatever events follow.
pub proof fn lemma_error_is_final(events: Seq<ReaderEvent>, i: int)
    requires
        0 <= i < spec_stream_items(events).len(),
        spec_stream_items(events)[i] is Err,
    ensures
        i == spec_stream_items(events).len() - 1,
    decreases events.len(),
{
    if events.len() > 0 {
        match spec_reader_step(events[0]) {
            ReaderAction::Yield(p) => {
                lemma_error_is_final(events.drop_first(), i - 1);
            },
            ReaderAction::Skip => {
                lemma_error_is_final(events.drop_first(), i);
            },
            ReaderAction::Fail(e) => {},
            ReaderAction::End => {},
        }
    }
}

/// Law: when the liveness timer fires after a run of yielded or absorbed
/// lines, the stream ends with exactly one failure, the timeout, as its
/// final item; everything before it is a packet.
pub proof fn lemma_timeout_ends_stream(events: Seq<ReaderEvent>, k: int)
    requires
        0 <= k < events.len(),
        events[k] == ReaderEvent::TimedOut,
        forall|j: int| 0 <= j < k ==> !(#[trigger] spec_reader_step(events[j]) is Fail)
            && !(spec_reader_step(events[j]) is End),
    ensures
        spec_stream_items(events).len() > 0,
        spec_stream_items(events).last() == Err::<RawPacket, ISReadError>(
            ISReadError::TcpReadTimeout,
        ),
        forall|i: int| 0 <= i < spec_stream_items(events).len() - 1 ==> spec_stream_items(
            events,
        )[i] is Ok,
    decreases k,
{
    if k == 0 {
        assert(spec_stream_items(events) =~= seq![
            Err::<RawPacket, ISReadError>(ISReadError::TcpReadTimeout),
        ]);
    } else {
        let rest = events.drop_first();
        assert(forall|j: int| 0 <= j < k - 1 ==> rest[j] == events[j + 1]);
        lemma_timeout_ends_stream(rest, k - 1);
        match spec_reader_step(events[0]) {
            ReaderAction::Yield(p) => {
                assert(spec_stream_items(events) == seq![
                    Ok::<RawPacket, ISReadError>(p),
                ] + spec_stream_items(rest));
            },
            ReaderAction::Skip => {},
            ReaderAction::Fail(e) => {
                assert(false);
            },
            ReaderAction::End => {
                assert(false);
            },
        }
    }
}

/// This event is a data line whose verbatim bytes make up the packet.
pub open spec fn event_yields(e: ReaderEvent, p: RawPacket) -> bool {
    e matches ReaderEvent::Line(l) && spec_classify(l@) is Data && p == RawPacket { raw: l }
}

/// Law: every packet the stream ever yields is the verbatim bytes of a
/// data line among the events: no status line, no noise and no failure
/// text reaches the caller as a packet.
pub proof fn lemma_only_data_yielded(events: Seq<ReaderEvent>, i: int)
    requires
        0 <= i < spec_stream_items(events).len(),
        spec_stream_items(events)[i] is Ok,
    ensures
        exists|j: int| 0 <= j < events.len() && event_yields(
            #[trigger] events[j],
            spec_stream_items(events)[i].unwrap(),
        ),
    decreases events.len(),
{
    let items = spec_stream_items(events);
    let rest = events.drop_first();
    match spec_reader_step(events[0]) {
        ReaderAction::Yield(p) => {
            assert(items == seq![Ok::<RawPacket, ISReadError>(p)] + spec_stream_items(rest));
            if i == 0 {
                assert(event_yields(events[0], p));
            } else {
                lemma_only_data_yielded(rest, i - 1);
                let j0 = choose|j: int|
                    0 <= j < rest.len() && event_yields(
                        #[trigger] rest[j],
                        spec_stream_items(rest)[i - 1].unwrap(),
                    );
                assert(events[j0 + 1] == rest[j0]);
            }
        },
        ReaderAction::Skip => {
            lemma_only_data_yielded(rest, i);
            let j0 = choose|j: int|
                0 <= j < rest.len() && event_yields(
                    #[trigger] rest[j],
                    spec_stream_items(rest)[i].unwrap(),
                );
            assert(events[j0 + 1] == rest[j0]);
        },
        ReaderAction::Fail(e) => {},
        ReaderAction::End => {},
    }
}

pub fn reader_step(event: ReaderEvent) -> (a: ReaderAction)
    ensures
        a == spec_reader_step(event),
{
    match event {
        ReaderEvent::TimedOut => ReaderAction::Fail(ISReadError::TcpReadTimeout),
        ReaderEvent::Closed => ReaderAction::End,
        ReaderEvent::Failed(m) => ReaderAction::Fail(ISReadError::IoError(m)),
        ReaderEvent::Line(l) => match classify_line(&l) {
            LineClass::Noise => ReaderAction::Skip,
            LineClass::Data => ReaderAction::Yield(RawPacket { raw: l }),
            LineClass::Status => match bytes_to_string(l) {
                Ok(_) => ReaderAction::Skip,
                Err(bytes) => ReaderAction::Fail(ISReadError::ServerCommandInvalidUtf8(bytes)),
            },
        },
    }
}

} // verus!
