//! Client-side core of a text-line telemetry relay ("APRS-IS") connection:
//! line framing, login-line formation, stream classification, and the
//! decision logic of the reader, writer and heartbeat paths.

pub mod aprs;
pub mod codec;
pub mod error;
pub mod reader;
pub mod writer;

use vstd::prelude::*;
use vstd::string::StrSliceExecFns;
use vstd::string::StringExecFns;

verus! {

/// Seconds of read-path silence after which the stream is declared dead.
pub const READ_TIMEOUT_SECS: u64 = 60;

/// Seconds between two keep-alive lines of the heartbeat.
pub const KEEP_ALIVE_INTERVAL_SECS: u64 = 3600;

/// One undecoded protocol line, as the reader yielded it. Parsing into
/// structured form is deferred: a malformed line never aborts the stream,
/// it surfaces only when the caller asks for the parsed form.
pub struct RawPacket {
    pub raw: Vec<u8>,
}

impl RawPacket {
    /// Parses the raw line through the external decoder, on demand.
    /// Whether it parses is a function of the line's bytes alone.
    pub fn parsed(&self) -> (r: Result<aprs_parser::AprsPacket, aprs_parser::DecodeError>)
        ensures
            r is Ok <==> aprs::aprs_decodes(self.raw@),
    {
        aprs::decode_packet(&self.raw)
    }
}

/// Where and as whom to connect: host and port of the relay, the client's
/// callsign and passcode, and the server-side filter expression (empty for
/// none). Read-only once built.
pub struct ISSettings {
    pub host: String,
    pub port: u16,
    pub callsign: String,
    pub passcode: String,
    pub filter: String,
}

impl ISSettings {
    pub fn new(host: String, port: u16, callsign: String, passcode: String, filter: String) -> (s:
        ISSettings)
        ensures
            s.host == host,
            s.port == port,
            s.callsign == callsign,
            s.passcode == passcode,
            s.filter == filter,
    {
        ISSettings { host, port, callsign, passcode, filter }
    }

    /// Builds the handshake's login line from these settings and the
    /// client's name and version, per `spec_login_line`; it is the very
    /// first line the connection writes.
    pub fn login_line(&self, name: &str, version: &str) -> (r: String)
        ensures
            r@ == spec_login_line(self.callsign@, self.passcode@, name@, version@, self.filter@),
    {
        let mut r = String::new();
        r.append("user ");
        r.append(self.callsign.as_str());
        r.append(" pass ");
        r.append(self.passcode.as_str());
        r.append(" vers ");
        r.append(name);
        r.append(" ");
        r.append(version);
        if self.filter.as_str().unicode_len() != 0 {
            r.append(" filter ");
            r.append(self.filter.as_str());
        }
        proof {
            assert(r@ =~= spec_login_line(
                self.callsign@,
                self.passcode@,
                name@,
                version@,
                self.filter@,
            ));
        }
        r
    }

    /// The dial string `host:port` the connection opens, as bytes.
    pub fn address_bytes(&self) -> (r: Vec<u8>)
        ensures
            r@ == spec_address(self.host@, self.port),
    {
        let mut r = self.host.as_str().as_bytes_vec();
        r.push(':' as u8);
        push_dec(self.port, &mut r);
        proof {
            assert(r@ =~= spec_address(self.host@, self.port));
        }
        r
    }
}

/// The login line of the handshake: `user <callsign> pass <passcode> vers
/// <name> <version>`, and ` filter <filter>` only when a filter is
/// configured — with no filter the line ends after the version, without a
/// trailing space.
pub open spec fn spec_login_line(
    callsign: Seq<char>,
    passcode: Seq<char>,
    name: Seq<char>,
    version: Seq<char>,
    filter: Seq<char>,
) -> Seq<char> {
    "user "@ + callsign + " pass "@ + passcode + " vers "@ + name + " "@ + version + (if filter.len()
        == 0 {
        Seq::<char>::empty()
    } else {
        " filter "@ + filter
    })
}

/// A decimal digit as its ASCII byte.
pub open spec fn ascii_digit(d: nat) -> u8 {
    (('0' as u8) + d) as u8
}

/// The decimal digits of `n`, most significant first, no leading zeros.
pub open spec fn dec_digits(n: nat) -> Seq<u8>
    decreases n,
{
    if n < 10 {
        seq![ascii_digit(n)]
    } else {
        dec_digits(n / 10) + seq![ascii_digit(n % 10)]
    }
}

/// The dial string `host:port`: the host's text, a colon, the port in
/// decimal.
pub open spec fn spec_address(host: Seq<char>, port: u16) -> Seq<u8> {
    vstd::utf8::encode_utf8(host) + seq![':' as u8] + dec_digits(port as nat)
}

/// Appends the decimal digits of `n` to `out`.
fn push_dec(n: u16, out: &mut Vec<u8>)
    ensures
        final(out)@ == old(out)@ + dec_digits(n as nat),
    decreases n,
{
    if n < 10 {
        out.push('0' as u8 + (n as u8));
        proof {
            assert(out@ =~= old(out)@ + dec_digits(n as nat));
        }
    } else {
        push_dec(n / 10, out);
        out.push('0' as u8 + ((n % 10) as u8));
        proof {
            assert(out@ =~= old(out)@ + dec_digits(n as nat));
        }
    }
}

/// The keep-alive status line the heartbeat writes on its interval.
pub fn keep_alive_line() -> (r: String)
    ensures
        r@ == "# keep alive"@,
{
    String::from_str("# keep alive")
}

/// What the heartbeat does after one keep-alive write.
pub enum HeartbeatAction {
    /// The write went through: park until the next interval tick, then
    /// write the next keep-alive.
    ScheduleNext,
    /// The write failed: the shared writer is no longer usable, stop for
    /// good.
    Stop,
}

/// The heartbeat's decision rule: it stops the moment a keep-alive write
/// fails, and not before.
pub fn heartbeat_step(write_ok: bool) -> (a: HeartbeatAction)
    ensures
        write_ok <==> a is ScheduleNext,
{
    if write_ok {
        HeartbeatAction::ScheduleNext
    } else {
        HeartbeatAction::Stop
    }
}

} // verus!
