//! The check dispatcher: what the reply to a probe says about a monitor.
//!
//! The probe itself (an HTTP request, a TLS handshake, an ICMP echo, a name
//! lookup) is carried out by the caller, who reports what came back as a
//! [`ProbeReply`]. Every reply, a failed probe included, yields an
//! [`Outcome`]; nothing here fails.

use crate::text::{contains, decimal, decimal_string, join, joined, signed_decimal,
    signed_decimal_string, texts};
use crate::types::{Monitor, MonitorType, MonitorView, NewStatus, NewStatusView};
use vstd::prelude::*;
use vstd::string::StringExecFns;

verus! {

/// The status line of an HTTP response.
#[derive(Debug, Clone)]
pub struct HttpStatus {
    /// The numeric status.
    pub code: u16,
    /// The status as text: the number and its reason phrase.
    pub text: String,
}

/// What `reqwest::StatusCode` displays for the status `code`: the number,
/// a space, and the reason phrase that the type knows for the number.
pub uninterp spec fn status_line(code: u16) -> Seq<char>;

/// `reqwest::StatusCode::from_u16` followed by `to_string`. The first
/// refuses a number below 100 or above 999, so such numbers are left out;
/// for every other number the text depends on the number alone, and is
/// what [`status_line`] names. Nothing is proved of the text.
#[verifier::external_body]
fn status_text(code: u16) -> (text: String)
    requires
        100 <= code < 1000,
    ensures
        text@ == status_line(code),
{
    match reqwest::StatusCode::from_u16(code) {
        Ok(status) => status.to_string(),
        Err(e) => e.to_string(),
    }
}

impl HttpStatus {
    /// The status line for `code`, where `code` has three digits.
    pub fn from_code(code: u16) -> (status: Option<HttpStatus>)
        ensures
            status is Some <==> 100 <= code < 1000,
            status matches Some(s) ==> s.code == code && s.text@ == status_line(code),
    {
        if 100 <= code && code < 1000 {
            Some(HttpStatus { code, text: status_text(code) })
        } else {
            None
        }
    }
}

/// The number of payload bytes in an echo request.
pub const ECHO_PAYLOAD_BYTES: usize = 56;

/// The probe that a monitor asks for.
#[derive(Debug)]
pub enum Probe {
    /// A GET of `url`.
    Get { url: String },
    /// A look at the certificate that `domain` presents.
    Certificate { domain: String },
    /// One echo request of `payload` bytes to `address`.
    Echo { address: String, payload: usize },
    /// A lookup of `host` with the system resolver.
    Lookup { host: String },
}

/// What a [`Probe`] holds.
pub enum ProbeView {
    Get { url: Seq<char> },
    Certificate { domain: Seq<char> },
    Echo { address: Seq<char>, payload: usize },
    Lookup { host: Seq<char> },
}

impl View for Probe {
    type V = ProbeView;

    open spec fn view(&self) -> ProbeView {
        match self {
            Probe::Get { url } => ProbeView::Get { url: url@ },
            Probe::Certificate { domain } => ProbeView::Certificate { domain: domain@ },
            Probe::Echo { address, payload } => ProbeView::Echo {
                address: address@,
                payload: *payload,
            },
            Probe::Lookup { host } => ProbeView::Lookup { host: host@ },
        }
    }
}

/// The probe of a monitor: its type says which, its endpoint says where.
pub open spec fn probe_of(monitor: MonitorView) -> ProbeView {
    match monitor.type_ {
        MonitorType::Http | MonitorType::Https => ProbeView::Get { url: monitor.endpoint },
        MonitorType::Ssl => ProbeView::Certificate { domain: monitor.endpoint },
        MonitorType::Ping => ProbeView::Echo {
            address: monitor.endpoint,
            payload: ECHO_PAYLOAD_BYTES,
        },
        MonitorType::Dns => ProbeView::Lookup { host: monitor.endpoint },
    }
}

/// The probe to carry out for `monitor`.
pub fn probe_for(monitor: &Monitor) -> (probe: Probe)
    ensures
        probe@ == probe_of(monitor@),
{
    match monitor.type_ {
        MonitorType::Http | MonitorType::Https => Probe::Get { url: monitor.endpoint.clone() },
        MonitorType::Ssl => Probe::Certificate { domain: monitor.endpoint.clone() },
        MonitorType::Ping => Probe::Echo {
            address: monitor.endpoint.clone(),
            payload: ECHO_PAYLOAD_BYTES,
        },
        MonitorType::Dns => Probe::Lookup { host: monitor.endpoint.clone() },
    }
}

/// What came back for one ICMP echo.
#[derive(Debug, Clone, Copy, PartialEq, Eq, Structural)]
pub enum PingReply {
    /// Nothing came back in time.
    Idle,
    /// An echo came back after `rtt_nanos` nanoseconds.
    Receive { rtt_nanos: u128 },
}

/// What a probe reported. `Err` carries the description of the failure.
#[derive(Debug)]
pub enum ProbeReply {
    /// The answer to a GET.
    Http(Result<HttpStatus, String>),
    /// The number of days until the certificate expires.
    Ssl(Result<i32, String>),
    /// The answer to one echo request.
    Ping(Result<PingReply, String>),
    /// The addresses that the name resolves to, as text.
    Dns(Result<Vec<String>, String>),
}

/// What a [`ProbeReply`] holds.
pub enum ProbeReplyView {
    Http(Result<(u16, Seq<char>), Seq<char>>),
    Ssl(Result<i32, Seq<char>>),
    Ping(Result<PingReply, Seq<char>>),
    Dns(Result<Seq<Seq<char>>, Seq<char>>),
}

/// What the reply to a GET holds.
pub open spec fn http_reply(reply: Result<HttpStatus, String>) -> Result<
    (u16, Seq<char>),
    Seq<char>,
> {
    match reply {
        Ok(status) => Ok((status.code, status.text@)),
        Err(e) => Err(e@),
    }
}

/// What a reply with a plain value holds.
pub open spec fn plain_reply<T>(reply: Result<T, String>) -> Result<T, Seq<char>> {
    match reply {
        Ok(value) => Ok(value),
        Err(e) => Err(e@),
    }
}

/// What the reply to a lookup holds.
pub open spec fn dns_reply(reply: Result<Vec<String>, String>) -> Result<
    Seq<Seq<char>>,
    Seq<char>,
> {
    match reply {
        Ok(ips) => Ok(texts(ips@)),
        Err(e) => Err(e@),
    }
}

impl View for ProbeReply {
    type V = ProbeReplyView;

    open spec fn view(&self) -> ProbeReplyView {
        match self {
            ProbeReply::Http(r) => ProbeReplyView::Http(http_reply(*r)),
            ProbeReply::Ssl(r) => ProbeReplyView::Ssl(plain_reply(*r)),
            ProbeReply::Ping(r) => ProbeReplyView::Ping(plain_reply(*r)),
            ProbeReply::Dns(r) => ProbeReplyView::Dns(dns_reply(*r)),
        }
    }
}

impl ProbeReplyView {
    /// Whether the reply is the one that a monitor of type `t` asks for.
    pub open spec fn answers(self, t: MonitorType) -> bool {
        match self {
            ProbeReplyView::Http(_) => t == MonitorType::Http || t == MonitorType::Https,
            ProbeReplyView::Ssl(_) => t == MonitorType::Ssl,
            ProbeReplyView::Ping(_) => t == MonitorType::Ping,
            ProbeReplyView::Dns(_) => t == MonitorType::Dns,
        }
    }
}

impl ProbeReply {
    /// Whether the reply is the one that a monitor of type `t` asks for.
    pub fn answers(&self, t: MonitorType) -> (yes: bool)
        ensures
            yes == self@.answers(t),
    {
        match self {
            ProbeReply::Http(_) => t == MonitorType::Http || t == MonitorType::Https,
            ProbeReply::Ssl(_) => t == MonitorType::Ssl,
            ProbeReply::Ping(_) => t == MonitorType::Ping,
            ProbeReply::Dns(_) => t == MonitorType::Dns,
        }
    }
}

/// The normalised result of one check.
#[derive(Debug, Clone)]
pub struct Outcome {
    /// Whether the check passed.
    pub succeed: bool,
    /// What was observed, or why the probe failed.
    pub result: String,
}

/// What an [`Outcome`] holds.
pub struct OutcomeView {
    pub succeed: bool,
    pub result: Seq<char>,
}

impl View for Outcome {
    type V = OutcomeView;

    open spec fn view(&self) -> OutcomeView {
        OutcomeView { succeed: self.succeed, result: self.result@ }
    }
}

/// The number of nanoseconds in a millisecond.
pub const NANOS_PER_MILLI: u128 = 1_000_000;

/// An HTTP check passes on a status of the success class, and observes the
/// status line.
pub open spec fn http_verdict(reply: Result<(u16, Seq<char>), Seq<char>>) -> OutcomeView {
    match reply {
        Ok((code, text)) => OutcomeView { succeed: 200 <= code < 300, result: text },
        Err(e) => OutcomeView { succeed: false, result: "Could not reach endpoint: "@ + e },
    }
}

/// A certificate check passes when the certificate lasts at least
/// `minimum_days` more days, and observes the number of days left.
pub open spec fn ssl_verdict(minimum_days: u32, reply: Result<i32, Seq<char>>) -> OutcomeView {
    match reply {
        Ok(days) => OutcomeView {
            succeed: days >= minimum_days,
            result: signed_decimal(days as int),
        },
        Err(e) => OutcomeView {
            succeed: false,
            result: "Could not check SSL certificate expiration: "@ + e,
        },
    }
}

/// A ping passes when the echo took less than `max_latency_ms`, and
/// observes the round trip in whole milliseconds. Silence is a failure.
pub open spec fn ping_verdict(max_latency_ms: u32, reply: Result<PingReply, Seq<char>>)
    -> OutcomeView {
    match reply {
        Ok(PingReply::Receive { rtt_nanos }) => OutcomeView {
            succeed: rtt_nanos < max_latency_ms * NANOS_PER_MILLI,
            result: decimal((rtt_nanos / NANOS_PER_MILLI) as nat),
        },
        Ok(PingReply::Idle) => OutcomeView { succeed: false, result: "Idle address"@ },
        Err(e) => OutcomeView { succeed: false, result: "Could not ping endpoint: "@ + e },
    }
}

/// A lookup passes when `expected_ip` is among the resolved addresses, and
/// observes the addresses, separated by a comma and a space.
pub open spec fn dns_verdict(expected_ip: Seq<char>, reply: Result<Seq<Seq<char>>, Seq<char>>)
    -> OutcomeView {
    match reply {
        Ok(ips) => OutcomeView { succeed: ips.contains(expected_ip), result: joined(ips, ", "@) },
        Err(e) => OutcomeView { succeed: false, result: "Could not lookup on endpoint: "@ + e },
    }
}

/// What `reply` says about `monitor`.
pub open spec fn verdict(monitor: MonitorView, reply: ProbeReplyView) -> OutcomeView {
    match reply {
        ProbeReplyView::Http(r) => http_verdict(r),
        ProbeReplyView::Ssl(r) => ssl_verdict(monitor.minimum_expiration_time_d->0, r),
        ProbeReplyView::Ping(r) => ping_verdict(monitor.max_latency_ms->0, r),
        ProbeReplyView::Dns(r) => dns_verdict(monitor.expected_ip->0, r),
    }
}

fn failure(prefix: &str, reason: &String) -> (outcome: Outcome)
    ensures
        outcome@ == (OutcomeView { succeed: false, result: prefix@ + reason@ }),
{
    Outcome { succeed: false, result: String::from_str(prefix).concat(reason.as_str()) }
}

/// Judges the answer to a GET.
pub fn check_http(reply: &Result<HttpStatus, String>) -> (outcome: Outcome)
    ensures
        outcome@ == http_verdict(http_reply(*reply)),
{
    match reply {
        Ok(status) => Outcome {
            succeed: 200 <= status.code && status.code < 300,
            result: status.text.clone(),
        },
        Err(e) => failure("Could not reach endpoint: ", e),
    }
}

/// Judges the days that a certificate has left.
pub fn check_ssl(minimum_days: u32, reply: &Result<i32, String>) -> (outcome: Outcome)
    ensures
        outcome@ == ssl_verdict(minimum_days, plain_reply(*reply)),
{
    match reply {
        Ok(days) => Outcome {
            succeed: (*days as i64) >= (minimum_days as i64),
            result: signed_decimal_string(*days),
        },
        Err(e) => failure("Could not check SSL certificate expiration: ", e),
    }
}

/// Judges the answer to one echo request.
pub fn check_ping(max_latency_ms: u32, reply: &Result<PingReply, String>) -> (outcome: Outcome)
    ensures
        outcome@ == ping_verdict(max_latency_ms, plain_reply(*reply)),
{
    match reply {
        Ok(PingReply::Receive { rtt_nanos }) => Outcome {
            succeed: *rtt_nanos < (max_latency_ms as u128) * NANOS_PER_MILLI,
            result: decimal_string(*rtt_nanos / NANOS_PER_MILLI),
        },
        Ok(PingReply::Idle) => Outcome { succeed: false, result: String::from_str("Idle address") },
        Err(e) => failure("Could not ping endpoint: ", e),
    }
}

/// Judges the addresses that a name resolved to.
pub fn check_dns(expected_ip: &String, reply: &Result<Vec<String>, String>) -> (outcome: Outcome)
    ensures
        outcome@ == dns_verdict(expected_ip@, dns_reply(*reply)),
{
    match reply {
        Ok(ips) => Outcome { succeed: contains(ips, expected_ip), result: join(ips, ", ") },
        Err(e) => failure("Could not lookup on endpoint: ", e),
    }
}

/// Judges the reply to the probe of `monitor`.
///
/// The reply must be the one that the monitor's type asks for, and the
/// threshold of that type must be present, as it is for every monitor that
/// passed validation.
pub fn evaluate(monitor: &Monitor, reply: &ProbeReply) -> (outcome: Outcome)
    requires
        monitor@.checkable(),
        reply@.answers(monitor@.type_),
    ensures
        outcome@ == verdict(monitor@, reply@),
{
    match reply {
        ProbeReply::Http(r) => check_http(r),
        ProbeReply::Ssl(r) => check_ssl(monitor.minimum_expiration_time_d.unwrap(), r),
        ProbeReply::Ping(r) => check_ping(monitor.max_latency_ms.unwrap(), r),
        ProbeReply::Dns(r) => check_dns(monitor.expected_ip.as_ref().unwrap(), r),
    }
}

/// The part of `elapsed_ms` that a status keeps: its low 32 bits.
pub open spec fn response_time(elapsed_ms: u128) -> u32 {
    (elapsed_ms % 0x1_0000_0000) as u32
}

/// The status that records `outcome` for the monitor `monitor_id`, the
/// check having taken `elapsed_ms` milliseconds.
pub fn record(monitor_id: u64, outcome: Outcome, elapsed_ms: u128) -> (status: NewStatus)
    ensures
        status@ == (NewStatusView {
            monitor_id,
            succeed: outcome.succeed,
            result: outcome.result@,
            response_time_ms: response_time(elapsed_ms),
        }),
{
    let kept: u32 = (elapsed_ms % 0x1_0000_0000) as u32;
    NewStatus {
        monitor_id,
        succeed: outcome.succeed,
        result: outcome.result,
        response_time_ms: kept,
    }
}

} // verus!
