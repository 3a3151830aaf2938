//! The records of the monitor: monitors, statuses, commands and
//! self-reported resource usage.

use crate::error::Error;
use crate::ip::{ip_literal, is_ip_literal};
use crate::text::bytes_equal;
use vstd::prelude::*;
use vstd::string::{is_ascii, StrSliceExecFns, StringExecFns};

verus! {

/// `chrono::NaiveDateTime`: a calendar date and time of day without a time
/// zone. Nothing in this crate looks inside a value: it is stored and
/// handed on.
#[verifier::external_type_specification]
#[verifier::external_body]
pub struct ExNaiveDateTime(chrono::NaiveDateTime);

/// The protocol by which a monitor checks its endpoint.
#[derive(Debug, Clone, Copy, PartialEq, Eq, Structural)]
pub enum MonitorType {
    Http,
    Https,
    Ssl,
    Ping,
    Dns,
}

impl MonitorType {
    /// The upper-case name under which the type is displayed and stored.
    pub open spec fn label(self) -> Seq<char> {
        match self {
            MonitorType::Http => "HTTP"@,
            MonitorType::Https => "HTTPS"@,
            MonitorType::Ssl => "SSL"@,
            MonitorType::Ping => "PING"@,
            MonitorType::Dns => "DNS"@,
        }
    }

    /// The bytes of the stored text column: the ASCII codes of the label.
    pub open spec fn sql_text(self) -> Seq<u8> {
        self.label().map_values(|c: char| c as u8)
    }

    /// The type as it is displayed.
    pub fn to_string(&self) -> (text: String)
        ensures
            text@ == self.label(),
    {
        match self {
            MonitorType::Http => String::from_str("HTTP"),
            MonitorType::Https => String::from_str("HTTPS"),
            MonitorType::Ssl => String::from_str("SSL"),
            MonitorType::Ping => String::from_str("PING"),
            MonitorType::Dns => String::from_str("DNS"),
        }
    }

    /// Writes the type as the text column holds it.
    pub fn to_sql(&self) -> (bytes: Vec<u8>)
        ensures
            bytes@ == self.sql_text(),
    {
        broadcast use vstd::string::is_ascii_spec_bytes;

        let label = self.to_string();
        let text = label.as_str();
        proof {
            reveal_strlit("HTTP");
            reveal_strlit("HTTPS");
            reveal_strlit("SSL");
            reveal_strlit("PING");
            reveal_strlit("DNS");
            assert(is_ascii(text));
        }
        let bytes = text.as_bytes_vec();
        assert(bytes@ =~= self.sql_text());
        bytes
    }

    /// Reads the type back from a text column. A null column and a text
    /// that is none of the five names are refused.
    pub fn from_sql(bytes: Option<&[u8]>) -> (decoded: Result<MonitorType, String>)
        ensures
            match decoded {
                Ok(t) => bytes matches Some(b) && b@ == t.sql_text(),
                Err(reason) => match bytes {
                    None => reason@ == "Unexpected null for non-null column"@,
                    Some(b) => reason@ == "Unrecognized monitor type"@ && forall|t: MonitorType|
                        b@ != #[trigger] t.sql_text(),
                },
            },
    {
        match bytes {
            None => Err(String::from_str("Unexpected null for non-null column")),
            Some(b) => {
                if bytes_equal(b, MonitorType::Http.to_sql().as_slice()) {
                    Ok(MonitorType::Http)
                } else if bytes_equal(b, MonitorType::Https.to_sql().as_slice()) {
                    Ok(MonitorType::Https)
                } else if bytes_equal(b, MonitorType::Ssl.to_sql().as_slice()) {
                    Ok(MonitorType::Ssl)
                } else if bytes_equal(b, MonitorType::Ping.to_sql().as_slice()) {
                    Ok(MonitorType::Ping)
                } else if bytes_equal(b, MonitorType::Dns.to_sql().as_slice()) {
                    Ok(MonitorType::Dns)
                } else {
                    Err(String::from_str("Unrecognized monitor type"))
                }
            },
        }
    }
}

/// The outcome of one check, ready to be stored.
#[derive(Debug, Clone)]
pub struct NewStatus {
    pub monitor_id: u64,
    pub succeed: bool,
    pub result: String,
    pub response_time_ms: u32,
}

/// What a [`NewStatus`] holds.
pub struct NewStatusView {
    pub monitor_id: u64,
    pub succeed: bool,
    pub result: Seq<char>,
    pub response_time_ms: u32,
}

impl View for NewStatus {
    type V = NewStatusView;

    open spec fn view(&self) -> NewStatusView {
        NewStatusView {
            monitor_id: self.monitor_id,
            succeed: self.succeed,
            result: self.result@,
            response_time_ms: self.response_time_ms,
        }
    }
}

/// A request to queue a command for a device.
#[derive(Debug, Clone)]
pub struct NewCommand {
    pub serial: String,
}

/// A unit of work addressed to a device. It is pending until
/// `completed_at` is set.
#[derive(Debug)]
pub struct Command {
    pub id: u64,
    pub serial: String,
    pub completed_at: Option<chrono::NaiveDateTime>,
}

/// What a [`Command`] holds.
pub struct CommandView {
    pub id: u64,
    pub serial: Seq<char>,
    pub completed_at: Option<chrono::NaiveDateTime>,
}

impl View for Command {
    type V = CommandView;

    open spec fn view(&self) -> CommandView {
        CommandView { id: self.id, serial: self.serial@, completed_at: self.completed_at }
    }
}

impl CommandView {
    /// Whether the command still waits for its device.
    pub open spec fn pending(self) -> bool {
        self.completed_at is None
    }

    /// The command as it is once it was completed at `moment`.
    pub open spec fn completed(self, moment: chrono::NaiveDateTime) -> CommandView {
        CommandView { id: self.id, serial: self.serial, completed_at: Some(moment) }
    }
}

impl Command {
    /// A copy of the command.
    pub fn duplicate(&self) -> (copy: Command)
        ensures
            copy == *self,
    {
        Command { id: self.id, serial: self.serial.clone(), completed_at: self.completed_at }
    }

    /// Whether the command still waits for its device.
    pub fn is_pending(&self) -> (pending: bool)
        ensures
            pending == self@.pending(),
    {
        self.completed_at.is_none()
    }
}

/// A resource-usage snapshot as an agent reports it.
#[derive(Debug, Clone)]
pub struct NewExternalMonitor {
    pub serial: String,
    pub cpu_usage: u8,
    pub memory_usage: u8,
    pub disk_usage: u8,
    pub status: Option<String>,
}

/// A stored resource-usage snapshot.
#[derive(Debug)]
pub struct ExternalMonitor {
    pub id: u64,
    pub created_at: chrono::NaiveDateTime,
    pub serial: String,
    pub cpu_usage: u8,
    pub memory_usage: u8,
    pub disk_usage: u8,
    pub status: Option<String>,
}

/// A monitor as a client asks for it.
#[derive(Debug, Clone)]
pub struct NewMonitor {
    pub type_: MonitorType,
    pub frequency_min: u16,
    pub endpoint: String,
    pub max_latency_ms: Option<u32>,
    pub expected_ip: Option<String>,
    pub minimum_expiration_time_d: Option<u32>,
}

impl NewMonitor {
    /// Whether the monitor holds what its type needs: a ping its largest
    /// latency and an IP literal as endpoint, a certificate check its
    /// smallest number of days, a lookup the address it expects.
    pub open spec fn acceptable(&self) -> bool {
        match self.type_ {
            MonitorType::Ping => self.max_latency_ms is Some && is_ip_literal(self.endpoint@),
            MonitorType::Ssl => self.minimum_expiration_time_d is Some,
            MonitorType::Dns => self.expected_ip is Some,
            _ => true,
        }
    }

    /// Why the monitor is refused, where it is not acceptable.
    pub open spec fn objection(&self) -> Seq<char> {
        match self.type_ {
            MonitorType::Ping => if self.max_latency_ms is None {
                "missing 'max_latency_ms'"@
            } else {
                "'endpoint' must be a valid IP"@
            },
            MonitorType::Ssl => "missing 'minimum_expiration_time_d'"@,
            _ => "missing 'expected_id'"@,
        }
    }

    /// Accepts the monitor, or refuses it as `InvalidMonitoring` with the
    /// reason.
    pub fn validate(&self) -> (checked: Result<(), Error>)
        ensures
            checked is Ok <==> self.acceptable(),
            checked matches Err(e) ==> e matches Error::InvalidMonitoring(reason) && reason@
                == self.objection(),
    {
        match self.type_ {
            MonitorType::Ping => {
                if self.max_latency_ms.is_none() {
                    Err(Error::InvalidMonitoring(String::from_str("missing 'max_latency_ms'")))
                } else if !ip_literal(self.endpoint.as_str()) {
                    Err(Error::InvalidMonitoring(String::from_str("'endpoint' must be a valid IP")))
                } else {
                    Ok(())
                }
            },
            MonitorType::Ssl => {
                if self.minimum_expiration_time_d.is_none() {
                    Err(
                        Error::InvalidMonitoring(
                            String::from_str("missing 'minimum_expiration_time_d'"),
                        ),
                    )
                } else {
                    Ok(())
                }
            },
            MonitorType::Dns => {
                if self.expected_ip.is_none() {
                    Err(Error::InvalidMonitoring(String::from_str("missing 'expected_id'")))
                } else {
                    Ok(())
                }
            },
            _ => Ok(()),
        }
    }

    /// What the monitor holds once it is stored under `id`.
    pub open spec fn stored(&self, id: u64) -> MonitorView {
        MonitorView {
            id,
            type_: self.type_,
            frequency_min: self.frequency_min,
            endpoint: self.endpoint@,
            max_latency_ms: self.max_latency_ms,
            expected_ip: optional_text(self.expected_ip),
            minimum_expiration_time_d: self.minimum_expiration_time_d,
        }
    }
}

/// A stored monitor.
#[derive(Debug, Clone)]
pub struct Monitor {
    pub id: u64,
    pub type_: MonitorType,
    pub frequency_min: u16,
    pub endpoint: String,
    pub max_latency_ms: Option<u32>,
    pub expected_ip: Option<String>,
    pub minimum_expiration_time_d: Option<u32>,
}

/// What a [`Monitor`] holds.
pub struct MonitorView {
    pub id: u64,
    pub type_: MonitorType,
    pub frequency_min: u16,
    pub endpoint: Seq<char>,
    pub max_latency_ms: Option<u32>,
    pub expected_ip: Option<Seq<char>>,
    pub minimum_expiration_time_d: Option<u32>,
}

/// The text that an optional string holds.
pub open spec fn optional_text(s: Option<String>) -> Option<Seq<char>> {
    match s {
        Some(s) => Some(s@),
        None => None,
    }
}

impl View for Monitor {
    type V = MonitorView;

    open spec fn view(&self) -> MonitorView {
        MonitorView {
            id: self.id,
            type_: self.type_,
            frequency_min: self.frequency_min,
            endpoint: self.endpoint@,
            max_latency_ms: self.max_latency_ms,
            expected_ip: optional_text(self.expected_ip),
            minimum_expiration_time_d: self.minimum_expiration_time_d,
        }
    }
}

impl MonitorView {
    /// Whether the threshold that the monitor's type is checked against is
    /// present.
    pub open spec fn checkable(self) -> bool {
        match self.type_ {
            MonitorType::Ping => self.max_latency_ms is Some,
            MonitorType::Ssl => self.minimum_expiration_time_d is Some,
            MonitorType::Dns => self.expected_ip is Some,
            _ => true,
        }
    }
}

/// A copy of an optional string.
pub fn copy_optional(s: &Option<String>) -> (copy: Option<String>)
    ensures
        copy == *s,
{
    match s {
        Some(s) => Some(s.clone()),
        None => None,
    }
}

impl Monitor {
    /// The monitor that stores `new` under `id`.
    pub fn from_new(id: u64, new: NewMonitor) -> (monitor: Monitor)
        ensures
            monitor@ == new.stored(id),
    {
        Monitor {
            id,
            type_: new.type_,
            frequency_min: new.frequency_min,
            endpoint: new.endpoint,
            max_latency_ms: new.max_latency_ms,
            expected_ip: new.expected_ip,
            minimum_expiration_time_d: new.minimum_expiration_time_d,
        }
    }

    /// A copy of the monitor.
    pub fn duplicate(&self) -> (copy: Monitor)
        ensures
            copy == *self,
    {
        Monitor {
            id: self.id,
            type_: self.type_,
            frequency_min: self.frequency_min,
            endpoint: self.endpoint.clone(),
            max_latency_ms: self.max_latency_ms,
            expected_ip: copy_optional(&self.expected_ip),
            minimum_expiration_time_d: self.minimum_expiration_time_d,
        }
    }

    /// Whether the threshold that the monitor's type is checked against is
    /// present.
    pub fn checkable(&self) -> (yes: bool)
        ensures
            yes == self@.checkable(),
    {
        match self.type_ {
            MonitorType::Ping => self.max_latency_ms.is_some(),
            MonitorType::Ssl => self.minimum_expiration_time_d.is_some(),
            MonitorType::Dns => self.expected_ip.is_some(),
            _ => true,
        }
    }
}

} // verus!
