//! RFC 5424 syslog records: the typed record, its error kinds, and the
//! grammars that read one from a frame.

pub mod event;
pub mod frame;
pub mod grammar;
pub mod rehydrate;
pub mod sdata;

pub use crate::codec::syslog::frame::SyslogCodec;

use crate::codec::syslog::sdata::all_wf;
use crate::codec::syslog::sdata::optional_elements_view;
use crate::codec::syslog::sdata::ElementModel;
use crate::codec::syslog::sdata::StructuredElement;
use crate::time::Timestamp;
use vstd::prelude::*;

verus! {

/// The part of the system that a record comes from, by its code.
#[derive(Clone, Copy, Debug, PartialEq, Eq, Structural)]
pub enum Facility {
    Kernel,
    User,
    Mail,
    System,
    Security,
    Syslogd,
    LinePrinter,
    NetworkNews,
    Uucp,
    Clock,
    Security2,
    Ftp,
    Ntp,
    LogAudit,
    LogAlert,
    Clock2,
    Local0,
    Local1,
    Local2,
    Local3,
    Local4,
    Local5,
    Local6,
    Local7,
}

/// How urgent a record is, by its code.
#[derive(Clone, Copy, Debug, PartialEq, Eq, Structural)]
pub enum Severity {
    Emergency,
    Alert,
    Critical,
    Error,
    Warning,
    Notice,
    Informational,
    Debug,
}

impl Facility {
    /// The facility's code, from 0 to 23.
    pub open spec fn code_spec(self) -> int {
        match self {
            Facility::Kernel => 0,
            Facility::User => 1,
            Facility::Mail => 2,
            Facility::System => 3,
            Facility::Security => 4,
            Facility::Syslogd => 5,
            Facility::LinePrinter => 6,
            Facility::NetworkNews => 7,
            Facility::Uucp => 8,
            Facility::Clock => 9,
            Facility::Security2 => 10,
            Facility::Ftp => 11,
            Facility::Ntp => 12,
            Facility::LogAudit => 13,
            Facility::LogAlert => 14,
            Facility::Clock2 => 15,
            Facility::Local0 => 16,
            Facility::Local1 => 17,
            Facility::Local2 => 18,
            Facility::Local3 => 19,
            Facility::Local4 => 20,
            Facility::Local5 => 21,
            Facility::Local6 => 22,
            Facility::Local7 => 23,
        }
    }

    /// The facility with a given code; codes above 23 have none.
    pub open spec fn of_code(code: int) -> Option<Facility> {
        if code == 0 {
            Some(Facility::Kernel)
        } else if code == 1 {
            Some(Facility::User)
        } else if code == 2 {
            Some(Facility::Mail)
        } else if code == 3 {
            Some(Facility::System)
        } else if code == 4 {
            Some(Facility::Security)
        } else if code == 5 {
            Some(Facility::Syslogd)
        } else if code == 6 {
            Some(Facility::LinePrinter)
        } else if code == 7 {
            Some(Facility::NetworkNews)
        } else if code == 8 {
            Some(Facility::Uucp)
        } else if code == 9 {
            Some(Facility::Clock)
        } else if code == 10 {
            Some(Facility::Security2)
        } else if code == 11 {
            Some(Facility::Ftp)
        } else if code == 12 {
            Some(Facility::Ntp)
        } else if code == 13 {
            Some(Facility::LogAudit)
        } else if code == 14 {
            Some(Facility::LogAlert)
        } else if code == 15 {
            Some(Facility::Clock2)
        } else if code == 16 {
            Some(Facility::Local0)
        } else if code == 17 {
            Some(Facility::Local1)
        } else if code == 18 {
            Some(Facility::Local2)
        } else if code == 19 {
            Some(Facility::Local3)
        } else if code == 20 {
            Some(Facility::Local4)
        } else if code == 21 {
            Some(Facility::Local5)
        } else if code == 22 {
            Some(Facility::Local6)
        } else if code == 23 {
            Some(Facility::Local7)
        } else {
            None
        }
    }

    /// The facility's published name.
    pub open spec fn name_spec(self) -> Seq<char> {
        match self {
            Facility::Kernel => "kernel"@,
            Facility::User => "user-level"@,
            Facility::Mail => "mail"@,
            Facility::System => "system"@,
            Facility::Security | Facility::Security2 => "security/authorization"@,
            Facility::Syslogd => "syslogd"@,
            Facility::LinePrinter => "line printer"@,
            Facility::NetworkNews => "network news"@,
            Facility::Uucp => "UUCP"@,
            Facility::Clock | Facility::Clock2 => "clock"@,
            Facility::Ftp => "FTP"@,
            Facility::Ntp => "NTP"@,
            Facility::LogAudit => "log audit"@,
            Facility::LogAlert => "log alert"@,
            Facility::Local0 => "local0"@,
            Facility::Local1 => "local1"@,
            Facility::Local2 => "local2"@,
            Facility::Local3 => "local3"@,
            Facility::Local4 => "local4"@,
            Facility::Local5 => "local5"@,
            Facility::Local6 => "local6"@,
            Facility::Local7 => "local7"@,
        }
    }

    /// The facility's code.
    pub fn code(&self) -> (code: u8)
        ensures
            code == self.code_spec(),
            code <= 23,
            Facility::of_code(code as int) == Some(*self),
    {
        match self {
            Facility::Kernel => 0,
            Facility::User => 1,
            Facility::Mail => 2,
            Facility::System => 3,
            Facility::Security => 4,
            Facility::Syslogd => 5,
            Facility::LinePrinter => 6,
            Facility::NetworkNews => 7,
            Facility::Uucp => 8,
            Facility::Clock => 9,
            Facility::Security2 => 10,
            Facility::Ftp => 11,
            Facility::Ntp => 12,
            Facility::LogAudit => 13,
            Facility::LogAlert => 14,
            Facility::Clock2 => 15,
            Facility::Local0 => 16,
            Facility::Local1 => 17,
            Facility::Local2 => 18,
            Facility::Local3 => 19,
            Facility::Local4 => 20,
            Facility::Local5 => 21,
            Facility::Local6 => 22,
            Facility::Local7 => 23,
        }
    }

    /// The facility with a given code, where the code is at most 23.
    pub fn from_code(code: u8) -> (facility: Option<Facility>)
        ensures
            facility == Facility::of_code(code as int),
            facility is Some <==> code <= 23,
            facility matches Some(f) ==> f.code_spec() == code,
    {
        match code {
            0 => Some(Facility::Kernel),
            1 => Some(Facility::User),
            2 => Some(Facility::Mail),
            3 => Some(Facility::System),
            4 => Some(Facility::Security),
            5 => Some(Facility::Syslogd),
            6 => Some(Facility::LinePrinter),
            7 => Some(Facility::NetworkNews),
            8 => Some(Facility::Uucp),
            9 => Some(Facility::Clock),
            10 => Some(Facility::Security2),
            11 => Some(Facility::Ftp),
            12 => Some(Facility::Ntp),
            13 => Some(Facility::LogAudit),
            14 => Some(Facility::LogAlert),
            15 => Some(Facility::Clock2),
            16 => Some(Facility::Local0),
            17 => Some(Facility::Local1),
            18 => Some(Facility::Local2),
            19 => Some(Facility::Local3),
            20 => Some(Facility::Local4),
            21 => Some(Facility::Local5),
            22 => Some(Facility::Local6),
            23 => Some(Facility::Local7),
            _ => None,
        }
    }

    /// The facility's published name. Codes 4 and 10 share one name, and so
    /// do codes 9 and 15.
    pub fn name(&self) -> (name: &'static str)
        ensures
            name@ == self.name_spec(),
    {
        match self {
            Facility::Kernel => "kernel",
            Facility::User => "user-level",
            Facility::Mail => "mail",
            Facility::System => "system",
            Facility::Security => "security/authorization",
            Facility::Security2 => "security/authorization",
            Facility::Syslogd => "syslogd",
            Facility::LinePrinter => "line printer",
            Facility::NetworkNews => "network news",
            Facility::Uucp => "UUCP",
            Facility::Clock => "clock",
            Facility::Clock2 => "clock",
            Facility::Ftp => "FTP",
            Facility::Ntp => "NTP",
            Facility::LogAudit => "log audit",
            Facility::LogAlert => "log alert",
            Facility::Local0 => "local0",
            Facility::Local1 => "local1",
            Facility::Local2 => "local2",
            Facility::Local3 => "local3",
            Facility::Local4 => "local4",
            Facility::Local5 => "local5",
            Facility::Local6 => "local6",
            Facility::Local7 => "local7",
        }
    }
}

impl Severity {
    /// The severity's code, from 0 to 7.
    pub open spec fn code_spec(self) -> int {
        match self {
            Severity::Emergency => 0,
            Severity::Alert => 1,
            Severity::Critical => 2,
            Severity::Error => 3,
            Severity::Warning => 4,
            Severity::Notice => 5,
            Severity::Informational => 6,
            Severity::Debug => 7,
        }
    }

    /// The severity with a given code; codes above 7 have none.
    pub open spec fn of_code(code: int) -> Option<Severity> {
        if code == 0 {
            Some(Severity::Emergency)
        } else if code == 1 {
            Some(Severity::Alert)
        } else if code == 2 {
            Some(Severity::Critical)
        } else if code == 3 {
            Some(Severity::Error)
        } else if code == 4 {
            Some(Severity::Warning)
        } else if code == 5 {
            Some(Severity::Notice)
        } else if code == 6 {
            Some(Severity::Informational)
        } else if code == 7 {
            Some(Severity::Debug)
        } else {
            None
        }
    }

    /// The severity's name, with a capital first letter.
    pub open spec fn name_spec(self) -> Seq<char> {
        match self {
            Severity::Emergency => "Emergency"@,
            Severity::Alert => "Alert"@,
            Severity::Critical => "Critical"@,
            Severity::Error => "Error"@,
            Severity::Warning => "Warning"@,
            Severity::Notice => "Notice"@,
            Severity::Informational => "Informational"@,
            Severity::Debug => "Debug"@,
        }
    }

    /// The severity's code.
    pub fn code(&self) -> (code: u8)
        ensures
            code == self.code_spec(),
            code <= 7,
            Severity::of_code(code as int) == Some(*self),
    {
        match self {
            Severity::Emergency => 0,
            Severity::Alert => 1,
            Severity::Critical => 2,
            Severity::Error => 3,
            Severity::Warning => 4,
            Severity::Notice => 5,
            Severity::Informational => 6,
            Severity::Debug => 7,
        }
    }

    /// The severity with a given code, where the code is at most 7.
    pub fn from_code(code: u8) -> (severity: Option<Severity>)
        ensures
            severity == Severity::of_code(code as int),
            severity is Some <==> code <= 7,
            severity matches Some(s) ==> s.code_spec() == code,
    {
        match code {
            0 => Some(Severity::Emergency),
            1 => Some(Severity::Alert),
            2 => Some(Severity::Critical),
            3 => Some(Severity::Error),
            4 => Some(Severity::Warning),
            5 => Some(Severity::Notice),
            6 => Some(Severity::Informational),
            7 => Some(Severity::Debug),
            _ => None,
        }
    }

    /// The severity's name, with a capital first letter.
    pub fn name(&self) -> (name: &'static str)
        ensures
            name@ == self.name_spec(),
    {
        match self {
            Severity::Emergency => "Emergency",
            Severity::Alert => "Alert",
            Severity::Critical => "Critical",
            Severity::Error => "Error",
            Severity::Warning => "Warning",
            Severity::Notice => "Notice",
            Severity::Informational => "Informational",
            Severity::Debug => "Debug",
        }
    }
}

/// Why a record or its frame was refused. Each kind has a stable number and
/// a short description.
#[derive(Clone, Copy, Debug, PartialEq, Eq, Structural)]
pub enum SyslogError {
    Priority,
    Timestamp,
    Hostname,
    AppName,
    ProcId,
    MsgId,
    StructuredDataElement,
    StructuredDataParam,
    PayloadEncoding,
    FrameLength,
}

impl SyslogError {
    /// The kind's number.
    pub open spec fn code_spec(self) -> int {
        match self {
            SyslogError::Priority => 1,
            SyslogError::Timestamp => 2,
            SyslogError::Hostname => 3,
            SyslogError::AppName => 4,
            SyslogError::ProcId => 5,
            SyslogError::MsgId => 6,
            SyslogError::StructuredDataElement => 11,
            SyslogError::StructuredDataParam => 12,
            SyslogError::PayloadEncoding => 20,
            SyslogError::FrameLength => 30,
        }
    }

    /// The kind's description.
    pub open spec fn description_spec(self) -> Seq<char> {
        match self {
            SyslogError::Priority => "Bad syslog priority tag format"@,
            SyslogError::Timestamp => "Bad syslog timestamp format"@,
            SyslogError::Hostname => "Bad syslog hostname format"@,
            SyslogError::AppName => "Bad syslog application name format"@,
            SyslogError::ProcId => "Bad syslog process ID format"@,
            SyslogError::MsgId => "Bad syslog message ID format"@,
            SyslogError::StructuredDataElement => "Bad syslog structured data element format"@,
            SyslogError::StructuredDataParam => "Bad syslog structured data parameter format"@,
            SyslogError::PayloadEncoding => "Bad syslog message payload encoding"@,
            SyslogError::FrameLength => "Bad syslog frame length format"@,
        }
    }

    /// The kind's number.
    pub fn code(&self) -> (code: u32)
        ensures
            code == self.code_spec(),
    {
        match self {
            SyslogError::Priority => 1,
            SyslogError::Timestamp => 2,
            SyslogError::Hostname => 3,
            SyslogError::AppName => 4,
            SyslogError::ProcId => 5,
            SyslogError::MsgId => 6,
            SyslogError::StructuredDataElement => 11,
            SyslogError::StructuredDataParam => 12,
            SyslogError::PayloadEncoding => 20,
            SyslogError::FrameLength => 30,
        }
    }

    /// The kind with a given number, where one has it.
    pub fn from_code(code: u32) -> (kind: Option<SyslogError>)
        ensures
            kind matches Some(k) ==> k.code_spec() == code,
            kind is None ==> forall|k: SyslogError| k.code_spec() != code,
    {
        match code {
            1 => Some(SyslogError::Priority),
            2 => Some(SyslogError::Timestamp),
            3 => Some(SyslogError::Hostname),
            4 => Some(SyslogError::AppName),
            5 => Some(SyslogError::ProcId),
            6 => Some(SyslogError::MsgId),
            11 => Some(SyslogError::StructuredDataElement),
            12 => Some(SyslogError::StructuredDataParam),
            20 => Some(SyslogError::PayloadEncoding),
            30 => Some(SyslogError::FrameLength),
            _ => None,
        }
    }

    /// The kind's description.
    pub fn description(&self) -> (text: &'static str)
        ensures
            text@ == self.description_spec(),
    {
        match self {
            SyslogError::Priority => "Bad syslog priority tag format",
            SyslogError::Timestamp => "Bad syslog timestamp format",
            SyslogError::Hostname => "Bad syslog hostname format",
            SyslogError::AppName => "Bad syslog application name format",
            SyslogError::ProcId => "Bad syslog process ID format",
            SyslogError::MsgId => "Bad syslog message ID format",
            SyslogError::StructuredDataElement => "Bad syslog structured data element format",
            SyslogError::StructuredDataParam => "Bad syslog structured data parameter format",
            SyslogError::PayloadEncoding => "Bad syslog message payload encoding",
            SyslogError::FrameLength => "Bad syslog frame length format",
        }
    }
}

/// The payload of a record: text where the producer marked it as UTF-8,
/// else the bytes as they came.
#[derive(Clone, Debug, PartialEq, Eq)]
pub enum Message {
    String(String),
    MaybeString(Vec<u8>),
}

/// What a payload holds.
pub enum MessageModel {
    String(Seq<char>),
    MaybeString(Seq<u8>),
}

impl View for Message {
    type V = MessageModel;

    open spec fn view(&self) -> MessageModel {
        match self {
            Message::String(s) => MessageModel::String(s@),
            Message::MaybeString(b) => MessageModel::MaybeString(b@),
        }
    }
}

/// The view of an optional text.
pub open spec fn text_view(text: Option<String>) -> Option<Seq<char>> {
    match text {
        Some(s) => Some(s@),
        None => None,
    }
}

/// The view of an optional payload.
pub open spec fn message_view(message: Option<Message>) -> Option<MessageModel> {
    match message {
        Some(m) => Some(m@),
        None => None,
    }
}

/// One syslog record, as read from the wire, and the moment it was read.
#[derive(Clone, Debug, PartialEq, Eq)]
pub struct SyslogEvent {
    pub facility: Facility,
    pub severity: Severity,
    pub timestamp: Timestamp,
    pub hostname: String,
    pub app_name: Option<String>,
    pub proc_id: Option<String>,
    pub msg_id: Option<String>,
    pub structured_data: Option<Vec<StructuredElement>>,
    pub message: Option<Message>,
    pub processed: Timestamp,
}

/// What a record holds of the bytes it was read from: all of it but the
/// moment of reading.
pub struct SyslogRecord {
    pub facility: Facility,
    pub severity: Severity,
    pub timestamp: Timestamp,
    pub hostname: Seq<char>,
    pub app_name: Option<Seq<char>>,
    pub proc_id: Option<Seq<char>>,
    pub msg_id: Option<Seq<char>>,
    pub structured_data: Option<Seq<ElementModel>>,
    pub message: Option<MessageModel>,
}

impl View for SyslogEvent {
    type V = SyslogRecord;

    open spec fn view(&self) -> SyslogRecord {
        SyslogRecord {
            facility: self.facility,
            severity: self.severity,
            timestamp: self.timestamp,
            hostname: self.hostname@,
            app_name: text_view(self.app_name),
            proc_id: text_view(self.proc_id),
            msg_id: text_view(self.msg_id),
            structured_data: optional_elements_view(self.structured_data),
            message: message_view(self.message),
        }
    }
}

impl SyslogEvent {
    /// Both timestamps exist in the calendar, the moment of reading is in
    /// UTC, the hostname is not empty, and every element of structured data
    /// is well formed.
    pub open spec fn wf(&self) -> bool {
        &&& self.timestamp.wf()
        &&& self.processed.wf()
        &&& self.processed.offset == 0
        &&& self.hostname@.len() > 0
        &&& self.structured_data matches Some(elements) ==> all_wf(elements@)
    }

    /// Whether the event is well formed.
    pub fn is_wf(&self) -> (ok: bool)
        ensures
            ok == self.wf(),
    {
        self.timestamp.is_wf() && self.processed.is_wf() && self.processed.offset == 0
            && !self.hostname.as_str().is_empty() && match &self.structured_data {
            Some(elements) => crate::codec::syslog::sdata::are_wf(elements),
            None => true,
        }
    }
}

} // verus!
