//! A Windows event-log record and the document it yields.
use vstd::prelude::*;
use crate::ecs::{document, EcsBuilder, EcsModel};
use crate::json::{member_models_of, members_model, push_member, JsonModel, JsonValue};
use crate::timestamp::Timestamp;

verus! {

/// Severity of an event, by the .NET `EventLevel` numbering.
#[derive(Clone, Copy, PartialEq, Eq, Structural, Debug)]
pub enum EventLevel {
    LogAlways,
    Critical,
    Error,
    Warning,
    Information,
    Verbose,
}

pub open spec fn level_code(l: EventLevel) -> u8 {
    match l {
        EventLevel::LogAlways => 0,
        EventLevel::Critical => 1,
        EventLevel::Error => 2,
        EventLevel::Warning => 3,
        EventLevel::Information => 4,
        EventLevel::Verbose => 5,
    }
}

pub open spec fn level_name(l: EventLevel) -> Seq<char> {
    match l {
        EventLevel::LogAlways => "logalways"@,
        EventLevel::Critical => "critical"@,
        EventLevel::Error => "error"@,
        EventLevel::Warning => "warning"@,
        EventLevel::Information => "information"@,
        EventLevel::Verbose => "verbose"@,
    }
}

/// Why a value could not be read as an event level.
#[derive(Clone, Copy, PartialEq, Eq, Structural, Debug)]
pub enum EventLevelError {
    /// The value is not a non-negative integer.
    NotANumber,
    /// The number names no level.
    InvalidLevel(u64),
}

impl EventLevel {
    /// The level numbered `v`, if any.
    pub fn from_u64(v: u64) -> (r: Option<EventLevel>)
        ensures
            v <= 5 <==> r is Some,
            r is Some ==> level_code(r->Some_0) == v,
    {
        match v {
            0 => Some(EventLevel::LogAlways),
            1 => Some(EventLevel::Critical),
            2 => Some(EventLevel::Error),
            3 => Some(EventLevel::Warning),
            4 => Some(EventLevel::Information),
            5 => Some(EventLevel::Verbose),
            _ => None,
        }
    }

    /// Reads a level from a JSON value: a non-negative integer that numbers
    /// a level.
    pub fn try_from_json(value: &JsonValue) -> (r: Result<EventLevel, EventLevelError>)
        ensures
            match value@ {
                JsonModel::Num(n) => if n < 0 {
                    r == Err::<EventLevel, EventLevelError>(EventLevelError::NotANumber)
                } else if n <= 5 {
                    r matches Ok(l) && level_code(l) == n
                } else {
                    r == Err::<EventLevel, EventLevelError>(EventLevelError::InvalidLevel(n as u64))
                },
                _ => r == Err::<EventLevel, EventLevelError>(EventLevelError::NotANumber),
            },
    {
        let v: u64 = match value {
            JsonValue::UInt(u) => *u,
            JsonValue::Int(i) => {
                if *i < 0 {
                    return Err(EventLevelError::NotANumber);
                }
                *i as u64
            },
            _ => {
                return Err(EventLevelError::NotANumber);
            },
        };
        match EventLevel::from_u64(v) {
            Some(l) => Ok(l),
            None => Err(EventLevelError::InvalidLevel(v)),
        }
    }

    pub fn code(&self) -> (r: u8)
        ensures
            r == level_code(*self),
    {
        match self {
            EventLevel::LogAlways => 0,
            EventLevel::Critical => 1,
            EventLevel::Error => 2,
            EventLevel::Warning => 3,
            EventLevel::Information => 4,
            EventLevel::Verbose => 5,
        }
    }

    /// The level's name in lower case.
    pub fn name(&self) -> (r: &'static str)
        ensures
            r@ == level_name(*self),
    {
        match self {
            EventLevel::LogAlways => "logalways",
            EventLevel::Critical => "critical",
            EventLevel::Error => "error",
            EventLevel::Warning => "warning",
            EventLevel::Information => "information",
            EventLevel::Verbose => "verbose",
        }
    }
}

/// One event-log record. The identifiers and the extra data are JSON as the
/// log holds them.
#[derive(Debug)]
pub struct WindowsEvent {
    pub event_record_id: u64,
    pub timestamp: Timestamp,
    pub event_id: u64,
    pub level: EventLevel,
    pub computer: JsonValue,
    pub provider_name: JsonValue,
    pub channel_name: JsonValue,
    pub activity_id: Option<JsonValue>,
    pub custom_data: Vec<(String, JsonValue)>,
}

/// No two members share a key.
pub open spec fn keys_unique(members: Seq<(String, JsonValue)>) -> bool {
    forall|i: int, j: int| 0 <= i < j < members.len() ==> (#[trigger] members[i]).0@ != (
    #[trigger] members[j]).0@
}

/// Whether no two members share a key, as extra data read from a map has
/// it. `WindowsEvent::new` takes only such extra data.
pub fn has_unique_keys(members: &Vec<(String, JsonValue)>) -> (r: bool)
    ensures
        r == keys_unique(members@),
{
    let mut j: usize = 0;
    while j < members.len()
        invariant
            j <= members@.len(),
            forall|a: int, b: int| 0 <= a < b < j ==> (#[trigger] members@[a]).0@ != (
            #[trigger] members@[b]).0@,
        decreases members@.len() - j,
    {
        let mut i: usize = 0;
        while i < j
            invariant
                i <= j < members@.len(),
                forall|a: int| 0 <= a < i ==> (#[trigger] members@[a]).0@ != members@[j as int].0@,
            decreases j - i,
        {
            if members[i].0 == members[j].0 {
                return false;
            }
            i = i + 1;
        }
        j = j + 1;
    }
    true
}

/// The `event` namespace: keys in byte order, a missing activity as null.
pub open spec fn event_object(e: WindowsEvent) -> JsonModel {
    JsonModel::Object(
        seq![
            ("activity"@, match e.activity_id {
                Some(a) => a@,
                None => JsonModel::Null,
            }),
            ("code"@, JsonModel::Num(e.event_id as int)),
            ("custom_data"@, JsonModel::Object(members_model(e.custom_data@))),
            ("kind"@, JsonModel::Str("event"@)),
            ("module"@, e.channel_name@),
            ("provider"@, e.provider_name@),
            ("sequence"@, JsonModel::Num(e.event_record_id as int)),
            ("severity"@, JsonModel::Num(level_code(e.level) as int)),
        ],
    )
}

/// The `host` namespace.
pub open spec fn host_object(e: WindowsEvent) -> JsonModel {
    JsonModel::Object(seq![("name"@, e.computer@)])
}

/// The `log` namespace: the severity's code and name under `syslog`.
pub open spec fn log_object(e: WindowsEvent) -> JsonModel {
    JsonModel::Object(
        seq![
            ("syslog"@, JsonModel::Object(
                seq![
                    ("severity"@, JsonModel::Object(
                        seq![
                            ("code"@, JsonModel::Num(level_code(e.level) as int)),
                            ("name"@, JsonModel::Str(level_name(e.level))),
                        ],
                    )),
                ],
            )),
        ],
    )
}

/// The one document of an event.
pub open spec fn event_document(e: WindowsEvent) -> JsonModel {
    document(
        EcsModel {
            ts: e.timestamp.ts as int,
            message: None,
            tags: Seq::empty(),
            event: Some(event_object(e)),
            file: None,
            host: Some(host_object(e)),
            log: Some(log_object(e)),
        },
    )
}

fn single_member(key: &str, value: JsonValue) -> (r: JsonValue)
    ensures
        r@ == JsonModel::Object(seq![(key@, value@)]),
{
    let mut m: Vec<(String, JsonValue)> = Vec::new();
    assert(members_model(m@) =~= Seq::<(Seq<char>, JsonModel)>::empty());
    push_member(&mut m, key, value);
    assert(members_model(m@) =~= seq![(key@, value@)]);
    JsonValue::Object(m)
}

impl WindowsEvent {
    /// The extra data has one member per key.
    pub open spec fn well_formed(&self) -> bool {
        keys_unique(self.custom_data@)
    }

    #[allow(clippy::too_many_arguments)]
    pub fn new(
        event_record_id: u64,
        timestamp: Timestamp,
        event_id: u64,
        level: EventLevel,
        computer: JsonValue,
        provider_name: JsonValue,
        channel_name: JsonValue,
        activity_id: Option<JsonValue>,
        custom_data: Vec<(String, JsonValue)>,
    ) -> (r: WindowsEvent)
        requires
            keys_unique(custom_data@),
        ensures
            r.well_formed(),
            r == (WindowsEvent {
                event_record_id,
                timestamp,
                event_id,
                level,
                computer,
                provider_name,
                channel_name,
                activity_id,
                custom_data,
            }),
    {
        WindowsEvent {
            event_record_id,
            timestamp,
            event_id,
            level,
            computer,
            provider_name,
            channel_name,
            activity_id,
            custom_data,
        }
    }

    /// The `event` namespace object.
    pub fn event_object(&self) -> (r: JsonValue)
        ensures
            r@ == event_object(*self),
    {
        let mut m: Vec<(String, JsonValue)> = Vec::new();
        assert(members_model(m@) =~= Seq::<(Seq<char>, JsonModel)>::empty());
        let activity = match &self.activity_id {
            Some(a) => a.copy(),
            None => JsonValue::Null,
        };
        push_member(&mut m, "activity", activity);
        push_member(&mut m, "code", JsonValue::UInt(self.event_id));
        let custom = JsonValue::Object(self.custom_data_copy());
        push_member(&mut m, "custom_data", custom);
        push_member(&mut m, "kind", JsonValue::Str("event".to_string()));
        push_member(&mut m, "module", self.channel_name.copy());
        push_member(&mut m, "provider", self.provider_name.copy());
        push_member(&mut m, "sequence", JsonValue::UInt(self.event_record_id));
        push_member(&mut m, "severity", JsonValue::UInt(self.level.code() as u64));
        let r = JsonValue::Object(m);
        assert(members_model(m@) =~= event_object(*self)->Object_0);
        r
    }

    fn custom_data_copy(&self) -> (r: Vec<(String, JsonValue)>)
        ensures
            members_model(r@) == members_model(self.custom_data@),
    {
        let mut out: Vec<(String, JsonValue)> = Vec::new();
        assert(members_model(out@) =~= member_models_of(self.custom_data@, 0));
        let mut i: usize = 0;
        while i < self.custom_data.len()
            invariant
                i <= self.custom_data@.len(),
                members_model(out@) == member_models_of(self.custom_data@, i as int),
            decreases self.custom_data@.len() - i,
        {
            let c = self.custom_data[i].1.copy();
            push_member(&mut out, self.custom_data[i].0.as_str(), c);
            i = i + 1;
        }
        out
    }

    /// The `host` namespace object.
    pub fn host_object(&self) -> (r: JsonValue)
        ensures
            r@ == host_object(*self),
    {
        single_member("name", self.computer.copy())
    }

    /// The `log` namespace object.
    pub fn log_object(&self) -> (r: JsonValue)
        ensures
            r@ == log_object(*self),
    {
        let mut sev: Vec<(String, JsonValue)> = Vec::new();
        assert(members_model(sev@) =~= Seq::<(Seq<char>, JsonModel)>::empty());
        push_member(&mut sev, "code", JsonValue::UInt(self.level.code() as u64));
        push_member(&mut sev, "name", JsonValue::Str(self.level.name().to_string()));
        let severity = JsonValue::Object(sev);
        assert(members_model(sev@) =~= log_object(*self)->Object_0[0].1->Object_0[0].1->Object_0);
        let syslog = single_member("severity", severity);
        single_member("syslog", syslog)
    }

    /// The event's one document, with its instant. The result is a function
    /// of the record alone.
    pub fn documents(&self) -> (r: Vec<(Timestamp, JsonValue)>)
        ensures
            r@.len() == 1,
            r@[0].0 == self.timestamp,
            r@[0].1@ == event_document(*self),
    {
        let b = EcsBuilder::with(self.timestamp);
        let doc = match b.with_event(self.event_object()) {
            Ok(b) => match b.with_host(self.host_object()) {
                Ok(b) => match b.with_log(self.log_object()) {
                    Ok(b) => b.build(),
                    Err(_) => {
                        assert(false);
                        JsonValue::Null
                    },
                },
                Err(_) => {
                    assert(false);
                    JsonValue::Null
                },
            },
            Err(_) => {
                assert(false);
                JsonValue::Null
            },
        };
        let mut r: Vec<(Timestamp, JsonValue)> = Vec::new();
        r.push((self.timestamp, doc));
        r
    }
}

} // verus!
