//! Instants at millisecond precision, read from raw epoch fields that were
//! written in a source time zone.
use vstd::prelude::*;

verus! {

/// An instant in UTC milliseconds since the epoch.
///
/// Identity is the instant alone: the zone a value was read in is provenance,
/// not part of what two timestamps compare or hash by.
#[derive(Clone, Copy, PartialEq, Eq, Structural, Debug, Hash)]
pub struct Timestamp {
    pub ts: i64,
}

/// A source time zone, by its IANA name (`"UTC"`, `"Europe/Berlin"`).
#[derive(Debug)]
pub struct TimeZone {
    name: String,
}

/// A raw epoch value that names no instant in the given zone: the zone is
/// unknown, the value is out of range, or the local time falls into a gap.
#[derive(Clone, Copy, PartialEq, Eq, Structural, Debug)]
pub struct InvalidTimestamp {
    pub raw: i64,
}

/// The UTC instants, in milliseconds, that the local wall-clock time
/// `local_secs` (seconds since the epoch, read as local time) stands for in
/// the zone named `zone`; `None` where the zone or the time cannot be read.
pub uninterp spec fn zone_instants(local_secs: int, zone: Seq<char>) -> Option<Seq<i64>>;

/// Relies on chrono-tz's `Tz` parsing of a zone name, chrono's
/// `DateTime::from_timestamp` for the wall-clock time, and chrono's
/// `TimeZone::from_local_datetime`, whose result lists no, one, or two
/// instants; each is read back with `timestamp_millis`. The zone `UTC` has
/// offset zero throughout, so where it yields an answer that is the one
/// instant `local_secs` seconds after the epoch.
#[verifier::external_body]
fn local_instants(local_secs: i64, zone: &str) -> (r: Option<Vec<i64>>)
    ensures
        opt_seq(r) == zone_instants(local_secs as int, zone@),
        zone@ == "UTC"@ && r is Some ==> r->Some_0@.len() == 1 && r->Some_0@[0] == local_secs * 1000,
{
    let tz = zone.parse::<chrono_tz::Tz>().ok()?;
    let local = chrono::DateTime::from_timestamp(local_secs, 0)?.naive_utc();
    match chrono::TimeZone::from_local_datetime(&tz, &local) {
        chrono::LocalResult::None => Some(Vec::new()),
        chrono::LocalResult::Single(t) => Some(vec![t.timestamp_millis()]),
        chrono::LocalResult::Ambiguous(a, b) => Some(vec![a.timestamp_millis(), b.timestamp_millis()]),
    }
}

/// The earliest of a non-empty list of instants.
pub open spec fn earliest(s: Seq<i64>) -> i64
    recommends
        s.len() > 0,
    decreases s.len(),
{
    if s.len() <= 1 {
        s[0]
    } else {
        let rest = earliest(s.drop_last());
        if s.last() < rest {
            s.last()
        } else {
            rest
        }
    }
}

/// The instant a raw value stands for, given the UTC instants its local time
/// stands for: the earliest of them; none, or an unreadable zone or time,
/// make it invalid.
pub open spec fn resolve_instants(raw: i64, instants: Option<Seq<i64>>) -> Result<
    Option<Timestamp>,
    InvalidTimestamp,
> {
    match instants {
        Some(s) => if s.len() > 0 {
            Ok(Some(Timestamp { ts: earliest(s) }))
        } else {
            Err(InvalidTimestamp { raw })
        },
        None => Err(InvalidTimestamp { raw }),
    }
}

/// What reading `raw` in `zone` yields: the sentinel `-1` is absent; any other
/// value is the earliest instant its local time stands for.
pub open spec fn read_epoch(raw: i64, zone: Seq<char>) -> Result<Option<Timestamp>, InvalidTimestamp> {
    if raw == -1 {
        Ok(None)
    } else {
        resolve_instants(raw, zone_instants(raw as int, zone))
    }
}

pub open spec fn opt_seq(o: Option<Vec<i64>>) -> Option<Seq<i64>> {
    match o {
        Some(v) => Some(v@),
        None => None,
    }
}

/// Reading a raw value and taking its milliseconds gives back the UTC
/// instant its local time stands for (the earlier one where it is
/// ambiguous); the sentinel `-1` always reads as absent.
pub proof fn lemma_epoch_round_trip(raw: i64, zone: Seq<char>)
    ensures
        raw == -1 ==> read_epoch(raw, zone) == Ok::<Option<Timestamp>, InvalidTimestamp>(None),
        raw != -1 ==> match zone_instants(raw as int, zone) {
            Some(s) => s.len() > 0 ==> (read_epoch(raw, zone) matches Ok(Some(t)) && t.millis()
                == earliest(s) && s.contains(t.millis())),
            None => read_epoch(raw, zone) is Err,
        },
{
    if raw != -1 {
        if let Some(s) = zone_instants(raw as int, zone) {
            if s.len() > 0 {
                lemma_earliest_is_member(s);
            }
        }
    }
}

proof fn lemma_earliest_is_member(s: Seq<i64>)
    requires
        s.len() > 0,
    ensures
        s.contains(earliest(s)),
        forall|k: int| 0 <= k < s.len() ==> earliest(s) <= #[trigger] s[k],
    decreases s.len(),
{
    if s.len() == 1 {
        assert(s[0] == earliest(s));
    } else {
        let rest = s.drop_last();
        lemma_earliest_is_member(rest);
        let k0 = choose|k: int| 0 <= k < rest.len() && rest[k] == earliest(rest);
        assert(s[k0] == rest[k0]);
        assert(s[s.len() - 1] == s.last());
        assert forall|k: int| 0 <= k < s.len() implies earliest(s) <= #[trigger] s[k] by {
            if k < s.len() - 1 {
                assert(s[k] == rest[k]);
            }
        }
    }
}

impl View for TimeZone {
    type V = Seq<char>;

    /// The zone's name.
    closed spec fn view(&self) -> Seq<char> {
        self.name@
    }
}

impl TimeZone {

    /// The zone with the given IANA name. Whether the name is known shows
    /// when a value is read in it.
    pub fn new(name: &str) -> (r: TimeZone)
        ensures
            r@ == name@,
    {
        TimeZone { name: name.to_string() }
    }

    /// Coordinated Universal Time.
    pub fn utc() -> (r: TimeZone)
        ensures
            r@ == "UTC"@,
    {
        TimeZone { name: "UTC".to_string() }
    }

    pub fn name(&self) -> (r: &str)
        ensures
            r@ == self@,
    {
        self.name.as_str()
    }
}

impl Timestamp {
    pub open spec fn millis(&self) -> i64 {
        self.ts
    }

    /// The instant `ms` milliseconds after the epoch.
    pub fn from_millis(ms: i64) -> (r: Timestamp)
        ensures
            r.millis() == ms,
    {
        Timestamp { ts: ms }
    }

    pub fn timestamp_millis(&self) -> (r: i64)
        ensures
            r == self.millis(),
    {
        self.ts
    }

    /// Reads a raw epoch value (seconds, written as local time in `tz`).
    /// `-1` marks an absent value; an ambiguous local time resolves to the
    /// earlier of its instants.
    pub fn from_epoch(raw: i64, tz: &TimeZone) -> (r: Result<Option<Timestamp>, InvalidTimestamp>)
        ensures
            r == read_epoch(raw, tz@),
            raw != -1 && tz@ == "UTC"@ && r is Ok ==> (r matches Ok(Some(t)) && t.millis() == raw * 1000),
    {
        if raw == -1 {
            return Ok(None);
        }
        let instants = local_instants(raw, tz.name.as_str());
        proof {
            if instants is Some && instants->Some_0@.len() == 1 {
                assert(earliest(instants->Some_0@) == instants->Some_0@[0]);
            }
        }
        Self::from_instants(raw, instants)
    }

    /// The instant for `raw`, from the UTC instants its local time stands
    /// for (`None` where the zone or the time could not be read): the
    /// earliest of them.
    pub fn from_instants(raw: i64, instants: Option<Vec<i64>>) -> (r: Result<Option<Timestamp>, InvalidTimestamp>)
        ensures
            r == resolve_instants(raw, opt_seq(instants)),
    {
        match instants {
            None => Err(InvalidTimestamp { raw }),
            Some(v) => {
                if v.len() == 0 {
                    return Err(InvalidTimestamp { raw });
                }
                let mut best = v[0];
                let mut i: usize = 1;
                while i < v.len()
                    invariant
                        1 <= i <= v@.len(),
                        best == earliest(v@.subrange(0, i as int)),
                    decreases v@.len() - i,
                {
                    assert(v@.subrange(0, i as int + 1).drop_last() =~= v@.subrange(0, i as int));
                    if v[i] < best {
                        best = v[i];
                    }
                    i = i + 1;
                }
                assert(v@.subrange(0, i as int) =~= v@);
                Ok(Some(Timestamp { ts: best }))
            },
        }
    }
}

} // verus!
