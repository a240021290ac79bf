use crate::extras::{extras_rendered, extras_text, field_keys, field_values, format_extras, JsonField, JsonKind};
use crate::level::{level_shown, level_token, plain_token};
use crate::style::{has_escape, paint, shown, Style};
use crate::text::{decimal, decimal_text};
use chrono::{DateTime, Local, SecondsFormat, TimeZone, Utc};
use vstd::prelude::*;

verus! {

/// The ways decoding a line can fail.
#[derive(Clone, Debug, PartialEq, Eq)]
pub enum DecodeError {
    /// The line is not a JSON object, or a field other than the level, time
    /// and message has the wrong type; carries the diagnostic.
    MalformedJson(String),
    MissingOrInvalidLevel,
    InvalidTimestamp,
    MissingOrInvalidMessage,
}

/// One decoded log line.
pub struct LogRecord {
    /// The bunyan format version.
    pub v: Option<u8>,
    /// The numeric level; see `Severity`.
    pub level: u8,
    /// The name of the logger.
    pub name: Option<String>,
    /// The host that produced the record.
    pub hostname: Option<String>,
    /// The id of the process that produced the record.
    pub pid: Option<u32>,
    /// The instant of the event, in milliseconds since the Unix epoch (UTC).
    pub time: i64,
    /// The message.
    pub message: String,
    /// Every other field, in the order they were read.
    pub extras: Vec<(String, JsonField)>,
}

/// The instant, in milliseconds since the epoch, that chrono reads in the RFC 3339 date-time `s`.
pub uninterp spec fn rfc3339_millis(s: Seq<char>) -> Option<int>;

/// Whether chrono can represent the instant `ms` milliseconds after the epoch:
/// from the start of year -262143 to the end of year 262142.
pub open spec fn millis_in_range(ms: int) -> bool {
    MIN_MILLIS <= ms <= MAX_MILLIS
}

/// The first millisecond of chrono's range, January 1 of year -262143 (UTC).
pub const MIN_MILLIS: i64 = -8_334_601_228_800_000;

/// The last millisecond of chrono's range, December 31 of year 262142 (UTC).
pub const MAX_MILLIS: i64 = 8_210_266_876_799_999;

/// A day: more than any time zone offset.
pub const DAY_MILLIS: i64 = 86_400_000;

/// Relies on chrono's DateTime::parse_from_rfc3339 and timestamp_millis: the
/// instant an RFC 3339 date-time names, in milliseconds since the epoch.
#[verifier::external_body]
fn parse_rfc3339(s: &str) -> (r: Option<i64>)
    ensures
        match r {
            Some(m) => rfc3339_millis(s@) == Some(m as int),
            None => rfc3339_millis(s@) is None,
        },
{
    DateTime::parse_from_rfc3339(s).ok().map(|d| d.timestamp_millis())
}

/// Relies on chrono's Utc.timestamp_millis_opt: whether the instant is representable.
#[verifier::external_body]
fn representable(ms: i64) -> (r: bool)
    ensures
        r == millis_in_range(ms as int),
{
    Utc.timestamp_millis_opt(ms).single().is_some()
}

pub open spec fn key_level() -> Seq<char> {
    seq!['l', 'e', 'v', 'e', 'l']
}

pub open spec fn key_time() -> Seq<char> {
    seq!['t', 'i', 'm', 'e']
}

pub open spec fn key_msg() -> Seq<char> {
    seq!['m', 's', 'g']
}

pub open spec fn key_version() -> Seq<char> {
    seq!['v']
}

pub open spec fn key_name() -> Seq<char> {
    seq!['n', 'a', 'm', 'e']
}

pub open spec fn key_hostname() -> Seq<char> {
    seq!['h', 'o', 's', 't', 'n', 'a', 'm', 'e']
}

pub open spec fn key_pid() -> Seq<char> {
    seq!['p', 'i', 'd']
}

/// The keys that the record reads itself; all others are extras.
pub open spec fn is_reserved(k: Seq<char>) -> bool {
    k == key_version() || k == key_level() || k == key_name() || k == key_hostname() || k
        == key_pid() || k == key_time() || k == key_msg()
}

/// The value of the last field named `key`.
pub open spec fn lookup(entries: Seq<(String, JsonField)>, key: Seq<char>) -> Option<JsonField>
    decreases entries.len(),
{
    if entries.len() == 0 {
        None
    } else if entries.last().0@ == key {
        Some(entries.last().1)
    } else {
        lookup(entries.drop_last(), key)
    }
}

/// The fields whose keys are not reserved, in order.
pub open spec fn others(entries: Seq<(String, JsonField)>) -> Seq<(String, JsonField)>
    decreases entries.len(),
{
    if entries.len() == 0 {
        Seq::empty()
    } else if is_reserved(entries.last().0@) {
        others(entries.drop_last())
    } else {
        others(entries.drop_last()).push(entries.last())
    }
}

/// An integer value within `0..=max`.
pub open spec fn bounded(f: JsonField, max: int) -> Option<int> {
    match f.kind {
        JsonKind::Integer(n) => if 0 <= n <= max {
            Some(n as int)
        } else {
            None
        },
        _ => None,
    }
}

/// An optional integer field: absent or null is `Ok(None)`, an integer in
/// range is `Ok(Some(n))`, anything else is `Err(())`.
pub open spec fn optional_bounded(f: Option<JsonField>, max: int) -> Result<Option<int>, ()> {
    match f {
        None => Ok(None),
        Some(g) => if g.kind == JsonKind::Null {
            Ok(None)
        } else {
            match bounded(g, max) {
                Some(n) => Ok(Some(n)),
                None => Err(()),
            }
        },
    }
}

/// An optional string field, as `optional_bounded` for strings.
pub open spec fn optional_text(f: Option<JsonField>) -> Result<Option<Seq<char>>, ()> {
    match f {
        None => Ok(None),
        Some(g) => match g.kind {
            JsonKind::Null => Ok(None),
            JsonKind::Text(s) => Ok(Some(s@)),
            _ => Err(()),
        },
    }
}

/// The instant a time value names: an RFC 3339 string, or an integer count of
/// milliseconds; either must be representable.
pub open spec fn timestamp_spec(f: JsonField) -> Option<int> {
    match f.kind {
        JsonKind::Text(s) => match rfc3339_millis(s@) {
            Some(m) => if millis_in_range(m) {
                Some(m)
            } else {
                None
            },
            None => None,
        },
        JsonKind::Integer(n) => if i64::MIN <= n <= i64::MAX && millis_in_range(n as int) {
            Some(n as int)
        } else {
            None
        },
        _ => None,
    }
}

pub open spec fn opt_view(o: Option<String>) -> Option<Seq<char>> {
    match o {
        Some(s) => Some(s@),
        None => None,
    }
}

pub open spec fn opt_int_u8(o: Option<u8>) -> Option<int> {
    match o {
        Some(n) => Some(n as int),
        None => None,
    }
}

pub open spec fn opt_int_u32(o: Option<u32>) -> Option<int> {
    match o {
        Some(n) => Some(n as int),
        None => None,
    }
}

pub open spec fn level_ok(entries: Seq<(String, JsonField)>) -> bool {
    lookup(entries, key_level()) matches Some(f) && bounded(f, 255) is Some
}

pub open spec fn time_ok(entries: Seq<(String, JsonField)>) -> bool {
    lookup(entries, key_time()) matches Some(f) && timestamp_spec(f) is Some
}

pub open spec fn msg_ok(entries: Seq<(String, JsonField)>) -> bool {
    lookup(entries, key_msg()) matches Some(f) && f.kind is Text
}

pub open spec fn optionals_ok(entries: Seq<(String, JsonField)>) -> bool {
    &&& optional_bounded(lookup(entries, key_version()), 255) is Ok
    &&& optional_bounded(lookup(entries, key_pid()), 0xffff_ffff) is Ok
    &&& optional_text(lookup(entries, key_name())) is Ok
    &&& optional_text(lookup(entries, key_hostname())) is Ok
}

/// `r` is what decoding the fields `entries` gives: the first failing check
/// of level, time, message and the optional fields names the error; on
/// success every field holds what its key held, and the extras are the rest.
pub open spec fn decoded(entries: Seq<(String, JsonField)>, r: Result<LogRecord, DecodeError>) -> bool {
    if !level_ok(entries) {
        r == Err::<LogRecord, DecodeError>(DecodeError::MissingOrInvalidLevel)
    } else if !time_ok(entries) {
        r == Err::<LogRecord, DecodeError>(DecodeError::InvalidTimestamp)
    } else if !msg_ok(entries) {
        r == Err::<LogRecord, DecodeError>(DecodeError::MissingOrInvalidMessage)
    } else if !optionals_ok(entries) {
        r is Err && r->Err_0 is MalformedJson
    } else {
        r matches Ok(rec) && {
            &&& Some(rec.level as int) == bounded(lookup(entries, key_level())->Some_0, 255)
            &&& Some(rec.time as int) == timestamp_spec(lookup(entries, key_time())->Some_0)
            &&& lookup(entries, key_msg())->Some_0.kind == JsonKind::Text(rec.message)
            &&& Ok::<Option<int>, ()>(opt_int_u8(rec.v)) == optional_bounded(lookup(entries, key_version()), 255)
            &&& Ok::<Option<int>, ()>(opt_int_u32(rec.pid)) == optional_bounded(lookup(entries, key_pid()), 0xffff_ffff)
            &&& Ok::<Option<Seq<char>>, ()>(opt_view(rec.name)) == optional_text(lookup(entries, key_name()))
            &&& Ok::<Option<Seq<char>>, ()>(opt_view(rec.hostname)) == optional_text(lookup(entries, key_hostname()))
            &&& rec.extras@ == others(entries)
        }
    }
}

impl LogRecord {
    /// A decoded record: its time is representable and no extra has a reserved key.
    pub open spec fn wf(&self) -> bool {
        &&& millis_in_range(self.time as int)
        &&& forall|i: int| 0 <= i < self.extras@.len() ==> !is_reserved(#[trigger] self.extras@[i].0@)
    }
}

/// The instant a time value names, in milliseconds since the epoch: an RFC
/// 3339 date-time string or an integer count of milliseconds.
pub fn deserialize(f: &JsonField) -> (r: Result<i64, DecodeError>)
    ensures
        match timestamp_spec(*f) {
            Some(m) => r matches Ok(t) && t as int == m && millis_in_range(m),
            None => r == Err::<i64, DecodeError>(DecodeError::InvalidTimestamp),
        },
{
    match &f.kind {
        JsonKind::Text(s) => match parse_rfc3339(s.as_str()) {
            Some(m) => if representable(m) {
                Ok(m)
            } else {
                Err(DecodeError::InvalidTimestamp)
            },
            None => Err(DecodeError::InvalidTimestamp),
        },
        JsonKind::Integer(n) => if i64::MIN as i128 <= *n && *n <= i64::MAX as i128 {
            let m = *n as i64;
            if representable(m) {
                Ok(m)
            } else {
                Err(DecodeError::InvalidTimestamp)
            }
        } else {
            Err(DecodeError::InvalidTimestamp)
        },
        _ => Err(DecodeError::InvalidTimestamp),
    }
}


proof fn lemma_key_literals()
    ensures
        "v"@ == key_version(),
        "level"@ == key_level(),
        "name"@ == key_name(),
        "hostname"@ == key_hostname(),
        "pid"@ == key_pid(),
        "time"@ == key_time(),
        "msg"@ == key_msg(),
{
    reveal_strlit("v");
    reveal_strlit("level");
    reveal_strlit("name");
    reveal_strlit("hostname");
    reveal_strlit("pid");
    reveal_strlit("time");
    reveal_strlit("msg");
    assert("v"@ =~= key_version());
    assert("level"@ =~= key_level());
    assert("name"@ =~= key_name());
    assert("hostname"@ =~= key_hostname());
    assert("pid"@ =~= key_pid());
    assert("time"@ =~= key_time());
    assert("msg"@ =~= key_msg());
    }

fn key_is(k: &String, lit: &str) -> (r: bool)
    ensures
        r == (k@ == lit@),
{
    let l = String::from_str(lit);
    k.eq(&l)
}

fn is_reserved_key(k: &String) -> (r: bool)
    ensures
        r == is_reserved(k@),
{
    proof { lemma_key_literals(); }
    key_is(k, "v") || key_is(k, "level") || key_is(k, "name") || key_is(k, "hostname") || key_is(
        k,
        "pid",
    ) || key_is(k, "time") || key_is(k, "msg")
}

/// The index of the last field named `key`.
fn find(entries: &Vec<(String, JsonField)>, key: &str) -> (r: Option<usize>)
    ensures
        match r {
            Some(j) => j < entries@.len() && lookup(entries@, key@) == Some(entries@[j as int].1),
            None => lookup(entries@, key@) is None,
        },
{
    let mut found: Option<usize> = None;
    let mut i: usize = 0;
    while i < entries.len()
        invariant
            i <= entries@.len(),
            match found {
                Some(j) => j < i && lookup(entries@.subrange(0, i as int), key@) == Some(
                    entries@[j as int].1,
                ),
                None => lookup(entries@.subrange(0, i as int), key@) is None,
            },
        decreases entries.len() - i,
    {
        assert(entries@.subrange(0, i + 1).drop_last() =~= entries@.subrange(0, i as int));
        if key_is(&entries[i].0, key) {
            found = Some(i);
        }
        i = i + 1;
    }
    assert(entries@.subrange(0, entries@.len() as int) =~= entries@);
    found
}

fn read_bounded(f: &JsonField, max: u32) -> (r: Option<u32>)
    ensures
        match r {
            Some(n) => bounded(*f, max as int) == Some(n as int),
            None => bounded(*f, max as int) is None,
        },
{
    match &f.kind {
        JsonKind::Integer(n) => if 0 <= *n && *n <= max as i128 {
            Some(*n as u32)
        } else {
            None
        },
        _ => None,
    }
}

fn read_optional(entries: &Vec<(String, JsonField)>, key: &str, max: u32) -> (r: Result<Option<u32>, ()>)
    ensures
        match r {
            Ok(Some(n)) => optional_bounded(lookup(entries@, key@), max as int) == Ok::<Option<int>, ()>(Some(n as int)),
            Ok(None) => optional_bounded(lookup(entries@, key@), max as int) == Ok::<Option<int>, ()>(None),
            Err(_) => optional_bounded(lookup(entries@, key@), max as int) is Err,
        },
{
    match find(entries, key) {
        None => Ok(None),
        Some(j) => {
            let f = &entries[j].1;
            if let JsonKind::Null = f.kind {
                Ok(None)
            } else {
                match read_bounded(f, max) {
                    Some(n) => Ok(Some(n)),
                    None => Err(()),
                }
            }
        },
    }
}

fn read_optional_text(entries: &Vec<(String, JsonField)>, key: &str) -> (r: Result<Option<String>, ()>)
    ensures
        match r {
            Ok(o) => optional_text(lookup(entries@, key@)) == Ok::<Option<Seq<char>>, ()>(opt_view(o)),
            Err(_) => optional_text(lookup(entries@, key@)) is Err,
        },
{
    match find(entries, key) {
        None => Ok(None),
        Some(j) => match &entries[j].1.kind {
            JsonKind::Null => Ok(None),
            JsonKind::Text(s) => Ok(Some(s.clone())),
            _ => Err(()),
        },
    }
}

fn malformed(field: &str) -> (r: DecodeError)
    ensures
        r is MalformedJson,
{
    let mut t = String::from_str("invalid type for field ");
    t.append(field);
    DecodeError::MalformedJson(t)
}

/// Builds a record from the fields of a JSON object, in the order they were read.
pub fn decode_fields(entries: &Vec<(String, JsonField)>) -> (r: Result<LogRecord, DecodeError>)
    ensures
        decoded(entries@, r),
        r matches Ok(rec) ==> rec.wf(),
{
    proof { lemma_key_literals(); }
    let level: u8 = match find(entries, "level") {
        None => return Err(DecodeError::MissingOrInvalidLevel),
        Some(j) => match read_bounded(&entries[j].1, 255) {
            Some(n) => n as u8,
            None => return Err(DecodeError::MissingOrInvalidLevel),
        },
    };
    let time: i64 = match find(entries, "time") {
        None => return Err(DecodeError::InvalidTimestamp),
        Some(j) => match deserialize(&entries[j].1) {
            Ok(m) => m,
            Err(e) => return Err(e),
        },
    };
    let message: String = match find(entries, "msg") {
        None => return Err(DecodeError::MissingOrInvalidMessage),
        Some(j) => match &entries[j].1.kind {
            JsonKind::Text(s) => s.clone(),
            _ => return Err(DecodeError::MissingOrInvalidMessage),
        },
    };
    let v: Option<u8> = match read_optional(entries, "v", 255) {
        Ok(Some(n)) => Some(n as u8),
        Ok(None) => None,
        Err(_) => return Err(malformed("v")),
    };
    let pid: Option<u32> = match read_optional(entries, "pid", 0xffff_ffff) {
        Ok(o) => o,
        Err(_) => return Err(malformed("pid")),
    };
    let name: Option<String> = match read_optional_text(entries, "name") {
        Ok(o) => o,
        Err(_) => return Err(malformed("name")),
    };
    let hostname: Option<String> = match read_optional_text(entries, "hostname") {
        Ok(o) => o,
        Err(_) => return Err(malformed("hostname")),
    };
    let mut extras: Vec<(String, JsonField)> = Vec::new();
    let mut i: usize = 0;
    while i < entries.len()
        invariant
            i <= entries@.len(),
            extras@ == others(entries@.subrange(0, i as int)),
        decreases entries.len() - i,
    {
        assert(entries@.subrange(0, i + 1).drop_last() =~= entries@.subrange(0, i as int));
        if !is_reserved_key(&entries[i].0) {
            let k = entries[i].0.clone();
            let f = entries[i].1.copy();
            extras.push((k, f));
        }
        i = i + 1;
    }
    assert(entries@.subrange(0, entries@.len() as int) =~= entries@);
    proof { lemma_others_unreserved(entries@); }
    Ok(LogRecord { v, level, name, hostname, pid, time, message, extras })
}

proof fn lemma_others_unreserved(entries: Seq<(String, JsonField)>)
    ensures
        forall|i: int| 0 <= i < others(entries).len() ==> !is_reserved(#[trigger] others(entries)[i].0@),
    decreases entries.len(),
{
    if entries.len() > 0 {
        let prev = others(entries.drop_last());
        lemma_others_unreserved(entries.drop_last());
        assert forall|i: int| 0 <= i < others(entries).len() implies !is_reserved(
            #[trigger] others(entries)[i].0@,
        ) by {
            if i < prev.len() {
                assert(others(entries)[i] == prev[i]);
            }
        }
    }
}


#[verifier::external_type_specification]
#[verifier::external_body]
pub struct ExJsonValue(serde_json::Value);

#[verifier::external_type_specification]
#[verifier::external_body]
pub struct ExJsonNumber(serde_json::Number);

/// Whether serde_json reads `s` as the text of one JSON object.
pub uninterp spec fn is_json_object(s: Seq<char>) -> bool;

/// The fields serde_json reads in the JSON object `s`, in its map's order.
pub uninterp spec fn object_entries(s: Seq<char>) -> Seq<(String, JsonField)>;

/// No two fields share a key.
pub open spec fn keys_unique(entries: Seq<(String, JsonField)>) -> bool {
    forall|i: int, j: int|
        0 <= i < j < entries.len() ==> #[trigger] entries[i].0@ != #[trigger] entries[j].0@
}

/// Relies on serde_json::from_str into a Map, its IntoIterator and Error's
/// Display: succeeds exactly on the text of one JSON object, whose fields come
/// out once per key, each value with its kind and pretty text; else the diagnostic.
#[verifier::external_body]
fn parse_fields(line: &str) -> (r: Result<Vec<(String, JsonField)>, String>)
    ensures
        r is Ok == is_json_object(line@),
        r matches Ok(v) ==> v@ == object_entries(line@) && keys_unique(v@),
{
    let m: serde_json::Map<String, serde_json::Value> = serde_json::from_str(line).map_err(
        |e| e.to_string(),
    )?;
    Ok(m.into_iter().map(|(k, v)| (k, JsonField { kind: value_kind(&v), pretty: pretty_json(&v) })).collect())
}

/// Relies on serde_json::to_string_pretty: the value serialized with two-space indentation.
#[verifier::external_body]
fn pretty_json(v: &serde_json::Value) -> (r: String) {
    serde_json::to_string_pretty(v).unwrap_or_default()
}

/// Relies on serde_json::Number's as_i64 and as_u64: the integer a number holds, if any.
#[verifier::external_body]
fn number_kind(n: &serde_json::Number) -> (r: JsonKind)
    ensures
        r is Integer || r is Fraction,
{
    match (n.as_i64(), n.as_u64()) {
        (Some(i), _) => JsonKind::Integer(i as i128),
        (None, Some(u)) => JsonKind::Integer(u as i128),
        (None, None) => JsonKind::Fraction,
    }
}

/// Relies on serde_json::Value's variants: which kind of value this is.
#[verifier::external_body]
fn value_kind(v: &serde_json::Value) -> (r: JsonKind) {
    match v {
        serde_json::Value::Null => JsonKind::Null,
        serde_json::Value::Bool(b) => JsonKind::Bool(*b),
        serde_json::Value::Number(n) => number_kind(n),
        serde_json::Value::String(s) => JsonKind::Text(s.clone()),
        serde_json::Value::Array(_) => JsonKind::Array,
        serde_json::Value::Object(_) => JsonKind::Object,
    }
}

impl LogRecord {
    /// Decodes one line: it must be a JSON object whose fields `decode_fields` accepts.
    pub fn decode(line: &str) -> (r: Result<LogRecord, DecodeError>)
        ensures
            !is_json_object(line@) ==> r is Err && r->Err_0 is MalformedJson,
            is_json_object(line@) ==> decoded(object_entries(line@), r),
            r matches Ok(rec) ==> rec.wf() && keys_unique(rec.extras@),
    {
        match parse_fields(line) {
            Err(e) => Err(DecodeError::MalformedJson(e)),
            Ok(entries) => {
                let r = decode_fields(&entries);
                proof {
                    if r is Ok {
                        lemma_others_unique(entries@);
                    }
                }
                r
            },
        }
    }
}

/// `name/pid on hostname`, leaving out whichever of name and hostname is absent.
pub open spec fn origin(name: Option<Seq<char>>, pid: Seq<char>, hostname: Option<Seq<char>>) -> Seq<char> {
    let head = match name {
        Some(n) => n + seq!['/'] + pid,
        None => pid,
    };
    match hostname {
        Some(h) => head + seq![' ', 'o', 'n', ' '] + h,
        None => head,
    }
}

pub open spec fn record_origin(rec: LogRecord) -> Seq<char> {
    let pid = match rec.pid {
        Some(p) => p as nat,
        None => 0,
    };
    origin(opt_view(rec.name), decimal(pid), opt_view(rec.hostname))
}

/// `[time] level: origin: message` and the extras.
pub open spec fn line_text(
    time: Seq<char>,
    level: Seq<char>,
    from: Seq<char>,
    message: Seq<char>,
    extras: Seq<char>,
) -> Seq<char> {
    seq!['['] + time + seq![']', ' '] + level + seq![':', ' '] + from + seq![':', ' '] + message + extras
}

/// The line without styling.
pub open spec fn plain_line(rec: LogRecord, time: Seq<char>) -> Seq<char> {
    line_text(
        time,
        plain_token(rec.level),
        record_origin(rec),
        rec.message@,
        extras_text(field_keys(rec.extras@), field_values(rec.extras@)),
    )
}

/// `out` is the line of `rec` with the time shown as `time`: the level token,
/// message (cyan) and extras keys (bold) styled when `enabled`.
pub open spec fn line_rendered(rec: LogRecord, time: Seq<char>, enabled: bool, out: Seq<char>) -> bool {
    exists|level: Seq<char>, message: Seq<char>, extras: Seq<char>|
        level_shown(rec.level, enabled, level) && (!has_escape(rec.message@) ==> shown(
            enabled,
            Style::Cyan,
            rec.message@,
            message,
        )) && extras_rendered(rec.extras@, enabled, extras) && #[trigger] line_text(
            time,
            level,
            record_origin(rec),
            message,
            extras,
        ) == out
}

/// Relies on chrono's DateTime::with_timezone(&Local) and to_rfc3339_opts: the
/// instant in the machine's time zone, with milliseconds and `Z` for UTC. The
/// result depends on the machine's zone data, and chrono writes the offset to
/// the minute, so a zone whose offset has seconds does not read back to `ms`:
/// nothing is stated of it.
#[verifier::external_body]
fn local_text(ms: i64) -> (r: String)
    requires
        MIN_MILLIS + DAY_MILLIS <= ms <= MAX_MILLIS - DAY_MILLIS,
{
    match Utc.timestamp_millis_opt(ms).single() {
        Some(t) => t.with_timezone(&Local).to_rfc3339_opts(SecondsFormat::Millis, true),
        None => String::new(),
    }
}

/// The RFC 3339 text, with milliseconds and `Z`, of an instant in UTC.
pub uninterp spec fn utc_rfc3339(ms: int) -> Seq<char>;

/// Relies on chrono's DateTime<Utc>::to_rfc3339_opts: the instant in UTC, with
/// milliseconds and `Z`.
#[verifier::external_body]
fn utc_text(ms: i64) -> (r: String)
    requires
        millis_in_range(ms as int),
    ensures
        r@ == utc_rfc3339(ms as int),
{
    match Utc.timestamp_millis_opt(ms).single() {
        Some(t) => t.to_rfc3339_opts(SecondsFormat::Millis, true),
        None => String::new(),
    }
}

impl LogRecord {
    /// Renders the record with its time shown as `time`.
    pub fn render(&self, time: &str, use_color: bool) -> (r: String)
        ensures
            line_rendered(*self, time@, use_color, r@),
            !use_color ==> r@ == plain_line(*self, time@),
    {
        let level = level_token(self.level, use_color);
        let pid: u32 = match self.pid {
            Some(p) => p,
            None => 0,
        };
        let digits = decimal_text(pid as u64);
        let mut from = String::new();
        match &self.name {
            Some(n) => {
                from.append(n.as_str());
                from.append("/");
            },
            None => {},
        }
        from.append(digits.as_str());
        match &self.hostname {
            Some(h) => {
                from.append(" on ");
                from.append(h.as_str());
            },
            None => {},
        }
        proof {
            reveal_strlit("/");
            reveal_strlit(" on ");
            reveal_strlit("[");
            reveal_strlit("] ");
            reveal_strlit(": ");
        }
        assert(from@ =~= record_origin(*self));
        let message = paint(self.message.as_str(), Style::Cyan, use_color);
        let extras = format_extras(&self.extras, use_color);
        let mut r = String::from_str("[");
        r.append(time);
        r.append("] ");
        r.append(level.as_str());
        r.append(": ");
        r.append(from.as_str());
        r.append(": ");
        r.append(message.as_str());
        r.append(extras.as_str());
        assert(r@ =~= line_text(time@, level@, record_origin(*self), message@, extras@));
        r
    }

    /// Renders the record with its time in the machine's time zone (in UTC
    /// within a day of the ends of chrono's range, where an offset could leave it).
    pub fn format(&self, use_color: bool) -> (r: String)
        requires
            self.wf(),
        ensures
            exists|time: Seq<char>| #[trigger] line_rendered(*self, time, use_color, r@),
            !use_color ==> exists|time: Seq<char>| #[trigger] plain_line(*self, time) == r@,
    {
        let time = if MIN_MILLIS + DAY_MILLIS <= self.time && self.time <= MAX_MILLIS - DAY_MILLIS {
            local_text(self.time)
        } else {
            utc_text(self.time)
        };
        self.render(time.as_str(), use_color)
    }

    /// Renders the record with its time in UTC.
    pub fn format_utc(&self, use_color: bool) -> (r: String)
        requires
            self.wf(),
        ensures
            line_rendered(*self, utc_rfc3339(self.time as int), use_color, r@),
            !use_color ==> r@ == plain_line(*self, utc_rfc3339(self.time as int)),
    {
        let time = utc_text(self.time);
        self.render(time.as_str(), use_color)
    }
}


/// Rendering in UTC without color is a function of the record: two results
/// of `format_utc(false)` on one record are the same characters.
pub proof fn lemma_format_utc_repeatable(rec: LogRecord, a: Seq<char>, b: Seq<char>)
    requires
        a == plain_line(rec, utc_rfc3339(rec.time as int)),
        b == plain_line(rec, utc_rfc3339(rec.time as int)),
    ensures
        a == b,
{
}

proof fn lemma_others_within(entries: Seq<(String, JsonField)>)
    ensures
        forall|i: int|
            0 <= i < others(entries).len() ==> exists|j: int|
                0 <= j < entries.len() && #[trigger] others(entries)[i] == #[trigger] entries[j],
    decreases entries.len(),
{
    if entries.len() > 0 {
        let prev = others(entries.drop_last());
        lemma_others_within(entries.drop_last());
        assert forall|i: int| 0 <= i < others(entries).len() implies exists|j: int|
            0 <= j < entries.len() && #[trigger] others(entries)[i] == #[trigger] entries[j] by {
            if i < prev.len() {
                assert(others(entries)[i] == prev[i]);
                let j = choose|j: int| 0 <= j < entries.drop_last().len() && prev[i] == entries.drop_last()[j];
                assert(entries[j] == entries.drop_last()[j]);
            } else {
                assert(others(entries)[i] == entries[entries.len() - 1]);
            }
        }
    }
}

proof fn lemma_others_unique(entries: Seq<(String, JsonField)>)
    requires
        keys_unique(entries),
    ensures
        keys_unique(others(entries)),
    decreases entries.len(),
{
    if entries.len() > 0 {
        let d = entries.drop_last();
        let prev = others(d);
        let o = others(entries);
        assert(keys_unique(d)) by {
            assert forall|i: int, j: int| 0 <= i < j < d.len() implies #[trigger] d[i].0@ != #[trigger] d[j].0@ by {
                assert(d[i] == entries[i] && d[j] == entries[j]);
            }
        }
        lemma_others_unique(d);
        lemma_others_within(d);
        assert forall|i: int, j: int| 0 <= i < j < o.len() implies #[trigger] o[i].0@ != #[trigger] o[j].0@ by {
            if j < prev.len() {
                assert(o[i] == prev[i] && o[j] == prev[j]);
            } else {
                assert(o[i] == prev[i]);
                assert(o[j] == entries.last());
                let k = choose|k: int| 0 <= k < d.len() && prev[i] == d[k];
                assert(d[k] == entries[k]);
            }
        }
    }
}

} // verus!
