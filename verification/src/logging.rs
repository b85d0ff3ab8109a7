//! Log levels, formats and the pure parts of the structured logger: which
//! entries are emitted and how a logfmt value is quoted.

use vstd::prelude::*;
use crate::json::{json_text, lemma_view_entries, object_insert_all, object_insert_exec, view_entries, Json, JsonValue};
use crate::text::{contains_seq, decimal, lowercase, str_contains, str_eq, strings_view, to_lowercase, trim, trim_str};

verus! {

/// Log levels for probe diagnostics.
#[derive(Clone, Copy, Debug, PartialEq, Eq, Structural)]
pub enum LogLevel {
    Debug,
    Info,
    Warn,
    Error,
}

/// The level a (trimmed, lower-cased) name selects.
pub open spec fn log_level_from_name(v: Seq<char>) -> Option<LogLevel> {
    if v == "debug"@ {
        Some(LogLevel::Debug)
    } else if v == "info"@ {
        Some(LogLevel::Info)
    } else if v == "warn"@ || v == "warning"@ {
        Some(LogLevel::Warn)
    } else if v == "error"@ {
        Some(LogLevel::Error)
    } else {
        None
    }
}

/// The numeric severity of a level.
pub open spec fn level_rank(l: LogLevel) -> u8 {
    match l {
        LogLevel::Debug => 10,
        LogLevel::Info => 20,
        LogLevel::Warn => 30,
        LogLevel::Error => 40,
    }
}

/// The wire name of a level.
pub open spec fn log_level_name(l: LogLevel) -> Seq<char> {
    match l {
        LogLevel::Debug => "debug"@,
        LogLevel::Info => "info"@,
        LogLevel::Warn => "warn"@,
        LogLevel::Error => "error"@,
    }
}

impl LogLevel {
    /// Parse a log level string (debug|info|warn|error), ignoring case and
    /// surrounding whitespace.
    pub fn parse(value: &str) -> (r: Option<LogLevel>)
        ensures
            r == log_level_from_name(lowercase(trim(value@))),
    {
        let t = trim_str(value);
        let v = to_lowercase(t.as_str());
        let v = v.as_str();
        if str_eq(v, "debug") {
            Some(LogLevel::Debug)
        } else if str_eq(v, "info") {
            Some(LogLevel::Info)
        } else if str_eq(v, "warn") || str_eq(v, "warning") {
            Some(LogLevel::Warn)
        } else if str_eq(v, "error") {
            Some(LogLevel::Error)
        } else {
            None
        }
    }

    /// The numeric severity of the level.
    pub fn level_value(self) -> (r: u8)
        ensures
            r == level_rank(self),
    {
        match self {
            LogLevel::Debug => 10,
            LogLevel::Info => 20,
            LogLevel::Warn => 30,
            LogLevel::Error => 40,
        }
    }

    /// The wire name of the level.
    pub fn as_str(self) -> (r: &'static str)
        ensures
            r@ == log_level_name(self),
    {
        match self {
            LogLevel::Debug => "debug",
            LogLevel::Info => "info",
            LogLevel::Warn => "warn",
            LogLevel::Error => "error",
        }
    }
}

/// Output format for probe logs.
#[derive(Clone, Copy, Debug, PartialEq, Eq, Structural)]
pub enum LogFormat {
    Json,
    Logfmt,
}

/// The format a (trimmed, lower-cased) name selects.
pub open spec fn log_format_from_name(v: Seq<char>) -> Option<LogFormat> {
    if v == "json"@ {
        Some(LogFormat::Json)
    } else if v == "logfmt"@ || v == "text"@ {
        Some(LogFormat::Logfmt)
    } else {
        None
    }
}

impl LogFormat {
    /// Parse a log format string (json|logfmt|text), ignoring case and
    /// surrounding whitespace.
    pub fn parse(value: &str) -> (r: Option<LogFormat>)
        ensures
            r == log_format_from_name(lowercase(trim(value@))),
    {
        let t = trim_str(value);
        let v = to_lowercase(t.as_str());
        let v = v.as_str();
        if str_eq(v, "json") {
            Some(LogFormat::Json)
        } else if str_eq(v, "logfmt") || str_eq(v, "text") {
            Some(LogFormat::Logfmt)
        } else {
            None
        }
    }
}

/// The level and format of a structured logger; the sink it writes to is
/// held by the caller.
pub struct Logger {
    pub level: LogLevel,
    pub format: LogFormat,
}

impl Logger {
    /// Create a logger at `level` writing `format`.
    pub fn new(level: LogLevel, format: LogFormat) -> (r: Logger)
        ensures
            r.level == level,
            r.format == format,
    {
        Logger { level, format }
    }

    /// Return true when entries at `level` should be emitted.
    pub fn enabled(&self, level: LogLevel) -> (r: bool)
        ensures
            r == (level_rank(level) >= level_rank(self.level)),
    {
        level.level_value() >= self.level.level_value()
    }
}

/// `s` with every `"` replaced by `\"`.
pub open spec fn escape_quotes(s: Seq<char>) -> Seq<char>
    decreases s.len(),
{
    if s.len() == 0 {
        Seq::empty()
    } else {
        escape_quotes(s.drop_last()) + if s.last() == '"' {
            seq!['\\', '"']
        } else {
            seq![s.last()]
        }
    }
}

/// A logfmt value: quoted (with inner quotes escaped) when it holds a space,
/// a quote or an equals sign, and kept as it is otherwise.
pub open spec fn logfmt_value(v: Seq<char>) -> Seq<char> {
    if contains_seq(v, seq![' ']) || contains_seq(v, seq!['"']) || contains_seq(v, seq!['=']) {
        seq!['"'] + escape_quotes(v) + seq!['"']
    } else {
        v
    }
}

/// Quote a value for logfmt output.
pub fn escape_logfmt(value: &str) -> (r: String)
    ensures
        r@ == logfmt_value(value@),
{
    proof {
        reveal_strlit(" ");
        reveal_strlit("\"");
        reveal_strlit("=");
        assert(" "@ =~= seq![' ']);
        assert("\""@ =~= seq!['"']);
        assert("="@ =~= seq!['=']);
    }
    if str_contains(value, " ") || str_contains(value, "\"") || str_contains(value, "=") {
        let cs = crate::text::chars_of(value);
        let mut out: Vec<char> = Vec::new();
        out.push('"');
        let mut i: usize = 0;
        while i < cs.len()
            invariant
                i <= cs@.len(),
                out@ == seq!['"'] + escape_quotes(cs@.subrange(0, i as int)),
            decreases cs@.len() - i,
        {
            let c = cs[i];
            proof {
                assert(cs@.subrange(0, i + 1).drop_last() =~= cs@.subrange(0, i as int));
            }
            if c == '"' {
                out.push('\\');
                out.push('"');
            } else {
                out.push(c);
            }
            proof {
                assert(out@ =~= seq!['"'] + escape_quotes(cs@.subrange(0, i + 1)));
            }
            i = i + 1;
        }
        out.push('"');
        proof {
            assert(cs@.subrange(0, cs@.len() as int) =~= cs@);
        }
        crate::text::string_of(&out)
    } else {
        String::from_str(value)
    }
}


/// The extra members of a log entry: an object's members, or any other
/// value under `data`.
pub open spec fn extra_members(extra: Option<Json>) -> Seq<(Seq<char>, Json)> {
    match extra {
        Some(Json::Object(m)) => m,
        Some(other) => seq![("data"@, other)],
        None => Seq::empty(),
    }
}

/// A JSON log entry: `level`, `msg` and `ts`, then the extra members
/// inserted over them, as compact JSON.
pub open spec fn json_entry(timestamp: u128, level: LogLevel, message: Seq<char>, extra: Option<Json>) -> Seq<char> {
    json_text(
        Json::Object(
            object_insert_all(
                seq![
                    ("level"@, Json::Str(log_level_name(level))),
                    ("msg"@, Json::Str(message)),
                    ("ts"@, Json::Number(decimal(timestamp as nat))),
                ],
                extra_members(extra),
            ),
        ),
    )
}

fn extra_entries(extra: Option<JsonValue>) -> (r: Vec<(String, JsonValue)>)
    ensures
        view_entries(r@) == extra_members(
            match extra {
                Some(v) => Some(v@),
                None => None,
            },
        ),
{
    match extra {
        Some(JsonValue::Object(m)) => m,
        Some(other) => {
            let mut v: Vec<(String, JsonValue)> = Vec::new();
            let ghost ov = other@;
            v.push((String::from_str("data"), other));
            proof {
                lemma_view_entries(v@);
                assert(view_entries(v@) =~= seq![("data"@, ov)]);
            }
            v
        },
        None => {
            let v: Vec<(String, JsonValue)> = Vec::new();
            assert(view_entries(v@) =~= Seq::<(Seq<char>, Json)>::empty());
            v
        },
    }
}

/// Format a JSON log entry.
pub fn format_json(timestamp: u128, level: LogLevel, message: &str, extra: Option<JsonValue>) -> (r: String)
    ensures
        r@ == json_entry(
            timestamp,
            level,
            message@,
            match extra {
                Some(v) => Some(v@),
                None => None,
            },
        ),
{
    let mut m: Vec<(String, JsonValue)> = Vec::new();
    m.push((String::from_str("level"), JsonValue::String(String::from_str(level.as_str()))));
    m.push((String::from_str("msg"), JsonValue::String(String::from_str(message))));
    m.push((String::from_str("ts"), JsonValue::Number(crate::text::fmt_u128(timestamp))));
    proof {
        lemma_view_entries(m@);
        assert(view_entries(m@) =~= seq![
            ("level"@, Json::Str(log_level_name(level))),
            ("msg"@, Json::Str(message@)),
            ("ts"@, Json::Number(decimal(timestamp as nat))),
        ]);
    }
    let extras = extra_entries(extra);
    let ghost start = view_entries(m@);
    let ghost ev = view_entries(extras@);
    proof {
        lemma_view_entries(extras@);
        assert(ev.subrange(0, 0) =~= Seq::<(Seq<char>, Json)>::empty());
    }
    let mut i: usize = 0;
    while i < extras.len()
        invariant
            i <= extras@.len(),
            ev == view_entries(extras@),
            ev.len() == extras@.len(),
            forall|k: int| 0 <= k < extras@.len() ==> #[trigger] ev[k] == (extras@[k].0@, extras@[k].1@),
            view_entries(m@) == object_insert_all(start, ev.subrange(0, i as int)),
        decreases extras@.len() - i,
    {
        proof {
            let pre = ev.subrange(0, i + 1);
            assert(pre.drop_last() =~= ev.subrange(0, i as int));
            assert(pre.last() == ev[i as int]);
        }
        object_insert_exec(&mut m, extras[i].0.clone(), extras[i].1.deep_clone());
        i = i + 1;
    }
    proof {
        assert(ev.subrange(0, i as int) =~= ev);
    }
    JsonValue::Object(m).to_json_text()
}

/// The logfmt fields of the extra members: `key=value` with each value's
/// compact JSON, quoted as logfmt needs; any other value as `data`.
pub open spec fn extra_fields(extra: Option<Json>) -> Seq<Seq<char>> {
    match extra {
        Some(Json::Object(m)) => m.map_values(|e: (Seq<char>, Json)| e.0 + "="@ + logfmt_value(json_text(e.1))),
        Some(other) => seq!["data="@ + logfmt_value(json_text(other))],
        None => Seq::empty(),
    }
}

/// A logfmt log entry: `ts`, `level`, `msg`, then the extra fields,
/// separated by spaces.
pub open spec fn logfmt_entry(timestamp: u128, level: LogLevel, message: Seq<char>, extra: Option<Json>) -> Seq<char> {
    crate::text::join_with(
        seq![
            "ts="@ + decimal(timestamp as nat),
            "level="@ + log_level_name(level),
            "msg="@ + logfmt_value(message),
        ] + extra_fields(extra),
        " "@,
    )
}

/// Format a logfmt log entry.
pub fn format_logfmt(timestamp: u128, level: LogLevel, message: &str, extra: Option<JsonValue>) -> (r: String)
    ensures
        r@ == logfmt_entry(
            timestamp,
            level,
            message@,
            match extra {
                Some(v) => Some(v@),
                None => None,
            },
        ),
{
    let ghost xv = match &extra {
        Some(v) => Some(v@),
        None => None,
    };
    let mut parts: Vec<String> = Vec::new();
    parts.push(crate::text::concat2("ts=", crate::text::fmt_u128(timestamp).as_str()));
    parts.push(crate::text::concat2("level=", level.as_str()));
    parts.push(crate::text::concat2("msg=", escape_logfmt(message).as_str()));
    let ghost head = strings_view(parts@);
    proof {
        assert(head =~= seq![
            "ts="@ + decimal(timestamp as nat),
            "level="@ + log_level_name(level),
            "msg="@ + logfmt_value(message@),
        ]);
    }
    match extra {
        Some(JsonValue::Object(m)) => {
            let ghost mv = view_entries(m@);
            proof {
                lemma_view_entries(m@);
            }
            let mut i: usize = 0;
            while i < m.len()
                invariant
                    i <= m@.len(),
                    mv == view_entries(m@),
                    mv.len() == m@.len(),
                    forall|k: int| 0 <= k < m@.len() ==> #[trigger] mv[k] == (m@[k].0@, m@[k].1@),
                    strings_view(parts@) == head + mv.take(i as int).map_values(
                        |e: (Seq<char>, Json)| e.0 + "="@ + logfmt_value(json_text(e.1)),
                    ),
                decreases m@.len() - i,
            {
                let text = m[i].1.to_json_text();
                let field = crate::text::concat3(m[i].0.as_str(), "=", escape_logfmt(text.as_str()).as_str());
                let ghost before = strings_view(parts@);
                parts.push(field);
                proof {
                    assert(strings_view(parts@) =~= before.push(field@));
                    assert(mv.take(i + 1) =~= mv.take(i as int).push(mv[i as int]));
                    assert(strings_view(parts@) =~= head + mv.take(i + 1).map_values(
                        |e: (Seq<char>, Json)| e.0 + "="@ + logfmt_value(json_text(e.1)),
                    ));
                }
                i = i + 1;
            }
            proof {
                assert(mv.take(i as int) =~= mv);
            }
        },
        Some(other) => {
            let text = other.to_json_text();
            let field = crate::text::concat2("data=", escape_logfmt(text.as_str()).as_str());
            let ghost before = strings_view(parts@);
            parts.push(field);
            proof {
                assert(strings_view(parts@) =~= before.push(field@));
            }
        },
        None => {},
    }
    proof {
        assert(strings_view(parts@) =~= seq![
            "ts="@ + decimal(timestamp as nat),
            "level="@ + log_level_name(level),
            "msg="@ + logfmt_value(message@),
        ] + extra_fields(xv));
    }
    crate::text::join_strings(parts.as_slice(), " ")
}

impl Logger {
    /// The line a log entry is written as, in the logger's format, when
    /// its level is enabled; `message` and `extra` as already sanitized.
    pub fn format_entry(&self, timestamp: u128, level: LogLevel, message: &str, extra: Option<JsonValue>) -> (r:
        Option<String>)
        ensures
            match r {
                Some(line) => level_rank(level) >= level_rank(self.level) && line@ == match self.format {
                    LogFormat::Json => json_entry(
                        timestamp,
                        level,
                        message@,
                        match extra {
                            Some(v) => Some(v@),
                            None => None,
                        },
                    ),
                    LogFormat::Logfmt => logfmt_entry(
                        timestamp,
                        level,
                        message@,
                        match extra {
                            Some(v) => Some(v@),
                            None => None,
                        },
                    ),
                },
                None => level_rank(level) < level_rank(self.level),
            },
    {
        if !self.enabled(level) {
            return None;
        }
        match self.format {
            LogFormat::Json => Some(format_json(timestamp, level, message, extra)),
            LogFormat::Logfmt => Some(format_logfmt(timestamp, level, message, extra)),
        }
    }
}

} // verus!
