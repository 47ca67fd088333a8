//! Log levels, ordered by increasing severity, with their names and numbers.

use std::cmp::Ordering;
use vstd::prelude::*;

use crate::text::{
    append_decimal, ascii_lowercase, decimal_text, to_lowercase, unicode_lowercase,
};

verus! {

/// Log level.
#[derive(Debug, Clone, Copy, PartialEq, Eq, Structural, Ord)]
pub enum LogLevel {
    /// Verbose debug information.
    Trace,
    /// Debug information.
    Debug,
    /// Informational messages.
    Info,
    /// Warning messages.
    Warning,
    /// Error messages.
    Error,
}

/// The level that a lowercase name denotes, if any.
pub open spec fn level_named(name: Seq<char>) -> Option<LogLevel> {
    if name == "trace"@ {
        Some(LogLevel::Trace)
    } else if name == "debug"@ {
        Some(LogLevel::Debug)
    } else if name == "info"@ {
        Some(LogLevel::Info)
    } else if name == "warning"@ || name == "warn"@ {
        Some(LogLevel::Warning)
    } else if name == "error"@ || name == "err"@ {
        Some(LogLevel::Error)
    } else {
        None
    }
}

/// Three-way comparison of two numbers.
pub open spec fn compare_numbers(a: nat, b: nat) -> Ordering {
    if a < b {
        Ordering::Less
    } else if a == b {
        Ordering::Equal
    } else {
        Ordering::Greater
    }
}

impl LogLevel {
    /// The severity of a level: 0 for trace up to 4 for error.
    pub open spec fn severity(self) -> nat {
        match self {
            Self::Trace => 0,
            Self::Debug => 1,
            Self::Info => 2,
            Self::Warning => 3,
            Self::Error => 4,
        }
    }

    /// The name of a level.
    pub open spec fn name(self) -> Seq<char> {
        match self {
            Self::Trace => "TRACE"@,
            Self::Debug => "DEBUG"@,
            Self::Info => "INFO"@,
            Self::Warning => "WARNING"@,
            Self::Error => "ERROR"@,
        }
    }

    /// The name of this log level.
    pub fn as_str(&self) -> (r: &'static str)
        ensures
            r@ == self.name(),
    {
        match self {
            Self::Trace => "TRACE",
            Self::Debug => "DEBUG",
            Self::Info => "INFO",
            Self::Warning => "WARNING",
            Self::Error => "ERROR",
        }
    }

    /// The name of this log level, as a new string.
    pub fn to_string(&self) -> (r: String)
        ensures
            r@ == self.name(),
    {
        String::from_str(self.as_str())
    }

    /// The numeric severity of this log level; higher is more severe.
    pub fn as_number(&self) -> (r: u8)
        ensures
            r == self.severity(),
    {
        match self {
            Self::Trace => 0,
            Self::Debug => 1,
            Self::Info => 2,
            Self::Warning => 3,
            Self::Error => 4,
        }
    }

    /// Whether this log level is at least as severe as the given level.
    pub fn is_at_least(&self, level: LogLevel) -> (r: bool)
        ensures
            r == (self.severity() >= level.severity()),
    {
        self.as_number() >= level.as_number()
    }

    /// The level that a lowercase name denotes: `trace`, `debug`, `info`, `warning` or
    /// `warn`, `error` or `err`.
    pub fn from_lowercase_name(name: &str) -> (r: Result<LogLevel, ()>)
        ensures
            match r {
                Ok(l) => level_named(name@) == Some(l),
                Err(()) => level_named(name@) is None,
            },
    {
        let n = String::from_str(name);
        if n == String::from_str("trace") {
            Ok(Self::Trace)
        } else if n == String::from_str("debug") {
            Ok(Self::Debug)
        } else if n == String::from_str("info") {
            Ok(Self::Info)
        } else if n == String::from_str("warning") || n == String::from_str("warn") {
            Ok(Self::Warning)
        } else if n == String::from_str("error") || n == String::from_str("err") {
            Ok(Self::Error)
        } else {
            Err(())
        }
    }

    /// Parse a level name, ignoring case.
    pub fn from_str(s: &str) -> (r: Result<LogLevel, ()>)
        ensures
            match r {
                Ok(l) => level_named(unicode_lowercase(s@)) == Some(l),
                Err(()) => level_named(unicode_lowercase(s@)) is None,
            },
    {
        let lower = to_lowercase(s);
        Self::from_lowercase_name(lower.as_str())
    }
}

impl PartialOrd for LogLevel {
    fn partial_cmp(&self, other: &Self) -> (r: Option<Ordering>) {
        let a = self.as_number();
        let b = other.as_number();
        if a < b {
            Some(Ordering::Less)
        } else if a == b {
            Some(Ordering::Equal)
        } else {
            Some(Ordering::Greater)
        }
    }
}

impl vstd::std_specs::cmp::PartialOrdSpecImpl for LogLevel {
    open spec fn obeys_partial_cmp_spec() -> bool {
        true
    }

    open spec fn partial_cmp_spec(&self, other: &Self) -> Option<Ordering> {
        Some(compare_numbers(self.severity(), other.severity()))
    }
}

impl core::str::FromStr for LogLevel {
    type Err = ();

    fn from_str(s: &str) -> (r: Result<Self, Self::Err>)
        ensures
            match r {
                Ok(l) => level_named(unicode_lowercase(s@)) == Some(l),
                Err(()) => level_named(unicode_lowercase(s@)) is None,
            },
    {
        LogLevel::from_str(s)
    }
}

/// Each level's name, lowercased, names the level again.
pub proof fn lemma_name_round_trip(level: LogLevel)
    ensures
        level_named(ascii_lowercase(level.name())) == Some(level),
{
    reveal_strlit("TRACE");
    reveal_strlit("DEBUG");
    reveal_strlit("INFO");
    reveal_strlit("WARNING");
    reveal_strlit("ERROR");
    reveal_strlit("trace");
    reveal_strlit("debug");
    reveal_strlit("info");
    reveal_strlit("warning");
    reveal_strlit("warn");
    reveal_strlit("error");
    reveal_strlit("err");
    match level {
        LogLevel::Trace => {
            assert(ascii_lowercase(level.name()) =~= "trace"@);
            assert(level_named("trace"@) == Some(level));
        },
        LogLevel::Debug => {
            assert(ascii_lowercase(level.name()) =~= "debug"@);
            assert("debug"@[0] != "trace"@[0]);
            assert(level_named("debug"@) == Some(level));
        },
        LogLevel::Info => {
            assert(ascii_lowercase(level.name()) =~= "info"@);
            assert(level_named("info"@) == Some(level));
        },
        LogLevel::Warning => {
            assert(ascii_lowercase(level.name()) =~= "warning"@);
            assert(level_named("warning"@) == Some(level));
        },
        LogLevel::Error => {
            assert(ascii_lowercase(level.name()) =~= "error"@);
            assert("error"@[0] != "trace"@[0]);
            assert("error"@[0] != "debug"@[0]);
            assert("error"@[0] != "info"@[0]);
            assert("error"@[0] != "warning"@[0]);
            assert("error"@[0] != "warn"@[0]);
            assert(level_named("error"@) == Some(level));
        },
    }
}

/// Distinct levels have distinct severities, so severity orders the levels totally.
pub proof fn lemma_severity_injective(a: LogLevel, b: LogLevel)
    requires
        a.severity() == b.severity(),
    ensures
        a == b,
{
}

/// The fields of an event, each as `key=value`, joined by spaces.
pub open spec fn fields_text(fields: Seq<(Seq<char>, Seq<char>)>) -> Seq<char>
    decreases fields.len(),
{
    if fields.len() == 0 {
        Seq::empty()
    } else if fields.len() == 1 {
        fields[0].0 + "="@ + fields[0].1
    } else {
        fields_text(fields.drop_last()) + " "@ + fields.last().0 + "="@ + fields.last().1
    }
}

/// The line logged for an event: the module path in brackets, the message, and where there
/// are fields, a colon and the fields.
pub open spec fn event_line(
    module: Seq<char>,
    message: Seq<char>,
    fields: Seq<(Seq<char>, Seq<char>)>,
) -> Seq<char> {
    if fields.len() == 0 {
        "["@ + module + "] "@ + message
    } else {
        "["@ + module + "] "@ + message + ": "@ + fields_text(fields)
    }
}

/// Appends fields as `key=value` items separated by spaces.
fn append_fields(r: &mut String, fields: &Vec<(String, String)>)
    ensures
        final(r)@ == old(r)@ + fields_text(fields@.map_values(|f: (String, String)| (f.0@, f.1@))),
{
    let ghost fs = fields@.map_values(|f: (String, String)| (f.0@, f.1@));
    let ghost head = r@;
    let mut i: usize = 0;
    while i < fields.len()
        invariant
            i <= fields@.len(),
            fs == fields@.map_values(|f: (String, String)| (f.0@, f.1@)),
            r@ == head + fields_text(fs.take(i as int)),
        decreases fields@.len() - i,
    {
        let ghost prefix = fs.take(i as int);
        if i > 0 {
            r.append(" ");
        }
        r.append(fields[i].0.as_str());
        r.append("=");
        r.append(fields[i].1.as_str());
        proof {
            let next = fs.take(i + 1);
            assert(next.drop_last() =~= prefix);
            assert(next.last() == fs[i as int]);
            if i == 0 {
                assert(prefix =~= Seq::empty());
                assert(r@ =~= head + fields_text(next));
            } else {
                assert(r@ =~= head + (fields_text(prefix) + " "@ + fs[i as int].0 + "="@
                    + fs[i as int].1));
            }
        }
        i = i + 1;
    }
    assert(fs.take(i as int) =~= fs);
}

/// The line to log for an event of a module, with its fields.
pub fn event_message(module: &str, message: &str, fields: &Vec<(String, String)>) -> (r:
    String)
    ensures
        r@ == event_line(
            module@,
            message@,
            fields@.map_values(|f: (String, String)| (f.0@, f.1@)),
        ),
{
    let mut r = String::from_str("[");
    r.append(module);
    r.append("] ");
    r.append(message);
    if fields.len() > 0 {
        r.append(": ");
        append_fields(&mut r, fields);
    }
    r
}

/// The formatted text of a log record: the timestamp's text, the level in brackets, the
/// message, the file and line in brackets, and where there is metadata, a dash and the
/// metadata as `key=value` items.
pub open spec fn record_line(
    timestamp: Seq<char>,
    level: LogLevel,
    message: Seq<char>,
    file: Seq<char>,
    line: nat,
    metadata: Seq<(Seq<char>, Seq<char>)>,
) -> Seq<char> {
    let base = timestamp + " ["@ + level.name() + "] - "@ + message + " ["@ + file + ":"@
        + decimal_text(line) + "]"@;
    if metadata.len() == 0 {
        base
    } else {
        base + " - "@ + fields_text(metadata)
    }
}

/// The formatted text of a log record whose timestamp is already rendered as text.
pub fn record_text(
    timestamp: &str,
    level: LogLevel,
    message: &str,
    file: &str,
    line: u32,
    metadata: &Vec<(String, String)>,
) -> (r: String)
    ensures
        r@ == record_line(
            timestamp@,
            level,
            message@,
            file@,
            line as nat,
            metadata@.map_values(|f: (String, String)| (f.0@, f.1@)),
        ),
{
    let mut r = String::from_str(timestamp);
    r.append(" [");
    r.append(level.as_str());
    r.append("] - ");
    r.append(message);
    r.append(" [");
    r.append(file);
    r.append(":");
    append_decimal(&mut r, line as u64);
    r.append("]");
    let ghost base = r@;
    if metadata.len() > 0 {
        r.append(" - ");
        append_fields(&mut r, metadata);
    }
    proof {
        let md = metadata@.map_values(|f: (String, String)| (f.0@, f.1@));
        assert(base =~= timestamp@ + " ["@ + level.name() + "] - "@ + message@ + " ["@ + file@
            + ":"@ + decimal_text(line as nat) + "]"@);
        if md.len() == 0 {
            assert(r@ =~= base);
        } else {
            assert(r@ =~= base + " - "@ + fields_text(md));
        }
    }
    r
}

} // verus!
