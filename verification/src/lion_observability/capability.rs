//! The capabilities that observability operations need, and the checkers that grant them.

use std::cmp::Ordering;
use vstd::prelude::*;

use crate::lion_observability::error::ObservabilityError;
use crate::text::{to_lowercase, unicode_lowercase};

verus! {

/// Log levels of the observability system, ordered by increasing severity.
#[derive(Debug, Clone, Copy, PartialEq, Eq, Structural, Hash, Ord)]
pub enum LogLevel {
    /// Trace level.
    Trace,
    /// Debug level.
    Debug,
    /// Info level.
    Info,
    /// Warn level.
    Warn,
    /// Error level.
    Error,
}

/// A capability that an observability operation needs.
#[derive(Debug, Clone, Copy, PartialEq, Eq, Structural, Hash)]
pub enum ObservabilityCapability {
    /// Logging at the given level.
    Log(LogLevel),
    /// Creating and recording spans.
    Tracing,
    /// Recording metrics.
    Metrics,
    /// Viewing logs.
    ViewLogs,
    /// Viewing traces.
    ViewTraces,
    /// Viewing metrics.
    ViewMetrics,
    /// Changing the configuration.
    Configure,
}

/// Three-way comparison of two numbers.
pub open spec fn compare_severities(a: nat, b: nat) -> Ordering {
    if a < b {
        Ordering::Less
    } else if a == b {
        Ordering::Equal
    } else {
        Ordering::Greater
    }
}

/// The level that a lowercase name denotes; any other name denotes the info level.
pub open spec fn level_for_name(name: Seq<char>) -> LogLevel {
    if name == "trace"@ {
        LogLevel::Trace
    } else if name == "debug"@ {
        LogLevel::Debug
    } else if name == "info"@ {
        LogLevel::Info
    } else if name == "warn"@ || name == "warning"@ {
        LogLevel::Warn
    } else if name == "error"@ || name == "err"@ {
        LogLevel::Error
    } else {
        LogLevel::Info
    }
}

impl LogLevel {
    /// The severity of a level: 0 for trace up to 4 for error.
    pub open spec fn severity(self) -> nat {
        match self {
            Self::Trace => 0,
            Self::Debug => 1,
            Self::Info => 2,
            Self::Warn => 3,
            Self::Error => 4,
        }
    }

    /// The display name of a level.
    pub open spec fn display(self) -> Seq<char> {
        match self {
            Self::Trace => "TRACE"@,
            Self::Debug => "DEBUG"@,
            Self::Info => "INFO"@,
            Self::Warn => "WARN"@,
            Self::Error => "ERROR"@,
        }
    }

    /// The severity of this level.
    fn severity_number(&self) -> (r: u8)
        ensures
            r == self.severity(),
    {
        match self {
            Self::Trace => 0,
            Self::Debug => 1,
            Self::Info => 2,
            Self::Warn => 3,
            Self::Error => 4,
        }
    }

    /// The display name of this level.
    pub fn to_string(&self) -> (r: String)
        ensures
            r@ == self.display(),
    {
        match self {
            Self::Trace => String::from_str("TRACE"),
            Self::Debug => String::from_str("DEBUG"),
            Self::Info => String::from_str("INFO"),
            Self::Warn => String::from_str("WARN"),
            Self::Error => String::from_str("ERROR"),
        }
    }

    /// The level that a lowercase name denotes, the info level for any other name.
    pub fn from_lowercase(name: &str) -> (r: LogLevel)
        ensures
            r == level_for_name(name@),
    {
        let n = String::from_str(name);
        if n == String::from_str("trace") {
            LogLevel::Trace
        } else if n == String::from_str("debug") {
            LogLevel::Debug
        } else if n == String::from_str("info") {
            LogLevel::Info
        } else if n == String::from_str("warn") || n == String::from_str("warning") {
            LogLevel::Warn
        } else if n == String::from_str("error") || n == String::from_str("err") {
            LogLevel::Error
        } else {
            LogLevel::Info
        }
    }
}

impl PartialOrd for LogLevel {
    fn partial_cmp(&self, other: &Self) -> (r: Option<Ordering>) {
        let a = self.severity_number();
        let b = other.severity_number();
        if a < b {
            Some(Ordering::Less)
        } else if a == b {
            Some(Ordering::Equal)
        } else {
            Some(Ordering::Greater)
        }
    }
}

impl vstd::std_specs::cmp::PartialOrdSpecImpl for LogLevel {
    open spec fn obeys_partial_cmp_spec() -> bool {
        true
    }

    open spec fn partial_cmp_spec(&self, other: &Self) -> Option<Ordering> {
        Some(compare_severities(self.severity(), other.severity()))
    }
}

impl From<&str> for LogLevel {
    /// The level named by the text, ignoring case; the info level for an unknown name.
    fn from(s: &str) -> (r: Self) {
        let lower = to_lowercase(s);
        LogLevel::from_lowercase(lower.as_str())
    }
}

impl vstd::std_specs::convert::FromSpecImpl<&str> for LogLevel {
    open spec fn obeys_from_spec() -> bool {
        true
    }

    open spec fn from_spec(v: &str) -> Self {
        level_for_name(unicode_lowercase(v@))
    }
}

impl ObservabilityCapability {
    /// The display text of a capability.
    pub open spec fn display(self) -> Seq<char> {
        match self {
            Self::Log(level) => "log:"@ + level.display(),
            Self::Tracing => "tracing"@,
            Self::Metrics => "metrics"@,
            Self::ViewLogs => "view_logs"@,
            Self::ViewTraces => "view_traces"@,
            Self::ViewMetrics => "view_metrics"@,
            Self::Configure => "configure"@,
        }
    }

    /// The display text of this capability.
    pub fn to_string(&self) -> (r: String)
        ensures
            r@ == self.display(),
    {
        match self {
            Self::Log(level) => {
                let mut s = String::from_str("log:");
                let l = level.to_string();
                s.append(l.as_str());
                s
            },
            Self::Tracing => String::from_str("tracing"),
            Self::Metrics => String::from_str("metrics"),
            Self::ViewLogs => String::from_str("view_logs"),
            Self::ViewTraces => String::from_str("view_traces"),
            Self::ViewMetrics => String::from_str("view_metrics"),
            Self::Configure => String::from_str("configure"),
        }
    }
}

/// Decides whether a plugin holds an observability capability.
pub trait ObservabilityCapabilityChecker {
    /// Whether the plugin holds the capability, or an error where the check failed.
    fn check_capability(&self, plugin_id: &str, capability: ObservabilityCapability) -> Result<
        bool,
        ObservabilityError,
    >;

    /// The checker's name.
    fn name(&self) -> &str;
}

/// A checker that grants every capability.
#[derive(Debug, Clone)]
pub struct AllowAllCapabilityChecker;

impl ObservabilityCapabilityChecker for AllowAllCapabilityChecker {
    fn check_capability(&self, plugin_id: &str, capability: ObservabilityCapability) -> (r:
        Result<bool, ObservabilityError>)
        ensures
            r == Ok::<bool, ObservabilityError>(true),
    {
        Ok(true)
    }

    fn name(&self) -> (r: &str)
        ensures
            r@ == "allow_all"@,
    {
        "allow_all"
    }
}

/// A checker that denies every capability.
#[derive(Debug, Clone)]
pub struct DenyAllCapabilityChecker;

impl ObservabilityCapabilityChecker for DenyAllCapabilityChecker {
    fn check_capability(&self, plugin_id: &str, capability: ObservabilityCapability) -> (r:
        Result<bool, ObservabilityError>)
        ensures
            r == Ok::<bool, ObservabilityError>(false),
    {
        Ok(false)
    }

    fn name(&self) -> (r: &str)
        ensures
            r@ == "deny_all"@,
    {
        "deny_all"
    }
}

/// The grants of a list, with plugin identifiers as text.
pub open spec fn grant_view(grants: Seq<(String, ObservabilityCapability)>) -> Seq<
    (Seq<char>, ObservabilityCapability),
> {
    grants.map_values(|g: (String, ObservabilityCapability)| (g.0@, g.1))
}

/// Grant `i` gives the plugin a log capability at the requested level or a more verbose one.
pub open spec fn log_grant_covers(
    grants: Seq<(Seq<char>, ObservabilityCapability)>,
    plugin_id: Seq<char>,
    requested: LogLevel,
    i: int,
) -> bool {
    &&& 0 <= i < grants.len()
    &&& grants[i].0 == plugin_id
    &&& grants[i].1 matches ObservabilityCapability::Log(allowed) && requested.severity()
        >= allowed.severity()
}

/// The plugin was granted exactly this capability.
pub open spec fn granted(
    grants: Seq<(Seq<char>, ObservabilityCapability)>,
    plugin_id: Seq<char>,
    capability: ObservabilityCapability,
) -> bool {
    exists|i: int| 0 <= i < grants.len() && #[trigger] grants[i] == (plugin_id, capability)
}

/// The decision of a selective checker: a log capability is held where some log grant to the
/// plugin is at the requested level or a more verbose one; any other capability is held where
/// it was granted as it is.
pub open spec fn selective_allows(
    grants: Seq<(Seq<char>, ObservabilityCapability)>,
    plugin_id: Seq<char>,
    capability: ObservabilityCapability,
) -> bool {
    match capability {
        ObservabilityCapability::Log(requested) => exists|i: int|
            log_grant_covers(grants, plugin_id, requested, i),
        _ => granted(grants, plugin_id, capability),
    }
}

/// A checker that grants what it was told to, to the plugins it was told.
#[derive(Debug, Clone)]
pub struct SelectiveCapabilityChecker {
    name: String,
    allowed_capabilities: Vec<(String, ObservabilityCapability)>,
}

impl SelectiveCapabilityChecker {
    /// The checker's grants, in the order given.
    pub closed spec fn grants(self) -> Seq<(Seq<char>, ObservabilityCapability)> {
        grant_view(self.allowed_capabilities@)
    }

    /// The checker's name.
    pub closed spec fn spec_name(self) -> Seq<char> {
        self.name@
    }

    /// A checker with the given name and no grants.
    pub fn new(name: &str) -> (r: Self)
        ensures
            r.spec_name() == name@,
            r.grants() == Seq::<(Seq<char>, ObservabilityCapability)>::empty(),
    {
        let r = Self { name: String::from_str(name), allowed_capabilities: Vec::new() };
        assert(r.grants() =~= Seq::<(Seq<char>, ObservabilityCapability)>::empty());
        r
    }

    /// The same checker, also granting the capability to the plugin.
    pub fn allow(self, plugin_id: &str, capability: ObservabilityCapability) -> (r: Self)
        ensures
            r.spec_name() == self.spec_name(),
            r.grants() == self.grants().push((plugin_id@, capability)),
    {
        let mut s = self;
        s.allowed_capabilities.push((String::from_str(plugin_id), capability));
        assert(s.grants() =~= self.grants().push((plugin_id@, capability)));
        s
    }
}

impl ObservabilityCapabilityChecker for SelectiveCapabilityChecker {
    /// Never fails; holds as `selective_allows` decides.
    fn check_capability(&self, plugin_id: &str, capability: ObservabilityCapability) -> (r:
        Result<bool, ObservabilityError>)
        ensures
            r matches Ok(b) && b == selective_allows(self.grants(), plugin_id@, capability),
    {
        let grants = &self.allowed_capabilities;
        let ghost g = self.grants();
        let target = String::from_str(plugin_id);
        if let ObservabilityCapability::Log(requested) = capability {
            let mut i: usize = 0;
            while i < grants.len()
                invariant
                    i <= grants@.len(),
                    g == grant_view(grants@),
                    g == self.grants(),
                    capability == ObservabilityCapability::Log(requested),
                    target@ == plugin_id@,
                    forall|j: int| 0 <= j < i ==> !log_grant_covers(g, plugin_id@, requested, j),
                decreases grants@.len() - i,
            {
                if grants[i].0 == target {
                    if let ObservabilityCapability::Log(allowed) = grants[i].1 {
                        if requested.severity_number() >= allowed.severity_number() {
                            assert(log_grant_covers(g, plugin_id@, requested, i as int));
                            return Ok(true);
                        }
                    }
                }
                i = i + 1;
            }
            return Ok(false);
        }
        let mut i: usize = 0;
        while i < grants.len()
            invariant
                i <= grants@.len(),
                g == grant_view(grants@),
                g == self.grants(),
                target@ == plugin_id@,
                !(capability is Log),
                forall|j: int| 0 <= j < i ==> g[j] != (plugin_id@, capability),
            decreases grants@.len() - i,
        {
            if grants[i].0 == target && grants[i].1 == capability {
                assert(g[i as int] == (plugin_id@, capability));
                assert(granted(g, plugin_id@, capability));
                return Ok(true);
            }
            i = i + 1;
        }
        Ok(false)
    }

    fn name(&self) -> (r: &str)
        ensures
            r@ == self.spec_name(),
    {
        self.name.as_str()
    }
}

/// Holding a log capability at one level means holding it at every more severe level.
pub proof fn lemma_log_grant_covers_more_severe(
    grants: Seq<(Seq<char>, ObservabilityCapability)>,
    plugin_id: Seq<char>,
    level: LogLevel,
    more_severe: LogLevel,
)
    requires
        selective_allows(grants, plugin_id, ObservabilityCapability::Log(level)),
        more_severe.severity() >= level.severity(),
    ensures
        selective_allows(grants, plugin_id, ObservabilityCapability::Log(more_severe)),
{
    let i = choose|i: int| log_grant_covers(grants, plugin_id, level, i);
    assert(log_grant_covers(grants, plugin_id, more_severe, i));
}

/// A capability, once granted to a plugin, is held by it.
pub proof fn lemma_granted_is_held(
    grants: Seq<(Seq<char>, ObservabilityCapability)>,
    plugin_id: Seq<char>,
    capability: ObservabilityCapability,
)
    ensures
        selective_allows(grants.push((plugin_id, capability)), plugin_id, capability),
{
    let g = grants.push((plugin_id, capability));
    let n = grants.len() as int;
    assert(g[n] == (plugin_id, capability));
    if let ObservabilityCapability::Log(level) = capability {
        assert(log_grant_covers(g, plugin_id, level, n));
    }
}

/// A further grant takes no capability away.
pub proof fn lemma_grant_keeps_held(
    grants: Seq<(Seq<char>, ObservabilityCapability)>,
    plugin_id: Seq<char>,
    capability: ObservabilityCapability,
    other_plugin: Seq<char>,
    other: ObservabilityCapability,
)
    requires
        selective_allows(grants, plugin_id, capability),
    ensures
        selective_allows(grants.push((other_plugin, other)), plugin_id, capability),
{
    let g = grants.push((other_plugin, other));
    match capability {
        ObservabilityCapability::Log(level) => {
            let i = choose|i: int| log_grant_covers(grants, plugin_id, level, i);
            assert(g[i] == grants[i]);
            assert(log_grant_covers(g, plugin_id, level, i));
        },
        _ => {
            let i = choose|i: int| 0 <= i < grants.len() && #[trigger] grants[i] == (plugin_id, capability);
            assert(g[i] == grants[i]);
        },
    }
}

} // verus!
