//! Plugin types: the kind of a plugin, the states of its lifecycle and the transitions
//! between them, its configuration and its metadata.

use vstd::prelude::*;

use crate::lion_core::id::PluginId;

verus! {

/// The current time as microseconds since the Unix epoch, from `chrono::Utc::now` and
/// `DateTime::timestamp_micros`. It depends on the clock, so nothing is stated of it.
#[verifier::external_body]
pub(crate) fn now_micros() -> i64 {
    chrono::Utc::now().timestamp_micros()
}

/// An empty JSON object, built as `serde_json::Value::Object` of a new `serde_json::Map`.
/// The value is opaque here, so nothing is stated of it.
#[verifier::external_body]
pub(crate) fn empty_json_object() -> serde_json::Value {
    serde_json::Value::Object(serde_json::Map::new())
}

/// Plugin type.
#[derive(Clone, Copy, Debug, PartialEq, Eq, Structural)]
pub enum PluginType {
    /// WebAssembly plugin, run in a WebAssembly VM.
    Wasm,
    /// Native plugin (shared library), run in the host process.
    Native,
    /// JavaScript plugin, run in a JavaScript VM.
    JavaScript,
    /// Remote plugin (in another process or node).
    Remote,
}

impl PluginType {
    /// The display name of a plugin type.
    pub open spec fn display(self) -> Seq<char> {
        match self {
            Self::Wasm => "WebAssembly"@,
            Self::Native => "Native"@,
            Self::JavaScript => "JavaScript"@,
            Self::Remote => "Remote"@,
        }
    }

    /// The display name of this plugin type.
    pub fn to_string(&self) -> (r: String)
        ensures
            r@ == self.display(),
    {
        match self {
            Self::Wasm => String::from_str("WebAssembly"),
            Self::Native => String::from_str("Native"),
            Self::JavaScript => String::from_str("JavaScript"),
            Self::Remote => String::from_str("Remote"),
        }
    }
}

/// Plugin state in the lifecycle.
#[derive(Clone, Copy, Debug, PartialEq, Eq, Structural)]
pub enum PluginState {
    /// Plugin is created but not yet initialized.
    Created,
    /// Plugin is initialized and ready to run.
    Ready,
    /// Plugin is actively running.
    Running,
    /// Plugin is paused.
    Paused,
    /// Plugin has failed.
    Failed,
    /// Plugin has been terminated.
    Terminated,
    /// Plugin is upgrading (hot reload).
    Upgrading,
}

impl PluginState {
    /// The display name of a state.
    pub open spec fn display(self) -> Seq<char> {
        match self {
            Self::Created => "Created"@,
            Self::Ready => "Ready"@,
            Self::Running => "Running"@,
            Self::Paused => "Paused"@,
            Self::Failed => "Failed"@,
            Self::Terminated => "Terminated"@,
            Self::Upgrading => "Upgrading"@,
        }
    }

    /// The states that may follow a state, in order.
    pub open spec fn next_states(self) -> Seq<PluginState> {
        match self {
            Self::Created => seq![Self::Ready, Self::Failed, Self::Terminated],
            Self::Ready => seq![Self::Running, Self::Failed, Self::Terminated],
            Self::Running => seq![
                Self::Paused,
                Self::Ready,
                Self::Failed,
                Self::Terminated,
                Self::Upgrading,
            ],
            Self::Paused => seq![Self::Running, Self::Ready, Self::Failed, Self::Terminated],
            Self::Failed => seq![Self::Terminated],
            Self::Terminated => seq![],
            Self::Upgrading => seq![Self::Ready, Self::Failed, Self::Terminated],
        }
    }

    /// A transition from one state to another is valid.
    pub open spec fn spec_can_transition(self, next: PluginState) -> bool {
        self.next_states().contains(next)
    }

    /// An active state: ready, running, paused or upgrading.
    pub open spec fn spec_is_active(self) -> bool {
        self is Ready || self is Running || self is Paused || self is Upgrading
    }

    /// A state that allows transitions: neither terminated nor failed.
    pub open spec fn spec_allows_transitions(self) -> bool {
        !(self is Terminated || self is Failed)
    }

    /// The display name of this state.
    pub fn to_string(&self) -> (r: String)
        ensures
            r@ == self.display(),
    {
        match self {
            Self::Created => String::from_str("Created"),
            Self::Ready => String::from_str("Ready"),
            Self::Running => String::from_str("Running"),
            Self::Paused => String::from_str("Paused"),
            Self::Failed => String::from_str("Failed"),
            Self::Terminated => String::from_str("Terminated"),
            Self::Upgrading => String::from_str("Upgrading"),
        }
    }

    /// Whether this state represents an active plugin.
    pub fn is_active(&self) -> (r: bool)
        ensures
            r == self.spec_is_active(),
    {
        match self {
            Self::Ready | Self::Running | Self::Paused | Self::Upgrading => true,
            _ => false,
        }
    }

    /// Whether this state allows function calls: only a running plugin takes calls.
    pub fn allows_calls(&self) -> (r: bool)
        ensures
            r == (*self is Running),
    {
        match self {
            Self::Running => true,
            _ => false,
        }
    }

    /// Whether this state allows state transitions.
    pub fn allows_transitions(&self) -> (r: bool)
        ensures
            r == self.spec_allows_transitions(),
    {
        match self {
            Self::Terminated | Self::Failed => false,
            _ => true,
        }
    }

    /// The states that may follow this one.
    pub fn valid_next_states(&self) -> (r: Vec<PluginState>)
        ensures
            r@ == self.next_states(),
    {
        let r = match self {
            Self::Created => vec![Self::Ready, Self::Failed, Self::Terminated],
            Self::Ready => vec![Self::Running, Self::Failed, Self::Terminated],
            Self::Running => vec![
                Self::Paused,
                Self::Ready,
                Self::Failed,
                Self::Terminated,
                Self::Upgrading,
            ],
            Self::Paused => vec![Self::Running, Self::Ready, Self::Failed, Self::Terminated],
            Self::Failed => vec![Self::Terminated],
            Self::Terminated => vec![],
            Self::Upgrading => vec![Self::Ready, Self::Failed, Self::Terminated],
        };
        assert(r@ =~= self.next_states());
        r
    }

    /// Whether a transition to the given state is valid.
    pub fn can_transition_to(&self, next: PluginState) -> (r: bool)
        ensures
            r == self.spec_can_transition(next),
    {
        let states = self.valid_next_states();
        let mut i: usize = 0;
        while i < states.len()
            invariant
                i <= states@.len(),
                states@ == self.next_states(),
                forall|k: int| 0 <= k < i ==> states@[k] != next,
            decreases states@.len() - i,
        {
            if states[i] == next {
                return true;
            }
            i = i + 1;
        }
        false
    }
}

/// No transition leaves the terminated state.
pub proof fn lemma_terminated_is_final(next: PluginState)
    ensures
        !PluginState::Terminated.spec_can_transition(next),
{
}

/// No transition leads back to the created state.
pub proof fn lemma_never_back_to_created(state: PluginState, next: PluginState)
    requires
        state.spec_can_transition(next),
    ensures
        next != PluginState::Created,
{
    assert(!state.next_states().contains(PluginState::Created)) by {
        if state.next_states().contains(PluginState::Created) {
            let k = choose|k: int|
                0 <= k < state.next_states().len() && state.next_states()[k]
                    == PluginState::Created;
        }
    }
}

/// Every state but the terminated one can move to the terminated state.
pub proof fn lemma_can_always_terminate(state: PluginState)
    requires
        state != PluginState::Terminated,
    ensures
        state.spec_can_transition(PluginState::Terminated),
{
    let s = state.next_states();
    match state {
        PluginState::Created => assert(s[2] == PluginState::Terminated),
        PluginState::Ready => assert(s[2] == PluginState::Terminated),
        PluginState::Running => assert(s[3] == PluginState::Terminated),
        PluginState::Paused => assert(s[3] == PluginState::Terminated),
        PluginState::Failed => assert(s[0] == PluginState::Terminated),
        PluginState::Upgrading => assert(s[2] == PluginState::Terminated),
        PluginState::Terminated => {},
    }
}

/// Plugin configuration with resource limits.
#[derive(Clone, Debug)]
pub struct PluginConfig {
    /// Maximum memory usage in bytes.
    pub max_memory_bytes: Option<usize>,
    /// Maximum CPU time in microseconds.
    pub max_cpu_time_us: Option<u64>,
    /// Function call timeout in milliseconds.
    pub function_timeout_ms: Option<u64>,
    /// Maximum number of instances to keep ready.
    pub max_instances: Option<usize>,
    /// Minimum number of instances to keep ready.
    pub min_instances: Option<usize>,
    /// Whether to enable hot reloading.
    pub enable_hot_reload: Option<bool>,
    /// Whether to enable debug features.
    pub enable_debug: Option<bool>,
    /// Additional configuration options as a JSON object.
    pub options: serde_json::Value,
}

impl Default for PluginConfig {
    /// 100 MB of memory, 10 s of CPU time, 5 s per call, one to ten instances, hot reload
    /// on, debug off and no options.
    fn default() -> (r: Self)
        ensures
            r.max_memory_bytes == Some(104_857_600usize),
            r.max_cpu_time_us == Some(10_000_000u64),
            r.function_timeout_ms == Some(5000u64),
            r.max_instances == Some(10usize),
            r.min_instances == Some(1usize),
            r.enable_hot_reload == Some(true),
            r.enable_debug == Some(false),
    {
        Self {
            max_memory_bytes: Some(100 * 1024 * 1024),
            max_cpu_time_us: Some(10 * 1000 * 1000),
            function_timeout_ms: Some(5000),
            max_instances: Some(10),
            min_instances: Some(1),
            enable_hot_reload: Some(true),
            enable_debug: Some(false),
            options: empty_json_object(),
        }
    }
}

impl PluginConfig {
    /// A configuration with the default values.
    pub fn new() -> (r: Self)
        ensures
            r.max_memory_bytes == Some(104_857_600usize),
            r.max_cpu_time_us == Some(10_000_000u64),
            r.function_timeout_ms == Some(5000u64),
            r.max_instances == Some(10usize),
            r.min_instances == Some(1usize),
            r.enable_hot_reload == Some(true),
            r.enable_debug == Some(false),
    {
        Self::default()
    }

    /// A configuration with lower limits than the default, for lightweight plugins:
    /// 10 MB of memory, 1 s of CPU time, 1 s per call, one instance, no hot reload.
    pub fn minimal() -> (r: Self)
        ensures
            r.max_memory_bytes == Some(10_485_760usize),
            r.max_cpu_time_us == Some(1_000_000u64),
            r.function_timeout_ms == Some(1000u64),
            r.max_instances == Some(1usize),
            r.min_instances == Some(1usize),
            r.enable_hot_reload == Some(false),
            r.enable_debug == Some(false),
    {
        Self {
            max_memory_bytes: Some(10 * 1024 * 1024),
            max_cpu_time_us: Some(1000 * 1000),
            function_timeout_ms: Some(1000),
            max_instances: Some(1),
            min_instances: Some(1),
            enable_hot_reload: Some(false),
            enable_debug: Some(false),
            options: empty_json_object(),
        }
    }
}

/// Basic plugin metadata.
#[derive(Clone, Debug)]
pub struct PluginMetadata {
    /// Plugin ID.
    pub id: PluginId,
    /// Human-readable name.
    pub name: String,
    /// Version string.
    pub version: String,
    /// Description of the plugin.
    pub description: String,
    /// Plugin type.
    pub plugin_type: PluginType,
    /// Current state.
    pub state: PluginState,
    /// When the plugin was created, in microseconds since the Unix epoch (UTC).
    pub created_at: i64,
    /// When the plugin was last updated, in microseconds since the Unix epoch (UTC).
    pub updated_at: i64,
    /// Available functions.
    pub functions: Vec<String>,
}

impl PluginMetadata {
    /// New metadata with a fresh identifier, in the created state, with no functions; both
    /// timestamps are the current time.
    pub fn new(name: &str, version: &str, description: &str, plugin_type: PluginType) -> (r:
        Self)
        ensures
            r.name@ == name@,
            r.version@ == version@,
            r.description@ == description@,
            r.plugin_type == plugin_type,
            r.state == PluginState::Created,
            r.functions@.len() == 0,
            r.created_at == r.updated_at,
    {
        let now = now_micros();
        Self {
            id: PluginId::new(),
            name: String::from_str(name),
            version: String::from_str(version),
            description: String::from_str(description),
            plugin_type,
            state: PluginState::Created,
            created_at: now,
            updated_at: now,
            functions: Vec::new(),
        }
    }

    /// Move to the given state if the transition is valid; the result says whether it was.
    pub fn update_state(&mut self, state: PluginState) -> (r: bool)
        ensures
            r == old(self).state.spec_can_transition(state),
            final(self).state == (if r {
                state
            } else {
                old(self).state
            }),
            !r ==> *final(self) == *old(self),
            final(self).id == old(self).id,
            final(self).name == old(self).name,
            final(self).version == old(self).version,
            final(self).description == old(self).description,
            final(self).plugin_type == old(self).plugin_type,
            final(self).created_at == old(self).created_at,
            final(self).functions == old(self).functions,
    {
        if self.state.can_transition_to(state) {
            self.state = state;
            self.updated_at = now_micros();
            true
        } else {
            false
        }
    }

    /// Add a function to the list of available functions.
    pub fn add_function(&mut self, function: &str)
        ensures
            final(self).functions@.len() == old(self).functions@.len() + 1,
            forall|k: int|
                0 <= k < old(self).functions@.len() ==> final(self).functions@[k]
                    == old(self).functions@[k],
            final(self).functions@.last()@ == function@,
            final(self).state == old(self).state,
            final(self).id == old(self).id,
            final(self).name == old(self).name,
            final(self).created_at == old(self).created_at,
    {
        self.functions.push(String::from_str(function));
        self.updated_at = now_micros();
    }

    /// Replace the list of available functions.
    pub fn set_functions(&mut self, functions: Vec<String>)
        ensures
            final(self).functions == functions,
            final(self).state == old(self).state,
            final(self).id == old(self).id,
            final(self).name == old(self).name,
            final(self).created_at == old(self).created_at,
    {
        self.functions = functions;
        self.updated_at = now_micros();
    }
}

/// The average call duration after one more call: the running average over the earlier
/// `calls - 1` calls, weighted back in, plus the new duration, divided by `calls`; the first
/// call's duration is its own average.
pub open spec fn spec_rolling_average(avg: u64, calls: u64, duration: u64) -> int
    recommends
        calls >= 1,
{
    if calls == 1 {
        duration as int
    } else {
        (avg * (calls - 1) + duration) / (calls as int)
    }
}

/// The average call duration once `calls` calls (this one included) have been made.
pub fn rolling_average(avg: u64, calls: u64, duration: u64) -> (r: u64)
    requires
        calls >= 1,
        avg * (calls - 1) + duration <= u64::MAX,
    ensures
        r == spec_rolling_average(avg, calls, duration),
{
    if calls == 1 {
        duration
    } else {
        assert(avg * (calls - 1) <= avg * (calls - 1) + duration);
        (avg * (calls - 1) + duration) / calls
    }
}

/// The value recorded for a custom metric: that of the metric's first entry.
pub open spec fn metric_value(entries: Seq<(String, u64)>, name: Seq<char>) -> Option<u64>
    decreases entries.len(),
{
    if entries.len() == 0 {
        None
    } else if entries[0].0@ == name {
        Some(entries[0].1)
    } else {
        metric_value(entries.drop_first(), name)
    }
}

/// Resource usage statistics of a plugin.
#[derive(Clone, Debug)]
pub struct ResourceUsage {
    /// Memory in use, in bytes.
    pub memory_bytes: usize,
    /// CPU time used, in microseconds.
    pub cpu_time_us: u64,
    /// Number of function calls.
    pub function_calls: u64,
    /// Number of active instances.
    pub active_instances: usize,
    /// Peak memory, in bytes.
    pub peak_memory_bytes: usize,
    /// Peak CPU time, in microseconds.
    pub peak_cpu_time_us: u64,
    /// Average duration of a function call, in microseconds.
    pub avg_function_call_us: u64,
    /// Custom metrics by name, each the bits of its IEEE 754 binary64 value.
    pub custom_metrics: Vec<(String, u64)>,
    /// When the usage was last updated, in microseconds since the Unix epoch.
    pub last_updated: i64,
}

impl Default for ResourceUsage {
    /// No usage and no metrics, updated at the epoch.
    fn default() -> (r: Self)
        ensures
            r.memory_bytes == 0,
            r.cpu_time_us == 0,
            r.function_calls == 0,
            r.active_instances == 0,
            r.peak_memory_bytes == 0,
            r.peak_cpu_time_us == 0,
            r.avg_function_call_us == 0,
            r.custom_metrics@.len() == 0,
            r.last_updated == 0,
    {
        Self {
            memory_bytes: 0,
            cpu_time_us: 0,
            function_calls: 0,
            active_instances: 0,
            peak_memory_bytes: 0,
            peak_cpu_time_us: 0,
            avg_function_call_us: 0,
            custom_metrics: Vec::new(),
            last_updated: 0,
        }
    }
}

impl ResourceUsage {
    /// No usage and no metrics, updated now.
    pub fn new() -> (r: Self)
        ensures
            r.memory_bytes == 0,
            r.cpu_time_us == 0,
            r.function_calls == 0,
            r.active_instances == 0,
            r.peak_memory_bytes == 0,
            r.peak_cpu_time_us == 0,
            r.avg_function_call_us == 0,
            r.custom_metrics@.len() == 0,
    {
        let mut r = Self::default();
        r.last_updated = now_micros();
        r
    }

    /// Record the memory in use, keeping the peak.
    pub fn update_memory(&mut self, memory_bytes: usize)
        ensures
            final(self).memory_bytes == memory_bytes,
            final(self).peak_memory_bytes == (if memory_bytes > old(self).peak_memory_bytes {
                memory_bytes
            } else {
                old(self).peak_memory_bytes
            }),
            final(self).cpu_time_us == old(self).cpu_time_us,
            final(self).peak_cpu_time_us == old(self).peak_cpu_time_us,
            final(self).function_calls == old(self).function_calls,
            final(self).avg_function_call_us == old(self).avg_function_call_us,
            final(self).active_instances == old(self).active_instances,
            final(self).custom_metrics@ == old(self).custom_metrics@,
    {
        self.memory_bytes = memory_bytes;
        if memory_bytes > self.peak_memory_bytes {
            self.peak_memory_bytes = memory_bytes;
        }
        self.last_updated = now_micros();
    }

    /// Record the CPU time used, keeping the peak.
    pub fn update_cpu_time(&mut self, cpu_time_us: u64)
        ensures
            final(self).cpu_time_us == cpu_time_us,
            final(self).peak_cpu_time_us == (if cpu_time_us > old(self).peak_cpu_time_us {
                cpu_time_us
            } else {
                old(self).peak_cpu_time_us
            }),
            final(self).memory_bytes == old(self).memory_bytes,
            final(self).peak_memory_bytes == old(self).peak_memory_bytes,
            final(self).function_calls == old(self).function_calls,
            final(self).avg_function_call_us == old(self).avg_function_call_us,
            final(self).active_instances == old(self).active_instances,
            final(self).custom_metrics@ == old(self).custom_metrics@,
    {
        self.cpu_time_us = cpu_time_us;
        if cpu_time_us > self.peak_cpu_time_us {
            self.peak_cpu_time_us = cpu_time_us;
        }
        self.last_updated = now_micros();
    }

    /// Record a function call of the given duration: one more call, and the average
    /// duration taken over all calls.
    pub fn record_function_call(&mut self, duration_us: u64)
        requires
            old(self).function_calls < u64::MAX,
            old(self).avg_function_call_us * old(self).function_calls + duration_us <= u64::MAX,
        ensures
            final(self).function_calls == old(self).function_calls + 1,
            final(self).avg_function_call_us == spec_rolling_average(
                old(self).avg_function_call_us,
                (old(self).function_calls + 1) as u64,
                duration_us,
            ),
            final(self).memory_bytes == old(self).memory_bytes,
            final(self).peak_memory_bytes == old(self).peak_memory_bytes,
            final(self).cpu_time_us == old(self).cpu_time_us,
            final(self).peak_cpu_time_us == old(self).peak_cpu_time_us,
            final(self).active_instances == old(self).active_instances,
            final(self).custom_metrics@ == old(self).custom_metrics@,
    {
        self.function_calls = self.function_calls + 1;
        self.avg_function_call_us = rolling_average(
            self.avg_function_call_us,
            self.function_calls,
            duration_us,
        );
        self.last_updated = now_micros();
    }

    /// Set the number of active instances.
    pub fn set_active_instances(&mut self, active_instances: usize)
        ensures
            final(self).active_instances == active_instances,
            final(self).memory_bytes == old(self).memory_bytes,
            final(self).peak_memory_bytes == old(self).peak_memory_bytes,
            final(self).cpu_time_us == old(self).cpu_time_us,
            final(self).peak_cpu_time_us == old(self).peak_cpu_time_us,
            final(self).function_calls == old(self).function_calls,
            final(self).avg_function_call_us == old(self).avg_function_call_us,
            final(self).custom_metrics@ == old(self).custom_metrics@,
    {
        self.active_instances = active_instances;
        self.last_updated = now_micros();
    }

    /// Set a custom metric, given by the bits of its value; it replaces the metric's earlier
    /// value.
    pub fn set_custom_metric(&mut self, name: &str, value_bits: u64)
        ensures
            metric_value(final(self).custom_metrics@, name@) == Some(value_bits),
            forall|other: Seq<char>|
                other != name@ ==> metric_value(final(self).custom_metrics@, other)
                    == metric_value(old(self).custom_metrics@, other),
            final(self).memory_bytes == old(self).memory_bytes,
            final(self).cpu_time_us == old(self).cpu_time_us,
            final(self).function_calls == old(self).function_calls,
            final(self).active_instances == old(self).active_instances,
    {
        let ghost before = self.custom_metrics@;
        match find_metric(&self.custom_metrics, name) {
            Some(i) => {
                let mut metrics: Vec<(String, u64)> = Vec::new();
                std::mem::swap(&mut metrics, &mut self.custom_metrics);
                let (key, _) = metrics.remove(i);
                metrics.insert(i, (key, value_bits));
                proof {
                    lemma_metric_update(before, metrics@, i as int, name@);
                }
                self.custom_metrics = metrics;
            },
            None => {
                self.custom_metrics.push((String::from_str(name), value_bits));
                proof {
                    lemma_metric_push(before, self.custom_metrics@, name@);
                }
            },
        }
        self.last_updated = now_micros();
    }

    /// The bits of a custom metric's value, if it is set.
    pub fn get_custom_metric(&self, name: &str) -> (r: Option<u64>)
        ensures
            r == metric_value(self.custom_metrics@, name@),
    {
        match find_metric(&self.custom_metrics, name) {
            Some(i) => {
                proof {
                    lemma_metric_at(self.custom_metrics@, i as int, name@);
                }
                Some(self.custom_metrics[i].1)
            },
            None => {
                proof {
                    lemma_metric_absent(self.custom_metrics@, name@);
                }
                None
            },
        }
    }

    /// Clear all usage and metrics.
    pub fn reset(&mut self)
        ensures
            final(self).memory_bytes == 0,
            final(self).cpu_time_us == 0,
            final(self).function_calls == 0,
            final(self).active_instances == 0,
            final(self).peak_memory_bytes == 0,
            final(self).peak_cpu_time_us == 0,
            final(self).avg_function_call_us == 0,
            final(self).custom_metrics@.len() == 0,
    {
        self.memory_bytes = 0;
        self.cpu_time_us = 0;
        self.function_calls = 0;
        self.active_instances = 0;
        self.peak_memory_bytes = 0;
        self.peak_cpu_time_us = 0;
        self.avg_function_call_us = 0;
        self.custom_metrics = Vec::new();
        self.last_updated = now_micros();
    }
}

/// The position of a metric's first entry.
fn find_metric(metrics: &Vec<(String, u64)>, name: &str) -> (r: Option<usize>)
    ensures
        match r {
            Some(i) => i < metrics@.len() && metrics@[i as int].0@ == name@ && forall|k: int|
                0 <= k < i ==> metrics@[k].0@ != name@,
            None => forall|k: int| 0 <= k < metrics@.len() ==> metrics@[k].0@ != name@,
        },
{
    let target = String::from_str(name);
    let mut i: usize = 0;
    while i < metrics.len()
        invariant
            i <= metrics@.len(),
            target@ == name@,
            forall|k: int| 0 <= k < i ==> metrics@[k].0@ != name@,
        decreases metrics@.len() - i,
    {
        if metrics[i].0 == target {
            return Some(i);
        }
        i = i + 1;
    }
    None
}

proof fn lemma_metric_at(entries: Seq<(String, u64)>, i: int, name: Seq<char>)
    requires
        0 <= i < entries.len(),
        entries[i].0@ == name,
        forall|k: int| 0 <= k < i ==> entries[k].0@ != name,
    ensures
        metric_value(entries, name) == Some(entries[i].1),
    decreases i,
{
    if i > 0 {
        let rest = entries.drop_first();
        assert(entries[0].0@ != name);
        assert forall|k: int| 0 <= k < i - 1 implies rest[k].0@ != name by {
            assert(rest[k] == entries[k + 1]);
        }
        lemma_metric_at(rest, i - 1, name);
    }
}

proof fn lemma_metric_absent(entries: Seq<(String, u64)>, name: Seq<char>)
    requires
        forall|k: int| 0 <= k < entries.len() ==> entries[k].0@ != name,
    ensures
        metric_value(entries, name) is None,
    decreases entries.len(),
{
    if entries.len() > 0 {
        let rest = entries.drop_first();
        assert(entries[0].0@ != name);
        assert forall|k: int| 0 <= k < rest.len() implies rest[k].0@ != name by {
            assert(rest[k] == entries[k + 1]);
        }
        lemma_metric_absent(rest, name);
    }
}

proof fn lemma_metric_update(
    before: Seq<(String, u64)>,
    after: Seq<(String, u64)>,
    i: int,
    name: Seq<char>,
)
    requires
        0 <= i < before.len(),
        after.len() == before.len(),
        before[i].0@ == name,
        after[i].0@ == name,
        forall|k: int| 0 <= k < i ==> before[k].0@ != name,
        forall|k: int| 0 <= k < before.len() && k != i ==> after[k] == before[k],
    ensures
        metric_value(after, name) == Some(after[i].1),
        forall|other: Seq<char>|
            other != name ==> metric_value(after, other) == metric_value(before, other),
    decreases i,
{
    lemma_metric_at(after, i, name);
    assert forall|other: Seq<char>| other != name implies metric_value(after, other)
        == metric_value(before, other) by {
        lemma_metric_other(before, after, i, name, other);
    }
}

proof fn lemma_metric_other(
    before: Seq<(String, u64)>,
    after: Seq<(String, u64)>,
    i: int,
    name: Seq<char>,
    other: Seq<char>,
)
    requires
        0 <= i < before.len(),
        after.len() == before.len(),
        before[i].0@ == name,
        after[i].0@ == name,
        other != name,
        forall|k: int| 0 <= k < before.len() && k != i ==> after[k] == before[k],
    ensures
        metric_value(after, other) == metric_value(before, other),
    decreases before.len(),
{
    if before.len() > 0 {
        if i == 0 {
            assert(after.drop_first() =~= before.drop_first()) by {
                assert forall|k: int| 0 <= k < after.len() - 1 implies after.drop_first()[k]
                    == before.drop_first()[k] by {
                    assert(after[k + 1] == before[k + 1]);
                }
            }
        } else {
            assert(after[0] == before[0]);
            let a = after.drop_first();
            let b = before.drop_first();
            assert forall|k: int| 0 <= k < b.len() && k != i - 1 implies a[k] == b[k] by {
                assert(after[k + 1] == before[k + 1]);
            }
            lemma_metric_other(b, a, i - 1, name, other);
        }
    }
}

proof fn lemma_metric_push(before: Seq<(String, u64)>, after: Seq<(String, u64)>, name: Seq<char>)
    requires
        after.len() == before.len() + 1,
        forall|k: int| 0 <= k < before.len() ==> after[k] == before[k],
        forall|k: int| 0 <= k < before.len() ==> before[k].0@ != name,
        after[before.len() as int].0@ == name,
    ensures
        metric_value(after, name) == Some(after[before.len() as int].1),
        forall|other: Seq<char>|
            other != name ==> metric_value(after, other) == metric_value(before, other),
    decreases before.len(),
{
    lemma_metric_at(after, before.len() as int, name);
    assert forall|other: Seq<char>| other != name implies metric_value(after, other)
        == metric_value(before, other) by {
        lemma_metric_push_other(before, after, name, other);
    }
}

proof fn lemma_metric_push_other(
    before: Seq<(String, u64)>,
    after: Seq<(String, u64)>,
    name: Seq<char>,
    other: Seq<char>,
)
    requires
        after.len() == before.len() + 1,
        forall|k: int| 0 <= k < before.len() ==> after[k] == before[k],
        after[before.len() as int].0@ == name,
        other != name,
    ensures
        metric_value(after, other) == metric_value(before, other),
    decreases before.len(),
{
    if before.len() > 0 {
        assert(after[0] == before[0]);
        let a = after.drop_first();
        let b = before.drop_first();
        assert forall|k: int| 0 <= k < b.len() implies a[k] == b[k] by {
            assert(after[k + 1] == before[k + 1]);
        }
        lemma_metric_push_other(b, a, name, other);
    } else {
        assert(after[0].0@ != other);
        assert(metric_value(after.drop_first(), other) is None);
    }
}

/// The plugin state machine, state by state: a created plugin becomes ready, fails or is
/// terminated; a ready one starts running, fails or is terminated; a running one pauses,
/// finishes back to ready, fails, is terminated or starts an upgrade; a paused one resumes,
/// goes back to ready, fails or is terminated; a failed one can only be terminated; a
/// terminated one goes nowhere; an upgrading one becomes ready again, fails or is terminated.
/// Each state lists each of its next states once.
pub proof fn lemma_transition_table(a: PluginState, b: PluginState)
    ensures
        a.spec_can_transition(b) <==> match a {
            PluginState::Created => b is Ready || b is Failed || b is Terminated,
            PluginState::Ready => b is Running || b is Failed || b is Terminated,
            PluginState::Running => b is Paused || b is Ready || b is Failed || b is Terminated
                || b is Upgrading,
            PluginState::Paused => b is Running || b is Ready || b is Failed || b is Terminated,
            PluginState::Failed => b is Terminated,
            PluginState::Terminated => false,
            PluginState::Upgrading => b is Ready || b is Failed || b is Terminated,
        },
        a.next_states().len() == match a {
            PluginState::Created => 3nat,
            PluginState::Ready => 3nat,
            PluginState::Running => 5nat,
            PluginState::Paused => 4nat,
            PluginState::Failed => 1nat,
            PluginState::Terminated => 0nat,
            PluginState::Upgrading => 3nat,
        },
{
    let s = a.next_states();
    if a.spec_can_transition(b) {
        let k = choose|k: int| 0 <= k < s.len() && s[k] == b;
    }
    if exists|k: int| 0 <= k < s.len() && s[k] == b {
    } else {
        assert(forall|k: int| 0 <= k < s.len() ==> s[k] != b);
    }
    match a {
        PluginState::Created => {
            if b is Ready { assert(s[0] == b); }
            if b is Failed { assert(s[1] == b); }
            if b is Terminated { assert(s[2] == b); }
        },
        PluginState::Ready => {
            if b is Running { assert(s[0] == b); }
            if b is Failed { assert(s[1] == b); }
            if b is Terminated { assert(s[2] == b); }
        },
        PluginState::Running => {
            if b is Paused { assert(s[0] == b); }
            if b is Ready { assert(s[1] == b); }
            if b is Failed { assert(s[2] == b); }
            if b is Terminated { assert(s[3] == b); }
            if b is Upgrading { assert(s[4] == b); }
        },
        PluginState::Paused => {
            if b is Running { assert(s[0] == b); }
            if b is Ready { assert(s[1] == b); }
            if b is Failed { assert(s[2] == b); }
            if b is Terminated { assert(s[3] == b); }
        },
        PluginState::Failed => {
            if b is Terminated { assert(s[0] == b); }
        },
        PluginState::Terminated => {},
        PluginState::Upgrading => {
            if b is Ready { assert(s[0] == b); }
            if b is Failed { assert(s[1] == b); }
            if b is Terminated { assert(s[2] == b); }
        },
    }
}

} // verus!
