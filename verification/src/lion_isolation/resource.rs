//! Resource usage of a plugin, the limits it is held to, and the metering that keeps both.

use std::sync::Arc;
use std::time::{Duration, Instant};
use vstd::prelude::*;

use crate::lion_core::error::IsolationError;
use crate::lion_core::plugin::{now_micros, ResourceUsage as CoreResourceUsage};
use crate::text::{append_decimal, decimal_text};

verus! {

/// A point in time of the monotonic clock.
#[verifier::external_type_specification]
#[verifier::external_body]
pub struct ExInstant(std::time::Instant);

/// `Clone` of an instant: `Instant` is `Copy`, so the clone is the same instant.
pub assume_specification[ <std::time::Instant as Clone>::clone ](i: &Instant) -> (r: Instant)
    ensures
        r == *i,
;

/// The current instant, from `Instant::now`; it depends on the clock, so nothing is stated.
#[verifier::external_body]
pub(crate) fn instant_now() -> Instant {
    Instant::now()
}

/// The time elapsed since `start`, from `Instant::elapsed` (zero where the clock reads
/// earlier); it depends on the clock, so nothing is stated.
#[verifier::external_body]
fn elapsed_since(start: &Instant) -> Duration {
    start.elapsed()
}

/// The whole milliseconds of a duration, from `Duration::as_millis`; nothing is stated of the
/// opaque duration.
#[verifier::external_body]
fn duration_millis(d: &Duration) -> u128 {
    d.as_millis()
}

/// The milliseconds elapsed since `start`, cut to 64 bits.
pub(crate) fn elapsed_millis(start: &Instant) -> u64 {
    let d = elapsed_since(start);
    let ms = duration_millis(&d);
    ms as u64
}

/// Resource usage of a plugin.
#[derive(Debug, Clone, Copy)]
pub struct ResourceUsage {
    /// Memory usage in bytes.
    pub memory_bytes: usize,
    /// CPU time in microseconds.
    pub cpu_time_us: u64,
    /// Number of function calls.
    pub function_calls: u64,
    /// When the current function call started.
    pub function_start_time: Instant,
}

impl Default for ResourceUsage {
    /// No usage, with the current function call starting now.
    fn default() -> (r: Self)
        ensures
            r.memory_bytes == 0,
            r.cpu_time_us == 0,
            r.function_calls == 0,
    {
        Self { memory_bytes: 0, cpu_time_us: 0, function_calls: 0, function_start_time: instant_now() }
    }
}

/// Limits on the resources that a plugin may use.
pub trait ResourceLimiter {
    /// Whether `r` is an outcome that checking `usage` against the limits may give. A limiter
    /// that says nothing of its outcomes allows every one.
    open spec fn permits_outcome(&self, usage: ResourceUsage, r: Result<(), IsolationError>) -> bool {
        true
    }

    /// Check the usage against the limits.
    fn check_limits(&self, usage: &ResourceUsage) -> (r: Result<(), IsolationError>)
        ensures
            self.permits_outcome(*usage, r),
    ;

    /// The memory limit in bytes, if any.
    fn memory_limit(&self) -> Option<usize>;

    /// The CPU time limit in microseconds, if any.
    fn cpu_time_limit(&self) -> Option<u64>;

    /// The function timeout in milliseconds, if any.
    fn function_timeout(&self) -> Option<u64>;
}

/// A resource limiter with fixed limits.
pub struct DefaultResourceLimiter {
    /// Memory limit in bytes.
    pub memory_limit: Option<usize>,
    /// CPU time limit in microseconds.
    pub cpu_time_limit: Option<u64>,
    /// Function timeout in milliseconds.
    pub function_timeout: Option<u64>,
}

/// The message for memory usage above its limit.
pub open spec fn memory_message(used: nat, limit: nat) -> Seq<char> {
    "Memory usage ("@ + decimal_text(used) + " bytes) exceeds limit ("@ + decimal_text(limit)
        + " bytes)"@
}

/// The message for CPU time above its limit.
pub open spec fn cpu_message(used: nat, limit: nat) -> Seq<char> {
    "CPU time ("@ + decimal_text(used) + " us) exceeds limit ("@ + decimal_text(limit) + " us)"@
}

/// The message for a function call that ran past its timeout.
pub open spec fn timeout_message(limit: nat) -> Seq<char> {
    "Function timeout ("@ + decimal_text(limit) + " ms) exceeded"@
}

/// `r` is the outcome that a violation (or none) calls for: `Ok` for none, and otherwise
/// `ResourceExhausted` with the violation's message.
pub open spec fn limit_outcome(r: Result<(), IsolationError>, violation: Option<Seq<char>>) -> bool {
    match violation {
        None => r is Ok,
        Some(m) => r matches Err(IsolationError::ResourceExhausted(s)) && s@ == m,
    }
}

impl DefaultResourceLimiter {
    /// The first limit that a usage breaks, as its message: memory, then CPU time, then the
    /// function timeout against the milliseconds elapsed.
    pub open spec fn violation(
        self,
        memory_bytes: usize,
        cpu_time_us: u64,
        elapsed_ms: u64,
    ) -> Option<Seq<char>> {
        if self.memory_limit is Some && memory_bytes > self.memory_limit->0 {
            Some(memory_message(memory_bytes as nat, self.memory_limit->0 as nat))
        } else if self.cpu_time_limit is Some && cpu_time_us > self.cpu_time_limit->0 {
            Some(cpu_message(cpu_time_us as nat, self.cpu_time_limit->0 as nat))
        } else if self.function_timeout is Some && elapsed_ms > self.function_timeout->0 {
            Some(timeout_message(self.function_timeout->0 as nat))
        } else {
            None
        }
    }

    /// A limiter with the given limits.
    pub fn new(
        memory_limit: Option<usize>,
        cpu_time_limit: Option<u64>,
        function_timeout: Option<u64>,
    ) -> (r: Self)
        ensures
            r.memory_limit == memory_limit,
            r.cpu_time_limit == cpu_time_limit,
            r.function_timeout == function_timeout,
    {
        Self { memory_limit, cpu_time_limit, function_timeout }
    }

    /// Check a usage against the limits, given the milliseconds elapsed since its function call
    /// started.
    pub fn check_limits_at(&self, usage: &ResourceUsage, elapsed_ms: u64) -> (r: Result<
        (),
        IsolationError,
    >)
        ensures
            limit_outcome(r, self.violation(usage.memory_bytes, usage.cpu_time_us, elapsed_ms)),
    {
        if let Some(limit) = self.memory_limit {
            if usage.memory_bytes > limit {
                let mut s = String::from_str("Memory usage (");
                append_decimal(&mut s, usage.memory_bytes as u64);
                s.append(" bytes) exceeds limit (");
                append_decimal(&mut s, limit as u64);
                s.append(" bytes)");
                proof {
                    assert(s@ =~= memory_message(usage.memory_bytes as nat, limit as nat));
                }
                return Err(IsolationError::ResourceExhausted(s));
            }
        }
        if let Some(limit) = self.cpu_time_limit {
            if usage.cpu_time_us > limit {
                let mut s = String::from_str("CPU time (");
                append_decimal(&mut s, usage.cpu_time_us);
                s.append(" us) exceeds limit (");
                append_decimal(&mut s, limit);
                s.append(" us)");
                proof {
                    assert(s@ =~= cpu_message(usage.cpu_time_us as nat, limit as nat));
                }
                return Err(IsolationError::ResourceExhausted(s));
            }
        }
        if let Some(limit) = self.function_timeout {
            if elapsed_ms > limit {
                let mut s = String::from_str("Function timeout (");
                append_decimal(&mut s, limit);
                s.append(" ms) exceeded");
                proof {
                    assert(s@ =~= timeout_message(limit as nat));
                }
                return Err(IsolationError::ResourceExhausted(s));
            }
        }
        Ok(())
    }
}

impl Default for DefaultResourceLimiter {
    /// 100 MB of memory, 10 s of CPU time and 5 s per function call.
    fn default() -> (r: Self)
        ensures
            r.memory_limit == Some(104_857_600usize),
            r.cpu_time_limit == Some(10_000_000u64),
            r.function_timeout == Some(5000u64),
    {
        Self {
            memory_limit: Some(100 * 1024 * 1024),
            cpu_time_limit: Some(10 * 1000 * 1000),
            function_timeout: Some(5000),
        }
    }
}

impl ResourceLimiter for DefaultResourceLimiter {
    /// The outcome that the usage calls for, for some milliseconds elapsed in the current
    /// function call.
    open spec fn permits_outcome(&self, usage: ResourceUsage, r: Result<(), IsolationError>) -> bool {
        exists|elapsed_ms: u64|
            limit_outcome(r, #[trigger] self.violation(usage.memory_bytes, usage.cpu_time_us, elapsed_ms))
    }

    /// Check the usage against the limits, timing the current function call by the clock. The
    /// outcome is the one that the milliseconds elapsed call for.
    fn check_limits(&self, usage: &ResourceUsage) -> (r: Result<(), IsolationError>)
        ensures
            exists|elapsed_ms: u64|
                limit_outcome(
                    r,
                    #[trigger] self.violation(usage.memory_bytes, usage.cpu_time_us, elapsed_ms),
                ),
    {
        let elapsed_ms = if self.function_timeout.is_some() {
            elapsed_millis(&usage.function_start_time)
        } else {
            0
        };
        self.check_limits_at(usage, elapsed_ms)
    }

    fn memory_limit(&self) -> (r: Option<usize>)
        ensures
            r == self.memory_limit,
    {
        self.memory_limit
    }

    fn cpu_time_limit(&self) -> (r: Option<u64>)
        ensures
            r == self.cpu_time_limit,
    {
        self.cpu_time_limit
    }

    fn function_timeout(&self) -> (r: Option<u64>)
        ensures
            r == self.function_timeout,
    {
        self.function_timeout
    }
}

/// Metering of a plugin's resource usage against a limiter.
pub struct ResourceMetering<L: ResourceLimiter> {
    /// The limiter that the usage is held to.
    limiter: Arc<L>,
    /// The usage so far.
    usage: ResourceUsage,
}

impl<L: ResourceLimiter> ResourceMetering<L> {
    /// The usage so far.
    pub closed spec fn spec_usage(self) -> ResourceUsage {
        self.usage
    }

    /// The limiter that the usage is held to.
    pub closed spec fn spec_limiter(self) -> L {
        *self.limiter
    }

    /// Metering that starts with no usage.
    pub fn new(limiter: Arc<L>) -> (r: Self)
        ensures
            r.spec_usage().memory_bytes == 0,
            r.spec_usage().cpu_time_us == 0,
            r.spec_usage().function_calls == 0,
    {
        Self { limiter, usage: ResourceUsage::default() }
    }

    /// The usage so far.
    pub fn usage(&self) -> (r: &ResourceUsage)
        ensures
            *r == self.spec_usage(),
    {
        &self.usage
    }

    /// Restart the timing of the current function call.
    pub fn reset_function_start_time(&mut self)
        ensures
            final(self).spec_usage().memory_bytes == old(self).spec_usage().memory_bytes,
            final(self).spec_usage().cpu_time_us == old(self).spec_usage().cpu_time_us,
            final(self).spec_usage().function_calls == old(self).spec_usage().function_calls,
    {
        self.usage.function_start_time = instant_now();
    }

    /// Record CPU time spent and memory in use: CPU time adds up, memory keeps its peak.
    pub fn record_usage(&mut self, cpu_time_us: u64, memory_bytes: usize)
        requires
            old(self).spec_usage().cpu_time_us + cpu_time_us <= u64::MAX,
        ensures
            final(self).spec_usage().cpu_time_us == old(self).spec_usage().cpu_time_us
                + cpu_time_us,
            final(self).spec_usage().memory_bytes == (if memory_bytes
                > old(self).spec_usage().memory_bytes {
                memory_bytes
            } else {
                old(self).spec_usage().memory_bytes
            }),
            final(self).spec_usage().function_calls == old(self).spec_usage().function_calls,
            final(self).spec_usage().function_start_time
                == old(self).spec_usage().function_start_time,
    {
        self.usage.cpu_time_us = self.usage.cpu_time_us + cpu_time_us;
        if memory_bytes > self.usage.memory_bytes {
            self.usage.memory_bytes = memory_bytes;
        }
    }

    /// Count one more function call.
    pub fn increment_function_calls(&mut self)
        requires
            old(self).spec_usage().function_calls < u64::MAX,
        ensures
            final(self).spec_usage().function_calls == old(self).spec_usage().function_calls + 1,
            final(self).spec_usage().memory_bytes == old(self).spec_usage().memory_bytes,
            final(self).spec_usage().cpu_time_us == old(self).spec_usage().cpu_time_us,
            final(self).spec_usage().function_start_time
                == old(self).spec_usage().function_start_time,
    {
        self.usage.function_calls = self.usage.function_calls + 1;
    }

    /// Whether the usage is within the limiter's limits.
    pub fn is_within_limits(&self) -> (r: bool)
        ensures
            exists|outcome: Result<(), IsolationError>|
                self.spec_limiter().permits_outcome(self.spec_usage(), outcome) && r == (outcome is Ok),
    {
        let outcome = self.limiter.check_limits(&self.usage);
        let r = outcome.is_ok();
        assert(self.spec_limiter().permits_outcome(self.spec_usage(), outcome) && r == (outcome is Ok));
        r
    }

    /// Check the usage against the limiter's limits.
    pub fn check_limits(&self) -> (r: Result<(), IsolationError>)
        ensures
            self.spec_limiter().permits_outcome(self.spec_usage(), r),
    {
        self.limiter.check_limits(&self.usage)
    }
}

/// Usage summed over several instances of a plugin.
#[derive(Debug, Clone, Copy, PartialEq, Eq, Structural)]
pub struct UsageTotals {
    /// The largest memory use of any instance, in bytes.
    pub memory_bytes: usize,
    /// The CPU time of all instances, in microseconds.
    pub cpu_time_us: u64,
    /// The function calls of all instances.
    pub function_calls: u64,
    /// The number of instances.
    pub active_instances: usize,
}

/// The largest memory use among the usages known.
pub open spec fn peak_memory(usages: Seq<Option<ResourceUsage>>) -> nat
    decreases usages.len(),
{
    if usages.len() == 0 {
        0
    } else {
        let rest = peak_memory(usages.drop_last());
        match usages.last() {
            Some(u) => if u.memory_bytes > rest {
                u.memory_bytes as nat
            } else {
                rest
            },
            None => rest,
        }
    }
}

/// The CPU time of the usages known, summed.
pub open spec fn total_cpu(usages: Seq<Option<ResourceUsage>>) -> nat
    decreases usages.len(),
{
    if usages.len() == 0 {
        0
    } else {
        total_cpu(usages.drop_last()) + match usages.last() {
            Some(u) => u.cpu_time_us as nat,
            None => 0,
        }
    }
}

/// The function calls of the usages known, summed.
pub open spec fn total_calls(usages: Seq<Option<ResourceUsage>>) -> nat
    decreases usages.len(),
{
    if usages.len() == 0 {
        0
    } else {
        total_calls(usages.drop_last()) + match usages.last() {
            Some(u) => u.function_calls as nat,
            None => 0,
        }
    }
}

/// A sum over a prefix is at most the sum over the whole.
proof fn lemma_totals_prefix(usages: Seq<Option<ResourceUsage>>, i: int)
    requires
        0 <= i <= usages.len(),
    ensures
        total_cpu(usages.take(i)) <= total_cpu(usages),
        total_calls(usages.take(i)) <= total_calls(usages),
    decreases usages.len() - i,
{
    if i < usages.len() {
        lemma_totals_prefix(usages, i + 1);
        assert(usages.take(i + 1).drop_last() =~= usages.take(i));
    } else {
        assert(usages.take(i) =~= usages);
    }
}

/// The totals of the instances' usages (an instance without metering counts only as an
/// instance): the peak memory, and the sums of CPU time and of function calls.
pub fn aggregate_usage(usages: &Vec<Option<ResourceUsage>>) -> (r: UsageTotals)
    requires
        total_cpu(usages@) <= u64::MAX,
        total_calls(usages@) <= u64::MAX,
    ensures
        r.memory_bytes == peak_memory(usages@),
        forall|i: int|
            0 <= i < usages@.len() && #[trigger] usages@[i] is Some ==> usages@[i]->Some_0.memory_bytes
                <= r.memory_bytes,
        r.memory_bytes == 0 || exists|i: int|
            0 <= i < usages@.len() && #[trigger] usages@[i] is Some
                && usages@[i]->Some_0.memory_bytes == r.memory_bytes,
        r.cpu_time_us == total_cpu(usages@),
        r.function_calls == total_calls(usages@),
        r.active_instances == usages@.len(),
{
    let mut memory: usize = 0;
    let mut cpu: u64 = 0;
    let mut calls: u64 = 0;
    let mut i: usize = 0;
    while i < usages.len()
        invariant
            i <= usages@.len(),
            total_cpu(usages@) <= u64::MAX,
            total_calls(usages@) <= u64::MAX,
            memory == peak_memory(usages@.take(i as int)),
            cpu == total_cpu(usages@.take(i as int)),
            calls == total_calls(usages@.take(i as int)),
        decreases usages@.len() - i,
    {
        proof {
            lemma_totals_prefix(usages@, i + 1);
            assert(usages@.take(i + 1).drop_last() =~= usages@.take(i as int));
            assert(usages@.take(i + 1).last() == usages@[i as int]);
        }
        if let Some(u) = &usages[i] {
            if u.memory_bytes > memory {
                memory = u.memory_bytes;
            }
            cpu = cpu + u.cpu_time_us;
            calls = calls + u.function_calls;
        }
        i = i + 1;
    }
    assert(usages@.take(i as int) =~= usages@);
    proof {
        lemma_peak_memory_is_largest(usages@);
    }
    UsageTotals { memory_bytes: memory, cpu_time_us: cpu, function_calls: calls, active_instances: usages.len() }
}

/// The average CPU time per function call, in whole microseconds; zero without calls.
pub fn average_call_time(cpu_time_us: u64, function_calls: u64) -> (r: u64)
    ensures
        r == (if function_calls > 0 {
            cpu_time_us / function_calls
        } else {
            0
        }),
{
    if function_calls > 0 {
        cpu_time_us / function_calls
    } else {
        0
    }
}

/// Usage in the core's form, updated now: the figures given as both current and peak, the
/// average call time, and no custom metrics.
pub fn core_usage(
    memory_bytes: usize,
    cpu_time_us: u64,
    function_calls: u64,
    active_instances: usize,
) -> (r: CoreResourceUsage)
    ensures
        r.memory_bytes == memory_bytes,
        r.cpu_time_us == cpu_time_us,
        r.function_calls == function_calls,
        r.active_instances == active_instances,
        r.peak_memory_bytes == memory_bytes,
        r.peak_cpu_time_us == cpu_time_us,
        r.avg_function_call_us == (if function_calls > 0 {
            cpu_time_us / function_calls
        } else {
            0
        }),
        r.custom_metrics@.len() == 0,
{
    CoreResourceUsage {
        memory_bytes,
        cpu_time_us,
        function_calls,
        active_instances,
        peak_memory_bytes: memory_bytes,
        peak_cpu_time_us: cpu_time_us,
        avg_function_call_us: average_call_time(cpu_time_us, function_calls),
        custom_metrics: Vec::new(),
        last_updated: now_micros(),
    }
}

impl ResourceUsage {
    /// This instance's usage in the core's form, as one active instance.
    pub fn to_core_resource_usage(&self) -> (r: CoreResourceUsage)
        ensures
            r.memory_bytes == self.memory_bytes,
            r.cpu_time_us == self.cpu_time_us,
            r.function_calls == self.function_calls,
            r.active_instances == 1,
            r.peak_memory_bytes == self.memory_bytes,
            r.peak_cpu_time_us == self.cpu_time_us,
            r.avg_function_call_us == (if self.function_calls > 0 {
                self.cpu_time_us / self.function_calls
            } else {
                0
            }),
            r.custom_metrics@.len() == 0,
    {
        core_usage(self.memory_bytes, self.cpu_time_us, self.function_calls, 1)
    }
}

impl UsageTotals {
    /// The totals in the core's form.
    pub fn to_core_resource_usage(&self) -> (r: CoreResourceUsage)
        ensures
            r.memory_bytes == self.memory_bytes,
            r.cpu_time_us == self.cpu_time_us,
            r.function_calls == self.function_calls,
            r.active_instances == self.active_instances,
            r.peak_memory_bytes == self.memory_bytes,
            r.peak_cpu_time_us == self.cpu_time_us,
            r.avg_function_call_us == (if self.function_calls > 0 {
                self.cpu_time_us / self.function_calls
            } else {
                0
            }),
            r.custom_metrics@.len() == 0,
    {
        core_usage(self.memory_bytes, self.cpu_time_us, self.function_calls, self.active_instances)
    }
}

/// The peak memory of a set of instances is the largest memory use among those metered: no
/// metered instance uses more, and, unless it is 0, some metered instance uses exactly that
/// much.
pub proof fn lemma_peak_memory_is_largest(usages: Seq<Option<ResourceUsage>>)
    ensures
        forall|i: int|
            0 <= i < usages.len() && #[trigger] usages[i] is Some ==> usages[i]->Some_0.memory_bytes
                <= peak_memory(usages),
        peak_memory(usages) == 0 || exists|i: int|
            0 <= i < usages.len() && #[trigger] usages[i] is Some
                && usages[i]->Some_0.memory_bytes == peak_memory(usages),
    decreases usages.len(),
{
    if usages.len() > 0 {
        let front = usages.drop_last();
        lemma_peak_memory_is_largest(front);
        assert forall|i: int|
            0 <= i < usages.len() && #[trigger] usages[i] is Some implies usages[i]->Some_0.memory_bytes
                <= peak_memory(usages) by {
            if i < usages.len() - 1 {
                assert(front[i] == usages[i]);
            }
        }
        if peak_memory(usages) != 0 {
            if peak_memory(usages) == peak_memory(front) {
                let i = choose|i: int|
                    0 <= i < front.len() && #[trigger] front[i] is Some
                        && front[i]->Some_0.memory_bytes == peak_memory(front);
                assert(usages[i] == front[i]);
            } else {
                assert(usages[usages.len() - 1] is Some);
            }
        }
    }
}

} // verus!
