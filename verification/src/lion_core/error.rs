//! Error types of the subsystems, with their messages.

use vstd::prelude::*;

use crate::lion_core::id::{
    uuid_text, CapabilityId, ExecutionId, MessageId, NodeId, PluginId, RegionId, WorkflowId,
};
use crate::lion_core::plugin::PluginState;
use crate::text::{append_decimal, decimal_text};

verus! {

/// `std::io::Error`, carried in an error as it is.
#[verifier::external_type_specification]
#[verifier::external_body]
pub struct ExIoError(std::io::Error);

/// The text of an I/O error, from its `Display` (`to_string`); nothing is stated of it.
#[verifier::external_body]
pub(crate) fn io_error_text(e: &std::io::Error) -> String {
    e.to_string()
}

/// The text of `prefix` followed by `s`.
pub fn prefixed(prefix: &str, s: &String) -> (r: String)
    ensures
        r@ == prefix@ + s@,
{
    let mut r = String::from_str(prefix);
    r.append(s.as_str());
    r
}

/// Policy-related errors.
#[derive(Debug, Clone, PartialEq, Eq)]
pub enum PolicyError {
    /// A policy rule was not found.
    RuleNotFound(String),
    /// A policy was violated.
    Violation(String),
    /// Policy evaluation failed.
    EvaluationFailed(String),
    /// A network access policy was violated.
    NetworkAccessViolation(String),
    /// A file access policy was violated.
    FileAccessViolation(String),
    /// A resource limit policy was exceeded.
    ResourceLimitExceeded(String),
    /// Applying a policy failed.
    ApplicationFailed(String),
    /// Policies conflict.
    Conflict(String),
}

impl PolicyError {
    /// The message of an error: the variant's prefix and then its detail.
    pub open spec fn message(self) -> Seq<char> {
        match self {
            Self::RuleNotFound(s) => "Policy rule not found: "@ + s@,
            Self::Violation(s) => "Policy violation: "@ + s@,
            Self::EvaluationFailed(s) => "Policy evaluation failed: "@ + s@,
            Self::NetworkAccessViolation(s) => "Network access policy violation: "@ + s@,
            Self::FileAccessViolation(s) => "File access policy violation: "@ + s@,
            Self::ResourceLimitExceeded(s) => "Resource limit policy exceeded: "@ + s@,
            Self::ApplicationFailed(s) => "Policy application failed: "@ + s@,
            Self::Conflict(s) => "Policy conflict: "@ + s@,
        }
    }

    /// The message of this error.
    pub fn to_string(&self) -> (r: String)
        ensures
            r@ == self.message(),
    {
        match self {
            Self::RuleNotFound(s) => prefixed("Policy rule not found: ", s),
            Self::Violation(s) => prefixed("Policy violation: ", s),
            Self::EvaluationFailed(s) => prefixed("Policy evaluation failed: ", s),
            Self::NetworkAccessViolation(s) => prefixed("Network access policy violation: ", s),
            Self::FileAccessViolation(s) => prefixed("File access policy violation: ", s),
            Self::ResourceLimitExceeded(s) => prefixed("Resource limit policy exceeded: ", s),
            Self::ApplicationFailed(s) => prefixed("Policy application failed: ", s),
            Self::Conflict(s) => prefixed("Policy conflict: ", s),
        }
    }
}

/// Observability-related errors.
#[derive(Debug, Clone, PartialEq, Eq)]
pub enum ObservabilityError {
    /// Tracing initialization failed.
    TracingInitFailed(String),
    /// Metrics initialization failed.
    MetricsInitFailed(String),
    /// Logging initialization failed.
    LoggingInitFailed(String),
    /// Context propagation failed.
    ContextPropagationFailed(String),
    /// Recording a metric failed.
    MetricRecordingFailed(String),
    /// Exporting telemetry failed.
    TelemetryExportFailed(String),
    /// Creating a span failed.
    SpanCreationFailed(String),
}

impl ObservabilityError {
    /// The message of an error: the variant's prefix and then its detail.
    pub open spec fn message(self) -> Seq<char> {
        match self {
            Self::TracingInitFailed(s) => "Tracing initialization failed: "@ + s@,
            Self::MetricsInitFailed(s) => "Metrics initialization failed: "@ + s@,
            Self::LoggingInitFailed(s) => "Logging initialization failed: "@ + s@,
            Self::ContextPropagationFailed(s) => "Context propagation failed: "@ + s@,
            Self::MetricRecordingFailed(s) => "Metric recording failed: "@ + s@,
            Self::TelemetryExportFailed(s) => "Telemetry export failed: "@ + s@,
            Self::SpanCreationFailed(s) => "Span creation failed: "@ + s@,
        }
    }

    /// The message of this error.
    pub fn to_string(&self) -> (r: String)
        ensures
            r@ == self.message(),
    {
        match self {
            Self::TracingInitFailed(s) => prefixed("Tracing initialization failed: ", s),
            Self::MetricsInitFailed(s) => prefixed("Metrics initialization failed: ", s),
            Self::LoggingInitFailed(s) => prefixed("Logging initialization failed: ", s),
            Self::ContextPropagationFailed(s) => prefixed("Context propagation failed: ", s),
            Self::MetricRecordingFailed(s) => prefixed("Metric recording failed: ", s),
            Self::TelemetryExportFailed(s) => prefixed("Telemetry export failed: ", s),
            Self::SpanCreationFailed(s) => prefixed("Span creation failed: ", s),
        }
    }
}

/// Isolation-related errors.
#[derive(Debug, Clone, PartialEq, Eq)]
pub enum IsolationError {
    /// A plugin is not loaded.
    PluginNotLoaded(PluginId),
    /// Loading a plugin failed.
    LoadFailed(String),
    /// Compiling a module failed.
    CompilationFailed(String),
    /// Instantiating a module failed.
    InstantiationFailed(String),
    /// Linking host functions failed.
    LinkingFailed(String),
    /// Execution trapped.
    ExecutionTrap(String),
    /// A module has an invalid format.
    InvalidModuleFormat(String),
    /// A memory access failed.
    MemoryAccessError(String),
    /// A memory region was not found.
    RegionNotFound(RegionId),
    /// An attempt to breach isolation.
    IsolationBreach(String),
    /// Module validation failed.
    ValidationFailed(String),
    /// Resource limits were exceeded.
    ResourceExhausted(String),
}

impl IsolationError {
    /// The message of an error: the variant's prefix and then its detail.
    pub open spec fn message(self) -> Seq<char> {
        match self {
            Self::PluginNotLoaded(s) => "Plugin not loaded: "@ + uuid_text(s@),
            Self::LoadFailed(s) => "Failed to load plugin: "@ + s@,
            Self::CompilationFailed(s) => "Failed to compile module: "@ + s@,
            Self::InstantiationFailed(s) => "Failed to instantiate module: "@ + s@,
            Self::LinkingFailed(s) => "Failed to link host functions: "@ + s@,
            Self::ExecutionTrap(s) => "Execution trap: "@ + s@,
            Self::InvalidModuleFormat(s) => "Invalid module format: "@ + s@,
            Self::MemoryAccessError(s) => "Memory access error: "@ + s@,
            Self::RegionNotFound(s) => "Memory region not found: "@ + uuid_text(s@),
            Self::IsolationBreach(s) => "Isolation breach attempt: "@ + s@,
            Self::ValidationFailed(s) => "Module validation failed: "@ + s@,
            Self::ResourceExhausted(s) => "Resource limits exceeded: "@ + s@,
        }
    }

    /// The message of this error.
    pub fn to_string(&self) -> (r: String)
        ensures
            r@ == self.message(),
    {
        match self {
            Self::PluginNotLoaded(id) => prefixed("Plugin not loaded: ", &id.to_string()),
            Self::LoadFailed(s) => prefixed("Failed to load plugin: ", s),
            Self::CompilationFailed(s) => prefixed("Failed to compile module: ", s),
            Self::InstantiationFailed(s) => prefixed("Failed to instantiate module: ", s),
            Self::LinkingFailed(s) => prefixed("Failed to link host functions: ", s),
            Self::ExecutionTrap(s) => prefixed("Execution trap: ", s),
            Self::InvalidModuleFormat(s) => prefixed("Invalid module format: ", s),
            Self::MemoryAccessError(s) => prefixed("Memory access error: ", s),
            Self::RegionNotFound(id) => prefixed("Memory region not found: ", &id.to_string()),
            Self::IsolationBreach(s) => prefixed("Isolation breach attempt: ", s),
            Self::ValidationFailed(s) => prefixed("Module validation failed: ", s),
            Self::ResourceExhausted(s) => prefixed("Resource limits exceeded: ", s),
        }
    }
}

/// Plugin-related errors.
#[derive(Debug, Clone, PartialEq, Eq)]
pub enum PluginError {
    /// A plugin was not found.
    NotFound(PluginId),
    /// A function was not found.
    FunctionNotFound(String),
    /// A plugin failed while executing.
    ExecutionError(String),
    /// A plugin is in a state that does not allow the operation.
    InvalidState(PluginState),
    /// A plugin is paused.
    Paused,
    /// A resource limit was exceeded.
    ResourceLimitExceeded(String),
    /// A function call timed out after the given milliseconds.
    Timeout(u64),
    /// A plugin failed to initialize.
    InitializationFailed(String),
    /// A plugin failed to terminate.
    TerminationFailed(String),
    /// A plugin is upgrading.
    Upgrading,
    /// A plugin crashed.
    Crashed(String),
    /// A plugin was forcefully terminated.
    ForciblyTerminated(String),
}

impl PluginError {
    /// The message of an error.
    pub open spec fn message(self) -> Seq<char> {
        match self {
            Self::NotFound(id) => "Plugin not found: "@ + uuid_text(id@),
            Self::FunctionNotFound(s) => "Function not found: "@ + s@,
            Self::ExecutionError(s) => "Plugin execution error: "@ + s@,
            Self::InvalidState(st) => "Plugin is in invalid state: "@ + st.display(),
            Self::Paused => "Plugin is paused"@,
            Self::ResourceLimitExceeded(s) => "Resource limit exceeded: "@ + s@,
            Self::Timeout(v) => "Function call timed out after "@ + decimal_text(v as nat) + "ms"@,
            Self::InitializationFailed(s) => "Plugin initialization failed: "@ + s@,
            Self::TerminationFailed(s) => "Plugin termination failed: "@ + s@,
            Self::Upgrading => "Plugin is upgrading"@,
            Self::Crashed(s) => "Plugin crashed: "@ + s@,
            Self::ForciblyTerminated(s) => "Plugin was forcefully terminated: "@ + s@,
        }
    }

    /// The message of this error.
    pub fn to_string(&self) -> (r: String)
        ensures
            r@ == self.message(),
    {
        let r = match self {
            Self::NotFound(id) => prefixed("Plugin not found: ", &id.to_string()),
            Self::FunctionNotFound(s) => prefixed("Function not found: ", s),
            Self::ExecutionError(s) => prefixed("Plugin execution error: ", s),
            Self::InvalidState(st) => prefixed("Plugin is in invalid state: ", &st.to_string()),
            Self::Paused => String::from_str("Plugin is paused"),
            Self::ResourceLimitExceeded(s) => prefixed("Resource limit exceeded: ", s),
            Self::Timeout(v) => {
                let mut r = String::from_str("Function call timed out after ");
                append_decimal(&mut r, *v);
                r.append("ms");
                r
            },
            Self::InitializationFailed(s) => prefixed("Plugin initialization failed: ", s),
            Self::TerminationFailed(s) => prefixed("Plugin termination failed: ", s),
            Self::Upgrading => String::from_str("Plugin is upgrading"),
            Self::Crashed(s) => prefixed("Plugin crashed: ", s),
            Self::ForciblyTerminated(s) => prefixed("Plugin was forcefully terminated: ", s),
        };
        assert(r@ =~= self.message());
        r
    }
}

/// Capability-related errors.
#[derive(Debug, Clone, PartialEq, Eq)]
pub enum CapabilityError {
    /// A capability was not found.
    NotFound(CapabilityId),
    /// A capability was not granted.
    NotGranted(String),
    /// Permission was denied.
    PermissionDenied(String),
    /// A capability is invalid.
    Invalid(String),
    /// Revoking a capability failed.
    RevocationFailed(String),
    /// Constraining a capability failed.
    ConstraintError(String),
    /// Composing capabilities failed.
    CompositionError(String),
    /// Splitting a capability failed.
    SplitError(String),
    /// Delegating a capability failed.
    DelegationFailed(String),
    /// A capability has another type than expected.
    TypeMismatch {
        /// The type that was expected.
        expected: String,
        /// The type that was found.
        actual: String,
    },
}

impl CapabilityError {
    /// The message of an error.
    pub open spec fn message(self) -> Seq<char> {
        match self {
            Self::NotFound(id) => "Capability not found: "@ + uuid_text(id@),
            Self::NotGranted(s) => "Capability not granted: "@ + s@,
            Self::PermissionDenied(s) => "Permission denied: "@ + s@,
            Self::Invalid(s) => "Invalid capability: "@ + s@,
            Self::RevocationFailed(s) => "Capability revocation failed: "@ + s@,
            Self::ConstraintError(s) => "Capability constraint error: "@ + s@,
            Self::CompositionError(s) => "Capability composition error: "@ + s@,
            Self::SplitError(s) => "Capability split error: "@ + s@,
            Self::DelegationFailed(s) => "Capability delegation failed: "@ + s@,
            Self::TypeMismatch { expected, actual } => "Capability type mismatch: expected "@ + expected@ + ", got "@ + actual@,
        }
    }

    /// The message of this error.
    pub fn to_string(&self) -> (r: String)
        ensures
            r@ == self.message(),
    {
        let r = match self {
            Self::NotFound(id) => prefixed("Capability not found: ", &id.to_string()),
            Self::NotGranted(s) => prefixed("Capability not granted: ", s),
            Self::PermissionDenied(s) => prefixed("Permission denied: ", s),
            Self::Invalid(s) => prefixed("Invalid capability: ", s),
            Self::RevocationFailed(s) => prefixed("Capability revocation failed: ", s),
            Self::ConstraintError(s) => prefixed("Capability constraint error: ", s),
            Self::CompositionError(s) => prefixed("Capability composition error: ", s),
            Self::SplitError(s) => prefixed("Capability split error: ", s),
            Self::DelegationFailed(s) => prefixed("Capability delegation failed: ", s),
            Self::TypeMismatch { expected, actual } => {
                let mut r = prefixed("Capability type mismatch: expected ", expected);
                r.append(", got ");
                r.append(actual.as_str());
                r
            },
        };
        assert(r@ =~= self.message());
        r
    }
}

/// Concurrency-related errors.
#[derive(Debug, Clone, PartialEq, Eq)]
pub enum ConcurrencyError {
    /// Creating an instance failed.
    InstanceCreationFailed(String),
    /// No instance of a plugin is available.
    NoAvailableInstances(PluginId),
    /// The thread pool is exhausted.
    ThreadPoolExhausted,
    /// Acquiring an instance timed out after the given milliseconds.
    AcquisitionTimeout(u64, PluginId),
    /// An instance pool is full.
    PoolLimitReached(String),
    /// An actor failed to initialize.
    ActorInitFailed(String),
    /// Delivering a message to an actor failed.
    MessageDeliveryFailed(String),
    /// A supervisor failed.
    SupervisorError(String),
    /// An actor was not found.
    ActorNotFound(String),
    /// An actor's mailbox is full.
    MailboxFull(String),
    /// The actor system is shutting down.
    SystemShuttingDown,
    /// An actor crashed.
    ActorCrashed(String),
}

impl ConcurrencyError {
    /// The message of an error.
    pub open spec fn message(self) -> Seq<char> {
        match self {
            Self::InstanceCreationFailed(s) => "Failed to create instance: "@ + s@,
            Self::NoAvailableInstances(id) => "No available instances for plugin: "@ + uuid_text(id@),
            Self::ThreadPoolExhausted => "Thread pool exhausted"@,
            Self::AcquisitionTimeout(v, id) => "Acquisition timeout after "@ + decimal_text(v as nat) + "ms for plugin "@ + uuid_text(id@),
            Self::PoolLimitReached(s) => "Instance pool limit reached: "@ + s@,
            Self::ActorInitFailed(s) => "Actor initialization failed: "@ + s@,
            Self::MessageDeliveryFailed(s) => "Actor message delivery failed: "@ + s@,
            Self::SupervisorError(s) => "Supervisor error: "@ + s@,
            Self::ActorNotFound(s) => "Actor not found: "@ + s@,
            Self::MailboxFull(s) => "Actor mailbox full: "@ + s@,
            Self::SystemShuttingDown => "Actor system shutting down"@,
            Self::ActorCrashed(s) => "Actor crashed: "@ + s@,
        }
    }

    /// The message of this error.
    pub fn to_string(&self) -> (r: String)
        ensures
            r@ == self.message(),
    {
        let r = match self {
            Self::InstanceCreationFailed(s) => prefixed("Failed to create instance: ", s),
            Self::NoAvailableInstances(id) => prefixed("No available instances for plugin: ", &id.to_string()),
            Self::ThreadPoolExhausted => String::from_str("Thread pool exhausted"),
            Self::AcquisitionTimeout(v, id) => {
                let mut r = String::from_str("Acquisition timeout after ");
                append_decimal(&mut r, *v);
                r.append("ms for plugin ");
                let t = id.to_string();
                r.append(t.as_str());
                r
            },
            Self::PoolLimitReached(s) => prefixed("Instance pool limit reached: ", s),
            Self::ActorInitFailed(s) => prefixed("Actor initialization failed: ", s),
            Self::MessageDeliveryFailed(s) => prefixed("Actor message delivery failed: ", s),
            Self::SupervisorError(s) => prefixed("Supervisor error: ", s),
            Self::ActorNotFound(s) => prefixed("Actor not found: ", s),
            Self::MailboxFull(s) => prefixed("Actor mailbox full: ", s),
            Self::SystemShuttingDown => String::from_str("Actor system shutting down"),
            Self::ActorCrashed(s) => prefixed("Actor crashed: ", s),
        };
        assert(r@ =~= self.message());
        r
    }
}

/// Workflow-related errors.
#[derive(Debug, Clone, PartialEq, Eq)]
pub enum WorkflowError {
    /// A workflow was not found.
    WorkflowNotFound(WorkflowId),
    /// A node was not found.
    NodeNotFound(NodeId),
    /// A workflow definition is wrong.
    DefinitionError(String),
    /// A node failed to execute.
    NodeExecutionFailed(String),
    /// A workflow failed to execute.
    ExecutionFailed(String),
    /// A workflow timed out after the given milliseconds.
    Timeout(u64),
    /// A workflow was cancelled.
    Cancelled,
    /// The dependencies form a cycle.
    CyclicDependency,
    /// An execution was not found.
    ExecutionNotFound(ExecutionId),
    /// Persisting a workflow failed.
    PersistenceError(String),
    /// A node was retried as often as allowed.
    MaxRetryCountReached(NodeId),
    /// Dispatching a workflow failed.
    DispatchError(String),
    /// Recovering from a checkpoint failed.
    RecoveryFailed(String),
}

impl WorkflowError {
    /// The message of an error.
    pub open spec fn message(self) -> Seq<char> {
        match self {
            Self::WorkflowNotFound(id) => "Workflow not found: "@ + uuid_text(id@),
            Self::NodeNotFound(id) => "Node not found: "@ + uuid_text(id@),
            Self::DefinitionError(s) => "Workflow definition error: "@ + s@,
            Self::NodeExecutionFailed(s) => "Node execution failed: "@ + s@,
            Self::ExecutionFailed(s) => "Workflow execution failed: "@ + s@,
            Self::Timeout(v) => "Workflow timeout after "@ + decimal_text(v as nat) + "ms"@,
            Self::Cancelled => "Workflow cancelled"@,
            Self::CyclicDependency => "Cyclic dependency detected"@,
            Self::ExecutionNotFound(id) => "Execution not found: "@ + uuid_text(id@),
            Self::PersistenceError(s) => "Persistence error: "@ + s@,
            Self::MaxRetryCountReached(id) => "Max retry count reached for node: "@ + uuid_text(id@),
            Self::DispatchError(s) => "Workflow dispatch error: "@ + s@,
            Self::RecoveryFailed(s) => "Recovery from checkpoint failed: "@ + s@,
        }
    }

    /// The message of this error.
    pub fn to_string(&self) -> (r: String)
        ensures
            r@ == self.message(),
    {
        let r = match self {
            Self::WorkflowNotFound(id) => prefixed("Workflow not found: ", &id.to_string()),
            Self::NodeNotFound(id) => prefixed("Node not found: ", &id.to_string()),
            Self::DefinitionError(s) => prefixed("Workflow definition error: ", s),
            Self::NodeExecutionFailed(s) => prefixed("Node execution failed: ", s),
            Self::ExecutionFailed(s) => prefixed("Workflow execution failed: ", s),
            Self::Timeout(v) => {
                let mut r = String::from_str("Workflow timeout after ");
                append_decimal(&mut r, *v);
                r.append("ms");
                r
            },
            Self::Cancelled => String::from_str("Workflow cancelled"),
            Self::CyclicDependency => String::from_str("Cyclic dependency detected"),
            Self::ExecutionNotFound(id) => prefixed("Execution not found: ", &id.to_string()),
            Self::PersistenceError(s) => prefixed("Persistence error: ", s),
            Self::MaxRetryCountReached(id) => prefixed("Max retry count reached for node: ", &id.to_string()),
            Self::DispatchError(s) => prefixed("Workflow dispatch error: ", s),
            Self::RecoveryFailed(s) => prefixed("Recovery from checkpoint failed: ", s),
        };
        assert(r@ =~= self.message());
        r
    }
}

/// Distribution-related errors.
#[derive(Debug, Clone, PartialEq, Eq)]
pub enum DistributionError {
    /// A cluster node was not found.
    NodeNotFound(String),
    /// Communication failed.
    CommunicationFailed(String),
    /// Exporting a capability failed.
    CapabilityExportFailed(String),
    /// Importing a capability failed.
    CapabilityImportFailed(String),
    /// Validating a token failed.
    TokenValidationFailed(String),
    /// A remote call failed.
    RemoteCallFailed(String),
    /// Cluster membership failed.
    MembershipError(String),
    /// A message was not delivered.
    MessageNotDelivered(MessageId),
    /// A network partition was detected.
    NetworkPartition,
    /// Serializing a message failed.
    MessageSerializationError(String),
    /// Verifying a signature failed.
    SignatureVerificationFailed(String),
}

impl DistributionError {
    /// The message of an error.
    pub open spec fn message(self) -> Seq<char> {
        match self {
            Self::NodeNotFound(s) => "Node not found: "@ + s@,
            Self::CommunicationFailed(s) => "Communication failed: "@ + s@,
            Self::CapabilityExportFailed(s) => "Capability export failed: "@ + s@,
            Self::CapabilityImportFailed(s) => "Capability import failed: "@ + s@,
            Self::TokenValidationFailed(s) => "Token validation failed: "@ + s@,
            Self::RemoteCallFailed(s) => "Remote call failed: "@ + s@,
            Self::MembershipError(s) => "Cluster membership error: "@ + s@,
            Self::MessageNotDelivered(id) => "Message not delivered: "@ + uuid_text(id@),
            Self::NetworkPartition => "Network partition detected"@,
            Self::MessageSerializationError(s) => "Message serialization error: "@ + s@,
            Self::SignatureVerificationFailed(s) => "Signature verification failed: "@ + s@,
        }
    }

    /// The message of this error.
    pub fn to_string(&self) -> (r: String)
        ensures
            r@ == self.message(),
    {
        let r = match self {
            Self::NodeNotFound(s) => prefixed("Node not found: ", s),
            Self::CommunicationFailed(s) => prefixed("Communication failed: ", s),
            Self::CapabilityExportFailed(s) => prefixed("Capability export failed: ", s),
            Self::CapabilityImportFailed(s) => prefixed("Capability import failed: ", s),
            Self::TokenValidationFailed(s) => prefixed("Token validation failed: ", s),
            Self::RemoteCallFailed(s) => prefixed("Remote call failed: ", s),
            Self::MembershipError(s) => prefixed("Cluster membership error: ", s),
            Self::MessageNotDelivered(id) => prefixed("Message not delivered: ", &id.to_string()),
            Self::NetworkPartition => String::from_str("Network partition detected"),
            Self::MessageSerializationError(s) => prefixed("Message serialization error: ", s),
            Self::SignatureVerificationFailed(s) => prefixed("Signature verification failed: ", s),
        };
        assert(r@ =~= self.message());
        r
    }
}

/// Any error of the system.
#[derive(Debug)]
pub enum SystemError {
    /// A plugin error.
    Plugin(PluginError),
    /// A capability error.
    Capability(CapabilityError),
    /// A policy error.
    Policy(PolicyError),
    /// An isolation error.
    Isolation(IsolationError),
    /// A concurrency error.
    Concurrency(ConcurrencyError),
    /// A workflow error.
    Workflow(WorkflowError),
    /// A distribution error.
    Distribution(DistributionError),
    /// An observability error.
    Observability(ObservabilityError),
    /// A runtime error.
    Runtime(String),
    /// An I/O error.
    Io(std::io::Error),
    /// A serialization error.
    Serialization(String),
    /// An operation that is not implemented.
    NotImplemented(String),
}

impl SystemError {
    /// The prefix of an error's message.
    pub open spec fn prefix(self) -> Seq<char> {
        match self {
            Self::Plugin(_) => "Plugin error: "@,
            Self::Capability(_) => "Capability error: "@,
            Self::Policy(_) => "Policy error: "@,
            Self::Isolation(_) => "Isolation error: "@,
            Self::Concurrency(_) => "Concurrency error: "@,
            Self::Workflow(_) => "Workflow error: "@,
            Self::Distribution(_) => "Distribution error: "@,
            Self::Observability(_) => "Observability error: "@,
            Self::Runtime(_) => "Runtime error: "@,
            Self::Io(_) => "I/O error: "@,
            Self::Serialization(_) => "Serialization error: "@,
            Self::NotImplemented(_) => "Not implemented: "@,
        }
    }

    /// The detail of an error's message, where it is known text.
    pub open spec fn detail(self) -> Option<Seq<char>> {
        match self {
            Self::Plugin(e) => Some(e.message()),
            Self::Capability(e) => Some(e.message()),
            Self::Policy(e) => Some(e.message()),
            Self::Isolation(e) => Some(e.message()),
            Self::Concurrency(e) => Some(e.message()),
            Self::Workflow(e) => Some(e.message()),
            Self::Distribution(e) => Some(e.message()),
            Self::Observability(e) => Some(e.message()),
            Self::Runtime(s) => Some(s@),
            Self::Io(_) => None,
            Self::Serialization(s) => Some(s@),
            Self::NotImplemented(s) => Some(s@),
        }
    }

    /// The message of this error: its prefix, then the inner error's message or the detail
    /// (for an I/O error, the error's own text).
    pub fn to_string(&self) -> (r: String)
        ensures
            r@.len() >= self.prefix().len(),
            r@.subrange(0, self.prefix().len() as int) == self.prefix(),
            self.detail() matches Some(d) ==> r@ == self.prefix() + d,
    {
        let r = match self {
            Self::Plugin(e) => prefixed("Plugin error: ", &e.to_string()),
            Self::Capability(e) => prefixed("Capability error: ", &e.to_string()),
            Self::Policy(e) => prefixed("Policy error: ", &e.to_string()),
            Self::Isolation(e) => prefixed("Isolation error: ", &e.to_string()),
            Self::Concurrency(e) => prefixed("Concurrency error: ", &e.to_string()),
            Self::Workflow(e) => prefixed("Workflow error: ", &e.to_string()),
            Self::Distribution(e) => prefixed("Distribution error: ", &e.to_string()),
            Self::Observability(e) => prefixed("Observability error: ", &e.to_string()),
            Self::Runtime(s) => prefixed("Runtime error: ", s),
            Self::Io(e) => prefixed("I/O error: ", &io_error_text(e)),
            Self::Serialization(s) => prefixed("Serialization error: ", s),
            Self::NotImplemented(s) => prefixed("Not implemented: ", s),
        };
        assert(r@.subrange(0, self.prefix().len() as int) =~= self.prefix());
        r
    }
}

impl From<PluginError> for SystemError {
    fn from(e: PluginError) -> (r: Self) {
        SystemError::Plugin(e)
    }
}

impl vstd::std_specs::convert::FromSpecImpl<PluginError> for SystemError {
    open spec fn obeys_from_spec() -> bool {
        true
    }

    open spec fn from_spec(v: PluginError) -> Self {
        SystemError::Plugin(v)
    }
}

impl From<CapabilityError> for SystemError {
    fn from(e: CapabilityError) -> (r: Self) {
        SystemError::Capability(e)
    }
}

impl vstd::std_specs::convert::FromSpecImpl<CapabilityError> for SystemError {
    open spec fn obeys_from_spec() -> bool {
        true
    }

    open spec fn from_spec(v: CapabilityError) -> Self {
        SystemError::Capability(v)
    }
}

impl From<PolicyError> for SystemError {
    fn from(e: PolicyError) -> (r: Self) {
        SystemError::Policy(e)
    }
}

impl vstd::std_specs::convert::FromSpecImpl<PolicyError> for SystemError {
    open spec fn obeys_from_spec() -> bool {
        true
    }

    open spec fn from_spec(v: PolicyError) -> Self {
        SystemError::Policy(v)
    }
}

impl From<IsolationError> for SystemError {
    fn from(e: IsolationError) -> (r: Self) {
        SystemError::Isolation(e)
    }
}

impl vstd::std_specs::convert::FromSpecImpl<IsolationError> for SystemError {
    open spec fn obeys_from_spec() -> bool {
        true
    }

    open spec fn from_spec(v: IsolationError) -> Self {
        SystemError::Isolation(v)
    }
}

impl From<ConcurrencyError> for SystemError {
    fn from(e: ConcurrencyError) -> (r: Self) {
        SystemError::Concurrency(e)
    }
}

impl vstd::std_specs::convert::FromSpecImpl<ConcurrencyError> for SystemError {
    open spec fn obeys_from_spec() -> bool {
        true
    }

    open spec fn from_spec(v: ConcurrencyError) -> Self {
        SystemError::Concurrency(v)
    }
}

impl From<WorkflowError> for SystemError {
    fn from(e: WorkflowError) -> (r: Self) {
        SystemError::Workflow(e)
    }
}

impl vstd::std_specs::convert::FromSpecImpl<WorkflowError> for SystemError {
    open spec fn obeys_from_spec() -> bool {
        true
    }

    open spec fn from_spec(v: WorkflowError) -> Self {
        SystemError::Workflow(v)
    }
}

impl From<DistributionError> for SystemError {
    fn from(e: DistributionError) -> (r: Self) {
        SystemError::Distribution(e)
    }
}

impl vstd::std_specs::convert::FromSpecImpl<DistributionError> for SystemError {
    open spec fn obeys_from_spec() -> bool {
        true
    }

    open spec fn from_spec(v: DistributionError) -> Self {
        SystemError::Distribution(v)
    }
}

impl From<ObservabilityError> for SystemError {
    fn from(e: ObservabilityError) -> (r: Self) {
        SystemError::Observability(e)
    }
}

impl vstd::std_specs::convert::FromSpecImpl<ObservabilityError> for SystemError {
    open spec fn obeys_from_spec() -> bool {
        true
    }

    open spec fn from_spec(v: ObservabilityError) -> Self {
        SystemError::Observability(v)
    }
}

impl From<std::io::Error> for SystemError {
    fn from(e: std::io::Error) -> (r: Self) {
        SystemError::Io(e)
    }
}

impl vstd::std_specs::convert::FromSpecImpl<std::io::Error> for SystemError {
    open spec fn obeys_from_spec() -> bool {
        true
    }

    open spec fn from_spec(v: std::io::Error) -> Self {
        SystemError::Io(v)
    }
}

} // verus!
