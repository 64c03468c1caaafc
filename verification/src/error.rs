//! The error type shared by every operation of the framework, with helpers
//! that add context to an error, classify it and suggest a fix.

use vstd::prelude::*;
use vstd::string::StringExecFns;
use crate::json::value::str_opt;
use crate::text::{contains_sub, str_contains};

verus! {

/// Comprehensive error enum covering the failures of the framework.
#[derive(Debug, Clone)]
pub enum ErenFlowError {
    /// Invalid or malformed configuration
    ConfigError(String),
    /// Issues with graph structure or operations
    GraphError(String),
    /// Node not found in the graph
    NodeNotFound(String),
    /// Invalid edge definition
    InvalidEdge(String),
    /// Cycle detected in acyclic graph
    CycleDetected,
    /// Error during node execution
    NodeExecutionError(String),
    /// Runtime orchestration error
    RuntimeError(String),
    /// Invalid state transition
    InvalidStateTransition(String),
    /// Execution failed
    ExecutionError(String),
    /// Execution aborted by middleware
    ExecutionAborted(String),
    /// Operation timed out
    TimeoutError,
    /// Execution timeout
    ExecutionTimeout(String),
    /// Error during parallel execution
    ParallelExecutionError(String),
    /// Error with state management
    StateError(String),
    /// LLM operation failed
    LLMError(String),
    /// MCP (Model Context Protocol) operation failed
    MCPError(String),
    /// Tool operation failed
    ToolError(String),
    /// Validation error (e.g., schema validation)
    ValidationError(String),
    /// JSON serialization/deserialization failed
    SerializationError(String),
    /// YAML parsing failed
    YamlError(String),
    /// File I/O operation failed
    IoError(String),
}

/// Convenient result type of the framework's operations.
pub type Result<T> = std::result::Result<T, ErenFlowError>;

/// The variant of an `ErenFlowError`, without its detail.
#[derive(Debug, Clone, Copy, PartialEq, Eq, Structural)]
pub enum ErrorVariant {
    ConfigError,
    GraphError,
    NodeNotFound,
    InvalidEdge,
    CycleDetected,
    NodeExecutionError,
    RuntimeError,
    InvalidStateTransition,
    ExecutionError,
    ExecutionAborted,
    TimeoutError,
    ExecutionTimeout,
    ParallelExecutionError,
    StateError,
    LLMError,
    MCPError,
    ToolError,
    ValidationError,
    SerializationError,
    YamlError,
    IoError,
}

/// The variant of an error.
pub open spec fn variant_of(e: ErenFlowError) -> ErrorVariant {
    match e {
        ErenFlowError::ConfigError(_) => ErrorVariant::ConfigError,
        ErenFlowError::GraphError(_) => ErrorVariant::GraphError,
        ErenFlowError::NodeNotFound(_) => ErrorVariant::NodeNotFound,
        ErenFlowError::InvalidEdge(_) => ErrorVariant::InvalidEdge,
        ErenFlowError::CycleDetected => ErrorVariant::CycleDetected,
        ErenFlowError::NodeExecutionError(_) => ErrorVariant::NodeExecutionError,
        ErenFlowError::RuntimeError(_) => ErrorVariant::RuntimeError,
        ErenFlowError::InvalidStateTransition(_) => ErrorVariant::InvalidStateTransition,
        ErenFlowError::ExecutionError(_) => ErrorVariant::ExecutionError,
        ErenFlowError::ExecutionAborted(_) => ErrorVariant::ExecutionAborted,
        ErenFlowError::TimeoutError => ErrorVariant::TimeoutError,
        ErenFlowError::ExecutionTimeout(_) => ErrorVariant::ExecutionTimeout,
        ErenFlowError::ParallelExecutionError(_) => ErrorVariant::ParallelExecutionError,
        ErenFlowError::StateError(_) => ErrorVariant::StateError,
        ErenFlowError::LLMError(_) => ErrorVariant::LLMError,
        ErenFlowError::MCPError(_) => ErrorVariant::MCPError,
        ErenFlowError::ToolError(_) => ErrorVariant::ToolError,
        ErenFlowError::ValidationError(_) => ErrorVariant::ValidationError,
        ErenFlowError::SerializationError(_) => ErrorVariant::SerializationError,
        ErenFlowError::YamlError(_) => ErrorVariant::YamlError,
        ErenFlowError::IoError(_) => ErrorVariant::IoError,
    }
}

/// The detail message an error carries, if its variant has one.
pub open spec fn detail_of(e: ErenFlowError) -> Option<Seq<char>> {
    match e {
        ErenFlowError::ConfigError(m) => Some(m@),
        ErenFlowError::GraphError(m) => Some(m@),
        ErenFlowError::NodeNotFound(m) => Some(m@),
        ErenFlowError::InvalidEdge(m) => Some(m@),
        ErenFlowError::CycleDetected => None,
        ErenFlowError::NodeExecutionError(m) => Some(m@),
        ErenFlowError::RuntimeError(m) => Some(m@),
        ErenFlowError::InvalidStateTransition(m) => Some(m@),
        ErenFlowError::ExecutionError(m) => Some(m@),
        ErenFlowError::ExecutionAborted(m) => Some(m@),
        ErenFlowError::TimeoutError => None,
        ErenFlowError::ExecutionTimeout(m) => Some(m@),
        ErenFlowError::ParallelExecutionError(m) => Some(m@),
        ErenFlowError::StateError(m) => Some(m@),
        ErenFlowError::LLMError(m) => Some(m@),
        ErenFlowError::MCPError(m) => Some(m@),
        ErenFlowError::ToolError(m) => Some(m@),
        ErenFlowError::ValidationError(m) => Some(m@),
        ErenFlowError::SerializationError(m) => Some(m@),
        ErenFlowError::YamlError(m) => Some(m@),
        ErenFlowError::IoError(m) => Some(m@),
    }
}

/// What an error of a variant displays before its detail (the whole text
/// for the variants without detail).
pub open spec fn variant_label(v: ErrorVariant) -> Seq<char> {
    match v {
        ErrorVariant::ConfigError => "Configuration error: "@,
        ErrorVariant::GraphError => "Graph error: "@,
        ErrorVariant::NodeNotFound => "Node not found: "@,
        ErrorVariant::InvalidEdge => "Invalid edge: "@,
        ErrorVariant::CycleDetected => "Cycle detected in graph"@,
        ErrorVariant::NodeExecutionError => "Node execution error: "@,
        ErrorVariant::RuntimeError => "Runtime error: "@,
        ErrorVariant::InvalidStateTransition => "Invalid state transition: "@,
        ErrorVariant::ExecutionError => "Execution error: "@,
        ErrorVariant::ExecutionAborted => "Execution aborted: "@,
        ErrorVariant::TimeoutError => "Timeout error"@,
        ErrorVariant::ExecutionTimeout => "Execution timeout: "@,
        ErrorVariant::ParallelExecutionError => "Parallel execution error: "@,
        ErrorVariant::StateError => "State error: "@,
        ErrorVariant::LLMError => "LLM error: "@,
        ErrorVariant::MCPError => "MCP error: "@,
        ErrorVariant::ToolError => "Tool error: "@,
        ErrorVariant::ValidationError => "Validation error: "@,
        ErrorVariant::SerializationError => "Serialization error: "@,
        ErrorVariant::YamlError => "YAML parse error: "@,
        ErrorVariant::IoError => "IO error: "@,
    }
}

/// The text an error displays.
pub open spec fn error_text(e: ErenFlowError) -> Seq<char> {
    match detail_of(e) {
        Some(d) => variant_label(variant_of(e)) + d,
        None => variant_label(variant_of(e)),
    }
}

/// The variants to which `context` adds its message.
pub open spec fn takes_context(v: ErrorVariant) -> bool {

    v == ErrorVariant::ConfigError
        || v == ErrorVariant::NodeExecutionError
        || v == ErrorVariant::RuntimeError
        || v == ErrorVariant::StateError
        || v == ErrorVariant::LLMError
}

/// The hint given for an error, if any.
pub open spec fn hint_of(e: ErenFlowError) -> Option<Seq<char>> {
    match e {
        ErenFlowError::NodeNotFound(_) => Some(
            "Make sure the handler name in config.yaml matches a #[register_handler] function name"@,
        ),
        ErenFlowError::StateError(m) => if contains_sub(m@, "not found"@) {
            Some(
                "Check that previous nodes set this state field, or set it in main before agent.run()"@,
            )
        } else {
            None
        },
        ErenFlowError::LLMError(m) => if contains_sub(m@, "401"@) || contains_sub(m@, "Unauthorized"@) {
            Some(
                "Check your API key is valid and set correctly (e.g., $MISTRAL_API_KEY environment variable)"@,
            )
        } else {
            None
        },
        ErenFlowError::TimeoutError | ErenFlowError::ExecutionTimeout(_) => Some(
            "Increase the timeout value in config.yaml for this node, or optimize handler performance"@,
        ),
        ErenFlowError::ConfigError(_) => Some(
            "Ensure config.yaml is valid YAML and all required fields are present"@,
        ),
        _ => None,
    }
}

/// Errors of one variant are classified alike by `is_timeout`,
/// `is_validation_error`, `is_llm_error` and `is_state_error`; since
/// `context` keeps the variant, adding context never changes how an error
/// is classified.
pub proof fn lemma_variant_decides_classification(a: ErenFlowError, b: ErenFlowError)
    requires
        variant_of(a) == variant_of(b),
    ensures
        (a is TimeoutError || a is ExecutionTimeout) == (b is TimeoutError || b is ExecutionTimeout),
        (a is ValidationError) == (b is ValidationError),
        (a is LLMError) == (b is LLMError),
        (a is StateError) == (b is StateError),
{
}

/// `inner`, a line break, `Context: ` and `msg`.
fn with_context_text(inner: String, msg: &str) -> (r: String)
    ensures
        r@ == inner@ + "\nContext: "@ + msg@,
{
    let mut r = inner;
    r.append("\nContext: ");
    r.append(msg);
    r
}

impl ErenFlowError {
    /// The variant of this error.
    pub fn variant(&self) -> (r: ErrorVariant)
        ensures
            r == variant_of(*self),
    {
        match self {
            ErenFlowError::ConfigError(_) => ErrorVariant::ConfigError,
            ErenFlowError::GraphError(_) => ErrorVariant::GraphError,
            ErenFlowError::NodeNotFound(_) => ErrorVariant::NodeNotFound,
            ErenFlowError::InvalidEdge(_) => ErrorVariant::InvalidEdge,
            ErenFlowError::CycleDetected => ErrorVariant::CycleDetected,
            ErenFlowError::NodeExecutionError(_) => ErrorVariant::NodeExecutionError,
            ErenFlowError::RuntimeError(_) => ErrorVariant::RuntimeError,
            ErenFlowError::InvalidStateTransition(_) => ErrorVariant::InvalidStateTransition,
            ErenFlowError::ExecutionError(_) => ErrorVariant::ExecutionError,
            ErenFlowError::ExecutionAborted(_) => ErrorVariant::ExecutionAborted,
            ErenFlowError::TimeoutError => ErrorVariant::TimeoutError,
            ErenFlowError::ExecutionTimeout(_) => ErrorVariant::ExecutionTimeout,
            ErenFlowError::ParallelExecutionError(_) => ErrorVariant::ParallelExecutionError,
            ErenFlowError::StateError(_) => ErrorVariant::StateError,
            ErenFlowError::LLMError(_) => ErrorVariant::LLMError,
            ErenFlowError::MCPError(_) => ErrorVariant::MCPError,
            ErenFlowError::ToolError(_) => ErrorVariant::ToolError,
            ErenFlowError::ValidationError(_) => ErrorVariant::ValidationError,
            ErenFlowError::SerializationError(_) => ErrorVariant::SerializationError,
            ErenFlowError::YamlError(_) => ErrorVariant::YamlError,
            ErenFlowError::IoError(_) => ErrorVariant::IoError,
        }
    }

    /// Adds context to the message of a configuration, node execution,
    /// runtime, state or LLM error; other errors come back unchanged.
    pub fn context(self, msg: &str) -> (r: Self)
        ensures
            variant_of(r) == variant_of(self),
            detail_of(r) == (if takes_context(variant_of(self)) {
                Some(detail_of(self)->0 + "\nContext: "@ + msg@)
            } else {
                detail_of(self)
            }),
            !takes_context(variant_of(self)) ==> r == self,
    {
        match self {
            ErenFlowError::ConfigError(inner) => ErenFlowError::ConfigError(with_context_text(inner, msg)),
            ErenFlowError::NodeExecutionError(inner) => ErenFlowError::NodeExecutionError(with_context_text(inner, msg)),
            ErenFlowError::RuntimeError(inner) => ErenFlowError::RuntimeError(with_context_text(inner, msg)),
            ErenFlowError::StateError(inner) => ErenFlowError::StateError(with_context_text(inner, msg)),
            ErenFlowError::LLMError(inner) => ErenFlowError::LLMError(with_context_text(inner, msg)),
            other => other,
        }
    }

    /// Whether this error is a timeout.
    pub fn is_timeout(&self) -> (r: bool)
        ensures
            r == (*self is TimeoutError || *self is ExecutionTimeout),
    {
        matches!(self, ErenFlowError::TimeoutError | ErenFlowError::ExecutionTimeout(_))
    }

    /// Whether this error is a validation error.
    pub fn is_validation_error(&self) -> (r: bool)
        ensures
            r == (*self is ValidationError),
    {
        matches!(self, ErenFlowError::ValidationError(_))
    }

    /// Whether this error is an LLM error.
    pub fn is_llm_error(&self) -> (r: bool)
        ensures
            r == (*self is LLMError),
    {
        matches!(self, ErenFlowError::LLMError(_))
    }

    /// Whether this error is a state error.
    pub fn is_state_error(&self) -> (r: bool)
        ensures
            r == (*self is StateError),
    {
        matches!(self, ErenFlowError::StateError(_))
    }

    /// A hint for common error scenarios.
    pub fn hint(&self) -> (r: Option<&'static str>)
        ensures
            str_opt(r) == hint_of(*self),
    {
        match self {
            ErenFlowError::NodeNotFound(_) => Some(
                "Make sure the handler name in config.yaml matches a #[register_handler] function name",
            ),
            ErenFlowError::StateError(msg) => if str_contains(msg.as_str(), "not found") {
                Some(
                    "Check that previous nodes set this state field, or set it in main before agent.run()",
                )
            } else {
                None
            },
            ErenFlowError::LLMError(msg) => if str_contains(msg.as_str(), "401") || str_contains(
                msg.as_str(),
                "Unauthorized",
            ) {
                Some(
                    "Check your API key is valid and set correctly (e.g., $MISTRAL_API_KEY environment variable)",
                )
            } else {
                None
            },
            ErenFlowError::TimeoutError | ErenFlowError::ExecutionTimeout(_) => Some(
                "Increase the timeout value in config.yaml for this node, or optimize handler performance",
            ),
            ErenFlowError::ConfigError(_) => Some(
                "Ensure config.yaml is valid YAML and all required fields are present",
            ),
            _ => None,
        }
    }

    /// The text this error displays.
    pub fn message(&self) -> (r: String)
        ensures
            r@ == error_text(*self),
    {
        let mut r = String::new();
        match self {
            ErenFlowError::ConfigError(m) => {
                r.append("Configuration error: ");
                r.append(m.as_str());
            },
            ErenFlowError::GraphError(m) => {
                r.append("Graph error: ");
                r.append(m.as_str());
            },
            ErenFlowError::NodeNotFound(m) => {
                r.append("Node not found: ");
                r.append(m.as_str());
            },
            ErenFlowError::InvalidEdge(m) => {
                r.append("Invalid edge: ");
                r.append(m.as_str());
            },
            ErenFlowError::CycleDetected => {
                r.append("Cycle detected in graph");
            },
            ErenFlowError::NodeExecutionError(m) => {
                r.append("Node execution error: ");
                r.append(m.as_str());
            },
            ErenFlowError::RuntimeError(m) => {
                r.append("Runtime error: ");
                r.append(m.as_str());
            },
            ErenFlowError::InvalidStateTransition(m) => {
                r.append("Invalid state transition: ");
                r.append(m.as_str());
            },
            ErenFlowError::ExecutionError(m) => {
                r.append("Execution error: ");
                r.append(m.as_str());
            },
            ErenFlowError::ExecutionAborted(m) => {
                r.append("Execution aborted: ");
                r.append(m.as_str());
            },
            ErenFlowError::TimeoutError => {
                r.append("Timeout error");
            },
            ErenFlowError::ExecutionTimeout(m) => {
                r.append("Execution timeout: ");
                r.append(m.as_str());
            },
            ErenFlowError::ParallelExecutionError(m) => {
                r.append("Parallel execution error: ");
                r.append(m.as_str());
            },
            ErenFlowError::StateError(m) => {
                r.append("State error: ");
                r.append(m.as_str());
            },
            ErenFlowError::LLMError(m) => {
                r.append("LLM error: ");
                r.append(m.as_str());
            },
            ErenFlowError::MCPError(m) => {
                r.append("MCP error: ");
                r.append(m.as_str());
            },
            ErenFlowError::ToolError(m) => {
                r.append("Tool error: ");
                r.append(m.as_str());
            },
            ErenFlowError::ValidationError(m) => {
                r.append("Validation error: ");
                r.append(m.as_str());
            },
            ErenFlowError::SerializationError(m) => {
                r.append("Serialization error: ");
                r.append(m.as_str());
            },
            ErenFlowError::YamlError(m) => {
                r.append("YAML parse error: ");
                r.append(m.as_str());
            },
            ErenFlowError::IoError(m) => {
                r.append("IO error: ");
                r.append(m.as_str());
            },
        }
        assert(r@ =~= error_text(*self));
        r
    }
}

impl From<String> for ErenFlowError {
    /// A plain message becomes an execution error.
    fn from(s: String) -> (r: Self)
        ensures
            r == ErenFlowError::ExecutionError(s),
    {
        ErenFlowError::ExecutionError(s)
    }
}

impl vstd::std_specs::convert::FromSpecImpl<String> for ErenFlowError {
    open spec fn obeys_from_spec() -> bool {
        true
    }

    open spec fn from_spec(s: String) -> Self {
        ErenFlowError::ExecutionError(s)
    }
}

impl From<&str> for ErenFlowError {
    /// A plain message becomes an execution error.
    fn from(s: &str) -> (r: Self)
        ensures
            r matches ErenFlowError::ExecutionError(m) && m@ == s@,
    {
        let mut m = String::new();
        m.append(s);
        assert(m@ =~= s@);
        ErenFlowError::ExecutionError(m)
    }
}

impl vstd::std_specs::convert::FromSpecImpl<&str> for ErenFlowError {
    open spec fn obeys_from_spec() -> bool {
        false
    }

    open spec fn from_spec(s: &str) -> Self {
        ErenFlowError::ExecutionError(vstd::pervasive::arbitrary())
    }
}

/// `serde_json`'s error type.
#[verifier::external_type_specification]
#[verifier::external_body]
pub struct ExSerdeJsonError(serde_json::Error);

impl From<serde_json::Error> for ErenFlowError {
    /// A JSON error becomes a serialization error carrying its message.
    fn from(e: serde_json::Error) -> (r: Self)
        ensures
            r matches ErenFlowError::SerializationError(m)
                && vstd::string::to_string_from_display_ensures::<serde_json::Error>(&e, m),
    {
        ErenFlowError::SerializationError(e.to_string())
    }
}

impl vstd::std_specs::convert::FromSpecImpl<serde_json::Error> for ErenFlowError {
    open spec fn obeys_from_spec() -> bool {
        false
    }

    open spec fn from_spec(e: serde_json::Error) -> Self {
        ErenFlowError::SerializationError(vstd::pervasive::arbitrary())
    }
}

/// The standard library's I/O error type.
#[verifier::external_type_specification]
#[verifier::external_body]
pub struct ExIoError(std::io::Error);

impl From<std::io::Error> for ErenFlowError {
    /// An I/O error becomes an I/O error of the framework carrying its
    /// message.
    fn from(e: std::io::Error) -> (r: Self)
        ensures
            r matches ErenFlowError::IoError(m)
                && vstd::string::to_string_from_display_ensures::<std::io::Error>(&e, m),
    {
        ErenFlowError::IoError(e.to_string())
    }
}

impl vstd::std_specs::convert::FromSpecImpl<std::io::Error> for ErenFlowError {
    open spec fn obeys_from_spec() -> bool {
        false
    }

    open spec fn from_spec(e: std::io::Error) -> Self {
        ErenFlowError::IoError(vstd::pervasive::arbitrary())
    }
}

} // verus!
