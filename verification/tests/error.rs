use erenflow::error::{ErenFlowError, ErrorVariant};

#[test]
fn context_extends_five_variants() {
    let err = ErenFlowError::ConfigError("invalid value".to_string());
    let c = err.context("while loading agent config from 'config.yaml'");
    match &c {
        ErenFlowError::ConfigError(m) => {
            assert_eq!(m, "invalid value\nContext: while loading agent config from 'config.yaml'")
        }
        other => panic!("unexpected {:?}", other),
    }
    for e in [
        ErenFlowError::NodeExecutionError("a".to_string()),
        ErenFlowError::RuntimeError("a".to_string()),
        ErenFlowError::StateError("a".to_string()),
        ErenFlowError::LLMError("a".to_string()),
    ] {
        let v = e.variant();
        let c = e.context("ctx");
        assert_eq!(c.variant(), v);
        assert!(c.message().ends_with("a\nContext: ctx"));
    }
}

#[test]
fn context_leaves_other_variants() {
    let c = ErenFlowError::GraphError("g".to_string()).context("ctx");
    assert_eq!(c.message(), "Graph error: g");
    let c = ErenFlowError::TimeoutError.context("ctx");
    assert!(matches!(c, ErenFlowError::TimeoutError));
}

#[test]
fn classification() {
    assert!(ErenFlowError::TimeoutError.is_timeout());
    assert!(ErenFlowError::ExecutionTimeout("t".to_string()).is_timeout());
    assert!(!ErenFlowError::ExecutionError("t".to_string()).is_timeout());
    assert!(ErenFlowError::ValidationError("v".to_string()).is_validation_error());
    assert!(!ErenFlowError::StateError("v".to_string()).is_validation_error());
    assert!(ErenFlowError::LLMError("l".to_string()).is_llm_error());
    assert!(!ErenFlowError::MCPError("l".to_string()).is_llm_error());
    assert!(ErenFlowError::StateError("s".to_string()).is_state_error());
    assert!(!ErenFlowError::CycleDetected.is_state_error());
    // context keeps the classification
    assert!(ErenFlowError::StateError("s".to_string()).context("c").is_state_error());
}

#[test]
fn hints() {
    assert!(ErenFlowError::NodeNotFound("n".to_string()).hint().unwrap().contains("register_handler"));
    assert!(ErenFlowError::StateError("key not found".to_string()).hint().unwrap().starts_with("Check that previous nodes"));
    assert_eq!(ErenFlowError::StateError("locked".to_string()).hint(), None);
    assert!(ErenFlowError::LLMError("HTTP 401".to_string()).hint().unwrap().contains("API key"));
    assert!(ErenFlowError::LLMError("Unauthorized".to_string()).hint().is_some());
    assert_eq!(ErenFlowError::LLMError("rate limited".to_string()).hint(), None);
    assert!(ErenFlowError::TimeoutError.hint().unwrap().starts_with("Increase the timeout"));
    assert!(ErenFlowError::ExecutionTimeout("x".to_string()).hint().is_some());
    assert_eq!(
        ErenFlowError::ConfigError("x".to_string()).hint(),
        Some("Ensure config.yaml is valid YAML and all required fields are present")
    );
    assert_eq!(ErenFlowError::ToolError("x".to_string()).hint(), None);
}

#[test]
fn test_error_messages() {
    assert!(ErenFlowError::ConfigError("Test error".to_string()).message().contains("Configuration error"));
    assert_eq!(ErenFlowError::NodeNotFound("test_node".to_string()).message(), "Node not found: test_node");
    assert_eq!(ErenFlowError::RuntimeError("runtime".to_string()).message(), "Runtime error: runtime");
    assert_eq!(ErenFlowError::ExecutionError("test".to_string()).message(), "Execution error: test");
    assert_eq!(ErenFlowError::CycleDetected.message(), "Cycle detected in graph");
    assert_eq!(ErenFlowError::TimeoutError.message(), "Timeout error");
    assert_eq!(ErenFlowError::YamlError("bad".to_string()).message(), "YAML parse error: bad");
    assert_eq!(ErenFlowError::IoError("disk".to_string()).message(), "IO error: disk");
}

#[test]
fn conversions() {
    let e: ErenFlowError = "boom".into();
    assert_eq!(e.variant(), ErrorVariant::ExecutionError);
    assert_eq!(e.message(), "Execution error: boom");
    let e: ErenFlowError = String::from("bang").into();
    assert_eq!(e.message(), "Execution error: bang");
    let json_err = serde_json::from_str::<serde_json::Value>("{").unwrap_err();
    let text = json_err.to_string();
    let e: ErenFlowError = json_err.into();
    assert_eq!(e.variant(), ErrorVariant::SerializationError);
    assert_eq!(e.message(), format!("Serialization error: {}", text));
    let io = std::io::Error::new(std::io::ErrorKind::Other, "disk full");
    let e: ErenFlowError = io.into();
    assert_eq!(e.message(), "IO error: disk full");
}
