use jupyter2llm::JupyterConverter;

#[test]
fn test_converter_creation() {
    let converter = JupyterConverter::new();
    assert!(!converter.include_outputs);
    assert!(!converter.include_metadata);
}

#[test]
fn test_converter_with_options() {
    let converter = JupyterConverter::new().with_outputs(true).with_metadata(true);
    assert!(converter.include_outputs);
    assert!(converter.include_metadata);
}

#[test]
fn test_converter_default() {
    let converter = JupyterConverter::default();
    assert!(!converter.include_outputs);
    assert!(!converter.include_metadata);
}

#[test]
fn test_with_options_off_again() {
    let converter = JupyterConverter::new()
        .with_outputs(true)
        .with_metadata(true)
        .with_outputs(false)
        .with_metadata(false);
    assert!(!converter.include_outputs);
    assert!(!converter.include_metadata);
}
