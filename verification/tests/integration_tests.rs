use jupyter2llm::JupyterConverter;
use jupyter2llm::model::{Cell, JsonValue, JupyterError, Notebook, Output};
use jupyter2llm::parse::notebook_from_json;

fn create_sample_notebook() -> String {
    let notebook_json = r##"{
 "cells": [
  {
   "cell_type": "markdown",
   "metadata": {},
   "source": [
    "# Test Notebook"
   ]
  },
  {
   "cell_type": "code",
   "execution_count": 1,
   "metadata": {},
   "outputs": [
    {
     "name": "stdout",
     "output_type": "stream",
     "text": [
      "Hello from test"
     ]
    }
   ],
   "source": [
    "print(\"Hello from test\")"
   ]
  }
 ],
 "metadata": {
  "kernelspec": {
   "display_name": "Python 3",
   "language": "python",
   "name": "python3"
  }
 },
 "nbformat": 4,
 "nbformat_minor": 4
}"##;
    notebook_json.to_string()
}

fn create_mixed_notebook() -> String {
    r##"{
 "cells": [
  {
   "cell_type": "markdown",
   "metadata": {},
   "source": ["# Header"]
  },
  {
   "cell_type": "code",
   "execution_count": 1,
   "metadata": {},
   "outputs": [],
   "source": ["x = 1"]
  },
  {
   "cell_type": "raw",
   "metadata": {},
   "source": ["Raw content"]
  }
 ],
 "metadata": {},
 "nbformat": 4,
 "nbformat_minor": 4
}"##
        .to_string()
}

fn create_empty_notebook() -> String {
    r##"{
 "cells": [],
 "metadata": {},
 "nbformat": 4,
 "nbformat_minor": 4
}"##
        .to_string()
}

fn create_invalid_cell_notebook() -> String {
    r##"{
 "cells": [
  {
   "cell_type": "invalid_type",
   "metadata": {},
   "source": ["test"]
  }
 ],
 "metadata": {},
 "nbformat": 4,
 "nbformat_minor": 4
}"##
        .to_string()
}

#[test]
fn test_basic_conversion() {
    let converter = JupyterConverter::new();
    let result = converter.convert_str(&create_sample_notebook()).unwrap();

    assert!(result.contains("Test Notebook"));
    assert!(result.contains("print(\"Hello from test\")"));
    assert!(result.contains("Cell 1: Markdown"));
    assert!(result.contains("Cell 2: Code"));
}

#[test]
fn test_basic_conversion_leaves_outputs_out() {
    let converter = JupyterConverter::new();
    let result = converter.convert_str(&create_sample_notebook()).unwrap();

    assert!(!result.contains("Outputs"));
    assert!(!result.contains("**Stream Output**:\n```\nHello from test\n```\n"));
}

#[test]
fn test_conversion_with_outputs() {
    let converter = JupyterConverter::new().with_outputs(true);
    let result = converter.convert_str(&create_sample_notebook()).unwrap();

    assert!(result.contains("Hello from test"));
    assert!(result.contains("Outputs"));
}

#[test]
fn test_conversion_with_metadata() {
    let converter = JupyterConverter::new().with_metadata(true);
    let result = converter.convert_str(&create_sample_notebook()).unwrap();

    assert!(result.contains("Jupyter Notebook"));
    assert!(result.contains("Kernel"));
    assert!(result.contains("Python 3"));
}

#[test]
fn test_conversion_with_metadata_names_kernel_and_count() {
    let converter = JupyterConverter::new().with_metadata(true);
    let result = converter.convert_str(&create_sample_notebook()).unwrap();

    assert!(result.contains("**Kernel**: python3"));
    assert!(result.contains("**Display Name**: Python 3"));
    assert!(result.contains("**Total Cells**: 2"));
}

#[test]
fn test_invalid_json() {
    let converter = JupyterConverter::new();
    let result = converter.convert_str("invalid json");

    assert!(result.is_err());
}

#[test]
fn test_invalid_cell_type() {
    let converter = JupyterConverter::new();
    let result = converter.convert_str(&create_invalid_cell_notebook());

    assert!(result.is_err());
}

#[test]
fn test_empty_notebook() {
    let converter = JupyterConverter::new().with_metadata(true);
    let result = converter.convert_str(&create_empty_notebook()).unwrap();

    assert!(result.contains("**Total Cells**: 0"));
}

#[test]
fn test_mixed_cell_types() {
    let converter = JupyterConverter::new();
    let result = converter.convert_str(&create_mixed_notebook()).unwrap();

    assert!(result.contains("Header"));
    assert!(result.contains("x = 1"));
    assert!(result.contains("Raw content"));
    assert!(result.contains("Markdown"));
    assert!(result.contains("Code"));
    assert!(result.contains("Raw"));
}

#[test]
fn test_with_simple_notebook_text() {
    let notebook_content = r##"{
 "cells": [
  {
   "cell_type": "markdown",
   "metadata": {},
   "source": ["# Simple Test Notebook"]
  },
  {
   "cell_type": "code",
   "execution_count": 1,
   "metadata": {},
   "outputs": [],
   "source": ["print(\"test\")"]
  }
 ],
 "metadata": {},
 "nbformat": 4,
 "nbformat_minor": 4
}"##;

    let converter = JupyterConverter::new();
    let result = converter.convert_str(notebook_content).unwrap();

    assert!(result.contains("Simple Test Notebook"));
    assert!(result.contains("print(\"test\")"));
    assert!(result.contains("Cell 1: Markdown"));
    assert!(result.contains("Cell 2: Code"));
}

fn markdown_cell(text: &str) -> Cell {
    Cell {
        cell_type: "markdown".to_string(),
        source: vec![text.to_string()],
        metadata: vec![],
        outputs: None,
        execution_count: None,
    }
}

#[test]
fn test_single_markdown_cell_exact() {
    let notebook = Notebook {
        cells: vec![markdown_cell("hi")],
        metadata: vec![],
        nbformat: 4,
        nbformat_minor: 2,
    };
    let out = JupyterConverter::new().convert_notebook(&notebook).unwrap();
    assert_eq!(out, "## Cell 1: Markdown\n```markdown\nhi\n```\n\n\n");
}

#[test]
fn test_code_cell_with_count_exact() {
    let notebook = Notebook {
        cells: vec![
            Cell {
                cell_type: "code".to_string(),
                source: vec!["x = 1".to_string()],
                metadata: vec![],
                outputs: None,
                execution_count: Some(12),
            },
        ],
        metadata: vec![],
        nbformat: 4,
        nbformat_minor: 4,
    };
    let out = JupyterConverter::new().convert_notebook(&notebook).unwrap();
    assert_eq!(out, "## Cell 1: Code\n*Execution Count: 12*\n```python\nx = 1\n```\n\n\n");
}

#[test]
fn test_metadata_block_exact() {
    let kernelspec = JsonValue::Object(vec![
        ("name".to_string(), JsonValue::Str("python3".to_string())),
        ("display_name".to_string(), JsonValue::Str("Python 3".to_string())),
    ]);
    let notebook = Notebook {
        cells: vec![],
        metadata: vec![("kernelspec".to_string(), kernelspec)],
        nbformat: 4,
        nbformat_minor: 4,
    };
    let out = JupyterConverter::new().with_metadata(true).convert_notebook(&notebook).unwrap();
    assert_eq!(
        out,
        "# Jupyter Notebook\n\n**Kernel**: python3\n**Display Name**: Python 3\n**Format**: nbformat 4.4\n**Total Cells**: 0\n\n\n"
    );
}

#[test]
fn test_rendering_is_deterministic() {
    let converter = JupyterConverter::new().with_outputs(true).with_metadata(true);
    let text = create_sample_notebook();
    let first = converter.convert_str(&text).unwrap();
    let second = converter.convert_str(&text).unwrap();
    assert_eq!(first, second);
}

#[test]
fn test_metadata_switch_only_prepends() {
    let text = create_mixed_notebook();
    let without = JupyterConverter::new().convert_str(&text).unwrap();
    let with = JupyterConverter::new().with_metadata(true).convert_str(&text).unwrap();
    assert!(with.starts_with("# Jupyter Notebook\n\n"));
    assert!(with.ends_with(&without));
}

#[test]
fn test_outputs_switch_never_touches_markdown_and_raw() {
    let notebook = Notebook {
        cells: vec![
            markdown_cell("# Header"),
            Cell {
                cell_type: "raw".to_string(),
                source: vec!["Raw content".to_string()],
                metadata: vec![],
                outputs: Some(vec![
                    Output {
                        output_type: "stream".to_string(),
                        text: Some(vec!["ignored".to_string()]),
                        data: None,
                        execution_count: None,
                    },
                ]),
                execution_count: None,
            },
        ],
        metadata: vec![],
        nbformat: 4,
        nbformat_minor: 4,
    };
    let without = JupyterConverter::new().convert_notebook(&notebook).unwrap();
    let with = JupyterConverter::new().with_outputs(true).convert_notebook(&notebook).unwrap();
    assert_eq!(without, with);
}

#[test]
fn test_outputs_switch_appends_after_code_source() {
    let cell_text = r##"{
 "cells": [
  {
   "cell_type": "code",
   "execution_count": 1,
   "metadata": {},
   "outputs": [
    {
     "output_type": "stream",
     "text": ["Hello from test"]
    }
   ],
   "source": ["print(\"Hello from test\")"]
  }
 ],
 "metadata": {},
 "nbformat": 4,
 "nbformat_minor": 4
}"##;
    let without = JupyterConverter::new().convert_str(cell_text).unwrap();
    let with = JupyterConverter::new().with_outputs(true).convert_str(cell_text).unwrap();
    let without_section = without.replace("\n\n", "");
    let with_section = with.replace("\n\n", "");
    assert!(with_section.starts_with(&without_section));
    assert!(with_section.contains("### Outputs\n**Stream Output**:\n```\nHello from test\n```\n"));
}

#[test]
fn test_empty_document_renders_empty() {
    let out = JupyterConverter::new().convert_str(&create_empty_notebook()).unwrap();
    assert_eq!(out, "");
}

#[test]
fn test_invalid_cell_type_error_carries_type() {
    let result = JupyterConverter::new().convert_str(&create_invalid_cell_notebook());
    match result {
        Err(JupyterError::InvalidCellType(t)) => {
            assert_eq!(t, "invalid_type");
        },
        _ => panic!("expected an invalid-cell-type error"),
    }
}

#[test]
fn test_invalid_cell_type_fails_in_any_position() {
    let text = r##"{
 "cells": [
  {
   "cell_type": "markdown",
   "metadata": {},
   "source": ["fine"]
  },
  {
   "cell_type": "first_bad",
   "metadata": {},
   "source": []
  },
  {
   "cell_type": "second_bad",
   "metadata": {},
   "source": []
  }
 ],
 "metadata": {},
 "nbformat": 4,
 "nbformat_minor": 4
}"##;
    let result = JupyterConverter::new().convert_str(text);
    match result {
        Err(JupyterError::InvalidCellType(t)) => {
            assert_eq!(t, "first_bad");
        },
        _ => panic!("expected an invalid-cell-type error"),
    }
}

#[test]
fn test_unrecognized_output_type_never_fails() {
    let text = r##"{
 "cells": [
  {
   "cell_type": "code",
   "metadata": {},
   "outputs": [
    {
     "output_type": "widget_state"
    }
   ],
   "source": ["x"]
  }
 ],
 "metadata": {},
 "nbformat": 4,
 "nbformat_minor": 4
}"##;
    let out = JupyterConverter::new().with_outputs(true).convert_str(text).unwrap();
    assert!(out.contains("**Output Type: widget_state**\n"));
}

#[test]
fn test_execute_result_string_and_array_forms() {
    let text = r##"{
 "cells": [
  {
   "cell_type": "code",
   "metadata": {},
   "outputs": [
    {
     "output_type": "execute_result",
     "data": {"text/plain": "42"}
    },
    {
     "output_type": "display_data",
     "data": {"text/plain": ["a", "b"]}
    }
   ],
   "source": []
  }
 ],
 "metadata": {},
 "nbformat": 4,
 "nbformat_minor": 4
}"##;
    let out = JupyterConverter::new().with_outputs(true).convert_str(text).unwrap();
    assert!(out.contains("**Result**:\n```\n42\n```\n"));
    assert!(out.contains("**Result**:\n```\na\nb\n```\n"));
}

#[test]
fn test_error_output_traceback() {
    let text = r##"{
 "cells": [
  {
   "cell_type": "code",
   "metadata": {},
   "outputs": [
    {
     "output_type": "error",
     "data": {"traceback": ["line one", "line two"]}
    }
   ],
   "source": []
  }
 ],
 "metadata": {},
 "nbformat": 4,
 "nbformat_minor": 4
}"##;
    let out = JupyterConverter::new().with_outputs(true).convert_str(text).unwrap();
    assert!(out.contains("**Error**:\n```\nline one\nline two\n```\n"));
}

#[test]
fn test_wrong_shape_is_a_parse_error() {
    let text = r##"{
 "cells": 5,
 "metadata": {},
 "nbformat": 4,
 "nbformat_minor": 4
}"##;
    let result = JupyterConverter::new().convert_str(text);
    match result {
        Err(JupyterError::JsonParseError(_)) => {},
        _ => panic!("expected a parse error"),
    }
}

#[test]
fn test_syntax_error_is_a_parse_error() {
    let result = JupyterConverter::new().convert_str("{\"cells\": [");
    match result {
        Err(JupyterError::JsonParseError(_)) => {},
        _ => panic!("expected a parse error"),
    }
}

#[test]
fn test_error_messages() {
    let e = JupyterError::FileReadError("gone".to_string());
    assert_eq!(e.message(), "Failed to read notebook file: gone");
    let e = JupyterError::JsonParseError("bad".to_string());
    assert_eq!(e.message(), "Failed to parse JSON: bad");
    let e = JupyterError::InvalidNotebookFormat("odd".to_string());
    assert_eq!(e.message(), "Invalid notebook format: odd");
    let e = JupyterError::InvalidCellType("mystery".to_string());
    assert_eq!(e.message(), "Notebook cell has invalid type: mystery");
}

#[test]
fn test_notebook_from_json_reads_the_shape() {
    let doc = JsonValue::Object(vec![
        (
            "cells".to_string(),
            JsonValue::Array(vec![
                JsonValue::Object(vec![
                    ("cell_type".to_string(), JsonValue::Str("markdown".to_string())),
                    ("metadata".to_string(), JsonValue::Object(vec![])),
                    (
                        "source".to_string(),
                        JsonValue::Array(vec![JsonValue::Str("# Hello".to_string())]),
                    ),
                ]),
            ]),
        ),
        ("metadata".to_string(), JsonValue::Object(vec![])),
        ("nbformat".to_string(), JsonValue::Num(Some(4))),
        ("nbformat_minor".to_string(), JsonValue::Num(Some(4))),
    ]);
    let notebook = notebook_from_json(&doc).unwrap();
    assert_eq!(notebook.cells.len(), 1);
    assert_eq!(notebook.cells[0].cell_type, "markdown");
    assert_eq!(notebook.cells[0].source, vec!["# Hello".to_string()]);
    assert_eq!(notebook.nbformat, 4);
    assert_eq!(notebook.nbformat_minor, 4);
}

#[test]
fn test_notebook_from_json_rejects_bad_source() {
    let doc = JsonValue::Object(vec![
        (
            "cells".to_string(),
            JsonValue::Array(vec![
                JsonValue::Object(vec![
                    ("cell_type".to_string(), JsonValue::Str("markdown".to_string())),
                    ("metadata".to_string(), JsonValue::Object(vec![])),
                    (
                        "source".to_string(),
                        JsonValue::Array(vec![JsonValue::Num(Some(7))]),
                    ),
                ]),
            ]),
        ),
        ("metadata".to_string(), JsonValue::Object(vec![])),
        ("nbformat".to_string(), JsonValue::Num(Some(4))),
        ("nbformat_minor".to_string(), JsonValue::Num(Some(4))),
    ]);
    assert!(notebook_from_json(&doc).is_err());
}

#[test]
fn test_cell_numbering_counts_every_cell() {
    let out = JupyterConverter::new().convert_str(&create_mixed_notebook()).unwrap();
    assert!(out.contains("## Cell 1: Markdown"));
    assert!(out.contains("## Cell 2: Code"));
    assert!(out.contains("## Cell 3: Raw"));
    assert!(!out.contains("## Cell 4"));
    let first = out.find("## Cell 1").unwrap();
    let second = out.find("## Cell 2").unwrap();
    let third = out.find("## Cell 3").unwrap();
    assert!(first < second && second < third);
}

#[test]
fn test_mixed_sections_no_cross_contamination() {
    let out = JupyterConverter::new().convert_str(&create_mixed_notebook()).unwrap();
    let md_start = out.find("## Cell 1: Markdown").unwrap();
    let code_start = out.find("## Cell 2: Code").unwrap();
    let raw_start = out.find("## Cell 3: Raw").unwrap();
    let md_section = &out[md_start..code_start];
    let code_section = &out[code_start..raw_start];
    let raw_section = &out[raw_start..];
    assert!(md_section.contains("# Header"));
    assert!(!md_section.contains("x = 1") && !md_section.contains("Raw content"));
    assert!(code_section.contains("x = 1"));
    assert!(!code_section.contains("# Header") && !code_section.contains("Raw content"));
    assert!(raw_section.contains("Raw content"));
    assert!(!raw_section.contains("x = 1") && !raw_section.contains("# Header"));
}

#[test]
fn test_empty_source_renders_empty_fenced_block() {
    let notebook = Notebook {
        cells: vec![
            Cell {
                cell_type: "raw".to_string(),
                source: vec![],
                metadata: vec![],
                outputs: None,
                execution_count: None,
            },
        ],
        metadata: vec![],
        nbformat: 4,
        nbformat_minor: 4,
    };
    let out = JupyterConverter::new().convert_notebook(&notebook).unwrap();
    assert_eq!(out, "## Cell 1: Raw\n```\n```\n\n\n");
}

#[test]
fn test_empty_outputs_render_no_outputs_section() {
    let with_none = Notebook {
        cells: vec![
            Cell {
                cell_type: "code".to_string(),
                source: vec!["x = 1".to_string()],
                metadata: vec![],
                outputs: None,
                execution_count: None,
            },
        ],
        metadata: vec![],
        nbformat: 4,
        nbformat_minor: 4,
    };
    let with_empty = Notebook {
        cells: vec![
            Cell {
                cell_type: "code".to_string(),
                source: vec!["x = 1".to_string()],
                metadata: vec![],
                outputs: Some(vec![]),
                execution_count: None,
            },
        ],
        metadata: vec![],
        nbformat: 4,
        nbformat_minor: 4,
    };
    let converter = JupyterConverter::new().with_outputs(true);
    let a = converter.convert_notebook(&with_none).unwrap();
    let b = converter.convert_notebook(&with_empty).unwrap();
    assert_eq!(a, b);
    assert!(!a.contains("Outputs"));
}
