//! Parsing of document text: the JSON syntax is read by `serde_json` behind
//! trusted wrappers, and the notebook shape is then checked and built by
//! verified code over the resulting tree.

use vstd::prelude::*;
use crate::model::{
    Cell, CellV, ErrorV, JsonV, JsonValue, JupyterError, Notebook, NotebookV, Output, OutputV,
    clone_entries, lookup, spec_lookup, value_view, values_view, lemma_values_view,
};
use crate::render::spec_render;
use crate::JupyterConverter;

verus! {

#[verifier::external_type_specification]
#[verifier::external_body]
pub struct ExSerdeValue(serde_json::Value);

/// The contents of a `serde_json::Value`, as the library's tree.
pub uninterp spec fn tree_of(v: serde_json::Value) -> JsonV;

/// The parse tree of a text under `serde_json::from_str`: `Some` exactly on
/// well-formed document text.
pub uninterp spec fn json_of(s: Seq<char>) -> Option<JsonV>;

/// Relies on `serde_json::from_str::<serde_json::Value>`: it succeeds
/// exactly on well-formed JSON text, its result is a function of the text
/// alone, and on failure its error describes the syntax problem.
#[verifier::external_body]
fn parse_json_text(content: &str) -> (r: Result<serde_json::Value, String>)
    ensures
        match r {
            Ok(v) => json_of(content@) == Some(tree_of(v)),
            Err(_) => json_of(content@) is None,
        },
{
    match serde_json::from_str::<serde_json::Value>(content) {
        Ok(v) => Ok(v),
        Err(e) => Err(e.to_string()),
    }
}

/// Relies on `serde_json::Value`'s variants: each is carried over one for
/// one; object entries keep the map's iteration order (key order, with the
/// keys made unique by the parser); a number is kept when
/// `serde_json::Number::as_u64` reads it as a non-negative 64-bit integer
/// and recorded as another number otherwise.
#[verifier::external_body]
fn value_to_tree(v: serde_json::Value) -> (r: JsonValue)
    ensures
        r@ == tree_of(v),
{
    match v {
        serde_json::Value::Null => JsonValue::Null,
        serde_json::Value::Bool(b) => JsonValue::Bool(b),
        serde_json::Value::Number(n) => JsonValue::Num(n.as_u64()),
        serde_json::Value::String(s) => JsonValue::Str(s),
        serde_json::Value::Array(items) => JsonValue::Array(
            items.into_iter().map(value_to_tree).collect(),
        ),
        serde_json::Value::Object(entries) => JsonValue::Object(
            entries.into_iter().map(|e| (e.0, value_to_tree(e.1))).collect(),
        ),
    }
}

/// The lines of an array value, when every element is a string.
pub open spec fn spec_strings_of(items: Seq<JsonV>) -> Option<Seq<Seq<char>>> {
    if forall|i: int| 0 <= i < items.len() ==> items[i] is Str {
        Some(Seq::new(items.len(), |i: int| items[i]->Str_0))
    } else {
        None
    }
}

/// An optional counter field: absent or null is accepted as no counter, a
/// non-negative integer fitting 32 bits is accepted as a counter, anything
/// else is a shape error.
pub open spec fn spec_opt_count(v: Option<JsonV>) -> Option<Option<u32>> {
    match v {
        None => Some(None),
        Some(jv) => match jv {
            JsonV::Null => Some(None),
            JsonV::Num(n) => match n {
                Some(u) => if u <= 0xffff_ffffu64 {
                    Some(Some(u as u32))
                } else {
                    None
                },
                None => None,
            },
            _ => None,
        },
    }
}

/// A required version field: a non-negative integer fitting 32 bits.
pub open spec fn spec_count(v: Option<JsonV>) -> Option<u32> {
    match v {
        Some(jv) => match jv {
            JsonV::Num(n) => match n {
                Some(u) => if u <= 0xffff_ffffu64 {
                    Some(u as u32)
                } else {
                    None
                },
                None => None,
            },
            _ => None,
        },
        None => None,
    }
}

/// The output built from one value of the `outputs` array, if its shape
/// fits: an object with a string `output_type`, an optional array of
/// strings `text`, an optional object `data` and an optional counter.
pub open spec fn spec_output_of(v: JsonV) -> Option<OutputV> {
    match v {
        JsonV::Object(entries) => match spec_lookup(entries, "output_type"@) {
            Some(ot) => match ot {
                JsonV::Str(t) => {
                    let text_field = match spec_lookup(entries, "text"@) {
                        None => Some(None),
                        Some(tv) => match tv {
                            JsonV::Null => Some(None),
                            JsonV::Array(items) => match spec_strings_of(items) {
                                Some(lines) => Some(Some(lines)),
                                None => None,
                            },
                            _ => None,
                        },
                    };
                    let data_field = match spec_lookup(entries, "data"@) {
                        None => Some(None),
                        Some(dv) => match dv {
                            JsonV::Null => Some(None),
                            JsonV::Object(es) => Some(Some(es)),
                            _ => None,
                        },
                    };
                    let count_field = spec_opt_count(spec_lookup(entries, "execution_count"@));
                    match (text_field, data_field, count_field) {
                        (Some(text), Some(data), Some(execution_count)) => Some(
                            OutputV { output_type: t, text, data, execution_count },
                        ),
                        _ => None,
                    }
                },
                _ => None,
            },
            None => None,
        },
        _ => None,
    }
}

/// The outputs built from an array value, when every element fits.
pub open spec fn spec_outputs_of(items: Seq<JsonV>) -> Option<Seq<OutputV>> {
    if forall|i: int| 0 <= i < items.len() ==> spec_output_of(#[trigger] items[i]) is Some {
        Some(Seq::new(items.len(), |i: int| spec_output_of(items[i])->Some_0))
    } else {
        None
    }
}

/// The cell built from one value of the `cells` array, if its shape fits:
/// an object with a string `cell_type`, an array of strings `source`, an
/// object `metadata`, an optional array `outputs` and an optional counter.
pub open spec fn spec_cell_of(v: JsonV) -> Option<CellV> {
    match v {
        JsonV::Object(entries) => match (
            spec_lookup(entries, "cell_type"@),
            spec_lookup(entries, "source"@),
            spec_lookup(entries, "metadata"@),
        ) {
            (Some(JsonV::Str(t)), Some(JsonV::Array(src)), Some(JsonV::Object(md))) => match
                spec_strings_of(src) {
                Some(lines) => {
                    let outputs_field = match spec_lookup(entries, "outputs"@) {
                        None => Some(None),
                        Some(ov) => match ov {
                            JsonV::Null => Some(None),
                            JsonV::Array(items) => match spec_outputs_of(items) {
                                Some(outs) => Some(Some(outs)),
                                None => None,
                            },
                            _ => None,
                        },
                    };
                    let count_field = spec_opt_count(spec_lookup(entries, "execution_count"@));
                    match (outputs_field, count_field) {
                        (Some(outputs), Some(execution_count)) => Some(
                            CellV {
                                cell_type: t,
                                source: lines,
                                metadata: md,
                                outputs,
                                execution_count,
                            },
                        ),
                        _ => None,
                    }
                },
                None => None,
            },
            _ => None,
        },
        _ => None,
    }
}

/// The cells built from an array value, when every element fits.
pub open spec fn spec_cells_of(items: Seq<JsonV>) -> Option<Seq<CellV>> {
    if forall|i: int| 0 <= i < items.len() ==> spec_cell_of(#[trigger] items[i]) is Some {
        Some(Seq::new(items.len(), |i: int| spec_cell_of(items[i])->Some_0))
    } else {
        None
    }
}

/// The notebook built from a parse tree, if its shape fits: an object with
/// an array `cells` whose every element fits, an object `metadata`, and two
/// version numbers. Extra keys anywhere are ignored.
pub open spec fn spec_notebook_of(doc: JsonV) -> Option<NotebookV> {
    match doc {
        JsonV::Object(entries) => match (
            spec_lookup(entries, "cells"@),
            spec_lookup(entries, "metadata"@),
        ) {
            (Some(JsonV::Array(cells)), Some(JsonV::Object(md))) => match spec_cells_of(cells) {
                Some(cs) => match (
                    spec_count(spec_lookup(entries, "nbformat"@)),
                    spec_count(spec_lookup(entries, "nbformat_minor"@)),
                ) {
                    (Some(major), Some(minor)) => Some(
                        NotebookV {
                            cells: cs,
                            metadata: md,
                            nbformat: major,
                            nbformat_minor: minor,
                        },
                    ),
                    _ => None,
                },
                None => None,
            },
            _ => None,
        },
        _ => None,
    }
}

/// What converting raw document text produces: a parse error on malformed
/// text or a shape that does not fit, else what rendering the parsed
/// document produces.
pub open spec fn spec_convert_text(cfg: JupyterConverter, s: Seq<char>) -> Result<
    Seq<char>,
    ErrorV,
> {
    match json_of(s) {
        None => Err(ErrorV::JsonParse),
        Some(tree) => match spec_notebook_of(tree) {
            None => Err(ErrorV::JsonParse),
            Some(nb) => spec_render(cfg, nb),
        },
    }
}

/// Reads an array of strings.
fn strings_from_json(items: &Vec<JsonValue>) -> (r: Option<Vec<String>>)
    ensures
        match r {
            Some(lines) => spec_strings_of(values_view(items@)) == Some(lines.deep_view()),
            None => spec_strings_of(values_view(items@)) is None,
        },
{
    let ghost vv = values_view(items@);
    proof {
        lemma_values_view(items@);
    }
    let mut out: Vec<String> = Vec::new();
    let mut i: usize = 0;
    while i < items.len()
        invariant
            i <= items.len(),
            vv == values_view(items@),
            vv.len() == items@.len(),
            forall|j: int| 0 <= j < items@.len() ==> vv[j] == value_view(items@[j]),
            out@.len() == i,
            forall|j: int| 0 <= j < i ==> (#[trigger] vv[j]) is Str,
            forall|j: int| 0 <= j < i ==> (#[trigger] out@[j])@ == vv[j]->Str_0,
        decreases items.len() - i,
    {
        match &items[i] {
            JsonValue::Str(s) => {
                out.push(s.clone());
            },
            _ => {
                proof {
                    assert(!(vv[i as int] is Str));
                }
                return None;
            },
        }
        i += 1;
    }
    proof {
        assert(spec_strings_of(vv) == Some(out.deep_view())) by {
            assert(forall|j: int| 0 <= j < vv.len() ==> vv[j] is Str);
            assert(out.deep_view() =~= Seq::new(vv.len(), |j: int| vv[j]->Str_0));
        }
    }
    Some(out)
}

/// Reads an optional counter field.
fn opt_count_from(v: Option<&JsonValue>) -> (r: Option<Option<u32>>)
    ensures
        ({
            let vv = match v {
                Some(x) => Some(x@),
                None => None::<JsonV>,
            };
            match r {
                Some(c) => spec_opt_count(vv) == Some(c),
                None => spec_opt_count(vv) is None,
            }
        }),
{
    match v {
        None => Some(None),
        Some(value) => match value {
            JsonValue::Null => Some(None),
            JsonValue::Num(n) => match n {
                Some(u) => if *u <= 0xffff_ffffu64 {
                    Some(Some(*u as u32))
                } else {
                    None
                },
                None => None,
            },
            _ => None,
        },
    }
}

/// Reads a required version field.
fn count_from(v: Option<&JsonValue>) -> (r: Option<u32>)
    ensures
        ({
            let vv = match v {
                Some(x) => Some(x@),
                None => None::<JsonV>,
            };
            match r {
                Some(c) => spec_count(vv) == Some(c),
                None => spec_count(vv) is None,
            }
        }),
{
    match v {
        Some(value) => match value {
            JsonValue::Num(n) => match n {
                Some(u) => if *u <= 0xffff_ffffu64 {
                    Some(*u as u32)
                } else {
                    None
                },
                None => None,
            },
            _ => None,
        },
        None => None,
    }
}

/// Reads one output object.
fn output_from_json(v: &JsonValue) -> (r: Option<Output>)
    ensures
        match r {
            Some(o) => spec_output_of(v@) == Some(o@),
            None => spec_output_of(v@) is None,
        },
{
    let entries = match v {
        JsonValue::Object(entries) => entries,
        _ => {
            return None;
        },
    };
    let output_type: String = match lookup(entries, "output_type") {
        Some(value) => match value {
            JsonValue::Str(t) => t.clone(),
            _ => {
                return None;
            },
        },
        None => {
            return None;
        },
    };
    let text: Option<Vec<String>> = match lookup(entries, "text") {
        None => None,
        Some(value) => match value {
            JsonValue::Null => None,
            JsonValue::Array(items) => match strings_from_json(items) {
                Some(lines) => Some(lines),
                None => {
                    return None;
                },
            },
            _ => {
                return None;
            },
        },
    };
    let data: Option<Vec<(String, JsonValue)>> = match lookup(entries, "data") {
        None => None,
        Some(value) => match value {
            JsonValue::Null => None,
            JsonValue::Object(es) => Some(clone_entries(es)),
            _ => {
                return None;
            },
        },
    };
    let execution_count: Option<u32> = match opt_count_from(lookup(entries, "execution_count")) {
        Some(c) => c,
        None => {
            return None;
        },
    };
    let output = Output { output_type, text, data, execution_count };
    proof {
        assert(output@ =~~= spec_output_of(v@)->Some_0);
    }
    Some(output)
}

/// Reads the `outputs` array.
fn outputs_from_json(items: &Vec<JsonValue>) -> (r: Option<Vec<Output>>)
    ensures
        match r {
            Some(outs) => spec_outputs_of(values_view(items@)) == Some(
                Seq::new(outs@.len(), |i: int| outs@[i]@),
            ),
            None => spec_outputs_of(values_view(items@)) is None,
        },
{
    let ghost vv = values_view(items@);
    proof {
        lemma_values_view(items@);
    }
    let mut out: Vec<Output> = Vec::new();
    let mut i: usize = 0;
    while i < items.len()
        invariant
            i <= items.len(),
            vv == values_view(items@),
            vv.len() == items@.len(),
            forall|j: int| 0 <= j < items@.len() ==> vv[j] == value_view(items@[j]),
            out@.len() == i,
            forall|j: int| 0 <= j < i ==> spec_output_of(#[trigger] vv[j]) is Some,
            forall|j: int| 0 <= j < i ==> spec_output_of(vv[j]) == Some((#[trigger] out@[j])@),
        decreases items.len() - i,
    {
        match output_from_json(&items[i]) {
            Some(o) => {
                out.push(o);
            },
            None => {
                proof {
                    assert(spec_output_of(vv[i as int]) is None);
                }
                return None;
            },
        }
        i += 1;
    }
    proof {
        assert(spec_outputs_of(vv) == Some(Seq::new(out@.len(), |i: int| out@[i]@))) by {
            assert(forall|j: int| 0 <= j < vv.len() ==> spec_output_of(#[trigger] vv[j]) is Some);
            assert(Seq::new(out@.len(), |i: int| out@[i]@) =~= Seq::new(
                vv.len(),
                |i: int| spec_output_of(vv[i])->Some_0,
            ));
        }
    }
    Some(out)
}

/// Reads one cell object.
fn cell_from_json(v: &JsonValue) -> (r: Option<Cell>)
    ensures
        match r {
            Some(c) => spec_cell_of(v@) == Some(c@),
            None => spec_cell_of(v@) is None,
        },
{
    let entries = match v {
        JsonValue::Object(entries) => entries,
        _ => {
            return None;
        },
    };
    let cell_type: String = match lookup(entries, "cell_type") {
        Some(value) => match value {
            JsonValue::Str(t) => t.clone(),
            _ => {
                return None;
            },
        },
        None => {
            return None;
        },
    };
    let source: Vec<String> = match lookup(entries, "source") {
        Some(value) => match value {
            JsonValue::Array(items) => match strings_from_json(items) {
                Some(lines) => lines,
                None => {
                    return None;
                },
            },
            _ => {
                return None;
            },
        },
        None => {
            return None;
        },
    };
    let metadata: Vec<(String, JsonValue)> = match lookup(entries, "metadata") {
        Some(value) => match value {
            JsonValue::Object(es) => clone_entries(es),
            _ => {
                return None;
            },
        },
        None => {
            return None;
        },
    };
    let outputs: Option<Vec<Output>> = match lookup(entries, "outputs") {
        None => None,
        Some(value) => match value {
            JsonValue::Null => None,
            JsonValue::Array(items) => match outputs_from_json(items) {
                Some(outs) => Some(outs),
                None => {
                    return None;
                },
            },
            _ => {
                return None;
            },
        },
    };
    let execution_count: Option<u32> = match opt_count_from(lookup(entries, "execution_count")) {
        Some(c) => c,
        None => {
            return None;
        },
    };
    let cell = Cell { cell_type, source, metadata, outputs, execution_count };
    proof {
        assert(cell@ =~~= spec_cell_of(v@)->Some_0);
    }
    Some(cell)
}

/// Reads the `cells` array.
fn cells_from_json(items: &Vec<JsonValue>) -> (r: Option<Vec<Cell>>)
    ensures
        match r {
            Some(cells) => spec_cells_of(values_view(items@)) == Some(
                Seq::new(cells@.len(), |i: int| cells@[i]@),
            ),
            None => spec_cells_of(values_view(items@)) is None,
        },
{
    let ghost vv = values_view(items@);
    proof {
        lemma_values_view(items@);
    }
    let mut out: Vec<Cell> = Vec::new();
    let mut i: usize = 0;
    while i < items.len()
        invariant
            i <= items.len(),
            vv == values_view(items@),
            vv.len() == items@.len(),
            forall|j: int| 0 <= j < items@.len() ==> vv[j] == value_view(items@[j]),
            out@.len() == i,
            forall|j: int| 0 <= j < i ==> spec_cell_of(#[trigger] vv[j]) is Some,
            forall|j: int| 0 <= j < i ==> spec_cell_of(vv[j]) == Some((#[trigger] out@[j])@),
        decreases items.len() - i,
    {
        match cell_from_json(&items[i]) {
            Some(c) => {
                out.push(c);
            },
            None => {
                proof {
                    assert(spec_cell_of(vv[i as int]) is None);
                }
                return None;
            },
        }
        i += 1;
    }
    proof {
        assert(spec_cells_of(vv) == Some(Seq::new(out@.len(), |i: int| out@[i]@))) by {
            assert(forall|j: int| 0 <= j < vv.len() ==> spec_cell_of(#[trigger] vv[j]) is Some);
            assert(Seq::new(out@.len(), |i: int| out@[i]@) =~= Seq::new(
                vv.len(),
                |i: int| spec_cell_of(vv[i])->Some_0,
            ));
        }
    }
    Some(out)
}

/// Builds a notebook from a parse tree: `Ok` exactly when the shape fits,
/// as `spec_notebook_of` describes; else a parse error.
pub fn notebook_from_json(doc: &JsonValue) -> (r: Result<Notebook, JupyterError>)
    ensures
        match spec_notebook_of(doc@) {
            Some(nbv) => r matches Ok(nb) && nb@ == nbv,
            None => r matches Err(e) && e@ == ErrorV::JsonParse,
        },
{
    let entries = match doc {
        JsonValue::Object(entries) => entries,
        _ => {
            return Err(shape_error());
        },
    };
    let cells: Vec<Cell> = match lookup(entries, "cells") {
        Some(value) => match value {
            JsonValue::Array(items) => match cells_from_json(items) {
                Some(cells) => cells,
                None => {
                    return Err(shape_error());
                },
            },
            _ => {
                return Err(shape_error());
            },
        },
        None => {
            return Err(shape_error());
        },
    };
    let metadata: Vec<(String, JsonValue)> = match lookup(entries, "metadata") {
        Some(value) => match value {
            JsonValue::Object(es) => clone_entries(es),
            _ => {
                return Err(shape_error());
            },
        },
        None => {
            return Err(shape_error());
        },
    };
    let nbformat: u32 = match count_from(lookup(entries, "nbformat")) {
        Some(c) => c,
        None => {
            return Err(shape_error());
        },
    };
    let nbformat_minor: u32 = match count_from(lookup(entries, "nbformat_minor")) {
        Some(c) => c,
        None => {
            return Err(shape_error());
        },
    };
    let notebook = Notebook { cells, metadata, nbformat, nbformat_minor };
    proof {
        assert(notebook@ =~~= spec_notebook_of(doc@)->Some_0);
    }
    Ok(notebook)
}

/// The error for document text whose shape does not fit the notebook model.
fn shape_error() -> (r: JupyterError)
    ensures
        r@ == ErrorV::JsonParse,
{
    JupyterError::JsonParseError("document does not have the notebook shape".to_owned())
}

impl JupyterConverter {
    /// Parses raw document text and converts it, as `spec_convert_text`
    /// describes: a parse error on malformed text or an unfitting shape,
    /// else the rendering of the parsed document.
    pub fn convert_str(&self, content: &str) -> (r: Result<String, JupyterError>)
        ensures
            match spec_convert_text(*self, content@) {
                Ok(t) => r matches Ok(s) && s@ == t,
                Err(e) => r matches Err(err) && err@ == e,
            },
    {
        let value = match parse_json_text(content) {
            Ok(v) => v,
            Err(message) => {
                return Err(JupyterError::JsonParseError(message));
            },
        };
        let tree = value_to_tree(value);
        let notebook = match notebook_from_json(&tree) {
            Ok(nb) => nb,
            Err(e) => {
                return Err(e);
            },
        };
        self.convert_notebook(&notebook)
    }
}

} // verus!
