//! The document model: a self-describing structured value (`JsonValue`), the
//! notebook entities built from it, and their mathematical views.

use vstd::prelude::*;

verus! {

/// One structured value of the document format: string, number, bool,
/// array, object or null.
///
/// A number is kept as `Num(Some(u))` when it is a non-negative integer that
/// fits in 64 bits — the only numbers the converter ever reads — and as
/// `Num(None)` for any other numeric literal, whose exact value no part of
/// the rendering inspects.
pub enum JsonValue {
    Null,
    Bool(bool),
    Num(Option<u64>),
    Str(String),
    Array(Vec<JsonValue>),
    Object(Vec<(String, JsonValue)>),
}

/// The mathematical value of a `JsonValue`: the same tree with strings as
/// character sequences.
#[verifier::ext_equal]
pub enum JsonV {
    Null,
    Bool(bool),
    Num(Option<u64>),
    Str(Seq<char>),
    Array(Seq<JsonV>),
    Object(Seq<(Seq<char>, JsonV)>),
}

/// The mathematical value of a `JsonValue`.
pub open spec fn value_view(v: JsonValue) -> JsonV
    decreases v,
{
    match v {
        JsonValue::Null => JsonV::Null,
        JsonValue::Bool(b) => JsonV::Bool(b),
        JsonValue::Num(n) => JsonV::Num(n),
        JsonValue::Str(s) => JsonV::Str(s@),
        JsonValue::Array(items) => JsonV::Array(values_view(items@)),
        JsonValue::Object(entries) => JsonV::Object(entries_view(entries@)),
    }
}

/// The mathematical values of a sequence of `JsonValue`s, in order.
pub open spec fn values_view(items: Seq<JsonValue>) -> Seq<JsonV>
    decreases items,
{
    if items.len() == 0 {
        Seq::empty()
    } else {
        seq![value_view(items[0])] + values_view(items.drop_first())
    }
}

/// The mathematical values of a list of string-keyed entries, in order.
pub open spec fn entries_view(entries: Seq<(String, JsonValue)>) -> Seq<(Seq<char>, JsonV)>
    decreases entries,
{
    if entries.len() == 0 {
        Seq::empty()
    } else {
        seq![(entries[0].0@, value_view(entries[0].1))] + entries_view(entries.drop_first())
    }
}

impl View for JsonValue {
    type V = JsonV;

    open spec fn view(&self) -> JsonV {
        value_view(*self)
    }
}

/// `values_view` maps the sequence pointwise.
pub proof fn lemma_values_view(items: Seq<JsonValue>)
    ensures
        values_view(items).len() == items.len(),
        forall|i: int| 0 <= i < items.len() ==> values_view(items)[i] == value_view(items[i]),
    decreases items.len(),
{
    if items.len() > 0 {
        lemma_values_view(items.drop_first());
    }
}

/// `entries_view` maps the entry list pointwise.
pub proof fn lemma_entries_view(entries: Seq<(String, JsonValue)>)
    ensures
        entries_view(entries).len() == entries.len(),
        forall|i: int| 0 <= i < entries.len() ==> entries_view(entries)[i]
            == (entries[i].0@, value_view(entries[i].1)),
    decreases entries.len(),
{
    if entries.len() > 0 {
        lemma_entries_view(entries.drop_first());
    }
}

/// First entry whose key equals `key`, if any.
pub open spec fn spec_lookup(entries: Seq<(Seq<char>, JsonV)>, key: Seq<char>) -> Option<JsonV>
    decreases entries.len(),
{
    if entries.len() == 0 {
        None
    } else if entries[0].0 == key {
        Some(entries[0].1)
    } else {
        spec_lookup(entries.drop_first(), key)
    }
}

/// Looks a key up in an entry list, returning the first match.
pub fn lookup<'a>(entries: &'a Vec<(String, JsonValue)>, key: &str) -> (r: Option<&'a JsonValue>)
    ensures
        match r {
            Some(v) => spec_lookup(entries_view(entries@), key@) == Some(v@),
            None => spec_lookup(entries_view(entries@), key@) is None,
        },
{
    let key_string: String = key.to_owned();
    let ghost all = entries_view(entries@);
    proof {
        lemma_entries_view(entries@);
        assert(all.skip(0) =~= all);
    }
    let mut i: usize = 0;
    while i < entries.len()
        invariant
            i <= entries.len(),
            all == entries_view(entries@),
            all.len() == entries@.len(),
            forall|j: int| 0 <= j < entries@.len() ==> all[j]
                == (entries@[j].0@, value_view(entries@[j].1)),
            key_string@ == key@,
            spec_lookup(all, key@) == spec_lookup(all.skip(i as int), key@),
        decreases entries.len() - i,
    {
        proof {
            assert(all.skip(i as int)[0] == all[i as int]);
            assert(all.skip(i as int).drop_first() =~= all.skip(i + 1 as int));
        }
        if entries[i].0 == key_string {
            return Some(&entries[i].1);
        }
        i += 1;
    }
    None
}

impl Clone for JsonValue {
    /// A deep copy with the same mathematical value.
    fn clone(&self) -> (res: Self)
        ensures
            res@ == self@,
        decreases self,
    {
        match self {
            JsonValue::Null => JsonValue::Null,
            JsonValue::Bool(b) => JsonValue::Bool(*b),
            JsonValue::Num(n) => JsonValue::Num(*n),
            JsonValue::Str(s) => JsonValue::Str(s.clone()),
            JsonValue::Array(items) => {
                let mut out: Vec<JsonValue> = Vec::new();
                let mut i: usize = 0;
                while i < items.len()
                    invariant
                        i <= items.len(),
                        out@.len() == i,
                        forall|j: int| 0 <= j < i ==> (#[trigger] out@[j])@ == items@[j]@,
                        *self is Array,
                        (*self)->Array_0@ == items@,
                    decreases items.len() - i,
                {
                    proof {
                        vstd::std_specs::vec::axiom_vec_index_decreases::<JsonValue>(
                            (*self)->Array_0,
                            i as int,
                        );
                        assert(decreases_to!(*self => items@[i as int]));
                    }
                    out.push(items[i].clone());
                    i += 1;
                }
                let result = JsonValue::Array(out);
                proof {
                    lemma_values_view(out@);
                    lemma_values_view(items@);
                    assert(values_view(out@) =~= values_view(items@));
                }
                result
            },
            JsonValue::Object(entries) => {
                let mut out: Vec<(String, JsonValue)> = Vec::new();
                let mut i: usize = 0;
                while i < entries.len()
                    invariant
                        i <= entries.len(),
                        out@.len() == i,
                        forall|j: int| 0 <= j < i ==> (#[trigger] out@[j]).0@ == entries@[j].0@
                            && out@[j].1@ == entries@[j].1@,
                        *self is Object,
                        (*self)->Object_0@ == entries@,
                    decreases entries.len() - i,
                {
                    proof {
                        vstd::std_specs::vec::axiom_vec_index_decreases::<(String, JsonValue)>(
                            (*self)->Object_0,
                            i as int,
                        );
                        assert(decreases_to!(entries@[i as int] => entries@[i as int].1));
                        assert(decreases_to!(*self => entries@[i as int].1));
                    }
                    let key = entries[i].0.clone();
                    let value = entries[i].1.clone();
                    out.push((key, value));
                    i += 1;
                }
                let result = JsonValue::Object(out);
                proof {
                    lemma_entries_view(out@);
                    lemma_entries_view(entries@);
                    assert(entries_view(out@) =~= entries_view(entries@));
                }
                result
            },
        }
    }
}

/// Copies an entry list, keeping its mathematical value.
pub fn clone_entries(entries: &Vec<(String, JsonValue)>) -> (r: Vec<(String, JsonValue)>)
    ensures
        entries_view(r@) == entries_view(entries@),
{
    let mut out: Vec<(String, JsonValue)> = Vec::new();
    let mut i: usize = 0;
    while i < entries.len()
        invariant
            i <= entries.len(),
            out@.len() == i,
            forall|j: int| 0 <= j < i ==> (#[trigger] out@[j]).0@ == entries@[j].0@
                && out@[j].1@ == entries@[j].1@,
        decreases entries.len() - i,
    {
        let key = entries[i].0.clone();
        let value = entries[i].1.clone();
        out.push((key, value));
        i += 1;
    }
    proof {
        lemma_entries_view(out@);
        lemma_entries_view(entries@);
        assert(entries_view(out@) =~= entries_view(entries@));
    }
    out
}

/// One emitted result of executing a code cell.
pub struct Output {
    /// Tag deciding how the output is rendered; unrecognized tags degrade to
    /// a generic line, they are never an error.
    pub output_type: String,
    /// Lines of a `stream` output.
    pub text: Option<Vec<String>>,
    /// Mapping from MIME-type-like keys to structured values.
    pub data: Option<Vec<(String, JsonValue)>>,
    /// Carried but not rendered.
    pub execution_count: Option<u32>,
}

/// The mathematical value of an `Output`.
#[verifier::ext_equal]
pub struct OutputV {
    pub output_type: Seq<char>,
    pub text: Option<Seq<Seq<char>>>,
    pub data: Option<Seq<(Seq<char>, JsonV)>>,
    pub execution_count: Option<u32>,
}

impl View for Output {
    type V = OutputV;

    open spec fn view(&self) -> OutputV {
        OutputV {
            output_type: self.output_type@,
            text: match self.text {
                Some(lines) => Some(lines.deep_view()),
                None => None,
            },
            data: match self.data {
                Some(entries) => Some(entries_view(entries@)),
                None => None,
            },
            execution_count: self.execution_count,
        }
    }
}

/// One unit of document content: markdown, code or raw.
pub struct Cell {
    /// Valid values are `markdown`, `code` and `raw`; anything else is an
    /// error at render time.
    pub cell_type: String,
    /// Source lines; the renderer appends a newline after each.
    pub source: Vec<String>,
    /// Opaque mapping, unused by rendering.
    pub metadata: Vec<(String, JsonValue)>,
    /// Execution outputs, meaningful only for code cells.
    pub outputs: Option<Vec<Output>>,
    /// Meaningful only for code cells.
    pub execution_count: Option<u32>,
}

/// The mathematical value of a `Cell`.
#[verifier::ext_equal]
pub struct CellV {
    pub cell_type: Seq<char>,
    pub source: Seq<Seq<char>>,
    pub metadata: Seq<(Seq<char>, JsonV)>,
    pub outputs: Option<Seq<OutputV>>,
    pub execution_count: Option<u32>,
}

impl View for Cell {
    type V = CellV;

    open spec fn view(&self) -> CellV {
        CellV {
            cell_type: self.cell_type@,
            source: self.source.deep_view(),
            metadata: entries_view(self.metadata@),
            outputs: match self.outputs {
                Some(outputs) => Some(Seq::new(outputs@.len(), |i: int| outputs@[i]@)),
                None => None,
            },
            execution_count: self.execution_count,
        }
    }
}

/// The top-level document: ordered cells, opaque metadata and two format
/// version numbers.
pub struct Notebook {
    pub cells: Vec<Cell>,
    pub metadata: Vec<(String, JsonValue)>,
    pub nbformat: u32,
    pub nbformat_minor: u32,
}

/// The mathematical value of a `Notebook`.
#[verifier::ext_equal]
pub struct NotebookV {
    pub cells: Seq<CellV>,
    pub metadata: Seq<(Seq<char>, JsonV)>,
    pub nbformat: u32,
    pub nbformat_minor: u32,
}

impl View for Notebook {
    type V = NotebookV;

    open spec fn view(&self) -> NotebookV {
        NotebookV {
            cells: Seq::new(self.cells@.len(), |i: int| self.cells@[i]@),
            metadata: entries_view(self.metadata@),
            nbformat: self.nbformat,
            nbformat_minor: self.nbformat_minor,
        }
    }
}

/// The error cases of a conversion.
#[derive(Debug)]
pub enum JupyterError {
    /// A file could not be read; produced by callers that do the reading,
    /// never by the conversion itself.
    FileReadError(String),
    /// The document text is not well-formed, or a required field has the
    /// wrong shape; carries a human-readable description.
    JsonParseError(String),
    /// A document-level shape problem; carries a description.
    InvalidNotebookFormat(String),
    /// A cell whose `cell_type` is not recognized; carries the offending
    /// type string. Fatal to the whole conversion.
    InvalidCellType(String),
}

/// The mathematical value of a `JupyterError`: the kind, and for an invalid
/// cell type the offending string. Diagnostic texts are not part of it.
#[verifier::ext_equal]
pub enum ErrorV {
    FileRead,
    JsonParse,
    InvalidNotebookFormat,
    InvalidCellType(Seq<char>),
}

impl View for JupyterError {
    type V = ErrorV;

    open spec fn view(&self) -> ErrorV {
        match self {
            JupyterError::FileReadError(_) => ErrorV::FileRead,
            JupyterError::JsonParseError(_) => ErrorV::JsonParse,
            JupyterError::InvalidNotebookFormat(_) => ErrorV::InvalidNotebookFormat,
            JupyterError::InvalidCellType(t) => ErrorV::InvalidCellType(t@),
        }
    }
}

/// What `JupyterError::message` returns for each error.
pub open spec fn spec_message(e: JupyterError) -> Seq<char> {
    match e {
        JupyterError::FileReadError(d) => "Failed to read notebook file: "@ + d@,
        JupyterError::JsonParseError(d) => "Failed to parse JSON: "@ + d@,
        JupyterError::InvalidNotebookFormat(d) => "Invalid notebook format: "@ + d@,
        JupyterError::InvalidCellType(t) => "Notebook cell has invalid type: "@ + t@,
    }
}

impl JupyterError {
    /// A human-readable description of the error.
    pub fn message(&self) -> (r: String)
        ensures
            r@ == spec_message(*self),
    {
        let mut s = String::new();
        match self {
            JupyterError::FileReadError(d) => {
                s.append("Failed to read notebook file: ");
                s.append(d.as_str());
            },
            JupyterError::JsonParseError(d) => {
                s.append("Failed to parse JSON: ");
                s.append(d.as_str());
            },
            JupyterError::InvalidNotebookFormat(d) => {
                s.append("Invalid notebook format: ");
                s.append(d.as_str());
            },
            JupyterError::InvalidCellType(t) => {
                s.append("Notebook cell has invalid type: ");
                s.append(t.as_str());
            },
        }
        s
    }
}

} // verus!
