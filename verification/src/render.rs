//! The rendering engine: a pure function from a document and a configuration
//! to formatted text, specified exactly over the mathematical views.

use vstd::prelude::*;
use crate::model::{
    Cell, CellV, ErrorV, JsonV, JsonValue, JupyterError, Notebook, NotebookV, Output, OutputV,
    lookup, spec_lookup, value_view, values_view,
};
use crate::num::{dec_string, spec_dec};
use crate::JupyterConverter;

verus! {

/// The given lines, each followed by one newline, concatenated.
pub open spec fn spec_lines(lines: Seq<Seq<char>>) -> Seq<char>
    decreases lines.len(),
{
    if lines.len() == 0 {
        Seq::empty()
    } else {
        spec_lines(lines.drop_last()) + lines.last() + "\n"@
    }
}

/// The string elements of an array, each followed by one newline; elements
/// that are not strings contribute nothing.
pub open spec fn spec_text_items(items: Seq<JsonV>) -> Seq<char>
    decreases items.len(),
{
    if items.len() == 0 {
        Seq::empty()
    } else {
        spec_text_items(items.drop_last()) + (match items.last() {
            JsonV::Str(s) => s + "\n"@,
            _ => Seq::empty(),
        })
    }
}

/// The header of a cell section, up to the cell-type word.
pub open spec fn spec_header(num: int) -> Seq<char> {
    "## Cell "@ + spec_dec(num) + ": "@
}

/// The execution-count annotation of a code cell, if any.
pub open spec fn spec_exec_count(ec: Option<u32>) -> Seq<char> {
    match ec {
        Some(c) => "*Execution Count: "@ + spec_dec(c as int) + "*\n"@,
        None => Seq::empty(),
    }
}

/// What rendering one output produces. Total: an unrecognized output type
/// yields a generic line naming it, never an error.
pub open spec fn spec_format_output(o: OutputV) -> Seq<char> {
    if o.output_type == "stream"@ {
        match o.text {
            Some(lines) => "**Stream Output**:\n"@ + "```\n"@ + spec_lines(lines) + "```\n"@,
            None => Seq::empty(),
        }
    } else if o.output_type == "execute_result"@ || o.output_type == "display_data"@ {
        match o.data {
            Some(data) => match spec_lookup(data, "text/plain"@) {
                Some(JsonV::Str(s)) => "**Result**:\n"@ + "```\n"@ + s + "\n```\n"@,
                Some(JsonV::Array(items)) => "**Result**:\n"@ + "```\n"@ + spec_text_items(items)
                    + "```\n"@,
                _ => Seq::empty(),
            },
            None => Seq::empty(),
        }
    } else if o.output_type == "error"@ {
        match o.data {
            Some(data) => match spec_lookup(data, "traceback"@) {
                Some(tb) => "**Error**:\n"@ + "```\n"@ + (if tb is Array {
                    spec_text_items(tb->Array_0)
                } else {
                    Seq::empty()
                }) + "```\n"@,
                None => Seq::empty(),
            },
            None => Seq::empty(),
        }
    } else {
        "**Output Type: "@ + o.output_type + "**\n"@
    }
}

/// The renderings of a sequence of outputs, concatenated in order.
pub open spec fn spec_outputs(outputs: Seq<OutputV>) -> Seq<char>
    decreases outputs.len(),
{
    if outputs.len() == 0 {
        Seq::empty()
    } else {
        spec_outputs(outputs.drop_last()) + spec_format_output(outputs.last())
    }
}

/// The outputs section of a code cell: present only when outputs are asked
/// for and the cell has a non-empty output list.
pub open spec fn spec_outputs_section(with_outputs: bool, c: CellV) -> Seq<char> {
    if with_outputs {
        match c.outputs {
            Some(outs) => if outs.len() > 0 {
                "### Outputs\n"@ + spec_outputs(outs)
            } else {
                Seq::empty()
            },
            None => Seq::empty(),
        }
    } else {
        Seq::empty()
    }
}

/// Whether a cell type is one of the three recognized kinds.
pub open spec fn spec_valid_cell_type(t: Seq<char>) -> bool {
    t == "markdown"@ || t == "code"@ || t == "raw"@
}

/// What rendering one cell produces: `None` exactly when the cell type is
/// not recognized.
pub open spec fn spec_format_cell(with_outputs: bool, c: CellV, num: int) -> Option<Seq<char>> {
    if c.cell_type == "markdown"@ {
        Some(spec_header(num) + "Markdown\n"@ + "```markdown\n"@ + spec_lines(c.source) + "```\n"@)
    } else if c.cell_type == "code"@ {
        Some(spec_header(num) + "Code\n"@ + spec_exec_count(c.execution_count) + "```python\n"@
            + spec_lines(c.source) + "```\n"@ + spec_outputs_section(with_outputs, c))
    } else if c.cell_type == "raw"@ {
        Some(spec_header(num) + "Raw\n"@ + "```\n"@ + spec_lines(c.source) + "```\n"@)
    } else {
        None
    }
}

/// Rendering of a run of cells numbered from `num` on, each cell section
/// followed by a blank-line separator. Fails on the first cell whose type is
/// not recognized, with that cell's type string.
pub open spec fn spec_render_cells(with_outputs: bool, cells: Seq<CellV>, num: int) -> Result<
    Seq<char>,
    ErrorV,
>
    decreases cells.len(),
{
    if cells.len() == 0 {
        Ok(Seq::empty())
    } else {
        match spec_format_cell(with_outputs, cells[0], num) {
            None => Err(ErrorV::InvalidCellType(cells[0].cell_type)),
            Some(s) => match spec_render_cells(with_outputs, cells.drop_first(), num + 1) {
                Ok(rest) => Ok(s + "\n\n"@ + rest),
                Err(e) => Err(e),
            },
        }
    }
}

/// A string-valued field of an object value: `Some` only when `v` is an
/// object whose entry at `key` is a string.
pub open spec fn spec_str_field(v: JsonV, key: Seq<char>) -> Option<Seq<char>> {
    match v {
        JsonV::Object(entries) => match spec_lookup(entries, key) {
            Some(JsonV::Str(s)) => Some(s),
            _ => None,
        },
        _ => None,
    }
}

/// A labeled line for an optional string value; absent values contribute
/// nothing.
pub open spec fn spec_labeled(label: Seq<char>, value: Option<Seq<char>>) -> Seq<char> {
    match value {
        Some(s) => label + s + "\n"@,
        None => Seq::empty(),
    }
}

/// The kernel lines of the metadata block.
pub open spec fn spec_kernel_part(md: Seq<(Seq<char>, JsonV)>) -> Seq<char> {
    match spec_lookup(md, "kernelspec"@) {
        Some(ks) => spec_labeled("**Kernel**: "@, spec_str_field(ks, "name"@)) + spec_labeled(
            "**Display Name**: "@,
            spec_str_field(ks, "display_name"@),
        ),
        None => Seq::empty(),
    }
}

/// The language lines of the metadata block.
pub open spec fn spec_language_part(md: Seq<(Seq<char>, JsonV)>) -> Seq<char> {
    match spec_lookup(md, "language_info"@) {
        Some(li) => spec_labeled("**Language**: "@, spec_str_field(li, "name"@)) + spec_labeled(
            "**Version**: "@,
            spec_str_field(li, "version"@),
        ),
        None => Seq::empty(),
    }
}

/// The document metadata block: fixed title, best-effort kernel and language
/// lines, then always the format version and the total cell count.
pub open spec fn spec_metadata_block(nb: NotebookV) -> Seq<char> {
    "# Jupyter Notebook\n\n"@ + spec_kernel_part(nb.metadata) + spec_language_part(nb.metadata)
        + "**Format**: nbformat "@ + spec_dec(nb.nbformat as int) + "."@ + spec_dec(
        nb.nbformat_minor as int,
    ) + "\n"@ + "**Total Cells**: "@ + spec_dec(nb.cells.len() as int) + "\n"@
}

/// What converting a whole document produces: an optional metadata block,
/// then every cell section in order, or the first invalid-cell-type error.
pub open spec fn spec_render(cfg: JupyterConverter, nb: NotebookV) -> Result<Seq<char>, ErrorV> {
    match spec_render_cells(cfg.include_outputs, nb.cells, 1) {
        Ok(body) => Ok(
            (if cfg.include_metadata {
                spec_metadata_block(nb) + "\n\n"@
            } else {
                Seq::empty()
            }) + body,
        ),
        Err(e) => Err(e),
    }
}

/// String content equality against a literal key.
pub(crate) fn str_eq(a: &String, b: &str) -> (r: bool)
    ensures
        r == (a@ == b@),
{
    let owned: String = b.to_owned();
    *a == owned
}

/// Appends every line followed by a newline.
fn append_lines(out: &mut String, lines: &Vec<String>)
    ensures
        final(out)@ == old(out)@ + spec_lines(lines.deep_view()),
{
    let ghost base = out@;
    let ghost dv = lines.deep_view();
    proof {
        assert(dv.take(0) =~= Seq::<Seq<char>>::empty());
        assert(base + spec_lines(dv.take(0)) =~= base);
    }
    let mut i: usize = 0;
    while i < lines.len()
        invariant
            i <= lines.len(),
            dv == lines.deep_view(),
            dv.len() == lines@.len(),
            out@ == base + spec_lines(dv.take(i as int)),
        decreases lines.len() - i,
    {
        let line: &String = &lines[i];
        out.append(line.as_str());
        out.append("\n");
        proof {
            assert(dv.take(i + 1 as int).drop_last() =~= dv.take(i as int));
            assert(dv.take(i + 1 as int).last() == lines@[i as int]@);
            assert(out@ =~= base + spec_lines(dv.take(i + 1 as int)));
        }
        i += 1;
    }
    proof {
        assert(dv.take(lines@.len() as int) =~= dv);
    }
}

/// Appends every string element of an array followed by a newline, skipping
/// elements of any other kind.
fn append_text_items(out: &mut String, items: &Vec<JsonValue>)
    ensures
        final(out)@ == old(out)@ + spec_text_items(values_view(items@)),
{
    let ghost base = out@;
    let ghost vv = values_view(items@);
    proof {
        crate::model::lemma_values_view(items@);
        assert(vv.take(0) =~= Seq::<JsonV>::empty());
        assert(base + spec_text_items(vv.take(0)) =~= base);
    }
    let mut i: usize = 0;
    while i < items.len()
        invariant
            i <= items.len(),
            vv == values_view(items@),
            vv.len() == items@.len(),
            forall|j: int| 0 <= j < items@.len() ==> vv[j] == value_view(items@[j]),
            out@ == base + spec_text_items(vv.take(i as int)),
        decreases items.len() - i,
    {
        match &items[i] {
            JsonValue::Str(s) => {
                out.append(s.as_str());
                out.append("\n");
            },
            _ => {},
        }
        proof {
            assert(vv.take(i + 1 as int).drop_last() =~= vv.take(i as int));
            assert(vv.take(i + 1 as int).last() == vv[i as int]);
            assert(out@ =~= base + spec_text_items(vv.take(i + 1 as int)));
        }
        i += 1;
    }
    proof {
        assert(vv.take(items@.len() as int) =~= vv);
    }
}

impl JupyterConverter {
    /// Renders one output to a text fragment. Never fails: an unrecognized
    /// output type yields a single line naming it verbatim.
    fn format_output(&self, output: &Output) -> (r: String)
        ensures
            r@ == spec_format_output(output@),
    {
        let mut out = String::new();
        if str_eq(&output.output_type, "stream") {
            if let Some(text) = &output.text {
                out.append("**Stream Output**:\n");
                out.append("```\n");
                append_lines(&mut out, text);
                out.append("```\n");
                proof {
                    assert(out@ =~= spec_format_output(output@));
                }
            }
        } else if str_eq(&output.output_type, "execute_result") || str_eq(
            &output.output_type,
            "display_data",
        ) {
            if let Some(data) = &output.data {
                match lookup(data, "text/plain") {
                    Some(text_plain) => match text_plain {
                        JsonValue::Str(s) => {
                            out.append("**Result**:\n");
                            out.append("```\n");
                            out.append(s.as_str());
                            out.append("\n```\n");
                            proof {
                                assert(out@ =~= spec_format_output(output@));
                            }
                        },
                        JsonValue::Array(items) => {
                            out.append("**Result**:\n");
                            out.append("```\n");
                            append_text_items(&mut out, items);
                            out.append("```\n");
                            proof {
                                assert(out@ =~= spec_format_output(output@));
                            }
                        },
                        _ => {},
                    },
                    None => {},
                }
            }
        } else if str_eq(&output.output_type, "error") {
            if let Some(data) = &output.data {
                match lookup(data, "traceback") {
                    Some(traceback) => {
                        out.append("**Error**:\n");
                        out.append("```\n");
                        match traceback {
                            JsonValue::Array(items) => {
                                append_text_items(&mut out, items);
                            },
                            _ => {},
                        }
                        out.append("```\n");
                        proof {
                            assert(out@ =~= spec_format_output(output@));
                        }
                    },
                    None => {},
                }
            }
        } else {
            out.append("**Output Type: ");
            out.append(output.output_type.as_str());
            out.append("**\n");
            proof {
                assert(out@ =~= spec_format_output(output@));
            }
        }
        out
    }

    /// Renders one cell section: a numbered header, the source lines in a
    /// fenced block and, for code cells, the execution count and — when asked
    /// for — the outputs. Fails exactly on an unrecognized cell type, with
    /// that type string.
    fn format_cell(&self, cell: &Cell, cell_number: usize) -> (r: Result<String, JupyterError>)
        ensures
            match spec_format_cell(self.include_outputs, cell@, cell_number as int) {
                Some(s) => r matches Ok(t) && t@ == s,
                None => r matches Err(e) && e@ == ErrorV::InvalidCellType(cell@.cell_type),
            },
    {
        if str_eq(&cell.cell_type, "markdown") {
            let mut out = String::new();
            out.append("## Cell ");
            let num = dec_string(cell_number as u64);
            out.append(num.as_str());
            out.append(": ");
            out.append("Markdown\n");
            out.append("```markdown\n");
            append_lines(&mut out, &cell.source);
            out.append("```\n");
            proof {
                assert(out@ =~= spec_format_cell(
                    self.include_outputs,
                    cell@,
                    cell_number as int,
                )->Some_0);
            }
            Ok(out)
        } else if str_eq(&cell.cell_type, "code") {
            let mut out = String::new();
            out.append("## Cell ");
            let num = dec_string(cell_number as u64);
            out.append(num.as_str());
            out.append(": ");
            out.append("Code\n");
            if let Some(exec_count) = cell.execution_count {
                out.append("*Execution Count: ");
                let c = dec_string(exec_count as u64);
                out.append(c.as_str());
                out.append("*\n");
            }
            out.append("```python\n");
            append_lines(&mut out, &cell.source);
            out.append("```\n");
            let ghost before_outputs = out@;
            proof {
                assert(before_outputs =~= spec_header(cell_number as int) + "Code\n"@
                    + spec_exec_count(cell@.execution_count) + "```python\n"@ + spec_lines(
                    cell@.source,
                ) + "```\n"@);
            }
            if self.include_outputs {
                if let Some(outputs) = &cell.outputs {
                    if outputs.len() > 0 {
                        out.append("### Outputs\n");
                        let ghost ov = cell@.outputs->Some_0;
                        proof {
                            assert(ov.len() == outputs@.len());
                            assert(ov.take(0) =~= Seq::<OutputV>::empty());
                            assert(out@ =~= before_outputs + "### Outputs\n"@ + spec_outputs(
                                ov.take(0),
                            ));
                        }
                        let mut i: usize = 0;
                        while i < outputs.len()
                            invariant
                                i <= outputs.len(),
                                ov.len() == outputs@.len(),
                                forall|j: int| 0 <= j < outputs@.len() ==> ov[j] == outputs@[j]@,
                                out@ == before_outputs + "### Outputs\n"@ + spec_outputs(
                                    ov.take(i as int),
                                ),
                            decreases outputs.len() - i,
                        {
                            let fragment = self.format_output(&outputs[i]);
                            out.append(fragment.as_str());
                            proof {
                                assert(ov.take(i + 1 as int).drop_last() =~= ov.take(i as int));
                                assert(ov.take(i + 1 as int).last() == ov[i as int]);
                                assert(out@ =~= before_outputs + "### Outputs\n"@ + spec_outputs(
                                    ov.take(i + 1 as int),
                                ));
                            }
                            i += 1;
                        }
                        proof {
                            assert(ov.take(outputs@.len() as int) =~= ov);
                            assert(spec_outputs_section(self.include_outputs, cell@)
                                == "### Outputs\n"@ + spec_outputs(ov));
                        }
                    }
                }
            }
            proof {
                assert(out@ =~= spec_format_cell(
                    self.include_outputs,
                    cell@,
                    cell_number as int,
                )->Some_0);
            }
            Ok(out)
        } else if str_eq(&cell.cell_type, "raw") {
            let mut out = String::new();
            out.append("## Cell ");
            let num = dec_string(cell_number as u64);
            out.append(num.as_str());
            out.append(": ");
            out.append("Raw\n");
            out.append("```\n");
            append_lines(&mut out, &cell.source);
            out.append("```\n");
            proof {
                assert(out@ =~= spec_format_cell(
                    self.include_outputs,
                    cell@,
                    cell_number as int,
                )->Some_0);
            }
            Ok(out)
        } else {
            Err(JupyterError::InvalidCellType(cell.cell_type.clone()))
        }
    }

    /// Renders the document metadata block. Never fails: optional fields
    /// that are absent or not strings are silently skipped.
    fn format_metadata(&self, notebook: &Notebook) -> (r: String)
        ensures
            r@ == spec_metadata_block(notebook@),
    {
        let mut out = String::new();
        out.append("# Jupyter Notebook\n\n");
        match lookup(&notebook.metadata, "kernelspec") {
            Some(kernelspec) => {
                match str_field(kernelspec, "name") {
                    Some(name) => {
                        out.append("**Kernel**: ");
                        out.append(name.as_str());
                        out.append("\n");
                    },
                    None => {},
                }
                match str_field(kernelspec, "display_name") {
                    Some(display_name) => {
                        out.append("**Display Name**: ");
                        out.append(display_name.as_str());
                        out.append("\n");
                    },
                    None => {},
                }
            },
            None => {},
        }
        proof {
            assert(out@ =~= "# Jupyter Notebook\n\n"@ + spec_kernel_part(notebook@.metadata));
        }
        match lookup(&notebook.metadata, "language_info") {
            Some(language_info) => {
                match str_field(language_info, "name") {
                    Some(name) => {
                        out.append("**Language**: ");
                        out.append(name.as_str());
                        out.append("\n");
                    },
                    None => {},
                }
                match str_field(language_info, "version") {
                    Some(version) => {
                        out.append("**Version**: ");
                        out.append(version.as_str());
                        out.append("\n");
                    },
                    None => {},
                }
            },
            None => {},
        }
        proof {
            assert(out@ =~= "# Jupyter Notebook\n\n"@ + spec_kernel_part(notebook@.metadata)
                + spec_language_part(notebook@.metadata));
        }
        out.append("**Format**: nbformat ");
        let major = dec_string(notebook.nbformat as u64);
        out.append(major.as_str());
        out.append(".");
        let minor = dec_string(notebook.nbformat_minor as u64);
        out.append(minor.as_str());
        out.append("\n");
        out.append("**Total Cells**: ");
        let count = dec_string(notebook.cells.len() as u64);
        out.append(count.as_str());
        out.append("\n");
        proof {
            assert(out@ =~= spec_metadata_block(notebook@));
        }
        out
    }

    /// Converts a parsed document: an optional metadata block, then each
    /// cell section in order, each followed by a blank-line separator.
    /// Returns the full text, or the first invalid-cell-type error; no
    /// partial output is ever returned.
    pub fn convert_notebook(&self, notebook: &Notebook) -> (r: Result<String, JupyterError>)
        ensures
            match spec_render(*self, notebook@) {
                Ok(t) => r matches Ok(s) && s@ == t,
                Err(e) => r matches Err(err) && err@ == e,
            },
    {
        let mut out = String::new();
        if self.include_metadata {
            let block = self.format_metadata(notebook);
            out.append(block.as_str());
            out.append("\n\n");
        }
        let ghost prefix = out@;
        let ghost cv = notebook@.cells;
        proof {
            assert(cv.skip(0) =~= cv);
            assert(prefix =~= (if self.include_metadata {
                spec_metadata_block(notebook@) + "\n\n"@
            } else {
                Seq::<char>::empty()
            }));
        }
        let mut i: usize = 0;
        while i < notebook.cells.len()
            invariant
                i <= notebook.cells.len(),
                cv == notebook@.cells,
                cv.len() == notebook.cells@.len(),
                forall|j: int| 0 <= j < cv.len() ==> cv[j] == notebook.cells@[j]@,
                prefix == (if self.include_metadata {
                    spec_metadata_block(notebook@) + "\n\n"@
                } else {
                    Seq::<char>::empty()
                }),
                match spec_render_cells(self.include_outputs, cv.skip(i as int), i + 1 as int) {
                    Ok(rest) => spec_render(*self, notebook@) == Ok::<Seq<char>, ErrorV>(
                        out@ + rest,
                    ),
                    Err(e) => spec_render(*self, notebook@) == Err::<Seq<char>, ErrorV>(e),
                },
            decreases notebook.cells.len() - i,
        {
            proof {
                assert(cv.skip(i as int)[0] == cv[i as int]);
                assert(cv.skip(i as int).drop_first() =~= cv.skip(i as int + 1));
            }
            let ghost out0 = out@;
            match self.format_cell(&notebook.cells[i], i + 1) {
                Ok(section) => {
                    out.append(section.as_str());
                    out.append("\n\n");
                    proof {
                        let s = spec_format_cell(
                            self.include_outputs,
                            cv[i as int],
                            i as int + 1,
                        )->Some_0;
                        match spec_render_cells(
                            self.include_outputs,
                            cv.skip(i as int + 1),
                            i as int + 2,
                        ) {
                            Ok(rest2) => {
                                assert(out0 + (s + "\n\n"@ + rest2) =~= out@ + rest2);
                            },
                            Err(e) => {},
                        }
                    }
                },
                Err(e) => {
                    return Err(e);
                },
            }
            i += 1;
        }
        proof {
            assert(cv.skip(notebook.cells@.len() as int) =~= Seq::<CellV>::empty());
            assert(out@ + Seq::<char>::empty() =~= out@);
        }
        Ok(out)
    }
}

/// A string-valued field of an object value, as `spec_str_field` describes.
fn str_field<'a>(v: &'a JsonValue, key: &str) -> (r: Option<&'a String>)
    ensures
        match r {
            Some(s) => spec_str_field(v@, key@) == Some(s@),
            None => spec_str_field(v@, key@) is None,
        },
{
    match v {
        JsonValue::Object(entries) => match lookup(entries, key) {
            Some(value) => match value {
                JsonValue::Str(s) => Some(s),
                _ => None,
            },
            None => None,
        },
        _ => None,
    }
}

} // verus!
