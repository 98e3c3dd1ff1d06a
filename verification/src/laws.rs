//! Laws of the rendering engine, proved over the specification functions
//! that the converter's contracts are stated with.

use vstd::prelude::*;
use crate::model::{CellV, ErrorV, NotebookV, OutputV};
use crate::num::spec_dec;
use crate::render::{
    spec_format_cell, spec_format_output, spec_header, spec_metadata_block, spec_outputs_section,
    spec_render, spec_render_cells, spec_valid_cell_type,
};
use crate::JupyterConverter;

verus! {

/// A sequence is a prefix of itself followed by anything.
proof fn lemma_prefix_of_concat(a: Seq<char>, b: Seq<char>)
    ensures
        a.is_prefix_of(a + b),
{
    assert((a + b).subrange(0, a.len() as int) =~= a);
}

/// A sequence is a suffix of anything followed by itself.
proof fn lemma_suffix_of_concat(a: Seq<char>, b: Seq<char>)
    ensures
        b.is_suffix_of(a + b),
{
    assert((a + b).subrange(a.len() as int, (a + b).len() as int) =~= b);
}

/// The cell sections of a successful rendering: one fragment per cell, each
/// a cell rendering followed by the blank-line separator.
pub open spec fn spec_sections(with_outputs: bool, cells: Seq<CellV>, num: int) -> Seq<Seq<char>> {
    Seq::new(
        cells.len(),
        |i: int| spec_format_cell(with_outputs, cells[i], num + i)->Some_0 + "\n\n"@,
    )
}

/// Law: a successful rendering of a run of cells numbered from `num` is the
/// concatenation of one section per cell, in document order, and the section
/// of the cell numbered `num + i` begins with its own numbered header. In
/// particular a document with N cells yields exactly N cell sections with
/// headers numbered `num .. num + N` in order.
#[verifier::rlimit(80)]
pub proof fn lemma_cell_sections(with_outputs: bool, cells: Seq<CellV>, num: int)
    requires
        spec_render_cells(with_outputs, cells, num) is Ok,
    ensures
        spec_sections(with_outputs, cells, num).len() == cells.len(),
        spec_render_cells(with_outputs, cells, num)->Ok_0 == spec_sections(
            with_outputs,
            cells,
            num,
        ).flatten(),
        forall|i: int| 0 <= i < cells.len() ==> spec_format_cell(
            with_outputs,
            cells[i],
            num + i,
        ) is Some,
        forall|i: int| 0 <= i < cells.len() ==> spec_header(num + i).is_prefix_of(
            #[trigger] spec_sections(with_outputs, cells, num)[i],
        ),
    decreases cells.len(),
{
    let secs = spec_sections(with_outputs, cells, num);
    if cells.len() == 0 {
        assert(secs =~= Seq::<Seq<char>>::empty());
        assert(secs.flatten() =~= Seq::<char>::empty());
    } else {
        let s = spec_format_cell(with_outputs, cells[0], num)->Some_0;
        lemma_cell_sections(with_outputs, cells.drop_first(), num + 1);
        let secs1 = spec_sections(with_outputs, cells.drop_first(), num + 1);
        assert(secs.drop_first() =~= secs1);
        assert(secs.first() == s + "\n\n"@);
        assert(secs.flatten() == secs.first() + secs.drop_first().flatten());
        assert(spec_render_cells(with_outputs, cells, num)->Ok_0 =~= secs.flatten());
        assert forall|i: int| 0 <= i < cells.len() implies spec_format_cell(
            with_outputs,
            cells[i],
            num + i,
        ) is Some by {
            if i > 0 {
                assert(cells.drop_first()[i - 1] == cells[i]);
            }
        }
        assert forall|i: int| 0 <= i < cells.len() implies spec_header(num + i).is_prefix_of(
            #[trigger] secs[i],
        ) by {
            if i == 0 {
                let c = cells[0];
                if c.cell_type == "markdown"@ {
                    assert(s =~= spec_header(num) + ("Markdown\n"@ + "```markdown\n"@
                        + crate::render::spec_lines(c.source) + "```\n"@));
                } else if c.cell_type == "code"@ {
                    assert(s =~= spec_header(num) + ("Code\n"@ + crate::render::spec_exec_count(
                        c.execution_count,
                    ) + "```python\n"@ + crate::render::spec_lines(c.source) + "```\n"@
                        + spec_outputs_section(with_outputs, c)));
                } else {
                    assert(s =~= spec_header(num) + ("Raw\n"@ + "```\n"@
                        + crate::render::spec_lines(c.source) + "```\n"@));
                }
                let tail = s.subrange(spec_header(num).len() as int, s.len() as int);
                assert(s =~= spec_header(num) + tail);
                lemma_prefix_of_concat(spec_header(num), tail + "\n\n"@);
                assert(spec_header(num) + tail + "\n\n"@ =~= spec_header(num) + (tail + "\n\n"@));
                assert(secs[0] == s + "\n\n"@);
            } else {
                assert(secs1[i - 1] == secs[i]);
            }
        }
    }
}

/// Law: for every valid document the rendered text holds one section per
/// cell, in order, each beginning with its 1-based numbered header, after
/// the optional metadata block.
pub proof fn lemma_rendered_sections(cfg: JupyterConverter, nb: NotebookV)
    requires
        spec_render(cfg, nb) is Ok,
    ensures
        spec_sections(cfg.include_outputs, nb.cells, 1).len() == nb.cells.len(),
        spec_render(cfg, nb)->Ok_0 == (if cfg.include_metadata {
            spec_metadata_block(nb) + "\n\n"@
        } else {
            Seq::<char>::empty()
        }) + spec_sections(cfg.include_outputs, nb.cells, 1).flatten(),
        forall|i: int| 0 <= i < nb.cells.len() ==> spec_header(1 + i).is_prefix_of(
            #[trigger] spec_sections(cfg.include_outputs, nb.cells, 1)[i],
        ),
{
    lemma_cell_sections(cfg.include_outputs, nb.cells, 1);
}

/// Law: rendering is deterministic — any two results that the converter's
/// contract admits for the same document under the same configuration are
/// byte-identical, so converting the same pair twice gives the same text.
pub proof fn lemma_rendering_deterministic(
    cfg: JupyterConverter,
    nb: NotebookV,
    r1: Seq<char>,
    r2: Seq<char>,
)
    requires
        spec_render(cfg, nb) == Ok::<Seq<char>, ErrorV>(r1),
        spec_render(cfg, nb) == Ok::<Seq<char>, ErrorV>(r2),
    ensures
        r1 == r2,
{
}

/// Law: enabling the metadata switch only prepends the metadata block and
/// its separator before the first cell's content; it never changes whether
/// rendering succeeds, which error it fails with, nor any per-cell content.
pub proof fn lemma_metadata_only_prepends(
    cfg_off: JupyterConverter,
    cfg_on: JupyterConverter,
    nb: NotebookV,
)
    requires
        cfg_off.include_outputs == cfg_on.include_outputs,
        !cfg_off.include_metadata,
        cfg_on.include_metadata,
    ensures
        spec_render(cfg_off, nb) is Ok <==> spec_render(cfg_on, nb) is Ok,
        spec_render(cfg_off, nb) is Err ==> spec_render(cfg_on, nb) == spec_render(cfg_off, nb),
        spec_render(cfg_on, nb) is Ok ==> spec_render(cfg_on, nb)->Ok_0 == spec_metadata_block(nb)
            + "\n\n"@ + spec_render(cfg_off, nb)->Ok_0,
{
    match spec_render_cells(cfg_off.include_outputs, nb.cells, 1) {
        Ok(body) => {
            assert(Seq::<char>::empty() + body =~= body);
            assert((spec_metadata_block(nb) + "\n\n"@) + body =~= spec_metadata_block(nb)
                + "\n\n"@ + body);
        },
        Err(e) => {},
    }
}

/// Law: enabling the outputs switch leaves markdown and raw cells exactly
/// unchanged, and for a code cell only appends the outputs section after
/// the source block; it never changes whether a cell renders.
pub proof fn lemma_outputs_only_appends(c: CellV, num: int)
    ensures
        spec_format_cell(false, c, num) is Some <==> spec_format_cell(true, c, num) is Some,
        c.cell_type == "markdown"@ || c.cell_type == "raw"@ ==> spec_format_cell(true, c, num)
            == spec_format_cell(false, c, num),
        c.cell_type == "code"@ ==> spec_format_cell(true, c, num)->Some_0 == spec_format_cell(
            false,
            c,
            num,
        )->Some_0 + spec_outputs_section(true, c),
{
    reveal_strlit("markdown");
    reveal_strlit("code");
    reveal_strlit("raw");
    assert("markdown"@.len() == 8 && "code"@.len() == 4 && "raw"@.len() == 3);
    if c.cell_type == "code"@ {
        let x = spec_header(num) + "Code\n"@ + crate::render::spec_exec_count(c.execution_count)
            + "```python\n"@ + crate::render::spec_lines(c.source) + "```\n"@;
        assert(spec_outputs_section(false, c) =~= Seq::<char>::empty());
        assert(spec_format_cell(false, c, num)->Some_0 =~= x);
        assert(spec_format_cell(true, c, num)->Some_0 == x + spec_outputs_section(true, c));
        assert(spec_format_cell(false, c, num)->Some_0 + spec_outputs_section(true, c) =~= x
            + spec_outputs_section(true, c));
    } else if c.cell_type == "markdown"@ || c.cell_type == "raw"@ {
        let a = spec_format_cell(true, c, num)->Some_0;
        let b = spec_format_cell(false, c, num)->Some_0;
        assert(a =~= b);
        assert(spec_format_cell(true, c, num) == Some(a));
        assert(spec_format_cell(false, c, num) == Some(b));
    }
}

/// Law: an empty document renders successfully: the empty text, or — when
/// metadata is asked for — the metadata block and its separator alone, the
/// block still reporting a total of `0` cells at its end.
pub proof fn lemma_empty_document(cfg: JupyterConverter, nb: NotebookV)
    requires
        nb.cells.len() == 0,
    ensures
        spec_render(cfg, nb) is Ok,
        spec_render(cfg, nb)->Ok_0 == (if cfg.include_metadata {
            spec_metadata_block(nb) + "\n\n"@
        } else {
            Seq::<char>::empty()
        }),
        ("**Total Cells**: "@ + spec_dec(0) + "\n"@).is_suffix_of(spec_metadata_block(nb)),
        spec_dec(0) == seq!['0'],
{
    assert(spec_render_cells(cfg.include_outputs, nb.cells, 1) == Ok::<Seq<char>, ErrorV>(
        Seq::<char>::empty(),
    ));
    match spec_render(cfg, nb) {
        Ok(t) => {
            assert(t =~= (if cfg.include_metadata {
                spec_metadata_block(nb) + "\n\n"@
            } else {
                Seq::<char>::empty()
            }));
        },
        Err(e) => {
            assert(false);
        },
    }
    let head = "# Jupyter Notebook\n\n"@ + crate::render::spec_kernel_part(nb.metadata)
        + crate::render::spec_language_part(nb.metadata) + "**Format**: nbformat "@ + spec_dec(
        nb.nbformat as int,
    ) + "."@ + spec_dec(nb.nbformat_minor as int) + "\n"@;
    let tail = "**Total Cells**: "@ + spec_dec(nb.cells.len() as int) + "\n"@;
    assert(spec_metadata_block(nb) =~= head + tail);
    lemma_suffix_of_concat(head, tail);
    assert(spec_dec(0) =~= seq!['0']);
}

/// The position of the first cell whose type is not recognized.
pub open spec fn spec_first_invalid(cells: Seq<CellV>) -> int
    decreases cells.len(),
{
    if cells.len() == 0 {
        0
    } else if !spec_valid_cell_type(cells[0].cell_type) {
        0
    } else {
        1 + spec_first_invalid(cells.drop_first())
    }
}

/// Rendering a run of cells that holds an invalid cell type fails with the
/// first offending cell's type string.
proof fn lemma_render_cells_invalid(with_outputs: bool, cells: Seq<CellV>, num: int)
    requires
        exists|i: int| 0 <= i < cells.len() && !spec_valid_cell_type(
            (#[trigger] cells[i]).cell_type,
        ),
    ensures
        0 <= spec_first_invalid(cells) < cells.len(),
        !spec_valid_cell_type(cells[spec_first_invalid(cells)].cell_type),
        forall|j: int| 0 <= j < spec_first_invalid(cells) ==> spec_valid_cell_type(
            (#[trigger] cells[j]).cell_type,
        ),
        spec_render_cells(with_outputs, cells, num) == Err::<Seq<char>, ErrorV>(
            ErrorV::InvalidCellType(cells[spec_first_invalid(cells)].cell_type),
        ),
    decreases cells.len(),
{
    let i = choose|i: int| 0 <= i < cells.len() && !spec_valid_cell_type(
        (#[trigger] cells[i]).cell_type,
    );
    if !spec_valid_cell_type(cells[0].cell_type) {
        assert(spec_format_cell(with_outputs, cells[0], num) is None);
    } else {
        assert(i != 0);
        assert(cells.drop_first()[i - 1] == cells[i]);
        lemma_render_cells_invalid(with_outputs, cells.drop_first(), num + 1);
        let f = spec_first_invalid(cells.drop_first());
        assert(cells[spec_first_invalid(cells)] == cells.drop_first()[f]);
        assert(spec_format_cell(with_outputs, cells[0], num) is Some);
        assert forall|j: int| 0 <= j < spec_first_invalid(cells) implies spec_valid_cell_type(
            (#[trigger] cells[j]).cell_type,
        ) by {
            if j > 0 {
                assert(cells.drop_first()[j - 1] == cells[j]);
            }
        }
    }
}

/// Law: one cell whose type is not recognized fails the whole conversion,
/// wherever it stands among otherwise valid cells; the error is an
/// invalid-cell-type error carrying the first offending cell's type string,
/// whatever the configuration.
pub proof fn lemma_invalid_cell_type_fails(cfg: JupyterConverter, nb: NotebookV, i: int)
    requires
        0 <= i < nb.cells.len(),
        !spec_valid_cell_type(nb.cells[i].cell_type),
    ensures
        0 <= spec_first_invalid(nb.cells) < nb.cells.len(),
        spec_render(cfg, nb) == Err::<Seq<char>, ErrorV>(
            ErrorV::InvalidCellType(nb.cells[spec_first_invalid(nb.cells)].cell_type),
        ),
        !spec_valid_cell_type(nb.cells[spec_first_invalid(nb.cells)].cell_type),
{
    lemma_render_cells_invalid(cfg.include_outputs, nb.cells, 1);
}

/// Law: an output whose type is not recognized never causes failure: it
/// renders as a single generic line naming the type verbatim, whatever the
/// rest of the output holds.
pub proof fn lemma_unrecognized_output_type(o: OutputV)
    requires
        o.output_type != "stream"@,
        o.output_type != "execute_result"@,
        o.output_type != "display_data"@,
        o.output_type != "error"@,
    ensures
        spec_format_output(o) == "**Output Type: "@ + o.output_type + "**\n"@,
{
}

} // verus!
