//! Jupyter notebooks, rendered as markdown with fenced code.
use vstd::prelude::*;
use vstd::string::StrSliceExecFns;
use vstd::string::StringExecFns;
use crate::multi_line_string::MultiLineString;
use crate::text::str_eq;

verus! {

/// What a notebook holds that its markdown rendering reads.
pub struct Notebook {
    pub cells: Vec<Cell>,
    /// The kernel's language, named on the code fences.
    pub language_name: String,
}

pub enum CellType {
    Markdown,
    Code,
}

pub struct Cell {
    pub cell_type: CellType,
    pub source: MultiLineString,
    pub outputs: Option<Vec<Output>>,
}

/// A cell output: stream text, an error traceback, and rich data by mime type.
pub struct Output {
    pub text: Option<MultiLineString>,
    pub traceback: Option<MultiLineString>,
    pub data: Option<Vec<(String, MultiLineString)>>,
}

/// `s` in a fence opened by the given marker: "```" + info + "\n" + s + "\n```\n\n".
pub open spec fn fenced(info: Seq<char>, s: Seq<char>) -> Seq<char> {
    "```"@ + info + "\n"@ + s + "\n```\n\n"@
}

/// The plain-text rendering among rich output data, if there is one.
pub open spec fn plain_text(data: Seq<(String, MultiLineString)>) -> Option<Seq<char>>
    decreases data.len(),
{
    if data.len() == 0 {
        None
    } else if data[0].0@ == "text/plain"@ {
        Some(data[0].1@)
    } else {
        plain_text(data.drop_first())
    }
}

/// An output as markdown: its text, its traceback as Python, and its plain-text data, each fenced.
pub open spec fn output_markdown(o: Output) -> Seq<char> {
    (match o.text {
        Some(t) => fenced(Seq::empty(), t@),
        None => Seq::empty(),
    }) + (match o.traceback {
        Some(t) => fenced("py"@, t@),
        None => Seq::empty(),
    }) + (match o.data {
        Some(d) => match plain_text(d@) {
            Some(t) => fenced(Seq::empty(), t),
            None => Seq::empty(),
        },
        None => Seq::empty(),
    })
}

/// An output is rendered as its text in a plain fence, then its traceback in
/// a fence marked `py`, then its plain-text data in a plain fence, each part
/// present exactly when the output has it.
pub proof fn law_output_parts(o: Output)
    ensures
        output_markdown(o) == (match o.text {
            Some(t) => "```\n"@ + t@ + "\n```\n\n"@,
            None => Seq::empty(),
        }) + (match o.traceback {
            Some(tb) => "```py\n"@ + tb@ + "\n```\n\n"@,
            None => Seq::empty(),
        }) + (match o.data {
            Some(d) => match plain_text(d@) {
                Some(t) => "```\n"@ + t + "\n```\n\n"@,
                None => Seq::empty(),
            },
            None => Seq::empty(),
        }),
{
    reveal_strlit("```");
    reveal_strlit("\n");
    reveal_strlit("\n```\n\n");
    reveal_strlit("```\n");
    reveal_strlit("```py\n");
    reveal_strlit("py");
    assert("```"@ + Seq::<char>::empty() + "\n"@ =~= "```\n"@);
    assert("```"@ + "py"@ + "\n"@ =~= "```py\n"@);
    if let Some(t) = o.text {
        assert(fenced(Seq::empty(), t@) =~= "```\n"@ + t@ + "\n```\n\n"@);
    }
    if let Some(tb) = o.traceback {
        assert(fenced("py"@, tb@) =~= "```py\n"@ + tb@ + "\n```\n\n"@);
    }
    if let Some(d) = o.data {
        if let Some(t) = plain_text(d@) {
            assert(fenced(Seq::empty(), t) =~= "```\n"@ + t + "\n```\n\n"@);
        }
    }
}

pub open spec fn outputs_markdown(os: Seq<Output>) -> Seq<char>
    decreases os.len(),
{
    if os.len() == 0 {
        Seq::empty()
    } else {
        outputs_markdown(os.drop_last()) + output_markdown(os.last())
    }
}

/// A cell as markdown: markdown cells as they are, code cells fenced with the
/// notebook's language, then the cell's outputs.
pub open spec fn cell_markdown(c: Cell, language: Seq<char>) -> Seq<char> {
    (match c.cell_type {
        CellType::Markdown => c.source@ + "\n\n"@,
        CellType::Code => fenced(language, c.source@),
    }) + (match c.outputs {
        Some(os) => outputs_markdown(os@),
        None => Seq::empty(),
    })
}

pub open spec fn cells_markdown(cs: Seq<Cell>, language: Seq<char>) -> Seq<char>
    decreases cs.len(),
{
    if cs.len() == 0 {
        Seq::empty()
    } else {
        cells_markdown(cs.drop_last(), language) + cell_markdown(cs.last(), language)
    }
}

/// A notebook is rendered cell after cell, and a cell's outputs one after the
/// other: rendering more cells (or outputs) only appends to the text.
pub proof fn law_rendering_appends(cs: Seq<Cell>, c: Cell, os: Seq<Output>, o: Output, language: Seq<char>)
    ensures
        cells_markdown(Seq::empty(), language) == Seq::<char>::empty(),
        cells_markdown(cs.push(c), language) == cells_markdown(cs, language) + cell_markdown(c, language),
        outputs_markdown(Seq::empty()) == Seq::<char>::empty(),
        outputs_markdown(os.push(o)) == outputs_markdown(os) + output_markdown(o),
{
    assert(cs.push(c).drop_last() =~= cs);
    assert(os.push(o).drop_last() =~= os);
}

/// A cell is rendered as its source (a code cell's fenced with the notebook's
/// language), followed by its outputs.
pub proof fn law_cell_parts(c: Cell, language: Seq<char>)
    ensures
        cell_markdown(c, language) == (match c.cell_type {
            CellType::Markdown => c.source@ + "\n\n"@,
            CellType::Code => "```"@ + language + "\n"@ + c.source@ + "\n```\n\n"@,
        }) + (match c.outputs {
            Some(os) => outputs_markdown(os@),
            None => Seq::empty(),
        }),
{
}

fn append_fenced(out: &mut String, info: &str, s: &str)
    ensures
        final(out)@ == old(out)@ + fenced(info@, s@),
{
    proof {
        reveal_strlit("```");
        reveal_strlit("\n");
        reveal_strlit("\n```\n\n");
    }
    out.append("```");
    out.append(info);
    out.append("\n");
    out.append(s);
    out.append("\n```\n\n");
}

fn find_plain_text(data: &Vec<(String, MultiLineString)>) -> (r: Option<&MultiLineString>)
    ensures
        match r {
            Some(t) => plain_text(data@) == Some(t@),
            None => plain_text(data@) is None,
        },
{
    let mut i: usize = 0;
    assert(data@.skip(0) == data@);
    while i < data.len()
        invariant
            0 <= i <= data@.len(),
            plain_text(data@) == plain_text(data@.skip(i as int)),
        decreases data.len() - i,
    {
        assert(data@.skip(i as int).drop_first() == data@.skip(i + 1));
        if str_eq(data[i].0.as_str(), "text/plain") {
            return Some(&data[i].1);
        }
        i = i + 1;
    }
    None
}

fn append_output(out: &mut String, o: &Output)
    ensures
        final(out)@ == old(out)@ + output_markdown(*o),
{
    let ghost start = out@;
    if let Some(text) = o.text.as_ref() {
        append_fenced(out, "", text.as_str());
    }
    let ghost after_text = out@;
    if let Some(tb) = o.traceback.as_ref() {
        append_fenced(out, "py", tb.as_str());
    }
    let ghost after_tb = out@;
    if let Some(data) = o.data.as_ref() {
        if let Some(text) = find_plain_text(data) {
            append_fenced(out, "", text.as_str());
        }
    }
    proof {
        reveal_strlit("");
        reveal_strlit("py");
        assert(out@ =~= start + output_markdown(*o));
    }
}

/// The notebook as markdown, each cell rendered in turn.
pub fn to_markdown(notebook: &Notebook) -> (r: String)
    ensures
        r@ == cells_markdown(notebook.cells@, notebook.language_name@),
{
    let ghost lang = notebook.language_name@;
    let mut out = String::new();
    let mut i: usize = 0;
    while i < notebook.cells.len()
        invariant
            0 <= i <= notebook.cells@.len(),
            lang == notebook.language_name@,
            out@ == cells_markdown(notebook.cells@.take(i as int), lang),
        decreases notebook.cells.len() - i,
    {
        let cell = &notebook.cells[i];
        assert(notebook.cells@.take(i + 1).drop_last() == notebook.cells@.take(i as int));
        let ghost before = out@;
        match cell.cell_type {
            CellType::Markdown => {
                out.append(cell.source.as_str());
                out.append("\n\n");
                proof { reveal_strlit("\n\n"); }
            },
            CellType::Code => {
                append_fenced(&mut out, notebook.language_name.as_str(), cell.source.as_str());
            },
        }
        let ghost after_source = out@;
        if let Some(outputs) = cell.outputs.as_ref() {
            let mut j: usize = 0;
            while j < outputs.len()
                invariant
                    0 <= j <= outputs@.len(),
                    out@ == after_source + outputs_markdown(outputs@.take(j as int)),
                decreases outputs.len() - j,
            {
                assert(outputs@.take(j + 1).drop_last() == outputs@.take(j as int));
                append_output(&mut out, &outputs[j]);
                j = j + 1;
            }
            assert(outputs@.take(outputs.len() as int) == outputs@);
        }
        assert(out@ =~= before + cell_markdown(*cell, lang));
        i = i + 1;
    }
    assert(notebook.cells@.take(notebook.cells.len() as int) == notebook.cells@);
    out
}

/// The notebook as markdown, in UTF-8 bytes.
pub fn to_unaligned_markdown(notebook: &Notebook) -> (r: Option<Vec<u8>>)
    ensures
        r matches Some(bytes) && bytes@ == vstd::utf8::encode_utf8(cells_markdown(notebook.cells@, notebook.language_name@)),
{
    let markdown = to_markdown(notebook);
    Some(markdown.as_str().as_bytes_vec())
}

} // verus!
