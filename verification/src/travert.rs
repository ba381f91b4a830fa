//! The format detector and the converter: a file's format judged from its
//! extension (markdown content-sniffed for the table/list split), and a
//! whole-report conversion that renders every target before anything is
//! written.

use vstd::prelude::*;

use crate::chars::{
    lower_seq, split_lines, split_sub, trim_ws, views, chars_to_string, eq_chars,
    lower_exec, split_lines_exec, split_sub_exec, str_to_chars, subvec, trim_ws_exec,
};
use crate::errors::{AppError, ErrView};
use crate::labels::Labels;
use crate::output::{doc_parse, doc_render, Formatter, OutputFormat};
use crate::record::RecordView;

verus! {

// ---------------------------------------------------------------------------
// Markdown content sniffing
// ---------------------------------------------------------------------------

/// A line shaped like a table header: pipes at both ends and no empty cell.
pub open spec fn sniff_header_line(line: Seq<char>) -> bool {
    let t = trim_ws(line);
    &&& t.len() >= 2
    &&& t[0] == '|'
    &&& t.last() == '|'
    &&& (forall|k: int|
        0 <= k < sniff_cells(line).len() ==> (#[trigger] sniff_cells(line)[k]).len() > 0)
}

/// The cells between the outer pipes of a sniffed line.
pub open spec fn sniff_cells(line: Seq<char>) -> Seq<Seq<char>> {
    let t = trim_ws(line);
    split_sub(t.subrange(1, t.len() - 1), seq!['|'])
}

/// A line shaped like a separator row: pipes at both ends, every cell made
/// of dashes and colons only, none blank.
pub open spec fn sniff_sep_line(line: Seq<char>) -> bool {
    let t = trim_ws(line);
    &&& t.len() >= 2
    &&& t[0] == '|'
    &&& t.last() == '|'
    &&& (forall|k: int|
        0 <= k < sniff_cells(line).len() ==> sniff_sep_cell(#[trigger] sniff_cells(line)[k]))
}

/// A sniffed separator cell: trimmed non-empty, dashes and colons only.
pub open spec fn sniff_sep_cell(cell: Seq<char>) -> bool {
    let u = trim_ws(cell);
    u.len() > 0 && (forall|i: int| 0 <= i < u.len() ==> (#[trigger] u[i] == '-' || u[i] == ':'))
}

/// The first adjacent pair of header-shaped and separator-shaped lines.
pub open spec fn sniff_pair_from(ls: Seq<Seq<char>>, i: int) -> Option<int>
    decreases ls.len() - i,
{
    if i < 0 || i + 1 >= ls.len() {
        None
    } else if sniff_header_line(ls[i]) && sniff_sep_line(ls[i + 1]) {
        Some(i)
    } else {
        sniff_pair_from(ls, i + 1)
    }
}

/// Content sniffing of a markdown report: the first header/separator line
/// pair decides for the table when the cell counts agree; anything else is
/// a list.
pub open spec fn detect_markdown(s: Seq<char>) -> OutputFormat {
    let ls = split_lines(s);
    match sniff_pair_from(ls, 0) {
        None => OutputFormat::MarkdownList,
        Some(i) => if sniff_cells(ls[i]).len() == sniff_cells(ls[i + 1]).len() {
            OutputFormat::MarkdownTable
        } else {
            OutputFormat::MarkdownList
        },
    }
}

// ---------------------------------------------------------------------------
// Extension dispatch
// ---------------------------------------------------------------------------

/// The extension of a path: the text after the last dot of the last path
/// component; a name whose only dot leads it has none.
pub open spec fn ext_of(path: Seq<char>) -> Seq<char> {
    let name = split_sub(path, seq!['/']).last();
    let pieces = split_sub(name, seq!['.']);
    if pieces.len() >= 2 && !(pieces.len() == 2 && pieces[0].len() == 0) {
        pieces.last()
    } else {
        Seq::empty()
    }
}

/// The format a path and its content call for: by extension, with markdown
/// content-sniffed; a missing file or an unknown extension is refused
/// carrying the path.
pub open spec fn judge(path: Seq<char>, is_file: bool, content: Seq<char>) -> Result<
    OutputFormat,
    ErrView,
> {
    if !is_file {
        Err(ErrView::CannotJudgeFormat(path))
    } else {
        let ext = lower_seq(ext_of(path));
        if ext == "md"@ {
            Ok(detect_markdown(content))
        } else if ext == "csv"@ {
            Ok(OutputFormat::Csv)
        } else if ext == "yml"@ || ext == "yaml"@ {
            Ok(OutputFormat::Yaml)
        } else if ext == "json"@ {
            Ok(OutputFormat::Json)
        } else {
            Err(ErrView::CannotJudgeFormat(path))
        }
    }
}

// ---------------------------------------------------------------------------
// Executable detector
// ---------------------------------------------------------------------------

/// One report file: its path and its judged or chosen format.
#[derive(Debug)]
pub struct Travert {
    /// The file's path.
    pub path: String,
    /// The file's format.
    pub format: OutputFormat,
}

/// True when the line is header-shaped.
fn sniff_header_exec(line: &Vec<char>) -> (r: bool)
    ensures
        r == sniff_header_line(line@),
{
    let t = trim_ws_exec(line);
    let n = t.len();
    if n < 2 || t[0] != '|' || t[n - 1] != '|' {
        return false;
    }
    let inner = subvec(&t, 1, n - 1);
    let mut bar: Vec<char> = Vec::new();
    bar.push('|');
    assert(bar@ =~= seq!['|']);
    let cells = split_sub_exec(&inner, &bar);
    proof {
        assert(views(cells@) == sniff_cells(line@));
    }
    let mut k: usize = 0;
    while k < cells.len()
        invariant
            k <= cells@.len(),
            views(cells@) == sniff_cells(line@),
            forall|j: int| 0 <= j < k ==> (#[trigger] sniff_cells(line@)[j]).len() > 0,
        decreases cells@.len() - k,
    {
        if cells[k].len() == 0 {
            proof {
                assert(sniff_cells(line@)[k as int].len() == 0);
            }
            return false;
        }
        k = k + 1;
    }
    true
}

/// True when the line is separator-shaped.
fn sniff_sep_exec(line: &Vec<char>) -> (r: bool)
    ensures
        r == sniff_sep_line(line@),
{
    let t = trim_ws_exec(line);
    let n = t.len();
    if n < 2 || t[0] != '|' || t[n - 1] != '|' {
        return false;
    }
    let inner = subvec(&t, 1, n - 1);
    let mut bar: Vec<char> = Vec::new();
    bar.push('|');
    assert(bar@ =~= seq!['|']);
    let cells = split_sub_exec(&inner, &bar);
    proof {
        assert(views(cells@) == sniff_cells(line@));
    }
    let mut k: usize = 0;
    while k < cells.len()
        invariant
            k <= cells@.len(),
            views(cells@) == sniff_cells(line@),
            forall|j: int| 0 <= j < k ==> sniff_sep_cell(#[trigger] sniff_cells(line@)[j]),
        decreases cells@.len() - k,
    {
        let u = trim_ws_exec(&cells[k]);
        if u.len() == 0 {
            proof {
                assert(!sniff_sep_cell(sniff_cells(line@)[k as int]));
            }
            return false;
        }
        let mut i: usize = 0;
        while i < u.len()
            invariant
                i <= u@.len(),
                u@ == trim_ws(views(cells@)[k as int]),
                k < cells@.len(),
                views(cells@) == sniff_cells(line@),
                forall|j: int| 0 <= j < i ==> (#[trigger] u@[j] == '-' || u@[j] == ':'),
            decreases u@.len() - i,
        {
            let c = u[i];
            if c != '-' && c != ':' {
                proof {
                    assert(!sniff_sep_cell(sniff_cells(line@)[k as int]));
                }
                return false;
            }
            i = i + 1;
        }
        proof {
            assert(sniff_sep_cell(sniff_cells(line@)[k as int]));
        }
        k = k + 1;
    }
    true
}

impl Travert {
    /// Content sniffing of a markdown report: table when the first
    /// header/separator pair agrees on cell counts, list otherwise.
    pub fn detect_markdown_content_format(content: &str) -> (r: Result<OutputFormat, AppError>)
        ensures
            r matches Ok(f) && f == detect_markdown(content@),
    {
        let cs = str_to_chars(content);
        let ls = split_lines_exec(&cs);
        let ghost lsv = views(ls@);
        let n = ls.len();
        if n < 2 {
            proof {
                assert(sniff_pair_from(lsv, 0) is None);
            }
            return Ok(OutputFormat::MarkdownList);
        }
        let mut i: usize = 0;
        while i < n - 1
            invariant
                n == ls@.len(),
                n >= 2,
                i <= n,
                lsv == views(ls@),
                lsv == split_lines(content@),
                sniff_pair_from(lsv, 0) == sniff_pair_from(lsv, i as int),
            decreases n - i,
        {
            proof {
                assert(lsv[i as int] == ls@[i as int]@);
                assert(lsv[i + 1] == ls@[i + 1]@);
            }
            if sniff_header_exec(&ls[i]) && sniff_sep_exec(&ls[i + 1]) {
                let hc = {
                    let t = trim_ws_exec(&ls[i]);
                    let inner = subvec(&t, 1, t.len() - 1);
                    let mut bar: Vec<char> = Vec::new();
                    bar.push('|');
                    assert(bar@ =~= seq!['|']);
                    split_sub_exec(&inner, &bar).len()
                };
                let sc = {
                    let t = trim_ws_exec(&ls[i + 1]);
                    let inner = subvec(&t, 1, t.len() - 1);
                    let mut bar: Vec<char> = Vec::new();
                    bar.push('|');
                    assert(bar@ =~= seq!['|']);
                    split_sub_exec(&inner, &bar).len()
                };
                proof {
                    assert(sniff_pair_from(lsv, i as int) == Some(i as int));
                    assert(hc as int == sniff_cells(lsv[i as int]).len());
                    assert(sc as int == sniff_cells(lsv[i + 1]).len());
                }
                if hc == sc {
                    return Ok(OutputFormat::MarkdownTable);
                } else {
                    return Ok(OutputFormat::MarkdownList);
                }
            }
            proof {
                assert(sniff_pair_from(lsv, i as int) == sniff_pair_from(lsv, i + 1 as int));
            }
            i = i + 1;
        }
        proof {
            assert(sniff_pair_from(lsv, i as int) is None);
        }
        Ok(OutputFormat::MarkdownList)
    }

    /// Judges a path's format from its extension and, for markdown, its
    /// content; the caller supplies whether the path names a regular file
    /// and what it holds.
    pub fn judge_format(path: &str, is_file: bool, content: &str) -> (r: Result<
        OutputFormat,
        AppError,
    >)
        ensures
            match r {
                Ok(f) => judge(path@, is_file, content@) == Ok::<OutputFormat, ErrView>(f),
                Err(e) => judge(path@, is_file, content@) matches Err(v) && e@ == v,
            },
    {
        if !is_file {
            return Err(AppError::CannotJudgeFormat(chars_to_string(&str_to_chars(path))));
        }
        let pv = str_to_chars(path);
        let mut slash: Vec<char> = Vec::new();
        slash.push('/');
        assert(slash@ =~= seq!['/']);
        let comps = split_sub_exec(&pv, &slash);
        proof {
            crate::chars::lemma_split_sub_len(pv@, seq!['/']);
        }
        let name = &comps[comps.len() - 1];
        proof {
            assert(comps@[comps@.len() - 1]@ == split_sub(path@, seq!['/']).last());
        }
        let mut dot: Vec<char> = Vec::new();
        dot.push('.');
        assert(dot@ =~= seq!['.']);
        let pieces = split_sub_exec(name, &dot);
        proof {
            crate::chars::lemma_split_sub_len(name@, seq!['.']);
        }
        let ext: Vec<char> = if pieces.len() >= 2 && !(pieces.len() == 2 && pieces[0].len() == 0) {
            proof {
                assert(pieces@[pieces@.len() - 1]@ == split_sub(name@, seq!['.']).last());
            }
            let e = &pieces[pieces.len() - 1];
            subvec(e, 0, e.len())
        } else {
            Vec::new()
        };
        proof {
            assert(ext@ =~= ext_of(path@));
        }
        let lext = lower_exec(&ext);
        if eq_chars(&lext, &str_to_chars("md")) {
            Self::detect_markdown_content_format(content)
        } else if eq_chars(&lext, &str_to_chars("csv")) {
            Ok(OutputFormat::Csv)
        } else if eq_chars(&lext, &str_to_chars("yml")) {
            Ok(OutputFormat::Yaml)
        } else if eq_chars(&lext, &str_to_chars("yaml")) {
            Ok(OutputFormat::Yaml)
        } else if eq_chars(&lext, &str_to_chars("json")) {
            Ok(OutputFormat::Json)
        } else {
            Err(AppError::CannotJudgeFormat(chars_to_string(&pv)))
        }
    }

    /// A report file whose format is judged from the path and content.
    pub fn new(path: &str, is_file: bool, content: &str) -> (r: Result<Travert, AppError>)
        ensures
            match r {
                Ok(t) => judge(path@, is_file, content@) matches Ok(f) && t.format == f && t.path@
                    == path@,
                Err(e) => judge(path@, is_file, content@) matches Err(v) && e@ == v,
            },
    {
        match Self::judge_format(path, is_file, content) {
            Ok(format) => Ok(Travert { path: chars_to_string(&str_to_chars(path)), format }),
            Err(e) => Err(e),
        }
    }

    /// A report file with a chosen format.
    pub fn new_with_format(path: &str, format: OutputFormat) -> (r: Travert)
        ensures
            r.path@ == path@,
            r.format == format,
    {
        Travert { path: chars_to_string(&str_to_chars(path)), format }
    }
}

// ---------------------------------------------------------------------------
// The converter
// ---------------------------------------------------------------------------

/// One source report and the targets it is converted into.
#[derive(Debug)]
pub struct Converter {
    /// The report read.
    pub source: Travert,
    /// The reports written.
    pub targets: Vec<Travert>,
}

impl Converter {
    /// A converter from one source to the given targets.
    pub fn new(source: Travert, targets: Vec<Travert>) -> (r: Result<Converter, AppError>)
        ensures
            r matches Ok(c) && c.source.path@ == source.path@ && c.source.format == source.format
                && c.targets@ == targets@,
    {
        Ok(Converter { source, targets })
    }

    /// A converter from one source to the given targets, formats already
    /// chosen.
    pub fn new_with_format(source: Travert, target: Vec<Travert>) -> (r: Result<
        Converter,
        AppError,
    >)
        ensures
            r matches Ok(c) && c.source.path@ == source.path@ && c.source.format == source.format
                && c.targets@ == target@,
    {
        Ok(Converter { source, targets: target })
    }

    /// Converts the source text into every target format.  All renders
    /// happen before anything is handed back, so a failing parse yields no
    /// output at all: the caller writes files only from a full result.
    pub fn convert(&self, source_text: &str, labels: &Labels) -> (r: Result<
        Vec<(String, String)>,
        AppError,
    >)
        ensures
            match r {
                Ok(outs) => doc_parse(self.source.format, source_text@, labels@) matches Ok(
                    records,
                ) && outs@.len() == self.targets@.len() && (forall|i: int|
                    0 <= i < outs@.len() ==> (#[trigger] outs@[i]).0@ == self.targets@[i].path@
                        && outs@[i].1@ == doc_render(self.targets@[i].format, records, labels@)),
                Err(e) => doc_parse(self.source.format, source_text@, labels@) matches Err(v)
                    && e@ == v,
            },
    {
        let formatter = match Formatter::new(self.source.format) {
            Ok(f) => f,
            Err(e) => {
                return Err(e);
            },
        };
        let records = match formatter.parse(source_text, labels) {
            Ok(deps) => deps,
            Err(e) => {
                return Err(e);
            },
        };
        let mut outs: Vec<(String, String)> = Vec::new();
        let mut i: usize = 0;
        while i < self.targets.len()
            invariant
                i <= self.targets@.len(),
                outs@.len() == i,
                doc_parse(self.source.format, source_text@, labels@) == Ok::<
                    Seq<RecordView>,
                    ErrView,
                >(records.deep_view()),
                forall|j: int|
                    0 <= j < i ==> (#[trigger] outs@[j]).0@ == self.targets@[j].path@ && outs@[
                        j
                    ].1@ == doc_render(self.targets@[j].format, records.deep_view(), labels@),
            decreases self.targets@.len() - i,
        {
            let target_formatter = match Formatter::new(self.targets[i].format) {
                Ok(f) => f,
                Err(e) => {
                    return Err(e);
                },
            };
            let text = match target_formatter.format(&records, labels) {
                Ok(t) => t,
                Err(e) => {
                    return Err(e);
                },
            };
            outs.push((self.targets[i].path.clone(), text));
            i = i + 1;
        }
        Ok(outs)
    }
}

} // verus!
