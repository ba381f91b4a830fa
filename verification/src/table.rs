//! The decorated-table codec: a header row, a separator row, then per
//! non-empty kind group a marker row and one six-cell data row per record.
//! Parsing first locates the first syntactically valid table inside
//! arbitrary surrounding text.

use vstd::prelude::*;

use crate::cells::{
    cell_crates, cell_source, cell_stats, cell_status, decode_stats, decode_status, desc_cell,
    opt_text, decode_link_chars, decode_stats_chars, decode_status_chars, render_desc_chars,
    render_link_chars, render_stats_chars, render_status_chars,
};
use crate::chars::{
    has_char, join_sub, split_lines, split_sub, trim_each, trim_set, trim_ws, views,
    chars_to_string, contains_sub_exec, has_char_exec, join_exec, split_lines_exec, split_sub_exec,
    str_to_chars, subvec, trim_set_exec, trim_ws_exec, push_all,
};
use crate::errors::{AppError, ErrView};
use crate::labels::{Labels, LabelsView};
use crate::record::{
    group_of, kind_marker_row, DependencyInfo, DependencyKind, DependencyStats,
    RecordView, take_sort_dependencies,
};

verus! {

// ---------------------------------------------------------------------------
// Rendering
// ---------------------------------------------------------------------------

/// The six column names of the table, in order.
pub open spec fn table_cols(l: LabelsView) -> Seq<Seq<char>> {
    seq![l.col_name, l.col_description, l.col_crates_link, l.col_source_link, l.col_stats, l.col_status]
}

/// The header row: the column names between pipes.
pub open spec fn table_header_row(l: LabelsView) -> Seq<char> {
    seq!['|', ' '] + join_sub(table_cols(l), seq![' ', '|', ' ']) + seq![' ', '|']
}

/// The separator row under the header: six dashed cells.
pub open spec fn sep_row() -> Seq<char> {
    seq![
        '|', '-', '-', '-', '|', '-', '-', '-', '|', '-', '-', '-', '|', '-', '-', '-', '|', '-',
        '-', '-', '|', '-', '-', '-', '|',
    ]
}

/// The six cell texts of one record's row.
pub open spec fn table_fields(r: RecordView) -> Seq<Seq<char>> {
    seq![
        r.name,
        desc_cell(r.description),
        cell_crates(r),
        cell_source(r),
        cell_stats(r),
        cell_status(r),
    ]
}

/// One record's data row.
pub open spec fn table_row(r: RecordView) -> Seq<char> {
    seq!['|', ' '] + join_sub(table_fields(r), seq![' ', '|', ' ']) + seq![' ', '|']
}

/// The data rows of one group, each ended by a line feed.
pub open spec fn table_rows_body(g: Seq<RecordView>, l: LabelsView) -> Seq<char>
    decreases g.len(),
{
    if g.len() == 0 {
        Seq::empty()
    } else {
        table_rows_body(g.drop_last(), l) + table_row(g.last()) + seq!['\n']
    }
}

/// One kind's section: nothing when the group is empty, else its marker row
/// and its data rows.
pub open spec fn table_group_lines(
    records: Seq<RecordView>,
    kind: DependencyKind,
    l: LabelsView,
) -> Seq<char> {
    let g = group_of(records, kind);
    if g.len() == 0 {
        Seq::empty()
    } else {
        kind_marker_row(kind, l) + seq!['\n'] + table_rows_body(g, l)
    }
}

/// The whole decorated table: a blank line, the header and separator rows,
/// then the four kind sections in fixed order.
pub open spec fn table_render(records: Seq<RecordView>, l: LabelsView) -> Seq<char> {
    seq!['\n'] + table_header_row(l) + seq!['\n'] + sep_row() + seq!['\n'] + table_group_lines(
        records,
        DependencyKind::Normal,
        l,
    ) + table_group_lines(records, DependencyKind::Development, l) + table_group_lines(
        records,
        DependencyKind::Build,
        l,
    ) + table_group_lines(records, DependencyKind::Unknown, l)
}

// ---------------------------------------------------------------------------
// Table location
// ---------------------------------------------------------------------------

/// The cells of a table row: the trimmed line with one leading and one
/// trailing pipe removed, split at the pipes.
pub open spec fn table_cells_of(line: Seq<char>) -> Seq<Seq<char>> {
    let t = trim_ws(line);
    let inner = if t.len() >= 1 && t[0] == '|' {
        if t.len() >= 2 && t.last() == '|' {
            t.subrange(1, t.len() - 1)
        } else {
            t.subrange(1, t.len() as int)
        }
    } else if t.len() >= 1 && t.last() == '|' {
        t.subrange(0, t.len() - 1)
    } else {
        t
    };
    split_sub(inner, seq!['|'])
}

/// A separator cell is blank, or holds only dashes, colons and spaces with
/// at least one dash.
pub open spec fn sep_cell_ok(cell: Seq<char>) -> bool {
    let u = trim_ws(cell);
    u.len() == 0 || ((forall|i: int|
        0 <= i < u.len() ==> (#[trigger] u[i] == '-' || u[i] == ':' || u[i] == ' ')) && has_char(
        u,
        '-',
    ))
}

/// A valid separator row shows a pipe and only valid separator cells.
pub open spec fn valid_separator(line: Seq<char>) -> bool {
    has_char(trim_ws(line), '|') && (forall|k: int|
        0 <= k < table_cells_of(line).len() ==> sep_cell_ok(#[trigger] table_cells_of(line)[k]))
}

/// Line `i` starts a table: it shows a pipe, the next line is a valid
/// separator, and the two agree on the cell count.
pub open spec fn header_ok(ls: Seq<Seq<char>>, i: int) -> bool {
    &&& 0 <= i && i + 1 < ls.len()
    &&& has_char(trim_ws(ls[i]), '|')
    &&& valid_separator(ls[i + 1])
    &&& table_cells_of(ls[i]).len() == table_cells_of(ls[i + 1]).len()
}

/// A line stops the table: blank, without a pipe, or with a different cell
/// count.
pub open spec fn row_breaks(line: Seq<char>, cols: int) -> bool {
    ||| trim_ws(line).len() == 0
    ||| !has_char(trim_ws(line), '|')
    ||| table_cells_of(line).len() != cols
}

/// The first line at or after `j` that stops the table, or the line count.
pub open spec fn table_end(ls: Seq<Seq<char>>, j: int, cols: int) -> int
    decreases ls.len() - j,
{
    if j < 0 || j >= ls.len() {
        j
    } else if row_breaks(ls[j], cols) {
        j
    } else {
        table_end(ls, j + 1, cols)
    }
}

/// The first table at or after line `i`: its first line and its end line.
pub open spec fn find_table_from(ls: Seq<Seq<char>>, i: int) -> Option<(int, int)>
    decreases ls.len() - i,
{
    if i < 0 || i + 1 >= ls.len() {
        None
    } else if header_ok(ls, i) {
        Some((i, table_end(ls, i + 2, table_cells_of(ls[i]).len() as int)))
    } else {
        find_table_from(ls, i + 1)
    }
}

// ---------------------------------------------------------------------------
// Parsing
// ---------------------------------------------------------------------------

/// Decoding of one data row under the current kind: the trimmed row, with
/// its outer pipes and spaces removed, must show exactly six cells.
pub open spec fn table_line_record(line: Seq<char>, kind: DependencyKind, l: LabelsView) -> Result<
    RecordView,
    ErrView,
> {
    let cols = split_sub(trim_set(line, seq!['|', ' ', '\n']), seq!['|']).map_values(trim_each());
    if cols.len() != 6 {
        Err(ErrView::InvalidTableLine(line))
    } else {
        match decode_stats(cols[4]) {
            Err(t) => Err(ErrView::InvalidStats(t)),
            Ok((stars, downloads)) => match decode_status(cols[5]) {
                Err(t) => Err(ErrView::InvalidStatus(t)),
                Ok((failed, error_message)) => Ok(
                    RecordView {
                        name: cols[0],
                        description: opt_text(cols[1]),
                        dependency_kind: kind,
                        crate_url: crate::cells::decode_link(cols[2]).1,
                        source_type: crate::cells::decode_link(cols[3]).0,
                        source_url: crate::cells::decode_link(cols[3]).1,
                        stars,
                        downloads,
                        failed,
                        error_message,
                    },
                ),
            },
        }
    }
}

/// The kind a marker line switches to, if it holds any kind's marker row;
/// the four markers are tried in fixed order.
pub open spec fn marker_kind_of(t: Seq<char>, l: LabelsView) -> Option<DependencyKind> {
    if crate::chars::contains_sub(t, kind_marker_row(DependencyKind::Normal, l)) {
        Some(DependencyKind::Normal)
    } else if crate::chars::contains_sub(t, kind_marker_row(DependencyKind::Development, l)) {
        Some(DependencyKind::Development)
    } else if crate::chars::contains_sub(t, kind_marker_row(DependencyKind::Build, l)) {
        Some(DependencyKind::Build)
    } else if crate::chars::contains_sub(t, kind_marker_row(DependencyKind::Unknown, l)) {
        Some(DependencyKind::Unknown)
    } else {
        None
    }
}

/// Decoding of the lines after the header and separator: a marker line
/// switches the current kind; any other line must decode as a data row
/// under the current kind, and the first failure aborts.
pub open spec fn table_parse_lines(
    rows: Seq<Seq<char>>,
    kind: DependencyKind,
    l: LabelsView,
) -> Result<Seq<RecordView>, ErrView>
    decreases rows.len(),
{
    if rows.len() == 0 {
        Ok(Seq::empty())
    } else {
        let t = trim_ws(rows[0]);
        match marker_kind_of(t, l) {
            Some(k) => table_parse_lines(rows.drop_first(), k, l),
            None => match table_line_record(t, kind, l) {
                Err(e) => Err(e),
                Ok(r) => match table_parse_lines(rows.drop_first(), kind, l) {
                    Err(e) => Err(e),
                    Ok(rest) => Ok(seq![r] + rest),
                },
            },
        }
    }
}

/// Decoding of a decorated table inside arbitrary text: no table at all
/// yields no records; otherwise the located table's lines after header and
/// separator are decoded, starting in the unknown kind.
pub open spec fn table_parse(s: Seq<char>, l: LabelsView) -> Result<Seq<RecordView>, ErrView> {
    let ls = split_lines(s);
    match find_table_from(ls, 0) {
        None => Ok(Seq::empty()),
        Some((i, end)) => table_parse_lines(ls.subrange(i + 2, end), DependencyKind::Unknown, l),
    }
}

// ---------------------------------------------------------------------------
// Executable codec
// ---------------------------------------------------------------------------

/// The decorated-table codec.
pub struct MarkdownTableFormatter;

/// The cell separator of header and data rows.
fn cell_sep_exec() -> (r: Vec<char>)
    ensures
        r@ == seq![' ', '|', ' '],
{
    let mut r: Vec<char> = Vec::new();
    r.push(' ');
    r.push('|');
    r.push(' ');
    assert(r@ =~= seq![' ', '|', ' ']);
    r
}

/// Wraps joined cells in the row frame `| ... |`.
fn frame_row(cells: &Vec<Vec<char>>) -> (r: Vec<char>)
    ensures
        r@ == seq!['|', ' '] + join_sub(views(cells@), seq![' ', '|', ' ']) + seq![' ', '|'],
{
    let sep = cell_sep_exec();
    let joined = join_exec(cells, &sep);
    let mut out: Vec<char> = Vec::new();
    out.push('|');
    out.push(' ');
    push_all(&mut out, &joined);
    out.push(' ');
    out.push('|');
    assert(out@ =~= seq!['|', ' '] + join_sub(views(cells@), seq![' ', '|', ' ']) + seq![
        ' ',
        '|',
    ]);
    out
}

/// The six cell texts of one record's row.
fn table_fields_exec(dep: &DependencyInfo) -> (r: Vec<Vec<char>>)
    ensures
        views(r@) == table_fields(dep@),
{
    let mut fields: Vec<Vec<char>> = Vec::new();
    fields.push(str_to_chars(dep.name.as_str()));
    fields.push(render_desc_chars(&dep.description));
    let name_chars = str_to_chars(dep.name.as_str());
    let crate_url_chars = match &dep.crate_url {
        Some(u) => Some(str_to_chars(u.as_str())),
        None => None,
    };
    fields.push(render_link_chars(&name_chars, &crate_url_chars));
    let source_chars = str_to_chars(dep.source_type.as_str());
    let source_url_chars = match &dep.source_url {
        Some(u) => Some(str_to_chars(u.as_str())),
        None => None,
    };
    fields.push(render_link_chars(&source_chars, &source_url_chars));
    fields.push(render_stats_chars(dep.stats.stars, dep.stats.downloads));
    fields.push(render_status_chars(dep.failed, &dep.error_message));
    assert(views(fields@) =~= table_fields(dep@));
    fields
}

impl MarkdownTableFormatter {
    /// The header row under a catalog.
    pub fn get_header(labels: &Labels) -> (r: String)
        ensures
            r@ == table_header_row(labels@),
    {
        let mut cols: Vec<Vec<char>> = Vec::new();
        cols.push(str_to_chars(labels.col_name.as_str()));
        cols.push(str_to_chars(labels.col_description.as_str()));
        cols.push(str_to_chars(labels.col_crates_link.as_str()));
        cols.push(str_to_chars(labels.col_source_link.as_str()));
        cols.push(str_to_chars(labels.col_stats.as_str()));
        cols.push(str_to_chars(labels.col_status.as_str()));
        assert(views(cols@) =~= table_cols(labels@));
        chars_to_string(&frame_row(&cols))
    }

    /// How many cells a table row shows.
    pub fn get_column_num() -> (r: usize)
        ensures
            r == 6,
    {
        6
    }

    /// The separator row.
    pub fn get_separator() -> (r: String)
        ensures
            r@ == sep_row(),
    {
        let mut out: Vec<char> = Vec::new();
        out.push('|');
        let mut k: usize = 0;
        while k < 6
            invariant
                k <= 6,
                out@ == sep_row().subrange(0, 1 + 4 * k),
            decreases 6 - k,
        {
            out.push('-');
            out.push('-');
            out.push('-');
            out.push('|');
            proof {
                assert(out@ =~= sep_row().subrange(0, 1 + 4 * (k + 1)));
            }
            k = k + 1;
        }
        assert(sep_row().subrange(0, 25) =~= sep_row());
        chars_to_string(&out)
    }

    /// The cells of a table row, trimmed line framed by pipes.
    pub fn split_table_row(line: &str) -> (r: Vec<String>)
        ensures
            r.deep_view() == table_cells_of(line@),
    {
        let cs = str_to_chars(line);
        let cells = Self::split_table_cells(&cs);
        let mut out: Vec<String> = Vec::new();
        let mut i: usize = 0;
        while i < cells.len()
            invariant
                i <= cells@.len(),
                out.deep_view() == views(cells@).subrange(0, i as int),
            decreases cells@.len() - i,
        {
            let ghost before = out.deep_view();
            out.push(chars_to_string(&cells[i]));
            proof {
                assert(out.deep_view() =~= before.push(views(cells@)[i as int]));
                assert(views(cells@).subrange(0, i + 1 as int) =~= views(cells@).subrange(
                    0,
                    i as int,
                ).push(views(cells@)[i as int]));
            }
            i = i + 1;
        }
        proof {
            assert(views(cells@).subrange(0, cells@.len() as int) =~= views(cells@));
        }
        out
    }

    /// The cells of a table row, over characters.
    pub fn split_table_cells(line: &Vec<char>) -> (r: Vec<Vec<char>>)
        ensures
            views(r@) == table_cells_of(line@),
    {
        let t = trim_ws_exec(line);
        let n = t.len();
        let inner: Vec<char> = if n >= 1 && t[0] == '|' {
            if n >= 2 && t[n - 1] == '|' {
                subvec(&t, 1, n - 1)
            } else {
                subvec(&t, 1, n)
            }
        } else if n >= 1 && t[n - 1] == '|' {
            subvec(&t, 0, n - 1)
        } else {
            subvec(&t, 0, n)
        };
        let mut bar: Vec<char> = Vec::new();
        bar.push('|');
        assert(bar@ =~= seq!['|']);
        let r = split_sub_exec(&inner, &bar);
        proof {
            assert(trim_ws(line@).subrange(0, trim_ws(line@).len() as int) =~= trim_ws(line@));
        }
        r
    }

    /// How many cells a row shows.
    pub fn count_columns(line: &str) -> (r: usize)
        ensures
            r as int == table_cells_of(line@).len(),
    {
        let cs = str_to_chars(line);
        let cells = Self::split_table_cells(&cs);
        cells.len()
    }

    /// True when the line is a valid separator row.
    pub fn is_valid_separator(line: &str) -> (r: bool)
        ensures
            r == valid_separator(line@),
    {
        let cs = str_to_chars(line);
        Self::is_valid_separator_chars(&cs)
    }

    /// True when the line is a valid separator row, over characters.
    pub fn is_valid_separator_chars(line: &Vec<char>) -> (r: bool)
        ensures
            r == valid_separator(line@),
    {
        let t = trim_ws_exec(line);
        if !has_char_exec(&t, '|') {
            return false;
        }
        let cells = Self::split_table_cells(line);
        let mut k: usize = 0;
        while k < cells.len()
            invariant
                k <= cells@.len(),
                views(cells@) == table_cells_of(line@),
                forall|j: int| 0 <= j < k ==> sep_cell_ok(#[trigger] table_cells_of(line@)[j]),
            decreases cells@.len() - k,
        {
            let u = trim_ws_exec(&cells[k]);
            if u.len() > 0 {
                let mut i: usize = 0;
                let mut dash = false;
                while i < u.len()
                    invariant
                        i <= u@.len(),
                        u@ == trim_ws(views(cells@)[k as int]),
                        k < cells@.len(),
                        views(cells@) == table_cells_of(line@),
                        forall|j: int| 0 <= j < i ==> (#[trigger] u@[j] == '-' || u@[j] == ':'
                            || u@[j] == ' '),
                        dash == (exists|j: int| 0 <= j < i && u@[j] == '-'),
                    decreases u@.len() - i,
                {
                    let c = u[i];
                    if c != '-' && c != ':' && c != ' ' {
                        proof {
                            assert(!sep_cell_ok(table_cells_of(line@)[k as int]));
                        }
                        return false;
                    }
                    if c == '-' {
                        dash = true;
                    }
                    i = i + 1;
                }
                if !dash {
                    proof {
                        assert(!has_char(u@, '-'));
                        assert(!sep_cell_ok(table_cells_of(line@)[k as int]));
                    }
                    return false;
                }
                proof {
                    assert(has_char(u@, '-'));
                    assert(sep_cell_ok(table_cells_of(line@)[k as int]));
                }
            } else {
                proof {
                    assert(sep_cell_ok(table_cells_of(line@)[k as int]));
                }
            }
            k = k + 1;
        }
        true
    }

    /// Locates the first valid table among the lines: its first line and
    /// its end line.
    fn find_table_exec(ls: &Vec<Vec<char>>) -> (r: Option<(usize, usize)>)
        ensures
            match r {
                Some(p) => find_table_from(views(ls@), 0) == Some((p.0 as int, p.1 as int)) && p.0
                    + 2 <= p.1 <= ls@.len(),
                None => find_table_from(views(ls@), 0) is None,
            },
    {
        let ghost lsv = views(ls@);
        let n = ls.len();
        if n < 2 {
            return None;
        }
        let mut i: usize = 0;
        while i < n - 1
            invariant
                n == ls@.len(),
                n >= 2,
                i <= n,
                lsv == views(ls@),
                find_table_from(lsv, 0) == find_table_from(lsv, i as int),
            decreases n - i,
        {
            let header_line = &ls[i];
            let ht = trim_ws_exec(header_line);
            let mut head_ok = has_char_exec(&ht, '|');
            if head_ok {
                head_ok = Self::is_valid_separator_chars(&ls[i + 1]);
            }
            if head_ok {
                let hc = Self::split_table_cells(&ls[i]);
                let sc = Self::split_table_cells(&ls[i + 1]);
                if hc.len() == sc.len() {
                    proof {
                        assert(header_ok(lsv, i as int));
                    }
                    let cols = hc.len();
                    let mut j: usize = i + 2;
                    let mut stop = false;
                    while j < n && !stop
                        invariant
                            n == ls@.len(),
                            lsv == views(ls@),
                            i + 2 <= j <= n,
                            cols as int == table_cells_of(lsv[i as int]).len(),
                            !stop ==> table_end(lsv, i + 2 as int, cols as int) == table_end(
                                lsv,
                                j as int,
                                cols as int,
                            ),
                            stop ==> table_end(lsv, i + 2 as int, cols as int) == j as int,
                        decreases n - j, (if stop { 0int } else { 1int }),
                    {
                        let row = trim_ws_exec(&ls[j]);
                        proof {
                            assert(lsv[j as int] == ls@[j as int]@);
                            assert(row@ == trim_ws(lsv[j as int]));
                        }
                        let rc = Self::split_table_cells(&ls[j]);
                        if row.len() == 0 || !has_char_exec(&row, '|') || rc.len() != cols {
                            proof {
                                assert(row_breaks(lsv[j as int], cols as int));
                                assert(table_end(lsv, j as int, cols as int) == j as int);
                            }
                            stop = true;
                        } else {
                            proof {
                                assert(!row_breaks(lsv[j as int], cols as int));
                                assert(table_end(lsv, j as int, cols as int) == table_end(
                                    lsv,
                                    j + 1 as int,
                                    cols as int,
                                ));
                            }
                            j = j + 1;
                        }
                    }
                    proof {
                        if !stop {
                            assert(j == n);
                            assert(table_end(lsv, j as int, cols as int) == j as int);
                        }
                        assert(table_end(lsv, i + 2 as int, cols as int) == j as int);
                        assert(find_table_from(lsv, i as int) == Some((
                            i as int,
                            table_end(lsv, i + 2 as int, cols as int),
                        )));
                    }
                    return Some((i, j));
                }
            }
            proof {
                assert(!header_ok(lsv, i as int));
                assert(find_table_from(lsv, i as int) == find_table_from(lsv, i + 1 as int));
            }
            i = i + 1;
        }
        proof {
            assert(find_table_from(lsv, i as int) is None);
        }
        None
    }

    /// Extracts the first valid table from the text, with its lines joined
    /// back together; text without a table yields nothing.
    pub fn get_first_md_table(content: &str) -> (r: Option<String>)
        ensures
            match r {
                Some(text) => ({
                    let ls = split_lines(content@);
                    find_table_from(ls, 0) matches Some(p) && text@ == join_sub(
                        ls.subrange(p.0, p.1),
                        seq!['\n'],
                    )
                }),
                None => find_table_from(split_lines(content@), 0) is None,
            },
    {
        let cs = str_to_chars(content);
        let ls = split_lines_exec(&cs);
        match Self::find_table_exec(&ls) {
            None => None,
            Some((i, end)) => {
                let mut span: Vec<Vec<char>> = Vec::new();
                let mut k: usize = i;
                while k < end
                    invariant
                        i <= k <= end <= ls@.len(),
                        views(span@) == views(ls@).subrange(i as int, k as int),
                    decreases end - k,
                {
                    let ghost before = views(span@);
                    span.push(subvec(&ls[k], 0, ls[k].len()));
                    proof {
                        assert(ls@[k as int]@.subrange(0, ls@[k as int]@.len() as int) =~= ls@[
                            k as int
                        ]@);
                        assert(views(span@) =~= before.push(views(ls@)[k as int]));
                        assert(views(ls@).subrange(i as int, k + 1 as int) =~= views(
                            ls@,
                        ).subrange(i as int, k as int).push(views(ls@)[k as int]));
                    }
                    k = k + 1;
                }
                let mut nl: Vec<char> = Vec::new();
                nl.push('\n');
                assert(nl@ =~= seq!['\n']);
                Some(chars_to_string(&join_exec(&span, &nl)))
            },
        }
    }
}

impl DependencyInfo {
    /// Reads one table data row into a record tagged with the current kind.
    pub fn try_from_md_table_line(line: &str, dependency_kind: &DependencyKind, labels: &Labels)
        -> (r: Result<DependencyInfo, AppError>)
        ensures
            match r {
                Ok(d) => table_line_record(line@, *dependency_kind, labels@) == Ok::<
                    RecordView,
                    ErrView,
                >(d@),
                Err(e) => table_line_record(line@, *dependency_kind, labels@) matches Err(v) && e@
                    == v,
            },
    {
        let cs = str_to_chars(line);
        Self::try_from_table_chars(&cs, dependency_kind, labels)
    }

    /// Reads one table data row, given as characters.
    pub fn try_from_table_chars(line: &Vec<char>, dependency_kind: &DependencyKind, labels: &Labels)
        -> (r: Result<DependencyInfo, AppError>)
        ensures
            match r {
                Ok(d) => table_line_record(line@, *dependency_kind, labels@) == Ok::<
                    RecordView,
                    ErrView,
                >(d@),
                Err(e) => table_line_record(line@, *dependency_kind, labels@) matches Err(v) && e@
                    == v,
            },
    {
        let mut pat: Vec<char> = Vec::new();
        pat.push('|');
        pat.push(' ');
        pat.push('\n');
        assert(pat@ =~= seq!['|', ' ', '\n']);
        let stripped = trim_set_exec(line, &pat);
        let mut bar: Vec<char> = Vec::new();
        bar.push('|');
        assert(bar@ =~= seq!['|']);
        let parts = split_sub_exec(&stripped, &bar);
        let mut cols: Vec<Vec<char>> = Vec::new();
        let mut i: usize = 0;
        while i < parts.len()
            invariant
                i <= parts@.len(),
                views(cols@) == views(parts@).subrange(0, i as int).map_values(trim_each()),
            decreases parts@.len() - i,
        {
            let ghost before = views(cols@);
            cols.push(trim_ws_exec(&parts[i]));
            proof {
                assert(views(cols@) =~= before.push(trim_ws(views(parts@)[i as int])));
                assert(views(parts@).subrange(0, i + 1 as int).map_values(trim_each())
                    =~= views(parts@).subrange(0, i as int).map_values(trim_each()).push(
                    trim_ws(views(parts@)[i as int]),
                ));
            }
            i = i + 1;
        }
        proof {
            assert(views(parts@).subrange(0, parts@.len() as int) =~= views(parts@));
        }
        let ghost spec_cols = split_sub(trim_set(line@, seq!['|', ' ', '\n']), seq![
            '|',
        ]).map_values(trim_each());
        if cols.len() != 6 {
            return Err(AppError::InvalidTableLine(chars_to_string(line)));
        }
        proof {
            assert(cols@[0 as int]@ == spec_cols[0]);
            assert(cols@[1 as int]@ == spec_cols[1]);
            assert(cols@[2 as int]@ == spec_cols[2]);
            assert(cols@[3 as int]@ == spec_cols[3]);
            assert(cols@[4 as int]@ == spec_cols[4]);
            assert(cols@[5 as int]@ == spec_cols[5]);
        }
        let (stars, downloads) = match decode_stats_chars(&cols[4]) {
            Ok(p) => p,
            Err(t) => {
                return Err(AppError::InvalidStats(chars_to_string(&t)));
            },
        };
        let (failed, error_message) = match decode_status_chars(&cols[5]) {
            Ok(p) => p,
            Err(t) => {
                return Err(AppError::InvalidStatus(chars_to_string(&t)));
            },
        };
        let description = {
            let t = trim_ws_exec(&cols[1]);
            if t.len() == 0 {
                None
            } else {
                Some(chars_to_string(&t))
            }
        };
        let (_, crate_url) = decode_link_chars(&cols[2]);
        let (source_type, source_url) = decode_link_chars(&cols[3]);
        let dep = DependencyInfo {
            name: chars_to_string(&cols[0]),
            description,
            dependency_kind: *dependency_kind,
            crate_url: match crate_url {
                Some(u) => Some(chars_to_string(&u)),
                None => None,
            },
            source_type: chars_to_string(&source_type),
            source_url: match source_url {
                Some(u) => Some(chars_to_string(&u)),
                None => None,
            },
            stats: DependencyStats { stars, downloads },
            failed,
            error_message: match error_message {
                Some(m) => Some(chars_to_string(&m)),
                None => None,
            },
        };
        Ok(dep)
    }
}


/// Appends one kind's section: nothing when the group is empty, else the
/// marker row and the group's data rows, sorted by name.
fn render_table_group(
    out: &mut Vec<char>,
    deps: &Vec<DependencyInfo>,
    kind: DependencyKind,
    labels: &Labels,
)
    ensures
        final(out)@ == old(out)@ + table_group_lines(deps.deep_view(), kind, labels@),
{
    let g = take_sort_dependencies(deps, &kind);
    if g.len() == 0 {
        assert(old(out)@ + table_group_lines(deps.deep_view(), kind, labels@) =~= old(out)@);
        return ;
    }
    let marker = str_to_chars(kind.to_md_table_header(labels).as_str());
    push_all(out, &marker);
    out.push('\n');
    let ghost head = old(out)@ + kind_marker_row(kind, labels@) + seq!['\n'];
    assert(out@ =~= head);
    let ghost gv = g.deep_view();
    let mut i: usize = 0;
    proof {
        assert(gv.subrange(0, 0) =~= Seq::<RecordView>::empty());
    }
    while i < g.len()
        invariant
            i <= g@.len(),
            gv == g.deep_view(),
            gv.len() == g@.len(),
            out@ == head + table_rows_body(gv.subrange(0, i as int), labels@),
        decreases g@.len() - i,
    {
        let fields = table_fields_exec(&g[i]);
        let row = frame_row(&fields);
        push_all(out, &row);
        out.push('\n');
        proof {
            let prefix = gv.subrange(0, i as int);
            let next = gv.subrange(0, i + 1 as int);
            assert(next.drop_last() =~= prefix);
            assert(next.last() == gv[i as int]);
            assert(g@[i as int]@ == gv[i as int]);
            assert(table_rows_body(next, labels@) == table_rows_body(prefix, labels@) + table_row(
                gv[i as int],
            ) + seq!['\n']);
            assert(row@ == table_row(gv[i as int]));
            assert(out@ =~= head + table_rows_body(next, labels@));
        }
        i = i + 1;
    }
    proof {
        assert(gv.subrange(0, g@.len() as int) =~= gv);
        assert(out@ =~= old(out)@ + table_group_lines(deps.deep_view(), kind, labels@));
    }
}

impl MarkdownTableFormatter {
    /// Renders records as a decorated table: header, separator, then the
    /// four kind sections in fixed order, each sorted by name.
    pub fn format(&self, deps: &Vec<DependencyInfo>, labels: &Labels) -> (r: Result<
        String,
        AppError,
    >)
        ensures
            r matches Ok(out) && out@ == table_render(deps.deep_view(), labels@),
    {
        let mut out: Vec<char> = Vec::new();
        out.push('\n');
        let header = str_to_chars(Self::get_header(labels).as_str());
        push_all(&mut out, &header);
        out.push('\n');
        let sep = str_to_chars(Self::get_separator().as_str());
        push_all(&mut out, &sep);
        out.push('\n');
        assert(out@ =~= seq!['\n'] + table_header_row(labels@) + seq!['\n'] + sep_row() + seq![
            '\n',
        ]);
        render_table_group(&mut out, deps, DependencyKind::Normal, labels);
        render_table_group(&mut out, deps, DependencyKind::Development, labels);
        render_table_group(&mut out, deps, DependencyKind::Build, labels);
        render_table_group(&mut out, deps, DependencyKind::Unknown, labels);
        proof {
            assert(out@ =~= table_render(deps.deep_view(), labels@));
        }
        Ok(chars_to_string(&out))
    }

    /// Reads the first decorated table out of the text: a marker line
    /// switches the section, any other table line must be a data row, and
    /// the first bad row fails the parse.  Text without a table yields no
    /// records.
    #[verifier::rlimit(100)]
    pub fn parse(&self, content: &str, labels: &Labels) -> (r: Result<
        Vec<DependencyInfo>,
        AppError,
    >)
        ensures
            match r {
                Ok(deps) => table_parse(content@, labels@) == Ok::<Seq<RecordView>, ErrView>(
                    deps.deep_view(),
                ),
                Err(e) => table_parse(content@, labels@) matches Err(v) && e@ == v,
            },
    {
        let cs = str_to_chars(content);
        let ls = split_lines_exec(&cs);
        let found = Self::find_table_exec(&ls);
        match found {
            None => {
                let deps: Vec<DependencyInfo> = Vec::new();
                proof {
                    assert(deps.deep_view() =~= Seq::<RecordView>::empty());
                }
                Ok(deps)
            },
            Some((start, end)) => {
                let ghost rows = views(ls@).subrange(start + 2 as int, end as int);
                let ghost whole = table_parse_lines(rows, DependencyKind::Unknown, labels@);
                let marker_n = str_to_chars(
                    DependencyKind::Normal.to_md_table_header(labels).as_str(),
                );
                let marker_d = str_to_chars(
                    DependencyKind::Development.to_md_table_header(labels).as_str(),
                );
                let marker_b = str_to_chars(
                    DependencyKind::Build.to_md_table_header(labels).as_str(),
                );
                let marker_u = str_to_chars(
                    DependencyKind::Unknown.to_md_table_header(labels).as_str(),
                );
                let mut deps: Vec<DependencyInfo> = Vec::new();
                let mut kind = DependencyKind::Unknown;
                let mut k: usize = start + 2;
                proof {
                    assert(rows.skip(0) =~= rows);
                    assert(deps.deep_view() =~= Seq::<RecordView>::empty());
                    if whole is Ok {
                        assert(deps.deep_view() + whole->Ok_0 =~= whole->Ok_0);
                    }
                }
                while k < end
                    invariant
                        start + 2 <= k <= end <= ls@.len(),
                        rows == views(ls@).subrange(start + 2 as int, end as int),
                        whole == table_parse_lines(rows, DependencyKind::Unknown, labels@),
                        table_parse(content@, labels@) == whole,
                        marker_n@ == kind_marker_row(DependencyKind::Normal, labels@),
                        marker_d@ == kind_marker_row(DependencyKind::Development, labels@),
                        marker_b@ == kind_marker_row(DependencyKind::Build, labels@),
                        marker_u@ == kind_marker_row(DependencyKind::Unknown, labels@),
                        ({
                            let tail = table_parse_lines(
                                rows.skip(k - start - 2 as int),
                                kind,
                                labels@,
                            );
                            match tail {
                                Ok(rs) => whole matches Ok(all) && all == deps.deep_view() + rs,
                                Err(e) => whole == Err::<Seq<RecordView>, ErrView>(e),
                            }
                        }),
                    decreases end - k,
                {
                    let ghost suffix = rows.skip(k - start - 2 as int);
                    proof {
                        assert(suffix.len() == end - k);
                        assert(suffix[0] == rows[k - start - 2 as int]);
                        assert(rows[k - start - 2 as int] == views(ls@)[k as int]);
                        assert(views(ls@)[k as int] == ls@[k as int]@);
                        assert(suffix.drop_first() =~= rows.skip(k + 1 - start - 2 as int));
                    }
                    let t = trim_ws_exec(&ls[k]);
                    if contains_sub_exec(&t, &marker_n) {
                        kind = DependencyKind::Normal;
                        proof {
                            assert(marker_kind_of(trim_ws(suffix[0]), labels@) == Some(
                                DependencyKind::Normal,
                            ));
                        }
                    } else if contains_sub_exec(&t, &marker_d) {
                        kind = DependencyKind::Development;
                        proof {
                            assert(marker_kind_of(trim_ws(suffix[0]), labels@) == Some(
                                DependencyKind::Development,
                            ));
                        }
                    } else if contains_sub_exec(&t, &marker_b) {
                        kind = DependencyKind::Build;
                        proof {
                            assert(marker_kind_of(trim_ws(suffix[0]), labels@) == Some(
                                DependencyKind::Build,
                            ));
                        }
                    } else if contains_sub_exec(&t, &marker_u) {
                        kind = DependencyKind::Unknown;
                        proof {
                            assert(marker_kind_of(trim_ws(suffix[0]), labels@) == Some(
                                DependencyKind::Unknown,
                            ));
                        }
                    } else {
                        proof {
                            assert(marker_kind_of(trim_ws(suffix[0]), labels@) is None);
                        }
                        match DependencyInfo::try_from_table_chars(&t, &kind, labels) {
                            Ok(dep) => {
                                let ghost before = deps.deep_view();
                                deps.push(dep);
                                proof {
                                    assert(deps.deep_view() =~= before.push(dep@));
                                    let tail2 = table_parse_lines(
                                        suffix.drop_first(),
                                        kind,
                                        labels@,
                                    );
                                    match tail2 {
                                        Ok(rs2) => {
                                            assert(before + (seq![dep@] + rs2)
                                                =~= deps.deep_view() + rs2);
                                        },
                                        Err(e2) => {},
                                    }
                                }
                            },
                            Err(e) => {
                                proof {
                                    assert(table_parse_lines(suffix, kind, labels@) is Err);
                                }
                                return Err(e);
                            },
                        }
                    }
                    k = k + 1;
                }
                proof {
                    assert(rows.skip(end - start - 2 as int) =~= Seq::<Seq<char>>::empty());
                    assert(table_parse_lines(Seq::<Seq<char>>::empty(), kind, labels@) == Ok::<
                        Seq<RecordView>,
                        ErrView,
                    >(Seq::empty()));
                    assert(whole matches Ok(all) && all == deps.deep_view()
                        + Seq::<RecordView>::empty());
                    assert(deps.deep_view() + Seq::<RecordView>::empty() =~= deps.deep_view());
                }
                Ok(deps)
            },
        }
    }
}

} // verus!
