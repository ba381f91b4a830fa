//! The delimited-text codec: one header line of catalog column names, then
//! one comma-joined line of seven fields per record.  Commas inside a
//! description are written as semicolons and are not restored on decode; that
//! loss is deliberate and documented.

use vstd::prelude::*;

use crate::cells::{
    cell_crates, desc_cell, cell_source, cell_stats, cell_status, decode_link, decode_stats,
    decode_status, opt_text, decode_link_chars, decode_stats_chars, decode_status_chars,
    render_desc_chars, render_link_chars, render_stats_chars, render_status_chars,
};
use crate::chars::{
    join_sub, replace_char, split_lines, split_sub, trim_ws, views, chars_to_string,
    filter_nonblank, join_exec, replace_char_exec, split_lines_exec, split_sub_exec, str_to_chars,
    trim_ws_exec, push_all,
};
use crate::errors::{AppError, ErrView};
use crate::labels::{Labels, LabelsView};
use crate::record::{
    kind_from_label, kind_label, DependencyInfo, DependencyKind, DependencyStats,
    RecordView,
};

verus! {

// ---------------------------------------------------------------------------
// Rendering
// ---------------------------------------------------------------------------

/// The seven column names of the delimited form, in order.
pub open spec fn csv_cols(l: LabelsView) -> Seq<Seq<char>> {
    seq![
        l.col_name,
        l.col_description,
        l.col_kind,
        l.col_crates_link,
        l.col_source_link,
        l.col_stats,
        l.col_status,
    ]
}

/// The header line: the column names joined by commas.
pub open spec fn csv_header(l: LabelsView) -> Seq<char> {
    join_sub(csv_cols(l), seq![','])
}

/// The column count the decoder expects: how many comma-separated cells the
/// header line shows.
pub open spec fn csv_column_num(l: LabelsView) -> int {
    split_sub(csv_header(l), seq![',']).len() as int
}

/// The seven fields of one record's line: name, description with commas
/// written as semicolons, kind label, registry link, source link, stats,
/// status.
pub open spec fn csv_fields(r: RecordView, l: LabelsView) -> Seq<Seq<char>> {
    seq![
        r.name,
        replace_char(desc_cell(r.description), ',', ';'),
        kind_label(r.dependency_kind, l),
        cell_crates(r),
        cell_source(r),
        cell_stats(r),
        cell_status(r),
    ]
}

/// One record's line.
pub open spec fn csv_record_line(r: RecordView, l: LabelsView) -> Seq<char> {
    join_sub(csv_fields(r, l), seq![','])
}

/// The record lines, each ended by a line feed.
pub open spec fn csv_body(records: Seq<RecordView>, l: LabelsView) -> Seq<char>
    decreases records.len(),
{
    if records.len() == 0 {
        Seq::empty()
    } else {
        csv_body(records.drop_last(), l) + csv_record_line(records.last(), l) + seq!['\n']
    }
}

/// The whole delimited document: a blank line, the header, then one line
/// per record in input order.
pub open spec fn csv_render(records: Seq<RecordView>, l: LabelsView) -> Seq<char> {
    seq!['\n'] + csv_header(l) + seq!['\n'] + csv_body(records, l)
}

// ---------------------------------------------------------------------------
// Parsing
// ---------------------------------------------------------------------------

/// The cells of one line: split at commas, each cell trimmed.
pub open spec fn trimmed_cols(line: Seq<char>) -> Seq<Seq<char>> {
    split_sub(line, seq![',']).map_values(crate::chars::trim_each())
}

/// Decoding of one record line.  The line must show exactly `num` cells;
/// the kind label, stats cell and status cell must each decode; the
/// description is the trimmed cell as written — the comma-to-semicolon
/// substitution of the encoder is not reversed.
pub open spec fn csv_line_record(line: Seq<char>, num: int, l: LabelsView) -> Result<
    RecordView,
    ErrView,
> {
    let cols = trimmed_cols(line);
    if cols.len() != num || num < 7 {
        Err(ErrView::InvalidCsvContent(line))
    } else {
        match kind_from_label(cols[2], l) {
            Err(p) => Err(ErrView::InvalidDependencyKind(p)),
            Ok(kind) => match decode_stats(cols[5]) {
                Err(t) => Err(ErrView::InvalidStats(t)),
                Ok((stars, downloads)) => match decode_status(cols[6]) {
                    Err(t) => Err(ErrView::InvalidStatus(t)),
                    Ok((failed, error_message)) => Ok(
                        RecordView {
                            name: cols[0],
                            description: opt_text(cols[1]),
                            dependency_kind: kind,
                            crate_url: decode_link(cols[3]).1,
                            source_type: decode_link(cols[4]).0,
                            source_url: decode_link(cols[4]).1,
                            stars,
                            downloads,
                            failed,
                            error_message,
                        },
                    ),
                },
            },
        }
    }
}

/// Decoding of the record lines in order; the first failing line fails the
/// whole parse.
pub open spec fn csv_parse_lines(ls: Seq<Seq<char>>, num: int, l: LabelsView) -> Result<
    Seq<RecordView>,
    ErrView,
>
    decreases ls.len(),
{
    if ls.len() == 0 {
        Ok(Seq::empty())
    } else {
        match csv_line_record(ls[0], num, l) {
            Err(e) => Err(e),
            Ok(r) => match csv_parse_lines(ls.drop_first(), num, l) {
                Err(e) => Err(e),
                Ok(rest) => Ok(seq![r] + rest),
            },
        }
    }
}

/// The lines of a document that hold more than whitespace.
pub open spec fn nonblank_lines(s: Seq<char>) -> Seq<Seq<char>> {
    split_lines(s).filter(crate::chars::nonblank_pred())
}

/// Decoding of a delimited document: the first non-blank line must show as
/// many cells as the catalog header; every further non-blank line is a
/// record.  A document without such a header is refused whole.
pub open spec fn csv_parse(s: Seq<char>, l: LabelsView) -> Result<Seq<RecordView>, ErrView> {
    let ls = nonblank_lines(s);
    if ls.len() == 0 {
        Err(ErrView::InvalidCsvContent(s))
    } else if split_sub(ls[0], seq![',']).len() != csv_column_num(l) {
        Err(ErrView::InvalidCsvContent(s))
    } else {
        csv_parse_lines(ls.drop_first(), csv_column_num(l), l)
    }
}

// ---------------------------------------------------------------------------
// Executable codec
// ---------------------------------------------------------------------------

/// The delimited-text codec.
pub struct CsvFormatter;

/// The comma separator as a vector.
fn comma_exec() -> (r: Vec<char>)
    ensures
        r@ == seq![','],
{
    let mut r: Vec<char> = Vec::new();
    r.push(',');
    assert(r@ =~= seq![',']);
    r
}

/// The seven field texts of one record's line.
fn csv_fields_exec(dep: &DependencyInfo, labels: &Labels) -> (r: Vec<Vec<char>>)
    ensures
        views(r@) == csv_fields(dep@, labels@),
{
    let mut fields: Vec<Vec<char>> = Vec::new();
    fields.push(str_to_chars(dep.name.as_str()));
    fields.push(replace_char_exec(&render_desc_chars(&dep.description), ',', ';'));
    fields.push(str_to_chars(dep.dependency_kind.label(labels).as_str()));
    let name_chars = str_to_chars(dep.name.as_str());
    let crate_url_chars = match &dep.crate_url {
        Some(u) => Some(str_to_chars(u.as_str())),
        None => None,
    };
    fields.push(render_link_chars(&name_chars, &crate_url_chars));
    let source_chars = str_to_chars(dep.source_type.as_str());
    let source_url_chars = match &dep.source_url {
        Some(u) => Some(str_to_chars(u.as_str())),
        None => None,
    };
    fields.push(render_link_chars(&source_chars, &source_url_chars));
    fields.push(render_stats_chars(dep.stats.stars, dep.stats.downloads));
    fields.push(render_status_chars(dep.failed, &dep.error_message));
    assert(views(fields@) =~= csv_fields(dep@, labels@));
    fields
}

/// The cells of one line: split at commas, each cell trimmed.
fn trimmed_cols_exec(line: &Vec<char>) -> (r: Vec<Vec<char>>)
    ensures
        views(r@) == trimmed_cols(line@),
{
    let comma = comma_exec();
    let parts = split_sub_exec(line, &comma);
    let mut out: Vec<Vec<char>> = Vec::new();
    let mut i: usize = 0;
    while i < parts.len()
        invariant
            i <= parts@.len(),
            views(out@) == views(parts@).subrange(0, i as int).map_values(
                crate::chars::trim_each(),
            ),
        decreases parts@.len() - i,
    {
        let ghost before = views(out@);
        out.push(trim_ws_exec(&parts[i]));
        proof {
            assert(views(out@) =~= before.push(trim_ws(views(parts@)[i as int])));
            assert(views(parts@).subrange(0, i + 1 as int).map_values(
                crate::chars::trim_each(),
            ) =~= views(parts@).subrange(0, i as int).map_values(crate::chars::trim_each()).push(
                trim_ws(views(parts@)[i as int]),
            ));
        }
        i = i + 1;
    }
    proof {
        assert(views(parts@).subrange(0, parts@.len() as int) =~= views(parts@));
        assert(views(parts@) == split_sub(line@, seq![',']));
    }
    out
}

impl DependencyInfo {
    /// Reads one delimited line into a record: exactly `header_num` cells,
    /// in the seven-column order of the delimited form.
    pub fn try_from_csv_line(line: &str, header_num: usize, labels: &Labels) -> (r: Result<
        DependencyInfo,
        AppError,
    >)
        ensures
            match r {
                Ok(d) => csv_line_record(line@, header_num as int, labels@) == Ok::<
                    RecordView,
                    ErrView,
                >(d@),
                Err(e) => csv_line_record(line@, header_num as int, labels@) matches Err(v) && e@
                    == v,
            },
    {
        let cs = str_to_chars(line);
        Self::try_from_csv_chars(&cs, header_num, labels)
    }

    /// Reads one delimited line, given as characters.
    pub fn try_from_csv_chars(line: &Vec<char>, header_num: usize, labels: &Labels) -> (r: Result<
        DependencyInfo,
        AppError,
    >)
        ensures
            match r {
                Ok(d) => csv_line_record(line@, header_num as int, labels@) == Ok::<
                    RecordView,
                    ErrView,
                >(d@),
                Err(e) => csv_line_record(line@, header_num as int, labels@) matches Err(v) && e@
                    == v,
            },
    {
        let cols = trimmed_cols_exec(line);
        if cols.len() != header_num || header_num < 7 {
            return Err(AppError::InvalidCsvContent(chars_to_string(line)));
        }
        proof {
            assert(cols@[0 as int]@ == trimmed_cols(line@)[0]);
            assert(cols@[1 as int]@ == trimmed_cols(line@)[1]);
            assert(cols@[2 as int]@ == trimmed_cols(line@)[2]);
            assert(cols@[3 as int]@ == trimmed_cols(line@)[3]);
            assert(cols@[4 as int]@ == trimmed_cols(line@)[4]);
            assert(cols@[5 as int]@ == trimmed_cols(line@)[5]);
            assert(cols@[6 as int]@ == trimmed_cols(line@)[6]);
        }
        let kind = match DependencyKind::from_chars(&cols[2], labels) {
            Ok(k) => k,
            Err(e) => {
                return Err(e);
            },
        };
        let (stars, downloads) = match decode_stats_chars(&cols[5]) {
            Ok(p) => p,
            Err(t) => {
                return Err(AppError::InvalidStats(chars_to_string(&t)));
            },
        };
        let (failed, error_message) = match decode_status_chars(&cols[6]) {
            Ok(p) => p,
            Err(t) => {
                return Err(AppError::InvalidStatus(chars_to_string(&t)));
            },
        };
        let description = {
            let t = trim_ws_exec(&cols[1]);
            if t.len() == 0 {
                None
            } else {
                Some(chars_to_string(&t))
            }
        };
        let (_, crate_url) = decode_link_chars(&cols[3]);
        let (source_type, source_url) = decode_link_chars(&cols[4]);
        let dep = DependencyInfo {
            name: chars_to_string(&cols[0]),
            description,
            dependency_kind: kind,
            crate_url: match crate_url {
                Some(u) => Some(chars_to_string(&u)),
                None => None,
            },
            source_type: chars_to_string(&source_type),
            source_url: match source_url {
                Some(u) => Some(chars_to_string(&u)),
                None => None,
            },
            stats: DependencyStats { stars, downloads },
            failed,
            error_message: match error_message {
                Some(m) => Some(chars_to_string(&m)),
                None => None,
            },
        };
        Ok(dep)
    }
}

impl CsvFormatter {
    /// The header line of the delimited form under a catalog.
    pub fn get_header(labels: &Labels) -> (r: String)
        ensures
            r@ == csv_header(labels@),
    {
        let mut cols: Vec<Vec<char>> = Vec::new();
        cols.push(str_to_chars(labels.col_name.as_str()));
        cols.push(str_to_chars(labels.col_description.as_str()));
        cols.push(str_to_chars(labels.col_kind.as_str()));
        cols.push(str_to_chars(labels.col_crates_link.as_str()));
        cols.push(str_to_chars(labels.col_source_link.as_str()));
        cols.push(str_to_chars(labels.col_stats.as_str()));
        cols.push(str_to_chars(labels.col_status.as_str()));
        assert(views(cols@) =~= csv_cols(labels@));
        let comma = comma_exec();
        chars_to_string(&join_exec(&cols, &comma))
    }

    /// How many cells the decoder expects on every line.
    pub fn column_num(labels: &Labels) -> (r: usize)
        ensures
            r as int == csv_column_num(labels@),
    {
        let header = str_to_chars(Self::get_header(labels).as_str());
        let comma = comma_exec();
        let parts = split_sub_exec(&header, &comma);
        parts.len()
    }

    /// Renders records into the delimited form, in input order.
    pub fn format(&self, deps: &Vec<DependencyInfo>, labels: &Labels) -> (r: Result<
        String,
        AppError,
    >)
        ensures
            r matches Ok(out) && out@ == csv_render(deps.deep_view(), labels@),
    {
        let mut out: Vec<char> = Vec::new();
        out.push('\n');
        let header = str_to_chars(Self::get_header(labels).as_str());
        push_all(&mut out, &header);
        out.push('\n');
        assert(out@ =~= seq!['\n'] + csv_header(labels@) + seq!['\n']);
        let comma = comma_exec();
        let mut i: usize = 0;
        proof {
            assert(deps.deep_view().subrange(0, 0) =~= Seq::<RecordView>::empty());
        }
        while i < deps.len()
            invariant
                i <= deps@.len(),
                deps.deep_view().len() == deps@.len(),
                comma@ == seq![','],
                out@ == seq!['\n'] + csv_header(labels@) + seq!['\n'] + csv_body(
                    deps.deep_view().subrange(0, i as int),
                    labels@,
                ),
            decreases deps@.len() - i,
        {
            let fields = csv_fields_exec(&deps[i], labels);
            let line = join_exec(&fields, &comma);
            push_all(&mut out, &line);
            out.push('\n');
            proof {
                let prefix = deps.deep_view().subrange(0, i as int);
                let next = deps.deep_view().subrange(0, i + 1 as int);
                assert(next.drop_last() =~= prefix);
                assert(next.last() == deps.deep_view()[i as int]);
                assert(deps@[i as int]@ == deps.deep_view()[i as int]);
                assert(csv_body(next, labels@) == csv_body(prefix, labels@) + csv_record_line(
                    deps.deep_view()[i as int],
                    labels@,
                ) + seq!['\n']);
                assert(line@ == csv_record_line(deps.deep_view()[i as int], labels@));
                assert(out@ =~= seq!['\n'] + csv_header(labels@) + seq!['\n'] + csv_body(
                    next,
                    labels@,
                ));
            }
            i = i + 1;
        }
        proof {
            assert(deps.deep_view().subrange(0, deps@.len() as int) =~= deps.deep_view());
        }
        Ok(chars_to_string(&out))
    }

    /// Reads a delimited document back into records; the first bad line
    /// fails the parse.
    #[verifier::rlimit(100)]
    pub fn parse(&self, content: &str, labels: &Labels) -> (r: Result<
        Vec<DependencyInfo>,
        AppError,
    >)
        ensures
            match r {
                Ok(deps) => csv_parse(content@, labels@) == Ok::<Seq<RecordView>, ErrView>(
                    deps.deep_view(),
                ),
                Err(e) => csv_parse(content@, labels@) matches Err(v) && e@ == v,
            },
    {
        let cs = str_to_chars(content);
        let all_lines = split_lines_exec(&cs);
        let ls = filter_nonblank(&all_lines);
        proof {
            assert(views(ls@) == nonblank_lines(content@));
        }
        if ls.len() == 0 {
            return Err(AppError::InvalidCsvContent(chars_to_string(&cs)));
        }
        let comma = comma_exec();
        let header_cells = split_sub_exec(&ls[0], &comma);
        proof {
            assert(ls@[0 as int]@ == nonblank_lines(content@)[0]);
        }
        let num = Self::column_num(labels);
        if header_cells.len() != num {
            return Err(AppError::InvalidCsvContent(chars_to_string(&cs)));
        }
        let ghost rest = views(ls@).drop_first();
        let ghost whole = csv_parse_lines(rest, num as int, labels@);
        let mut deps: Vec<DependencyInfo> = Vec::new();
        let mut i: usize = 1;
        proof {
            assert(rest.skip(0) =~= rest);
            assert(deps.deep_view() =~= Seq::<RecordView>::empty());
            if csv_parse_lines(rest, num as int, labels@) is Ok {
                assert(deps.deep_view() + csv_parse_lines(rest, num as int, labels@)->Ok_0
                    =~= csv_parse_lines(rest, num as int, labels@)->Ok_0);
            }
        }
        while i < ls.len()
            invariant
                1 <= i <= ls@.len(),
                views(ls@) == nonblank_lines(content@),
                rest == views(ls@).drop_first(),
                num as int == csv_column_num(labels@),
                views(ls@).len() >= 1,
                split_sub(views(ls@)[0], seq![',']).len() == csv_column_num(labels@),
                whole == csv_parse_lines(rest, num as int, labels@),
                rest.len() == ls@.len() - 1,
                deps.deep_view().len() == i - 1,
                ({
                    let tail = csv_parse_lines(rest.skip(i - 1 as int), num as int, labels@);
                    match tail {
                        Ok(rs) => whole matches Ok(all) && all == deps.deep_view() + rs,
                        Err(e) => whole == Err::<Seq<RecordView>, ErrView>(e),
                    }
                }),
            decreases ls@.len() - i,
        {
            let ghost suffix = rest.skip(i - 1 as int);
            proof {
                assert(suffix.len() == rest.len() - (i - 1));
                assert(suffix[0] == rest[i - 1 as int]);
                assert(rest[i - 1 as int] == views(ls@)[i as int]);
                assert(views(ls@)[i as int] == ls@[i as int]@);
                assert(suffix.drop_first() =~= rest.skip(i as int));
            }
            match DependencyInfo::try_from_csv_chars(&ls[i], num, labels) {
                Ok(dep) => {
                    let ghost before = deps.deep_view();
                    deps.push(dep);
                    proof {
                        assert(deps.deep_view() =~= before.push(dep@));
                        let tail = csv_parse_lines(suffix, num as int, labels@);
                        let tail2 = csv_parse_lines(rest.skip(i as int), num as int, labels@);
                        assert(csv_line_record(suffix[0], num as int, labels@) == Ok::<
                            RecordView,
                            ErrView,
                        >(dep@));
                        match tail2 {
                            Ok(rs2) => {
                                assert(tail == Ok::<Seq<RecordView>, ErrView>(
                                    seq![dep@] + rs2,
                                ));
                                assert(before + (seq![dep@] + rs2) =~= deps.deep_view() + rs2);
                            },
                            Err(e2) => {
                                assert(tail == Err::<Seq<RecordView>, ErrView>(e2));
                            },
                        }
                    }
                },
                Err(e) => {
                    proof {
                        assert(csv_line_record(suffix[0], num as int, labels@) is Err);
                        assert(csv_parse_lines(suffix, num as int, labels@) is Err);
                    }
                    return Err(e);
                },
            }
            i = i + 1;
        }
        proof {
            assert(rest.skip(ls@.len() - 1) =~= Seq::<Seq<char>>::empty());
            assert(csv_parse_lines(Seq::<Seq<char>>::empty(), num as int, labels@) == Ok::<
                Seq<RecordView>,
                ErrView,
            >(Seq::empty()));
            assert(whole matches Ok(all) && all == deps.deep_view() + Seq::<RecordView>::empty());
            assert(deps.deep_view() + Seq::<RecordView>::empty() =~= deps.deep_view());
        }
        Ok(deps)
    }
}

} // verus!
