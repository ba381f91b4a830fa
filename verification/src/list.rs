//! The decorated-list codec: a title line, then per non-empty kind group a
//! sub-heading and one item line per record.  Parsing first locates the
//! first valid list block; a bad item line is skipped, not fatal — unlike
//! the table codec, and deliberately so.

use vstd::prelude::*;

use crate::cells::{
    cell_crates, cell_source, cell_stats, cell_status, decode_link, decode_stats, decode_status,
    desc_cell, opt_text, decode_link_chars, decode_stats_chars, decode_status_chars,
    render_desc_chars, render_link_chars, render_stats_chars, render_status_chars,
};
use crate::chars::{
    contains_sub, has_char, split_lines, split_sub, starts_with, trim_start_set, trim_ws, views,
    chars_to_string, contains_sub_exec, join_exec, split_lines_exec, split_sub_exec,
    starts_with_exec, str_to_chars, subvec, trim_ws_exec, push_all,
};
use crate::errors::{AppError, ErrView};
use crate::labels::{Labels, LabelsView};
use crate::record::{
    group_of, kind_subheading, DependencyInfo, DependencyKind, DependencyStats, RecordView,
    take_sort_dependencies,
};

verus! {

// ---------------------------------------------------------------------------
// Rendering
// ---------------------------------------------------------------------------

/// The title line of the list.
pub open spec fn list_title(l: LabelsView) -> Seq<char> {
    seq!['#', ' '] + l.title
}

/// One record's item line: name, description, registry link, source link,
/// parenthesized stats, status.
pub open spec fn list_item_line(r: RecordView) -> Seq<char> {
    seq!['-', ' '] + r.name + seq![' ', ':', ' '] + desc_cell(r.description) + seq![
        ' ',
        '-',
        ' ',
    ] + cell_crates(r) + seq![' '] + cell_source(r) + seq![' ', '('] + cell_stats(r) + seq![
        ')',
        ' ',
    ] + cell_status(r)
}

/// The item lines of one group, each ended by a line feed.
pub open spec fn list_items_body(g: Seq<RecordView>) -> Seq<char>
    decreases g.len(),
{
    if g.len() == 0 {
        Seq::empty()
    } else {
        list_items_body(g.drop_last()) + list_item_line(g.last()) + seq!['\n']
    }
}

/// One kind's section: nothing when the group is empty, else a blank line,
/// its sub-heading, and its item lines.
pub open spec fn list_group_lines(
    records: Seq<RecordView>,
    kind: DependencyKind,
    l: LabelsView,
) -> Seq<char> {
    let g = group_of(records, kind);
    if g.len() == 0 {
        Seq::empty()
    } else {
        seq!['\n'] + kind_subheading(kind, l) + seq!['\n'] + list_items_body(g)
    }
}

/// The whole decorated list: a blank line, the title, then the four kind
/// sections in fixed order.
pub open spec fn list_render(records: Seq<RecordView>, l: LabelsView) -> Seq<char> {
    seq!['\n'] + list_title(l) + seq!['\n'] + list_group_lines(
        records,
        DependencyKind::Normal,
        l,
    ) + list_group_lines(records, DependencyKind::Development, l) + list_group_lines(
        records,
        DependencyKind::Build,
        l,
    ) + list_group_lines(records, DependencyKind::Unknown, l)
}

// ---------------------------------------------------------------------------
// List location
// ---------------------------------------------------------------------------

/// A single- or double-level heading line with text after the marks.
pub open spec fn is_heading(line: Seq<char>) -> bool {
    (starts_with(line, seq!['#', ' ']) && line.len() > 2) || (starts_with(
        line,
        seq!['#', '#', ' '],
    ) && line.len() > 3)
}

/// The heading predicate, as a function value.
pub open spec fn heading_pred() -> spec_fn(Seq<char>) -> bool {
    |x: Seq<char>| is_heading(x)
}

/// A top-level heading line.
pub open spec fn is_top_heading(line: Seq<char>) -> bool {
    starts_with(line, seq!['#', ' ']) && line.len() > 2
}

/// A triple-level heading prefix, which ends a block.
pub open spec fn is_deep_heading(line: Seq<char>) -> bool {
    starts_with(line, seq!['#', '#', '#', ' '])
}

/// The first top-level heading at or after line `i`.
pub open spec fn find_top_from(ls: Seq<Seq<char>>, i: int) -> Option<int>
    decreases ls.len() - i,
{
    if i < 0 || i >= ls.len() {
        None
    } else if is_top_heading(ls[i]) {
        Some(i)
    } else {
        find_top_from(ls, i + 1)
    }
}

/// The first triple-level heading at or after line `i`.
pub open spec fn find_deep_from(ls: Seq<Seq<char>>, i: int) -> Option<int>
    decreases ls.len() - i,
{
    if i < 0 || i >= ls.len() {
        None
    } else if is_deep_heading(ls[i]) {
        Some(i)
    } else {
        find_deep_from(ls, i + 1)
    }
}

/// The block holds at least one sub-heading and at least one line that
/// decodes as an item.
pub open spec fn valid_block(ls: Seq<Seq<char>>, start: int, end: int, l: LabelsView) -> bool {
    &&& exists|j: int|
        start < j < end && starts_with(#[trigger] ls[j], seq!['#', '#', ' '])
    &&& exists|j: int|
        start < j < end && list_line_record(#[trigger] ls[j], DependencyKind::Unknown, l) is Ok
}

/// The first valid list block: it begins at the first top-level heading and
/// ends at the next top-level heading, else at the first triple-level
/// heading after it, else at the end of input; the text must show at least
/// two headings, and the block must hold a sub-heading and a decodable item.
pub open spec fn find_list(ls: Seq<Seq<char>>, l: LabelsView) -> Option<(int, int)> {
    if ls.filter(heading_pred()).len() < 2 {
        None
    } else {
        match find_top_from(ls, 0) {
            None => None,
            Some(start) => {
                let end = match find_top_from(ls, start + 1) {
                    Some(j) => j,
                    None => match find_deep_from(ls, start + 1) {
                        Some(j) => j,
                        None => ls.len() as int,
                    },
                };
                if valid_block(ls, start, end, l) {
                    Some((start, end))
                } else {
                    None
                }
            },
        }
    }
}

// ---------------------------------------------------------------------------
// Parsing
// ---------------------------------------------------------------------------

/// Decoding of one item line: two parts around ` - `, the first split once
/// more at ` : ` into name and description, the second split at the closing
/// parentheses into the two link cells, the stats cell and the status cell.
pub open spec fn list_line_record(line: Seq<char>, kind: DependencyKind, l: LabelsView) -> Result<
    RecordView,
    ErrView,
> {
    let parts = split_sub(line, seq![' ', '-', ' ']);
    if parts.len() != 2 {
        Err(ErrView::InvalidListLine(line))
    } else {
        let parts0 = split_sub(parts[0], seq![' ', ':', ' ']);
        if parts0.len() != 2 {
            Err(ErrView::InvalidListLine(line))
        } else {
            let parts1 = split_sub(parts[1], seq![')']);
            if parts1.len() != 4 {
                Err(ErrView::InvalidListLine(line))
            } else {
                match decode_stats(parts1[2] + seq![')']) {
                    Err(t) => Err(ErrView::InvalidStats(t)),
                    Ok((stars, downloads)) => match decode_status(parts1[3]) {
                        Err(t) => Err(ErrView::InvalidStatus(t)),
                        Ok((failed, error_message)) => Ok(
                            RecordView {
                                name: trim_ws(trim_start_set(parts0[0], seq!['-'])),
                                description: opt_text(parts0[1]),
                                dependency_kind: kind,
                                crate_url: decode_link(parts1[0] + seq![')']).1,
                                source_type: decode_link(parts1[1] + seq![')']).0,
                                source_url: decode_link(parts1[1] + seq![')']).1,
                                stars,
                                downloads,
                                failed,
                                error_message,
                            },
                        ),
                    },
                }
            }
        }
    }
}

/// The kind a sub-heading line switches to, if it holds any kind's
/// sub-heading; the four are tried in fixed order.
pub open spec fn subheading_kind_of(t: Seq<char>, l: LabelsView) -> Option<DependencyKind> {
    if contains_sub(t, kind_subheading(DependencyKind::Normal, l)) {
        Some(DependencyKind::Normal)
    } else if contains_sub(t, kind_subheading(DependencyKind::Development, l)) {
        Some(DependencyKind::Development)
    } else if contains_sub(t, kind_subheading(DependencyKind::Build, l)) {
        Some(DependencyKind::Build)
    } else if contains_sub(t, kind_subheading(DependencyKind::Unknown, l)) {
        Some(DependencyKind::Unknown)
    } else {
        None
    }
}

/// Decoding of the block's lines: a sub-heading line switches the current
/// kind; a line that decodes becomes a record under that kind; any other
/// line is skipped.
pub open spec fn list_parse_lines(
    rows: Seq<Seq<char>>,
    kind: DependencyKind,
    l: LabelsView,
) -> Seq<RecordView>
    decreases rows.len(),
{
    if rows.len() == 0 {
        Seq::empty()
    } else {
        let t = trim_ws(rows[0]);
        match subheading_kind_of(t, l) {
            Some(k) => list_parse_lines(rows.drop_first(), k, l),
            None => match list_line_record(t, kind, l) {
                Ok(r) => seq![r] + list_parse_lines(rows.drop_first(), kind, l),
                Err(e) => list_parse_lines(rows.drop_first(), kind, l),
            },
        }
    }
}

/// Decoding of a decorated list inside arbitrary text: no valid block
/// yields no records; otherwise the block's lines are decoded, starting in
/// the unknown kind.
pub open spec fn list_parse(s: Seq<char>, l: LabelsView) -> Seq<RecordView> {
    let ls = split_lines(s);
    match find_list(ls, l) {
        None => Seq::empty(),
        Some((start, end)) => list_parse_lines(
            ls.subrange(start, end),
            DependencyKind::Unknown,
            l,
        ),
    }
}

// ---------------------------------------------------------------------------
// Executable codec
// ---------------------------------------------------------------------------

/// The decorated-list codec.
pub struct MarkdownListFormatter;

impl DependencyInfo {
    /// Reads one item line into a record tagged with the current kind.
    pub fn try_from_md_list_line(line: &str, dependency_kind: &DependencyKind, labels: &Labels)
        -> (r: Result<DependencyInfo, AppError>)
        ensures
            match r {
                Ok(d) => list_line_record(line@, *dependency_kind, labels@) == Ok::<
                    RecordView,
                    ErrView,
                >(d@),
                Err(e) => list_line_record(line@, *dependency_kind, labels@) matches Err(v) && e@
                    == v,
            },
    {
        let cs = str_to_chars(line);
        Self::try_from_list_chars(&cs, dependency_kind, labels)
    }

    /// Reads one item line, given as characters.
    pub fn try_from_list_chars(line: &Vec<char>, dependency_kind: &DependencyKind, labels: &Labels)
        -> (r: Result<DependencyInfo, AppError>)
        ensures
            match r {
                Ok(d) => list_line_record(line@, *dependency_kind, labels@) == Ok::<
                    RecordView,
                    ErrView,
                >(d@),
                Err(e) => list_line_record(line@, *dependency_kind, labels@) matches Err(v) && e@
                    == v,
            },
    {
        let mut dash_sep: Vec<char> = Vec::new();
        dash_sep.push(' ');
        dash_sep.push('-');
        dash_sep.push(' ');
        assert(dash_sep@ =~= seq![' ', '-', ' ']);
        let mut colon_sep: Vec<char> = Vec::new();
        colon_sep.push(' ');
        colon_sep.push(':');
        colon_sep.push(' ');
        assert(colon_sep@ =~= seq![' ', ':', ' ']);
        let mut paren_sep: Vec<char> = Vec::new();
        paren_sep.push(')');
        assert(paren_sep@ =~= seq![')']);
        let parts = split_sub_exec(line, &dash_sep);
        if parts.len() != 2 {
            return Err(AppError::InvalidListLine(chars_to_string(line)));
        }
        proof {
            assert(parts@[0 as int]@ == split_sub(line@, seq![' ', '-', ' '])[0]);
            assert(parts@[1 as int]@ == split_sub(line@, seq![' ', '-', ' '])[1]);
        }
        let parts0 = split_sub_exec(&parts[0], &colon_sep);
        if parts0.len() != 2 {
            return Err(AppError::InvalidListLine(chars_to_string(line)));
        }
        let parts1 = split_sub_exec(&parts[1], &paren_sep);
        if parts1.len() != 4 {
            return Err(AppError::InvalidListLine(chars_to_string(line)));
        }
        let ghost sp0 = split_sub(split_sub(line@, seq![' ', '-', ' '])[0], seq![' ', ':', ' ']);
        let ghost sp1 = split_sub(split_sub(line@, seq![' ', '-', ' '])[1], seq![')']);
        proof {
            assert(parts0@[0 as int]@ == sp0[0]);
            assert(parts0@[1 as int]@ == sp0[1]);
            assert(parts1@[0 as int]@ == sp1[0]);
            assert(parts1@[1 as int]@ == sp1[1]);
            assert(parts1@[2 as int]@ == sp1[2]);
            assert(parts1@[3 as int]@ == sp1[3]);
        }
        let mut crates_cell = subvec(&parts1[0], 0, parts1[0].len());
        crates_cell.push(')');
        assert(crates_cell@ =~= sp1[0] + seq![')']);
        let mut source_cell = subvec(&parts1[1], 0, parts1[1].len());
        source_cell.push(')');
        assert(source_cell@ =~= sp1[1] + seq![')']);
        let mut stats_cell_text = subvec(&parts1[2], 0, parts1[2].len());
        stats_cell_text.push(')');
        assert(stats_cell_text@ =~= sp1[2] + seq![')']);
        let (stars, downloads) = match decode_stats_chars(&stats_cell_text) {
            Ok(p) => p,
            Err(t) => {
                return Err(AppError::InvalidStats(chars_to_string(&t)));
            },
        };
        let (failed, error_message) = match decode_status_chars(&parts1[3]) {
            Ok(p) => p,
            Err(t) => {
                return Err(AppError::InvalidStatus(chars_to_string(&t)));
            },
        };
        let mut dash_pat: Vec<char> = Vec::new();
        dash_pat.push('-');
        assert(dash_pat@ =~= seq!['-']);
        let name_chars = trim_ws_exec(&trim_set_start(&parts0[0], &dash_pat));
        let description = {
            let t = trim_ws_exec(&parts0[1]);
            if t.len() == 0 {
                None
            } else {
                Some(chars_to_string(&t))
            }
        };
        let (_, crate_url) = decode_link_chars(&crates_cell);
        let (source_type, source_url) = decode_link_chars(&source_cell);
        let dep = DependencyInfo {
            name: chars_to_string(&name_chars),
            description,
            dependency_kind: *dependency_kind,
            crate_url: match crate_url {
                Some(u) => Some(chars_to_string(&u)),
                None => None,
            },
            source_type: chars_to_string(&source_type),
            source_url: match source_url {
                Some(u) => Some(chars_to_string(&u)),
                None => None,
            },
            stats: DependencyStats { stars, downloads },
            failed,
            error_message: match error_message {
                Some(m) => Some(chars_to_string(&m)),
                None => None,
            },
        };
        Ok(dep)
    }
}

/// Removes the leading run of characters drawn from the pattern set.
fn trim_set_start(s: &Vec<char>, pat: &Vec<char>) -> (r: Vec<char>)
    ensures
        r@ == trim_start_set(s@, pat@),
{
    let n = s.len();
    let mut lo: usize = 0;
    while lo < n && crate::chars::has_char_exec(pat, s[lo])
        invariant
            lo <= n,
            n == s@.len(),
            forall|i: int| 0 <= i < lo ==> has_char(pat@, #[trigger] s@[i]),
        decreases n - lo,
    {
        lo = lo + 1;
    }
    proof {
        crate::chars::lemma_trim_start_set_index(s@, pat@, lo as int);
    }
    subvec(s, lo, n)
}


/// True when the line is a single- or double-level heading.
fn is_heading_exec(line: &Vec<char>) -> (r: bool)
    ensures
        r == is_heading(line@),
{
    let mut h1: Vec<char> = Vec::new();
    h1.push('#');
    h1.push(' ');
    assert(h1@ =~= seq!['#', ' ']);
    let mut h2: Vec<char> = Vec::new();
    h2.push('#');
    h2.push('#');
    h2.push(' ');
    assert(h2@ =~= seq!['#', '#', ' ']);
    (starts_with_exec(line, &h1) && line.len() > 2) || (starts_with_exec(line, &h2) && line.len()
        > 3)
}

/// True when the line is a top-level heading.
fn is_top_heading_exec(line: &Vec<char>) -> (r: bool)
    ensures
        r == is_top_heading(line@),
{
    let mut h1: Vec<char> = Vec::new();
    h1.push('#');
    h1.push(' ');
    assert(h1@ =~= seq!['#', ' ']);
    starts_with_exec(line, &h1) && line.len() > 2
}

/// True when the line starts like a triple-level heading.
fn is_deep_heading_exec(line: &Vec<char>) -> (r: bool)
    ensures
        r == is_deep_heading(line@),
{
    let mut h3: Vec<char> = Vec::new();
    h3.push('#');
    h3.push('#');
    h3.push('#');
    h3.push(' ');
    assert(h3@ =~= seq!['#', '#', '#', ' ']);
    starts_with_exec(line, &h3)
}

/// Locates the first valid list block among the lines.
fn find_list_exec(ls: &Vec<Vec<char>>, labels: &Labels) -> (r: Option<(usize, usize)>)
    ensures
        match r {
            Some(p) => find_list(views(ls@), labels@) == Some((p.0 as int, p.1 as int)) && p.0
                < p.1 <= ls@.len(),
            None => find_list(views(ls@), labels@) is None,
        },
{
    let ghost lsv = views(ls@);
    let n = ls.len();
    let mut cnt: usize = 0;
    let mut i: usize = 0;
    proof {
        reveal(Seq::filter);
        assert(lsv.subrange(0, 0) =~= Seq::<Seq<char>>::empty());
    }
    while i < n
        invariant
            i <= n,
            n == ls@.len(),
            lsv == views(ls@),
            cnt <= i,
            cnt as int == lsv.subrange(0, i as int).filter(heading_pred()).len(),
        decreases n - i,
    {
        let ghost prefix = lsv.subrange(0, i as int);
        let ghost next = lsv.subrange(0, i + 1 as int);
        proof {
            reveal(Seq::filter);
            assert(next.drop_last() =~= prefix);
            assert(next.last() == lsv[i as int]);
        }
        if is_heading_exec(&ls[i]) {
            cnt = cnt + 1;
        }
        i = i + 1;
    }
    proof {
        assert(lsv.subrange(0, n as int) =~= lsv);
    }
    if cnt < 2 {
        return None;
    }
    let mut start: usize = 0;
    let mut found_start = false;
    while start < n && !found_start
        invariant
            start <= n,
            n == ls@.len(),
            lsv == views(ls@),
            !found_start ==> find_top_from(lsv, 0) == find_top_from(lsv, start as int),
            found_start ==> find_top_from(lsv, 0) == Some(start as int) && start < n,
        decreases n - start, (if found_start { 0int } else { 1int }),
    {
        if is_top_heading_exec(&ls[start]) {
            found_start = true;
        } else {
            proof {
                assert(find_top_from(lsv, start as int) == find_top_from(lsv, start + 1 as int));
            }
            start = start + 1;
        }
    }
    if !found_start {
        proof {
            assert(find_top_from(lsv, start as int) is None);
        }
        return None;
    }
    let mut end: usize = n;
    let mut j: usize = start + 1;
    let mut found_end = false;
    while j < n && !found_end
        invariant
            start + 1 <= j <= n,
            n == ls@.len(),
            lsv == views(ls@),
            !found_end ==> find_top_from(lsv, start + 1 as int) == find_top_from(lsv, j as int),
            found_end ==> find_top_from(lsv, start + 1 as int) == Some(j as int) && j < n,
        decreases n - j, (if found_end { 0int } else { 1int }),
    {
        if is_top_heading_exec(&ls[j]) {
            found_end = true;
        } else {
            proof {
                assert(find_top_from(lsv, j as int) == find_top_from(lsv, j + 1 as int));
            }
            j = j + 1;
        }
    }
    if found_end {
        end = j;
    } else {
        proof {
            assert(find_top_from(lsv, start + 1 as int) is None);
        }
        let mut k: usize = start + 1;
        let mut found_deep = false;
        while k < n && !found_deep
            invariant
                start + 1 <= k <= n,
                n == ls@.len(),
                lsv == views(ls@),
                !found_deep ==> find_deep_from(lsv, start + 1 as int) == find_deep_from(
                    lsv,
                    k as int,
                ),
                found_deep ==> find_deep_from(lsv, start + 1 as int) == Some(k as int) && k < n,
            decreases n - k, (if found_deep { 0int } else { 1int }),
        {
            if is_deep_heading_exec(&ls[k]) {
                found_deep = true;
            } else {
                proof {
                    assert(find_deep_from(lsv, k as int) == find_deep_from(lsv, k + 1 as int));
                }
                k = k + 1;
            }
        }
        if found_deep {
            end = k;
        } else {
            proof {
                assert(find_deep_from(lsv, start + 1 as int) is None);
            }
            end = n;
        }
    }
    let mut h2: Vec<char> = Vec::new();
    h2.push('#');
    h2.push('#');
    h2.push(' ');
    assert(h2@ =~= seq!['#', '#', ' ']);
    let unknown = DependencyKind::Unknown;
    let mut has_sub = false;
    let mut has_item = false;
    let mut v: usize = start + 1;
    while v < end
        invariant
            start + 1 <= v <= end <= n,
            n == ls@.len(),
            lsv == views(ls@),
            h2@ == seq!['#', '#', ' '],
            unknown == DependencyKind::Unknown,
            has_sub == (exists|t: int|
                start < t < v && starts_with(#[trigger] lsv[t], seq!['#', '#', ' '])),
            has_item == (exists|t: int|
                start < t < v && list_line_record(
                    #[trigger] lsv[t],
                    DependencyKind::Unknown,
                    labels@,
                ) is Ok),
        decreases end - v,
    {
        if starts_with_exec(&ls[v], &h2) {
            has_sub = true;
            proof {
                assert(starts_with(lsv[v as int], seq!['#', '#', ' ']));
            }
        }
        match DependencyInfo::try_from_list_chars(&ls[v], &unknown, labels) {
            Ok(_) => {
                has_item = true;
                proof {
                    assert(list_line_record(lsv[v as int], DependencyKind::Unknown, labels@)
                        is Ok);
                }
            },
            Err(_) => {
            },
        }
        v = v + 1;
    }
    if has_sub && has_item {
        proof {
            assert(valid_block(lsv, start as int, end as int, labels@));
        }
        Some((start, end))
    } else {
        proof {
            assert(!valid_block(lsv, start as int, end as int, labels@));
        }
        None
    }
}

impl MarkdownListFormatter {
    /// The title line under a catalog.
    pub fn get_header(labels: &Labels) -> (r: String)
        ensures
            r@ == list_title(labels@),
    {
        let mut out: Vec<char> = Vec::new();
        out.push('#');
        out.push(' ');
        let title = str_to_chars(labels.title.as_str());
        push_all(&mut out, &title);
        assert(out@ =~= list_title(labels@));
        chars_to_string(&out)
    }

    /// Extracts the first valid list block from the text, with its lines
    /// joined back together; text without one yields nothing.
    pub fn get_first_md_list(content: &str, labels: &Labels) -> (r: Option<String>)
        ensures
            match r {
                Some(text) => ({
                    let ls = split_lines(content@);
                    find_list(ls, labels@) matches Some(p) && text@ == crate::chars::join_sub(
                        ls.subrange(p.0, p.1),
                        seq!['\n'],
                    )
                }),
                None => find_list(split_lines(content@), labels@) is None,
            },
    {
        let cs = str_to_chars(content);
        let ls = split_lines_exec(&cs);
        match find_list_exec(&ls, labels) {
            None => None,
            Some((i, end)) => {
                let mut span: Vec<Vec<char>> = Vec::new();
                let mut k: usize = i;
                while k < end
                    invariant
                        i <= k <= end <= ls@.len(),
                        views(span@) == views(ls@).subrange(i as int, k as int),
                    decreases end - k,
                {
                    let ghost before = views(span@);
                    span.push(subvec(&ls[k], 0, ls[k].len()));
                    proof {
                        assert(ls@[k as int]@.subrange(0, ls@[k as int]@.len() as int) =~= ls@[
                            k as int
                        ]@);
                        assert(views(span@) =~= before.push(views(ls@)[k as int]));
                        assert(views(ls@).subrange(i as int, k + 1 as int) =~= views(
                            ls@,
                        ).subrange(i as int, k as int).push(views(ls@)[k as int]));
                    }
                    k = k + 1;
                }
                let mut nl: Vec<char> = Vec::new();
                nl.push('\n');
                assert(nl@ =~= seq!['\n']);
                Some(chars_to_string(&join_exec(&span, &nl)))
            },
        }
    }

    /// Renders records as a decorated list: title, then the four kind
    /// sections in fixed order, each sorted by name.
    pub fn format(&self, deps: &Vec<DependencyInfo>, labels: &Labels) -> (r: Result<
        String,
        AppError,
    >)
        ensures
            r matches Ok(out) && out@ == list_render(deps.deep_view(), labels@),
    {
        let mut out: Vec<char> = Vec::new();
        out.push('\n');
        let title = str_to_chars(Self::get_header(labels).as_str());
        push_all(&mut out, &title);
        out.push('\n');
        assert(out@ =~= seq!['\n'] + list_title(labels@) + seq!['\n']);
        render_list_group(&mut out, deps, DependencyKind::Normal, labels);
        render_list_group(&mut out, deps, DependencyKind::Development, labels);
        render_list_group(&mut out, deps, DependencyKind::Build, labels);
        render_list_group(&mut out, deps, DependencyKind::Unknown, labels);
        proof {
            assert(out@ =~= list_render(deps.deep_view(), labels@));
        }
        Ok(chars_to_string(&out))
    }

    /// Reads the first decorated list out of the text: a sub-heading line
    /// switches the section, an item line that decodes becomes a record,
    /// and a bad line is skipped.  Text without a valid block yields no
    /// records.
    #[verifier::rlimit(100)]
    pub fn parse(&self, content: &str, labels: &Labels) -> (r: Result<
        Vec<DependencyInfo>,
        AppError,
    >)
        ensures
            r matches Ok(deps) && deps.deep_view() == list_parse(content@, labels@),
    {
        let cs = str_to_chars(content);
        let ls = split_lines_exec(&cs);
        let found = find_list_exec(&ls, labels);
        match found {
            None => {
                let deps: Vec<DependencyInfo> = Vec::new();
                proof {
                    assert(deps.deep_view() =~= Seq::<RecordView>::empty());
                }
                Ok(deps)
            },
            Some((start, end)) => {
                let ghost rows = views(ls@).subrange(start as int, end as int);
                let ghost whole = list_parse_lines(rows, DependencyKind::Unknown, labels@);
                let sub_n = str_to_chars(
                    DependencyKind::Normal.to_md_list_header(labels).as_str(),
                );
                let sub_d = str_to_chars(
                    DependencyKind::Development.to_md_list_header(labels).as_str(),
                );
                let sub_b = str_to_chars(
                    DependencyKind::Build.to_md_list_header(labels).as_str(),
                );
                let sub_u = str_to_chars(
                    DependencyKind::Unknown.to_md_list_header(labels).as_str(),
                );
                let mut deps: Vec<DependencyInfo> = Vec::new();
                let mut kind = DependencyKind::Unknown;
                let mut k: usize = start;
                proof {
                    assert(rows.skip(0) =~= rows);
                    assert(deps.deep_view() =~= Seq::<RecordView>::empty());
                    assert(deps.deep_view() + whole =~= whole);
                }
                while k < end
                    invariant
                        start <= k <= end <= ls@.len(),
                        rows == views(ls@).subrange(start as int, end as int),
                        whole == list_parse_lines(rows, DependencyKind::Unknown, labels@),
                        list_parse(content@, labels@) == whole,
                        sub_n@ == kind_subheading(DependencyKind::Normal, labels@),
                        sub_d@ == kind_subheading(DependencyKind::Development, labels@),
                        sub_b@ == kind_subheading(DependencyKind::Build, labels@),
                        sub_u@ == kind_subheading(DependencyKind::Unknown, labels@),
                        whole == deps.deep_view() + list_parse_lines(
                            rows.skip(k - start as int),
                            kind,
                            labels@,
                        ),
                    decreases end - k,
                {
                    let ghost suffix = rows.skip(k - start as int);
                    proof {
                        assert(suffix.len() == end - k);
                        assert(suffix[0] == rows[k - start as int]);
                        assert(rows[k - start as int] == views(ls@)[k as int]);
                        assert(views(ls@)[k as int] == ls@[k as int]@);
                        assert(suffix.drop_first() =~= rows.skip(k + 1 - start as int));
                    }
                    let t = trim_ws_exec(&ls[k]);
                    if contains_sub_exec(&t, &sub_n) {
                        kind = DependencyKind::Normal;
                        proof {
                            assert(subheading_kind_of(trim_ws(suffix[0]), labels@) == Some(
                                DependencyKind::Normal,
                            ));
                        }
                    } else if contains_sub_exec(&t, &sub_d) {
                        kind = DependencyKind::Development;
                        proof {
                            assert(subheading_kind_of(trim_ws(suffix[0]), labels@) == Some(
                                DependencyKind::Development,
                            ));
                        }
                    } else if contains_sub_exec(&t, &sub_b) {
                        kind = DependencyKind::Build;
                        proof {
                            assert(subheading_kind_of(trim_ws(suffix[0]), labels@) == Some(
                                DependencyKind::Build,
                            ));
                        }
                    } else if contains_sub_exec(&t, &sub_u) {
                        kind = DependencyKind::Unknown;
                        proof {
                            assert(subheading_kind_of(trim_ws(suffix[0]), labels@) == Some(
                                DependencyKind::Unknown,
                            ));
                        }
                    } else {
                        proof {
                            assert(subheading_kind_of(trim_ws(suffix[0]), labels@) is None);
                        }
                        match DependencyInfo::try_from_list_chars(&t, &kind, labels) {
                            Ok(dep) => {
                                let ghost before = deps.deep_view();
                                deps.push(dep);
                                proof {
                                    assert(deps.deep_view() =~= before.push(dep@));
                                    assert(before + (seq![dep@] + list_parse_lines(
                                        suffix.drop_first(),
                                        kind,
                                        labels@,
                                    )) =~= deps.deep_view() + list_parse_lines(
                                        suffix.drop_first(),
                                        kind,
                                        labels@,
                                    ));
                                }
                            },
                            Err(_) => {
                            },
                        }
                    }
                    k = k + 1;
                }
                proof {
                    assert(rows.skip(end - start as int) =~= Seq::<Seq<char>>::empty());
                    assert(list_parse_lines(Seq::<Seq<char>>::empty(), kind, labels@)
                        =~= Seq::<RecordView>::empty());
                    assert(deps.deep_view() + Seq::<RecordView>::empty() =~= deps.deep_view());
                }
                Ok(deps)
            },
        }
    }
}

/// Appends one kind's section: nothing when the group is empty, else a
/// blank line, the sub-heading, and the group's item lines, sorted by name.
fn render_list_group(
    out: &mut Vec<char>,
    deps: &Vec<DependencyInfo>,
    kind: DependencyKind,
    labels: &Labels,
)
    ensures
        final(out)@ == old(out)@ + list_group_lines(deps.deep_view(), kind, labels@),
{
    let g = take_sort_dependencies(deps, &kind);
    if g.len() == 0 {
        assert(old(out)@ + list_group_lines(deps.deep_view(), kind, labels@) =~= old(out)@);
        return ;
    }
    out.push('\n');
    let sub = str_to_chars(kind.to_md_list_header(labels).as_str());
    push_all(out, &sub);
    out.push('\n');
    let ghost head = old(out)@ + seq!['\n'] + kind_subheading(kind, labels@) + seq!['\n'];
    assert(out@ =~= head);
    let ghost gv = g.deep_view();
    let mut i: usize = 0;
    proof {
        assert(gv.subrange(0, 0) =~= Seq::<RecordView>::empty());
    }
    while i < g.len()
        invariant
            i <= g@.len(),
            gv == g.deep_view(),
            gv.len() == g@.len(),
            out@ == head + list_items_body(gv.subrange(0, i as int)),
        decreases g@.len() - i,
    {
        let item = render_list_item(&g[i]);
        push_all(out, &item);
        out.push('\n');
        proof {
            let prefix = gv.subrange(0, i as int);
            let next = gv.subrange(0, i + 1 as int);
            assert(next.drop_last() =~= prefix);
            assert(next.last() == gv[i as int]);
            assert(g@[i as int]@ == gv[i as int]);
            assert(list_items_body(next) == list_items_body(prefix) + list_item_line(
                gv[i as int],
            ) + seq!['\n']);
            assert(item@ == list_item_line(gv[i as int]));
            assert(out@ =~= head + list_items_body(next));
        }
        i = i + 1;
    }
    proof {
        assert(gv.subrange(0, g@.len() as int) =~= gv);
        assert(out@ =~= old(out)@ + list_group_lines(deps.deep_view(), kind, labels@));
    }
}

/// One record's item line.
fn render_list_item(dep: &DependencyInfo) -> (r: Vec<char>)
    ensures
        r@ == list_item_line(dep@),
{
    let mut out: Vec<char> = Vec::new();
    out.push('-');
    out.push(' ');
    let name_chars = str_to_chars(dep.name.as_str());
    push_all(&mut out, &name_chars);
    out.push(' ');
    out.push(':');
    out.push(' ');
    let desc = render_desc_chars(&dep.description);
    push_all(&mut out, &desc);
    out.push(' ');
    out.push('-');
    out.push(' ');
    let crate_url_chars = match &dep.crate_url {
        Some(u) => Some(str_to_chars(u.as_str())),
        None => None,
    };
    let crates_link = render_link_chars(&name_chars, &crate_url_chars);
    push_all(&mut out, &crates_link);
    out.push(' ');
    let source_chars = str_to_chars(dep.source_type.as_str());
    let source_url_chars = match &dep.source_url {
        Some(u) => Some(str_to_chars(u.as_str())),
        None => None,
    };
    let source_link = render_link_chars(&source_chars, &source_url_chars);
    push_all(&mut out, &source_link);
    out.push(' ');
    out.push('(');
    let stats = render_stats_chars(dep.stats.stars, dep.stats.downloads);
    push_all(&mut out, &stats);
    out.push(')');
    out.push(' ');
    let status = render_status_chars(dep.failed, &dep.error_message);
    push_all(&mut out, &status);
    assert(out@ =~= list_item_line(dep@));
    out
}

} // verus!
