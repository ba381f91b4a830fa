//! The inversion laws of the codecs: a record whose texts avoid the
//! structural characters reads back exactly from the line each format
//! writes for it, and an escaped scalar reads back exactly.  Together with
//! the cell laws these state that decoding recovers what this library's
//! renderers produce.

use vstd::prelude::*;

use crate::cells::{
    cell_crates, cell_source, cell_stats, cell_status, desc_cell,
    failure_char, link_cell, link_text_clean, message_clean, package_char, placeholder_char,
    stats_cell, status_cell, success_char, lemma_has_char_concat,
    lemma_link_cell_inverse, lemma_stats_cell_inverse, lemma_status_cell_inverse,
    lemma_trim_pat_members,
};
use crate::chars::{
    dec_str, has_char, is_digit_char, is_match_at, lower_seq, replace_char, split_sub,
    trim_end_set, trim_set, trim_start_set, trim_ws, ws_pat, lemma_dec_str_val, lemma_two_absent,
};
use crate::record::RecordView;

verus! {

/// Text that collides with no format's structural characters: non-empty,
/// free of the cell separators, the bracketing characters, the marker
/// characters and line breaks, not beginning or ending in whitespace, and
/// without the list codec's two literal separators.
pub open spec fn field_text_clean(s: Seq<char>) -> bool {
    &&& s.len() > 0
    &&& !has_char(s, ',')
    &&& !has_char(s, '|')
    &&& !has_char(s, '\n')
    &&& !has_char(s, '\r')
    &&& !has_char(s, '[')
    &&& !has_char(s, ']')
    &&& !has_char(s, '(')
    &&& !has_char(s, ')')
    &&& !has_char(s, crate::cells::star_char())
    &&& !has_char(s, package_char())
    &&& !has_char(s, placeholder_char())
    &&& !has_char(s, success_char())
    &&& !has_char(s, failure_char())
    &&& !has_char(ws_pat(), s[0])
    &&& !has_char(ws_pat(), s.last())
    &&& (forall|j: int| !is_match_at(s, seq![' ', '-', ' '], j))
    &&& (forall|j: int| !is_match_at(s, seq![' ', ':', ' '], j))
    &&& !crate::chars::ends_with(s, seq![' ', '-'])
    &&& !crate::chars::ends_with(s, seq![' ', ':'])
    &&& !crate::chars::starts_with(s, seq!['-', ' '])
    &&& !crate::chars::starts_with(s, seq![':', ' '])
}

/// Whitespace membership, spelled out.
pub proof fn lemma_ws_members(c: char)
    ensures
        has_char(ws_pat(), c) <==> (c == ' ' || c == '\t' || c == '\n' || c == '\r'),
{
    if c == ' ' {
        assert(ws_pat()[0] == c);
    } else if c == '\t' {
        assert(ws_pat()[1] == c);
    } else if c == '\n' {
        assert(ws_pat()[2] == c);
    } else if c == '\r' {
        assert(ws_pat()[3] == c);
    }
}

/// A record every format can carry through its line and back: clean texts
/// everywhere, a description present, a message exactly on failure, and at
/// most one of the two counts — the cells show one count only.
pub open spec fn record_clean(r: RecordView) -> bool {
    &&& field_text_clean(r.name)
    &&& (r.description matches Some(d) && field_text_clean(d))
    &&& field_text_clean(r.source_type)
    &&& (r.crate_url matches Some(u) ==> field_text_clean(u))
    &&& (r.source_url matches Some(u) ==> field_text_clean(u))
    &&& !(r.stars is Some && r.downloads is Some)
    &&& (r.failed ==> (r.error_message matches Some(m) && field_text_clean(m)))
    &&& (!r.failed ==> r.error_message is None)
}

/// Clean text is usable as a link label or target.
pub proof fn lemma_clean_link_text(s: Seq<char>)
    requires
        field_text_clean(s),
    ensures
        link_text_clean(s),
{
    lemma_two_absent(s, ']', '(');
    lemma_trim_pat_members(s[0]);
    lemma_trim_pat_members(s.last());
    assert(ws_pat()[0] == ' ');
    assert(has_char(ws_pat(), ' '));
}

/// Clean text is usable as a failure message.
pub proof fn lemma_clean_message(m: Seq<char>)
    requires
        field_text_clean(m),
    ensures
        message_clean(m),
{
    lemma_trim_pat_members(m.last());
    assert(ws_pat()[0] == ' ');
    assert(has_char(ws_pat(), ' '));
}

/// Replacing a character that does not occur changes nothing.
pub proof fn lemma_replace_absent(s: Seq<char>, c: char, d: char)
    requires
        !has_char(s, c),
    ensures
        replace_char(s, c, d) == s,
{
    assert forall|i: int| 0 <= i < s.len() implies #[trigger] replace_char(s, c, d)[i] == s[i] by {
        assert(s[i] != c);
    }
    assert(replace_char(s, c, d) =~= s);
}

/// The description cell of a clean description is the description itself.
pub proof fn lemma_clean_desc_cell(d: Seq<char>)
    requires
        field_text_clean(d),
    ensures
        desc_cell(Some(d)) == d,
{
    lemma_replace_absent(d, '\n', ' ');
}

/// Trimming whitespace from text padded with one space on each side gives
/// the text back.
pub proof fn lemma_trim_pad_both(s: Seq<char>)
    requires
        s.len() > 0,
        !has_char(ws_pat(), s[0]),
        !has_char(ws_pat(), s.last()),
    ensures
        trim_ws(seq![' '] + s + seq![' ']) == s,
{
    let w = seq![' '] + s + seq![' '];
    assert(has_char(ws_pat(), ' ')) by {
        assert(ws_pat()[0] == ' ');
    }
    assert(w[0] == ' ');
    assert(w.drop_first() =~= s + seq![' ']);
    assert((s + seq![' '])[0] == s[0]);
    assert(trim_start_set(w, ws_pat()) == trim_start_set(s + seq![' '], ws_pat()));
    assert(trim_start_set(s + seq![' '], ws_pat()) == s + seq![' ']);
    assert((s + seq![' ']).last() == ' ');
    assert((s + seq![' ']).drop_last() =~= s);
    assert(trim_end_set(s + seq![' '], ws_pat()) == trim_end_set(s, ws_pat()));
    assert(trim_end_set(s, ws_pat()) == s);
}

/// Trimming whitespace from text padded with one leading space gives the
/// text back.
pub proof fn lemma_trim_pad_left(s: Seq<char>)
    requires
        s.len() > 0,
        !has_char(ws_pat(), s[0]),
        !has_char(ws_pat(), s.last()),
    ensures
        trim_ws(seq![' '] + s) == s,
{
    let w = seq![' '] + s;
    assert(has_char(ws_pat(), ' ')) by {
        assert(ws_pat()[0] == ' ');
    }
    assert(w[0] == ' ');
    assert(w.drop_first() =~= s);
    assert(trim_start_set(w, ws_pat()) == trim_start_set(s, ws_pat()));
    assert(trim_start_set(s, ws_pat()) == s);
    assert(trim_end_set(s, ws_pat()) == s);
}

/// Trimming whitespace from text padded with one trailing space gives the
/// text back.
pub proof fn lemma_trim_pad_right(s: Seq<char>)
    requires
        s.len() > 0,
        !has_char(ws_pat(), s[0]),
        !has_char(ws_pat(), s.last()),
    ensures
        trim_ws(s + seq![' ']) == s,
{
    let w = s + seq![' '];
    assert(has_char(ws_pat(), ' ')) by {
        assert(ws_pat()[0] == ' ');
    }
    assert(w[0] == s[0]);
    assert(trim_start_set(w, ws_pat()) == w);
    assert(w.last() == ' ');
    assert(w.drop_last() =~= s);
    assert(trim_end_set(w, ws_pat()) == trim_end_set(s, ws_pat()));
    assert(trim_end_set(s, ws_pat()) == s);
}

/// Trimming clean text changes nothing.
pub proof fn lemma_trim_clean(s: Seq<char>)
    requires
        s.len() > 0,
        !has_char(ws_pat(), s[0]),
        !has_char(ws_pat(), s.last()),
    ensures
        trim_ws(s) == s,
{
    assert(trim_start_set(s, ws_pat()) == s);
    assert(trim_end_set(s, ws_pat()) == s);
}

/// No structural character occurs in a link cell whose label and target
/// avoid it.
pub proof fn lemma_link_cell_without(label: Seq<char>, url: Option<Seq<char>>, c: char)
    requires
        c != '[' && c != ']' && c != '(' && c != ')',
        !has_char(label, c),
        url matches Some(u) ==> !has_char(u, c),
    ensures
        !has_char(link_cell(label, url), c),
{
    match url {
        None => {},
        Some(u) => {
            lemma_has_char_concat(seq!['['], label, c);
            lemma_has_char_concat(seq!['['] + label, seq![']', '('], c);
            lemma_has_char_concat(seq!['['] + label + seq![']', '('], u, c);
            lemma_has_char_concat(seq!['['] + label + seq![']', '('] + u, seq![')'], c);
        },
    }
}

/// No non-digit, non-marker, non-space character occurs in a stats cell.
pub proof fn lemma_stats_cell_without(stars: Option<u32>, downloads: Option<u32>, c: char)
    requires
        c != crate::cells::star_char(),
        c != package_char(),
        c != placeholder_char(),
        c != ' ',
        !is_digit_char(c),
    ensures
        !has_char(stats_cell(stars, downloads), c),
{
    match (stars, downloads) {
        (Some(s), _) => {
            lemma_dec_str_val(s as nat);
            lemma_has_char_concat(seq![crate::cells::star_char(), ' '], dec_str(s as nat), c);
            if has_char(dec_str(s as nat), c) {
                let i = choose|i: int|
                    0 <= i < dec_str(s as nat).len() && dec_str(s as nat)[i] == c;
                assert(is_digit_char(dec_str(s as nat)[i]));
            }
        },
        (None, Some(d)) => {
            lemma_dec_str_val(d as nat);
            lemma_has_char_concat(seq![package_char(), ' '], dec_str(d as nat), c);
            if has_char(dec_str(d as nat), c) {
                let i = choose|i: int|
                    0 <= i < dec_str(d as nat).len() && dec_str(d as nat)[i] == c;
                assert(is_digit_char(dec_str(d as nat)[i]));
            }
        },
        (None, None) => {},
    }
}

/// No structural character occurs in the status cell of a record whose
/// message avoids it.
pub proof fn lemma_status_cell_without(failed: bool, message: Option<Seq<char>>, c: char)
    requires
        c != success_char(),
        c != failure_char(),
        c != ' ',
        failed ==> (message matches Some(m) && !has_char(m, c)),
    ensures
        !has_char(status_cell(failed, message), c),
{
    if failed {
        let m = message.unwrap();
        lemma_has_char_concat(seq![failure_char(), ' '], m, c);
    }
}


/// The ends and contents of the six cell texts of a clean record: each is
/// non-empty, clean of whitespace at its ends, and free of the pipe, comma
/// and line-feed separators.
pub proof fn lemma_fields_plain(r: RecordView)
    requires
        record_clean(r),
    ensures
        plain_field(r.name),
        plain_field(desc_cell(r.description)),
        plain_field(cell_crates(r)),
        plain_field(cell_source(r)),
        plain_field(cell_stats(r)),
        plain_field(cell_status(r)),
{
    let d = r.description.unwrap();
    lemma_clean_desc_cell(d);
    lemma_ws_members('|');
    lemma_ws_members(',');
    lemma_plain_link(r.name, r.crate_url);
    lemma_plain_link(r.source_type, r.source_url);
    lemma_plain_stats(r.stars, r.downloads);
    lemma_plain_status(r.failed, r.error_message);
}

/// A text usable directly as a table or delimited cell.
pub open spec fn plain_field(f: Seq<char>) -> bool {
    &&& f.len() > 0
    &&& !has_char(ws_pat(), f[0])
    &&& !has_char(ws_pat(), f.last())
    &&& !has_char(f, '|')
    &&& !has_char(f, ',')
    &&& !has_char(f, '\n')
}

/// A link cell over clean texts is a plain field.
proof fn lemma_plain_link(label: Seq<char>, url: Option<Seq<char>>)
    requires
        field_text_clean(label),
        url matches Some(u) ==> field_text_clean(u),
    ensures
        plain_field(link_cell(label, url)),
{
    lemma_link_cell_without(label, url, '|');
    lemma_link_cell_without(label, url, ',');
    lemma_link_cell_without(label, url, '\n');
    lemma_ws_members('[');
    lemma_ws_members(')');
    match url {
        None => {},
        Some(u) => {
            let cell = link_cell(label, url);
            assert(cell[0] == '[');
            assert(cell.last() == ')');
        },
    }
}

/// A stats cell is a plain field.
proof fn lemma_plain_stats(stars: Option<u32>, downloads: Option<u32>)
    ensures
        plain_field(stats_cell(stars, downloads)),
{
    lemma_stats_cell_without(stars, downloads, '|');
    lemma_stats_cell_without(stars, downloads, ',');
    lemma_stats_cell_without(stars, downloads, '\n');
    lemma_ws_members(crate::cells::star_char());
    lemma_ws_members(package_char());
    lemma_ws_members(placeholder_char());
    match (stars, downloads) {
        (Some(n), _) => {
            lemma_dec_str_val(n as nat);
            let cell = stats_cell(stars, downloads);
            assert(cell[0] == crate::cells::star_char());
            assert(cell.last() == dec_str(n as nat).last());
            lemma_ws_members(cell.last());
        },
        (None, Some(n)) => {
            lemma_dec_str_val(n as nat);
            let cell = stats_cell(stars, downloads);
            assert(cell[0] == package_char());
            assert(cell.last() == dec_str(n as nat).last());
            lemma_ws_members(cell.last());
        },
        (None, None) => {},
    }
}

/// A status cell of a clean record is a plain field.
proof fn lemma_plain_status(failed: bool, message: Option<Seq<char>>)
    requires
        failed ==> (message matches Some(m) && field_text_clean(m)),
        !failed ==> message is None,
    ensures
        plain_field(status_cell(failed, message)),
{
    lemma_status_cell_without(failed, message, '|');
    lemma_status_cell_without(failed, message, ',');
    lemma_status_cell_without(failed, message, '\n');
    lemma_ws_members(success_char());
    lemma_ws_members(failure_char());
    if failed {
        let m = message.unwrap();
        let cell = status_cell(failed, message);
        assert(cell[0] == failure_char());
        assert(cell.last() == m.last());
    }
}



/// Joining six pieces, written out.
proof fn lemma_join_six(
    a: Seq<char>,
    b: Seq<char>,
    c: Seq<char>,
    d: Seq<char>,
    e: Seq<char>,
    f: Seq<char>,
    sep: Seq<char>,
)
    ensures
        crate::chars::join_sub(seq![a, b, c, d, e, f], sep) == a + sep + (b + sep + (c + sep + (d
            + sep + (e + sep + f)))),
{
    let whole = seq![a, b, c, d, e, f];
    assert(whole.drop_first() =~= seq![b, c, d, e, f]);
    assert(seq![b, c, d, e, f].drop_first() =~= seq![c, d, e, f]);
    assert(seq![c, d, e, f].drop_first() =~= seq![d, e, f]);
    assert(seq![d, e, f].drop_first() =~= seq![e, f]);
    assert(seq![e, f].drop_first() =~= seq![f]);
    assert(crate::chars::join_sub(seq![f], sep) == f);
    assert(crate::chars::join_sub(seq![e, f], sep) == e + sep + f);
    assert(crate::chars::join_sub(seq![d, e, f], sep) == d + sep + (e + sep + f));
    assert(crate::chars::join_sub(seq![c, d, e, f], sep) == c + sep + (d + sep + (e + sep + f)));
    assert(crate::chars::join_sub(seq![b, c, d, e, f], sep) == b + sep + (c + sep + (d + sep + (e
        + sep + f))));
}

/// The six cells joined with ` | ` are the six space-padded cells joined
/// with `|`.
#[verifier::spinoff_prover]
#[verifier::rlimit(100)]
proof fn lemma_table_two_joins(
    f0: Seq<char>,
    f1: Seq<char>,
    f2: Seq<char>,
    f3: Seq<char>,
    f4: Seq<char>,
    f5: Seq<char>,
)
    ensures
        crate::chars::join_sub(seq![f0, f1, f2, f3, f4, f5], seq![' ', '|', ' '])
            == crate::chars::join_sub(
            seq![
                f0 + seq![' '],
                seq![' '] + f1 + seq![' '],
                seq![' '] + f2 + seq![' '],
                seq![' '] + f3 + seq![' '],
                seq![' '] + f4 + seq![' '],
                seq![' '] + f5,
            ],
            seq!['|'],
        ),
{
    let sep3 = seq![' ', '|', ' '];
    let bar = seq!['|'];
    lemma_join_six(f0, f1, f2, f3, f4, f5, sep3);
    lemma_join_six(
        f0 + seq![' '],
        seq![' '] + f1 + seq![' '],
        seq![' '] + f2 + seq![' '],
        seq![' '] + f3 + seq![' '],
        seq![' '] + f4 + seq![' '],
        seq![' '] + f5,
        bar,
    );
    assert(f0 + sep3 + (f1 + sep3 + (f2 + sep3 + (f3 + sep3 + (f4 + sep3 + f5)))) =~= (f0 + seq![
        ' ',
    ]) + bar + ((seq![' '] + f1 + seq![' ']) + bar + ((seq![' '] + f2 + seq![' ']) + bar + ((seq![
        ' ',
    ] + f3 + seq![' ']) + bar + ((seq![' '] + f4 + seq![' ']) + bar + (seq![' '] + f5))))));
}

/// Trimming the row frame leaves the joined cells.
#[verifier::spinoff_prover]
#[verifier::rlimit(100)]
proof fn lemma_table_row_trim(r: RecordView)
    requires
        plain_field(r.name),
        plain_field(cell_status(r)),
    ensures
        trim_set(crate::table::table_row(r), seq!['|', ' ', '\n']) == crate::chars::join_sub(
            crate::table::table_fields(r),
            seq![' ', '|', ' '],
        ),
{
    let fields = crate::table::table_fields(r);
    let f0 = r.name;
    let f5 = cell_status(r);
    let sep3 = seq![' ', '|', ' '];
    let joined = crate::chars::join_sub(fields, sep3);
    let row = crate::table::table_row(r);
    let tset = seq!['|', ' ', '\n'];
    assert(has_char(tset, '|')) by {
        assert(tset[0] == '|');
    }
    assert(has_char(tset, ' ')) by {
        assert(tset[1] == ' ');
    }
    lemma_join_six(f0, fields[1], fields[2], fields[3], fields[4], f5, sep3);
    assert(joined.len() > 0);
    assert(joined[0] == f0[0]);
    assert(joined.last() == f5.last());
    let after1 = seq![' '] + joined + seq![' ', '|'];
    let after2 = joined + seq![' ', '|'];
    assert(row[0] == '|');
    assert(row.drop_first() =~= after1);
    assert(after1[0] == ' ');
    assert(after1.drop_first() =~= after2);
    assert(after2[0] == f0[0]);
    assert(!has_char(tset, f0[0])) by {
        lemma_ws_members(f0[0]);
    }
    assert(trim_start_set(row, tset) == trim_start_set(after1, tset));
    assert(trim_start_set(after1, tset) == trim_start_set(after2, tset));
    assert(trim_start_set(after2, tset) == after2);
    assert(after2.last() == '|');
    assert(after2.drop_last() =~= joined + seq![' ']);
    assert((joined + seq![' ']).last() == ' ');
    assert((joined + seq![' ']).drop_last() =~= joined);
    assert(!has_char(tset, f5.last())) by {
        lemma_ws_members(f5.last());
    }
    assert(trim_end_set(after2, tset) == trim_end_set(joined + seq![' '], tset));
    assert(trim_end_set(joined + seq![' '], tset) == trim_end_set(joined, tset));
    assert(trim_end_set(joined, tset) == joined);
}

/// Splitting the joined cells at the pipes and trimming recovers the six
/// cells.
#[verifier::spinoff_prover]
#[verifier::rlimit(100)]
proof fn lemma_table_cols(
    f0: Seq<char>,
    f1: Seq<char>,
    f2: Seq<char>,
    f3: Seq<char>,
    f4: Seq<char>,
    f5: Seq<char>,
)
    requires
        plain_field(f0),
        plain_field(f1),
        plain_field(f2),
        plain_field(f3),
        plain_field(f4),
        plain_field(f5),
    ensures
        split_sub(
            crate::chars::join_sub(seq![f0, f1, f2, f3, f4, f5], seq![' ', '|', ' ']),
            seq!['|'],
        ).map_values(crate::chars::trim_each()) =~= seq![f0, f1, f2, f3, f4, f5],
{
    let p0 = f0 + seq![' '];
    let p1 = seq![' '] + f1 + seq![' '];
    let p2 = seq![' '] + f2 + seq![' '];
    let p3 = seq![' '] + f3 + seq![' '];
    let p4 = seq![' '] + f4 + seq![' '];
    let p5 = seq![' '] + f5;
    let pieces = seq![p0, p1, p2, p3, p4, p5];
    assert forall|k: int| 0 <= k < pieces.len() implies crate::chars::sep_at_boundary(
        #[trigger] pieces[k],
        seq!['|'],
    ) by {
        let pc = pieces[k];
        assert(!has_char(pc, '|')) by {
            if k == 0 {
                lemma_has_char_concat(f0, seq![' '], '|');
            } else if k == 5 {
                lemma_has_char_concat(seq![' '], f5, '|');
            } else {
                let fk = if k == 1 { f1 } else if k == 2 { f2 } else if k == 3 { f3 } else { f4 };
                lemma_has_char_concat(seq![' '], fk, '|');
                lemma_has_char_concat(seq![' '] + fk, seq![' '], '|');
            }
        }
        crate::chars::lemma_sep_at_boundary_char(pc, '|');
    }
    crate::chars::lemma_split_join(pieces, seq!['|']);
    lemma_table_two_joins(f0, f1, f2, f3, f4, f5);
    assert(split_sub(
        crate::chars::join_sub(seq![f0, f1, f2, f3, f4, f5], seq![' ', '|', ' ']),
        seq!['|'],
    ) == pieces);
    lemma_trim_pad_right(f0);
    lemma_trim_pad_both(f1);
    lemma_trim_pad_both(f2);
    lemma_trim_pad_both(f3);
    lemma_trim_pad_both(f4);
    lemma_trim_pad_left(f5);
    let cols = pieces.map_values(crate::chars::trim_each());
    assert(cols[0] == f0 && cols[1] == f1 && cols[2] == f2 && cols[3] == f3 && cols[4] == f4
        && cols[5] == f5);
}

/// Law: a clean record reads back exactly from the table data row written
/// for it, under any catalog, when the current kind is its own.
#[verifier::spinoff_prover]
#[verifier::rlimit(100)]
pub proof fn lemma_table_line_inverse(r: RecordView, l: crate::labels::LabelsView)
    requires
        record_clean(r),
    ensures
        crate::table::table_line_record(
            crate::table::table_row(r),
            r.dependency_kind,
            l,
        ) == Ok::<RecordView, crate::errors::ErrView>(r),
{
    let d = r.description.unwrap();
    lemma_clean_desc_cell(d);
    lemma_fields_plain(r);
    let fields = crate::table::table_fields(r);
    let f0 = r.name;
    let f1 = desc_cell(r.description);
    let f2 = cell_crates(r);
    let f3 = cell_source(r);
    let f4 = cell_stats(r);
    let f5 = cell_status(r);
    assert(fields =~= seq![f0, f1, f2, f3, f4, f5]);
    lemma_table_row_trim(r);
    lemma_table_cols(f0, f1, f2, f3, f4, f5);
    let row = crate::table::table_row(r);
    let cols = split_sub(trim_set(row, seq!['|', ' ', '\n']), seq!['|']).map_values(
        crate::chars::trim_each(),
    );
    assert(cols =~= seq![f0, f1, f2, f3, f4, f5]);
    assert(cols.len() == 6);
    assert(cols[0] == f0 && cols[1] == f1 && cols[2] == f2 && cols[3] == f3 && cols[4] == f4
        && cols[5] == f5);
    lemma_clean_link_text(r.name);
    lemma_clean_link_text(r.source_type);
    if r.crate_url is Some {
        lemma_clean_link_text(r.crate_url.unwrap());
    }
    if r.source_url is Some {
        lemma_clean_link_text(r.source_url.unwrap());
    }
    lemma_link_cell_inverse(r.name, r.crate_url);
    lemma_link_cell_inverse(r.source_type, r.source_url);
    lemma_stats_cell_inverse(r.stars, r.downloads);
    if r.failed {
        lemma_clean_message(r.error_message.unwrap());
    }
    lemma_status_cell_inverse(r.failed, r.error_message);
    lemma_trim_clean(d);
    assert(crate::cells::opt_text(f1) == Some(d));
    let dec = crate::table::table_line_record(row, r.dependency_kind, l);
    assert(dec matches Ok(rr) && rr == r);
}


/// Joining seven pieces, written out.
proof fn lemma_join_seven(
    a: Seq<char>,
    b: Seq<char>,
    c: Seq<char>,
    d: Seq<char>,
    e: Seq<char>,
    f: Seq<char>,
    g: Seq<char>,
    sep: Seq<char>,
)
    ensures
        crate::chars::join_sub(seq![a, b, c, d, e, f, g], sep) == a + sep + (b + sep + (c + sep + (
        d + sep + (e + sep + (f + sep + g))))),
{
    let whole = seq![a, b, c, d, e, f, g];
    assert(whole.drop_first() =~= seq![b, c, d, e, f, g]);
    lemma_join_six(b, c, d, e, f, g, sep);
}

/// Under a well-formed catalog the delimited header shows exactly seven
/// cells.
pub proof fn lemma_csv_seven(l: crate::labels::LabelsView)
    requires
        crate::labels::labels_wf(l),
    ensures
        crate::csv::csv_column_num(l) == 7,
{
    let cols = crate::csv::csv_cols(l);
    assert forall|k: int| 0 <= k < cols.len() implies crate::chars::sep_at_boundary(
        #[trigger] cols[k],
        seq![','],
    ) by {
        crate::chars::lemma_sep_at_boundary_char(cols[k], ',');
    }
    crate::chars::lemma_split_join(cols, seq![',']);
}

/// Under a well-formed catalog a kind's label reads back as that kind.
pub proof fn lemma_kind_label_roundtrip(kind: crate::record::DependencyKind, l: crate::labels::LabelsView)
    requires
        crate::labels::labels_wf(l),
    ensures
        crate::record::kind_from_label(crate::record::kind_label(kind, l), l) == Ok::<
            crate::record::DependencyKind,
            Seq<char>,
        >(kind),
{
    let label = crate::record::kind_label(kind, l);
    assert(label.len() > 0);
    assert(label[0] == label[0]);
    assert(!has_char(ws_pat(), label[0]) && !has_char(ws_pat(), label.last())) by {
        if has_char(ws_pat(), label[0]) || has_char(ws_pat(), label.last()) {
            lemma_trim_not_fixed(label);
        }
    }
    lemma_trim_clean(label);
    assert(lower_seq(label).len() == label.len());
}

/// A sequence that starts or ends in a pattern character shrinks under
/// trimming.
proof fn lemma_trim_not_fixed(s: Seq<char>)
    requires
        s.len() > 0,
        has_char(ws_pat(), s[0]) || has_char(ws_pat(), s.last()),
    ensures
        trim_ws(s) != s,
{
    lemma_trim_lens(s, ws_pat());
    if has_char(ws_pat(), s[0]) {
        lemma_trim_lens(s.drop_first(), ws_pat());
        assert(trim_start_set(s, ws_pat()) == trim_start_set(s.drop_first(), ws_pat()));
        assert(trim_start_set(s.drop_first(), ws_pat()).len() <= s.len() - 1);
        lemma_trim_end_len(trim_start_set(s, ws_pat()), ws_pat());
    } else {
        assert(trim_start_set(s, ws_pat()) == s);
        assert(trim_end_set(s, ws_pat()) == trim_end_set(s.drop_last(), ws_pat()));
        lemma_trim_end_len(s.drop_last(), ws_pat());
    }
}

/// Trimmed sequences are no longer than the original.
proof fn lemma_trim_lens(s: Seq<char>, pat: Seq<char>)
    ensures
        trim_start_set(s, pat).len() <= s.len(),
    decreases s.len(),
{
    if s.len() > 0 && has_char(pat, s[0]) {
        lemma_trim_lens(s.drop_first(), pat);
    }
}

/// The end-trimmed sequence is no longer than the original.
proof fn lemma_trim_end_len(s: Seq<char>, pat: Seq<char>)
    ensures
        trim_end_set(s, pat).len() <= s.len(),
    decreases s.len(),
{
    if s.len() > 0 && has_char(pat, s.last()) {
        lemma_trim_end_len(s.drop_last(), pat);
    }
}

/// Law: a clean record reads back exactly from the delimited line written
/// for it, under any well-formed catalog.
#[verifier::spinoff_prover]
#[verifier::rlimit(100)]
pub proof fn lemma_csv_line_inverse(r: RecordView, l: crate::labels::LabelsView)
    requires
        record_clean(r),
        crate::labels::labels_wf(l),
    ensures
        crate::csv::csv_line_record(
            crate::csv::csv_record_line(r, l),
            crate::csv::csv_column_num(l),
            l,
        ) == Ok::<RecordView, crate::errors::ErrView>(r),
{
    let d = r.description.unwrap();
    lemma_clean_desc_cell(d);
    lemma_fields_plain(r);
    lemma_csv_seven(l);
    let fields = crate::csv::csv_fields(r, l);
    let f0 = r.name;
    let f1 = desc_cell(r.description);
    let f2 = crate::record::kind_label(r.dependency_kind, l);
    let f3 = cell_crates(r);
    let f4 = cell_source(r);
    let f5 = cell_stats(r);
    let f6 = cell_status(r);
    lemma_replace_absent(f1, ',', ';');
    assert(fields =~= seq![f0, f1, f2, f3, f4, f5, f6]);
    assert forall|k: int| 0 <= k < fields.len() implies crate::chars::sep_at_boundary(
        #[trigger] fields[k],
        seq![','],
    ) by {
        assert(!has_char(fields[k], ','));
        crate::chars::lemma_sep_at_boundary_char(fields[k], ',');
    }
    crate::chars::lemma_split_join(fields, seq![',']);
    let line = crate::csv::csv_record_line(r, l);
    assert(split_sub(line, seq![',']) == fields);
    lemma_trim_clean(f0);
    lemma_trim_clean(f1);
    lemma_trim_clean(f3);
    lemma_trim_clean(f4);
    lemma_trim_clean(f5);
    lemma_trim_clean(f6);
    let cols = crate::csv::trimmed_cols(line);
    assert(cols[0] == f0 && cols[1] == f1 && cols[2] == trim_ws(f2) && cols[3] == f3 && cols[4]
        == f4 && cols[5] == f5 && cols[6] == f6);
    assert(trim_ws(f2) == f2) by {
        assert(crate::labels::label_ok(f2));
    }
    assert(cols.len() == 7);
    lemma_kind_label_roundtrip(r.dependency_kind, l);
    assert(crate::record::kind_from_label(cols[2], l) == Ok::<
        crate::record::DependencyKind,
        Seq<char>,
    >(r.dependency_kind));
    lemma_clean_link_text(r.name);
    lemma_clean_link_text(r.source_type);
    if r.crate_url is Some {
        lemma_clean_link_text(r.crate_url.unwrap());
    }
    if r.source_url is Some {
        lemma_clean_link_text(r.source_url.unwrap());
    }
    lemma_link_cell_inverse(r.name, r.crate_url);
    lemma_link_cell_inverse(r.source_type, r.source_url);
    lemma_stats_cell_inverse(r.stars, r.downloads);
    if r.failed {
        lemma_clean_message(r.error_message.unwrap());
    }
    lemma_status_cell_inverse(r.failed, r.error_message);
    lemma_trim_clean(d);
    assert(crate::cells::opt_text(f1) == Some(d));
    let dec = crate::csv::csv_line_record(line, 7, l);
    assert(dec matches Ok(rr) && rr == r);
}

/// A character absent from every piece and from the separator is absent
/// from their join.
proof fn lemma_join_without(pieces: Seq<Seq<char>>, sep: Seq<char>, c: char)
    requires
        !has_char(sep, c),
        forall|k: int| 0 <= k < pieces.len() ==> !has_char(#[trigger] pieces[k], c),
    ensures
        !has_char(crate::chars::join_sub(pieces, sep), c),
    decreases pieces.len(),
{
    if pieces.len() == 0 {
    } else if pieces.len() == 1 {
        assert(crate::chars::join_sub(pieces, sep) == pieces[0]);
    } else {
        let rest = pieces.drop_first();
        assert forall|k: int| 0 <= k < rest.len() implies !has_char(#[trigger] rest[k], c) by {
            assert(rest[k] == pieces[k + 1]);
        }
        lemma_join_without(rest, sep, c);
        lemma_has_char_concat(pieces[0], sep, c);
        lemma_has_char_concat(pieces[0] + sep, crate::chars::join_sub(rest, sep), c);
        assert(crate::chars::join_sub(pieces, sep) == pieces[0] + sep + crate::chars::join_sub(
            rest,
            sep,
        ));
    }
}

/// End-trimming keeps at least the head character when that character is
/// not trimmable.
proof fn lemma_trim_end_keeps_head(s: Seq<char>, pat: Seq<char>)
    requires
        s.len() > 0,
        !has_char(pat, s[0]),
    ensures
        trim_end_set(s, pat).len() >= 1,
    decreases s.len(),
{
    if has_char(pat, s.last()) {
        assert(s.len() >= 2) by {
            if s.len() == 1 {
                assert(s.last() == s[0]);
            }
        }
        assert(s.drop_last()[0] == s[0]);
        lemma_trim_end_keeps_head(s.drop_last(), pat);
    }
}

/// A text whose first character is not whitespace stays non-empty under
/// trimming: it is no blank line.
proof fn lemma_trim_nonblank(s: Seq<char>)
    requires
        s.len() > 0,
        !has_char(ws_pat(), s[0]),
    ensures
        trim_ws(s).len() > 0,
{
    assert(trim_start_set(s, ws_pat()) == s);
    lemma_trim_end_keeps_head(s, ws_pat());
}

/// The delimited header under a well-formed catalog holds no line feed and
/// starts with a non-whitespace character.
proof fn lemma_csv_header_plain(l: crate::labels::LabelsView)
    requires
        crate::labels::labels_wf(l),
    ensures
        !has_char(crate::csv::csv_header(l), '\n'),
        crate::csv::csv_header(l).len() > 0,
        !has_char(ws_pat(), crate::csv::csv_header(l)[0]),
{
    let cols = crate::csv::csv_cols(l);
    let sep = seq![','];
    assert(!has_char(sep, '\n'));
    lemma_join_without(cols, sep, '\n');
    let header = crate::csv::csv_header(l);
    assert(header == cols[0] + sep + crate::chars::join_sub(cols.drop_first(), sep));
    assert(cols[0] == l.col_name);
    assert(header[0] == l.col_name[0]);
    if has_char(ws_pat(), l.col_name[0]) {
        lemma_trim_not_fixed(l.col_name);
    }
}

/// One clean record's delimited line holds no line feed and starts with a
/// non-whitespace character.
proof fn lemma_csv_line_plain(r: RecordView, l: crate::labels::LabelsView)
    requires
        record_clean(r),
        crate::labels::labels_wf(l),
    ensures
        !has_char(crate::csv::csv_record_line(r, l), '\n'),
        crate::csv::csv_record_line(r, l).len() > 0,
        !has_char(ws_pat(), crate::csv::csv_record_line(r, l)[0]),
{
    let d = r.description.unwrap();
    lemma_clean_desc_cell(d);
    lemma_fields_plain(r);
    let fields = crate::csv::csv_fields(r, l);
    lemma_replace_absent(desc_cell(r.description), ',', ';');
    let sep = seq![','];
    assert(!has_char(sep, '\n'));
    assert forall|k: int| 0 <= k < fields.len() implies !has_char(#[trigger] fields[k], '\n') by {
        if k == 2 {
            assert(crate::labels::label_ok(fields[2]));
        } else {
            assert(plain_field(fields[k]));
        }
    }
    lemma_join_without(fields, sep, '\n');
    let line = crate::csv::csv_record_line(r, l);
    assert(line == fields[0] + sep + crate::chars::join_sub(fields.drop_first(), sep));
    assert(fields[0] == r.name);
    assert(line[0] == r.name[0]);
}

/// Front-peel form of the delimited body: the first record's line, a line
/// feed, then the body of the rest.
proof fn lemma_csv_body_front(records: Seq<RecordView>, l: crate::labels::LabelsView)
    requires
        records.len() > 0,
    ensures
        crate::csv::csv_body(records, l) == crate::csv::csv_record_line(records[0], l)
            + seq!['\n'] + crate::csv::csv_body(records.drop_first(), l),
    decreases records.len(),
{
    if records.len() == 1 {
        assert(records.drop_last() =~= Seq::<RecordView>::empty());
        assert(records.drop_first() =~= Seq::<RecordView>::empty());
        assert(records.last() == records[0]);
        assert(crate::csv::csv_body(Seq::empty(), l) == Seq::<char>::empty());
        assert(crate::csv::csv_body(records, l) =~= crate::csv::csv_record_line(records[0], l)
            + seq!['\n'] + crate::csv::csv_body(records.drop_first(), l));
    } else {
        let head = records.drop_last();
        lemma_csv_body_front(head, l);
        assert(head[0] == records[0]);
        assert(head.drop_first() =~= records.drop_first().drop_last());
        assert(records.drop_first().last() == records.last());
        assert(records.drop_first().len() > 0);
        assert(crate::csv::csv_body(records, l) =~= crate::csv::csv_record_line(records[0], l)
            + seq!['\n'] + crate::csv::csv_body(records.drop_first(), l));
    }
}

/// The lines of the delimited body: one line per record, then the empty
/// piece after the final line feed.
proof fn lemma_csv_body_lines(records: Seq<RecordView>, l: crate::labels::LabelsView)
    requires
        crate::labels::labels_wf(l),
        forall|i: int| 0 <= i < records.len() ==> record_clean(#[trigger] records[i]),
    ensures
        crate::chars::split_lines(crate::csv::csv_body(records, l)) == records.map_values(
            |r: RecordView| crate::csv::csv_record_line(r, l),
        ) + seq![Seq::<char>::empty()],
    decreases records.len(),
{
    let nl = seq!['\n'];
    let f = |r: RecordView| crate::csv::csv_record_line(r, l);
    if records.len() == 0 {
        assert(crate::csv::csv_body(records, l) == Seq::<char>::empty());
        assert(crate::chars::split_lines(Seq::<char>::empty()) =~= seq![Seq::<char>::empty()]);
        assert(records.map_values(f) + seq![Seq::<char>::empty()] =~= seq![Seq::<char>::empty()]);
    } else {
        let rest = records.drop_first();
        assert forall|i: int| 0 <= i < rest.len() implies record_clean(#[trigger] rest[i]) by {
            assert(rest[i] == records[i + 1]);
        }
        lemma_csv_body_front(records, l);
        lemma_csv_line_plain(records[0], l);
        crate::chars::lemma_sep_at_boundary_char(crate::csv::csv_record_line(records[0], l), '\n');
        crate::chars::lemma_split_of_concat(
            crate::csv::csv_record_line(records[0], l),
            nl,
            crate::csv::csv_body(rest, l),
        );
        lemma_csv_body_lines(rest, l);
        assert(rest.map_values(f) =~= records.map_values(f).drop_first());
        assert(records.map_values(f)[0] == crate::csv::csv_record_line(records[0], l));
        assert(crate::chars::split_lines(crate::csv::csv_body(records, l)) =~= records.map_values(
            f,
        ) + seq![Seq::<char>::empty()]);
    }
}

/// Every line decoding to its record makes the whole line list decode to
/// the whole record list.
proof fn lemma_csv_parse_lines_all(
    ls: Seq<Seq<char>>,
    deps: Seq<RecordView>,
    num: int,
    l: crate::labels::LabelsView,
)
    requires
        ls.len() == deps.len(),
        forall|i: int| 0 <= i < ls.len() ==> crate::csv::csv_line_record(#[trigger] ls[i], num, l)
            == Ok::<RecordView, crate::errors::ErrView>(deps[i]),
    ensures
        crate::csv::csv_parse_lines(ls, num, l) == Ok::<
            Seq<RecordView>,
            crate::errors::ErrView,
        >(deps),
    decreases ls.len(),
{
    if ls.len() == 0 {
        assert(deps =~= Seq::<RecordView>::empty());
    } else {
        assert forall|i: int| 0 <= i < ls.drop_first().len() implies crate::csv::csv_line_record(
            #[trigger] ls.drop_first()[i],
            num,
            l,
        ) == Ok::<RecordView, crate::errors::ErrView>(deps.drop_first()[i]) by {
            assert(ls.drop_first()[i] == ls[i + 1]);
            assert(deps.drop_first()[i] == deps[i + 1]);
        }
        lemma_csv_parse_lines_all(ls.drop_first(), deps.drop_first(), num, l);
        assert(seq![deps[0]] + deps.drop_first() =~= deps);
    }
}

/// Law: a list of clean records reads back exactly, in order, from the
/// whole delimited document written for it, under any well-formed catalog.
#[verifier::spinoff_prover]
#[verifier::rlimit(100)]
pub proof fn lemma_csv_round_trip(deps: Seq<RecordView>, l: crate::labels::LabelsView)
    requires
        crate::labels::labels_wf(l),
        forall|i: int| 0 <= i < deps.len() ==> record_clean(#[trigger] deps[i]),
    ensures
        crate::csv::csv_parse(crate::csv::csv_render(deps, l), l) == Ok::<
            Seq<RecordView>,
            crate::errors::ErrView,
        >(deps),
{
    reveal(Seq::filter);
    let nl = seq!['\n'];
    let header = crate::csv::csv_header(l);
    let body = crate::csv::csv_body(deps, l);
    let doc = crate::csv::csv_render(deps, l);
    let lines = deps.map_values(|r: RecordView| crate::csv::csv_record_line(r, l));
    let pred = crate::chars::nonblank_pred();
    let blank = seq![Seq::<char>::empty()];

    lemma_csv_header_plain(l);
    crate::chars::lemma_sep_at_boundary_char(Seq::<char>::empty(), '\n');
    crate::chars::lemma_sep_at_boundary_char(header, '\n');
    assert(doc =~= Seq::<char>::empty() + nl + (header + nl + body));
    crate::chars::lemma_split_of_concat(Seq::<char>::empty(), nl, header + nl + body);
    crate::chars::lemma_split_of_concat(header, nl, body);
    lemma_csv_body_lines(deps, l);
    assert(crate::chars::split_lines(doc) =~= blank + (seq![header] + (lines + blank)));

    Seq::filter_distributes_over_add(blank, seq![header] + (lines + blank), pred);
    Seq::filter_distributes_over_add(seq![header], lines + blank, pred);
    Seq::filter_distributes_over_add(lines, blank, pred);
    lemma_filter_single(Seq::<char>::empty(), pred);
    assert(trim_ws(Seq::<char>::empty()).len() == 0);
    assert(!pred(Seq::<char>::empty()));
    assert(blank.filter(pred) == Seq::<Seq<char>>::empty());
    lemma_filter_single(header, pred);
    lemma_trim_nonblank(header);
    assert(pred(header));
    assert(seq![header].filter(pred) == seq![header]);
    assert forall|i: int| 0 <= i < lines.len() implies pred(#[trigger] lines[i]) by {
        lemma_csv_line_plain(deps[i], l);
        assert(lines[i] == crate::csv::csv_record_line(deps[i], l));
        lemma_trim_nonblank(lines[i]);
    }
    lemma_filter_keeps_all(lines, pred);
    let ls = crate::csv::nonblank_lines(doc);
    assert(ls =~= seq![header] + lines);
    assert(ls.len() >= 1);
    assert(ls[0] == header);

    lemma_csv_seven(l);
    assert(ls.drop_first() =~= lines);
    let num = crate::csv::csv_column_num(l);
    assert forall|i: int| 0 <= i < lines.len() implies crate::csv::csv_line_record(
        #[trigger] lines[i],
        num,
        l,
    ) == Ok::<RecordView, crate::errors::ErrView>(deps[i]) by {
        lemma_csv_line_inverse(deps[i], l);
        assert(lines[i] == crate::csv::csv_record_line(deps[i], l));
    }
    lemma_csv_parse_lines_all(lines, deps, num, l);
}

/// Joining a concatenation of two non-empty line lists joins each and puts
/// one separator at the seam.
proof fn lemma_join_concat(a: Seq<Seq<char>>, b: Seq<Seq<char>>, sep: Seq<char>)
    requires
        a.len() > 0,
        b.len() > 0,
    ensures
        crate::chars::join_sub(a + b, sep) == crate::chars::join_sub(a, sep) + sep
            + crate::chars::join_sub(b, sep),
    decreases a.len(),
{
    if a.len() == 1 {
        assert((a + b)[0] == a[0]);
        assert((a + b).drop_first() =~= b);
        assert(crate::chars::join_sub(a, sep) == a[0]);
        assert(crate::chars::join_sub(a + b, sep) == a[0] + sep + crate::chars::join_sub(b, sep));
    } else {
        assert((a + b)[0] == a[0]);
        assert((a + b).drop_first() =~= a.drop_first() + b);
        lemma_join_concat(a.drop_first(), b, sep);
        assert(crate::chars::join_sub(a + b, sep) == a[0] + sep + (crate::chars::join_sub(
            a.drop_first(),
            sep,
        ) + sep + crate::chars::join_sub(b, sep)));
        assert(a[0] + sep + (crate::chars::join_sub(a.drop_first(), sep) + sep
            + crate::chars::join_sub(b, sep)) =~= (a[0] + sep + crate::chars::join_sub(
            a.drop_first(),
            sep,
        )) + sep + crate::chars::join_sub(b, sep));
        assert(crate::chars::join_sub(a, sep) == a[0] + sep + crate::chars::join_sub(
            a.drop_first(),
            sep,
        ));
    }
}

/// Leading whitespace before a non-whitespace head trims away.
proof fn lemma_trim_start_ws_prefix(p: Seq<char>, rest: Seq<char>)
    requires
        forall|i: int| 0 <= i < p.len() ==> has_char(ws_pat(), #[trigger] p[i]),
        rest.len() > 0,
        !has_char(ws_pat(), rest[0]),
    ensures
        trim_start_set(p + rest, ws_pat()) == rest,
    decreases p.len(),
{
    if p.len() == 0 {
        assert(p + rest =~= rest);
    } else {
        assert((p + rest)[0] == p[0]);
        assert((p + rest).drop_first() =~= p.drop_first() + rest);
        assert forall|i: int| 0 <= i < p.drop_first().len() implies has_char(
            ws_pat(),
            #[trigger] p.drop_first()[i],
        ) by {
            assert(p.drop_first()[i] == p[i + 1]);
        }
        lemma_trim_start_ws_prefix(p.drop_first(), rest);
    }
}

/// A whitespace-padded line whose core is not blank trims to that core.
proof fn lemma_line_trim(wsp: Seq<char>, rest: Seq<char>)
    requires
        forall|i: int| 0 <= i < wsp.len() ==> has_char(ws_pat(), #[trigger] wsp[i]),
        rest.len() > 0,
        !has_char(ws_pat(), rest[0]),
        !has_char(ws_pat(), rest.last()),
    ensures
        trim_ws(wsp + rest) == rest,
{
    lemma_trim_start_ws_prefix(wsp, rest);
    assert(trim_end_set(rest, ws_pat()) == rest);
}

/// Escaped text holds no line feed: every escape writes it as a two- or
/// six-character sequence of printable characters.
proof fn lemma_escape_no_nl(s: Seq<char>)
    ensures
        !has_char(crate::json::escape_text(s), '\n'),
    decreases s.len(),
{
    if s.len() > 0 {
        lemma_escape_no_nl(s.drop_last());
        let c = s.last();
        let e = crate::json::escape_char(c);
        assert(!has_char(e, '\n')) by {
            if c == '"' || c == '\\' || c == '\n' || c == '\r' || c == '\t' || c == '\u{8}' || c
                == '\u{c}' {
            } else if (c as u32) < 32 {
                assert(crate::json::hex_char(((c as u32) / 16) as int) != '\n');
                assert(crate::json::hex_char(((c as u32) % 16) as int) != '\n');
            } else {
                assert(e =~= seq![c]);
                assert(c != '\n');
            }
        }
        lemma_has_char_concat(crate::json::escape_text(s.drop_last()), e, '\n');
    }
}

/// A scalar's text: non-empty, free of line feeds, no whitespace at either
/// end, and not ending in a comma.
proof fn lemma_scalar_plain(v: crate::json::ScalarView)
    ensures
        crate::json::scalar_text(v).len() > 0,
        !has_char(crate::json::scalar_text(v), '\n'),
        !has_char(ws_pat(), crate::json::scalar_text(v)[0]),
        !has_char(ws_pat(), crate::json::scalar_text(v).last()),
        crate::json::scalar_text(v).last() != ',',
{
    let t = crate::json::scalar_text(v);
    match v {
        crate::json::ScalarView::Null => {
            lemma_ws_members('n');
            lemma_ws_members('l');
        },
        crate::json::ScalarView::Flag(b) => {
            lemma_ws_members(t[0]);
            lemma_ws_members('e');
        },
        crate::json::ScalarView::Num(n) => {
            lemma_dec_str_val(n as nat);
            assert(is_digit_char(t[0]));
            assert(is_digit_char(t.last()));
            lemma_ws_members(t[0]);
            lemma_ws_members(t.last());
            if has_char(t, '\n') {
                let i = choose|i: int| 0 <= i < t.len() && t[i] == '\n';
                assert(is_digit_char(t[i]));
            }
        },
        crate::json::ScalarView::Text(s) => {
            let esc = crate::json::escape_text(s);
            assert(t == seq!['"'] + esc + seq!['"']);
            assert(t[0] == '"');
            assert(t.last() == '"');
            lemma_ws_members('"');
            lemma_escape_no_nl(s);
            lemma_has_char_concat(seq!['"'], esc, '\n');
            lemma_has_char_concat(seq!['"'] + esc, seq!['"'], '\n');
        },
    }
}

/// A `"key": value` line in the layout the renderer writes reads back as
/// exactly its scalar, with or without the trailing comma.
proof fn lemma_field_line(wsp: Seq<char>, key: Seq<char>, v: crate::json::ScalarView, comma: bool)
    requires
        forall|i: int| 0 <= i < wsp.len() ==> has_char(ws_pat(), #[trigger] wsp[i]),
        key.len() > 0,
        !has_char(ws_pat(), key[0]),
    ensures
        crate::json::field_scalar(
            wsp + (key + crate::json::scalar_text(v) + (if comma {
                seq![',']
            } else {
                Seq::<char>::empty()
            })),
            key,
        ) == Some(v),
{
    lemma_scalar_plain(v);
    let sc = crate::json::scalar_text(v);
    let tail: Seq<char> = if comma {
        seq![',']
    } else {
        Seq::<char>::empty()
    };
    let rest = key + sc + tail;
    assert(rest[0] == key[0]);
    if comma {
        assert(rest.last() == ',');
        lemma_ws_members(',');
    } else {
        assert(rest =~= key + sc);
        assert(rest.last() == sc.last());
    }
    lemma_line_trim(wsp, rest);
    let t = crate::json::strip_comma(rest);
    if comma {
        assert(rest.drop_last() =~= key + sc);
    } else {
        assert(rest.last() != ',');
    }
    assert(t == key + sc);
    assert((key + sc).subrange(0, key.len() as int) =~= key);
    assert(crate::chars::starts_with(key + sc, key));
    assert((key + sc).subrange(key.len() as int, (key + sc).len() as int) =~= sc);
    lemma_scalar_inverse(v);
}

/// The fourteen lines of one rendered object, the seam comma after the
/// closing brace excluded.
spec fn item_lines(r: RecordView) -> Seq<Seq<char>> {
    seq![
        "  {"@,
        "    \"name\": "@ + crate::json::scalar_text(crate::json::ScalarView::Text(r.name))
            + seq![','],
        "    \"description\": "@ + crate::json::scalar_text(
            crate::json::opt_text_scalar(r.description),
        ) + seq![','],
        "    \"dependency_kind\": "@ + crate::json::scalar_text(
            crate::json::ScalarView::Text(crate::json::kind_token(r.dependency_kind)),
        ) + seq![','],
        "    \"crate_url\": "@ + crate::json::scalar_text(
            crate::json::opt_text_scalar(r.crate_url),
        ) + seq![','],
        "    \"source_type\": "@ + crate::json::scalar_text(
            crate::json::ScalarView::Text(r.source_type),
        ) + seq![','],
        "    \"source_url\": "@ + crate::json::scalar_text(
            crate::json::opt_text_scalar(r.source_url),
        ) + seq![','],
        "    \"stats\": {"@,
        "      \"stars\": "@ + crate::json::scalar_text(crate::json::opt_num_scalar(r.stars))
            + seq![','],
        "      \"downloads\": "@ + crate::json::scalar_text(
            crate::json::opt_num_scalar(r.downloads),
        ),
        "    },"@,
        "    \"failed\": "@ + crate::json::scalar_text(crate::json::ScalarView::Flag(r.failed))
            + seq![','],
        "    \"error_message\": "@ + crate::json::scalar_text(
            crate::json::opt_text_scalar(r.error_message),
        ),
        "  }"@,
    ]
}

/// The line list of one rendered object grown line by line: joining the
/// first `k + 1` lines appends one line feed and one line at each step.
proof fn lemma_join_grow(ls: Seq<Seq<char>>, k: int, sep: Seq<char>)
    requires
        1 <= k < ls.len(),
    ensures
        crate::chars::join_sub(ls.subrange(0, k + 1), sep) == crate::chars::join_sub(
            ls.subrange(0, k),
            sep,
        ) + sep + ls[k],
{
    assert(ls.subrange(0, k + 1) =~= ls.subrange(0, k) + seq![ls[k]]);
    lemma_join_concat(ls.subrange(0, k), seq![ls[k]], sep);
    assert(crate::chars::join_sub(seq![ls[k]], sep) == ls[k]);
}

/// One rendered object is its fourteen lines joined by line feeds.
#[verifier::spinoff_prover]
#[verifier::rlimit(100)]
proof fn lemma_item_lines_join(r: RecordView)
    ensures
        crate::json::json_item(r) == crate::chars::join_sub(item_lines(r), seq!['\n']),
{
    reveal_strlit("  {\n    \"name\": ");
    reveal_strlit(",\n    \"description\": ");
    reveal_strlit(",\n    \"dependency_kind\": ");
    reveal_strlit(",\n    \"crate_url\": ");
    reveal_strlit(",\n    \"source_type\": ");
    reveal_strlit(",\n    \"source_url\": ");
    reveal_strlit(",\n    \"stats\": {\n      \"stars\": ");
    reveal_strlit(",\n      \"downloads\": ");
    reveal_strlit("\n    },\n    \"failed\": ");
    reveal_strlit(",\n    \"error_message\": ");
    reveal_strlit("\n  }");
    reveal_strlit("  {");
    reveal_strlit("    \"name\": ");
    reveal_strlit("    \"description\": ");
    reveal_strlit("    \"dependency_kind\": ");
    reveal_strlit("    \"crate_url\": ");
    reveal_strlit("    \"source_type\": ");
    reveal_strlit("    \"source_url\": ");
    reveal_strlit("    \"stats\": {");
    reveal_strlit("      \"stars\": ");
    reveal_strlit("      \"downloads\": ");
    reveal_strlit("    },");
    reveal_strlit("    \"failed\": ");
    reveal_strlit("    \"error_message\": ");
    reveal_strlit("  }");
    let nl = seq!['\n'];
    let c = seq![','];
    let lines = item_lines(r);
    let s1 = crate::json::scalar_text(crate::json::ScalarView::Text(r.name));
    let s2 = crate::json::scalar_text(crate::json::opt_text_scalar(r.description));
    let s3 = crate::json::scalar_text(
        crate::json::ScalarView::Text(crate::json::kind_token(r.dependency_kind)),
    );
    let s4 = crate::json::scalar_text(crate::json::opt_text_scalar(r.crate_url));
    let s5 = crate::json::scalar_text(crate::json::ScalarView::Text(r.source_type));
    let s6 = crate::json::scalar_text(crate::json::opt_text_scalar(r.source_url));
    let s7 = crate::json::scalar_text(crate::json::opt_num_scalar(r.stars));
    let s8 = crate::json::scalar_text(crate::json::opt_num_scalar(r.downloads));
    let s9 = crate::json::scalar_text(crate::json::ScalarView::Flag(r.failed));
    let s10 = crate::json::scalar_text(crate::json::opt_text_scalar(r.error_message));
    // The document text, grown field by field, in the lines' grouping.
    let d1 = lines[0] + nl + ("    \"name\": "@ + s1);
    assert("  {\n    \"name\": "@ + s1 =~= d1);
    let d2 = d1 + c + nl + ("    \"description\": "@ + s2);
    assert(d1 + ",\n    \"description\": "@ + s2 =~= d2);
    let d3 = d2 + c + nl + ("    \"dependency_kind\": "@ + s3);
    assert(d2 + ",\n    \"dependency_kind\": "@ + s3 =~= d3);
    let d4 = d3 + c + nl + ("    \"crate_url\": "@ + s4);
    assert(d3 + ",\n    \"crate_url\": "@ + s4 =~= d4);
    let d5 = d4 + c + nl + ("    \"source_type\": "@ + s5);
    assert(d4 + ",\n    \"source_type\": "@ + s5 =~= d5);
    let d6 = d5 + c + nl + ("    \"source_url\": "@ + s6);
    assert(d5 + ",\n    \"source_url\": "@ + s6 =~= d6);
    let d7 = d6 + c + nl + lines[7] + nl + ("      \"stars\": "@ + s7);
    assert(d6 + ",\n    \"stats\": {\n      \"stars\": "@ + s7 =~= d7);
    let d8 = d7 + c + nl + ("      \"downloads\": "@ + s8);
    assert(d7 + ",\n      \"downloads\": "@ + s8 =~= d8);
    let d9 = d8 + nl + lines[10] + nl + ("    \"failed\": "@ + s9);
    assert(d8 + "\n    },\n    \"failed\": "@ + s9 =~= d9);
    let d10 = d9 + c + nl + ("    \"error_message\": "@ + s10);
    assert(d9 + ",\n    \"error_message\": "@ + s10 =~= d10);
    let d11 = d10 + nl + lines[13];
    assert(d10 + "\n  }"@ =~= d11);
    assert(crate::json::json_item(r) == d11);
    // The same text as the lines joined, grown line by line.
    let e1 = crate::chars::join_sub(lines.subrange(0, 2), nl);
    lemma_join_grow(lines, 1, nl);
    assert(lines.subrange(0, 1) =~= seq![lines[0]]);
    assert(crate::chars::join_sub(seq![lines[0]], nl) == lines[0]);
    assert(e1 == lines[0] + nl + lines[1]);
    assert(d1 + c =~= e1);
    let e2 = crate::chars::join_sub(lines.subrange(0, 3), nl);
    lemma_join_grow(lines, 2, nl);
    assert(d2 + c =~= e2);
    let e3 = crate::chars::join_sub(lines.subrange(0, 4), nl);
    lemma_join_grow(lines, 3, nl);
    assert(d3 + c =~= e3);
    let e4 = crate::chars::join_sub(lines.subrange(0, 5), nl);
    lemma_join_grow(lines, 4, nl);
    assert(d4 + c =~= e4);
    let e5 = crate::chars::join_sub(lines.subrange(0, 6), nl);
    lemma_join_grow(lines, 5, nl);
    assert(d5 + c =~= e5);
    let e6 = crate::chars::join_sub(lines.subrange(0, 7), nl);
    lemma_join_grow(lines, 6, nl);
    assert(d6 + c =~= e6);
    let e7 = crate::chars::join_sub(lines.subrange(0, 8), nl);
    lemma_join_grow(lines, 7, nl);
    let e8 = crate::chars::join_sub(lines.subrange(0, 9), nl);
    lemma_join_grow(lines, 8, nl);
    assert(d7 + c =~= e8);
    let e9 = crate::chars::join_sub(lines.subrange(0, 10), nl);
    lemma_join_grow(lines, 9, nl);
    assert(d8 =~= e9);
    let e10 = crate::chars::join_sub(lines.subrange(0, 11), nl);
    lemma_join_grow(lines, 10, nl);
    let e11 = crate::chars::join_sub(lines.subrange(0, 12), nl);
    lemma_join_grow(lines, 11, nl);
    assert(d9 + c =~= e11);
    let e12 = crate::chars::join_sub(lines.subrange(0, 13), nl);
    lemma_join_grow(lines, 12, nl);
    assert(d10 =~= e12);
    let e13 = crate::chars::join_sub(lines.subrange(0, 14), nl);
    lemma_join_grow(lines, 13, nl);
    assert(d11 =~= e13);
    assert(lines.subrange(0, 14) =~= lines);
}

/// A run of spaces is whitespace throughout and holds no line feed.
proof fn lemma_all_spaces(w: Seq<char>)
    requires
        forall|i: int| 0 <= i < w.len() ==> #[trigger] w[i] == ' ',
    ensures
        forall|i: int| 0 <= i < w.len() ==> has_char(ws_pat(), #[trigger] w[i]),
        !has_char(w, '\n'),
{
    assert(ws_pat()[0] == ' ');
    assert forall|i: int| 0 <= i < w.len() implies has_char(ws_pat(), #[trigger] w[i]) by {
        assert(w[i] == ' ');
    }
    if has_char(w, '\n') {
        let i = choose|i: int| 0 <= i < w.len() && w[i] == '\n';
        assert(w[i] == ' ');
    }
}

/// A `"key": value` line of the rendered layout is free of line feeds and
/// not blank.
proof fn lemma_scalar_line_plain(
    wsp: Seq<char>,
    key: Seq<char>,
    v: crate::json::ScalarView,
    comma: bool,
)
    requires
        forall|i: int| 0 <= i < wsp.len() ==> #[trigger] wsp[i] == ' ',
        key.len() > 0,
        !has_char(ws_pat(), key[0]),
        !has_char(key, '\n'),
    ensures
        !has_char(
            wsp + key + crate::json::scalar_text(v) + (if comma {
                seq![',']
            } else {
                Seq::<char>::empty()
            }),
            '\n',
        ),
        crate::chars::nonblank_pred()(
            wsp + key + crate::json::scalar_text(v) + (if comma {
                seq![',']
            } else {
                Seq::<char>::empty()
            }),
        ),
{
    lemma_all_spaces(wsp);
    lemma_scalar_plain(v);
    let sc = crate::json::scalar_text(v);
    let tail: Seq<char> = if comma {
        seq![',']
    } else {
        Seq::<char>::empty()
    };
    let rest = key + sc + tail;
    let line = wsp + key + sc + tail;
    assert(line =~= wsp + rest);
    assert(rest[0] == key[0]);
    if comma {
        assert(rest.last() == ',');
        lemma_ws_members(',');
    } else {
        assert(rest =~= key + sc);
        assert(rest.last() == sc.last());
    }
    lemma_line_trim(wsp, rest);
    assert(trim_ws(line).len() > 0);
    lemma_has_char_concat(key, sc, '\n');
    assert(!has_char(tail, '\n'));
    lemma_has_char_concat(key + sc, tail, '\n');
    lemma_has_char_concat(wsp, rest, '\n');
    assert(!has_char(line, '\n'));
}

/// A structural line of the rendered layout (a brace or bracket behind
/// spaces) is free of line feeds and not blank.
proof fn lemma_frame_line_plain(wsp: Seq<char>, rest: Seq<char>)
    requires
        forall|i: int| 0 <= i < wsp.len() ==> #[trigger] wsp[i] == ' ',
        rest.len() > 0,
        !has_char(ws_pat(), rest[0]),
        !has_char(ws_pat(), rest.last()),
        !has_char(rest, '\n'),
    ensures
        !has_char(wsp + rest, '\n'),
        crate::chars::nonblank_pred()(wsp + rest),
{
    lemma_all_spaces(wsp);
    lemma_line_trim(wsp, rest);
    lemma_has_char_concat(wsp, rest, '\n');
}

/// Every line of one rendered object is free of line feeds and not blank.
#[verifier::spinoff_prover]
#[verifier::rlimit(100)]
proof fn lemma_item_lines_plain(r: RecordView)
    ensures
        item_lines(r).len() == 14,
        forall|k: int| 0 <= k < 14 ==> !has_char(#[trigger] item_lines(r)[k], '\n'),
        forall|k: int| 0 <= k < 14 ==> crate::chars::nonblank_pred()(#[trigger] item_lines(r)[k]),
{
    reveal_strlit("  {");
    reveal_strlit("    \"name\": ");
    reveal_strlit("    \"description\": ");
    reveal_strlit("    \"dependency_kind\": ");
    reveal_strlit("    \"crate_url\": ");
    reveal_strlit("    \"source_type\": ");
    reveal_strlit("    \"source_url\": ");
    reveal_strlit("    \"stats\": {");
    reveal_strlit("      \"stars\": ");
    reveal_strlit("      \"downloads\": ");
    reveal_strlit("    },");
    reveal_strlit("    \"failed\": ");
    reveal_strlit("    \"error_message\": ");
    reveal_strlit("  }");
    reveal_strlit("  ");
    reveal_strlit("    ");
    reveal_strlit("      ");
    reveal_strlit("\"name\": ");
    reveal_strlit("\"description\": ");
    reveal_strlit("\"dependency_kind\": ");
    reveal_strlit("\"crate_url\": ");
    reveal_strlit("\"source_type\": ");
    reveal_strlit("\"source_url\": ");
    reveal_strlit("\"stats\": {");
    reveal_strlit("\"stars\": ");
    reveal_strlit("\"downloads\": ");
    reveal_strlit("\"failed\": ");
    reveal_strlit("\"error_message\": ");
    let lines = item_lines(r);
    let w2 = "  "@;
    let w4 = "    "@;
    let w6 = "      "@;
    lemma_ws_members('{');
    lemma_ws_members('}');
    lemma_ws_members('"');
    lemma_ws_members(',');
    assert(lines[0] =~= w2 + seq!['{']);
    lemma_frame_line_plain(w2, seq!['{']);
    assert(lines[1] =~= w4 + "\"name\": "@ + crate::json::scalar_text(
        crate::json::ScalarView::Text(r.name),
    ) + seq![',']);
    lemma_scalar_line_plain(
        w4,
        "\"name\": "@,
        crate::json::ScalarView::Text(r.name),
        true,
    );
    assert(lines[2] =~= w4 + "\"description\": "@ + crate::json::scalar_text(
        crate::json::opt_text_scalar(r.description),
    ) + seq![',']);
    lemma_scalar_line_plain(
        w4,
        "\"description\": "@,
        crate::json::opt_text_scalar(r.description),
        true,
    );
    assert(lines[3] =~= w4 + "\"dependency_kind\": "@ + crate::json::scalar_text(
        crate::json::ScalarView::Text(crate::json::kind_token(r.dependency_kind)),
    ) + seq![',']);
    lemma_scalar_line_plain(
        w4,
        "\"dependency_kind\": "@,
        crate::json::ScalarView::Text(crate::json::kind_token(r.dependency_kind)),
        true,
    );
    assert(lines[4] =~= w4 + "\"crate_url\": "@ + crate::json::scalar_text(
        crate::json::opt_text_scalar(r.crate_url),
    ) + seq![',']);
    lemma_scalar_line_plain(
        w4,
        "\"crate_url\": "@,
        crate::json::opt_text_scalar(r.crate_url),
        true,
    );
    assert(lines[5] =~= w4 + "\"source_type\": "@ + crate::json::scalar_text(
        crate::json::ScalarView::Text(r.source_type),
    ) + seq![',']);
    lemma_scalar_line_plain(
        w4,
        "\"source_type\": "@,
        crate::json::ScalarView::Text(r.source_type),
        true,
    );
    assert(lines[6] =~= w4 + "\"source_url\": "@ + crate::json::scalar_text(
        crate::json::opt_text_scalar(r.source_url),
    ) + seq![',']);
    lemma_scalar_line_plain(
        w4,
        "\"source_url\": "@,
        crate::json::opt_text_scalar(r.source_url),
        true,
    );
    assert(lines[7] =~= w4 + "\"stats\": {"@);
    assert("\"stats\": {"@.last() == '{');
    lemma_frame_line_plain(w4, "\"stats\": {"@);
    assert(lines[8] =~= w6 + "\"stars\": "@ + crate::json::scalar_text(
        crate::json::opt_num_scalar(r.stars),
    ) + seq![',']);
    lemma_scalar_line_plain(w6, "\"stars\": "@, crate::json::opt_num_scalar(r.stars), true);
    assert(lines[9] =~= w6 + "\"downloads\": "@ + crate::json::scalar_text(
        crate::json::opt_num_scalar(r.downloads),
    ) + Seq::<char>::empty());
    lemma_scalar_line_plain(
        w6,
        "\"downloads\": "@,
        crate::json::opt_num_scalar(r.downloads),
        false,
    );
    assert(lines[10] =~= w4 + seq!['}', ',']);
    lemma_frame_line_plain(w4, seq!['}', ',']);
    assert(lines[11] =~= w4 + "\"failed\": "@ + crate::json::scalar_text(
        crate::json::ScalarView::Flag(r.failed),
    ) + seq![',']);
    lemma_scalar_line_plain(
        w4,
        "\"failed\": "@,
        crate::json::ScalarView::Flag(r.failed),
        true,
    );
    assert(lines[12] =~= w4 + "\"error_message\": "@ + crate::json::scalar_text(
        crate::json::opt_text_scalar(r.error_message),
    ) + Seq::<char>::empty());
    lemma_scalar_line_plain(
        w4,
        "\"error_message\": "@,
        crate::json::opt_text_scalar(r.error_message),
        false,
    );
    assert(lines[13] =~= w2 + seq!['}']);
    lemma_frame_line_plain(w2, seq!['}']);
}

/// The lines of the rendered record list: fourteen per record, with a seam
/// comma on the closing brace of every record but the last.
spec fn body_lines(records: Seq<RecordView>) -> Seq<Seq<char>>
    decreases records.len(),
{
    if records.len() == 0 {
        Seq::empty()
    } else if records.len() == 1 {
        item_lines(records[0])
    } else {
        item_lines(records[0]).update(13, "  },"@) + body_lines(records.drop_first())
    }
}

/// Front-peel form of the rendered record list.
#[verifier::spinoff_prover]
#[verifier::rlimit(100)]
proof fn lemma_items_body_front(records: Seq<RecordView>)
    requires
        records.len() >= 2,
    ensures
        crate::json::json_items_body(records) == crate::json::json_item(records[0]) + ",\n"@
            + crate::json::json_items_body(records.drop_first()),
    decreases records.len(),
{
    if records.len() == 2 {
        assert(records.drop_last() =~= seq![records[0]]);
        assert(records.drop_first() =~= seq![records[1]]);
        assert(crate::json::json_items_body(seq![records[0]]) == crate::json::json_item(
            records[0],
        ));
        assert(crate::json::json_items_body(seq![records[1]]) == crate::json::json_item(
            records[1],
        ));
        assert(records.last() == records[1]);
    } else {
        let head = records.drop_last();
        lemma_items_body_front(head);
        assert(head[0] == records[0]);
        assert(head.drop_first() =~= records.drop_first().drop_last());
        assert(records.drop_first().last() == records.last());
        assert(records.drop_first().len() >= 2);
        assert(crate::json::json_items_body(records) =~= crate::json::json_item(records[0])
            + ",\n"@ + crate::json::json_items_body(records.drop_first()));
    }
}

/// The rendered record list is its lines joined by line feeds, fourteen
/// lines per record, each free of line feeds and not blank.
#[verifier::spinoff_prover]
#[verifier::rlimit(100)]
proof fn lemma_body_lines_join(records: Seq<RecordView>)
    requires
        records.len() > 0,
    ensures
        body_lines(records).len() == 14 * records.len(),
        crate::json::json_items_body(records) == crate::chars::join_sub(
            body_lines(records),
            seq!['\n'],
        ),
        forall|k: int| 0 <= k < body_lines(records).len() ==> !has_char(
            #[trigger] body_lines(records)[k],
            '\n',
        ),
        forall|k: int| 0 <= k < body_lines(records).len()
            ==> crate::chars::nonblank_pred()(#[trigger] body_lines(records)[k]),
    decreases records.len(),
{
    reveal_strlit("  }");
    reveal_strlit("  },");
    reveal_strlit(",\n");
    reveal_strlit("  ");
    let nl = seq!['\n'];
    let c = seq![','];
    lemma_item_lines_plain(records[0]);
    lemma_item_lines_join(records[0]);
    if records.len() == 1 {
    } else {
        let rest = records.drop_first();
        lemma_body_lines_join(rest);
        let first = item_lines(records[0]).update(13, "  },"@);
        // the comma-variant line is plain too
        assert("  },"@ =~= "  "@ + seq!['}', ',']);
        lemma_ws_members('}');
        lemma_ws_members(',');
        assert forall|i: int| 0 <= i < "  "@.len() implies #[trigger] "  "@[i] == ' ' by {}
        lemma_frame_line_plain("  "@, seq!['}', ',']);
        assert forall|k: int| 0 <= k < first.len() implies !has_char(#[trigger] first[k], '\n')
            && crate::chars::nonblank_pred()(first[k]) by {
            if k == 13 {
                assert(first[13] == "  },"@);
            } else {
                assert(first[k] == item_lines(records[0])[k]);
            }
        }
        assert forall|k: int| 0 <= k < body_lines(records).len() implies !has_char(
            #[trigger] body_lines(records)[k],
            '\n',
        ) && crate::chars::nonblank_pred()(body_lines(records)[k]) by {
            assert(body_lines(records) == first + body_lines(rest));
            if k < 14 {
                assert(body_lines(records)[k] == first[k]);
            } else {
                assert(body_lines(records)[k] == body_lines(rest)[k - 14]);
            }
        }
        // join of the comma-variant lines is the item text plus a comma
        let head13 = item_lines(records[0]).subrange(0, 13);
        assert(item_lines(records[0]) =~= head13 + seq!["  }"@]);
        assert(first =~= head13 + seq!["  },"@]);
        lemma_join_concat(head13, seq!["  }"@], nl);
        lemma_join_concat(head13, seq!["  },"@], nl);
        assert(crate::chars::join_sub(seq!["  }"@], nl) == "  }"@);
        assert(crate::chars::join_sub(seq!["  },"@], nl) == "  },"@);
        assert("  },"@ =~= "  }"@ + c);
        assert(crate::chars::join_sub(first, nl) =~= crate::json::json_item(records[0]) + c);
        // the whole body joins at the seam
        lemma_join_concat(first, body_lines(rest), nl);
        lemma_items_body_front(records);
        assert(",\n"@ =~= c + nl);
        assert(crate::json::json_items_body(records) =~= crate::chars::join_sub(
            body_lines(records),
            nl,
        ));
    }
}

/// Where each record's lines stand in the rendered record list: record `k`
/// begins at line `14 k`; its closing brace carries the seam comma unless
/// it is the last record.
proof fn lemma_body_lines_index(records: Seq<RecordView>, k: int)
    requires
        0 <= k < records.len(),
    ensures
        forall|i: int| 0 <= i < 13 ==> body_lines(records)[14 * k + i] == item_lines(
            records[k],
        )[i],
        body_lines(records)[14 * k + 13] == "  }"@ || body_lines(records)[14 * k + 13]
            == "  },"@,
    decreases k,
{
    lemma_body_lines_join(records);
    if records.len() == 1 {
    } else {
        let first = item_lines(records[0]).update(13, "  },"@);
        let rest = records.drop_first();
        lemma_body_lines_join(rest);
        assert(body_lines(records) == first + body_lines(rest));
        if k == 0 {
            assert forall|i: int| 0 <= i < 13 implies body_lines(records)[14 * k + i]
                == item_lines(records[k])[i] by {
                assert(body_lines(records)[i] == first[i]);
                assert(first[i] == item_lines(records[0])[i]);
            }
            assert(body_lines(records)[13] == first[13]);
            assert(first[13] == "  },"@);
        } else {
            lemma_body_lines_index(rest, k - 1);
            assert(rest[k - 1] == records[k]);
            assert forall|i: int| 0 <= i < 14 implies #[trigger] body_lines(records)[14 * k + i]
                == body_lines(rest)[14 * (k - 1) + i] by {
                assert(14 * k + i >= 14);
                assert(body_lines(records)[14 * k + i] == body_lines(rest)[14 * k + i - 14]);
                assert(14 * k + i - 14 == 14 * (k - 1) + i);
            }
        }
    }
}

/// The four kind tokens read back as their kinds.
proof fn lemma_kind_token_roundtrip(k: crate::record::DependencyKind)
    ensures
        crate::json::kind_of_token(crate::json::kind_token(k)) == Some(k),
{
    reveal_strlit("Normal");
    reveal_strlit("Development");
    reveal_strlit("Build");
    reveal_strlit("Unknown");
    match k {
        crate::record::DependencyKind::Normal => {
            assert(crate::json::kind_token(k) == "Normal"@);
        },
        crate::record::DependencyKind::Development => {
            assert(crate::json::kind_token(k) == "Development"@);
            assert("Development"@.len() != "Normal"@.len());
        },
        crate::record::DependencyKind::Build => {
            assert(crate::json::kind_token(k) == "Build"@);
            assert("Build"@.len() != "Normal"@.len());
            assert("Build"@.len() != "Development"@.len());
        },
        crate::record::DependencyKind::Unknown => {
            assert(crate::json::kind_token(k) == "Unknown"@);
            assert("Unknown"@.len() != "Normal"@.len());
            assert("Unknown"@.len() != "Development"@.len());
            assert("Unknown"@.len() != "Build"@.len());
        },
    }
}

/// Fourteen lines in the rendered layout read back as their record, with
/// or without the seam comma on the closing brace.
#[verifier::spinoff_prover]
#[verifier::rlimit(100)]
proof fn lemma_record_at(ls: Seq<Seq<char>>, b: int, r: RecordView)
    requires
        0 <= b,
        b + 13 < ls.len(),
        forall|i: int| 0 <= i < 13 ==> ls[b + i] == item_lines(r)[i],
        ls[b + 13] == "  }"@ || ls[b + 13] == "  },"@,
    ensures
        crate::json::json_record_at(ls, b) == Some(r),
{
    reveal_strlit("  {");
    reveal_strlit("  }");
    reveal_strlit("  },");
    reveal_strlit("  ");
    reveal_strlit("    ");
    reveal_strlit("      ");
    reveal_strlit("    \"name\": ");
    reveal_strlit("    \"description\": ");
    reveal_strlit("    \"dependency_kind\": ");
    reveal_strlit("    \"crate_url\": ");
    reveal_strlit("    \"source_type\": ");
    reveal_strlit("    \"source_url\": ");
    reveal_strlit("    \"stats\": {");
    reveal_strlit("      \"stars\": ");
    reveal_strlit("      \"downloads\": ");
    reveal_strlit("    },");
    reveal_strlit("    \"failed\": ");
    reveal_strlit("    \"error_message\": ");
    reveal_strlit("\"name\": ");
    reveal_strlit("\"description\": ");
    reveal_strlit("\"dependency_kind\": ");
    reveal_strlit("\"crate_url\": ");
    reveal_strlit("\"source_type\": ");
    reveal_strlit("\"source_url\": ");
    reveal_strlit("\"stats\": {");
    reveal_strlit("\"stars\": ");
    reveal_strlit("\"downloads\": ");
    reveal_strlit("\"failed\": ");
    reveal_strlit("\"error_message\": ");
    let w2 = "  "@;
    let w4 = "    "@;
    let w6 = "      "@;
    assert forall|i: int| 0 <= i < w2.len() implies #[trigger] w2[i] == ' ' by {}
    assert forall|i: int| 0 <= i < w4.len() implies #[trigger] w4[i] == ' ' by {}
    assert forall|i: int| 0 <= i < w6.len() implies #[trigger] w6[i] == ' ' by {}
    lemma_all_spaces(w2);
    lemma_all_spaces(w4);
    lemma_all_spaces(w6);
    lemma_ws_members('{');
    lemma_ws_members('}');
    lemma_ws_members(',');
    lemma_ws_members('"');
    // the opening brace line
    assert(ls[b] == item_lines(r)[0]);
    assert(ls[b] =~= w2 + seq!['{']);
    lemma_line_trim(w2, seq!['{']);
    assert(trim_ws(ls[b]) == seq!['{']);
    assert(crate::json::line_is(ls[b], seq!['{']));
    // the scalar field lines
    assert(ls[b + 1] =~= w4 + ("\"name\": "@ + crate::json::scalar_text(
        crate::json::ScalarView::Text(r.name),
    ) + seq![',']));
    lemma_field_line(w4, "\"name\": "@, crate::json::ScalarView::Text(r.name), true);
    assert(crate::json::field_scalar(ls[b + 1], "\"name\": "@) == Some(
        crate::json::ScalarView::Text(r.name),
    ));
    assert(ls[b + 2] =~= w4 + ("\"description\": "@ + crate::json::scalar_text(
        crate::json::opt_text_scalar(r.description),
    ) + seq![',']));
    lemma_field_line(w4, "\"description\": "@, crate::json::opt_text_scalar(r.description), true);
    assert(crate::json::field_scalar(ls[b + 2], "\"description\": "@) == Some(
        crate::json::opt_text_scalar(r.description),
    ));
    assert(ls[b + 3] =~= w4 + ("\"dependency_kind\": "@ + crate::json::scalar_text(
        crate::json::ScalarView::Text(crate::json::kind_token(r.dependency_kind)),
    ) + seq![',']));
    lemma_field_line(
        w4,
        "\"dependency_kind\": "@,
        crate::json::ScalarView::Text(crate::json::kind_token(r.dependency_kind)),
        true,
    );
    assert(crate::json::field_scalar(ls[b + 3], "\"dependency_kind\": "@) == Some(
        crate::json::ScalarView::Text(crate::json::kind_token(r.dependency_kind)),
    ));
    assert(ls[b + 4] =~= w4 + ("\"crate_url\": "@ + crate::json::scalar_text(
        crate::json::opt_text_scalar(r.crate_url),
    ) + seq![',']));
    lemma_field_line(w4, "\"crate_url\": "@, crate::json::opt_text_scalar(r.crate_url), true);
    assert(crate::json::field_scalar(ls[b + 4], "\"crate_url\": "@) == Some(
        crate::json::opt_text_scalar(r.crate_url),
    ));
    assert(ls[b + 5] =~= w4 + ("\"source_type\": "@ + crate::json::scalar_text(
        crate::json::ScalarView::Text(r.source_type),
    ) + seq![',']));
    lemma_field_line(w4, "\"source_type\": "@, crate::json::ScalarView::Text(r.source_type), true);
    assert(crate::json::field_scalar(ls[b + 5], "\"source_type\": "@) == Some(
        crate::json::ScalarView::Text(r.source_type),
    ));
    assert(ls[b + 6] =~= w4 + ("\"source_url\": "@ + crate::json::scalar_text(
        crate::json::opt_text_scalar(r.source_url),
    ) + seq![',']));
    lemma_field_line(w4, "\"source_url\": "@, crate::json::opt_text_scalar(r.source_url), true);
    assert(crate::json::field_scalar(ls[b + 6], "\"source_url\": "@) == Some(
        crate::json::opt_text_scalar(r.source_url),
    ));
    // the stats block
    assert(ls[b + 7] =~= w4 + "\"stats\": {"@);
    assert("\"stats\": {"@.last() == '{');
    lemma_line_trim(w4, "\"stats\": {"@);
    assert(crate::json::line_is(ls[b + 7], "\"stats\": {"@));
    assert(ls[b + 8] =~= w6 + ("\"stars\": "@ + crate::json::scalar_text(
        crate::json::opt_num_scalar(r.stars),
    ) + seq![',']));
    lemma_field_line(w6, "\"stars\": "@, crate::json::opt_num_scalar(r.stars), true);
    assert(crate::json::field_scalar(ls[b + 8], "\"stars\": "@) == Some(
        crate::json::opt_num_scalar(r.stars),
    ));
    assert(ls[b + 9] =~= w6 + ("\"downloads\": "@ + crate::json::scalar_text(
        crate::json::opt_num_scalar(r.downloads),
    ) + Seq::<char>::empty()));
    lemma_field_line(w6, "\"downloads\": "@, crate::json::opt_num_scalar(r.downloads), false);
    assert(crate::json::field_scalar(ls[b + 9], "\"downloads\": "@) == Some(
        crate::json::opt_num_scalar(r.downloads),
    ));
    assert(ls[b + 10] =~= w4 + seq!['}', ',']);
    lemma_line_trim(w4, seq!['}', ',']);
    assert(trim_ws(ls[b + 10]) == seq!['}', ',']);
    assert(seq!['}', ','].drop_last() =~= seq!['}']);
    assert(crate::json::line_is(ls[b + 10], seq!['}']));
    // the tail fields
    assert(ls[b + 11] =~= w4 + ("\"failed\": "@ + crate::json::scalar_text(
        crate::json::ScalarView::Flag(r.failed),
    ) + seq![',']));
    lemma_field_line(w4, "\"failed\": "@, crate::json::ScalarView::Flag(r.failed), true);
    assert(crate::json::field_scalar(ls[b + 11], "\"failed\": "@) == Some(
        crate::json::ScalarView::Flag(r.failed),
    ));
    assert(ls[b + 12] =~= w4 + ("\"error_message\": "@ + crate::json::scalar_text(
        crate::json::opt_text_scalar(r.error_message),
    ) + Seq::<char>::empty()));
    lemma_field_line(
        w4,
        "\"error_message\": "@,
        crate::json::opt_text_scalar(r.error_message),
        false,
    );
    assert(crate::json::field_scalar(ls[b + 12], "\"error_message\": "@) == Some(
        crate::json::opt_text_scalar(r.error_message),
    ));
    // the closing brace line, with or without the seam comma
    if ls[b + 13] == "  }"@ {
        assert(ls[b + 13] =~= w2 + seq!['}']);
        lemma_line_trim(w2, seq!['}']);
        assert(crate::json::line_is(ls[b + 13], seq!['}']));
    } else {
        assert(ls[b + 13] =~= w2 + seq!['}', ',']);
        lemma_line_trim(w2, seq!['}', ',']);
        assert(trim_ws(ls[b + 13]) == seq!['}', ',']);
        assert(seq!['}', ','].drop_last() =~= seq!['}']);
        assert(crate::json::line_is(ls[b + 13], seq!['}']));
    }
    lemma_kind_token_roundtrip(r.dependency_kind);
    assert(crate::json::json_record_at(ls, b) == Some(r));
}

/// Every chunk decoding to its record makes the chunk walk decode to the
/// whole record list.
proof fn lemma_json_records_all(
    ls: Seq<Seq<char>>,
    records: Seq<RecordView>,
    k: int,
    s: Seq<char>,
)
    requires
        0 <= k <= records.len(),
        ls.len() == 2 + 14 * records.len(),
        forall|k2: int, i: int|
            0 <= k2 < records.len() && 0 <= i < 13 ==> #[trigger] ls[1 + 14 * k2 + i]
                == item_lines(records[k2])[i],
        forall|k2: int|
            0 <= k2 < records.len() ==> (#[trigger] ls[1 + 14 * k2 + 13] == "  }"@ || ls[1 + 14
                * k2 + 13] == "  },"@),
    ensures
        crate::json::json_records(ls, k, records.len() as int, s) == Ok::<
            Seq<RecordView>,
            crate::errors::ErrView,
        >(records.skip(k)),
    decreases records.len() - k,
{
    let n = records.len() as int;
    if k >= n {
        assert(records.skip(k) =~= Seq::<RecordView>::empty());
    } else {
        assert forall|i: int| 0 <= i < 13 implies ls[1 + 14 * k + i] == item_lines(
            records[k],
        )[i] by {
            assert(ls[1 + 14 * k + i] == item_lines(records[k])[i]);
        }
        assert(ls[1 + 14 * k + 13] == "  }"@ || ls[1 + 14 * k + 13] == "  },"@);
        lemma_record_at(ls, 1 + 14 * k, records[k]);
        lemma_json_records_all(ls, records, k + 1, s);
        assert(seq![records[k]] + records.skip(k + 1) =~= records.skip(k));
    }
}

/// The rendered document splits into a bracket line, the body lines and a
/// closing bracket line, none of them blank.
#[verifier::spinoff_prover]
#[verifier::rlimit(100)]
proof fn lemma_json_doc_lines(deps: Seq<RecordView>)
    requires
        deps.len() > 0,
    ensures
        crate::chars::split_lines(crate::json::json_render(deps)) == seq!["["@] + body_lines(
            deps,
        ) + seq!["]"@],
        crate::json::json_render(deps).len() >= 4,
        crate::json::json_render(deps)[0] == '[',
        crate::json::json_render(deps).last() == ']',
{
    reveal_strlit("[\n");
    reveal_strlit("\n]");
    reveal_strlit("[");
    reveal_strlit("]");
    let nl = seq!['\n'];
    let doc = crate::json::json_render(deps);
    let bl = body_lines(deps);
    let dls = seq!["["@] + bl + seq!["]"@];
    lemma_body_lines_join(deps);
    lemma_join_concat(seq!["["@], bl + seq!["]"@], nl);
    lemma_join_concat(bl, seq!["]"@], nl);
    assert(crate::chars::join_sub(seq!["["@], nl) == "["@);
    assert(crate::chars::join_sub(seq!["]"@], nl) == "]"@);
    assert(seq!["["@] + (bl + seq!["]"@]) =~= dls);
    assert("[\n"@ =~= "["@ + nl);
    assert("\n]"@ =~= nl + "]"@);
    assert(doc =~= crate::chars::join_sub(dls, nl));
    assert(!has_char("["@, '\n'));
    assert(!has_char("]"@, '\n'));
    assert forall|k: int| 0 <= k < dls.len() implies crate::chars::sep_at_boundary(
        #[trigger] dls[k],
        nl,
    ) by {
        if k == 0 {
            assert(dls[0] == "["@);
            crate::chars::lemma_sep_at_boundary_char("["@, '\n');
        } else if k == dls.len() - 1 {
            assert(dls[k] == "]"@);
            crate::chars::lemma_sep_at_boundary_char("]"@, '\n');
        } else {
            assert(dls[k] == bl[k - 1]);
            crate::chars::lemma_sep_at_boundary_char(bl[k - 1], '\n');
        }
    }
    crate::chars::lemma_split_join(dls, nl);
    assert(crate::chars::split_lines(doc) == dls);
}

/// The non-blank lines of the rendered document are exactly its lines.
#[verifier::spinoff_prover]
#[verifier::rlimit(100)]
proof fn lemma_json_doc_nonblank(deps: Seq<RecordView>)
    requires
        deps.len() > 0,
    ensures
        crate::csv::nonblank_lines(crate::json::json_render(deps)) == seq!["["@] + body_lines(
            deps,
        ) + seq!["]"@],
{
    reveal(Seq::filter);
    reveal_strlit("[");
    reveal_strlit("]");
    let pred = crate::chars::nonblank_pred();
    let bl = body_lines(deps);
    let dls = seq!["["@] + bl + seq!["]"@];
    lemma_json_doc_lines(deps);
    lemma_body_lines_join(deps);
    lemma_ws_members('[');
    lemma_ws_members(']');
    assert(trim_ws("["@) == "["@) by {
        assert(trim_start_set("["@, ws_pat()) == "["@);
        assert(trim_end_set("["@, ws_pat()) == "["@);
    }
    assert(trim_ws("]"@) == "]"@) by {
        assert(trim_start_set("]"@, ws_pat()) == "]"@);
        assert(trim_end_set("]"@, ws_pat()) == "]"@);
    }
    assert forall|k: int| 0 <= k < dls.len() implies pred(#[trigger] dls[k]) by {
        if k == 0 {
            assert(dls[0] == "["@);
        } else if k == dls.len() - 1 {
            assert(dls[k] == "]"@);
        } else {
            assert(dls[k] == bl[k - 1]);
        }
    }
    lemma_filter_keeps_all(dls, pred);
}

/// The decoder's frame checks pass on a rendered document: its parse is
/// the chunk walk over its non-blank lines.
#[verifier::spinoff_prover]
#[verifier::rlimit(100)]
proof fn lemma_json_frame(deps: Seq<RecordView>)
    requires
        deps.len() > 0,
    ensures
        crate::csv::nonblank_lines(crate::json::json_render(deps)).len() == 2 + 14 * deps.len(),
        crate::json::json_parse(crate::json::json_render(deps)) == crate::json::json_records(
            crate::csv::nonblank_lines(crate::json::json_render(deps)),
            0,
            deps.len() as int,
            crate::json::json_render(deps),
        ),
{
    reveal_strlit("[]");
    reveal_strlit("[");
    reveal_strlit("]");
    lemma_ws_members('[');
    lemma_ws_members(']');
    let doc = crate::json::json_render(deps);
    let bl = body_lines(deps);
    let dls = seq!["["@] + bl + seq!["]"@];
    lemma_json_doc_lines(deps);
    lemma_json_doc_nonblank(deps);
    lemma_body_lines_join(deps);
    let ls = crate::csv::nonblank_lines(doc);
    assert(ls == dls);
    lemma_trim_clean(doc);
    assert(trim_ws(doc) != "[]"@);
    let n = deps.len() as int;
    assert(ls.len() == 2 + 14 * n);
    assert(ls[0] == "["@);
    assert("["@ =~= seq!['[']);
    assert(trim_ws("["@) == "["@) by {
        assert(trim_start_set("["@, ws_pat()) == "["@);
        assert(trim_end_set("["@, ws_pat()) == "["@);
    }
    assert(ls.last() == "]"@);
    assert("]"@ =~= seq![']']);
    assert(trim_ws("]"@) == "]"@) by {
        assert(trim_start_set("]"@, ws_pat()) == "]"@);
        assert(trim_end_set("]"@, ws_pat()) == "]"@);
    }
    assert((14 * n) % 14 == 0 && (14 * n) / 14 == n) by (nonlinear_arith)
        requires
            n > 0,
    ;
    assert((ls.len() - 2) % 14 == 0);
    assert(((ls.len() - 2) / 14) as int == n);
}

/// Each record's fourteen lines stand at its chunk of the rendered
/// document's non-blank lines.
#[verifier::spinoff_prover]
#[verifier::rlimit(100)]
proof fn lemma_json_chunks(deps: Seq<RecordView>)
    requires
        deps.len() > 0,
    ensures
        forall|k2: int, i: int|
            0 <= k2 < deps.len() && 0 <= i < 13
                ==> #[trigger] crate::csv::nonblank_lines(crate::json::json_render(deps))[1 + 14
                * k2 + i] == item_lines(deps[k2])[i],
        forall|k2: int|
            0 <= k2 < deps.len() ==> (#[trigger] crate::csv::nonblank_lines(
                crate::json::json_render(deps),
            )[1 + 14 * k2 + 13] == "  }"@ || crate::csv::nonblank_lines(
                crate::json::json_render(deps),
            )[1 + 14 * k2 + 13] == "  },"@),
{
    let doc = crate::json::json_render(deps);
    let bl = body_lines(deps);
    let dls = seq!["["@] + bl + seq!["]"@];
    lemma_json_doc_nonblank(deps);
    lemma_body_lines_join(deps);
    let ls = crate::csv::nonblank_lines(doc);
    assert(ls == dls);
    assert forall|k2: int, i: int|
        0 <= k2 < deps.len() && 0 <= i < 13 implies #[trigger] ls[1 + 14 * k2 + i] == item_lines(
        deps[k2],
    )[i] by {
        lemma_body_lines_index(deps, k2);
        assert(ls[1 + 14 * k2 + i] == dls[1 + 14 * k2 + i]);
        assert(dls[1 + 14 * k2 + i] == bl[14 * k2 + i]);
    }
    assert forall|k2: int|
        0 <= k2 < deps.len() implies (#[trigger] ls[1 + 14 * k2 + 13] == "  }"@ || ls[1 + 14 * k2
        + 13] == "  },"@) by {
        lemma_body_lines_index(deps, k2);
        assert(ls[1 + 14 * k2 + 13] == bl[14 * k2 + 13]);
    }
}

/// Law: any record list reads back exactly, in order, from the whole
/// object-array document written for it.
#[verifier::spinoff_prover]
#[verifier::rlimit(100)]
pub proof fn lemma_json_round_trip(deps: Seq<RecordView>)
    ensures
        crate::json::json_parse(crate::json::json_render(deps)) == Ok::<
            Seq<RecordView>,
            crate::errors::ErrView,
        >(deps),
{
    reveal_strlit("[]");
    if deps.len() == 0 {
        let t = "[]"@;
        lemma_ws_members('[');
        lemma_ws_members(']');
        assert(trim_start_set(t, ws_pat()) == t);
        assert(trim_end_set(t, ws_pat()) == t);
        assert(trim_ws(t) == t);
        assert(deps =~= Seq::<RecordView>::empty());
        assert(crate::json::json_parse(crate::json::json_render(deps)) == Ok::<
            Seq<RecordView>,
            crate::errors::ErrView,
        >(deps));
    } else {
        let doc = crate::json::json_render(deps);
        let ls = crate::csv::nonblank_lines(doc);
        lemma_json_frame(deps);
        lemma_json_chunks(deps);
        lemma_json_records_all(ls, deps, 0, doc);
        assert(deps.skip(0) =~= deps);
    }
}

/// Filtering a single piece keeps or drops it as the predicate says.
proof fn lemma_filter_single(x: Seq<char>, pred: spec_fn(Seq<char>) -> bool)
    ensures
        seq![x].filter(pred) == if pred(x) {
            seq![x]
        } else {
            Seq::<Seq<char>>::empty()
        },
{
    reveal(Seq::filter);
    let s = seq![x];
    assert(s.drop_last() =~= Seq::<Seq<char>>::empty());
    assert(Seq::<Seq<char>>::empty().filter(pred) == Seq::<Seq<char>>::empty());
    assert(s.last() == x);
    if pred(x) {
        assert(Seq::<Seq<char>>::empty().push(x) =~= s);
    }
}

/// A filter that every element passes keeps the sequence whole.
proof fn lemma_filter_keeps_all(s: Seq<Seq<char>>, pred: spec_fn(Seq<char>) -> bool)
    requires
        forall|i: int| 0 <= i < s.len() ==> pred(#[trigger] s[i]),
    ensures
        s.filter(pred) == s,
    decreases s.len(),
{
    reveal(Seq::filter);
    if s.len() > 0 {
        lemma_filter_keeps_all(s.drop_last(), pred);
        assert(s.drop_last().push(s.last()) =~= s);
    }
}

/// The hex digit of a value below sixteen reads back as that value.
proof fn lemma_hex_roundtrip(d: int)
    requires
        0 <= d < 16,
    ensures
        crate::json::hex_val(crate::json::hex_char(d)) == d,
{
}

/// Escaping distributes over concatenation.
proof fn lemma_escape_concat(a: Seq<char>, b: Seq<char>)
    ensures
        crate::json::escape_text(a + b) == crate::json::escape_text(a)
            + crate::json::escape_text(b),
    decreases b.len(),
{
    if b.len() == 0 {
        assert(a + b =~= a);
        assert(crate::json::escape_text(b) == Seq::<char>::empty());
        assert(crate::json::escape_text(a) + crate::json::escape_text(b)
            =~= crate::json::escape_text(a));
    } else {
        lemma_escape_concat(a, b.drop_last());
        assert((a + b).drop_last() =~= a + b.drop_last());
        assert((a + b).last() == b.last());
        assert(crate::json::escape_text(a + b) == crate::json::escape_text(a + b.drop_last())
            + crate::json::escape_char(b.last()));
        assert(crate::json::escape_text(a) + (crate::json::escape_text(b.drop_last())
            + crate::json::escape_char(b.last())) =~= (crate::json::escape_text(a)
            + crate::json::escape_text(b.drop_last())) + crate::json::escape_char(b.last()));
    }
}

/// Law: un-escaping inverts escaping on every string.
#[verifier::spinoff_prover]
#[verifier::rlimit(100)]
pub proof fn lemma_escape_inverse(s: Seq<char>)
    ensures
        crate::json::unescape_text(crate::json::escape_text(s)) == Some(s),
    decreases s.len(),
{
    if s.len() == 0 {
        assert(crate::json::escape_text(s) == Seq::<char>::empty());
    } else {
        let c = s[0];
        let rest = s.drop_first();
        lemma_escape_inverse(rest);
        assert(s =~= seq![c] + rest);
        lemma_escape_concat(seq![c], rest);
        assert(seq![c].drop_last() =~= Seq::<char>::empty());
        assert(crate::json::escape_text(Seq::<char>::empty()) == Seq::<char>::empty());
        assert(crate::json::escape_text(seq![c]) == crate::json::escape_text(
            seq![c].drop_last(),
        ) + crate::json::escape_char(seq![c].last()));
        assert(Seq::<char>::empty() + crate::json::escape_char(c) =~= crate::json::escape_char(
            c,
        ));
        assert(crate::json::escape_text(seq![c]) == crate::json::escape_char(c));
        let w = crate::json::escape_char(c) + crate::json::escape_text(rest);
        assert(crate::json::escape_text(s) == w);
        let e = crate::json::escape_char(c);
        if c == '"' || c == '\\' || c == '\n' || c == '\r' || c == '\t' || c == '\u{8}' || c
            == '\u{c}' {
            assert(w[0] == '\\');
            assert(w[1] == e[1]);
            assert(crate::json::is_simple_escape(w[1]));
            assert(crate::json::simple_escape_char(w[1]) == c);
            assert(w.subrange(2, w.len() as int) =~= crate::json::escape_text(rest));
            assert(seq![c] + rest =~= s);
        } else if (c as u32) < 32 {
            let uu = c as u32;
            let u = uu as int;
            assert(u >= 0);
            lemma_hex_roundtrip(u / 16);
            lemma_hex_roundtrip(u % 16);
            assert(w[0] == '\\');
            assert(w[1] == 'u');
            assert(!crate::json::is_simple_escape('u'));
            assert(w[2] == '0' && w[3] == '0');
            assert(w[4] == crate::json::hex_char(u / 16));
            assert(w[5] == crate::json::hex_char(u % 16));
            assert(crate::json::hex_val(w[2]) == 0);
            assert(crate::json::hex_quad(w) == (u / 16) * 16 + u % 16);
            assert(crate::json::hex_quad(w) == u);
            assert(w.subrange(6, w.len() as int) =~= crate::json::escape_text(rest));
            vstd::utf8::char_u32_cast(c, uu);
            assert((crate::json::hex_quad(w) as u32) == uu);
            assert((crate::json::hex_quad(w) as u32) as char == c);
            assert(seq![c] + rest =~= s);
        } else {
            assert(e =~= seq![c]);
            assert(w[0] == c);
            assert(c != '\\');
            assert(w.drop_first() =~= crate::json::escape_text(rest));
            assert(seq![c] + rest =~= s);
        }
    }
}

/// Law: a scalar's text reads back as that scalar.
#[verifier::spinoff_prover]
#[verifier::rlimit(100)]
pub proof fn lemma_scalar_inverse(v: crate::json::ScalarView)
    ensures
        crate::json::scalar_of(crate::json::scalar_text(v)) == Some(v),
{
    let t = crate::json::scalar_text(v);
    match v {
        crate::json::ScalarView::Null => {},
        crate::json::ScalarView::Flag(_) => {},
        crate::json::ScalarView::Num(n) => {
            lemma_dec_str_val(n as nat);
            assert(is_digit_char(t[0]));
            if t == seq!['n', 'u', 'l', 'l'] {
                assert(t[0] == 'n');
            }
            if t == seq!['t', 'r', 'u', 'e'] {
                assert(t[0] == 't');
            }
            if t == seq!['f', 'a', 'l', 's', 'e'] {
                assert(t[0] == 'f');
            }
            assert(t[0] != '"');
        },
        crate::json::ScalarView::Text(s) => {
            assert(t[0] == '"');
            assert(t.last() == '"');
            if t == seq!['n', 'u', 'l', 'l'] {
                assert(t[0] == 'n');
            }
            if t == seq!['t', 'r', 'u', 'e'] {
                assert(t[0] == 't');
            }
            if t == seq!['f', 'a', 'l', 's', 'e'] {
                assert(t[0] == 'f');
            }
            assert(t.subrange(1, t.len() - 1) =~= crate::json::escape_text(s));
            lemma_escape_inverse(s);
        },
    }
}


/// Records already in name order, pairwise.
pub open spec fn sorted_by_name(s: Seq<RecordView>) -> bool {
    forall|i: int, j: int|
        0 <= i <= j < s.len() ==> crate::chars::lex_le(#[trigger] s[i].name, #[trigger] s[j].name)
}

/// Law: sorting keeps a sequence that is already in name order — rendering
/// a canonical group re-emits it unchanged.
pub proof fn lemma_sort_sorted(s: Seq<RecordView>)
    requires
        sorted_by_name(s),
    ensures
        crate::record::sort_by_name(s) == s,
    decreases s.len(),
{
    if s.len() == 0 {
        assert(crate::record::sort_by_name(s) =~= s);
    } else {
        let head = s.drop_last();
        let x = s.last();
        assert(forall|i: int, j: int|
            0 <= i <= j < head.len() ==> crate::chars::lex_le(
                #[trigger] head[i].name,
                #[trigger] head[j].name,
            ));
        lemma_sort_sorted(head);
        assert(forall|i: int| 0 <= i < head.len() ==> crate::chars::lex_le(
            #[trigger] head[i].name,
            x.name,
        ));
        crate::record::lemma_insert_by_name_at(head, x, head.len() as int);
        assert(head.insert(head.len() as int, x) =~= s);
    }
}

} // verus!
