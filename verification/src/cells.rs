//! The three compound cell grammars packed into single printable columns:
//! the link cell, the stats cell, and the status cell, each with its exact
//! decoder, plus the six cell texts of one record.

use vstd::prelude::*;

use crate::chars::{
    all_digits, dec_str, digits_val, has_char, is_match_at, remove_char, replace_char, split_sub,
    trim_end_set, trim_set, trim_start_set, trim_ws, chars_to_string, has_char_exec, parse_u32,
    push_all, remove_char_exec, replace_char_exec, split_sub_exec, str_to_chars, subvec,
    trim_set_exec, trim_ws_exec, u32_chars, lemma_split_sub_len, lemma_find_char_occurrence,
    lemma_find_sub_spec, lemma_split_sub_whole,
};
use crate::errors::{AppError, ErrView};
use crate::record::{opt_view, DependencyInfo, RecordView};

verus! {

// ---------------------------------------------------------------------------
// The characters of the grammars
// ---------------------------------------------------------------------------

/// The star marker of the stats cell.
pub open spec fn star_char() -> char {
    '\u{1F31F}'
}

/// The package marker of the stats cell.
pub open spec fn package_char() -> char {
    '\u{1F4E6}'
}

/// The placeholder of a stats cell with neither count.
pub open spec fn placeholder_char() -> char {
    '\u{2753}'
}

/// The success marker of the status cell.
pub open spec fn success_char() -> char {
    '\u{2705}'
}

/// The failure marker of the status cell.
pub open spec fn failure_char() -> char {
    '\u{274C}'
}

/// The characters trimmed from both ends of every compound cell: brackets,
/// parentheses and spaces.
pub open spec fn trim_pat() -> Seq<char> {
    seq!['[', '(', ' ', ')']
}

/// Membership in the trim pattern, spelled out.
pub proof fn lemma_trim_pat_members(c: char)
    ensures
        has_char(trim_pat(), c) <==> (c == '[' || c == '(' || c == ' ' || c == ')'),
{
    if c == '[' {
        assert(trim_pat()[0] == c);
    } else if c == '(' {
        assert(trim_pat()[1] == c);
    } else if c == ' ' {
        assert(trim_pat()[2] == c);
    } else if c == ')' {
        assert(trim_pat()[3] == c);
    }
}

/// The trim pattern as a vector.
fn trim_pat_exec() -> (r: Vec<char>)
    ensures
        r@ == trim_pat(),
{
    let mut r: Vec<char> = Vec::new();
    r.push('[');
    r.push('(');
    r.push(' ');
    r.push(')');
    assert(r@ =~= trim_pat());
    r
}

// ---------------------------------------------------------------------------
// Encoding
// ---------------------------------------------------------------------------

/// The link cell of a label and an optional target: `[label](url)` with a
/// target, the bare label without one.
pub open spec fn link_cell(label: Seq<char>, url: Option<Seq<char>>) -> Seq<char> {
    match url {
        Some(u) => seq!['['] + label + seq![']', '('] + u + seq![')'],
        None => label,
    }
}

/// The stats cell: the starred count when stars are known, else the package
/// count when downloads are known, else the placeholder.  Stars take
/// precedence; a cell never shows both counts.
pub open spec fn stats_cell(stars: Option<u32>, downloads: Option<u32>) -> Seq<char> {
    match (stars, downloads) {
        (Some(s), _) => seq![star_char(), ' '] + dec_str(s as nat),
        (None, Some(d)) => seq![package_char(), ' '] + dec_str(d as nat),
        (None, None) => seq![placeholder_char()],
    }
}

/// The status cell: the success marker, or the failure marker followed by
/// the message (or the word "Failed" when no message is kept).
pub open spec fn status_cell(failed: bool, message: Option<Seq<char>>) -> Seq<char> {
    if !failed {
        seq![success_char()]
    } else {
        seq![failure_char(), ' '] + match message {
            Some(m) => m,
            None => seq!['F', 'a', 'i', 'l', 'e', 'd'],
        }
    }
}

/// The description cell: embedded line breaks become single spaces; a
/// missing description reads "unknown".
pub open spec fn desc_cell(description: Option<Seq<char>>) -> Seq<char> {
    match description {
        Some(d) => replace_char(d, '\n', ' '),
        None => seq!['u', 'n', 'k', 'n', 'o', 'w', 'n'],
    }
}

/// The six cell texts of one record: name, description, registry link,
/// source link, stats, status.
pub open spec fn cell_name(r: RecordView) -> Seq<char> {
    r.name
}

pub open spec fn cell_desc(r: RecordView) -> Seq<char> {
    desc_cell(r.description)
}

pub open spec fn cell_crates(r: RecordView) -> Seq<char> {
    link_cell(r.name, r.crate_url)
}

pub open spec fn cell_source(r: RecordView) -> Seq<char> {
    link_cell(r.source_type, r.source_url)
}

pub open spec fn cell_stats(r: RecordView) -> Seq<char> {
    stats_cell(r.stars, r.downloads)
}

pub open spec fn cell_status(r: RecordView) -> Seq<char> {
    status_cell(r.failed, r.error_message)
}

// ---------------------------------------------------------------------------
// Decoding
// ---------------------------------------------------------------------------

/// A digit string's value as a `u32`, when it has one.
pub open spec fn u32_of(s: Seq<char>) -> Option<u32> {
    if all_digits(s) && s.len() >= 1 && digits_val(s) <= u32::MAX {
        Some(digits_val(s) as u32)
    } else {
        None
    }
}

/// Decoding of a link cell: split on the literal `](`, then trim bracket,
/// parenthesis and space characters from each side.  Never fails; text
/// without `](` is a bare label.
pub open spec fn decode_link(s: Seq<char>) -> (Seq<char>, Option<Seq<char>>) {
    let parts = split_sub(s, seq![']', '(']);
    let label = trim_set(parts[0], trim_pat());
    if parts.len() > 1 {
        (label, Some(trim_set(parts[1], trim_pat())))
    } else {
        (label, None)
    }
}

/// Decoding of a stats cell.  After trimming, the cell is read by which
/// markers it shows: both markers, stars alone, downloads alone, or neither;
/// a marked number that does not read as a `u32` is an error carrying the
/// text it was sought in.
pub open spec fn decode_stats(s: Seq<char>) -> Result<(Option<u32>, Option<u32>), Seq<char>> {
    let t = trim_set(s, trim_pat());
    if has_char(t, star_char()) && has_char(t, package_char()) {
        let u = replace_char(remove_char(t, star_char()), package_char(), '|');
        let parts = split_sub(u, seq!['|']);
        if parts.len() != 2 {
            Err(u)
        } else {
            match (u32_of(trim_ws(parts[0])), u32_of(trim_ws(parts[1]))) {
                (Some(a), Some(b)) => Ok((Some(a), Some(b))),
                _ => Err(u),
            }
        }
    } else if has_char(t, star_char()) {
        let parts = split_sub(t, seq![star_char()]);
        match u32_of(trim_ws(parts[1])) {
            Some(a) => Ok((Some(a), None)),
            None => Err(t),
        }
    } else if has_char(t, package_char()) {
        let parts = split_sub(t, seq![package_char()]);
        match u32_of(trim_ws(parts[1])) {
            Some(b) => Ok((None, Some(b))),
            None => Err(t),
        }
    } else {
        Ok((None, None))
    }
}

/// Decoding of a status cell.  A cell showing the success marker is not
/// failed; one showing the failure marker is failed, with the trimmed
/// trailing text as message (an empty message is kept as none); anything
/// else is an error carrying the trimmed cell.
pub open spec fn decode_status(s: Seq<char>) -> Result<(bool, Option<Seq<char>>), Seq<char>> {
    let t = trim_set(s, trim_pat());
    if has_char(t, success_char()) {
        Ok((false, None))
    } else if has_char(t, failure_char()) {
        let parts = split_sub(t, seq![failure_char()]);
        let m = trim_ws(parts[1]);
        if m.len() == 0 {
            Ok((true, None))
        } else {
            Ok((true, Some(m)))
        }
    } else {
        Err(t)
    }
}

/// Optional text: trimmed, with empty text standing for absence.
pub open spec fn opt_text(s: Seq<char>) -> Option<Seq<char>> {
    let t = trim_ws(s);
    if t.len() == 0 {
        None
    } else {
        Some(t)
    }
}

/// Splitting on a character that occurs yields at least two pieces.
pub proof fn lemma_split_at_char(t: Seq<char>, c: char)
    requires
        has_char(t, c),
    ensures
        split_sub(t, seq![c]).len() >= 2,
{
    lemma_find_char_occurrence(t, c);
    lemma_find_sub_spec(t, seq![c]);
    let i = crate::chars::find_sub(t, seq![c]).unwrap();
    lemma_split_sub_len(t.subrange(i + 1, t.len() as int), seq![c]);
}

// ---------------------------------------------------------------------------
// Executable cell codecs over character vectors
// ---------------------------------------------------------------------------

/// Renders a link cell.
pub fn render_link_chars(label: &Vec<char>, url: &Option<Vec<char>>) -> (r: Vec<char>)
    ensures
        r@ == link_cell(label@, match url { Some(u) => Some(u@), None => None }),
{
    match url {
        Some(u) => {
            let mut out: Vec<char> = Vec::new();
            out.push('[');
            push_all(&mut out, label);
            out.push(']');
            out.push('(');
            push_all(&mut out, u);
            out.push(')');
            assert(out@ =~= seq!['['] + label@ + seq![']', '('] + u@ + seq![')']);
            out
        },
        None => subvec(label, 0, label.len()),
    }
}

/// Renders a stats cell.
pub fn render_stats_chars(stars: Option<u32>, downloads: Option<u32>) -> (r: Vec<char>)
    ensures
        r@ == stats_cell(stars, downloads),
{
    match (stars, downloads) {
        (Some(s), _) => {
            let mut out: Vec<char> = Vec::new();
            out.push('\u{1F31F}');
            out.push(' ');
            let digits = u32_chars(s);
            push_all(&mut out, &digits);
            assert(out@ =~= seq![star_char(), ' '] + dec_str(s as nat));
            out
        },
        (None, Some(d)) => {
            let mut out: Vec<char> = Vec::new();
            out.push('\u{1F4E6}');
            out.push(' ');
            let digits = u32_chars(d);
            push_all(&mut out, &digits);
            assert(out@ =~= seq![package_char(), ' '] + dec_str(d as nat));
            out
        },
        (None, None) => {
            let mut out: Vec<char> = Vec::new();
            out.push('\u{2753}');
            assert(out@ =~= seq![placeholder_char()]);
            out
        },
    }
}

/// Renders a status cell.
pub fn render_status_chars(failed: bool, message: &Option<String>) -> (r: Vec<char>)
    ensures
        r@ == status_cell(failed, opt_view(*message)),
{
    if !failed {
        let mut out: Vec<char> = Vec::new();
        out.push('\u{2705}');
        assert(out@ =~= seq![success_char()]);
        out
    } else {
        let mut out: Vec<char> = Vec::new();
        out.push('\u{274C}');
        out.push(' ');
        match message {
            Some(m) => {
                let mv = str_to_chars(m.as_str());
                push_all(&mut out, &mv);
                assert(out@ =~= seq![failure_char(), ' '] + m@);
            },
            None => {
                out.push('F');
                out.push('a');
                out.push('i');
                out.push('l');
                out.push('e');
                out.push('d');
                assert(out@ =~= seq![failure_char(), ' '] + seq!['F', 'a', 'i', 'l', 'e', 'd']);
            },
        }
        out
    }
}

/// Renders a description cell.
pub fn render_desc_chars(description: &Option<String>) -> (r: Vec<char>)
    ensures
        r@ == desc_cell(opt_view(*description)),
{
    match description {
        Some(d) => {
            let dv = str_to_chars(d.as_str());
            replace_char_exec(&dv, '\n', ' ')
        },
        None => {
            let mut out: Vec<char> = Vec::new();
            out.push('u');
            out.push('n');
            out.push('k');
            out.push('n');
            out.push('o');
            out.push('w');
            out.push('n');
            assert(out@ =~= seq!['u', 'n', 'k', 'n', 'o', 'w', 'n']);
            out
        },
    }
}

/// Decodes a link cell.
pub fn decode_link_chars(s: &Vec<char>) -> (r: (Vec<char>, Option<Vec<char>>))
    ensures
        ({
            let (label, url) = decode_link(s@);
            r.0@ == label && (match r.1 {
                Some(u) => url == Some(u@),
                None => url is None,
            })
        }),
{
    let mut sep: Vec<char> = Vec::new();
    sep.push(']');
    sep.push('(');
    assert(sep@ =~= seq![']', '(']);
    let pat = trim_pat_exec();
    let parts = split_sub_exec(s, &sep);
    proof {
        lemma_split_sub_len(s@, seq![']', '(']);
    }
    let label = trim_set_exec(&parts[0], &pat);
    if parts.len() > 1 {
        let url = trim_set_exec(&parts[1], &pat);
        (label, Some(url))
    } else {
        (label, None)
    }
}

/// Decodes a stats cell; the error carries the text the numbers were sought
/// in.
pub fn decode_stats_chars(s: &Vec<char>) -> (r: Result<(Option<u32>, Option<u32>), Vec<char>>)
    ensures
        match r {
            Ok(p) => decode_stats(s@) == Ok::<(Option<u32>, Option<u32>), Seq<char>>(p),
            Err(e) => decode_stats(s@) matches Err(t) && e@ == t,
        },
{
    let pat = trim_pat_exec();
    let t = trim_set_exec(s, &pat);
    let star = '\u{1F31F}';
    let package = '\u{1F4E6}';
    if has_char_exec(&t, star) && has_char_exec(&t, package) {
        let u = replace_char_exec(&remove_char_exec(&t, star), package, '|');
        let mut bar: Vec<char> = Vec::new();
        bar.push('|');
        assert(bar@ =~= seq!['|']);
        let parts = split_sub_exec(&u, &bar);
        if parts.len() != 2 {
            return Err(u);
        }
        let a = parse_u32(&trim_ws_exec(&parts[0]));
        let b = parse_u32(&trim_ws_exec(&parts[1]));
        match (a, b) {
            (Some(x), Some(y)) => Ok((Some(x), Some(y))),
            _ => Err(u),
        }
    } else if has_char_exec(&t, star) {
        let mut sepv: Vec<char> = Vec::new();
        sepv.push(star);
        assert(sepv@ =~= seq![star_char()]);
        let parts = split_sub_exec(&t, &sepv);
        proof {
            lemma_split_at_char(t@, star_char());
        }
        match parse_u32(&trim_ws_exec(&parts[1])) {
            Some(x) => Ok((Some(x), None)),
            None => Err(t),
        }
    } else if has_char_exec(&t, package) {
        let mut sepv: Vec<char> = Vec::new();
        sepv.push(package);
        assert(sepv@ =~= seq![package_char()]);
        let parts = split_sub_exec(&t, &sepv);
        proof {
            lemma_split_at_char(t@, package_char());
        }
        match parse_u32(&trim_ws_exec(&parts[1])) {
            Some(y) => Ok((None, Some(y))),
            None => Err(t),
        }
    } else {
        Ok((None, None))
    }
}

/// Decodes a status cell; the error carries the trimmed cell.
pub fn decode_status_chars(s: &Vec<char>) -> (r: Result<(bool, Option<Vec<char>>), Vec<char>>)
    ensures
        match r {
            Ok(p) => ({
                let dec = decode_status(s@);
                dec matches Ok(q) && q.0 == p.0 && (match p.1 {
                    Some(m) => q.1 == Some(m@),
                    None => q.1 is None,
                })
            }),
            Err(e) => decode_status(s@) matches Err(t) && e@ == t,
        },
{
    let pat = trim_pat_exec();
    let t = trim_set_exec(s, &pat);
    let success = '\u{2705}';
    let failure = '\u{274C}';
    if has_char_exec(&t, success) {
        Ok((false, None))
    } else if has_char_exec(&t, failure) {
        let mut sepv: Vec<char> = Vec::new();
        sepv.push(failure);
        assert(sepv@ =~= seq![failure_char()]);
        let parts = split_sub_exec(&t, &sepv);
        proof {
            lemma_split_at_char(t@, failure_char());
        }
        let m = trim_ws_exec(&parts[1]);
        if m.len() == 0 {
            Ok((true, None))
        } else {
            Ok((true, Some(m)))
        }
    } else {
        Err(t)
    }
}

// ---------------------------------------------------------------------------
// Public cell codecs over strings
// ---------------------------------------------------------------------------

impl DependencyInfo {
    /// Reads a link cell into its label and optional target.  This decoder
    /// never fails: text without the link shape is a bare label.
    pub fn parse_md_link(s: &str) -> (r: Result<(String, Option<String>), AppError>)
        ensures
            r matches Ok(p) && ({
                let (label, url) = decode_link(s@);
                p.0@ == label && (match p.1 {
                    Some(u) => url == Some(u@),
                    None => url is None,
                })
            }),
    {
        let cs = str_to_chars(s);
        let (label, url) = decode_link_chars(&cs);
        let label_s = chars_to_string(&label);
        match url {
            Some(u) => Ok((label_s, Some(chars_to_string(&u)))),
            None => Ok((label_s, None)),
        }
    }

    /// Reads a stats cell into its optional star and download counts.
    pub fn parse_stats(s: &str) -> (r: Result<(Option<u32>, Option<u32>), AppError>)
        ensures
            match r {
                Ok(p) => decode_stats(s@) == Ok::<(Option<u32>, Option<u32>), Seq<char>>(p),
                Err(e) => decode_stats(s@) matches Err(t) && e@ == ErrView::InvalidStats(t),
            },
    {
        let cs = str_to_chars(s);
        match decode_stats_chars(&cs) {
            Ok(p) => Ok(p),
            Err(t) => Err(AppError::InvalidStats(chars_to_string(&t))),
        }
    }

    /// Reads a status cell into the failure flag and optional message.
    pub fn parse_status(s: &str) -> (r: Result<(bool, Option<String>), AppError>)
        ensures
            match r {
                Ok(p) => ({
                    let dec = decode_status(s@);
                    dec matches Ok(q) && q.0 == p.0 && (match p.1 {
                        Some(m) => q.1 == Some(m@),
                        None => q.1 is None,
                    })
                }),
                Err(e) => decode_status(s@) matches Err(t) && e@ == ErrView::InvalidStatus(t),
            },
    {
        let cs = str_to_chars(s);
        match decode_status_chars(&cs) {
            Ok((failed, m)) => match m {
                Some(mv) => Ok((failed, Some(chars_to_string(&mv)))),
                None => Ok((failed, None)),
            },
            Err(t) => Err(AppError::InvalidStatus(chars_to_string(&t))),
        }
    }

    /// Reads optional text: trimmed, with empty text standing for absence.
    pub fn option_from_str(s: &str) -> (r: Result<Option<String>, AppError>)
        ensures
            r matches Ok(p) && (match p {
                Some(v) => opt_text(s@) == Some(v@),
                None => opt_text(s@) is None,
            }),
    {
        let cs = str_to_chars(s);
        let t = trim_ws_exec(&cs);
        if t.len() == 0 {
            Ok(None)
        } else {
            Ok(Some(chars_to_string(&t)))
        }
    }

    /// The six cell texts of this record: name, description, registry link,
    /// source link, stats, status.
    pub fn to_strings(&self) -> (r: (String, String, String, String, String, String))
        ensures
            r.0@ == cell_name(self@),
            r.1@ == cell_desc(self@),
            r.2@ == cell_crates(self@),
            r.3@ == cell_source(self@),
            r.4@ == cell_stats(self@),
            r.5@ == cell_status(self@),
    {
        let name = self.name.clone();
        let desc = chars_to_string(&render_desc_chars(&self.description));
        let name_chars = str_to_chars(self.name.as_str());
        let crate_url_chars = match &self.crate_url {
            Some(u) => Some(str_to_chars(u.as_str())),
            None => None,
        };
        let crates_link = chars_to_string(&render_link_chars(&name_chars, &crate_url_chars));
        let source_chars = str_to_chars(self.source_type.as_str());
        let source_url_chars = match &self.source_url {
            Some(u) => Some(str_to_chars(u.as_str())),
            None => None,
        };
        let source_link = chars_to_string(&render_link_chars(&source_chars, &source_url_chars));
        let stats = chars_to_string(&render_stats_chars(self.stats.stars, self.stats.downloads));
        let status = chars_to_string(&render_status_chars(self.failed, &self.error_message));
        (name, desc, crates_link, source_link, stats, status)
    }
}


// ---------------------------------------------------------------------------
// Inversion: decoding recovers what encoding wrote
// ---------------------------------------------------------------------------

/// A character occurs in a concatenation exactly when it occurs in a part.
pub proof fn lemma_has_char_concat(a: Seq<char>, b: Seq<char>, c: char)
    ensures
        has_char(a + b, c) <==> (has_char(a, c) || has_char(b, c)),
{
    if has_char(a + b, c) {
        let i = choose|i: int| 0 <= i < (a + b).len() && (a + b)[i] == c;
        if i < a.len() {
            assert(a[i] == c);
        } else {
            assert(b[i - a.len()] == c);
        }
    }
    if has_char(a, c) {
        let i = choose|i: int| 0 <= i < a.len() && a[i] == c;
        assert((a + b)[i] == c);
    }
    if has_char(b, c) {
        let i = choose|i: int| 0 <= i < b.len() && b[i] == c;
        assert((a + b)[a.len() + i] == c);
    }
}

/// Text usable as a link label or target: free of the `](` separator, and
/// clean of bracket, parenthesis and space characters at both ends.
pub open spec fn link_text_clean(s: Seq<char>) -> bool {
    &&& forall|j: int| !is_match_at(s, seq![']', '('], j)
    &&& s.len() > 0 ==> !has_char(trim_pat(), s[0])
    &&& s.len() > 0 ==> !has_char(trim_pat(), s.last())
}

/// Text usable as a failure message: non-empty, free of the status markers,
/// and clean of whitespace and cell-trim characters at its ends.
pub open spec fn message_clean(m: Seq<char>) -> bool {
    &&& m.len() > 0
    &&& !has_char(m, success_char())
    &&& !has_char(m, failure_char())
    &&& !has_char(crate::chars::ws_pat(), m[0])
    &&& !has_char(crate::chars::ws_pat(), m.last())
    &&& !has_char(trim_pat(), m.last())
}

/// Trimming the cell pattern from `[` + label gives the label back.
proof fn lemma_trim_bracket_label(label: Seq<char>)
    requires
        label.len() > 0 ==> !has_char(trim_pat(), label[0]),
        label.len() > 0 ==> !has_char(trim_pat(), label.last()),
    ensures
        trim_set(seq!['['] + label, trim_pat()) == label,
{
    let p0 = seq!['['] + label;
    lemma_trim_pat_members('[');
    assert(p0[0] == '[');
    assert(p0.drop_first() =~= label);
    if label.len() > 0 {
        assert(trim_start_set(label, trim_pat()) == label);
        assert(trim_end_set(label, trim_pat()) == label);
    } else {
        assert(trim_start_set(label, trim_pat()) == label);
        assert(trim_end_set(label, trim_pat()) == label);
    }
}

/// Trimming the cell pattern from url + `)` gives the target back.
proof fn lemma_trim_url_paren(u: Seq<char>)
    requires
        u.len() > 0 ==> !has_char(trim_pat(), u[0]),
        u.len() > 0 ==> !has_char(trim_pat(), u.last()),
    ensures
        trim_set(u + seq![')'], trim_pat()) == u,
{
    let p1 = u + seq![')'];
    lemma_trim_pat_members(')');
    if u.len() == 0 {
        assert(p1 =~= seq![')']);
        assert(p1[0] == ')');
        assert(p1.drop_first() =~= Seq::<char>::empty());
        assert(trim_start_set(p1, trim_pat()) == trim_start_set(
            Seq::<char>::empty(),
            trim_pat(),
        ));
        assert(trim_start_set(Seq::<char>::empty(), trim_pat()) == Seq::<char>::empty());
        assert(trim_end_set(Seq::<char>::empty(), trim_pat()) == Seq::<char>::empty());
    } else {
        assert(p1[0] == u[0]);
        assert(trim_start_set(p1, trim_pat()) == p1);
        assert(p1.last() == ')');
        assert(p1.drop_last() =~= u);
        assert(trim_end_set(p1, trim_pat()) == trim_end_set(u, trim_pat()));
        assert(trim_end_set(u, trim_pat()) == u);
    }
}

/// Law: a link cell decodes to the label and target it was rendered from,
/// whenever both are clean of the cell's structural characters.
pub proof fn lemma_link_cell_inverse(label: Seq<char>, url: Option<Seq<char>>)
    requires
        link_text_clean(label),
        url matches Some(u) ==> link_text_clean(u),
    ensures
        decode_link(link_cell(label, url)) == (label, url),
{
    let sep = seq![']', '('];
    match url {
        None => {
            lemma_find_sub_spec(label, sep);
            if crate::chars::find_sub(label, sep) is Some {
                let i = crate::chars::find_sub(label, sep).unwrap();
                assert(is_match_at(label, sep, i));
            }
            lemma_split_sub_whole(label, sep);
            assert(split_sub(label, sep)[0] == label);
            assert(trim_start_set(label, trim_pat()) == label);
            assert(trim_end_set(label, trim_pat()) == label);
        },
        Some(u) => {
            let p0 = seq!['['] + label;
            let p1 = u + seq![')'];
            let s = link_cell(label, url);
            assert(s =~= p0 + sep + p1);
            assert forall|j: int| !is_match_at(p0, sep, j) by {
                if is_match_at(p0, sep, j) {
                    assert(p0.subrange(j, j + 2)[0] == p0[j]);
                    assert(p0.subrange(j, j + 2)[1] == p0[j + 1]);
                    if j == 0 {
                        assert(p0[0] == '[');
                    } else {
                        assert(p0[j] == label[j - 1]);
                        assert(p0[j + 1] == label[j]);
                        assert(label.subrange(j - 1, j + 1) =~= sep);
                        assert(is_match_at(label, sep, j - 1));
                    }
                }
            }
            assert forall|j: int| !is_match_at(p1, sep, j) by {
                if is_match_at(p1, sep, j) {
                    assert(p1.subrange(j, j + 2)[0] == p1[j]);
                    assert(p1.subrange(j, j + 2)[1] == p1[j + 1]);
                    if j + 2 <= u.len() {
                        assert(u.subrange(j, j + 2) =~= sep);
                        assert(is_match_at(u, sep, j));
                    } else {
                        assert(p1[j + 1] == ')');
                    }
                }
            }
            crate::chars::lemma_sep_at_boundary_two(p0, ']', '(');
            crate::chars::lemma_sep_at_boundary_two(p1, ']', '(');
            let pieces = seq![p0, p1];
            assert(pieces[0] == p0 && pieces[1] == p1);
            assert(forall|k: int|
                0 <= k < pieces.len() ==> crate::chars::sep_at_boundary(#[trigger] pieces[k], sep));
            crate::chars::lemma_split_join(pieces, sep);
            assert(pieces.drop_first() =~= seq![p1]);
            assert(crate::chars::join_sub(seq![p1], sep) == p1);
            assert(crate::chars::join_sub(pieces, sep) == p0 + sep + p1);
            assert(split_sub(s, sep) == pieces);
            lemma_trim_bracket_label(label);
            lemma_trim_url_paren(u);
        },
    }
}

/// Digit characters are not among the cell-trim, whitespace, separator or
/// marker characters.
proof fn lemma_digit_char_plain(c: char)
    requires
        crate::chars::is_digit_char(c),
    ensures
        !has_char(trim_pat(), c),
        !has_char(crate::chars::ws_pat(), c),
        c != star_char(),
        c != package_char(),
        c != '|',
{
    lemma_trim_pat_members(c);
    if has_char(crate::chars::ws_pat(), c) {
        let i = choose|i: int|
            0 <= i < crate::chars::ws_pat().len() && crate::chars::ws_pat()[i] == c;
    }
}

/// The tail of a marked count — a space and the numeral — trimmed of
/// whitespace is the numeral.
proof fn lemma_trim_marked_tail(n: nat)
    ensures
        trim_ws(seq![' '] + dec_str(n)) == dec_str(n),
{
    let tail = seq![' '] + dec_str(n);
    crate::chars::lemma_dec_str_val(n);
    assert(crate::chars::ws_pat()[0] == ' ');
    assert(has_char(crate::chars::ws_pat(), ' '));
    assert(tail[0] == ' ');
    assert(tail.drop_first() =~= dec_str(n));
    lemma_digit_char_plain(dec_str(n)[0]);
    lemma_digit_char_plain(dec_str(n).last());
    assert(trim_start_set(tail, crate::chars::ws_pat()) == trim_start_set(
        dec_str(n),
        crate::chars::ws_pat(),
    ));
    assert(trim_start_set(dec_str(n), crate::chars::ws_pat()) == dec_str(n));
    assert(trim_end_set(dec_str(n), crate::chars::ws_pat()) == dec_str(n));
}

/// A marked count cell `marker numeral`, as one sequence.
proof fn lemma_marked_cell_parts(marker: char, n: nat)
    requires
        marker == star_char() || marker == package_char(),
    ensures
        trim_set(seq![marker, ' '] + dec_str(n), trim_pat()) == seq![marker, ' '] + dec_str(n),
        split_sub(seq![marker, ' '] + dec_str(n), seq![marker]) == seq![
            Seq::<char>::empty(),
            seq![' '] + dec_str(n),
        ],
        has_char(seq![marker, ' '] + dec_str(n), marker),
        !has_char(seq![' '] + dec_str(n), marker),
{
    let t = seq![marker, ' '] + dec_str(n);
    let tail = seq![' '] + dec_str(n);
    crate::chars::lemma_dec_str_val(n);
    lemma_trim_pat_members(marker);
    assert(t[0] == marker);
    assert(has_char(t, marker));
    lemma_digit_char_plain(t.last());
    assert(trim_start_set(t, trim_pat()) == t);
    assert(trim_end_set(t, trim_pat()) == t);
    assert forall|i: int| 0 <= i < tail.len() implies tail[i] != marker by {
        if i == 0 {
        } else {
            lemma_digit_char_plain(tail[i]);
        }
    }
    assert(!has_char(tail, marker));
    crate::chars::lemma_sep_at_boundary_char(Seq::<char>::empty(), marker);
    crate::chars::lemma_sep_at_boundary_char(tail, marker);
    let pieces = seq![Seq::<char>::empty(), tail];
    assert(pieces[0] == Seq::<char>::empty() && pieces[1] == tail);
    assert(forall|k: int|
        0 <= k < pieces.len() ==> crate::chars::sep_at_boundary(
            #[trigger] pieces[k],
            seq![marker],
        ));
    crate::chars::lemma_split_join(pieces, seq![marker]);
    assert(pieces.drop_first() =~= seq![tail]);
    assert(crate::chars::join_sub(seq![tail], seq![marker]) == tail);
    assert(crate::chars::join_sub(pieces, seq![marker]) =~= t);
}

/// Law: a stats cell decodes to what it was rendered from, with downloads
/// dropped when stars are present — the cell shows one count only.
pub proof fn lemma_stats_cell_inverse(stars: Option<u32>, downloads: Option<u32>)
    ensures
        decode_stats(stats_cell(stars, downloads)) == Ok::<_, Seq<char>>(
            match (stars, downloads) {
                (Some(s), _) => (Some(s), None::<u32>),
                (None, Some(d)) => (None::<u32>, Some(d)),
                (None, None) => (None::<u32>, None::<u32>),
            },
        ),
{
    match (stars, downloads) {
        (Some(s), _) => {
            lemma_marked_cell_parts(star_char(), s as nat);
            crate::chars::lemma_dec_str_val(s as nat);
            let t = seq![star_char(), ' '] + dec_str(s as nat);
            let tail = seq![' '] + dec_str(s as nat);
            assert forall|i: int| 0 <= i < t.len() implies t[i] != package_char() by {
                if i >= 2 {
                    assert(t[i] == dec_str(s as nat)[i - 2]);
                    lemma_digit_char_plain(t[i]);
                }
            }
            assert(!has_char(t, package_char()));
            lemma_trim_marked_tail(s as nat);
            assert(u32_of(dec_str(s as nat)) == Some(s));
            assert(split_sub(t, seq![star_char()])[1] == tail);
        },
        (None, Some(d)) => {
            lemma_marked_cell_parts(package_char(), d as nat);
            crate::chars::lemma_dec_str_val(d as nat);
            let t = seq![package_char(), ' '] + dec_str(d as nat);
            let tail = seq![' '] + dec_str(d as nat);
            assert forall|i: int| 0 <= i < t.len() implies t[i] != star_char() by {
                if i >= 2 {
                    assert(t[i] == dec_str(d as nat)[i - 2]);
                    lemma_digit_char_plain(t[i]);
                }
            }
            assert(!has_char(t, star_char()));
            lemma_trim_marked_tail(d as nat);
            assert(u32_of(dec_str(d as nat)) == Some(d));
            assert(split_sub(t, seq![package_char()])[1] == tail);
        },
        (None, None) => {
            let t = seq![placeholder_char()];
            lemma_trim_pat_members(placeholder_char());
            assert(t[0] == placeholder_char() && t.last() == placeholder_char());
            assert(trim_start_set(t, trim_pat()) == t);
            assert(trim_end_set(t, trim_pat()) == t);
            assert(!has_char(t, star_char()));
            assert(!has_char(t, package_char()));
        },
    }
}

/// Law: a status cell decodes to the flag and message it was rendered from.
/// A failed record must carry a clean message: a failure without one is
/// rendered with the fixed word "Failed", which reads back as that message.
pub proof fn lemma_status_cell_inverse(failed: bool, message: Option<Seq<char>>)
    requires
        failed ==> (message matches Some(m) && message_clean(m)),
        !failed ==> message is None,
    ensures
        decode_status(status_cell(failed, message)) == Ok::<_, Seq<char>>((failed, message)),
{
    if !failed {
        let t = seq![success_char()];
        lemma_trim_pat_members(success_char());
        assert(t[0] == success_char() && t.last() == success_char());
        assert(trim_start_set(t, trim_pat()) == t);
        assert(trim_end_set(t, trim_pat()) == t);
        assert(has_char(t, success_char()));
    } else {
        let m = message.unwrap();
        let t = seq![failure_char(), ' '] + m;
        let tail = seq![' '] + m;
        lemma_trim_pat_members(failure_char());
        assert(t[0] == failure_char());
        assert(t.last() == m.last());
        assert(trim_start_set(t, trim_pat()) == t);
        assert(trim_end_set(t, trim_pat()) == t);
        assert forall|i: int| 0 <= i < t.len() implies t[i] != success_char() by {
            if i >= 2 {
                assert(t[i] == m[i - 2]);
            }
        }
        assert(!has_char(t, success_char()));
        assert(has_char(t, failure_char()));
        assert forall|i: int| 0 <= i < tail.len() implies tail[i] != failure_char() by {
            if i >= 1 {
                assert(tail[i] == m[i - 1]);
            }
        }
        assert(!has_char(tail, failure_char()));
        crate::chars::lemma_sep_at_boundary_char(Seq::<char>::empty(), failure_char());
        crate::chars::lemma_sep_at_boundary_char(tail, failure_char());
        let pieces = seq![Seq::<char>::empty(), tail];
        assert(pieces[0] == Seq::<char>::empty() && pieces[1] == tail);
        assert(forall|k: int|
            0 <= k < pieces.len() ==> crate::chars::sep_at_boundary(
                #[trigger] pieces[k],
                seq![failure_char()],
            ));
        crate::chars::lemma_split_join(pieces, seq![failure_char()]);
        assert(pieces.drop_first() =~= seq![tail]);
        assert(crate::chars::join_sub(seq![tail], seq![failure_char()]) == tail);
        assert(crate::chars::join_sub(pieces, seq![failure_char()]) =~= t);
        assert(split_sub(t, seq![failure_char()])[1] == tail);
        assert(has_char(crate::chars::ws_pat(), ' '));
        assert(tail[0] == ' ');
        assert(tail.drop_first() =~= m);
        assert(trim_start_set(tail, crate::chars::ws_pat()) == trim_start_set(
            m,
            crate::chars::ws_pat(),
        ));
        assert(trim_start_set(m, crate::chars::ws_pat()) == m);
        assert(trim_end_set(m, crate::chars::ws_pat()) == m);
        assert(trim_ws(tail) == m);
    }
}

} // verus!
