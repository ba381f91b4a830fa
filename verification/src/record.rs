//! The canonical record model: one dependency's report entry, its statistics,
//! and its role tag, together with grouping and ordering.

use vstd::prelude::*;

use crate::chars::{
    lex_le, lower_seq, split_sub, trim_end_sub, trim_start_sub, trim_ws, lex_le_exec,
    lower_exec, split_sub_exec, str_to_chars, trim_end_sub_exec, trim_start_sub_exec, trim_ws_exec,
    eq_chars, chars_to_string, push_all,
};
use crate::errors::{AppError, ErrView};
use crate::labels::{Labels, LabelsView};

verus! {

/// A dependency's role in the report: the section it is listed under.
#[derive(Debug, Clone, Copy, PartialEq, Eq, Structural)]
pub enum DependencyKind {
    Normal,
    Development,
    Build,
    Unknown,
}

impl Default for DependencyKind {
    /// The default role is a normal dependency.
    fn default() -> (r: Self)
        ensures
            r == DependencyKind::Normal,
    {
        DependencyKind::Normal
    }
}

/// Popularity statistics of one dependency; either count may be unknown.
#[derive(Debug, Clone, Copy, PartialEq, Eq, Structural)]
pub struct DependencyStats {
    pub stars: Option<u32>,
    pub downloads: Option<u32>,
}

impl Default for DependencyStats {
    /// By default both counts are unknown.
    fn default() -> (r: Self)
        ensures
            r == (DependencyStats { stars: None, downloads: None }),
    {
        DependencyStats { stars: None, downloads: None }
    }
}

/// One dependency's full report entry.
#[derive(Debug)]
pub struct DependencyInfo {
    /// Name of the dependency; non-empty, and the unique key in one report.
    pub name: String,
    /// Free-text description, if known.
    pub description: Option<String>,
    /// Role of the dependency.
    pub dependency_kind: DependencyKind,
    /// Registry page of the dependency, if known.
    pub crate_url: Option<String>,
    /// Label of the upstream source (a code host, a registry, or free text).
    pub source_type: String,
    /// Link to the upstream source, if known.
    pub source_url: Option<String>,
    /// Popularity statistics.
    pub stats: DependencyStats,
    /// True when fetching this dependency's data failed.
    pub failed: bool,
    /// The failure message; meaningful only when `failed` is true.
    pub error_message: Option<String>,
}

/// The mathematical image of a [`DependencyInfo`]: the same fields over
/// character sequences, statistics flattened.
pub struct RecordView {
    pub name: Seq<char>,
    pub description: Option<Seq<char>>,
    pub dependency_kind: DependencyKind,
    pub crate_url: Option<Seq<char>>,
    pub source_type: Seq<char>,
    pub source_url: Option<Seq<char>>,
    pub stars: Option<u32>,
    pub downloads: Option<u32>,
    pub failed: bool,
    pub error_message: Option<Seq<char>>,
}

/// The view of an optional string.
pub open spec fn opt_view(o: Option<String>) -> Option<Seq<char>> {
    match o {
        Some(s) => Some(s@),
        None => None,
    }
}

impl View for DependencyInfo {
    type V = RecordView;

    open spec fn view(&self) -> RecordView {
        RecordView {
            name: self.name@,
            description: opt_view(self.description),
            dependency_kind: self.dependency_kind,
            crate_url: opt_view(self.crate_url),
            source_type: self.source_type@,
            source_url: opt_view(self.source_url),
            stars: self.stats.stars,
            downloads: self.stats.downloads,
            failed: self.failed,
            error_message: opt_view(self.error_message),
        }
    }
}

impl DeepView for DependencyInfo {
    type V = RecordView;

    open spec fn deep_view(&self) -> RecordView {
        self.view()
    }
}

/// A record is well-formed when its name is non-empty and a message is only
/// present on failure.
pub open spec fn record_wf(r: RecordView) -> bool {
    &&& r.name.len() > 0
    &&& (!r.failed ==> r.error_message is None)
}

/// Clone of an optional string, equal to the original.
fn clone_opt_string(o: &Option<String>) -> (r: Option<String>)
    ensures
        opt_view(r) == opt_view(*o),
{
    match o {
        Some(s) => Some(s.clone()),
        None => None,
    }
}

impl Clone for DependencyInfo {
    /// Cloning keeps every field.
    fn clone(&self) -> (r: Self)
        ensures
            r@ == self@,
    {
        DependencyInfo {
            name: self.name.clone(),
            description: clone_opt_string(&self.description),
            dependency_kind: self.dependency_kind,
            crate_url: clone_opt_string(&self.crate_url),
            source_type: self.source_type.clone(),
            source_url: clone_opt_string(&self.source_url),
            stats: self.stats,
            failed: self.failed,
            error_message: clone_opt_string(&self.error_message),
        }
    }
}

impl Default for DependencyInfo {
    /// The empty record: every optional field unknown, kind normal.
    fn default() -> (r: Self)
        ensures
            r@.name == Seq::<char>::empty(),
            r@.description is None,
            r@.dependency_kind == DependencyKind::Normal,
            r@.crate_url is None,
            r@.source_type == Seq::<char>::empty(),
            r@.source_url is None,
            r@.stars is None,
            r@.downloads is None,
            !r@.failed,
            r@.error_message is None,
    {
        DependencyInfo {
            name: String::new(),
            description: None,
            dependency_kind: DependencyKind::Normal,
            crate_url: None,
            source_type: String::new(),
            source_url: None,
            stats: DependencyStats { stars: None, downloads: None },
            failed: false,
            error_message: None,
        }
    }
}

// ---------------------------------------------------------------------------
// Kind labels
// ---------------------------------------------------------------------------

/// The catalog label of a kind.
pub open spec fn kind_label(kind: DependencyKind, l: LabelsView) -> Seq<char> {
    match kind {
        DependencyKind::Normal => l.normal,
        DependencyKind::Development => l.development,
        DependencyKind::Build => l.build,
        DependencyKind::Unknown => l.unknown,
    }
}

/// Decoding of a kind label: trimmed and case-folded, the text must equal
/// one of the four catalog labels; the error carries the folded text.
pub open spec fn kind_from_label(s: Seq<char>, l: LabelsView) -> Result<DependencyKind, Seq<char>> {
    let t = lower_seq(trim_ws(s));
    if t.len() == 0 {
        Err(t)
    } else if t == lower_seq(l.normal) {
        Ok(DependencyKind::Normal)
    } else if t == lower_seq(l.development) {
        Ok(DependencyKind::Development)
    } else if t == lower_seq(l.build) {
        Ok(DependencyKind::Build)
    } else if t == lower_seq(l.unknown) {
        Ok(DependencyKind::Unknown)
    } else {
        Err(t)
    }
}

impl DependencyKind {
    /// The catalog label of this kind.
    pub fn label(&self, labels: &Labels) -> (r: String)
        ensures
            r@ == kind_label(*self, labels@),
    {
        match self {
            DependencyKind::Normal => labels.normal.clone(),
            DependencyKind::Development => labels.development.clone(),
            DependencyKind::Build => labels.build.clone(),
            DependencyKind::Unknown => labels.unknown.clone(),
        }
    }

    /// Reads a kind from its label, matched case-insensitively against the
    /// catalog after trimming.
    pub fn from_str(s: &str, labels: &Labels) -> (r: Result<DependencyKind, AppError>)
        ensures
            match r {
                Ok(k) => kind_from_label(s@, labels@) == Ok::<DependencyKind, Seq<char>>(k),
                Err(e) => kind_from_label(s@, labels@) matches Err(t) && e@
                    == ErrView::InvalidDependencyKind(t),
            },
    {
        let cs = str_to_chars(s);
        let t = lower_exec(&trim_ws_exec(&cs));
        if t.len() == 0 {
            return Err(AppError::InvalidDependencyKind(chars_to_string(&t)));
        }
        if eq_chars(&t, &lower_exec(&str_to_chars(labels.normal.as_str()))) {
            return Ok(DependencyKind::Normal);
        }
        if eq_chars(&t, &lower_exec(&str_to_chars(labels.development.as_str()))) {
            return Ok(DependencyKind::Development);
        }
        if eq_chars(&t, &lower_exec(&str_to_chars(labels.build.as_str()))) {
            return Ok(DependencyKind::Build);
        }
        if eq_chars(&t, &lower_exec(&str_to_chars(labels.unknown.as_str()))) {
            return Ok(DependencyKind::Unknown);
        }
        Err(AppError::InvalidDependencyKind(chars_to_string(&t)))
    }
}


// ---------------------------------------------------------------------------
// Section markers
// ---------------------------------------------------------------------------

/// The icon that decorates a kind's table section marker.
pub open spec fn kind_icon(kind: DependencyKind) -> char {
    match kind {
        DependencyKind::Normal => '\u{1F50D}',
        DependencyKind::Development => '\u{1F527}',
        DependencyKind::Build => '\u{1F528}',
        DependencyKind::Unknown => '\u{2753}',
    }
}

/// The table section marker row of a kind: the icon and the label, followed
/// by four blank cells.
pub open spec fn kind_marker_row(kind: DependencyKind, l: LabelsView) -> Seq<char> {
    seq!['|', ' ', kind_icon(kind), ' ', '|', ' '] + kind_label(kind, l) + seq![
        ' ', '|', ' ', '|', ' ', '|', ' ', '|', ' ', '|',
    ]
}

/// The list sub-heading of a kind.
pub open spec fn kind_subheading(kind: DependencyKind, l: LabelsView) -> Seq<char> {
    seq!['#', '#', ' '] + kind_label(kind, l)
}

/// Decoding of a table section marker row: the second cell names the kind;
/// rows with fewer than two cells are refused with the trimmed row.
pub open spec fn table_header_kind(s: Seq<char>, l: LabelsView) -> Result<DependencyKind, ErrView> {
    let t = trim_ws(s);
    let cols = split_sub(t, seq!['|']);
    if cols.len() < 2 {
        Err(ErrView::InvalidTableHeader(t))
    } else {
        match kind_from_label(cols[1], l) {
            Ok(k) => Ok(k),
            Err(p) => Err(ErrView::InvalidDependencyKind(p)),
        }
    }
}

/// Decoding of a list sub-heading: the text after the heading marks names
/// the kind.
pub open spec fn list_header_kind(s: Seq<char>, l: LabelsView) -> Result<DependencyKind, ErrView> {
    let t = trim_end_sub(trim_start_sub(s, seq!['#', '#', ' ']), seq!['\n']);
    match kind_from_label(t, l) {
        Ok(k) => Ok(k),
        Err(p) => Err(ErrView::InvalidDependencyKind(p)),
    }
}

impl DependencyKind {
    /// Reads a kind from a vector of characters, as [`DependencyKind::from_str`]
    /// does from a string slice.
    pub fn from_chars(v: &Vec<char>, labels: &Labels) -> (r: Result<DependencyKind, AppError>)
        ensures
            match r {
                Ok(k) => kind_from_label(v@, labels@) == Ok::<DependencyKind, Seq<char>>(k),
                Err(e) => kind_from_label(v@, labels@) matches Err(t) && e@
                    == ErrView::InvalidDependencyKind(t),
            },
    {
        let t = lower_exec(&trim_ws_exec(v));
        if t.len() == 0 {
            return Err(AppError::InvalidDependencyKind(chars_to_string(&t)));
        }
        if eq_chars(&t, &lower_exec(&str_to_chars(labels.normal.as_str()))) {
            return Ok(DependencyKind::Normal);
        }
        if eq_chars(&t, &lower_exec(&str_to_chars(labels.development.as_str()))) {
            return Ok(DependencyKind::Development);
        }
        if eq_chars(&t, &lower_exec(&str_to_chars(labels.build.as_str()))) {
            return Ok(DependencyKind::Build);
        }
        if eq_chars(&t, &lower_exec(&str_to_chars(labels.unknown.as_str()))) {
            return Ok(DependencyKind::Unknown);
        }
        Err(AppError::InvalidDependencyKind(chars_to_string(&t)))
    }

    /// The table section marker row of this kind.
    pub fn to_md_table_header(&self, labels: &Labels) -> (r: String)
        ensures
            r@ == kind_marker_row(*self, labels@),
    {
        let mut out: Vec<char> = Vec::new();
        out.push('|');
        out.push(' ');
        match self {
            DependencyKind::Normal => out.push('\u{1F50D}'),
            DependencyKind::Development => out.push('\u{1F527}'),
            DependencyKind::Build => out.push('\u{1F528}'),
            DependencyKind::Unknown => out.push('\u{2753}'),
        }
        out.push(' ');
        out.push('|');
        out.push(' ');
        let label = str_to_chars(self.label(labels).as_str());
        push_all(&mut out, &label);
        out.push(' ');
        out.push('|');
        out.push(' ');
        out.push('|');
        out.push(' ');
        out.push('|');
        out.push(' ');
        out.push('|');
        out.push(' ');
        out.push('|');
        assert(out@ =~= kind_marker_row(*self, labels@));
        chars_to_string(&out)
    }

    /// The list sub-heading of this kind.
    pub fn to_md_list_header(&self, labels: &Labels) -> (r: String)
        ensures
            r@ == kind_subheading(*self, labels@),
    {
        let mut out: Vec<char> = Vec::new();
        out.push('#');
        out.push('#');
        out.push(' ');
        let label = str_to_chars(self.label(labels).as_str());
        push_all(&mut out, &label);
        assert(out@ =~= kind_subheading(*self, labels@));
        chars_to_string(&out)
    }

    /// Reads the kind named by a table section marker row.
    pub fn try_from_table_header(s: &str, labels: &Labels) -> (r: Result<
        DependencyKind,
        AppError,
    >)
        ensures
            match r {
                Ok(k) => table_header_kind(s@, labels@) == Ok::<DependencyKind, ErrView>(k),
                Err(e) => table_header_kind(s@, labels@) matches Err(v) && e@ == v,
            },
    {
        let cs = str_to_chars(s);
        let t = trim_ws_exec(&cs);
        let mut bar: Vec<char> = Vec::new();
        bar.push('|');
        assert(bar@ =~= seq!['|']);
        let cols = split_sub_exec(&t, &bar);
        if cols.len() < 2 {
            return Err(AppError::InvalidTableHeader(chars_to_string(&t)));
        }
        assert(cols@[1]@ == split_sub(t@, seq!['|'])[1]);
        DependencyKind::from_chars(&cols[1], labels)
    }

    /// Reads the kind named by a list sub-heading.
    pub fn try_from_list_header(s: &str, labels: &Labels) -> (r: Result<DependencyKind, AppError>)
        ensures
            match r {
                Ok(k) => list_header_kind(s@, labels@) == Ok::<DependencyKind, ErrView>(k),
                Err(e) => list_header_kind(s@, labels@) matches Err(v) && e@ == v,
            },
    {
        let cs = str_to_chars(s);
        let mut hh: Vec<char> = Vec::new();
        hh.push('#');
        hh.push('#');
        hh.push(' ');
        assert(hh@ =~= seq!['#', '#', ' ']);
        let mut nl: Vec<char> = Vec::new();
        nl.push('\n');
        assert(nl@ =~= seq!['\n']);
        let t = trim_end_sub_exec(&trim_start_sub_exec(&cs, &hh), &nl);
        DependencyKind::from_chars(&t, labels)
    }
}

// ---------------------------------------------------------------------------
// Grouping and ordering
// ---------------------------------------------------------------------------

/// `x` inserted into `s` after every record whose name does not exceed its
/// own: stable insertion into a name-sorted sequence.
pub open spec fn insert_by_name(s: Seq<RecordView>, x: RecordView) -> Seq<RecordView>
    decreases s.len(),
{
    if s.len() > 0 && lex_le(s[0].name, x.name) {
        seq![s[0]] + insert_by_name(s.drop_first(), x)
    } else {
        seq![x] + s
    }
}

/// Stable sort of records by name: each record inserted in turn.
pub open spec fn sort_by_name(s: Seq<RecordView>) -> Seq<RecordView>
    decreases s.len(),
{
    if s.len() == 0 {
        Seq::empty()
    } else {
        insert_by_name(sort_by_name(s.drop_last()), s.last())
    }
}

/// The predicate that keeps the records of one kind.
pub open spec fn kind_pred(kind: DependencyKind) -> spec_fn(RecordView) -> bool {
    |r: RecordView| r.dependency_kind == kind
}

/// The records of one kind, in input order.
pub open spec fn kind_filter(records: Seq<RecordView>, kind: DependencyKind) -> Seq<RecordView> {
    records.filter(kind_pred(kind))
}

/// The records of one kind, sorted by name: the section body of a report.
pub open spec fn group_of(records: Seq<RecordView>, kind: DependencyKind) -> Seq<RecordView> {
    sort_by_name(kind_filter(records, kind))
}

/// Lexicographic comparison of two strings.
fn str_le(a: &String, b: &String) -> (r: bool)
    ensures
        r == lex_le(a@, b@),
{
    let av = str_to_chars(a.as_str());
    let bv = str_to_chars(b.as_str());
    lex_le_exec(&av, &bv)
}

/// Stable insertion lands at the first index whose record's name exceeds
/// the inserted name.
pub proof fn lemma_insert_by_name_at(s: Seq<RecordView>, x: RecordView, p: int)
    requires
        0 <= p <= s.len(),
        forall|i: int| 0 <= i < p ==> lex_le(#[trigger] s[i].name, x.name),
        p < s.len() ==> !lex_le(s[p].name, x.name),
    ensures
        insert_by_name(s, x) == s.insert(p, x),
    decreases p,
{
    if p == 0 {
        assert(insert_by_name(s, x) =~= s.insert(0, x));
    } else {
        lemma_insert_by_name_at(s.drop_first(), x, p - 1);
        assert(forall|i: int|
            0 <= i < p - 1 ==> #[trigger] s.drop_first()[i].name == s[i + 1].name);
        assert(insert_by_name(s, x) == seq![s[0]] + s.drop_first().insert(p - 1, x));
        assert(seq![s[0]] + s.drop_first().insert(p - 1, x) =~= s.insert(p, x));
    }
}

/// Inserts a record into a name-sorted vector, keeping it sorted and placing
/// it after records of equal name.
fn insert_sorted(acc: &mut Vec<DependencyInfo>, x: DependencyInfo)
    ensures
        final(acc).deep_view() == insert_by_name(old(acc).deep_view(), x@),
{
    let mut p: usize = 0;
    while p < acc.len() && str_le(&acc[p].name, &x.name)
        invariant
            p <= acc@.len(),
            forall|i: int| 0 <= i < p ==> lex_le(#[trigger] acc.deep_view()[i].name, x@.name),
        decreases acc@.len() - p,
    {
        p = p + 1;
    }
    proof {
        lemma_insert_by_name_at(acc.deep_view(), x@, p as int);
    }
    let ghost before = acc.deep_view();
    acc.insert(p, x);
    assert(acc.deep_view() =~= before.insert(p as int, x@));
}

/// The records of one kind, sorted by name ascending; ties keep input order.
pub fn take_sort_dependencies(deps: &Vec<DependencyInfo>, kind: &DependencyKind) -> (r: Vec<
    DependencyInfo,
>)
    ensures
        r.deep_view() == group_of(deps.deep_view(), *kind),
{
    let ghost pred = kind_pred(*kind);
    let mut acc: Vec<DependencyInfo> = Vec::new();
    let mut i: usize = 0;
    proof {
        reveal(Seq::filter);
        assert(deps.deep_view().subrange(0, 0) =~= Seq::<RecordView>::empty());
        assert(acc.deep_view() =~= Seq::<RecordView>::empty());
    }
    while i < deps.len()
        invariant
            i <= deps@.len(),
            deps.deep_view().len() == deps@.len(),
            pred == kind_pred(*kind),
            acc.deep_view() == sort_by_name(deps.deep_view().subrange(0, i as int).filter(pred)),
        decreases deps@.len() - i,
    {
        let ghost prefix = deps.deep_view().subrange(0, i as int);
        let ghost next = deps.deep_view().subrange(0, i + 1 as int);
        proof {
            reveal(Seq::filter);
            assert(next.drop_last() =~= prefix);
            assert(next.last() == deps.deep_view()[i as int]);
        }
        if deps[i].dependency_kind == *kind {
            let x = deps[i].clone();
            assert(x@ == deps.deep_view()[i as int]);
            insert_sorted(&mut acc, x);
            proof {
                assert(next.filter(pred) == prefix.filter(pred).push(deps.deep_view()[i as int]));
                assert(sort_by_name(next.filter(pred)) == insert_by_name(
                    sort_by_name(next.filter(pred).drop_last()),
                    next.filter(pred).last(),
                ));
                assert(next.filter(pred).drop_last() =~= prefix.filter(pred));
            }
        } else {
            proof {
                assert(next.filter(pred) == prefix.filter(pred));
            }
        }
        i = i + 1;
    }
    proof {
        assert(deps.deep_view().subrange(0, deps@.len() as int) =~= deps.deep_view());
    }
    acc
}

} // verus!
