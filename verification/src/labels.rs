//! The message catalog threaded through every render, parse, detect and
//! convert call: the section labels, column names and title of one locale.
//! Decoding matches against the catalog that is passed in, so a report
//! written under one catalog need not read back under another.

use vstd::prelude::*;

use crate::chars::{has_char, lower_seq, trim_ws};
use vstd::string::StringExecFns;

verus! {

/// The localized text a report uses: four kind labels, seven column names,
/// and the list title.
#[derive(Debug)]
pub struct Labels {
    /// Label of the normal-dependency section.
    pub normal: String,
    /// Label of the development-dependency section.
    pub development: String,
    /// Label of the build-dependency section.
    pub build: String,
    /// Label of the unknown-dependency section.
    pub unknown: String,
    /// Column name of the dependency name.
    pub col_name: String,
    /// Column name of the description.
    pub col_description: String,
    /// Column name of the dependency kind (delimited form only).
    pub col_kind: String,
    /// Column name of the registry link.
    pub col_crates_link: String,
    /// Column name of the source link.
    pub col_source_link: String,
    /// Column name of the statistics cell.
    pub col_stats: String,
    /// Column name of the status cell.
    pub col_status: String,
    /// Title line of the decorated list.
    pub title: String,
}

/// The mathematical image of a [`Labels`] value.
pub struct LabelsView {
    pub normal: Seq<char>,
    pub development: Seq<char>,
    pub build: Seq<char>,
    pub unknown: Seq<char>,
    pub col_name: Seq<char>,
    pub col_description: Seq<char>,
    pub col_kind: Seq<char>,
    pub col_crates_link: Seq<char>,
    pub col_source_link: Seq<char>,
    pub col_stats: Seq<char>,
    pub col_status: Seq<char>,
    pub title: Seq<char>,
}

impl View for Labels {
    type V = LabelsView;

    open spec fn view(&self) -> LabelsView {
        LabelsView {
            normal: self.normal@,
            development: self.development@,
            build: self.build@,
            unknown: self.unknown@,
            col_name: self.col_name@,
            col_description: self.col_description@,
            col_kind: self.col_kind@,
            col_crates_link: self.col_crates_link@,
            col_source_link: self.col_source_link@,
            col_stats: self.col_stats@,
            col_status: self.col_status@,
            title: self.title@,
        }
    }
}

/// One label is usable in every format: non-empty, free of line breaks and
/// of the table and delimited-form separators, and already trimmed.
pub open spec fn label_ok(s: Seq<char>) -> bool {
    &&& s.len() > 0
    &&& !has_char(s, '\n')
    &&& !has_char(s, '\r')
    &&& !has_char(s, '|')
    &&& !has_char(s, ',')
    &&& trim_ws(s) == s
}

/// A catalog is well-formed when every label is usable and the four kind
/// labels stay distinct under case folding.
pub open spec fn labels_wf(l: LabelsView) -> bool {
    &&& label_ok(l.normal)
    &&& label_ok(l.development)
    &&& label_ok(l.build)
    &&& label_ok(l.unknown)
    &&& label_ok(l.col_name)
    &&& label_ok(l.col_description)
    &&& label_ok(l.col_kind)
    &&& label_ok(l.col_crates_link)
    &&& label_ok(l.col_source_link)
    &&& label_ok(l.col_stats)
    &&& label_ok(l.col_status)
    &&& label_ok(l.title)
    &&& lower_seq(l.normal) != lower_seq(l.development)
    &&& lower_seq(l.normal) != lower_seq(l.build)
    &&& lower_seq(l.normal) != lower_seq(l.unknown)
    &&& lower_seq(l.development) != lower_seq(l.build)
    &&& lower_seq(l.development) != lower_seq(l.unknown)
    &&& lower_seq(l.build) != lower_seq(l.unknown)
}

/// The English catalog's image.
pub open spec fn english_view() -> LabelsView {
    LabelsView {
        normal: "Normal"@,
        development: "Development"@,
        build: "Build"@,
        unknown: "Unknown"@,
        col_name: "Name"@,
        col_description: "Description"@,
        col_kind: "Kind"@,
        col_crates_link: "Crates Link"@,
        col_source_link: "Source Link"@,
        col_stats: "Stats"@,
        col_status: "Status"@,
        title: "Dependencies"@,
    }
}

impl Labels {
    /// The English catalog.
    pub fn english() -> (r: Labels)
        ensures
            r@.normal == "Normal"@,
            r@.development == "Development"@,
            r@.build == "Build"@,
            r@.unknown == "Unknown"@,
            r@.col_name == "Name"@,
            r@.col_description == "Description"@,
            r@.col_kind == "Kind"@,
            r@.col_crates_link == "Crates Link"@,
            r@.col_source_link == "Source Link"@,
            r@.col_stats == "Stats"@,
            r@.col_status == "Status"@,
            r@.title == "Dependencies"@,
            r@ == english_view(),
    {
        Labels {
            normal: String::from_str("Normal"),
            development: String::from_str("Development"),
            build: String::from_str("Build"),
            unknown: String::from_str("Unknown"),
            col_name: String::from_str("Name"),
            col_description: String::from_str("Description"),
            col_kind: String::from_str("Kind"),
            col_crates_link: String::from_str("Crates Link"),
            col_source_link: String::from_str("Source Link"),
            col_stats: String::from_str("Stats"),
            col_status: String::from_str("Status"),
            title: String::from_str("Dependencies"),
        }
    }
}


/// One label of the English catalog is usable.
proof fn lemma_label_ok_one(s: Seq<char>)
    requires
        s.len() > 0,
        forall|i: int|
            0 <= i < s.len() ==> (#[trigger] s[i] != '\n' && s[i] != '\r' && s[i] != '|' && s[i]
                != ',' && s[i] != '\t'),
        s[0] != ' ',
        s.last() != ' ',
    ensures
        label_ok(s),
{
    assert(!has_char(s, '\n'));
    assert(!has_char(s, '\r'));
    assert(!has_char(s, '|'));
    assert(!has_char(s, ','));
    assert(!has_char(crate::chars::ws_pat(), s[0])) by {
        if has_char(crate::chars::ws_pat(), s[0]) {
            let i = choose|i: int|
                0 <= i < crate::chars::ws_pat().len() && crate::chars::ws_pat()[i] == s[0];
        }
    }
    assert(!has_char(crate::chars::ws_pat(), s.last())) by {
        if has_char(crate::chars::ws_pat(), s.last()) {
            let i = choose|i: int|
                0 <= i < crate::chars::ws_pat().len() && crate::chars::ws_pat()[i] == s.last();
        }
    }
    assert(crate::chars::trim_start_set(s, crate::chars::ws_pat()) == s);
    assert(crate::chars::trim_end_set(s, crate::chars::ws_pat()) == s);
}

/// Law: the English catalog is well-formed, so the laws stated of
/// well-formed catalogs hold of a catalog the library actually offers.
#[verifier::spinoff_prover]
#[verifier::rlimit(100)]
pub proof fn lemma_english_wf()
    ensures
        labels_wf(english_view()),
{
    reveal_strlit("Normal");
    reveal_strlit("Development");
    reveal_strlit("Build");
    reveal_strlit("Unknown");
    reveal_strlit("Name");
    reveal_strlit("Description");
    reveal_strlit("Kind");
    reveal_strlit("Crates Link");
    reveal_strlit("Source Link");
    reveal_strlit("Stats");
    reveal_strlit("Status");
    reveal_strlit("Dependencies");
    lemma_label_ok_one("Normal"@);
    lemma_label_ok_one("Development"@);
    lemma_label_ok_one("Build"@);
    lemma_label_ok_one("Unknown"@);
    lemma_label_ok_one("Name"@);
    lemma_label_ok_one("Description"@);
    lemma_label_ok_one("Kind"@);
    lemma_label_ok_one("Crates Link"@);
    lemma_label_ok_one("Source Link"@);
    lemma_label_ok_one("Stats"@);
    lemma_label_ok_one("Status"@);
    lemma_label_ok_one("Dependencies"@);
    assert(lower_seq("Normal"@).len() == 6);
    assert(lower_seq("Development"@).len() == 11);
    assert(lower_seq("Build"@).len() == 5);
    assert(lower_seq("Unknown"@).len() == 7);
}

} // verus!
