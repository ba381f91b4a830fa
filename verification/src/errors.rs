//! The error taxonomy of the report codecs: format-token errors, delimited
//! content errors, table and list structural errors, cell grammar errors,
//! and structural-document errors.

use vstd::prelude::*;

verus! {

/// The failures a codec operation can report.  Each variant carries the
/// offending token, line, or cell.
#[derive(Debug)]
pub enum AppError {
    /// An output-format token that names no known format.
    InvalidOutputFormat(String),
    /// A link-source token that names no known source.
    InvalidLinkSource(String),
    /// An error adopted from plain text.
    Unknown(String),
    /// Delimited content whose header or row has the wrong shape.
    InvalidCsvContent(String),
    /// A dependency-kind label that matches no known kind.
    InvalidDependencyKind(String),
    /// A link cell that cannot be read.
    InvalidSourceLink(String),
    /// A status cell matching neither the success nor the failure grammar.
    InvalidStatus(String),
    /// A stats cell whose marked numbers cannot be read.
    InvalidStats(String),
    /// A table header row without enough columns.
    InvalidTableHeader(String),
    /// A list item line with the wrong number of parts.
    InvalidListLine(String),
    /// A table data row with the wrong number of cells.
    InvalidTableLine(String),
    /// A structural document (object array or key-value form) that does not
    /// have the expected shape.
    InvalidDocument(String),
    /// A path whose format cannot be judged.
    CannotJudgeFormat(String),
}

/// The mathematical image of an [`AppError`]: the same taxonomy over
/// character sequences.
pub enum ErrView {
    InvalidOutputFormat(Seq<char>),
    InvalidLinkSource(Seq<char>),
    Unknown(Seq<char>),
    InvalidCsvContent(Seq<char>),
    InvalidDependencyKind(Seq<char>),
    InvalidSourceLink(Seq<char>),
    InvalidStatus(Seq<char>),
    InvalidStats(Seq<char>),
    InvalidTableHeader(Seq<char>),
    InvalidListLine(Seq<char>),
    InvalidTableLine(Seq<char>),
    InvalidDocument(Seq<char>),
    CannotJudgeFormat(Seq<char>),
}

impl View for AppError {
    type V = ErrView;

    open spec fn view(&self) -> ErrView {
        match self {
            AppError::InvalidOutputFormat(s) => ErrView::InvalidOutputFormat(s@),
            AppError::InvalidLinkSource(s) => ErrView::InvalidLinkSource(s@),
            AppError::Unknown(s) => ErrView::Unknown(s@),
            AppError::InvalidCsvContent(s) => ErrView::InvalidCsvContent(s@),
            AppError::InvalidDependencyKind(s) => ErrView::InvalidDependencyKind(s@),
            AppError::InvalidSourceLink(s) => ErrView::InvalidSourceLink(s@),
            AppError::InvalidStatus(s) => ErrView::InvalidStatus(s@),
            AppError::InvalidStats(s) => ErrView::InvalidStats(s@),
            AppError::InvalidTableHeader(s) => ErrView::InvalidTableHeader(s@),
            AppError::InvalidListLine(s) => ErrView::InvalidListLine(s@),
            AppError::InvalidTableLine(s) => ErrView::InvalidTableLine(s@),
            AppError::InvalidDocument(s) => ErrView::InvalidDocument(s@),
            AppError::CannotJudgeFormat(s) => ErrView::CannotJudgeFormat(s@),
        }
    }
}

impl From<String> for AppError {
    /// Adopts plain text as an error of unknown provenance.
    fn from(error: String) -> (r: Self) {
        AppError::Unknown(error)
    }
}

impl vstd::std_specs::convert::FromSpecImpl<String> for AppError {
    open spec fn obeys_from_spec() -> bool {
        true
    }

    open spec fn from_spec(error: String) -> Self {
        AppError::Unknown(error)
    }
}

} // verus!
