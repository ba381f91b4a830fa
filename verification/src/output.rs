//! The shared codec interface: the closed set of output formats, the
//! dispatching formatter, and the buffered output manager.

use vstd::prelude::*;
use vstd::string::StringExecFns;

use crate::chars::{lower_seq, chars_to_string, eq_chars, lower_exec, str_to_chars};
use crate::csv::{csv_parse, csv_render, CsvFormatter};
use crate::errors::{AppError, ErrView};
use crate::json::{json_parse, json_render, JsonFormatter};
use crate::labels::{Labels, LabelsView};
use crate::list::{list_parse, list_render, MarkdownListFormatter};
use crate::record::{DependencyInfo, RecordView};
use crate::table::{table_parse, table_render, MarkdownTableFormatter};
use crate::yaml::{yaml_parse, yaml_render, YamlFormatter};

verus! {

/// The closed set of report formats.
#[derive(Debug, Clone, Copy, PartialEq, Eq, Structural)]
pub enum OutputFormat {
    MarkdownTable,
    MarkdownList,
    Csv,
    Json,
    Yaml,
}

impl Default for OutputFormat {
    /// The default format is the decorated table.
    fn default() -> (r: Self)
        ensures
            r == OutputFormat::MarkdownTable,
    {
        OutputFormat::MarkdownTable
    }
}

/// The fixed token of each format, for command-driven selection.
pub open spec fn format_token(f: OutputFormat) -> Seq<char> {
    match f {
        OutputFormat::MarkdownTable => "markdown-table"@,
        OutputFormat::MarkdownList => "markdown-list"@,
        OutputFormat::Csv => "csv"@,
        OutputFormat::Json => "json"@,
        OutputFormat::Yaml => "yaml"@,
    }
}

/// The format a token names, matched case-insensitively.
pub open spec fn format_of_token(s: Seq<char>) -> Option<OutputFormat> {
    let t = lower_seq(s);
    if t == "markdown-table"@ {
        Some(OutputFormat::MarkdownTable)
    } else if t == "markdown-list"@ {
        Some(OutputFormat::MarkdownList)
    } else if t == "csv"@ {
        Some(OutputFormat::Csv)
    } else if t == "json"@ {
        Some(OutputFormat::Json)
    } else if t == "yaml"@ {
        Some(OutputFormat::Yaml)
    } else {
        None
    }
}

impl OutputFormat {
    /// Reads a format from its token, case-insensitively; an unknown token
    /// is refused carrying the token.
    pub fn from_str(s: &str) -> (r: Result<OutputFormat, AppError>)
        ensures
            match r {
                Ok(f) => format_of_token(s@) == Some(f),
                Err(e) => format_of_token(s@) is None && e@ == ErrView::InvalidOutputFormat(s@),
            },
    {
        let t = lower_exec(&str_to_chars(s));
        if eq_chars(&t, &str_to_chars("markdown-table")) {
            Ok(OutputFormat::MarkdownTable)
        } else if eq_chars(&t, &str_to_chars("markdown-list")) {
            Ok(OutputFormat::MarkdownList)
        } else if eq_chars(&t, &str_to_chars("csv")) {
            Ok(OutputFormat::Csv)
        } else if eq_chars(&t, &str_to_chars("json")) {
            Ok(OutputFormat::Json)
        } else if eq_chars(&t, &str_to_chars("yaml")) {
            Ok(OutputFormat::Yaml)
        } else {
            Err(AppError::InvalidOutputFormat(chars_to_string(&str_to_chars(s))))
        }
    }

    /// The token of this format.
    pub fn token(&self) -> (r: &'static str)
        ensures
            r@ == format_token(*self),
    {
        match self {
            OutputFormat::MarkdownTable => "markdown-table",
            OutputFormat::MarkdownList => "markdown-list",
            OutputFormat::Csv => "csv",
            OutputFormat::Json => "json",
            OutputFormat::Yaml => "yaml",
        }
    }
}

/// What each format's renderer writes.
pub open spec fn doc_render(f: OutputFormat, records: Seq<RecordView>, l: LabelsView) -> Seq<
    char,
> {
    match f {
        OutputFormat::MarkdownTable => table_render(records, l),
        OutputFormat::MarkdownList => list_render(records, l),
        OutputFormat::Csv => csv_render(records, l),
        OutputFormat::Json => json_render(records),
        OutputFormat::Yaml => yaml_render(records),
    }
}

/// What each format's reader yields.
pub open spec fn doc_parse(f: OutputFormat, s: Seq<char>, l: LabelsView) -> Result<
    Seq<RecordView>,
    ErrView,
> {
    match f {
        OutputFormat::MarkdownTable => table_parse(s, l),
        OutputFormat::MarkdownList => Ok(list_parse(s, l)),
        OutputFormat::Csv => csv_parse(s, l),
        OutputFormat::Json => json_parse(s),
        OutputFormat::Yaml => yaml_parse(s),
    }
}

/// One strategy per format, behind one interface.
pub enum Formatter {
    MarkdownTable(MarkdownTableFormatter),
    MarkdownList(MarkdownListFormatter),
    Csv(CsvFormatter),
    Json(JsonFormatter),
    Yaml(YamlFormatter),
}

impl Formatter {
    /// The format this strategy serves.
    pub open spec fn kind(&self) -> OutputFormat {
        match self {
            Formatter::MarkdownTable(_) => OutputFormat::MarkdownTable,
            Formatter::MarkdownList(_) => OutputFormat::MarkdownList,
            Formatter::Csv(_) => OutputFormat::Csv,
            Formatter::Json(_) => OutputFormat::Json,
            Formatter::Yaml(_) => OutputFormat::Yaml,
        }
    }

    /// The strategy of a format.
    pub fn new(format: OutputFormat) -> (r: Result<Formatter, AppError>)
        ensures
            r matches Ok(f) && f.kind() == format,
    {
        Ok(
            match format {
                OutputFormat::MarkdownTable => Formatter::MarkdownTable(MarkdownTableFormatter),
                OutputFormat::MarkdownList => Formatter::MarkdownList(MarkdownListFormatter),
                OutputFormat::Csv => Formatter::Csv(CsvFormatter),
                OutputFormat::Json => Formatter::Json(JsonFormatter),
                OutputFormat::Yaml => Formatter::Yaml(YamlFormatter),
            },
        )
    }

    /// Renders records in this strategy's format.
    pub fn format(&self, deps: &Vec<DependencyInfo>, labels: &Labels) -> (r: Result<
        String,
        AppError,
    >)
        ensures
            r matches Ok(out) && out@ == doc_render(self.kind(), deps.deep_view(), labels@),
    {
        match self {
            Formatter::MarkdownTable(f) => f.format(deps, labels),
            Formatter::MarkdownList(f) => f.format(deps, labels),
            Formatter::Csv(f) => f.format(deps, labels),
            Formatter::Json(f) => f.format(deps),
            Formatter::Yaml(f) => f.format(deps),
        }
    }

    /// Reads records in this strategy's format.
    pub fn parse(&self, content: &str, labels: &Labels) -> (r: Result<
        Vec<DependencyInfo>,
        AppError,
    >)
        ensures
            match r {
                Ok(deps) => doc_parse(self.kind(), content@, labels@) == Ok::<
                    Seq<RecordView>,
                    ErrView,
                >(deps.deep_view()),
                Err(e) => doc_parse(self.kind(), content@, labels@) matches Err(v) && e@ == v,
            },
    {
        match self {
            Formatter::MarkdownTable(f) => f.parse(content, labels),
            Formatter::MarkdownList(f) => f.parse(content, labels),
            Formatter::Csv(f) => f.parse(content, labels),
            Formatter::Json(f) => f.parse(content),
            Formatter::Yaml(f) => f.parse(content),
        }
    }
}

/// Renders reports into an in-memory buffer; writing the buffer out is the
/// caller's business.
pub struct OutputManager {
    /// The strategy in use.
    pub formatter: Formatter,
    /// The rendered text so far.
    pub buffer: String,
}

impl OutputManager {
    /// A manager for one format, with an empty buffer.
    pub fn new(format: OutputFormat) -> (r: OutputManager)
        ensures
            r.formatter.kind() == format,
            r.buffer@ == Seq::<char>::empty(),
    {
        let formatter = match Formatter::new(format) {
            Ok(f) => f,
            Err(_) => Formatter::MarkdownTable(MarkdownTableFormatter),
        };
        OutputManager { formatter, buffer: String::new() }
    }

    /// Renders the records and appends the text to the buffer.
    pub fn write(&mut self, deps: &Vec<DependencyInfo>, labels: &Labels) -> (r: Result<
        (),
        AppError,
    >)
        ensures
            r is Ok,
            final(self).formatter == old(self).formatter,
            final(self).buffer@ == old(self).buffer@ + doc_render(
                old(self).formatter.kind(),
                deps.deep_view(),
                labels@,
            ),
    {
        let content = match self.formatter.format(deps, labels) {
            Ok(c) => c,
            Err(e) => {
                return Err(e);
            },
        };
        let appended = self.buffer.clone().concat(content.as_str());
        self.buffer = appended;
        Ok(())
    }
}

/// The views of the records among keyed results.
pub open spec fn record_views(rs: Seq<(String, DependencyInfo)>) -> Seq<RecordView> {
    Seq::new(rs.len(), |i: int| rs[i].1@)
}

/// Renders the fetched results in the given format.
pub fn generate_output(
    results: &Vec<(String, DependencyInfo)>,
    format: &OutputFormat,
    labels: &Labels,
) -> (r: Result<String, AppError>)
    ensures
        r matches Ok(out) && out@ == doc_render(*format, record_views(results@), labels@),
{
    let mut deps: Vec<DependencyInfo> = Vec::new();
    let mut i: usize = 0;
    proof {
        assert(deps.deep_view() =~= record_views(results@.subrange(0, 0)));
    }
    while i < results.len()
        invariant
            i <= results@.len(),
            deps.deep_view() == record_views(results@.subrange(0, i as int)),
        decreases results@.len() - i,
    {
        let ghost before = deps.deep_view();
        deps.push(results[i].1.clone());
        proof {
            assert(deps.deep_view() =~= before.push(results@[i as int].1@));
            assert(record_views(results@.subrange(0, i + 1 as int)) =~= before.push(
                results@[i as int].1@,
            ));
        }
        i = i + 1;
    }
    proof {
        assert(record_views(results@.subrange(0, results@.len() as int)) =~= record_views(
            results@,
        ));
    }
    let formatter = match Formatter::new(*format) {
        Ok(f) => f,
        Err(e) => {
            return Err(e);
        },
    };
    formatter.format(&deps, labels)
}

} // verus!
