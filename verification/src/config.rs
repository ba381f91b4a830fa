//! Process configuration as an explicit value: where the input manifest
//! lies, where output goes, which format and link source to use, and the
//! fetch limits.  The value is built by the surrounding program and handed
//! down; no global state is consulted.

use vstd::prelude::*;
use vstd::string::StringExecFns;

use crate::chars::{lower_seq, chars_to_string, eq_chars, push_all, str_to_chars};
use crate::errors::{AppError, ErrView};
use crate::output::OutputFormat;
use crate::travert::ext_of;

verus! {

/// Where the upstream source link of a dependency is taken from.
#[derive(Debug, Clone, Copy, PartialEq, Eq, Structural)]
pub enum LinkSource {
    GitHub,
    CratesIo,
    LinkEmpty,
    Other,
}

impl Default for LinkSource {
    /// The default link source is the code host.
    fn default() -> (r: Self)
        ensures
            r == LinkSource::GitHub,
    {
        LinkSource::GitHub
    }
}

/// The link source a token names, matched exactly.
pub open spec fn link_source_of_token(s: Seq<char>) -> Option<LinkSource> {
    if s == "github"@ {
        Some(LinkSource::GitHub)
    } else if s == "crates-io"@ {
        Some(LinkSource::CratesIo)
    } else if s == "link-empty"@ {
        Some(LinkSource::LinkEmpty)
    } else if s == "other"@ {
        Some(LinkSource::Other)
    } else {
        None
    }
}

impl LinkSource {
    /// Reads a link source from its token; an unknown token is refused
    /// carrying the token.
    pub fn from_str(s: &str) -> (r: Result<LinkSource, AppError>)
        ensures
            match r {
                Ok(l) => link_source_of_token(s@) == Some(l),
                Err(e) => link_source_of_token(s@) is None && e@ == ErrView::InvalidLinkSource(
                    s@,
                ),
            },
    {
        let t = str_to_chars(s);
        if eq_chars(&t, &str_to_chars("github")) {
            Ok(LinkSource::GitHub)
        } else if eq_chars(&t, &str_to_chars("crates-io")) {
            Ok(LinkSource::CratesIo)
        } else if eq_chars(&t, &str_to_chars("link-empty")) {
            Ok(LinkSource::LinkEmpty)
        } else if eq_chars(&t, &str_to_chars("other")) {
            Ok(LinkSource::Other)
        } else {
            Err(AppError::InvalidLinkSource(chars_to_string(&t)))
        }
    }
}

/// One run's configuration.
#[derive(Debug)]
pub struct Config {
    /// The manifest path or directory to read dependencies from.
    pub input: String,
    /// The output path; absent or "-" means standard output.
    pub output: Option<String>,
    /// The report format.
    pub format: OutputFormat,
    /// Where source links are taken from.
    pub link_source: LinkSource,
    /// The token used for the code host, if any.
    pub github_token: Option<String>,
    /// True when path dependencies are skipped.
    pub no_relative_libs: bool,
    /// The catalog language tag.
    pub language: String,
    /// True when verbose logging is asked for.
    pub verbose: bool,
    /// How many fetches may run at once.
    pub max_concurrent_requests: usize,
    /// How often a failing fetch is retried.
    pub max_retries: u32,
}

impl Default for Config {
    /// The defaults: the manifest beside the program, standard output, the
    /// decorated table, the code host as link source, five concurrent
    /// fetches and three retries.
    fn default() -> (r: Self)
        ensures
            r.input@ == "Cargo.toml"@,
            r.output is None,
            r.format == OutputFormat::MarkdownTable,
            r.link_source == LinkSource::GitHub,
            r.github_token is None,
            !r.no_relative_libs,
            r.language@ == "zh"@,
            !r.verbose,
            r.max_concurrent_requests == 5,
            r.max_retries == 3,
    {
        Config {
            input: String::from_str("Cargo.toml"),
            output: None,
            format: OutputFormat::MarkdownTable,
            link_source: LinkSource::GitHub,
            github_token: None,
            no_relative_libs: false,
            language: String::from_str("zh"),
            verbose: false,
            max_concurrent_requests: 5,
            max_retries: 3,
        }
    }
}

/// The manifest path a configuration resolves to: the manifest inside a
/// directory input when it exists there, the input itself when it is a
/// manifest file; anything else is refused carrying the input path.
pub open spec fn cargo_toml_path(
    input: Seq<char>,
    input_is_dir: bool,
    joined_exists: bool,
    input_is_file: bool,
) -> Result<Seq<char>, ErrView> {
    if input_is_dir && joined_exists {
        Ok(input + "/Cargo.toml"@)
    } else if input_is_file && lower_seq(ext_of(input)) == "toml"@ {
        Ok(input)
    } else {
        Err(ErrView::Unknown(input))
    }
}

impl Config {
    /// Resolves the manifest path.  The caller supplies what the file
    /// system says of the input: whether it is a directory, whether the
    /// joined manifest exists there, and whether the input is a file.
    pub fn get_cargo_toml_path(
        &self,
        input_is_dir: bool,
        joined_exists: bool,
        input_is_file: bool,
    ) -> (r: Result<String, AppError>)
        ensures
            match r {
                Ok(p) => cargo_toml_path(self.input@, input_is_dir, joined_exists, input_is_file)
                    == Ok::<Seq<char>, ErrView>(p@),
                Err(e) => cargo_toml_path(
                    self.input@,
                    input_is_dir,
                    joined_exists,
                    input_is_file,
                ) matches Err(v) && e@ == v,
            },
    {
        if input_is_dir && joined_exists {
            let mut joined = str_to_chars(self.input.as_str());
            push_all(&mut joined, &str_to_chars("/Cargo.toml"));
            return Ok(chars_to_string(&joined));
        }
        if input_is_file {
            let ext = crate::chars::lower_exec(
                &ext_of_exec(&str_to_chars(self.input.as_str())),
            );
            if eq_chars(&ext, &str_to_chars("toml")) {
                return Ok(self.input.clone());
            }
        }
        Err(AppError::Unknown(self.input.clone()))
    }
}

/// The extension of a path, as characters.
pub fn ext_of_exec(path: &Vec<char>) -> (r: Vec<char>)
    ensures
        r@ == ext_of(path@),
{
    let mut slash: Vec<char> = Vec::new();
    slash.push('/');
    assert(slash@ =~= seq!['/']);
    let comps = crate::chars::split_sub_exec(path, &slash);
    proof {
        crate::chars::lemma_split_sub_len(path@, seq!['/']);
    }
    let name = &comps[comps.len() - 1];
    proof {
        assert(comps@[comps@.len() - 1]@ == crate::chars::split_sub(path@, seq!['/']).last());
    }
    let mut dot: Vec<char> = Vec::new();
    dot.push('.');
    assert(dot@ =~= seq!['.']);
    let pieces = crate::chars::split_sub_exec(name, &dot);
    proof {
        crate::chars::lemma_split_sub_len(name@, seq!['.']);
    }
    if pieces.len() >= 2 && !(pieces.len() == 2 && pieces[0].len() == 0) {
        proof {
            assert(pieces@[pieces@.len() - 1]@ == crate::chars::split_sub(
                name@,
                seq!['.'],
            ).last());
        }
        let e = &pieces[pieces.len() - 1];
        crate::chars::subvec(e, 0, e.len())
    } else {
        let r: Vec<char> = Vec::new();
        assert(r@ =~= ext_of(path@));
        r
    }
}

} // verus!
