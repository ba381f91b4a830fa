//! Upstream sources of a dependency: the classification of a repository
//! link into a code host, a registry, a plain link or free text, and the
//! assembly of records from fetched data.  Reading a URL's host and path
//! goes through the `url` crate behind a trusted wrapper.

use vstd::prelude::*;

use crate::chars::{
    find_sub, split_sub, trim_end_sub, trim_set, chars_to_string, eq_chars,
    find_sub_exec, push_all, split_sub_exec, str_to_chars, subvec, trim_end_sub_exec,
    trim_set_exec, lemma_find_sub_spec,
};
use crate::record::{opt_view, DependencyInfo, DependencyKind, DependencyStats, RecordView};

verus! {

/// What `url::Url::parse` makes of a text: nothing for a malformed URL,
/// else the URL's host (when it has one), its path, and its normalized
/// serialization.  Parsing is a function of the text alone.
pub uninterp spec fn url_parts(s: Seq<char>) -> Option<(Option<Seq<char>>, Seq<char>, Seq<char>)>;

/// Relies on url's `Url::parse`, `Url::host_str`, `Url::path` and
/// `Url::as_str`: parsing an absolute URL and reading its host, path and
/// serialization depend on the input text alone.
#[verifier::external_body]
fn parse_url_parts(s: &str) -> (r: Option<(Option<String>, String, String)>)
    ensures
        match r {
            Some(p) => url_parts(s@) == Some(
                (
                    match &p.0 {
                        Some(h) => Some(h@),
                        None => None,
                    },
                    p.1@,
                    p.2@,
                ),
            ),
            None => url_parts(s@) is None,
        },
{
    match url::Url::parse(s) {
        Ok(u) => {
            let host = u.host_str().map(|h| h.to_string());
            Some((host, u.path().to_string(), u.as_str().to_string()))
        },
        Err(_) => None,
    }
}

/// A dependency's upstream source.
#[derive(Debug)]
pub enum Source {
    /// A repository on the code host, with its owner, name, and star count
    /// when known.
    GitHub { owner: String, repo: String, stars: Option<u32> },
    /// A registry entry, with its download count when known.
    CratesIo { name: String, downloads: Option<u32> },
    /// A plain link.
    Link { url: String },
    /// Free-text description of the source.
    Other { description: String },
}

/// The mathematical image of a [`Source`].
pub enum SourceView {
    GitHub { owner: Seq<char>, repo: Seq<char>, stars: Option<u32> },
    CratesIo { name: Seq<char>, downloads: Option<u32> },
    Link { url: Seq<char> },
    Other { description: Seq<char> },
}

impl View for Source {
    type V = SourceView;

    open spec fn view(&self) -> SourceView {
        match self {
            Source::GitHub { owner, repo, stars } => SourceView::GitHub {
                owner: owner@,
                repo: repo@,
                stars: *stars,
            },
            Source::CratesIo { name, downloads } => SourceView::CratesIo {
                name: name@,
                downloads: *downloads,
            },
            Source::Link { url } => SourceView::Link { url: url@ },
            Source::Other { description } => SourceView::Other { description: description@ },
        }
    }
}

/// Classification of a parsed URL: on the code host, the path's first two
/// segments name owner and repository (a trailing `.git` dropped); on the
/// registry, the trimmed path names the entry; any other host is a plain
/// link to the normalized URL.
pub open spec fn source_from_parts(host: Seq<char>, path: Seq<char>, normalized: Seq<char>)
    -> Option<SourceView> {
    if host == "github.com"@ {
        let t = trim_set(path, seq!['/']);
        match find_sub(t, seq!['/']) {
            None => None,
            Some(i) => Some(
                SourceView::GitHub {
                    owner: t.subrange(0, i),
                    repo: trim_end_sub(
                        t.subrange(i + 1, t.len() as int),
                        seq!['.', 'g', 'i', 't'],
                    ),
                    stars: None,
                },
            ),
        }
    } else if host == "crates.io"@ {
        Some(SourceView::CratesIo { name: trim_set(path, seq!['/']), downloads: None })
    } else {
        Some(SourceView::Link { url: normalized })
    }
}

impl Source {
    /// Classifies the host, path and serialization of an already-parsed
    /// URL.
    pub fn from_host_path(host: &str, path: &str, normalized: &str) -> (r: Option<Source>)
        ensures
            match r {
                Some(src) => source_from_parts(host@, path@, normalized@) == Some(src@),
                None => source_from_parts(host@, path@, normalized@) is None,
            },
    {
        let hv = str_to_chars(host);
        let pv = str_to_chars(path);
        let mut slash: Vec<char> = Vec::new();
        slash.push('/');
        assert(slash@ =~= seq!['/']);
        if eq_chars(&hv, &str_to_chars("github.com")) {
            let t = trim_set_exec(&pv, &slash);
            match find_sub_exec(&t, &slash) {
                None => None,
                Some(i) => {
                    let tn = t.len();
                    proof {
                        lemma_find_sub_spec(t@, seq!['/']);
                        assert(crate::chars::is_match_at(t@, seq!['/'], i as int));
                        assert(i + 1 <= tn);
                    }
                    let owner = subvec(&t, 0, i);
                    let rest = subvec(&t, i + 1, tn);
                    let mut git: Vec<char> = Vec::new();
                    git.push('.');
                    git.push('g');
                    git.push('i');
                    git.push('t');
                    assert(git@ =~= seq!['.', 'g', 'i', 't']);
                    let repo = trim_end_sub_exec(&rest, &git);
                    Some(
                        Source::GitHub {
                            owner: chars_to_string(&owner),
                            repo: chars_to_string(&repo),
                            stars: None,
                        },
                    )
                },
            }
        } else if eq_chars(&hv, &str_to_chars("crates.io")) {
            let name = trim_set_exec(&pv, &slash);
            Some(Source::CratesIo { name: chars_to_string(&name), downloads: None })
        } else {
            Some(Source::Link { url: chars_to_string(&str_to_chars(normalized)) })
        }
    }

    /// Classifies an optional URL text: nothing without a URL, a host, or a
    /// parse; else as [`Source::from_host_path`].
    pub fn from_url(url: Option<&str>) -> (r: Option<Source>)
        ensures
            match url {
                None => r is None,
                Some(s) => match url_parts(s@) {
                    None => r is None,
                    Some(parts) => match parts.0 {
                        None => r is None,
                        Some(h) => match r {
                            Some(src) => source_from_parts(h, parts.1, parts.2) == Some(src@),
                            None => source_from_parts(h, parts.1, parts.2) is None,
                        },
                    },
                },
            },
    {
        match url {
            None => None,
            Some(s) => match parse_url_parts(s) {
                None => None,
                Some((host_opt, path, normalized)) => match host_opt {
                    None => None,
                    Some(h) => Source::from_host_path(
                        h.as_str(),
                        path.as_str(),
                        normalized.as_str(),
                    ),
                },
            },
        }
    }
}

/// A registry entry fetched for one dependency.
#[derive(Debug)]
pub struct CrateInfo {
    pub name: String,
    pub description: Option<String>,
    pub repository: Option<String>,
    pub downloads: u32,
}

/// A repository fetched from the code host.
#[derive(Debug)]
pub struct RepositoryInfo {
    pub full_name: String,
    pub description: Option<String>,
    pub stargazers_count: u32,
    pub html_url: String,
}

/// The registry page of a dependency.
pub open spec fn crates_url_of(name: Seq<char>) -> Seq<char> {
    "https://crates.io/crates/"@ + name
}

/// The registry page of a dependency.
pub fn get_crate_url(name: &str) -> (r: String)
    ensures
        r@ == crates_url_of(name@),
{
    let mut out = str_to_chars("https://crates.io/crates/");
    push_all(&mut out, &str_to_chars(name));
    chars_to_string(&out)
}

/// The path segments of a parsed URL's path: the pieces after the leading
/// slash, or none for a path without one.
pub open spec fn path_segments_of(p: Seq<char>) -> Seq<Seq<char>> {
    if p.len() > 0 && p[0] == '/' {
        split_sub(p.subrange(1, p.len() as int), seq!['/'])
    } else {
        Seq::empty()
    }
}

/// The owner and repository a repository link points at on the code host:
/// the first two path segments, when the link parses, names that host and
/// has them.
pub open spec fn github_parts(rep: Seq<char>) -> Option<(Seq<char>, Seq<char>)> {
    match url_parts(rep) {
        Some(parts) => match parts.0 {
            Some(h) => if h == "github.com"@ && path_segments_of(parts.1).len() >= 2 {
                Some((path_segments_of(parts.1)[0], path_segments_of(parts.1)[1]))
            } else {
                None
            },
            None => None,
        },
        None => None,
    }
}

/// Reads the owner and repository out of a repository link on the code
/// host, so the host can be queried for them.
pub fn github_owner_repo(repository: &str) -> (r: Option<(String, String)>)
    ensures
        match r {
            Some(p) => github_parts(repository@) == Some((p.0@, p.1@)),
            None => github_parts(repository@) is None,
        },
{
    match parse_url_parts(repository) {
        None => None,
        Some((host_opt, path, _)) => match host_opt {
            None => None,
            Some(h) => {
                let hv = str_to_chars(h.as_str());
                if !eq_chars(&hv, &str_to_chars("github.com")) {
                    return None;
                }
                let pv = str_to_chars(path.as_str());
                if pv.len() == 0 {
                    return None;
                }
                if pv[0] != '/' {
                    return None;
                }
                let rest = subvec(&pv, 1, pv.len());
                let mut slash: Vec<char> = Vec::new();
                slash.push('/');
                assert(slash@ =~= seq!['/']);
                let segs = split_sub_exec(&rest, &slash);
                if segs.len() < 2 {
                    return None;
                }
                proof {
                    assert(segs@[0 as int]@ == path_segments_of(path@)[0]);
                    assert(segs@[1 as int]@ == path_segments_of(path@)[1]);
                }
                Some((chars_to_string(&segs[0]), chars_to_string(&segs[1])))
            },
        },
    }
}

/// The source columns of a resolved dependency: the label, the link, and
/// the statistics that its repository link calls for, given the fetched
/// counts.
pub open spec fn resolved_source(
    repository: Option<Seq<char>>,
    downloads: u32,
    stars: Option<u32>,
    name: Seq<char>,
) -> (Seq<char>, Option<Seq<char>>, Option<u32>, Option<u32>) {
    match repository {
        None => ("crates.io"@, Some(crates_url_of(name)), None, Some(downloads)),
        Some(rep) => match url_parts(rep) {
            None => ("crates.io"@, Some(crates_url_of(name)), None, Some(downloads)),
            Some(parts) => match parts.0 {
                Some(h) => if h == "github.com"@ && path_segments_of(parts.1).len() >= 2 {
                    ("GitHub"@, Some(parts.2), stars, None)
                } else {
                    ("Source"@, Some(parts.2), None, None)
                },
                None => ("Source"@, Some(parts.2), None, None),
            },
        },
    }
}

/// Assembles the record of a successfully fetched dependency: its source
/// columns follow the repository link, and the star count is taken only
/// for a code-host repository.
pub fn resolve_dependency(
    name: &str,
    description: Option<String>,
    repository: Option<&str>,
    downloads: u32,
    stars: Option<u32>,
) -> (r: DependencyInfo)
    ensures
        ({
            let (stype, surl, st, dl) = resolved_source(
                match repository {
                    Some(s) => Some(s@),
                    None => None,
                },
                downloads,
                stars,
                name@,
            );
            &&& r@.name == name@
            &&& r@.description == opt_view(description)
            &&& r@.dependency_kind == DependencyKind::Normal
            &&& r@.crate_url == Some(crates_url_of(name@))
            &&& r@.source_type == stype
            &&& r@.source_url == surl
            &&& r@.stars == st
            &&& r@.downloads == dl
            &&& !r@.failed
            &&& r@.error_message is None
        }),
{
    let (source_type, source_url, use_stars, use_downloads): (
        String,
        Option<String>,
        Option<u32>,
        Option<u32>,
    ) = match repository {
        None => (
            chars_to_string(&str_to_chars("crates.io")),
            Some(get_crate_url(name)),
            None,
            Some(downloads),
        ),
        Some(rep) => match parse_url_parts(rep) {
            None => (
                chars_to_string(&str_to_chars("crates.io")),
                Some(get_crate_url(name)),
                None,
                Some(downloads),
            ),
            Some((host_opt, path, normalized)) => match host_opt {
                Some(h) => {
                    let hv = str_to_chars(h.as_str());
                    let pv = str_to_chars(path.as_str());
                    let mut seg_ok = false;
                    if eq_chars(&hv, &str_to_chars("github.com")) {
                        if pv.len() > 0 && pv[0] == '/' {
                            let rest = subvec(&pv, 1, pv.len());
                            let mut slash: Vec<char> = Vec::new();
                            slash.push('/');
                            assert(slash@ =~= seq!['/']);
                            let segs = split_sub_exec(&rest, &slash);
                            if segs.len() >= 2 {
                                seg_ok = true;
                            }
                        }
                        if seg_ok {
                            (
                                chars_to_string(&str_to_chars("GitHub")),
                                Some(normalized),
                                stars,
                                None,
                            )
                        } else {
                            (
                                chars_to_string(&str_to_chars("Source")),
                                Some(normalized),
                                None,
                                None,
                            )
                        }
                    } else {
                        (chars_to_string(&str_to_chars("Source")), Some(normalized), None, None)
                    }
                },
                None => (chars_to_string(&str_to_chars("Source")), Some(normalized), None, None),
            },
        },
    };
    DependencyInfo {
        name: chars_to_string(&str_to_chars(name)),
        description,
        dependency_kind: DependencyKind::Normal,
        crate_url: Some(get_crate_url(name)),
        source_type,
        source_url,
        stats: DependencyStats { stars: use_stars, downloads: use_downloads },
        failed: false,
        error_message: None,
    }
}

/// The degraded record of a dependency whose fetch permanently failed: no
/// data but the name, the registry link, and the failure message.
pub fn failed_info(name: &str, error: &str) -> (r: DependencyInfo)
    ensures
        r@.name == name@,
        r@.description is None,
        r@.dependency_kind == DependencyKind::Normal,
        r@.crate_url == Some(crates_url_of(name@)),
        r@.source_type == "Unknown"@,
        r@.source_url is None,
        r@.stars is None,
        r@.downloads is None,
        r@.failed,
        r@.error_message == Some(error@),
{
    DependencyInfo {
        name: chars_to_string(&str_to_chars(name)),
        description: None,
        dependency_kind: DependencyKind::Normal,
        crate_url: Some(get_crate_url(name)),
        source_type: chars_to_string(&str_to_chars("Unknown")),
        source_url: None,
        stats: DependencyStats { stars: None, downloads: None },
        failed: true,
        error_message: Some(chars_to_string(&str_to_chars(error))),
    }
}


/// The record a classified source yields for a dependency: the registry
/// link always present, the source columns per variant, and nothing failed.
pub open spec fn record_of_source(name: Seq<char>, source: SourceView) -> RecordView {
    match source {
        SourceView::GitHub { owner, repo, stars } => RecordView {
            name,
            description: None,
            dependency_kind: DependencyKind::Normal,
            crate_url: Some(crates_url_of(name)),
            source_type: "GitHub"@,
            source_url: Some(
                "https://github.com/"@ + owner + seq!['/'] + repo,
            ),
            stars,
            downloads: None,
            failed: false,
            error_message: None,
        },
        SourceView::CratesIo { name: _, downloads } => RecordView {
            name,
            description: None,
            dependency_kind: DependencyKind::Normal,
            crate_url: Some(crates_url_of(name)),
            source_type: "crates.io"@,
            source_url: None,
            stars: None,
            downloads,
            failed: false,
            error_message: None,
        },
        SourceView::Link { url } => RecordView {
            name,
            description: None,
            dependency_kind: DependencyKind::Normal,
            crate_url: Some(crates_url_of(name)),
            source_type: "Source"@,
            source_url: Some(url),
            stars: None,
            downloads: None,
            failed: false,
            error_message: None,
        },
        SourceView::Other { description } => RecordView {
            name,
            description: Some(description),
            dependency_kind: DependencyKind::Normal,
            crate_url: Some(crates_url_of(name)),
            source_type: description,
            source_url: None,
            stars: None,
            downloads: None,
            failed: false,
            error_message: None,
        },
    }
}

impl DependencyInfo {
    /// The record of a named dependency with a classified source.
    pub fn from_source(name: &str, source: &Source) -> (r: DependencyInfo)
        ensures
            r@ == record_of_source(name@, source@),
    {
        match source {
            Source::GitHub { owner, repo, stars } => {
                let mut link = str_to_chars("https://github.com/");
                push_all(&mut link, &str_to_chars(owner.as_str()));
                link.push('/');
                push_all(&mut link, &str_to_chars(repo.as_str()));
                proof {
                    assert(link@ =~= "https://github.com/"@ + owner@ + seq!['/'] + repo@);
                }
                DependencyInfo {
                    name: chars_to_string(&str_to_chars(name)),
                    description: None,
                    dependency_kind: DependencyKind::Normal,
                    crate_url: Some(get_crate_url(name)),
                    source_type: chars_to_string(&str_to_chars("GitHub")),
                    source_url: Some(chars_to_string(&link)),
                    stats: DependencyStats { stars: *stars, downloads: None },
                    failed: false,
                    error_message: None,
                }
            },
            Source::CratesIo { name: _, downloads } => DependencyInfo {
                name: chars_to_string(&str_to_chars(name)),
                description: None,
                dependency_kind: DependencyKind::Normal,
                crate_url: Some(get_crate_url(name)),
                source_type: chars_to_string(&str_to_chars("crates.io")),
                source_url: None,
                stats: DependencyStats { stars: None, downloads: *downloads },
                failed: false,
                error_message: None,
            },
            Source::Link { url } => DependencyInfo {
                name: chars_to_string(&str_to_chars(name)),
                description: None,
                dependency_kind: DependencyKind::Normal,
                crate_url: Some(get_crate_url(name)),
                source_type: chars_to_string(&str_to_chars("Source")),
                source_url: Some(url.clone()),
                stats: DependencyStats { stars: None, downloads: None },
                failed: false,
                error_message: None,
            },
            Source::Other { description } => DependencyInfo {
                name: chars_to_string(&str_to_chars(name)),
                description: Some(description.clone()),
                dependency_kind: DependencyKind::Normal,
                crate_url: Some(get_crate_url(name)),
                source_type: description.clone(),
                source_url: None,
                stats: DependencyStats { stars: None, downloads: None },
                failed: false,
                error_message: None,
            },
        }
    }
}

} // verus!
