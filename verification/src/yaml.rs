//! The key-value-document codec: the record list as a block sequence of
//! mappings, one field per line in declared order, strings quoted with the
//! same escapes as the object-array form.  The reader accepts the layout
//! the writer produces.

use vstd::prelude::*;

use crate::chars::{
    trim_ws, views, chars_to_string, eq_chars, filter_nonblank, push_all,
    split_lines_exec, str_to_chars, trim_ws_exec,
};
use crate::csv::nonblank_lines;
use crate::errors::{AppError, ErrView};
use crate::json::{
    field_scalar, kind_of_token, kind_token, line_is, opt_num_scalar, opt_text_scalar, scalar_text,
    Scalar, ScalarView, field_scalar_exec, kind_token_exec, line_is_exec, opt_num, opt_scalar,
    push_scalar,
};
use crate::record::{DependencyInfo, DependencyKind, DependencyStats, RecordView};

verus! {

// ---------------------------------------------------------------------------
// The document layout
// ---------------------------------------------------------------------------

/// One record as a block mapping of eleven lines.
pub open spec fn yaml_item(r: RecordView) -> Seq<char> {
    "- name: "@ + scalar_text(ScalarView::Text(r.name)) + "\n  description: "@ + scalar_text(
        opt_text_scalar(r.description),
    ) + "\n  dependency_kind: "@ + scalar_text(ScalarView::Text(kind_token(r.dependency_kind)))
        + "\n  crate_url: "@ + scalar_text(opt_text_scalar(r.crate_url)) + "\n  source_type: "@
        + scalar_text(ScalarView::Text(r.source_type)) + "\n  source_url: "@ + scalar_text(
        opt_text_scalar(r.source_url),
    ) + "\n  stats:\n    stars: "@ + scalar_text(opt_num_scalar(r.stars))
        + "\n    downloads: "@ + scalar_text(opt_num_scalar(r.downloads)) + "\n  failed: "@
        + scalar_text(ScalarView::Flag(r.failed)) + "\n  error_message: "@ + scalar_text(
        opt_text_scalar(r.error_message),
    ) + "\n"@
}

/// The records in order.
pub open spec fn yaml_items_body(records: Seq<RecordView>) -> Seq<char>
    decreases records.len(),
{
    if records.len() == 0 {
        Seq::empty()
    } else {
        yaml_items_body(records.drop_last()) + yaml_item(records.last())
    }
}

/// The whole key-value document; an empty list is the empty flow sequence.
pub open spec fn yaml_render(records: Seq<RecordView>) -> Seq<char> {
    if records.len() == 0 {
        "[]\n"@
    } else {
        yaml_items_body(records)
    }
}

/// The record written at lines `b` to `b + 10`, when they have the expected
/// shape.
pub open spec fn yaml_record_at(ls: Seq<Seq<char>>, b: int) -> Option<RecordView> {
    match (field_scalar(ls[b], "- name: "@), field_scalar(ls[b + 1], "description: "@),
    field_scalar(ls[b + 2], "dependency_kind: "@), field_scalar(ls[b + 3], "crate_url: "@),
    field_scalar(ls[b + 4], "source_type: "@), field_scalar(ls[b + 5], "source_url: "@)) {
        (
            Some(ScalarView::Text(name)),
            Some(desc),
            Some(ScalarView::Text(tok)),
            Some(curl),
            Some(ScalarView::Text(source_type)),
            Some(surl),
        ) => {
            if !line_is(ls[b + 6], "stats:"@) {
                None
            } else {
                match (kind_of_token(tok), field_scalar(ls[b + 7], "stars: "@), field_scalar(
                    ls[b + 8],
                    "downloads: "@,
                ), field_scalar(ls[b + 9], "failed: "@), field_scalar(
                    ls[b + 10],
                    "error_message: "@,
                )) {
                    (Some(kind), Some(stars_s), Some(downs_s), Some(ScalarView::Flag(failed)),
                    Some(msg)) => {
                        match (desc, curl, surl, stars_s, downs_s, msg) {
                            (ScalarView::Num(_), _, _, _, _, _) => None,
                            (ScalarView::Flag(_), _, _, _, _, _) => None,
                            (_, ScalarView::Num(_), _, _, _, _) => None,
                            (_, ScalarView::Flag(_), _, _, _, _) => None,
                            (_, _, ScalarView::Num(_), _, _, _) => None,
                            (_, _, ScalarView::Flag(_), _, _, _) => None,
                            (_, _, _, ScalarView::Text(_), _, _) => None,
                            (_, _, _, ScalarView::Flag(_), _, _) => None,
                            (_, _, _, _, ScalarView::Text(_), _) => None,
                            (_, _, _, _, ScalarView::Flag(_), _) => None,
                            (_, _, _, _, _, ScalarView::Num(_)) => None,
                            (_, _, _, _, _, ScalarView::Flag(_)) => None,
                            (d, cu, su, st, dw, ms) => Some(
                                RecordView {
                                    name,
                                    description: match d {
                                        ScalarView::Text(x) => Some(x),
                                        _ => None,
                                    },
                                    dependency_kind: kind,
                                    crate_url: match cu {
                                        ScalarView::Text(x) => Some(x),
                                        _ => None,
                                    },
                                    source_type,
                                    source_url: match su {
                                        ScalarView::Text(x) => Some(x),
                                        _ => None,
                                    },
                                    stars: match st {
                                        ScalarView::Num(x) => Some(x),
                                        _ => None,
                                    },
                                    downloads: match dw {
                                        ScalarView::Num(x) => Some(x),
                                        _ => None,
                                    },
                                    failed,
                                    error_message: match ms {
                                        ScalarView::Text(x) => Some(x),
                                        _ => None,
                                    },
                                },
                            ),
                        }
                    },
                    _ => None,
                }
            }
        },
        _ => None,
    }
}

/// The records written at successive eleven-line chunks; a malformed chunk
/// fails the whole parse, carrying the document.
pub open spec fn yaml_records(ls: Seq<Seq<char>>, k: int, n: int, s: Seq<char>) -> Result<
    Seq<RecordView>,
    ErrView,
>
    decreases n - k,
{
    if k < 0 || k >= n {
        Ok(Seq::empty())
    } else {
        match yaml_record_at(ls, 11 * k) {
            None => Err(ErrView::InvalidDocument(s)),
            Some(r) => match yaml_records(ls, k + 1, n, s) {
                Err(e) => Err(e),
                Ok(rest) => Ok(seq![r] + rest),
            },
        }
    }
}

/// Decoding of a key-value document in the layout this codec writes: the
/// empty flow sequence, or records of eleven lines each.
pub open spec fn yaml_parse(s: Seq<char>) -> Result<Seq<RecordView>, ErrView> {
    if trim_ws(s) == "[]"@ {
        Ok(Seq::empty())
    } else {
        let ls = nonblank_lines(s);
        if ls.len() == 0 || ls.len() % 11 != 0 {
            Err(ErrView::InvalidDocument(s))
        } else {
            yaml_records(ls, 0, (ls.len() / 11) as int, s)
        }
    }
}

// ---------------------------------------------------------------------------
// Executable codec
// ---------------------------------------------------------------------------

/// The key-value-document codec.
pub struct YamlFormatter;

/// Appends one record's mapping.
#[verifier::rlimit(100)]
fn push_yaml_item(out: &mut Vec<char>, dep: &DependencyInfo)
    ensures
        final(out)@ == old(out)@ + yaml_item(dep@),
{
    push_all(out, &str_to_chars("- name: "));
    push_scalar(out, &Scalar::Text(str_to_chars(dep.name.as_str())));
    push_all(out, &str_to_chars("\n  description: "));
    push_scalar(out, &opt_scalar(&dep.description));
    push_all(out, &str_to_chars("\n  dependency_kind: "));
    push_scalar(out, &Scalar::Text(kind_token_exec(&dep.dependency_kind)));
    push_all(out, &str_to_chars("\n  crate_url: "));
    push_scalar(out, &opt_scalar(&dep.crate_url));
    push_all(out, &str_to_chars("\n  source_type: "));
    push_scalar(out, &Scalar::Text(str_to_chars(dep.source_type.as_str())));
    push_all(out, &str_to_chars("\n  source_url: "));
    push_scalar(out, &opt_scalar(&dep.source_url));
    push_all(out, &str_to_chars("\n  stats:\n    stars: "));
    push_scalar(out, &opt_num(dep.stats.stars));
    push_all(out, &str_to_chars("\n    downloads: "));
    push_scalar(out, &opt_num(dep.stats.downloads));
    push_all(out, &str_to_chars("\n  failed: "));
    push_scalar(out, &Scalar::Flag(dep.failed));
    push_all(out, &str_to_chars("\n  error_message: "));
    push_scalar(out, &opt_scalar(&dep.error_message));
    push_all(out, &str_to_chars("\n"));
    assert(out@ =~= old(out)@ + yaml_item(dep@));
}

/// Reads the record written at eleven consecutive lines.
fn yaml_record_at_exec(ls: &Vec<Vec<char>>, b: usize) -> (r: Option<DependencyInfo>)
    requires
        b + 11 <= ls@.len(),
    ensures
        match r {
            Some(d) => yaml_record_at(views(ls@), b as int) == Some(d@),
            None => yaml_record_at(views(ls@), b as int) is None,
        },
{
    let n_lines = ls.len();
    assert(b + 11 <= n_lines);
    proof {
        assert(views(ls@)[b as int] == ls@[b as int]@);
        assert(views(ls@)[b + 1] == ls@[b + 1]@);
        assert(views(ls@)[b + 2] == ls@[b + 2]@);
        assert(views(ls@)[b + 3] == ls@[b + 3]@);
        assert(views(ls@)[b + 4] == ls@[b + 4]@);
        assert(views(ls@)[b + 5] == ls@[b + 5]@);
        assert(views(ls@)[b + 6] == ls@[b + 6]@);
        assert(views(ls@)[b + 7] == ls@[b + 7]@);
        assert(views(ls@)[b + 8] == ls@[b + 8]@);
        assert(views(ls@)[b + 9] == ls@[b + 9]@);
        assert(views(ls@)[b + 10] == ls@[b + 10]@);
    }
    let name_sc = match field_scalar_exec(&ls[b], &str_to_chars("- name: ")) {
        Some(Scalar::Text(v)) => v,
        Some(_) => {
            return None;
        },
        None => {
            return None;
        },
    };
    let desc_sc = match field_scalar_exec(&ls[b + 1], &str_to_chars("description: ")) {
        Some(sc) => sc,
        None => {
            return None;
        },
    };
    let tok = match field_scalar_exec(&ls[b + 2], &str_to_chars("dependency_kind: ")) {
        Some(Scalar::Text(v)) => v,
        Some(_) => {
            return None;
        },
        None => {
            return None;
        },
    };
    let curl_sc = match field_scalar_exec(&ls[b + 3], &str_to_chars("crate_url: ")) {
        Some(sc) => sc,
        None => {
            return None;
        },
    };
    let stype = match field_scalar_exec(&ls[b + 4], &str_to_chars("source_type: ")) {
        Some(Scalar::Text(v)) => v,
        Some(_) => {
            return None;
        },
        None => {
            return None;
        },
    };
    let surl_sc = match field_scalar_exec(&ls[b + 5], &str_to_chars("source_url: ")) {
        Some(sc) => sc,
        None => {
            return None;
        },
    };
    if !line_is_exec(&ls[b + 6], &str_to_chars("stats:")) {
        return None;
    }
    let kind = if eq_chars(&tok, &str_to_chars("Normal")) {
        DependencyKind::Normal
    } else if eq_chars(&tok, &str_to_chars("Development")) {
        DependencyKind::Development
    } else if eq_chars(&tok, &str_to_chars("Build")) {
        DependencyKind::Build
    } else if eq_chars(&tok, &str_to_chars("Unknown")) {
        DependencyKind::Unknown
    } else {
        return None;
    };
    let stars_sc = match field_scalar_exec(&ls[b + 7], &str_to_chars("stars: ")) {
        Some(sc) => sc,
        None => {
            return None;
        },
    };
    let downs_sc = match field_scalar_exec(&ls[b + 8], &str_to_chars("downloads: ")) {
        Some(sc) => sc,
        None => {
            return None;
        },
    };
    let failed = match field_scalar_exec(&ls[b + 9], &str_to_chars("failed: ")) {
        Some(Scalar::Flag(x)) => x,
        Some(_) => {
            return None;
        },
        None => {
            return None;
        },
    };
    let msg_sc = match field_scalar_exec(&ls[b + 10], &str_to_chars("error_message: ")) {
        Some(sc) => sc,
        None => {
            return None;
        },
    };
    let description = match desc_sc {
        Scalar::Text(v) => Some(chars_to_string(&v)),
        Scalar::Null => None,
        _ => {
            return None;
        },
    };
    let crate_url = match curl_sc {
        Scalar::Text(v) => Some(chars_to_string(&v)),
        Scalar::Null => None,
        _ => {
            return None;
        },
    };
    let source_url = match surl_sc {
        Scalar::Text(v) => Some(chars_to_string(&v)),
        Scalar::Null => None,
        _ => {
            return None;
        },
    };
    let stars = match stars_sc {
        Scalar::Num(x) => Some(x),
        Scalar::Null => None,
        _ => {
            return None;
        },
    };
    let downloads = match downs_sc {
        Scalar::Num(x) => Some(x),
        Scalar::Null => None,
        _ => {
            return None;
        },
    };
    let error_message = match msg_sc {
        Scalar::Text(v) => Some(chars_to_string(&v)),
        Scalar::Null => None,
        _ => {
            return None;
        },
    };
    Some(
        DependencyInfo {
            name: chars_to_string(&name_sc),
            description,
            dependency_kind: kind,
            crate_url,
            source_type: chars_to_string(&stype),
            source_url,
            stats: DependencyStats { stars, downloads },
            failed,
            error_message,
        },
    )
}

impl YamlFormatter {
    /// Renders records as a block sequence of mappings, in input order.
    pub fn format(&self, deps: &Vec<DependencyInfo>) -> (r: Result<String, AppError>)
        ensures
            r matches Ok(out) && out@ == yaml_render(deps.deep_view()),
    {
        if deps.len() == 0 {
            let out = str_to_chars("[]\n");
            return Ok(chars_to_string(&out));
        }
        let mut out: Vec<char> = Vec::new();
        let mut i: usize = 0;
        proof {
            assert(deps.deep_view().subrange(0, 0) =~= Seq::<RecordView>::empty());
            assert(out@ =~= yaml_items_body(deps.deep_view().subrange(0, 0)));
        }
        while i < deps.len()
            invariant
                i <= deps@.len(),
                deps@.len() > 0,
                deps.deep_view().len() == deps@.len(),
                out@ == yaml_items_body(deps.deep_view().subrange(0, i as int)),
            decreases deps@.len() - i,
        {
            push_yaml_item(&mut out, &deps[i]);
            proof {
                let prefix = deps.deep_view().subrange(0, i as int);
                let next = deps.deep_view().subrange(0, i + 1 as int);
                assert(next.drop_last() =~= prefix);
                assert(next.last() == deps.deep_view()[i as int]);
                assert(deps@[i as int]@ == deps.deep_view()[i as int]);
                assert(out@ =~= yaml_items_body(next));
            }
            i = i + 1;
        }
        proof {
            assert(deps.deep_view().subrange(0, deps@.len() as int) =~= deps.deep_view());
        }
        Ok(chars_to_string(&out))
    }

    /// Reads a key-value document in the layout this codec writes; a
    /// document of any other shape is refused whole.
    #[verifier::rlimit(100)]
    pub fn parse(&self, content: &str) -> (r: Result<Vec<DependencyInfo>, AppError>)
        ensures
            match r {
                Ok(deps) => yaml_parse(content@) == Ok::<Seq<RecordView>, ErrView>(
                    deps.deep_view(),
                ),
                Err(e) => yaml_parse(content@) matches Err(v) && e@ == v,
            },
    {
        let cs = str_to_chars(content);
        let trimmed = trim_ws_exec(&cs);
        if eq_chars(&trimmed, &str_to_chars("[]")) {
            let deps: Vec<DependencyInfo> = Vec::new();
            proof {
                assert(deps.deep_view() =~= Seq::<RecordView>::empty());
            }
            return Ok(deps);
        }
        let all_lines = split_lines_exec(&cs);
        let ls = filter_nonblank(&all_lines);
        proof {
            assert(views(ls@) == nonblank_lines(content@));
        }
        if ls.len() == 0 || ls.len() % 11 != 0 {
            return Err(AppError::InvalidDocument(chars_to_string(&cs)));
        }
        let n = ls.len() / 11;
        let ln = ls.len();
        let ghost whole = yaml_records(views(ls@), 0, n as int, content@);
        let mut deps: Vec<DependencyInfo> = Vec::new();
        let mut k: usize = 0;
        proof {
            assert(deps.deep_view() =~= Seq::<RecordView>::empty());
            match yaml_records(views(ls@), 0, n as int, content@) {
                Ok(rs) => {
                    assert(deps.deep_view() + rs =~= rs);
                },
                Err(_) => {},
            }
        }
        while k < n
            invariant
                k <= n,
                ln == ls@.len(),
                ln == views(ls@).len(),
                ln == 11 * n,
                ln > 0,
                views(ls@) == nonblank_lines(content@),
                trim_ws(content@) != "[]"@,
                cs@ == content@,
                whole == yaml_records(views(ls@), 0, n as int, content@),
                ({
                    let tail = yaml_records(views(ls@), k as int, n as int, content@);
                    match tail {
                        Ok(rs) => whole matches Ok(all) && all == deps.deep_view() + rs,
                        Err(e) => whole == Err::<Seq<RecordView>, ErrView>(e),
                    }
                }),
            decreases n - k,
        {
            proof {
                assert(11 * (k as int) + 11 <= views(ls@).len());
            }
            match yaml_record_at_exec(&ls, 11 * k) {
                Some(dep) => {
                    let ghost before = deps.deep_view();
                    deps.push(dep);
                    proof {
                        assert(deps.deep_view() =~= before.push(dep@));
                        let tail2 = yaml_records(views(ls@), k + 1 as int, n as int, content@);
                        match tail2 {
                            Ok(rs2) => {
                                assert(before + (seq![dep@] + rs2) =~= deps.deep_view() + rs2);
                            },
                            Err(_) => {},
                        }
                    }
                },
                None => {
                    proof {
                        assert(yaml_record_at(views(ls@), 11 * (k as int)) is None);
                        assert(yaml_records(views(ls@), k as int, n as int, content@) == Err::<
                            Seq<RecordView>,
                            ErrView,
                        >(ErrView::InvalidDocument(content@)));
                    }
                    return Err(AppError::InvalidDocument(chars_to_string(&cs)));
                },
            }
            k = k + 1;
        }
        proof {
            assert(yaml_records(views(ls@), n as int, n as int, content@) == Ok::<
                Seq<RecordView>,
                ErrView,
            >(Seq::empty()));
            assert(whole matches Ok(all) && all == deps.deep_view() + Seq::<RecordView>::empty());
            assert(deps.deep_view() + Seq::<RecordView>::empty() =~= deps.deep_view());
        }
        Ok(deps)
    }
}

} // verus!
