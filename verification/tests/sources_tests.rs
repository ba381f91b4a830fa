//! Source classification through the url crate, record assembly, and the
//! configuration and catalog values.

use thanku::config::{Config, LinkSource};
use thanku::output::OutputFormat;
use thanku::record::{DependencyKind, DependencyInfo};
use thanku::sources::{failed_info, get_crate_url, github_owner_repo, resolve_dependency, Source};
use thanku::labels::Labels;

#[test]
fn test_source_from_github_url() {
    if let Some(Source::GitHub { owner, repo, .. }) =
        Source::from_url(Some("https://github.com/owner/repo"))
    {
        assert_eq!(owner, "owner");
        assert_eq!(repo, "repo");
    } else {
        panic!("Expected GitHub source");
    }
}

#[test]
fn test_source_from_cratesio_url() {
    if let Some(Source::CratesIo { name, .. }) =
        Source::from_url(Some("https://crates.io/crates/serde"))
    {
        assert_eq!(name, "crates/serde");
    } else {
        panic!("Expected CratesIo source");
    }
}

#[test]
fn test_source_from_link_url() {
    if let Some(Source::Link { url: link_url, .. }) =
        Source::from_url(Some("https://example.com/path/to/resource"))
    {
        assert_eq!(link_url, "https://example.com/path/to/resource");
    } else {
        panic!("Expected Link source");
    }
}

#[test]
fn test_source_from_other_url() {
    if let Some(Source::Other { description, .. }) =
        Source::from_url(Some("https://example.com/path/to/resource"))
    {
        assert_eq!(description, "https://example.com/path/to/resource");
    }
}

#[test]
fn github_repository_suffix_is_dropped() {
    if let Some(Source::GitHub { owner, repo, .. }) =
        Source::from_url(Some("https://github.com/serde-rs/serde.git"))
    {
        assert_eq!(owner, "serde-rs");
        assert_eq!(repo, "serde");
    } else {
        panic!("Expected GitHub source");
    }
}

#[test]
fn owner_and_repo_are_read_from_repository_links() {
    let parts = github_owner_repo("https://github.com/serde-rs/serde");
    assert_eq!(
        parts,
        Some(("serde-rs".to_string(), "serde".to_string()))
    );
    assert_eq!(github_owner_repo("https://example.com/a/b"), None);
    assert_eq!(github_owner_repo("not a url"), None);
}

#[test]
fn resolved_github_dependency_keeps_stars() {
    let dep = resolve_dependency(
        "serde",
        Some("a framework".to_string()),
        Some("https://github.com/serde-rs/serde"),
        123,
        Some(1000),
    );
    assert_eq!(dep.name, "serde");
    assert_eq!(dep.source_type, "GitHub");
    assert_eq!(
        dep.source_url,
        Some("https://github.com/serde-rs/serde".to_string())
    );
    assert_eq!(dep.stats.stars, Some(1000));
    assert_eq!(dep.stats.downloads, None);
    assert_eq!(
        dep.crate_url,
        Some("https://crates.io/crates/serde".to_string())
    );
    assert!(!dep.failed);
}

#[test]
fn resolved_registry_dependency_keeps_downloads() {
    let dep = resolve_dependency("serde", None, None, 123, None);
    assert_eq!(dep.source_type, "crates.io");
    assert_eq!(
        dep.source_url,
        Some("https://crates.io/crates/serde".to_string())
    );
    assert_eq!(dep.stats.stars, None);
    assert_eq!(dep.stats.downloads, Some(123));
}

#[test]
fn resolved_plain_link_dependency_has_no_counts() {
    let dep = resolve_dependency(
        "thing",
        None,
        Some("https://example.com/thing"),
        5,
        Some(1),
    );
    assert_eq!(dep.source_type, "Source");
    assert_eq!(
        dep.source_url,
        Some("https://example.com/thing".to_string())
    );
    assert_eq!(dep.stats.stars, None);
    assert_eq!(dep.stats.downloads, None);
}

#[test]
fn degraded_record_carries_the_failure() {
    let dep = failed_info("broken", "network down");
    assert_eq!(dep.name, "broken");
    assert!(dep.failed);
    assert_eq!(dep.error_message, Some("network down".to_string()));
    assert_eq!(dep.source_type, "Unknown");
    assert_eq!(
        dep.crate_url,
        Some("https://crates.io/crates/broken".to_string())
    );
}

#[test]
fn registry_pages_follow_the_name() {
    assert_eq!(get_crate_url("serde"), "https://crates.io/crates/serde");
}

#[test]
fn link_source_tokens_are_exact() {
    assert_eq!(LinkSource::from_str("github").unwrap(), LinkSource::GitHub);
    assert_eq!(
        LinkSource::from_str("crates-io").unwrap(),
        LinkSource::CratesIo
    );
    assert_eq!(
        LinkSource::from_str("link-empty").unwrap(),
        LinkSource::LinkEmpty
    );
    assert_eq!(LinkSource::from_str("other").unwrap(), LinkSource::Other);
    assert!(matches!(
        LinkSource::from_str("GitHub").unwrap_err(),
        thanku::errors::AppError::InvalidLinkSource(_)
    ));
}

#[test]
fn default_config_matches_the_documented_values() {
    let config = Config::default();
    assert_eq!(config.input, "Cargo.toml");
    assert_eq!(config.output, None);
    assert_eq!(config.format, OutputFormat::MarkdownTable);
    assert_eq!(config.link_source, LinkSource::GitHub);
    assert_eq!(config.language, "zh");
    assert_eq!(config.max_concurrent_requests, 5);
    assert_eq!(config.max_retries, 3);
}

#[test]
fn manifest_path_resolution_follows_the_file_system_facts() {
    let mut config = Config::default();
    config.input = "proj".to_string();
    assert_eq!(
        config.get_cargo_toml_path(true, true, false).unwrap(),
        "proj/Cargo.toml"
    );
    config.input = "proj/Cargo.toml".to_string();
    assert_eq!(
        config.get_cargo_toml_path(false, false, true).unwrap(),
        "proj/Cargo.toml"
    );
    config.input = "proj/readme.md".to_string();
    assert!(config.get_cargo_toml_path(false, false, true).is_err());
}

#[test]
fn kind_labels_round_trip_through_the_catalog() {
    let labels = Labels::english();
    for kind in [
        DependencyKind::Normal,
        DependencyKind::Development,
        DependencyKind::Build,
        DependencyKind::Unknown,
    ] {
        let label = kind.label(&labels);
        assert_eq!(DependencyKind::from_str(&label, &labels).unwrap(), kind);
        let upper = label.to_uppercase();
        assert_eq!(DependencyKind::from_str(&upper, &labels).unwrap(), kind);
    }
    assert!(matches!(
        DependencyKind::from_str("mystery", &labels).unwrap_err(),
        thanku::errors::AppError::InvalidDependencyKind(_)
    ));
}

#[test]
fn section_markers_read_back_their_kind() {
    let labels = Labels::english();
    for kind in [
        DependencyKind::Normal,
        DependencyKind::Development,
        DependencyKind::Build,
        DependencyKind::Unknown,
    ] {
        let row = format!("| {} | | | | | |", kind.label(&labels));
        assert_eq!(
            DependencyKind::try_from_table_header(&row, &labels).unwrap(),
            kind
        );
        let heading = kind.to_md_list_header(&labels);
        assert_eq!(
            DependencyKind::try_from_list_header(&heading, &labels).unwrap(),
            kind
        );
    }
    assert!(matches!(
        DependencyKind::try_from_table_header("no pipes here", &labels).unwrap_err(),
        thanku::errors::AppError::InvalidTableHeader(_)
    ));
}

#[test]
fn record_clone_and_default_are_plain() {
    let dep = DependencyInfo::default();
    assert_eq!(dep.name, "");
    assert_eq!(dep.dependency_kind, DependencyKind::Normal);
    let copy = dep.clone();
    assert_eq!(copy.name, dep.name);
    assert_eq!(copy.failed, dep.failed);
}

#[test]
fn records_follow_their_classified_source() {
    let dep = DependencyInfo::from_source(
        "serde",
        &Source::GitHub {
            owner: "serde-rs".to_string(),
            repo: "serde".to_string(),
            stars: Some(9),
        },
    );
    assert_eq!(dep.name, "serde");
    assert_eq!(dep.source_type, "GitHub");
    assert_eq!(
        dep.source_url,
        Some("https://github.com/serde-rs/serde".to_string())
    );
    assert_eq!(dep.stats.stars, Some(9));
    let dep = DependencyInfo::from_source(
        "serde",
        &Source::CratesIo {
            name: "serde".to_string(),
            downloads: Some(4),
        },
    );
    assert_eq!(dep.source_type, "crates.io");
    assert_eq!(dep.source_url, None);
    assert_eq!(dep.stats.downloads, Some(4));
    let dep = DependencyInfo::from_source(
        "thing",
        &Source::Other {
            description: "hand made".to_string(),
        },
    );
    assert_eq!(dep.description, Some("hand made".to_string()));
    assert_eq!(dep.source_type, "hand made");
}
