//! The cell grammars: link, stats and status cells, decoded from the texts
//! the renderer writes.

use thanku::record::DependencyInfo;

#[test]
fn test_parse_source_link() {
    let (source_type, source_url) =
        DependencyInfo::parse_md_link("[GitHub](https://github.com/serde-rs/serde)").unwrap();
    assert_eq!(source_type, "GitHub");
    assert_eq!(
        source_url,
        Some("https://github.com/serde-rs/serde".to_string())
    );
}

#[test]
fn test_parse_status() {
    let (failed, error_message) = DependencyInfo::parse_status("✅").unwrap();
    assert!(!failed);
    assert_eq!(error_message, None);

    let (failed, error_message) =
        DependencyInfo::parse_status("❌ Unknown error: failed to fetch repository info").unwrap();
    assert!(failed);
    assert_eq!(
        error_message,
        Some("Unknown error: failed to fetch repository info".to_string())
    );

    let (failed, error_message) = DependencyInfo::parse_status("❌ ").unwrap();
    assert!(failed);
    assert_eq!(error_message, None);

    let parse_error = DependencyInfo::parse_status("🍃 test content");
    assert!(parse_error.is_err());
}

#[test]
fn test_parse_stats() {
    let (stars, downloads) = DependencyInfo::parse_stats("🌟 1000 📦 100").unwrap();
    assert_eq!(stars, Some(1000));
    assert_eq!(downloads, Some(100));

    let (stars, downloads) = DependencyInfo::parse_stats("🌟 1000").unwrap();
    assert_eq!(stars, Some(1000));
    assert_eq!(downloads, None);

    let (stars, downloads) = DependencyInfo::parse_stats("📦 100").unwrap();
    assert_eq!(stars, None);
    assert_eq!(downloads, Some(100));

    let (stars, downloads) = DependencyInfo::parse_stats("🍃 test content").unwrap();
    assert!(stars.is_none());
    assert!(downloads.is_none());
}

#[test]
fn bare_label_decodes_without_target() {
    let (label, url) = DependencyInfo::parse_md_link("GitHub").unwrap();
    assert_eq!(label, "GitHub");
    assert_eq!(url, None);
}

#[test]
fn placeholder_stats_cell_decodes_to_neither() {
    let (stars, downloads) = DependencyInfo::parse_stats("❓").unwrap();
    assert_eq!(stars, None);
    assert_eq!(downloads, None);
}

#[test]
fn stats_cell_with_bad_number_is_an_error() {
    let err = DependencyInfo::parse_stats("🌟 notanumber").unwrap_err();
    assert!(matches!(err, thanku::errors::AppError::InvalidStats(_)));
}

#[test]
fn status_cell_keeps_message_text() {
    let (failed, message) = DependencyInfo::parse_status("❌ boom").unwrap();
    assert!(failed);
    assert_eq!(message, Some("boom".to_string()));
}

#[test]
fn optional_text_trims_and_empties_to_none() {
    assert_eq!(DependencyInfo::option_from_str("  ").unwrap(), None);
    assert_eq!(
        DependencyInfo::option_from_str(" hi ").unwrap(),
        Some("hi".to_string())
    );
}

#[test]
fn to_strings_prefers_stars_and_marks_failure() {
    let dep = DependencyInfo {
        name: "serde".to_string(),
        description: None,
        dependency_kind: thanku::record::DependencyKind::Normal,
        crate_url: None,
        source_type: "crates.io".to_string(),
        source_url: None,
        stats: thanku::record::DependencyStats {
            stars: Some(7),
            downloads: Some(9),
        },
        failed: true,
        error_message: None,
    };
    let (name, desc, crates_link, source_link, stats, status) = dep.to_strings();
    assert_eq!(name, "serde");
    assert_eq!(desc, "unknown");
    assert_eq!(crates_link, "serde");
    assert_eq!(source_link, "crates.io");
    assert_eq!(stats, "🌟 7");
    assert_eq!(status, "❌ Failed");
}

#[test]
fn description_newlines_become_spaces() {
    let dep = DependencyInfo {
        name: "x".to_string(),
        description: Some("one\ntwo".to_string()),
        dependency_kind: thanku::record::DependencyKind::Normal,
        crate_url: None,
        source_type: "s".to_string(),
        source_url: None,
        stats: thanku::record::DependencyStats {
            stars: None,
            downloads: None,
        },
        failed: false,
        error_message: None,
    };
    let (_, desc, _, _, _, _) = dep.to_strings();
    assert_eq!(desc, "one two");
}
