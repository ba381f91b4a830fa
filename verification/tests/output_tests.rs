//! The shared interface: format tokens, the dispatching formatter, the
//! buffered output manager, and report generation from fetched results.

use thanku::labels::Labels;
use thanku::output::{generate_output, Formatter, OutputFormat, OutputManager};
use thanku::record::{DependencyInfo, DependencyKind, DependencyStats};

fn serde_entry(kind: DependencyKind) -> DependencyInfo {
    DependencyInfo {
        name: "serde".to_string(),
        description: Some(
            "A data interchange format with a strong focus on simplicity and usability."
                .to_string(),
        ),
        crate_url: Some("https://crates.io/crates/serde".to_string()),
        source_type: "GitHub".to_string(),
        source_url: Some("https://github.com/serde-rs/serde".to_string()),
        stats: DependencyStats {
            stars: Some(1000),
            downloads: None,
        },
        failed: false,
        error_message: None,
        dependency_kind: kind,
    }
}

#[test]
fn test_write_to_memory() {
    let labels = Labels::english();
    let deps = vec![serde_entry(DependencyKind::Unknown)];
    let mut manager = OutputManager::new(OutputFormat::MarkdownTable);
    manager.write(&deps, &labels).unwrap();
    let output = manager.buffer;
    assert!(output.contains("| [serde](https://crates.io/crates/serde) |"));
    assert!(output.contains("🌟 1000"));
    assert!(output.contains("Unknown"));
}

#[test]
fn output_manager_appends_on_each_write() {
    let labels = Labels::english();
    let deps = vec![serde_entry(DependencyKind::Normal)];
    let mut manager = OutputManager::new(OutputFormat::Csv);
    manager.write(&deps, &labels).unwrap();
    let first = manager.buffer.len();
    manager.write(&deps, &labels).unwrap();
    assert_eq!(manager.buffer.len(), 2 * first);
}

#[test]
fn format_tokens_round_trip() {
    for format in [
        OutputFormat::MarkdownTable,
        OutputFormat::MarkdownList,
        OutputFormat::Csv,
        OutputFormat::Json,
        OutputFormat::Yaml,
    ] {
        let token = format.token();
        assert_eq!(OutputFormat::from_str(token).unwrap(), format);
        assert_eq!(
            OutputFormat::from_str(&token.to_uppercase()).unwrap(),
            format
        );
    }
    assert!(matches!(
        OutputFormat::from_str("toml").unwrap_err(),
        thanku::errors::AppError::InvalidOutputFormat(_)
    ));
}

#[test]
fn formatter_dispatches_by_format() {
    let labels = Labels::english();
    let deps = vec![serde_entry(DependencyKind::Normal)];
    let json = Formatter::new(OutputFormat::Json).unwrap();
    let text = json.format(&deps, &labels).unwrap();
    assert!(text.starts_with("[\n"));
    let back = json.parse(&text, &labels).unwrap();
    assert_eq!(back.len(), 1);
    assert_eq!(back[0].name, "serde");
}

#[test]
fn generated_output_covers_all_results() {
    let labels = Labels::english();
    let results = vec![
        ("serde".to_string(), serde_entry(DependencyKind::Normal)),
        ("tokio".to_string(), {
            let mut dep = serde_entry(DependencyKind::Normal);
            dep.name = "tokio".to_string();
            dep
        }),
    ];
    let text = generate_output(&results, &OutputFormat::MarkdownList, &labels).unwrap();
    assert!(text.contains("- serde :"));
    assert!(text.contains("- tokio :"));
    assert!(text.contains("# Dependencies"));
}
