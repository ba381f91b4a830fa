//! Format detection and whole-report conversion.

use thanku::labels::Labels;
use thanku::output::OutputFormat;
use thanku::travert::{Converter, Travert};

#[test]
fn test_detect_markdown_table() {
    let content = "\
        | 名称 | 描述 |\n\
        |---|---|\n\
        | hello | world |";
    let format = Travert::detect_markdown_content_format(content).unwrap();
    assert_eq!(format, OutputFormat::MarkdownTable);
}

#[test]
fn test_complex_table() {
    let content1 = "\
    | Left | Center | Right |\n\
    |:-----|:------:|------:|\n\
    | data | data   | data  |";
    assert_eq!(
        Travert::detect_markdown_content_format(content1).unwrap(),
        OutputFormat::MarkdownTable
    );

    let content2 = "\
    | Column 1   | Column 2 |\n\
    |------------|----------|\n\
    | some value | another  |";
    assert_eq!(
        Travert::detect_markdown_content_format(content2).unwrap(),
        OutputFormat::MarkdownTable
    );

    let content3 = "\
    - Item 1\n\
    - Item 2";
    assert_eq!(
        Travert::detect_markdown_content_format(content3).unwrap(),
        OutputFormat::MarkdownList
    );
}

#[test]
fn test_detect_markdown_list() {
    let content = "
        * hello
        * world
        ";
    let format = Travert::detect_markdown_content_format(content).unwrap();
    assert_eq!(format, OutputFormat::MarkdownList);
}

#[test]
fn test_detect_markdown_list_2() {
    let content = "
        - | 名称 | 描述 |
        - |:---:|:---:|
        - | hello | world |
        ";
    let format = Travert::detect_markdown_content_format(content).unwrap();
    assert_eq!(format, OutputFormat::MarkdownList);
}

#[test]
fn judge_format_dispatches_on_extension() {
    assert_eq!(
        Travert::judge_format("report.csv", true, "").unwrap(),
        OutputFormat::Csv
    );
    assert_eq!(
        Travert::judge_format("report.json", true, "").unwrap(),
        OutputFormat::Json
    );
    assert_eq!(
        Travert::judge_format("report.yml", true, "").unwrap(),
        OutputFormat::Yaml
    );
    assert_eq!(
        Travert::judge_format("report.YAML", true, "").unwrap(),
        OutputFormat::Yaml
    );
    assert_eq!(
        Travert::judge_format("dir/report.md", true, "| a | b |\n|---|---|\n").unwrap(),
        OutputFormat::MarkdownTable
    );
    assert_eq!(
        Travert::judge_format("notes.md", true, "just text").unwrap(),
        OutputFormat::MarkdownList
    );
}

#[test]
fn judge_format_refuses_missing_file_and_unknown_extension() {
    let err = Travert::judge_format("report.csv", false, "").unwrap_err();
    assert!(matches!(
        err,
        thanku::errors::AppError::CannotJudgeFormat(_)
    ));
    let err = Travert::judge_format("report.xyz", true, "").unwrap_err();
    assert!(matches!(
        err,
        thanku::errors::AppError::CannotJudgeFormat(_)
    ));
}

#[test]
fn converter_produces_every_target_before_any_write() {
    let labels = Labels::english();
    let source_text = "\n| Name | Description | Crates Link | Source Link | Stats | Status |\n|---|---|---|---|---|---|\n| 🔍 | Normal | | | | |\n| serde | a framework | [serde](https://crates.io/crates/serde) | [GitHub](https://github.com/serde-rs/serde) | 🌟 1000 | ✅ |\n";
    let source = Travert::new_with_format("in.md", OutputFormat::MarkdownTable);
    let targets = vec![
        Travert::new_with_format("out.json", OutputFormat::Json),
        Travert::new_with_format("out.csv", OutputFormat::Csv),
        Travert::new_with_format("out.yaml", OutputFormat::Yaml),
    ];
    let converter = Converter::new(source, targets).unwrap();
    let outs = converter.convert(source_text, &labels).unwrap();
    assert_eq!(outs.len(), 3);
    assert_eq!(outs[0].0, "out.json");
    assert!(outs[0].1.contains("\"name\": \"serde\""));
    assert_eq!(outs[1].0, "out.csv");
    assert!(outs[1].1.contains("serde"));
    assert_eq!(outs[2].0, "out.yaml");
    assert!(outs[2].1.contains("- name: \"serde\""));
}

#[test]
fn converter_failing_parse_yields_no_output_at_all() {
    let labels = Labels::english();
    let source = Travert::new_with_format("in.json", OutputFormat::Json);
    let targets = vec![
        Travert::new_with_format("a.csv", OutputFormat::Csv),
        Travert::new_with_format("b.yaml", OutputFormat::Yaml),
        Travert::new_with_format("c.md", OutputFormat::MarkdownTable),
    ];
    let converter = Converter::new(source, targets).unwrap();
    let result = converter.convert("this is not a report", &labels);
    assert!(result.is_err());
}

#[test]
fn converted_report_round_trips_across_formats() {
    let labels = Labels::english();
    let csv_source = {
        let records = vec![thanku::record::DependencyInfo {
            name: "serde".to_string(),
            description: Some("a framework".to_string()),
            dependency_kind: thanku::record::DependencyKind::Normal,
            crate_url: Some("https://crates.io/crates/serde".to_string()),
            source_type: "GitHub".to_string(),
            source_url: Some("https://github.com/serde-rs/serde".to_string()),
            stats: thanku::record::DependencyStats {
                stars: Some(1000),
                downloads: None,
            },
            failed: false,
            error_message: None,
        }];
        thanku::csv::CsvFormatter.format(&records, &labels).unwrap()
    };
    let source = Travert::new_with_format("in.csv", OutputFormat::Csv);
    let targets = vec![Travert::new_with_format(
        "out.md",
        OutputFormat::MarkdownList,
    )];
    let converter = Converter::new_with_format(source, targets).unwrap();
    let outs = converter.convert(&csv_source, &labels).unwrap();
    let back = thanku::list::MarkdownListFormatter
        .parse(&outs[0].1, &labels)
        .unwrap();
    assert_eq!(back.len(), 1);
    assert_eq!(back[0].name, "serde");
    assert_eq!(back[0].stats.stars, Some(1000));
}
