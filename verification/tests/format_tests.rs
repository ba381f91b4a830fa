//! The five per-format codecs: rendering, parsing, table extraction, list
//! scoping, and the round trip through each format.

use thanku::csv::CsvFormatter;
use thanku::json::JsonFormatter;
use thanku::labels::Labels;
use thanku::list::MarkdownListFormatter;
use thanku::record::{DependencyInfo, DependencyKind, DependencyStats};
use thanku::table::MarkdownTableFormatter;
use thanku::yaml::YamlFormatter;

fn serde_record() -> DependencyInfo {
    DependencyInfo {
        name: "serde".to_string(),
        description: Some(
            "A data interchange format with a strong focus on simplicity and usability."
                .to_string(),
        ),
        crate_url: Some("https://crates.io/crates/serde".to_string()),
        source_type: "GitHub".to_string(),
        source_url: Some("https://github.com/serde-rs/serde".to_string()),
        stats: DependencyStats {
            stars: Some(1000),
            downloads: None,
        },
        failed: false,
        error_message: None,
        dependency_kind: DependencyKind::Normal,
    }
}

fn canonical_records() -> Vec<DependencyInfo> {
    vec![
        DependencyInfo {
            name: "anyhow".to_string(),
            description: Some("Flexible concrete Error type".to_string()),
            dependency_kind: DependencyKind::Normal,
            crate_url: Some("https://crates.io/crates/anyhow".to_string()),
            source_type: "GitHub".to_string(),
            source_url: Some("https://github.com/dtolnay/anyhow".to_string()),
            stats: DependencyStats {
                stars: Some(5000),
                downloads: None,
            },
            failed: false,
            error_message: None,
        },
        DependencyInfo {
            name: "serde".to_string(),
            description: Some("A data interchange framework".to_string()),
            dependency_kind: DependencyKind::Normal,
            crate_url: Some("https://crates.io/crates/serde".to_string()),
            source_type: "GitHub".to_string(),
            source_url: Some("https://github.com/serde-rs/serde".to_string()),
            stats: DependencyStats {
                stars: None,
                downloads: Some(123456),
            },
            failed: false,
            error_message: None,
        },
        DependencyInfo {
            name: "zzz".to_string(),
            description: Some("A waiting aid".to_string()),
            dependency_kind: DependencyKind::Development,
            crate_url: Some("https://crates.io/crates/zzz".to_string()),
            source_type: "GitHub".to_string(),
            source_url: Some("https://github.com/example/zzz".to_string()),
            stats: DependencyStats {
                stars: None,
                downloads: None,
            },
            failed: true,
            error_message: Some("boom".to_string()),
        },
    ]
}

fn assert_same_records(a: &[DependencyInfo], b: &[DependencyInfo]) {
    assert_eq!(a.len(), b.len());
    for (x, y) in a.iter().zip(b.iter()) {
        assert_eq!(x.name, y.name);
        assert_eq!(x.description, y.description);
        assert_eq!(x.dependency_kind, y.dependency_kind);
        assert_eq!(x.crate_url, y.crate_url);
        assert_eq!(x.source_type, y.source_type);
        assert_eq!(x.source_url, y.source_url);
        assert_eq!(x.stats.stars, y.stats.stars);
        assert_eq!(x.stats.downloads, y.stats.downloads);
        assert_eq!(x.failed, y.failed);
        assert_eq!(x.error_message, y.error_message);
    }
}

#[test]
fn test_markdown_table_formatter() {
    let labels = Labels::english();
    let deps = vec![serde_record()];
    let formatter = MarkdownTableFormatter;
    let result = formatter.format(&deps, &labels).unwrap();
    println!("{}", result);
    assert!(result.contains("| [serde](https://crates.io/crates/serde) |"));
    assert!(result.contains(" 🌟 1000"));
}

#[test]
fn test_try_from_md_list_line() {
    let labels = Labels::english();
    const LINE: &str = "- serde : serde is a powerful data serialization framework for Rust - [serde](https://crates.io/crates/serde) [GitHub](https://github.com/serde-rs/serde) (🌟 1000 📦 100) ✅";

    let dep =
        DependencyInfo::try_from_md_list_line(LINE, &DependencyKind::Normal, &labels).unwrap();
    assert_eq!(dep.name, "serde");
    assert_eq!(
        dep.description,
        Some("serde is a powerful data serialization framework for Rust".to_string())
    );
    assert_eq!(dep.dependency_kind, DependencyKind::Normal);
    assert_eq!(
        dep.crate_url,
        Some("https://crates.io/crates/serde".to_string())
    );
    assert_eq!(dep.source_type, "GitHub");
    assert_eq!(
        dep.source_url,
        Some("https://github.com/serde-rs/serde".to_string())
    );
    assert_eq!(dep.stats.stars, Some(1000));
    assert_eq!(dep.stats.downloads, Some(100));
    assert!(!dep.failed);
    assert_eq!(dep.error_message, None);

    let test_line = "- anyhow : Flexible concrete Error type built on std::error::Error - [anyhow](https://crates.io/crates/anyhow) [GitHub](https://github.com/dtolnay/anyhow) (❓) ✅";
    let dep =
        DependencyInfo::try_from_md_list_line(test_line, &DependencyKind::Development, &labels)
            .unwrap();
    assert_eq!(dep.name, "anyhow");
    assert_eq!(
        dep.description,
        Some("Flexible concrete Error type built on std::error::Error".to_string())
    );
    assert_eq!(dep.dependency_kind, DependencyKind::Development);
    assert_eq!(
        dep.crate_url,
        Some("https://crates.io/crates/anyhow".to_string())
    );
    assert_eq!(dep.source_type, "GitHub");
    assert_eq!(
        dep.source_url,
        Some("https://github.com/dtolnay/anyhow".to_string())
    );
    assert_eq!(dep.stats.stars, None);
    assert_eq!(dep.stats.downloads, None);
    assert!(!dep.failed);
}

#[test]
fn test_try_from_md_table_line() {
    let labels = Labels::english();
    const LINE: &str = "| anyhow | Flexible concrete Error type built on std::error::Error | [anyhow](https://crates.io/crates/anyhow) | [GitHub](https://github.com/dtolnay/anyhow) | ❓ | ✅ |";

    let dep =
        DependencyInfo::try_from_md_table_line(LINE, &DependencyKind::Normal, &labels).unwrap();
    assert_eq!(dep.name, "anyhow");
    assert_eq!(
        dep.description,
        Some("Flexible concrete Error type built on std::error::Error".to_string())
    );
    assert_eq!(dep.dependency_kind, DependencyKind::Normal);
    assert_eq!(
        dep.crate_url,
        Some("https://crates.io/crates/anyhow".to_string())
    );
    assert_eq!(dep.source_type, "GitHub");
    assert_eq!(
        dep.source_url,
        Some("https://github.com/dtolnay/anyhow".to_string())
    );
    assert_eq!(dep.stats.stars, None);
    assert_eq!(dep.stats.downloads, None);
    assert!(!dep.failed);
    assert_eq!(dep.error_message, None);
}

const TEST_MD_TABLE: &str = r"hfshdfhsfjsdjfgg
    | 名称 | 描述 |  |
    |:---:|:---:|:---:|
    | hello | world | NIhao |
    | 名称 | 描述 | No 1 end|
    |:---:|:---:|| 名称 | 描述 | | |
    |:---:|:---:|
    | 名称 | 描述 |  | 第二个 |
    |:---:|:---:|:---:|:---:|
    | hello | world | NIhao | :---:|
    |:---:|:---:|| 名称 |
    |:---:|:---:|
    | hello | world |
    | 名称 | 描述 | | |
    |:---:|:---:|
    ";

#[test]
fn test_find_md_start_end_pos() {
    let md_table =
        MarkdownTableFormatter::get_first_md_table(TEST_MD_TABLE).expect("no table found");
    println!("{}", md_table);
}

#[test]
fn test_md_table_func() {
    let labels = Labels::english();
    let header = MarkdownTableFormatter::get_header(&labels);
    let column_num = MarkdownTableFormatter::get_column_num();
    let separator = MarkdownTableFormatter::get_separator();
    println!("{} {} {}", header, column_num, separator);
}

const TEST_MD_LIST: &str = "# 依赖项
## Normal
## Development
- 1serde : serde is a powerful data serialization framework for Rust - [serde](https://crates.io/crates/serde) [GitHub](https://github.com/serde-rs/serde) (🌟 1000 📦 100) ✅
### 开发依赖
- 2serde : serde is a powerful data serialization framework for Rust - [serde](https://crates.io/crates/serde) [GitHub](https://github.com/serde-rs/serde) (🌟 1000 📦 100) ✅
- 3serde : serde is a powerful data serialization framework for Rust - [serde](https://crates.io/crates/serde) [GitHub](https://github.com/serde-rs/serde) (🌟 1000 📦 100) ✅
- 4serde : serde is a powerful data serialization framework for Rust - [serde](https://crates.io/crates/serde) [GitHub](https://github.com/serde-rs/serde) (🌟 1000 📦 100) ✅
## Build
- 5serde : serde is a powerful data serialization framework for Rust - [serde](https://crates.io/crates/serde) [GitHub](https://github.com/serde-rs/serde) (🌟 1000 📦 100) ✅
- 6serde : serde is a powerful data serialization framework for Rust - [serde](https://crates.io/crates/serde) [GitHub](https://github.com/serde-rs/serde) (🌟 1000 📦 100) ✅
- 7serde : serde is a powerful data serialization framework for Rust - [serde](https://crates.io/crates/serde) [GitHub](https://github.com/serde-rs/serde) (🌟 1000 📦 100) ✅
- 8serde : serde is a powerful data serialization framework for Rust - [serde](https://crates.io/crates/serde) [GitHub](https://github.com/serde-rs/serde) (🌟 1000 📦 100) ✅
## Unknown
- 9serde : serde is a powerful data serialization framework for Rust - [serde](https://crates.io/crates/serde) [GitHub](https://github.com/serde-rs/serde) (🌟 1000 📦 100) ✅
### 未知依赖";

#[test]
fn test_find_md_list() {
    let labels = Labels::english();
    let md_list_content = MarkdownListFormatter::get_first_md_list(TEST_MD_LIST, &labels);
    assert!(md_list_content.is_some());
    println!("{}", md_list_content.unwrap());
}

#[test]
fn table_extraction_returns_exact_span() {
    let text = "noise | not a table\nmore noise\n| A | B |\n|---|---|\n| 1 | 2 |\nafter | malformed | line |\n";
    let span = MarkdownTableFormatter::get_first_md_table(text).unwrap();
    assert_eq!(span, "| A | B |\n|---|---|\n| 1 | 2 |");
}

#[test]
fn table_round_trip() {
    let labels = Labels::english();
    let records = canonical_records();
    let formatter = MarkdownTableFormatter;
    let text = formatter.format(&records, &labels).unwrap();
    let back = formatter.parse(&text, &labels).unwrap();
    assert_same_records(&records, &back);
}

#[test]
fn list_round_trip() {
    let labels = Labels::english();
    let records = canonical_records();
    let formatter = MarkdownListFormatter;
    let text = formatter.format(&records, &labels).unwrap();
    let back = formatter.parse(&text, &labels).unwrap();
    assert_same_records(&records, &back);
}

#[test]
fn csv_round_trip() {
    let labels = Labels::english();
    let records = canonical_records();
    let formatter = CsvFormatter;
    let text = formatter.format(&records, &labels).unwrap();
    let back = formatter.parse(&text, &labels).unwrap();
    assert_same_records(&records, &back);
}

#[test]
fn json_round_trip() {
    let records = canonical_records();
    let formatter = JsonFormatter;
    let text = formatter.format(&records).unwrap();
    let back = formatter.parse(&text).unwrap();
    assert_same_records(&records, &back);
}

#[test]
fn json_round_trip_with_special_characters() {
    let mut records = canonical_records();
    records[0].description = Some("quote \" slash \\ line\nbreak\ttab".to_string());
    let formatter = JsonFormatter;
    let text = formatter.format(&records).unwrap();
    let back = formatter.parse(&text).unwrap();
    assert_same_records(&records, &back);
}

#[test]
fn json_renders_valid_json() {
    let records = canonical_records();
    let formatter = JsonFormatter;
    let text = formatter.format(&records).unwrap();
    let value: serde_json::Value = serde_json::from_str(&text).unwrap();
    assert_eq!(value.as_array().unwrap().len(), 3);
    assert_eq!(value[0]["name"], serde_json::Value::String("anyhow".to_string()));
    assert_eq!(value[2]["failed"], serde_json::Value::Bool(true));
}

#[test]
fn json_unicode_escape_is_read_back() {
    let text = "[\n  {\n    \"name\": \"\\u0041bc\",\n    \"description\": null,\n    \"dependency_kind\": \"Normal\",\n    \"crate_url\": null,\n    \"source_type\": \"s\",\n    \"source_url\": null,\n    \"stats\": {\n      \"stars\": null,\n      \"downloads\": null\n    },\n    \"failed\": false,\n    \"error_message\": null\n  }\n]";
    let formatter = JsonFormatter;
    let back = formatter.parse(text).unwrap();
    assert_eq!(back.len(), 1);
    assert_eq!(back[0].name, "Abc");
}

#[test]
fn json_malformed_document_is_refused() {
    let formatter = JsonFormatter;
    let err = formatter.parse("{ not an array }").unwrap_err();
    assert!(matches!(err, thanku::errors::AppError::InvalidDocument(_)));
}

#[test]
fn yaml_round_trip() {
    let records = canonical_records();
    let formatter = YamlFormatter;
    let text = formatter.format(&records).unwrap();
    let back = formatter.parse(&text).unwrap();
    assert_same_records(&records, &back);
}

#[test]
fn yaml_empty_list_round_trip() {
    let formatter = YamlFormatter;
    let text = formatter.format(&Vec::new()).unwrap();
    assert_eq!(text, "[]\n");
    let back = formatter.parse(&text).unwrap();
    assert!(back.is_empty());
}

#[test]
fn json_empty_list_round_trip() {
    let formatter = JsonFormatter;
    let text = formatter.format(&Vec::new()).unwrap();
    assert_eq!(text, "[]");
    let back = formatter.parse(&text).unwrap();
    assert!(back.is_empty());
}

#[test]
fn csv_mismatched_columns_fail_structurally() {
    let labels = Labels::english();
    let err = DependencyInfo::try_from_csv_line("a,b,c", 7, &labels).unwrap_err();
    assert!(matches!(err, thanku::errors::AppError::InvalidCsvContent(_)));
}

#[test]
fn csv_seven_columns_populate_all_fields() {
    let labels = Labels::english();
    let line = "serde,a powerful framework,normal,[serde](https://crates.io/crates/serde),[GitHub](https://github.com/serde-rs/serde),🌟 1000,✅";
    let dep = DependencyInfo::try_from_csv_line(line, 7, &labels).unwrap();
    assert_eq!(dep.name, "serde");
    assert_eq!(dep.description, Some("a powerful framework".to_string()));
    assert_eq!(dep.dependency_kind, DependencyKind::Normal);
    assert_eq!(
        dep.crate_url,
        Some("https://crates.io/crates/serde".to_string())
    );
    assert_eq!(dep.source_type, "GitHub");
    assert_eq!(
        dep.source_url,
        Some("https://github.com/serde-rs/serde".to_string())
    );
    assert_eq!(dep.stats.stars, Some(1000));
    assert!(!dep.failed);
}

#[test]
fn csv_semicolons_stand_for_encoded_commas() {
    let labels = Labels::english();
    let mut records = canonical_records();
    records[0].description = Some("one, two".to_string());
    let formatter = CsvFormatter;
    let text = formatter.format(&records, &labels).unwrap();
    assert!(text.contains("one; two"));
    // The substitution is one-way: decoding keeps the semicolons as written.
    let back = formatter.parse(&text, &labels).unwrap();
    assert_eq!(back[0].description, Some("one; two".to_string()));
}

#[test]
fn csv_description_semicolons_survive_round_trip() {
    let labels = Labels::english();
    let mut records = canonical_records();
    records[0].description = Some("one; two".to_string());
    let formatter = CsvFormatter;
    let text = formatter.format(&records, &labels).unwrap();
    let back = formatter.parse(&text, &labels).unwrap();
    assert_eq!(back[0].description, Some("one; two".to_string()));
}

#[test]
fn list_section_scoping_counts_by_subheading() {
    let labels = Labels::english();
    let item = |n: u32| {
        format!(
            "- dep{} : a thing - [dep{}](https://crates.io/crates/dep{}) [GitHub](https://github.com/a/b) (❓) ✅",
            n, n, n
        )
    };
    let text = format!(
        "# Dependencies\n## Development\n{}\n{}\n{}\n#### aside\n## Build\n{}\n{}\n",
        item(1),
        item(2),
        item(3),
        item(4),
        item(5)
    );
    let formatter = MarkdownListFormatter;
    let back = formatter.parse(&text, &labels).unwrap();
    assert_eq!(back.len(), 5);
    let dev = back
        .iter()
        .filter(|d| d.dependency_kind == DependencyKind::Development)
        .count();
    let build = back
        .iter()
        .filter(|d| d.dependency_kind == DependencyKind::Build)
        .count();
    assert_eq!(dev, 3);
    assert_eq!(build, 2);
}

#[test]
fn list_parse_skips_bad_item_lines() {
    let labels = Labels::english();
    let text = "# Dependencies\n## Normal\n- good : fine - [good](https://crates.io/crates/good) [GitHub](https://github.com/a/b) (❓) ✅\nthis line is not an item\n";
    let formatter = MarkdownListFormatter;
    let back = formatter.parse(&text, &labels).unwrap();
    assert_eq!(back.len(), 1);
    assert_eq!(back[0].name, "good");
}

#[test]
fn table_parse_aborts_on_bad_row() {
    let labels = Labels::english();
    let text = "\n| Name | Description | Crates Link | Source Link | Stats | Status |\n|---|---|---|---|---|---|\n| a | b | c | d | ❓ | 🍃 |\n";
    let formatter = MarkdownTableFormatter;
    let err = formatter.parse(text, &labels).unwrap_err();
    assert!(matches!(err, thanku::errors::AppError::InvalidStatus(_)));
}

#[test]
fn table_without_table_yields_no_records() {
    let labels = Labels::english();
    let formatter = MarkdownTableFormatter;
    let back = formatter.parse("just some text\n", &labels).unwrap();
    assert!(back.is_empty());
}

#[test]
fn table_groups_are_sorted_by_name() {
    let labels = Labels::english();
    let records = canonical_records();
    let sorted = thanku::record::take_sort_dependencies(&records, &DependencyKind::Normal);
    assert_eq!(sorted.len(), 2);
    assert_eq!(sorted[0].name, "anyhow");
    assert_eq!(sorted[1].name, "serde");
}

#[test]
fn yaml_renders_valid_yaml() {
    let records = canonical_records();
    let formatter = YamlFormatter;
    let text = formatter.format(&records).unwrap();
    let value: serde_yaml::Value = serde_yaml::from_str(&text).unwrap();
    assert_eq!(value.as_sequence().unwrap().len(), 3);
}
