//! Formatting helpers, table rows and configuration defaults.

use speakmcp_cli::config::{default_server_url, default_true, Config};
use speakmcp_cli::format::{format_timestamp, truncate_string, u64_to_string};
use speakmcp_cli::init;
use speakmcp_cli::output::TableRow;

#[test]
fn test_table_row_new() {
    let row = TableRow::new(vec!["a".to_string(), "b".to_string()]);
    assert_eq!(row.columns.len(), 2);
    assert_eq!(row.columns[0], "a");
    assert_eq!(row.columns[1], "b");
}

#[test]
fn decimal_rendering_is_exact() {
    assert_eq!(u64_to_string(0), "0");
    assert_eq!(u64_to_string(7), "7");
    assert_eq!(u64_to_string(1234567890), "1234567890");
    assert_eq!(u64_to_string(u64::MAX), "18446744073709551615");
}

#[test]
fn the_epoch_formats_as_its_first_minute() {
    assert_eq!(format_timestamp(0), "1970-01-01 00:00");
}

#[test]
fn a_recent_timestamp_formats_with_the_coarse_calendar() {
    assert_eq!(format_timestamp(1700000000000), "2023-12-01 22:13");
}

#[test]
fn short_text_is_kept_whole() {
    assert_eq!(truncate_string("hello", 10), "hello");
    assert_eq!(truncate_string("hello", 5), "hello");
}

#[test]
fn long_text_is_cut_with_an_ellipsis() {
    assert_eq!(truncate_string("hello world", 8), "hello...");
    assert_eq!(truncate_string("hello world", 3), "...");
    assert_eq!(truncate_string("hello world", 2), "...");
}

#[test]
fn defaults_point_at_the_local_server() {
    assert_eq!(default_server_url(), "http://localhost:3210/v1");
    assert!(default_true());
    let config = Config::default();
    assert_eq!(config.server_url, "http://localhost:3210/v1");
    assert_eq!(config.api_key, "");
    assert!(config.default_conversation_id.is_none());
    assert!(config.colored_output);
    assert!(config.show_tool_calls);
    assert_eq!(config.max_tokens, 0);
}

#[test]
fn initialization_is_a_no_op() {
    init();
}

#[test]
fn a_table_lays_out_with_padded_columns() {
    let headers = vec!["NAME".to_string(), "ID".to_string()];
    let rows = vec![
        TableRow::new(vec!["alpha".to_string(), "1".to_string()]),
        TableRow::new(vec!["b".to_string(), "1234".to_string()]),
    ];
    let lines = speakmcp_cli::output::table_lines(&headers, &rows);
    assert_eq!(
        lines,
        vec![
            "NAME   ID  ".to_string(),
            "-----  ----".to_string(),
            "alpha  1   ".to_string(),
            "b      1234".to_string(),
        ]
    );
}

#[test]
fn a_table_without_rows_says_so() {
    let headers = vec!["NAME".to_string()];
    let lines = speakmcp_cli::output::table_lines(&headers, &vec![]);
    assert_eq!(lines, vec!["(no data)".to_string()]);
}

#[test]
fn a_row_with_extra_cells_keeps_them_at_their_own_width() {
    let headers = vec!["A".to_string()];
    let rows = vec![TableRow::new(vec![
        "x".to_string(),
        "extra".to_string(),
    ])];
    let lines = speakmcp_cli::output::table_lines(&headers, &rows);
    assert_eq!(
        lines,
        vec!["A".to_string(), "-".to_string(), "x  extra".to_string()]
    );
}

fn preset(id: &str, name: &str) -> speakmcp_cli::types::ModelPreset {
    speakmcp_cli::types::ModelPreset {
        id: id.to_string(),
        name: name.to_string(),
        base_url: None,
        is_built_in: false,
    }
}

#[test]
fn a_preset_resolves_by_exact_identifier_first() {
    let presets = vec![preset("p1", "Fast"), preset("p2", "p1")];
    let resolved = speakmcp_cli::types::resolve_preset_id(&presets, "p1");
    assert_eq!(resolved, Some("p1".to_string()));
}

#[test]
fn a_preset_resolves_by_name_ignoring_case() {
    let presets = vec![preset("p1", "Fast"), preset("p2", "Accurate")];
    let resolved = speakmcp_cli::types::resolve_preset_id(&presets, "ACCURATE");
    assert_eq!(resolved, Some("p2".to_string()));
    assert_eq!(speakmcp_cli::types::resolve_preset_id(&presets, "missing"), None);
}

#[test]
fn a_profile_resolves_like_a_preset() {
    let profiles = vec![speakmcp_cli::types::Profile {
        id: "pr1".to_string(),
        name: "Work".to_string(),
        is_default: true,
        created_at: None,
        updated_at: None,
    }];
    assert_eq!(
        speakmcp_cli::types::resolve_profile_id(&profiles, "work"),
        Some("pr1".to_string())
    );
    assert_eq!(speakmcp_cli::types::resolve_profile_id(&profiles, "home"), None);
}

#[test]
fn configuration_paths_join_under_the_base_directory() {
    assert_eq!(Config::config_dir("/home/u/.config"), "/home/u/.config/speakmcp");
    assert_eq!(
        Config::config_path("/home/u/.config"),
        "/home/u/.config/speakmcp/cli.toml"
    );
}
