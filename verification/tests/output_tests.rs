use rune_kit::cli::SearchResult;
use rune_kit::manifest::{ExecutionKind, InstalledPlugin, Lockfile, RegistrySkillSummary};
use rune_kit::output::{
    render_available_skills_table, render_list_table, render_registry_table, render_search_table,
    render_update_status_table, truncate_to, Column, Table,
};

fn sample_lockfile() -> Lockfile {
    let plugins = vec![(
        "alpha".to_string(),
        InstalledPlugin {
            name: "alpha".to_string(),
            description: Some("A sample plugin".to_string()),
            version: "1.2.3".to_string(),
            binary_path: "alpha.wasm".to_string(),
            native_binary_path: Some("alpha-bin".to_string()),
            execution_kind: ExecutionKind::Wasm,
            sha256: "abc".to_string(),
            source: "file:///alpha.wasm".to_string(),
            default_params: Vec::new(),
            manifest: None,
        },
    )];
    Lockfile { version: 1, plugins }
}

#[test]
fn flexible_column_gets_leftover_budget() {
    let t = Table::new(100)
        .column(Column::fixed("NAME", 16))
        .column(Column::fixed("LATEST", 10))
        .column(Column::fixed("KIND", 14))
        .column(Column::fixed("STATUS", 12))
        .column(Column::flexible("DESCRIPTION", 40));
    let rows = t.format_rows();
    // 16+10+14+12 = 52 fixed, +4 seps = 56; flex = 44
    assert_eq!(rows[0].len(), 100);
}

#[test]
fn truncation_is_char_aware() {
    assert_eq!(truncate_to("hello world", 8), "hello...");
    assert_eq!(truncate_to("short", 8), "short");
}

#[test]
fn flexible_column_does_not_truncate_when_content_fits() {
    let t = Table::new(100)
        .column(Column::fixed("NAME", 16))
        .column(Column::fixed("LATEST", 10))
        .column(Column::fixed("KIND", 14))
        .column(Column::fixed("STATUS", 12))
        .column(Column::flexible("DESCRIPTION", 40));
    let rows = t.format_rows();
    // "DESCRIPTION" (11 chars) fits in 44-char flexible column without truncation
    let row = &rows[0];
    assert_eq!(row.len(), 100);
    // The flexible column starts at position 56 (after all fixed columns + separators)
    let flex_start = 16 + 1 + 10 + 1 + 14 + 1 + 12 + 1; // 56
    assert_eq!(row[flex_start..].len(), 44);
    assert_eq!(&row[flex_start..flex_start + 11], "DESCRIPTION");
    assert!(
        row[flex_start + 11..flex_start + 44]
            .chars()
            .all(|c| c == ' ')
    );
}

#[test]
fn registry_table_header_matches_layout() {
    let rows = render_registry_table(&[], &sample_lockfile()).format_rows();
    assert_eq!(
        rows[0],
        format!("{:<20} {:<10} {:<10} {:<14} {:<30}", "NAME", "CURRENT", "LATEST", "BUILDS", "DESCRIPTION")
    );
}

#[test]
fn update_table_header_matches_layout() {
    let rows = render_update_status_table(&[]).format_rows();
    assert_eq!(
        rows[0],
        format!("{:<16} {:<12} {:<12} {:<14} {:<12}", "PLUGIN", "CURRENT", "LATEST", "STATUS", "BUILDS")
    );
}

#[test]
fn list_table_header_matches_layout() {
    let rows = render_list_table(&sample_lockfile()).format_rows();
    assert_eq!(
        rows[0],
        format!("{:<14} {:<10} {:<8} {:<34} {:<14}", "NAME", "VERSION", "BUILDS", "DESCRIPTION", "SOURCE")
    );
}

#[test]
fn adding_a_fixed_column_extends_header_and_rule() {
    let before = Table::new(60).column(Column::fixed("NAME", 12)).column(Column::fixed("VERSION", 8));
    let old = before.format_rows();
    let after = Table::new(60)
        .column(Column::fixed("NAME", 12))
        .column(Column::fixed("VERSION", 8))
        .column(Column::fixed("KIND", 6));
    let new = after.format_rows();
    assert_eq!(new[0], format!("{} {:<6}", old[0], "KIND"));
    assert_eq!(new[1], "-".repeat(old[1].len() + 6 + 1));
    assert_eq!(new[1].len(), 12 + 8 + 6 + 2);
    assert_eq!(new.len(), old.len());
}

#[test]
fn available_skills_table_rows() {
    let skills = vec![
        RegistrySkillSummary {
            name: "writer".to_string(),
            latest: "0.3.0".to_string(),
            description: Some("Drafts prose".to_string()),
            author: None,
            tags: Vec::new(),
        },
        RegistrySkillSummary {
            name: "bare".to_string(),
            latest: "1.0.0".to_string(),
            description: None,
            author: Some("me".to_string()),
            tags: Vec::new(),
        },
    ];
    let rows = render_available_skills_table(&skills).format_rows();
    assert_eq!(rows.len(), 4);
    assert_eq!(rows[0], format!("{:<20} {:<10} {:<10} {:<45}", "NAME", "CURRENT", "LATEST", "DESCRIPTION"));
    assert_eq!(rows[1], "-".repeat(43));
    assert_eq!(rows[2], format!("{:<20} {:<10} {:<10} {:<45}", "writer", "0.3.0", "0.3.0", "Drafts prose"));
    assert_eq!(rows[3], format!("{:<20} {:<10} {:<10} {:<45}", "bare", "1.0.0", "1.0.0", "-"));
}

#[test]
fn search_table_rows() {
    let matches = vec![SearchResult {
        ty: "plugin".to_string(),
        name: "alpha".to_string(),
        latest: "1.0.0".to_string(),
        description: "A tool".to_string(),
    }];
    let rows = render_search_table(&matches).format_rows();
    assert_eq!(rows.len(), 3);
    assert_eq!(
        rows[0],
        format!("{:<10} {:<20} {:<10} {:<10} {:<34}", "TYPE", "NAME", "CURRENT", "LATEST", "DESCRIPTION")
    );
    assert_eq!(rows[1], "-".repeat(54));
    assert_eq!(rows[2], format!("{:<10} {:<20} {:<10} {:<10} {:<34}", "plugin", "alpha", "1.0.0", "A tool", "A tool"));
}
