use repo_info::{drawable_width, get_bar, render_stats, sort_stats, total_bytes, LangStat};

fn stat(name: &str, bytes: u64) -> LangStat {
    LangStat { name: String::from(name), bytes }
}

#[test]
fn drawable_width_subtracts_text_columns() {
    assert_eq!(drawable_width(Some(70)), 40);
    assert_eq!(drawable_width(Some(31)), 1);
    assert_eq!(drawable_width(Some(30)), 0);
    assert_eq!(drawable_width(Some(10)), 0);
}

#[test]
fn drawable_width_falls_back_to_default() {
    assert_eq!(drawable_width(None), 30);
}

#[test]
fn bar_is_repeated_blocks() {
    assert_eq!(get_bar(500, 300, 40), "■".repeat(24));
    assert_eq!(get_bar(500, 0, 40), "");
    assert_eq!(get_bar(1, 1, 40), "■".repeat(40));
}

#[test]
fn total_adds_all_counts() {
    let v = vec![stat("Rust", 300), stat("Go", 100), stat("TypeScript", 100)];
    assert_eq!(total_bytes(&v), 500);
    let empty: Vec<LangStat> = Vec::new();
    assert_eq!(total_bytes(&empty), 0);
}

#[test]
fn sort_is_by_descending_bytes_then_name() {
    let v = vec![
        stat("Go", 100),
        stat("TypeScript", 100),
        stat("Rust", 300),
    ];
    let sorted = sort_stats(v);
    let names: Vec<&str> = sorted.iter().map(|l| l.name.as_str()).collect();
    assert_eq!(names, ["Rust", "Go", "TypeScript"]);
}

#[test]
fn sort_breaks_byte_ties_by_name() {
    let v = vec![stat("beta", 5), stat("alpha", 5), stat("gamma", 5)];
    let sorted = sort_stats(v);
    let names: Vec<&str> = sorted.iter().map(|l| l.name.as_str()).collect();
    assert_eq!(names, ["alpha", "beta", "gamma"]);
}

#[test]
fn empty_map_renders_fixed_message() {
    let lines = render_stats(Vec::new(), 40);
    assert_eq!(lines, ["No languages found"]);
}

#[test]
fn scenario_three_languages_width_70() {
    // Map {"Rust": 300, "Go": 100, "TypeScript": 100} at terminal width 70:
    // 40 drawable columns, total 500 bytes.
    let width = drawable_width(Some(70));
    assert_eq!(width, 40);
    let lines = render_stats(
        vec![stat("Go", 100), stat("Rust", 300), stat("TypeScript", 100)],
        width,
    );
    assert_eq!(lines.len(), 4);
    assert_eq!(lines[0], "Languages:");
    assert_eq!(lines[1], format!("Rust{}  60.00%  {}", " ".repeat(11), "■".repeat(24)));
    assert_eq!(lines[2], format!("Go{}  20.00%  {}", " ".repeat(13), "■".repeat(8)));
    assert_eq!(lines[3], format!("TypeScript{}  20.00%  {}", " ".repeat(5), "■".repeat(8)));
}

#[test]
fn scenario_single_language_fills_bar() {
    // Map {"Python": 1}: the one language owns every byte, so its percentage
    // is 100.00% and its bar fills the whole drawable width.
    let width = drawable_width(Some(70));
    let lines = render_stats(vec![stat("Python", 1)], width);
    assert_eq!(lines.len(), 2);
    assert_eq!(lines[0], "Languages:");
    assert_eq!(lines[1], format!("Python{}  100.00%  {}", " ".repeat(9), "■".repeat(40)));
}

#[test]
fn zero_total_with_entries_renders_zero_percent() {
    let lines = render_stats(vec![stat("A", 0), stat("B", 0)], 40);
    assert_eq!(lines.len(), 3);
    assert_eq!(lines[0], "Languages:");
    // name padded to 15, two spaces, "0.00%" padded to 6, two spaces, no bar
    assert_eq!(lines[1], format!("A{}  0.00%   ", " ".repeat(14)));
    assert_eq!(lines[2], format!("B{}  0.00%   ", " ".repeat(14)));
}

#[test]
fn long_name_is_not_truncated() {
    let lines = render_stats(vec![stat("DomainSpecificLanguage", 4)], 10);
    assert_eq!(lines[1], format!("DomainSpecificLanguage  100.00%  {}", "■".repeat(10)));
}
