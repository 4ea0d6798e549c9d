use vimscape_backend::skill_data::{format_skill_data, format_skill_details, SkillData};

fn row(name: &str, total_exp: i32, level: i32) -> SkillData {
    SkillData { skill_name: name.to_string(), total_exp, level }
}

#[test]
fn skill_details_lines() {
    assert_eq!(
        format_skill_details(&row("Search", 1234, 7)),
        vec!["Experience - 1234".to_string(), "Level - 7".to_string()]
    );
    assert_eq!(
        format_skill_details(&row("Search", -5, 10)),
        vec!["Experience - -5".to_string(), "Level - 10".to_string()]
    );
}

#[test]
fn narrow_window_gets_a_message() {
    assert_eq!(
        format_skill_data(&[row("Search", 0, 1)], 20),
        vec!["Screen size too small to display skills".to_string()]
    );
}

#[test]
fn boxes_are_centred_in_the_window() {
    let lines = format_skill_data(&[row("CodeFlow", 0, 7), row("Search", 0, 12)], 80);
    let pad = "   ";
    let rule = "─".repeat(49);
    assert_eq!(lines.len(), 4);
    assert_eq!(lines[0], format!("{pad}┌{rule}┐"));
    assert_eq!(
        lines[1],
        format!("{pad}│{}CodeFlow{}│{}Search{}│", " ".repeat(8), " ".repeat(8), " ".repeat(9), " ".repeat(9))
    );
    assert_eq!(
        lines[2],
        format!("{pad}│{}07{}│{}12{}│", " ".repeat(10), " ".repeat(11), " ".repeat(11), " ".repeat(11))
    );
    assert_eq!(lines[3], format!("{pad}└{rule}┘"));
}

#[test]
fn rows_wrap_after_the_columns_that_fit() {
    let rows = vec![row("Search", 0, 1), row("Saving", 0, 1), row("Finesse", 0, 1)];
    // 56 characters fit two columns.
    let lines = format_skill_data(&rows, 56);
    assert_eq!(lines.len(), 8);
    assert_eq!(lines[0], format!("{}┌{}┐", " ".repeat(3), "─".repeat(49)));
    assert_eq!(lines[4], format!("{}┌{}┐", " ".repeat(3), "─".repeat(24)));
}
