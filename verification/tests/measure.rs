use gitserious_tui::chrome::{connections, merged_rule, rule_symbol, scrollbar_thumb, Connections};
use gitserious_tui::layout::{contains, inset_horizontally, saturating_add, saturating_sub, Rect};
use gitserious_tui::measure::{
    composer_minimum_width, context_height, field_hud_content_width,
    field_hud_name_width, split_into_words, text_button_width, too_small, wrapped_line_count,
};
use gitserious_tui::schema::{CommitSchema, Multiplicity, PropertySpec, Requirement};
use gitserious_tui::taxonomy::{dirty_indicator, tab_layout};

fn schema_with_key(key: &str) -> CommitSchema {
    CommitSchema {
        id: "custom".to_owned(),
        description: "Widths.".to_owned(),
        properties: vec![PropertySpec {
            key: key.to_owned(),
            description: String::new(),
            requirement: Requirement::Optional,
            multiplicity: Multiplicity::Single,
        }],
    }
}

#[test]
fn display_widths_count_terminal_columns() {
    assert_eq!(text_button_width("scope"), 7);
    assert_eq!(text_button_width("🦀"), 4);
    assert_eq!(text_button_width(""), 2);
    assert_eq!(field_hud_name_width(&schema_with_key("🦀🦀🦀🦀🦀🦀🦀🦀")), 16);
}

#[test]
fn words_split_at_white_space() {
    let words: Vec<String> = split_into_words("  two words\tand\nthree ")
        .into_iter()
        .map(|word| word.into_iter().collect())
        .collect();
    assert_eq!(words, ["two", "words", "and", "three"]);
    assert!(split_into_words("   ").is_empty());
}

#[test]
fn wrapping_counts_rows_at_word_boundaries() {
    assert_eq!(wrapped_line_count("", 10), 1);
    assert_eq!(wrapped_line_count("short", 10), 1);
    assert_eq!(wrapped_line_count("one two three", 7), 2);
    assert_eq!(wrapped_line_count("one two three four", 9), 3);
    assert_eq!(wrapped_line_count("abcdefghijkl", 5), 3);
    assert_eq!(wrapped_line_count("ab abcdefghij", 5), 3);
    assert_eq!(wrapped_line_count("any", 0), 3);
}

#[test]
fn field_panel_widths_hug_the_longest_name() {
    let short = schema_with_key("x");
    assert_eq!(field_hud_name_width(&short), 15);
    assert_eq!(field_hud_content_width(&short), 31);
    assert_eq!(composer_minimum_width(&short), 60);
    let wide = schema_with_key(&"a".repeat(70));
    assert_eq!(field_hud_name_width(&wide), 70);
    assert_eq!(field_hud_content_width(&wide), 86);
    assert_eq!(composer_minimum_width(&wide), 96);
}

#[test]
fn terminal_minimums_depend_on_the_stage() {
    let schema = schema_with_key(&"a".repeat(70));
    assert!(too_small(true, &schema, 95, 40));
    assert!(!too_small(true, &schema, 96, 22));
    assert!(too_small(true, &schema, 96, 21));
    assert!(!too_small(false, &schema, 60, 18));
    assert!(too_small(false, &schema, 59, 18));
}

#[test]
fn context_height_is_bounded_by_the_rows_left() {
    assert_eq!(context_height(5, 30), 5);
    assert_eq!(context_height(40, 30), 22);
    assert_eq!(context_height(0, 30), 1);
    assert_eq!(context_height(9, 4), 1);
}

#[test]
fn buttons_pad_their_labels() {
    assert_eq!(text_button_width("y: discard"), 12);
    assert_eq!(text_button_width(""), 2);
}

#[test]
fn crossing_rules_merge_into_one_symbol() {
    assert_eq!(merged_rule("─", "│"), "┼");
    assert_eq!(merged_rule("│", "─"), "┼");
    assert_eq!(merged_rule("├", "┤"), "┼");
    assert_eq!(merged_rule("─", "┌"), "┬");
    assert_eq!(merged_rule("x", "┐"), "┐");
    assert_eq!(merged_rule("─", "─"), "─");
    assert_eq!(connections("┘"), Connections { left: true, right: false, up: true, down: false });
    assert_eq!(rule_symbol(connections("┴"), "?"), "┴");
    assert_eq!(
        rule_symbol(Connections { left: true, right: false, up: false, down: false }, "?"),
        "?"
    );
}

#[test]
fn scrollbar_thumb_tracks_the_viewport() {
    assert_eq!(scrollbar_thumb(10, 5, 10, 0), (0, 10));
    assert_eq!(scrollbar_thumb(10, 40, 10, 0), (0, 3));
    assert_eq!(scrollbar_thumb(10, 40, 10, 30), (7, 3));
    assert_eq!(scrollbar_thumb(10, 40, 10, 99), (7, 3));
    assert_eq!(scrollbar_thumb(10, 40, 10, 15), (4, 3));
    assert_eq!(scrollbar_thumb(3, 1000, 3, 500), (1, 1));
}

#[test]
fn rectangles_saturate_and_hit_test() {
    let area = Rect::new(65_530, 1, 10, 2);
    assert_eq!(area.right(), u16::MAX);
    assert_eq!(area.bottom(), 3);
    assert!(contains(area, 65_531, 2));
    assert!(!contains(area, 65_531, 3));
    assert_eq!(inset_horizontally(Rect::new(2, 0, 10, 1), 3), Rect::new(5, 0, 4, 1));
    assert_eq!(inset_horizontally(Rect::new(2, 0, 4, 1), 3), Rect::new(5, 0, 0, 1));
    assert_eq!(saturating_add(65_000, 1_000), u16::MAX);
    assert_eq!(saturating_sub(3, 5), 0);
}

#[test]
fn category_tabs_and_dirty_notice_lay_out_along_the_row() {
    let (tabs, after) = tab_layout(Rect::new(0, 1, 100, 1));
    assert_eq!(tabs[0], Rect::new(1, 1, 9, 1));
    assert_eq!(tabs[1], Rect::new(11, 1, 9, 1));
    assert_eq!(after, 21);
    assert_eq!(dirty_indicator(Rect::new(0, 1, 100, 1), after, true), Some(Rect::new(83, 1, 17, 1)));
    assert_eq!(dirty_indicator(Rect::new(0, 1, 100, 1), after, false), None);
    assert_eq!(dirty_indicator(Rect::new(0, 1, 30, 1), after, true), None);
    let (narrow, _) = tab_layout(Rect::new(0, 0, 14, 1));
    assert_eq!(narrow[1], Rect::new(11, 0, 3, 1));
}
