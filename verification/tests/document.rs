use gitserious_tui::composer::{terminal_column, terminal_line};
use gitserious_tui::document::{
    headings_are_intact, key_rows, looks_like_heading, looks_like_malformed_known_heading,
    lines_to_rows, parse_document, reserved_separator, scaffold_lines, section_text,
    structural_marker, DocumentMarker, MessageSection,
};
use gitserious_tui::draft::draft_values;
use gitserious_tui::issues::{accepted_property_values, collect_draft_issues, sorted_by_line};
use gitserious_tui::schema::{
    field_columns, field_name, requirement_label, CommitSchema, FieldId, FieldKind, Multiplicity,
    PropertySpec, Requirement,
};
use gitserious_tui::text::{is_blank, trim, trim_end};

fn chars(s: &str) -> Vec<char> {
    s.chars().collect()
}

fn schema() -> CommitSchema {
    CommitSchema {
        id: "feat".to_owned(),
        description: "A feature.".to_owned(),
        properties: vec![
            PropertySpec {
                key: "intent".to_owned(),
                description: "Why.".to_owned(),
                requirement: Requirement::Required,
                multiplicity: Multiplicity::Single,
            },
            PropertySpec {
                key: "evidence".to_owned(),
                description: "What shows it.".to_owned(),
                requirement: Requirement::Optional,
                multiplicity: Multiplicity::Multiple,
            },
        ],
    }
}

fn document(text: &str) -> Vec<String> {
    text.lines().map(str::to_owned).collect()
}

#[test]
fn message_sections_have_labels() {
    assert_eq!(MessageSection::Subject.label(), "Message Subject");
    assert_eq!(MessageSection::Body.label(), "Message Body");
    assert_eq!(MessageSection::Footer.label(), "Message Footer");
}

#[test]
fn terminal_coordinates_saturate() {
    assert_eq!(terminal_line(12), 12);
    assert_eq!(terminal_line(70_000), u16::MAX);
    assert_eq!(terminal_column(65_535), u16::MAX);
    assert_eq!(terminal_column(3), 3);
}

#[test]
fn headings_look_like_lowercase_names_with_a_colon() {
    assert!(looks_like_heading(&chars("mystery:")));
    assert!(looks_like_heading(&chars("a-1:")));
    assert!(!looks_like_heading(&chars(":")));
    assert!(!looks_like_heading(&chars("Mystery:")));
    assert!(!looks_like_heading(&chars("  note:")));
    assert!(!looks_like_heading(&chars("note")));
    let keys = key_rows(&schema());
    assert!(looks_like_malformed_known_heading(&chars(" intent "), &keys));
    assert!(looks_like_malformed_known_heading(&chars("scope"), &keys));
    assert!(!looks_like_malformed_known_heading(&chars("intent:"), &keys));
}

#[test]
fn structural_markers_are_exact_lines() {
    let keys = key_rows(&schema());
    assert_eq!(
        structural_marker(&chars("Message Body"), &keys),
        Some(DocumentMarker::Section(MessageSection::Body))
    );
    assert_eq!(
        structural_marker(&chars("evidence:"), &keys),
        Some(DocumentMarker::Field(FieldId::Property(1)))
    );
    assert_eq!(
        structural_marker(&chars("breaking-change:"), &keys),
        Some(DocumentMarker::Field(FieldId::BreakingChange))
    );
    assert_eq!(structural_marker(&chars("evidence: x"), &keys), None);
}

#[test]
fn section_text_trims_blank_edges_and_line_ends() {
    let rows = lines_to_rows(&document("\n  \nfirst  \n  second\n\n \n"));
    assert_eq!(section_text(&rows, 0, rows.len()), "first\n  second");
    let blank = lines_to_rows(&document("\n \n"));
    assert_eq!(section_text(&blank, 0, blank.len()), "");
    assert_eq!(section_text(&rows, 2, 3), "first");
}

#[test]
fn scaffold_is_intact_and_parses_to_empty_fields() {
    let lines = scaffold_lines(&schema());
    assert!(headings_are_intact(&lines, &schema()));
    let parsed = parse_document(&lines, &schema());
    assert!(parsed.issues.is_empty());
    let kinds: Vec<FieldKind> = parsed.sections.iter().map(|section| section.kind).collect();
    assert_eq!(
        kinds,
        [
            FieldKind::Scope,
            FieldKind::Description,
            FieldKind::Property { definition_index: 0, value_index: 0 },
            FieldKind::Property { definition_index: 1, value_index: 0 },
            FieldKind::BreakingChange,
        ]
    );
    assert!(parsed.sections.iter().all(|section| section.text.is_empty()));
}

#[test]
fn broken_headings_are_detected() {
    let mut lines = scaffold_lines(&schema());
    let index = lines.iter().position(|line| line == "description:").unwrap();
    lines[index] = "description".to_owned();
    assert!(!headings_are_intact(&lines, &schema()));
    let mut swapped = scaffold_lines(&schema());
    let intent = swapped.iter().position(|line| line == "intent:").unwrap();
    let evidence = swapped.iter().position(|line| line == "evidence:").unwrap();
    swapped.swap(intent, evidence);
    assert!(!headings_are_intact(&swapped, &schema()));
}

#[test]
fn reserved_separators_keep_the_layout_rows() {
    let lines = scaffold_lines(&schema());
    let rows = lines_to_rows(&lines);
    let keys = key_rows(&schema());
    assert!(!reserved_separator(&rows, 2, &keys));
    assert!(reserved_separator(&rows, 3, &keys));
    assert!(!reserved_separator(&rows, 1, &keys));
}

#[test]
fn parser_reports_unknown_malformed_and_duplicate_headings_in_order() {
    let lines = document(
        "scope:\n\ndescription:\nvalid\n\nmystery:\nvalue\n\nintent\n\nscope:\nagain\n\nevidence:\none\n\nevidence:\ntwo\n",
    );
    let parsed = parse_document(&lines, &schema());
    let reported: Vec<(Option<FieldId>, usize)> =
        parsed.issues.iter().map(|issue| (issue.field, issue.line)).collect();
    assert_eq!(reported, [(None, 5), (None, 8), (Some(FieldId::Scope), 10)]);
    assert_eq!(parsed.issues[0].message, "unknown or malformed field header \"mystery:\"");
    assert_eq!(parsed.issues[2].message, "field scope may appear only once");
    let values = draft_values(&parsed, &schema());
    assert_eq!(values.scope, None);
    assert_eq!(values.description.as_deref(), Some("valid"));
    assert_eq!(values.properties[0], None);
    assert_eq!(values.properties[1], Some(vec!["one".to_owned(), "two".to_owned()]));
    assert_eq!(values.breaking_change, None);
}

#[test]
fn draft_issues_cover_description_required_values_and_refusals() {
    let lines = document("scope:\nbad scope\n\ndescription:\n\n\nintent:\n\n\nevidence:\nx\n");
    let parsed = parse_document(&lines, &schema());
    let errors: Vec<Option<String>> = parsed
        .sections
        .iter()
        .map(|section| match section.kind {
            FieldKind::Scope => Some("scope refused".to_owned()),
            FieldKind::Description => Some("description refused".to_owned()),
            _ => None,
        })
        .collect();
    let lists = vec![None, Some("too few values".to_owned())];
    let issues = collect_draft_issues(&lines, &schema(), &errors, &lists);
    let sorted = sorted_by_line(&issues);
    let summary: Vec<(Option<FieldId>, usize, String)> =
        sorted.iter().map(|issue| (issue.field, issue.line, issue.message.clone())).collect();
    assert_eq!(
        summary,
        [
            (Some(FieldId::Scope), 1, "scope refused".to_owned()),
            (Some(FieldId::Description), 4, "description refused".to_owned()),
            (Some(FieldId::Property(0)), 7, "complete required property \"intent\"".to_owned()),
            (Some(FieldId::Property(1)), 10, "too few values".to_owned()),
        ]
    );
}

#[test]
fn missing_description_heading_is_reported_at_the_top() {
    let lines = document("scope:\n\nintent:\nwhy\n");
    let errors = vec![None; parse_document(&lines, &schema()).sections.len()];
    let issues = collect_draft_issues(&lines, &schema(), &errors, &vec![None, None]);
    assert!(issues.iter().any(|issue| issue.field == Some(FieldId::Description)
        && issue.line == 0
        && issue.message == "restore the description field header"));
}

#[test]
fn field_names_and_columns() {
    let schema = schema();
    assert_eq!(field_name(FieldId::Property(1), &schema), "evidence");
    assert_eq!(field_name(FieldId::BreakingChange, &schema), "breaking-change");
    assert_eq!(field_columns(FieldId::Description, &schema), ("description".to_owned(), "required"));
    assert_eq!(field_columns(FieldId::Property(1), &schema), ("evidence".to_owned(), "optional"));
    assert_eq!(requirement_label(&Requirement::Recommended), "recommended");
    assert_eq!(FieldKind::Property { definition_index: 1, value_index: 3 }.id(), FieldId::Property(1));
}

#[test]
fn trimming_follows_unicode_white_space() {
    assert_eq!(trim(&chars("\u{3000} a b \t")), chars("a b"));
    assert_eq!(trim_end(&chars(" a \u{a0}")), chars(" a"));
    assert!(is_blank(&chars(" \t\u{2028}")));
    assert!(!is_blank(&chars(" x ")));
}

#[test]
fn accepted_values_keep_document_order_and_skip_refused_and_empty_sections() {
    let lines = document(
        "description:\nvalid\n\nevidence:\none\n\nevidence:\nrefused\n\nevidence:\n\n\nevidence:\nthree\n",
    );
    let parsed = parse_document(&lines, &schema());
    let errors: Vec<Option<String>> = parsed
        .sections
        .iter()
        .map(|section| (section.text == "refused").then(|| "not a value".to_owned()))
        .collect();
    assert_eq!(
        accepted_property_values(&parsed, &errors, 1),
        vec!["one".to_owned(), "three".to_owned()]
    );
    assert!(accepted_property_values(&parsed, &errors, 0).is_empty());
    let unjudged: Vec<Option<String>> = Vec::new();
    assert_eq!(accepted_property_values(&parsed, &unjudged, 1).len(), 3);
}

#[test]
fn a_field_value_read_back_gives_itself() {
    let rows = lines_to_rows(&document("  \n\t\nfirst line  \n\n  second\t\n   \n"));
    let value = section_text(&rows, 0, rows.len());
    assert_eq!(value, "first line\n\n  second");
    let again = lines_to_rows(&value.split('\n').map(str::to_owned).collect::<Vec<_>>());
    assert_eq!(section_text(&again, 0, again.len()), value);
    let blank = lines_to_rows(&document(" \n\t\n"));
    let empty = section_text(&blank, 0, blank.len());
    let again = lines_to_rows(&empty.split('\n').map(str::to_owned).collect::<Vec<_>>());
    assert_eq!(section_text(&again, 0, again.len()), "");
}

#[test]
fn an_empty_property_key_still_gives_an_intact_scaffold() {
    let mut schema = schema();
    schema.properties[1].key = String::new();
    assert!(headings_are_intact(&scaffold_lines(&schema), &schema));
}

#[test]
fn documents_without_section_labels_or_a_final_blank_line_are_refused() {
    let schema = schema();
    let scaffold = scaffold_lines(&schema);
    assert!(headings_are_intact(&scaffold, &schema));
    for label in ["Message Subject", "Message Body", "Message Footer"] {
        let without: Vec<String> = scaffold.iter().filter(|line| *line != label).cloned().collect();
        assert!(!headings_are_intact(&without, &schema));
    }
    let mut ending = scaffold.clone();
    if let Some(last) = ending.last_mut() {
        last.push_str("tail");
    }
    assert!(!headings_are_intact(&ending, &schema));
}
