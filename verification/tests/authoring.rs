use gitserious_tui::authoring::{
    AuthoringSession, CatalogTab, ConfirmationAction, ConfirmationButtons, Outcome,
    RatatuiCommitDraftAuthor, RatatuiCommitDraftAuthorError, ResumeStage, Stage, Step,
    TemplateCatalog, TerminalEvent, TypeCatalogKind,
};
use gitserious_tui::composer::FieldStatus;
use gitserious_tui::draft::{draft_values, property_field};
use gitserious_tui::editor::{Editor, KeyCode, KeyPress};
use gitserious_tui::layout::Rect;
use gitserious_tui::measure::context_content_height;
use gitserious_tui::schema::{
    field_guidance, field_metadata, Condition, CommitSchema, FieldId, FieldKind, Multiplicity,
    PropertySpec, Requirement,
};

fn property(key: &str, requirement: Requirement, multiplicity: Multiplicity) -> PropertySpec {
    PropertySpec {
        key: key.to_owned(),
        description: format!("Description for {key}."),
        requirement,
        multiplicity,
    }
}

fn schema(id: &str, properties: Vec<PropertySpec>) -> CommitSchema {
    CommitSchema {
        id: id.to_owned(),
        description: format!("The {id} commit type."),
        properties,
    }
}

fn feat() -> CommitSchema {
    schema(
        "feat",
        vec![
            property("intent", Requirement::Required, Multiplicity::Single),
            property("behavior", Requirement::Required, Multiplicity::Single),
            property("constraints", Requirement::Recommended, Multiplicity::Single),
            property("invariants", Requirement::Optional, Multiplicity::Single),
            property("validation", Requirement::Optional, Multiplicity::Single),
        ],
    )
}

fn fix() -> CommitSchema {
    schema(
        "fix",
        vec![property("cause", Requirement::Required, Multiplicity::Single)],
    )
}

fn catalog() -> Vec<CommitSchema> {
    vec![feat(), fix(), schema("docs", Vec::new())]
}

fn presentation() -> CommitSchema {
    schema(
        "custom",
        vec![
            property("required-field", Requirement::Required, Multiplicity::Single),
            property("recommended-field", Requirement::Recommended, Multiplicity::Single),
            property("optional-field", Requirement::Optional, Multiplicity::Single),
            property(
                "conditional-field",
                Requirement::Conditional(Condition {
                    id: "when-needed".to_owned(),
                    rationale: "required when the condition applies".to_owned(),
                }),
                Multiplicity::Single,
            ),
        ],
    )
}

fn repeatable() -> CommitSchema {
    schema(
        "custom",
        vec![property("evidence", Requirement::Required, Multiplicity::Multiple)],
    )
}

fn key(code: KeyCode) -> TerminalEvent {
    TerminalEvent::Key(KeyPress::plain(code))
}

fn control(c: char) -> TerminalEvent {
    TerminalEvent::Key(KeyPress::control(KeyCode::Char(c)))
}

fn press(session: &mut AuthoringSession<String>, code: KeyCode) {
    assert!(matches!(session.handle_event(key(code)), Step::Continue));
}

fn paste(session: &mut AuthoringSession<String>, text: &str) {
    assert!(matches!(
        session.handle_event(TerminalEvent::Paste(text.to_owned())),
        Step::Continue
    ));
}

fn lines(session: &AuthoringSession<String>) -> Vec<String> {
    session.composer.editor.lines()
}

fn cursor(session: &AuthoringSession<String>) -> (usize, usize) {
    session.composer.editor.cursor()
}

fn set_document(session: &mut AuthoringSession<String>, document: &str, line: u16) {
    session.composer.editor = Editor::new(document.lines().map(str::to_owned).collect());
    session.composer.editor.jump(line, 0);
    session.composer.issues.clear();
}

/// The commit rules as these tests model them: a scope and a description
/// take one line, and a description must be given.
fn verdicts(session: &AuthoringSession<String>) -> (Vec<Option<String>>, Vec<Option<String>>) {
    let parsed = session.parsed();
    let errors = parsed
        .sections
        .iter()
        .map(|section| match section.kind {
            FieldKind::Scope if section.text.contains('\n') => {
                Some("scope must be a single line".to_owned())
            }
            FieldKind::Description if section.text.is_empty() => {
                Some("description must not be empty".to_owned())
            }
            FieldKind::Description if section.text.contains('\n') => {
                Some("description must be a single line".to_owned())
            }
            _ => None,
        })
        .collect();
    let lists = vec![None; session.definition().properties.len()];
    (errors, lists)
}

fn rendered_message(session: &AuthoringSession<String>) -> String {
    let parsed = session.parsed();
    let definition = session.definition();
    let values = draft_values(&parsed, definition);
    let mut message = definition.id.clone();
    if let Some(scope) = &values.scope {
        message.push_str(&format!("({})", scope.replace(' ', "-")));
    }
    if values.breaking_change.is_some() {
        message.push('!');
    }
    message.push_str(&format!(": {}\n", values.description.clone().unwrap_or_default()));
    for (index, entry) in values.properties.iter().enumerate() {
        if let Some(list) = entry {
            for value in list {
                message.push_str(&format!("\n{}:\n{}\n", definition.properties[index].key, value));
            }
        }
    }
    if let Some(breaking) = &values.breaking_change {
        message.push_str(&format!("\nBREAKING CHANGE: {breaking}\n"));
    }
    message
}

/// Ctrl+S, then what the caller does: hand back the verdicts, and open the
/// review with the rendered message when the draft passes.
fn check(session: &mut AuthoringSession<String>) -> bool {
    assert!(matches!(session.handle_event(control('s')), Step::CheckDraft));
    let (errors, lists) = verdicts(session);
    if !session.submit_verdicts(&errors, &lists) {
        return false;
    }
    let message = rendered_message(session);
    session.open_review(message);
    true
}

fn valid_feat_document() -> &'static str {
    "scope:\n\n\ndescription:\ncompose durable message\n\nintent:\nexplain intent 🦀\n\nbehavior:\nfirst line\nsecond line\n\nconstraints:\n\n\ninvariants:\n\n\nvalidation:"
}

fn valid_feat_session() -> AuthoringSession<String> {
    let mut session = AuthoringSession::new(catalog(), Some(0));
    set_document(&mut session, valid_feat_document(), 10);
    assert!(check(&mut session));
    session
}

#[test]
fn picker_navigation_wraps_selects_and_cancels() {
    let definitions = catalog();
    let count = definitions.len();
    let mut session: AuthoringSession<String> = AuthoringSession::new(definitions, None);
    assert_eq!(session.stage, Stage::SelectType);

    press(&mut session, KeyCode::Up);
    assert_eq!(session.selected_type, count - 1);
    press(&mut session, KeyCode::Down);
    assert_eq!(session.selected_type, 0);
    for unsupported in [KeyCode::Char('j'), KeyCode::Char('k'), KeyCode::Home, KeyCode::End] {
        press(&mut session, unsupported);
        assert_eq!(session.selected_type, 0);
    }
    press(&mut session, KeyCode::Enter);
    assert_eq!(session.stage, Stage::Compose);
    assert_eq!(session.definition().id, "feat");

    let mut cancelled: AuthoringSession<String> = AuthoringSession::new(catalog(), None);
    assert!(matches!(
        cancelled.handle_event(key(KeyCode::Char('q'))),
        Step::Finished(Outcome::Cancelled)
    ));
    let mut cancelled: AuthoringSession<String> = AuthoringSession::new(catalog(), None);
    assert!(matches!(
        cancelled.handle_event(control('c')),
        Step::Finished(Outcome::Cancelled)
    ));
}

#[test]
fn schema_form_is_prepopulated_in_order_and_starts_under_scope() {
    let session: AuthoringSession<String> = AuthoringSession::new(vec![presentation()], Some(0));
    assert_eq!(session.stage, Stage::Compose);
    assert!(session.preselected);
    assert_eq!(cursor(&session), (2, 0));
    assert!(!session.composer.dirty());
    assert_eq!(
        lines(&session),
        [
            "Message Subject",
            "scope:",
            "",
            "",
            "description:",
            "",
            "",
            "",
            "Message Body",
            "required-field:",
            "",
            "",
            "recommended-field:",
            "",
            "",
            "optional-field:",
            "",
            "",
            "conditional-field:",
            "",
            "",
            "",
            "Message Footer",
            "breaking-change:",
            "",
            "",
        ]
    );
}

#[test]
fn invalid_review_marks_every_blocker_and_moves_to_the_first() {
    let mut session: AuthoringSession<String> = AuthoringSession::new(catalog(), Some(0));
    assert!(!check(&mut session));

    assert_eq!(session.stage, Stage::Compose);
    assert_eq!(cursor(&session), (5, 0));
    assert_eq!(session.composer.issues.len(), 3);
    for field in [FieldId::Description, FieldId::Property(0), FieldId::Property(1)] {
        assert!(session.composer.issues.iter().any(|issue| issue.field == Some(field)));
    }
    assert!(session.review.is_none());
}

#[test]
fn review_is_exact_backtracking_is_lossless_and_enter_returns_the_typed_draft() {
    let mut session = valid_feat_session();
    let expected = "feat: compose durable message\n\nintent:\nexplain intent 🦀\n\nbehavior:\nfirst line\nsecond line\n";
    assert_eq!(session.stage, Stage::Review);
    assert_eq!(session.review.as_ref().map(|review| review.payload.as_str()), Some(expected));

    press(&mut session, KeyCode::Esc);
    assert_eq!(session.stage, Stage::Compose);
    assert_eq!(lines(&session).join("\n"), valid_feat_document());
    assert!(check(&mut session));
    match session.handle_event(key(KeyCode::Enter)) {
        Step::Finished(Outcome::Authored(message)) => assert_eq!(message, expected),
        _ => panic!("review confirmation did not finish"),
    }
}

#[test]
fn short_review_locks_arrow_and_page_scrolling() {
    let mut session = valid_feat_session();
    assert_eq!(session.review.as_ref().map(|review| review.scroll), Some(0));
    assert_eq!(session.review.as_ref().map(|review| review.scrollable), Some(false));
    for locked in [
        KeyCode::Up,
        KeyCode::Down,
        KeyCode::PageUp,
        KeyCode::PageDown,
        KeyCode::Char('j'),
        KeyCode::Char('k'),
    ] {
        press(&mut session, locked);
        assert_eq!(session.review.as_ref().map(|review| review.scroll), Some(0));
    }
}

#[test]
fn long_review_scrolls_until_a_taller_viewport_locks_it() {
    let mut session: AuthoringSession<String> = AuthoringSession::new(catalog(), Some(0));
    let behavior = (1..=30)
        .map(|line| format!("behavior line {line}"))
        .collect::<Vec<_>>()
        .join("\n");
    let document = valid_feat_document().replace("first line\nsecond line", &behavior);
    set_document(&mut session, &document, 10);
    assert!(check(&mut session));

    // What drawing the 30-line review in a 24-row terminal records.
    if let Some(review) = session.review.as_mut() {
        review.scrollable = true;
    }
    press(&mut session, KeyCode::Down);
    assert_eq!(session.review.as_ref().map(|review| review.scroll), Some(1));
    press(&mut session, KeyCode::Up);
    assert_eq!(session.review.as_ref().map(|review| review.scroll), Some(0));
    press(&mut session, KeyCode::PageDown);
    assert_eq!(session.review.as_ref().map(|review| review.scroll), Some(10));
    press(&mut session, KeyCode::PageUp);
    assert_eq!(session.review.as_ref().map(|review| review.scroll), Some(0));

    press(&mut session, KeyCode::PageDown);
    // What drawing it in a 60-row terminal records: it fits, from its top.
    if let Some(review) = session.review.as_mut() {
        review.scrollable = false;
        review.scroll = 0;
    }
    press(&mut session, KeyCode::Down);
    press(&mut session, KeyCode::PageDown);
    assert_eq!(session.review.as_ref().map(|review| review.scroll), Some(0));
}

#[test]
fn review_trims_trailing_whitespace_from_every_encoded_field() {
    let mut session: AuthoringSession<String> = AuthoringSession::new(catalog(), Some(0));
    let document = "scope:\napi \t\n\ndescription:\nship it  \n\nintent:\n  leading reason \t\n\nbehavior:\nfirst  \nsecond\t\n";
    set_document(&mut session, document, 10);

    assert!(check(&mut session));

    assert_eq!(session.stage, Stage::Review);
    assert_eq!(
        session.review.as_ref().map(|review| review.payload.as_str()),
        Some("feat(api): ship it\n\nintent:\n  leading reason\n\nbehavior:\nfirst\nsecond\n")
    );
    press(&mut session, KeyCode::Esc);
    assert_eq!(lines(&session).join("\n"), document.strip_suffix('\n').unwrap());
}

#[test]
fn breaking_change_footer_is_optional_multiline_and_normalizes_scope_only_in_output() {
    let mut session: AuthoringSession<String> = AuthoringSession::new(catalog(), Some(0));
    paste(&mut session, "tui editor");
    press(&mut session, KeyCode::Enter);
    paste(&mut session, "ship editor");
    press(&mut session, KeyCode::Enter);
    paste(&mut session, "reduce cost");
    session.composer.editor.jump(13, 0);
    paste(&mut session, "compose once");
    session.composer.editor.jump(27, 0);
    paste(&mut session, "remove old fields\nuse fixed form");

    let accepted = vec![true; session.parsed().sections.len()];
    let hud = session.composer.hud_fields(session.definition(), &accepted);
    assert_eq!(
        hud.last().map(|field| (field.id, field.status)),
        Some((FieldId::BreakingChange, FieldStatus::Complete))
    );
    assert!(check(&mut session));

    let expected = "feat(tui-editor)!: ship editor\n\nintent:\nreduce cost\n\nbehavior:\ncompose once\n\nBREAKING CHANGE: remove old fields\nuse fixed form\n";
    assert_eq!(session.review.as_ref().map(|review| review.payload.as_str()), Some(expected));
    let values = draft_values(&session.parsed(), session.definition());
    assert_eq!(values.scope.as_deref(), Some("tui editor"));
    assert_eq!(values.breaking_change.as_deref(), Some("remove old fields\nuse fixed form"));

    press(&mut session, KeyCode::Esc);
    let document = lines(&session);
    assert_eq!(document[2], "tui editor");
    assert_eq!(document[27], "remove old fields");
    assert_eq!(document[28], "use fixed form");
}

#[test]
fn scope_and_description_reject_multiline_input_and_enter_advances() {
    let mut session: AuthoringSession<String> = AuthoringSession::new(catalog(), Some(0));
    let pristine = lines(&session);

    paste(&mut session, "api\nserver");
    assert_eq!(lines(&session), pristine);
    paste(&mut session, "api");
    press(&mut session, KeyCode::Enter);
    assert_eq!(cursor(&session), (5, 0));

    paste(&mut session, "ship\nchange");
    assert!(lines(&session)[5].is_empty());
    paste(&mut session, "ship change");
    press(&mut session, KeyCode::Enter);
    assert_eq!(cursor(&session), (10, 0));

    paste(&mut session, "first\nsecond");
    assert_eq!(&lines(&session)[10..=11], ["first", "second"]);
}

#[test]
fn ctrl_t_is_inert_and_conventional_input_remains_active() {
    let mut session: AuthoringSession<String> = AuthoringSession::new(catalog(), Some(0));
    let pristine = lines(&session);
    let start = cursor(&session);

    assert!(matches!(session.handle_event(control('t')), Step::Continue));
    assert_eq!(lines(&session), pristine);
    assert_eq!(cursor(&session), start);
    assert!(!session.composer.dirty());

    paste(&mut session, "still editing");
    assert_eq!(lines(&session)[2], "still editing");
}

#[test]
fn schema_headings_are_immutable_during_conventional_editing() {
    let mut session: AuthoringSession<String> = AuthoringSession::new(catalog(), Some(0));
    let pristine = lines(&session);
    let description_line = pristine.iter().position(|line| line == "description:").unwrap();
    let description_line = u16::try_from(description_line).unwrap();

    session.composer.editor.jump(description_line, 0);
    press(&mut session, KeyCode::Right);
    assert_eq!(cursor(&session), (usize::from(description_line + 1), 0));

    session.composer.editor.jump(description_line, 0);
    press(&mut session, KeyCode::Char('x'));
    assert_eq!(lines(&session), pristine);

    press(&mut session, KeyCode::Delete);
    assert_eq!(lines(&session), pristine);

    session.composer.editor.jump(description_line + 1, 0);
    press(&mut session, KeyCode::Backspace);
    assert_eq!(lines(&session), pristine);

    paste(&mut session, "scope:\n");
    assert_eq!(lines(&session), pristine);
}

#[test]
fn conventional_navigation_skips_schema_headings() {
    let mut session: AuthoringSession<String> = AuthoringSession::new(catalog(), Some(0));
    assert_eq!(cursor(&session), (2, 0));

    press(&mut session, KeyCode::Down);
    assert_eq!(cursor(&session), (5, 0));
    press(&mut session, KeyCode::Up);
    assert_eq!(cursor(&session), (2, 0));
    press(&mut session, KeyCode::Right);
    assert_eq!(cursor(&session), (2, 0));
    press(&mut session, KeyCode::Down);
    assert_eq!(cursor(&session), (5, 0));
    press(&mut session, KeyCode::Left);
    assert_eq!(cursor(&session), (5, 0));
}

#[test]
fn vertical_arrows_move_within_multiline_fields_then_cross_field_boundaries() {
    let definitions = vec![presentation()];
    let mut session: AuthoringSession<String> = AuthoringSession::new(definitions, Some(0));

    for expected in [(5, 0), (10, 0), (13, 0), (16, 0), (19, 0), (24, 0)] {
        press(&mut session, KeyCode::Down);
        assert_eq!(cursor(&session), expected);
    }
    press(&mut session, KeyCode::Down);
    assert_eq!(cursor(&session), (24, 0));
    for expected in [(19, 0), (16, 0), (13, 0), (10, 0), (5, 0), (2, 0)] {
        press(&mut session, KeyCode::Up);
        assert_eq!(cursor(&session), expected);
    }
    assert!(!session.composer.dirty());

    session.composer.editor.jump(10, 0);
    paste(&mut session, "first\nsecond");
    press(&mut session, KeyCode::Up);
    assert_eq!(cursor(&session), (10, 5));
    press(&mut session, KeyCode::Down);
    assert_eq!(cursor(&session), (11, 5));
    press(&mut session, KeyCode::Down);
    assert_eq!(
        session.composer.current_field(session.definition()),
        Some(FieldKind::Property { definition_index: 1, value_index: 0 })
    );
    press(&mut session, KeyCode::Up);
    assert_eq!(cursor(&session), (11, 0));
}

#[test]
fn enter_advances_single_line_and_blank_fields_without_editing_the_document() {
    let mut blank: AuthoringSession<String> = AuthoringSession::new(vec![presentation()], Some(0));
    let pristine = lines(&blank);

    for expected in [(5, 0), (10, 0), (13, 0), (16, 0), (19, 0), (24, 0)] {
        press(&mut blank, KeyCode::Enter);
        assert_eq!(cursor(&blank), expected);
        assert_eq!(lines(&blank), pristine);
        assert!(!blank.composer.dirty());
    }
    press(&mut blank, KeyCode::Enter);
    assert_eq!(cursor(&blank), (24, 0));

    let mut populated: AuthoringSession<String> = AuthoringSession::new(vec![presentation()], Some(0));
    paste(&mut populated, "api");
    press(&mut populated, KeyCode::Enter);
    assert_eq!(cursor(&populated), (5, 0));
    paste(&mut populated, "ship change");
    press(&mut populated, KeyCode::Enter);
    assert_eq!(cursor(&populated), (10, 0));
    paste(&mut populated, "first line");
    press(&mut populated, KeyCode::Enter);
    assert_eq!(cursor(&populated), (11, 0));
    assert_eq!(lines(&populated)[10], "first line");
    assert!(lines(&populated)[11].is_empty());
    assert_eq!(lines(&populated)[13], "recommended-field:");
}

#[test]
fn backspace_and_delete_cannot_leave_the_active_field_or_poison_footer_editing() {
    for ctrl in [false, true] {
        for shift in [false, true] {
            for code in [KeyCode::Backspace, KeyCode::Delete] {
                let mut session: AuthoringSession<String> = AuthoringSession::new(catalog(), Some(0));
                session.composer.editor.jump(27, 0);
                let document = lines(&session);
                let before = cursor(&session);

                let event = TerminalEvent::Key(KeyPress { code, ctrl, alt: false, shift });
                assert!(matches!(session.handle_event(event), Step::Continue));

                assert_eq!(lines(&session), document);
                assert_eq!(cursor(&session), before);
                assert_eq!(
                    session.composer.current_field(session.definition()),
                    Some(FieldKind::BreakingChange)
                );
                paste(&mut session, "footer remains editable");
                assert_eq!(lines(&session)[27], "footer remains editable");
            }
        }
    }
}

#[test]
fn multiple_schema_values_still_compile_when_present() {
    let mut session: AuthoringSession<String> = AuthoringSession::new(vec![repeatable()], Some(0));
    set_document(
        &mut session,
        "scope:\n\ndescription:\ncollect evidence\n\nevidence:\nfirst\n\nevidence:\nsecond\nline\n",
        9,
    );
    assert_eq!(
        session.composer.current_field(session.definition()),
        Some(FieldKind::Property { definition_index: 0, value_index: 1 })
    );
    assert!(check(&mut session));
    assert_eq!(session.stage, Stage::Review);
    assert_eq!(
        session.review.as_ref().map(|review| review.payload.as_str()),
        Some("custom: collect evidence\n\nevidence:\nfirst\n\nevidence:\nsecond\nline\n")
    );
}

#[test]
fn parser_rejects_unknown_malformed_and_duplicate_single_headers() {
    let documents = [
        "scope:\n\ndescription:\nvalid\n\nrequired-field:\ncomplete\n\nmystery:\nvalue\n",
        "scope:\n\ndescription:\nvalid\n\nrequired-field\ncomplete\n",
        "scope:\n\ndescription:\nvalid\n\ndescription:\nduplicate\n\nrequired-field:\ncomplete\n",
        "scope:\n\ndescription:\nvalid\n\nrequired-field:\ncomplete\n\nrequired-field:\nduplicate\n",
    ];
    for document in documents {
        let mut session: AuthoringSession<String> = AuthoringSession::new(vec![presentation()], Some(0));
        set_document(&mut session, document, 0);
        assert!(!check(&mut session));
        assert_eq!(session.stage, Stage::Compose);
        assert!(!session.composer.issues.is_empty());
        assert!(session.review.is_none());
    }

    let mut indented: AuthoringSession<String> = AuthoringSession::new(vec![presentation()], Some(0));
    set_document(
        &mut indented,
        "scope:\n\ndescription:\nvalid\n\nrequired-field:\n  note:\n  value\n",
        6,
    );
    assert!(check(&mut indented));
    assert_eq!(indented.stage, Stage::Review);
}

#[test]
fn hud_tracks_requirement_completion_validation_and_cursor_context() {
    let mut session: AuthoringSession<String> = AuthoringSession::new(vec![presentation()], Some(0));
    set_document(
        &mut session,
        "scope:\n\ndescription:\ncover contracts\n\nrequired-field:\ncomplete\n\nrecommended-field:\n\n\noptional-field:\n\n\nconditional-field:\n\n",
        16,
    );
    assert_eq!(
        session.composer.current_field(session.definition()),
        Some(FieldKind::Property { definition_index: 3, value_index: 0 })
    );
    let accepted = vec![true; session.parsed().sections.len()];
    let hud = session.composer.hud_fields(session.definition(), &accepted);
    assert_eq!(hud[0].status, FieldStatus::Incomplete);
    assert_eq!(hud[1].status, FieldStatus::Complete);
    assert_eq!(hud[2].status, FieldStatus::Complete);
    assert!(hud[3..].iter().all(|field| field.status == FieldStatus::Incomplete));

    assert!(check(&mut session));
    assert_eq!(
        session.review.as_ref().map(|review| review.payload.as_str()),
        Some("custom: cover contracts\n\nrequired-field:\ncomplete\n")
    );

    press(&mut session, KeyCode::Esc);
    set_document(
        &mut session,
        "scope:\n\ndescription:\ntwo\nlines\n\nrequired-field:\ncomplete\n",
        4,
    );
    let parsed = session.parsed();
    let accepted: Vec<bool> = parsed
        .sections
        .iter()
        .map(|section| !(section.kind == FieldKind::Description && section.text.contains('\n')))
        .collect();
    let hud = session.composer.hud_fields(session.definition(), &accepted);
    assert_eq!(hud[1].status, FieldStatus::Invalid);
}

#[test]
fn conditional_decisions_follow_alt_a_and_alt_n() {
    let mut session: AuthoringSession<String> = AuthoringSession::new(vec![presentation()], Some(0));
    session.composer.editor.jump(19, 0);
    let alt = |c: char| TerminalEvent::Key(KeyPress { code: KeyCode::Char(c), ctrl: false, alt: true, shift: false });
    assert!(matches!(session.handle_event(alt('a')), Step::Continue));
    assert_eq!(session.composer.applicability[3], Some(gitserious_tui::schema::Applicability::Applies));
    assert!(session.composer.dirty());
    assert!(matches!(session.handle_event(alt('n')), Step::Continue));
    assert_eq!(session.composer.applicability[3], Some(gitserious_tui::schema::Applicability::DoesNotApply));
    let accepted = vec![true; session.parsed().sections.len()];
    let hud = session.composer.hud_fields(session.definition(), &accepted);
    assert_eq!(hud[5].status, FieldStatus::Complete);
}

#[test]
fn untouched_and_dirty_cancellation_follow_distinct_confirmation_paths() {
    let mut unpinned: AuthoringSession<String> = AuthoringSession::new(catalog(), None);
    press(&mut unpinned, KeyCode::Enter);
    assert!(!unpinned.composer.dirty());
    press(&mut unpinned, KeyCode::Esc);
    assert_eq!(unpinned.stage, Stage::SelectType);

    press(&mut unpinned, KeyCode::Enter);
    paste(&mut unpinned, "dirty");
    press(&mut unpinned, KeyCode::Esc);
    assert_eq!(unpinned.stage, Stage::Confirm);
    assert_eq!(unpinned.confirmation, ConfirmationAction::ChangeType);
    press(&mut unpinned, KeyCode::Enter);
    assert_eq!(unpinned.stage, Stage::Compose);
    assert_eq!(lines(&unpinned)[2], "dirty");
    press(&mut unpinned, KeyCode::Esc);
    press(&mut unpinned, KeyCode::Char('y'));
    assert_eq!(unpinned.stage, Stage::SelectType);
    assert!(!unpinned.composer.dirty());

    let mut pinned: AuthoringSession<String> = AuthoringSession::new(catalog(), Some(0));
    assert!(matches!(pinned.handle_event(key(KeyCode::Esc)), Step::Finished(Outcome::Cancelled)));
    let mut pinned: AuthoringSession<String> = AuthoringSession::new(catalog(), Some(0));
    paste(&mut pinned, "dirty");
    press(&mut pinned, KeyCode::Esc);
    assert_eq!(pinned.confirmation, ConfirmationAction::Cancel);
    assert!(matches!(
        pinned.handle_event(key(KeyCode::Char('y'))),
        Step::Finished(Outcome::Cancelled)
    ));
}

#[test]
fn review_cancellation_confirmation_can_resume_without_losing_the_preview() {
    let mut session = valid_feat_session();
    let message = session.review.as_ref().map(|review| review.payload.clone());
    press(&mut session, KeyCode::Char('q'));
    assert_eq!(session.stage, Stage::Confirm);
    assert_eq!(session.confirmation_resume, ResumeStage::Review);
    press(&mut session, KeyCode::Char('n'));
    assert_eq!(session.stage, Stage::Review);
    assert_eq!(session.review.as_ref().map(|review| review.payload.clone()), message);
}

#[test]
fn confirmation_buttons_discard_or_keep_editing_by_click() {
    let mut session: AuthoringSession<String> = AuthoringSession::new(catalog(), Some(0));
    paste(&mut session, "dirty");
    press(&mut session, KeyCode::Esc);
    assert_eq!(session.stage, Stage::Confirm);
    assert_eq!(session.visible_stage(), Stage::Compose);
    session.confirmation_buttons = Some(ConfirmationButtons {
        discard: Rect::new(10, 5, 12, 1),
        keep_editing: Rect::new(30, 5, 16, 1),
    });
    assert!(matches!(
        session.handle_event(TerminalEvent::Click { column: 31, row: 5 }),
        Step::Continue
    ));
    assert_eq!(session.stage, Stage::Compose);
    assert!(session.confirmation_buttons.is_none());
    press(&mut session, KeyCode::Esc);
    session.confirmation_buttons = Some(ConfirmationButtons {
        discard: Rect::new(10, 5, 12, 1),
        keep_editing: Rect::new(30, 5, 16, 1),
    });
    assert!(matches!(
        session.handle_event(TerminalEvent::Click { column: 10, row: 5 }),
        Step::Finished(Outcome::Cancelled)
    ));
}

#[test]
fn too_small_terminal_only_allows_leaving() {
    let mut session: AuthoringSession<String> = AuthoringSession::new(catalog(), Some(0));
    session.too_small = true;
    let pristine = lines(&session);
    paste(&mut session, "hidden");
    press(&mut session, KeyCode::Char('x'));
    assert_eq!(lines(&session), pristine);
    assert!(matches!(
        session.handle_event(key(KeyCode::Char('q'))),
        Step::Finished(Outcome::Cancelled)
    ));
}

#[test]
fn template_catalogs_cycle_with_tab_and_switch_by_click() {
    let templates = vec![
        TemplateCatalog { id: "conventional@1".to_owned(), types: catalog() },
        TemplateCatalog { id: "ml-research@1".to_owned(), types: vec![fix()] },
    ];
    let mut session: AuthoringSession<String> =
        AuthoringSession::with_context(templates, "ml-research@1", None);
    assert_eq!(session.type_catalog, TypeCatalogKind::Template(1));
    assert_eq!(session.definition().id, "fix");
    assert_eq!(session.catalog_label(TypeCatalogKind::Template(0)), "conventional@1");
    assert_eq!(session.catalog_label(TypeCatalogKind::Conventional), "CONVENTIONAL");
    assert_eq!(session.catalog_label(TypeCatalogKind::Template(7)), "");
    assert_eq!(
        session.available_type_catalogs(),
        vec![TypeCatalogKind::Template(0), TypeCatalogKind::Template(1)]
    );

    press(&mut session, KeyCode::Tab);
    assert_eq!(session.type_catalog, TypeCatalogKind::Template(0));
    assert_eq!(session.template, Some(0));
    assert_eq!(session.definition().id, "feat");
    press(&mut session, KeyCode::Down);
    assert_eq!(session.selected_type, 1);

    session.catalog_tabs = vec![CatalogTab { kind: TypeCatalogKind::Template(1), area: Rect::new(0, 1, 10, 1) }];
    assert!(matches!(
        session.handle_event(TerminalEvent::Click { column: 3, row: 1 }),
        Step::Continue
    ));
    assert_eq!(session.template, Some(1));
    assert_eq!(session.selected_type, 0);

    let preselected: AuthoringSession<String> = AuthoringSession::with_context(
        vec![TemplateCatalog { id: "conventional@1".to_owned(), types: catalog() }],
        "conventional@1",
        Some("docs"),
    );
    assert_eq!(preselected.stage, Stage::Compose);
    assert_eq!(preselected.selected_type, 2);
}

#[test]
fn adapter_rejects_catalog_and_terminal_preconditions_before_running_ratatui() {
    let author = RatatuiCommitDraftAuthor;
    let empty = author.preselection(&Vec::new(), None);
    assert!(matches!(empty, Err(RatatuiCommitDraftAuthorError::EmptyCatalog)));
    let custom = presentation();
    let unknown = author.preselection(&catalog(), Some(&custom));
    assert!(matches!(unknown, Err(RatatuiCommitDraftAuthorError::UnknownPreselection)));
    assert!(matches!(author.preselection(&catalog(), Some(&fix())), Ok(Some(1))));
    assert!(matches!(author.preselection(&catalog(), None), Ok(None)));
    assert_eq!(
        RatatuiCommitDraftAuthorError::NotTerminal.message(),
        "commit authoring requires an interactive terminal"
    );
    assert_eq!(
        RatatuiCommitDraftAuthorError::EmptyCatalog.message(),
        "cannot author from an empty commit-type catalog"
    );
    assert_eq!(
        RatatuiCommitDraftAuthorError::UnknownPreselection.message(),
        "preselected commit type is unavailable"
    );
    assert_eq!(
        RatatuiCommitDraftAuthorError::Terminal(std::io::Error::other("boom")).message(),
        "commit authoring failed"
    );
}

#[test]
fn non_press_resize_and_paste_events_obey_stage_boundaries() {
    let mut session: AuthoringSession<String> = AuthoringSession::new(catalog(), Some(0));
    assert!(matches!(session.handle_event(TerminalEvent::Other), Step::Continue));
    assert!(!session.composer.dirty());

    let mut picker: AuthoringSession<String> = AuthoringSession::new(catalog(), None);
    paste(&mut picker, "ignored");
    assert!(!picker.composer.dirty());

    let mut review = valid_feat_session();
    let document = lines(&review);
    paste(&mut review, "ignored");
    assert_eq!(lines(&review), document);
}

#[test]
fn rendering_refusals_point_under_their_field_heading() {
    let mut session: AuthoringSession<String> = AuthoringSession::new(vec![presentation()], Some(0));
    let field = property_field(session.definition(), "optional-field");
    assert_eq!(field, Some(FieldId::Property(2)));
    assert_eq!(property_field(session.definition(), "unknown"), None);
    session.report_render_errors(vec![
        (field, "optional-field is refused".to_owned()),
        (None, "the draft is refused".to_owned()),
    ]);
    assert_eq!(session.composer.issues.len(), 2);
    assert_eq!(session.composer.issues[0].line, 16);
    assert_eq!(session.composer.issues[1].line, 2);
    assert_eq!(cursor(&session), (16, 0));

    session.report_template_error("template refused".to_owned());
    assert_eq!(session.composer.issues.len(), 1);
    assert_eq!(session.composer.issues[0].field, None);
    assert_eq!(session.composer.issues[0].line, 16);

    session.composer.editor.jump(10, 0);
    session.report_draft_error("draft refused".to_owned());
    assert_eq!(session.composer.issues[0].field, Some(FieldId::Property(0)));
    assert_eq!(session.composer.issues[0].message, "draft refused");
}

#[test]
fn field_guidance_names_requirements_and_conditions() {
    let definition = presentation();
    let conditional = FieldKind::Property { definition_index: 3, value_index: 0 };
    assert_eq!(
        field_metadata(conditional, &definition),
        (
            " conditional-field · conditional: required when the condition applies ".to_owned(),
            "Description for conditional-field.".to_owned(),
        )
    );
    let recommended = FieldKind::Property { definition_index: 1, value_index: 0 };
    assert_eq!(field_metadata(recommended, &definition).0, " recommended-field · recommended ");
    assert_eq!(field_metadata(FieldKind::Scope, &definition).0, " Scope · optional ");
    assert_eq!(field_metadata(FieldKind::Description, &definition).0, " Description · required ");
    assert_eq!(
        field_metadata(FieldKind::BreakingChange, &definition).0,
        " Breaking change · optional "
    );
    assert_eq!(
        field_guidance(None, &definition),
        (
            " Commit form ".to_owned(),
            "Edit values beneath the schema-generated field headers.".to_owned(),
        )
    );
    assert_eq!(field_guidance(Some(recommended), &definition), field_metadata(recommended, &definition));
}

#[test]
fn context_panes_want_the_taller_of_fields_and_guidance() {
    let session: AuthoringSession<String> = AuthoringSession::new(vec![presentation()], Some(0));
    assert_eq!(context_content_height(200, &session), 7);
    assert_eq!(context_content_height(10, &session), 15);
}

fn modified(code: KeyCode, ctrl: bool, shift: bool) -> TerminalEvent {
    TerminalEvent::Key(KeyPress { code, ctrl, alt: false, shift })
}

fn modified_press(session: &mut AuthoringSession<String>, code: KeyCode, ctrl: bool, shift: bool) {
    assert!(matches!(session.handle_event(modified(code, ctrl, shift)), Step::Continue));
}

#[test]
fn conventional_document_editing_preserves_ctrl_k_unicode_paste_and_history() {
    let mut session: AuthoringSession<String> = AuthoringSession::new(catalog(), Some(0));
    paste(&mut session, "alpha beta 🦀");
    let end = cursor(&session);
    modified_press(&mut session, KeyCode::Left, true, false);
    assert!(cursor(&session).1 < end.1);

    modified_press(&mut session, KeyCode::Char('k'), true, false);
    assert_eq!(lines(&session)[2], "alpha beta ");
    modified_press(&mut session, KeyCode::Char('u'), true, false);
    assert_eq!(lines(&session)[2], "alpha beta 🦀");
    modified_press(&mut session, KeyCode::Char('r'), true, false);
    assert_eq!(lines(&session)[2], "alpha beta ");

    session.composer.editor.jump(10, 0);
    paste(&mut session, "line one\nline two");
    assert!(lines(&session).iter().any(|line| line == "line two"));
}

#[test]
fn horizontal_navigation_and_selection_cannot_cross_field_boundaries() {
    let mut session: AuthoringSession<String> = AuthoringSession::new(catalog(), Some(0));
    paste(&mut session, "alpha beta");
    let end = cursor(&session);
    let document = lines(&session);

    press(&mut session, KeyCode::Right);
    assert_eq!(cursor(&session), end);
    modified_press(&mut session, KeyCode::Right, true, false);
    assert_eq!(cursor(&session), end);
    modified_press(&mut session, KeyCode::Right, false, true);
    assert_eq!(cursor(&session), end);
    assert_eq!(lines(&session), document);

    modified_press(&mut session, KeyCode::Left, true, false);
    assert!(cursor(&session).1 < end.1);
    assert_eq!(session.composer.current_field(session.definition()), Some(FieldKind::Scope));
}

#[test]
fn backspace_and_delete_join_an_explicit_second_line_and_preserve_its_separator() {
    for code in [KeyCode::Backspace, KeyCode::Delete] {
        let mut session: AuthoringSession<String> = AuthoringSession::new(catalog(), Some(0));
        set_document(
            &mut session,
            "scope:\n\n\ndescription:\n\n\nintent:\n\nmoves up\n\nbehavior:\n\n\nconstraints:\n\n\ninvariants:\n\n\nvalidation:\n\n\n",
            8,
        );
        press(&mut session, KeyCode::Home);

        press(&mut session, code);

        assert_eq!(cursor(&session), (8, 0));
        assert_eq!(lines(&session)[8], "moves up");
        assert!(lines(&session)[9].is_empty());
        assert_eq!(lines(&session)[10], "behavior:");

        modified_press(&mut session, KeyCode::Char('u'), true, false);
        assert!(lines(&session)[7].is_empty());
        assert_eq!(lines(&session)[8], "moves up");
        modified_press(&mut session, KeyCode::Char('r'), true, false);
        assert_eq!(lines(&session)[8], "moves up");
        assert!(lines(&session)[9].is_empty());
    }
}

#[test]
fn ctrl_n_and_ctrl_d_use_conventional_editor_behavior_without_changing_the_schema() {
    let mut session: AuthoringSession<String> = AuthoringSession::new(catalog(), Some(0));
    let headings = |session: &AuthoringSession<String>| {
        lines(session)
            .into_iter()
            .filter(|line| line.ends_with(':'))
            .collect::<Vec<_>>()
    };
    let before = headings(&session);

    paste(&mut session, "abc");
    session.composer.editor.jump(2, 0);
    modified_press(&mut session, KeyCode::Char('d'), true, false);
    assert_eq!(lines(&session)[2], "bc");
    modified_press(&mut session, KeyCode::Char('n'), true, false);

    assert_eq!(headings(&session), before);
}
