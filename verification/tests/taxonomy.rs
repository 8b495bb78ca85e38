use gitserious_tui::authoring::TerminalEvent;
use gitserious_tui::editor::{KeyCode, KeyPress};
use gitserious_tui::layout::Rect;
use gitserious_tui::schema::{CommitSchema, Condition, Multiplicity, PropertySpec, Requirement};
use gitserious_tui::taxonomy::{
    next_requirement, pane_left_width, parent_screen, previous_requirement, project_guidance,
    project_status, reorder_available, Category, ConfigAction, ConfigFacts, ConfigState,
    Destination, EditorMode, FormKind, LibraryFocus, Notice, PendingAction, ProjectFacts,
    ProjectSection, PropertyDraft, RatatuiTaxonomyConfigurationEditor, Screen, SettingsSource,
    TaxonomyDraft, TaxonomyEntry, TypeDraft, tab_layout, library_detail_rows, project_detail,
    ProjectDetailFacts, taxonomy_summary, type_detail,
};

fn entry(id: &str, custom: bool, type_count: usize) -> TaxonomyEntry {
    TaxonomyEntry { id: id.to_owned(), custom, type_count }
}

fn facts() -> ConfigFacts {
    ConfigFacts {
        catalog: Some(vec![
            entry("conventional", false, 3),
            entry("team", true, 2),
            entry("ml-research", true, 1),
        ]),
        catalog_error: None,
        global_loaded: true,
        project_loaded: true,
        project_error: String::new(),
        global_dirty: false,
        project_dirty: false,
        project_initialized: true,
        project_baseline: Some(("conventional".to_owned(), vec!["conventional".to_owned()])),
    }
}

fn key(code: KeyCode) -> TerminalEvent {
    TerminalEvent::Key(KeyPress::plain(code))
}

fn control(c: char) -> TerminalEvent {
    TerminalEvent::Key(KeyPress::control(KeyCode::Char(c)))
}

fn alt(code: KeyCode) -> TerminalEvent {
    TerminalEvent::Key(KeyPress { code, ctrl: false, alt: true, shift: false })
}

fn send(state: &mut ConfigState, event: TerminalEvent) -> ConfigAction {
    state.handle_event(event, &facts())
}

fn type_char(state: &mut ConfigState, text: &str) {
    for c in text.chars() {
        assert!(matches!(send(state, key(KeyCode::Char(c))), ConfigAction::Continue));
    }
}

fn notice(state: &ConfigState) -> Option<(bool, String)> {
    match &state.status {
        Some(Notice::Error(text)) => Some((true, text.clone())),
        Some(Notice::Info(text)) => Some((false, text.clone())),
        None => None,
    }
}

fn draft() -> TaxonomyDraft {
    let property = |key: &str| PropertyDraft {
        key: key.to_owned(),
        description: format!("About {key}."),
        requirement: Requirement::Required,
        multiplicity: Multiplicity::Single,
    };
    TaxonomyDraft {
        id: "team".to_owned(),
        description: "Team taxonomy".to_owned(),
        version: 2,
        types: vec![
            TypeDraft {
                id: "feat".to_owned(),
                description: "A feature.".to_owned(),
                schema_version: 1,
                properties: vec![property("intent"), property("behavior")],
            },
            TypeDraft {
                id: "fix".to_owned(),
                description: "A fix.".to_owned(),
                schema_version: 1,
                properties: Vec::new(),
            },
        ],
    }
}

fn library_state() -> ConfigState {
    let mut state = ConfigState::new();
    assert!(matches!(send(&mut state, key(KeyCode::Tab)), ConfigAction::Continue));
    assert_eq!(state.category, Category::Library);
    state
}

fn editing_state() -> ConfigState {
    let mut state = library_state();
    assert!(matches!(send(&mut state, key(KeyCode::Down)), ConfigAction::Continue));
    assert!(matches!(send(&mut state, key(KeyCode::Char('e'))), ConfigAction::OpenEdit));
    state.edit_loaded(Some(draft()), &facts());
    assert_eq!(state.screen, Screen::TaxonomyEditor(EditorMode::Edit));
    state
}

#[test]
fn library_path_is_recorded() {
    let editor = RatatuiTaxonomyConfigurationEditor::with_library_path("/tmp/library.toml".into());
    assert_eq!(
        editor.library_path.as_deref(),
        Some(std::path::Path::new("/tmp/library.toml"))
    );
}

#[test]
fn categories_and_sections_cycle_and_label() {
    assert_eq!(Category::Project.next(), Category::Library);
    assert_eq!(Category::Library.next().next(), Category::Library);
    assert_eq!(Category::Library.index(), 1);
    assert_eq!(Category::Project.label(), "Project");
    assert_eq!(Category::all()[Category::Library.index()], Category::Library);
    for section in ProjectSection::all() {
        assert_eq!(ProjectSection::all()[section.index()], section);
    }
    assert_eq!(ProjectSection::Resolution.label(), "Resolution");
}

#[test]
fn project_sections_move_without_wrapping() {
    let mut state = ConfigState::new();
    send(&mut state, key(KeyCode::Up));
    assert_eq!(state.project_section, ProjectSection::Commit);
    send(&mut state, key(KeyCode::Down));
    send(&mut state, key(KeyCode::Down));
    send(&mut state, key(KeyCode::Down));
    assert_eq!(state.project_section, ProjectSection::Files);
    state.project_scroll = 5;
    send(&mut state, key(KeyCode::PageDown));
    assert_eq!(state.project_scroll, 13);
    send(&mut state, key(KeyCode::PageUp));
    send(&mut state, key(KeyCode::PageUp));
    assert_eq!(state.project_scroll, 0);
}

#[test]
fn library_selection_is_clamped_and_resets_the_type() {
    let mut state = library_state();
    state.type_selected = 1;
    for _ in 0..5 {
        send(&mut state, key(KeyCode::Down));
    }
    assert_eq!(state.browse_selected, 2);
    assert_eq!(state.type_selected, 0);
    send(&mut state, key(KeyCode::Right));
    assert_eq!(state.library_focus, LibraryFocus::Types);
    send(&mut state, key(KeyCode::Up));
    send(&mut state, key(KeyCode::Up));
    assert_eq!(state.browse_selected, 2);
    assert_eq!(state.type_selected, 0);
    send(&mut state, key(KeyCode::Left));
    send(&mut state, key(KeyCode::Up));
    assert_eq!(state.browse_selected, 1);
}

#[test]
fn quitting_asks_first_with_unapplied_changes() {
    let mut state = ConfigState::new();
    assert!(matches!(send(&mut state, key(KeyCode::Char('q'))), ConfigAction::Quit));
    let mut dirty = facts();
    dirty.project_dirty = true;
    let mut state = ConfigState::new();
    assert!(matches!(state.handle_event(key(KeyCode::Esc), &dirty), ConfigAction::Continue));
    assert_eq!(state.screen, Screen::Leave);
    send(&mut state, key(KeyCode::Char('n')));
    assert_eq!(state.screen, Screen::Home);
    state.handle_event(key(KeyCode::Esc), &dirty);
    assert!(matches!(send(&mut state, key(KeyCode::Char('y'))), ConfigAction::Quit));
}

#[test]
fn built_in_taxonomies_are_read_only() {
    let mut state = library_state();
    assert!(matches!(send(&mut state, key(KeyCode::Char('e'))), ConfigAction::Continue));
    assert_eq!(
        notice(&state),
        Some((true, "Built-in taxonomies are read-only; fork one to customize it.".to_owned()))
    );
    send(&mut state, key(KeyCode::Char('d')));
    assert_eq!(state.screen, Screen::Home);
    assert!(matches!(send(&mut state, key(KeyCode::Char('f'))), ConfigAction::Continue));
    assert_eq!(state.screen, Screen::Fork);
    assert_eq!(state.active_scope, Destination::Global);
}

#[test]
fn library_actions_wait_for_project_changes() {
    let mut dirty = facts();
    dirty.project_dirty = true;
    let mut state = library_state();
    assert!(matches!(state.handle_event(key(KeyCode::Char('n')), &dirty), ConfigAction::Continue));
    assert_eq!(state.screen, Screen::ScopeChange(PendingAction::Create));
    assert!(matches!(
        state.handle_event(key(KeyCode::Char('a')), &dirty),
        ConfigAction::ApplyThen(Destination::Project, PendingAction::Create)
    ));
    assert!(matches!(
        state.scope_apply_done(Ok(()), PendingAction::Create, &facts()),
        ConfigAction::Continue
    ));
    assert_eq!(state.screen, Screen::TaxonomyEditor(EditorMode::Create));
    assert_eq!(state.editor.as_ref().map(|draft| draft.version), Some(1));
    assert_eq!(state.active_scope, Destination::Global);
}

#[test]
fn unavailable_library_reports_its_error() {
    let mut broken = facts();
    broken.catalog = None;
    broken.catalog_error = Some("library unreadable".to_owned());
    let mut state = library_state();
    state.handle_event(key(KeyCode::Char('n')), &broken);
    assert_eq!(notice(&state), Some((true, "library unreadable".to_owned())));
    assert_eq!(state.screen, Screen::Home);
}

#[test]
fn project_actions_check_initialization() {
    let mut state = ConfigState::new();
    assert!(matches!(
        send(&mut state, key(KeyCode::Char('i'))),
        ConfigAction::Continue
    ));
    assert_eq!(notice(&state), Some((false, "Project is already initialized.".to_owned())));
    let mut fresh = facts();
    fresh.project_initialized = false;
    state.handle_event(key(KeyCode::Enter), &fresh);
    assert_eq!(notice(&state), Some((true, "Initialize the project before editing.".to_owned())));
    assert!(matches!(
        state.handle_event(key(KeyCode::Char('i')), &fresh),
        ConfigAction::InitializeProject
    ));
    state.initialize_done(Ok(()));
    assert_eq!(state.screen, Screen::Review(Destination::Project));
    let mut missing = facts();
    missing.project_loaded = false;
    missing.project_error = "not a repository".to_owned();
    let mut state = ConfigState::new();
    state.handle_event(key(KeyCode::Char('i')), &missing);
    assert_eq!(notice(&state), Some((true, "not a repository".to_owned())));
}

#[test]
fn settings_keep_the_default_available() {
    let mut state = ConfigState::new();
    assert!(matches!(
        send(&mut state, key(KeyCode::Enter)),
        ConfigAction::OpenSettings(Destination::Project)
    ));
    state.settings_loaded(
        Destination::Project,
        Some(SettingsSource {
            default: "team".to_owned(),
            available: vec!["conventional".to_owned(), "team".to_owned()],
            inherit_default: false,
            inherit_available: true,
            catalog: vec!["conventional".to_owned(), "team".to_owned(), "ml-research".to_owned()],
        }),
    );
    assert_eq!(state.screen, Screen::Settings(Destination::Project));
    assert_eq!(state.settings.as_ref().map(|s| s.selected), Some(1));

    send(&mut state, key(KeyCode::Char(' ')));
    assert_eq!(
        notice(&state),
        Some((true, "Choose another default before removing this taxonomy.".to_owned()))
    );
    assert_eq!(state.settings.as_ref().map(|s| s.available.len()), Some(2));

    send(&mut state, key(KeyCode::Down));
    send(&mut state, key(KeyCode::Char(' ')));
    assert_eq!(
        state.settings.as_ref().map(|s| s.available.clone()),
        Some(vec!["conventional".to_owned(), "team".to_owned(), "ml-research".to_owned()])
    );
    send(&mut state, alt(KeyCode::Up));
    assert_eq!(
        state.settings.as_ref().map(|s| s.available.clone()),
        Some(vec!["conventional".to_owned(), "ml-research".to_owned(), "team".to_owned()])
    );
    send(&mut state, key(KeyCode::Up));
    send(&mut state, key(KeyCode::Up));
    send(&mut state, key(KeyCode::Enter));
    assert_eq!(state.settings.as_ref().map(|s| s.default.clone()), Some("conventional".to_owned()));
    send(&mut state, key(KeyCode::Char('r')));
    assert_eq!(
        state.settings.as_ref().map(|s| (s.inherit_default, s.inherit_available, s.available.len())),
        Some((true, true, 1))
    );
    assert!(matches!(
        send(&mut state, control('s')),
        ConfigAction::Configure(Destination::Project)
    ));
    state.configure_done(Ok(()));
    assert!(state.settings.is_none());
    assert_eq!(state.screen, Screen::Home);
    assert_eq!(
        notice(&state),
        Some((false, "Configuration change staged. Ctrl+S reviews before applying.".to_owned()))
    );
}

#[test]
fn taxonomy_editor_reorders_opens_and_removes_types() {
    let mut state = editing_state();
    send(&mut state, key(KeyCode::Down));
    send(&mut state, alt(KeyCode::Down));
    assert_eq!(state.child_selected, 2);
    let ids = |state: &ConfigState| {
        state.editor.as_ref().map(|e| e.types.iter().map(|t| t.id.clone()).collect::<Vec<_>>())
    };
    assert_eq!(ids(&state), Some(vec!["fix".to_owned(), "feat".to_owned()]));
    send(&mut state, alt(KeyCode::Up));
    assert_eq!(ids(&state), Some(vec!["feat".to_owned(), "fix".to_owned()]));
    assert_eq!(state.child_selected, 1);

    send(&mut state, key(KeyCode::Enter));
    assert_eq!(state.screen, Screen::TypeEditor(0));
    assert_eq!(state.child_selected, 0);
    send(&mut state, key(KeyCode::Down));
    send(&mut state, key(KeyCode::Char('d')));
    assert_eq!(state.editor.as_ref().map(|e| e.types[0].properties.len()), Some(1));
    send(&mut state, key(KeyCode::Esc));
    assert_eq!(state.screen, Screen::TaxonomyEditor(EditorMode::Edit));
    assert_eq!(state.child_selected, 1);

    send(&mut state, key(KeyCode::Char('d')));
    assert_eq!(ids(&state), Some(vec!["fix".to_owned()]));
    assert!(matches!(send(&mut state, control('s')), ConfigAction::StageTaxonomy(EditorMode::Edit)));
    state.stage_done(Ok(()));
    assert!(state.editor.is_none());
    assert_eq!(state.screen, Screen::Home);
}

#[test]
fn revised_identity_is_locked_but_description_edits() {
    let mut state = editing_state();
    send(&mut state, key(KeyCode::Enter));
    assert_eq!(state.screen, Screen::Form(FormKind::TaxonomyMetadata));
    assert_eq!(state.form.as_ref().map(|f| f.selected), Some(1));
    send(&mut state, key(KeyCode::BackTab));
    type_char(&mut state, "xyz");
    send(&mut state, key(KeyCode::Backspace));
    send(&mut state, TerminalEvent::Paste("pasted".to_owned()));
    assert_eq!(state.form.as_ref().map(|f| f.fields[0].clone()), Some("team".to_owned()));
    send(&mut state, key(KeyCode::Tab));
    type_char(&mut state, "!");
    send(&mut state, TerminalEvent::Paste(" more".to_owned()));
    assert_eq!(
        state.form.as_ref().map(|f| f.fields[1].clone()),
        Some("Team taxonomy! more".to_owned())
    );
    send(&mut state, control('s'));
    assert_eq!(state.screen, Screen::TaxonomyEditor(EditorMode::Edit));
    assert_eq!(state.editor.as_ref().map(|e| e.description.clone()), Some("Team taxonomy! more".to_owned()));
}

#[test]
fn metadata_requires_identity_and_description() {
    let mut state = library_state();
    send(&mut state, key(KeyCode::Char('n')));
    assert_eq!(state.screen, Screen::TaxonomyEditor(EditorMode::Create));
    send(&mut state, key(KeyCode::Enter));
    type_char(&mut state, "  ");
    send(&mut state, control('s'));
    assert_eq!(
        notice(&state),
        Some((true, "Taxonomy id and description are required.".to_owned()))
    );
    assert_eq!(state.screen, Screen::Form(FormKind::TaxonomyMetadata));
    send(&mut state, key(KeyCode::Esc));
    assert_eq!(state.screen, Screen::TaxonomyEditor(EditorMode::Create));
}

#[test]
fn property_forms_step_requirements_and_insert_checked_candidates() {
    let mut state = editing_state();
    send(&mut state, key(KeyCode::Enter));
    send(&mut state, key(KeyCode::Esc));
    send(&mut state, key(KeyCode::Down));
    send(&mut state, key(KeyCode::Enter));
    assert_eq!(state.screen, Screen::TypeEditor(0));
    send(&mut state, key(KeyCode::Char('n')));
    assert_eq!(state.screen, Screen::Form(FormKind::NewProperty(0)));
    type_char(&mut state, "risk");
    send(&mut state, key(KeyCode::Tab));
    type_char(&mut state, "Why");
    send(&mut state, key(KeyCode::Tab));
    send(&mut state, key(KeyCode::Left));
    assert!(matches!(state.form.as_ref().map(|f| &f.requirement), Some(Requirement::Conditional(_))));
    type_char(&mut state, "when");
    send(&mut state, key(KeyCode::Tab));
    type_char(&mut state, "risky");
    send(&mut state, key(KeyCode::Right));
    assert_eq!(state.form.as_ref().map(|f| f.multiplicity), Some(Multiplicity::Multiple));
    assert!(matches!(send(&mut state, control('s')), ConfigAction::CheckForm(FormKind::NewProperty(0))));
    let candidate = state.property_candidate();
    assert_eq!(candidate.key, "risk");
    match &candidate.requirement {
        Requirement::Conditional(Condition { id, rationale }) => {
            assert_eq!(id, "when");
            assert_eq!(rationale, "risky");
        }
        _ => panic!("expected a conditional requirement"),
    }
    state.form_checked(FormKind::NewProperty(0), Err("key refused".to_owned()));
    assert_eq!(notice(&state), Some((true, "key refused".to_owned())));
    state.form_checked(FormKind::NewProperty(0), Ok(()));
    assert_eq!(state.screen, Screen::TypeEditor(0));
    assert_eq!(
        state.editor.as_ref().map(|e| e.types[0].properties.iter().map(|p| p.key.clone()).collect::<Vec<_>>()),
        Some(vec!["intent".to_owned(), "behavior".to_owned(), "risk".to_owned()])
    );
}

#[test]
fn type_forms_keep_properties_when_edited() {
    let mut state = editing_state();
    send(&mut state, key(KeyCode::Down));
    send(&mut state, key(KeyCode::Enter));
    send(&mut state, key(KeyCode::Enter));
    assert_eq!(state.screen, Screen::Form(FormKind::EditType(0)));
    type_char(&mut state, "ure");
    assert!(matches!(send(&mut state, control('s')), ConfigAction::CheckForm(FormKind::EditType(0))));
    let candidate = state.type_candidate(FormKind::EditType(0));
    assert_eq!(candidate.id, "feature");
    assert_eq!(candidate.properties.len(), 2);
    state.form_checked(FormKind::EditType(0), Ok(()));
    assert_eq!(state.editor.as_ref().map(|e| e.types[0].id.clone()), Some("feature".to_owned()));
    assert_eq!(state.editor.as_ref().map(|e| e.types[0].properties.len()), Some(2));
    assert_eq!(state.screen, Screen::TypeEditor(0));
}

#[test]
fn fork_and_delete_name_the_selected_taxonomy() {
    let mut state = library_state();
    send(&mut state, key(KeyCode::Char('f')));
    type_char(&mut state, "team2");
    send(&mut state, key(KeyCode::Backspace));
    send(&mut state, TerminalEvent::Paste("-copy".to_owned()));
    assert_eq!(state.fork_target, "team-copy");
    match send(&mut state, control('s')) {
        ConfigAction::Fork(source) => assert_eq!(source, "conventional"),
        _ => panic!("expected a fork"),
    }
    state.fork_done(Ok(()));
    assert_eq!(state.screen, Screen::Home);

    send(&mut state, key(KeyCode::Down));
    send(&mut state, key(KeyCode::Char('d')));
    assert_eq!(state.screen, Screen::Delete);
    match send(&mut state, key(KeyCode::Char('y'))) {
        ConfigAction::Delete(id) => assert_eq!(id, "team"),
        _ => panic!("expected a deletion"),
    }
    state.delete_done(Ok(()));
    assert_eq!(state.browse_selected, 0);
    assert_eq!(
        notice(&state),
        Some((false, "Deletion staged. Ctrl+S reviews before applying.".to_owned()))
    );
}

#[test]
fn review_is_the_only_apply_step() {
    let mut state = library_state();
    assert!(matches!(send(&mut state, control('s')), ConfigAction::CheckReview(Destination::Global)));
    state.review_checked(Destination::Global, false, None);
    assert_eq!(notice(&state), Some((false, "No changes or taxonomy updates to apply.".to_owned())));
    state.review_checked(Destination::Global, true, None);
    assert_eq!(state.screen, Screen::Review(Destination::Global));
    send(&mut state, key(KeyCode::Down));
    send(&mut state, key(KeyCode::Down));
    send(&mut state, key(KeyCode::Up));
    assert_eq!(state.scroll, 1);
    assert!(matches!(send(&mut state, key(KeyCode::Enter)), ConfigAction::Apply(Destination::Global)));
    state.apply_done(Err("disk full".to_owned()));
    assert_eq!(state.screen, Screen::Home);
    assert_eq!(notice(&state), Some((true, "disk full".to_owned())));
}

#[test]
fn clicks_select_tabs_sections_and_taxonomies() {
    let mut state = ConfigState::new();
    state.tab_areas = [Rect::new(1, 1, 9, 1), Rect::new(11, 1, 9, 1)];
    state.project_area = Rect::new(2, 8, 20, 5);
    state.browser_area = Rect::new(2, 4, 20, 10);
    state.type_area = Rect::new(30, 6, 20, 3);
    send(&mut state, TerminalEvent::Click { column: 4, row: 10 });
    assert_eq!(state.project_section, ProjectSection::Files);
    send(&mut state, TerminalEvent::Click { column: 12, row: 1 });
    assert_eq!(state.category, Category::Library);
    send(&mut state, TerminalEvent::Click { column: 5, row: 6 });
    assert_eq!(state.browse_selected, 2);
    send(&mut state, TerminalEvent::Click { column: 5, row: 9 });
    assert_eq!(state.browse_selected, 2);
    send(&mut state, TerminalEvent::Click { column: 31, row: 6 });
    assert_eq!(state.type_selected, 0);
    assert_eq!(state.library_focus, LibraryFocus::Types);
}

#[test]
fn too_small_view_blocks_hidden_actions() {
    let mut project = ConfigState::new();
    project.too_small = true;
    let before = project.project_section;
    assert!(matches!(send(&mut project, key(KeyCode::Down)), ConfigAction::Continue));
    assert_eq!(project.project_section, before);

    let mut state = library_state();
    state.too_small = true;
    assert!(matches!(send(&mut state, key(KeyCode::Char('n'))), ConfigAction::Continue));
    assert_eq!(state.screen, Screen::Home);
    assert!(matches!(send(&mut state, key(KeyCode::Char('q'))), ConfigAction::Quit));
}

#[test]
fn requirement_steps_and_parents() {
    let next = next_requirement(&Requirement::Required);
    assert!(matches!(next, Requirement::Recommended));
    assert!(matches!(previous_requirement(&next), Requirement::Required));
    assert!(matches!(next_requirement(&Requirement::Optional), Requirement::Conditional(_)));
    assert!(matches!(previous_requirement(&Requirement::Required), Requirement::Conditional(_)));
    let condition = Requirement::Conditional(Condition { id: "x".to_owned(), rationale: "y".to_owned() });
    match next_requirement(&condition) {
        Requirement::Conditional(c) => assert_eq!(c.id, "condition"),
        _ => panic!("expected a fresh condition"),
    }
    assert_eq!(parent_screen(FormKind::NewType, EditorMode::Create), Screen::TaxonomyEditor(EditorMode::Create));
    assert_eq!(parent_screen(FormKind::EditProperty(3, 1), EditorMode::Edit), Screen::TypeEditor(3));
}

#[test]
fn reordering_available_taxonomies_swaps_neighbours() {
    let mut available = vec!["a".to_owned(), "b".to_owned(), "c".to_owned()];
    reorder_available(&mut available, &Some("c".to_owned()), true);
    assert_eq!(available, ["a", "b", "c"]);
    reorder_available(&mut available, &Some("b".to_owned()), true);
    assert_eq!(available, ["a", "c", "b"]);
    reorder_available(&mut available, &Some("b".to_owned()), false);
    assert_eq!(available, ["a", "b", "c"]);
    reorder_available(&mut available, &Some("z".to_owned()), false);
    reorder_available(&mut available, &None, false);
    assert_eq!(available, ["a", "b", "c"]);
}

#[test]
fn project_status_and_guidance() {
    let facts = |persisted, configured, lock_matches, dirty| ProjectFacts {
        persisted,
        configured,
        lock_matches,
        dirty,
        source_error: false,
        update_available: false,
    };
    assert_eq!(project_status(&facts(false, false, None, false)), "Not initialized");
    assert_eq!(project_status(&facts(false, true, None, false)), "Initialization staged");
    assert_eq!(project_status(&facts(true, true, None, false)), "Lock missing");
    assert_eq!(project_status(&facts(true, true, Some(false), false)), "Stale lock");
    assert_eq!(project_status(&facts(true, true, Some(true), true)), "Changes staged");
    assert_eq!(project_status(&facts(true, true, Some(true), false)), "In sync");
    assert_eq!(project_guidance("Not initialized"), "Press i to initialize and review.");
    assert_eq!(project_guidance("Update available"), "Review and refresh the lock with Ctrl+S.");
    assert_eq!(project_guidance("In sync"), "");
}

#[test]
fn two_pane_widths() {
    assert_eq!(pane_left_width(100), 38);
    assert_eq!(pane_left_width(60), 26);
    assert_eq!(pane_left_width(40), 12);
    assert_eq!(pane_left_width(10), 0);
    assert_eq!(pane_left_width(u16::MAX), 655);
}

/// The configuration sessions as these tests model them: the Library's
/// built-in taxonomies and an uninitialized project, answering each action
/// the way the terminal adapter carries it out, and counting writes.
struct Workspace {
    facts: ConfigFacts,
    saves: usize,
}

impl Workspace {
    fn new() -> Self {
        Self {
            facts: ConfigFacts {
                catalog: Some(vec![
                    entry("conventional", false, 11),
                    entry("infra-ops", false, 6),
                    entry("ml-research", false, 6),
                ]),
                catalog_error: None,
                global_loaded: true,
                project_loaded: true,
                project_error: String::new(),
                global_dirty: false,
                project_dirty: false,
                project_initialized: false,
                project_baseline: Some(("conventional".to_owned(), vec!["conventional".to_owned()])),
            },
            saves: 0,
        }
    }

    fn save(&mut self, scope: Destination) {
        self.saves += 1;
        match scope {
            Destination::Global => self.facts.global_dirty = false,
            Destination::Project => self.facts.project_dirty = false,
        }
    }

    fn fork(&mut self, target: &str) {
        if let Some(catalog) = self.facts.catalog.as_mut() {
            catalog.push(entry(target, true, 11));
        }
        self.facts.global_dirty = true;
    }

    fn handle(&mut self, state: &mut ConfigState, event: TerminalEvent) {
        let mut action = state.handle_event(event, &self.facts);
        loop {
            action = match action {
                ConfigAction::Continue | ConfigAction::Quit => return,
                ConfigAction::InitializeProject => {
                    self.facts.project_initialized = true;
                    self.facts.project_dirty = true;
                    state.initialize_done(Ok(()));
                    ConfigAction::Continue
                }
                ConfigAction::ApplyThen(scope, pending) => {
                    self.save(scope);
                    state.scope_apply_done(Ok(()), pending, &self.facts)
                }
                ConfigAction::DiscardThen(scope, pending) => {
                    if scope == Destination::Project {
                        self.facts.project_dirty = false;
                        self.facts.project_initialized = false;
                    } else {
                        self.facts.global_dirty = false;
                    }
                    state.scope_discard_done(pending, &self.facts)
                }
                ConfigAction::CheckReview(scope) => {
                    let dirty = match scope {
                        Destination::Global => self.facts.global_dirty,
                        Destination::Project => self.facts.project_dirty,
                    };
                    state.review_checked(scope, dirty, None);
                    ConfigAction::Continue
                }
                ConfigAction::Apply(scope) => {
                    self.save(scope);
                    state.apply_done(Ok(()));
                    ConfigAction::Continue
                }
                ConfigAction::OpenEdit => {
                    let selected = self
                        .facts
                        .catalog
                        .as_ref()
                        .and_then(|catalog| catalog.get(state.browse_selected))
                        .map(|entry| TaxonomyDraft { id: entry.id.clone(), ..draft() });
                    state.edit_loaded(selected, &self.facts);
                    ConfigAction::Continue
                }
                other => panic!("unexpected action {}", action_name(&other)),
            };
        }
    }
}

fn action_name(action: &ConfigAction) -> &'static str {
    match action {
        ConfigAction::Continue => "continue",
        ConfigAction::Quit => "quit",
        ConfigAction::Configure(_) => "configure",
        ConfigAction::Fork(_) => "fork",
        ConfigAction::Delete(_) => "delete",
        ConfigAction::Apply(_) => "apply",
        ConfigAction::ApplyThen(..) => "apply then",
        ConfigAction::DiscardThen(..) => "discard then",
        ConfigAction::OpenSettings(_) => "open settings",
        ConfigAction::InitializeProject => "initialize",
        ConfigAction::CheckReview(_) => "check review",
        ConfigAction::OpenEdit => "open edit",
        ConfigAction::StageTaxonomy(_) => "stage",
        ConfigAction::CheckForm(_) => "check form",
    }
}

fn click(column: u16, row: u16) -> TerminalEvent {
    TerminalEvent::Click { column, row }
}

#[test]
fn project_shows_inherited_preview_resolution_files_and_initialize() {
    let mut workspace = Workspace::new();
    let mut state = ConfigState::new();
    assert_eq!(state.category, Category::Project);
    let status = project_status(&ProjectFacts {
        persisted: false,
        configured: workspace.facts.project_initialized,
        lock_matches: None,
        dirty: false,
        source_error: false,
        update_available: false,
    });
    assert_eq!(status, "Not initialized");

    workspace.handle(&mut state, key(KeyCode::Down));
    assert_eq!(state.project_section, ProjectSection::Resolution);
    workspace.handle(&mut state, key(KeyCode::Down));
    assert_eq!(state.project_section, ProjectSection::Files);
    workspace.handle(&mut state, key(KeyCode::Up));
    workspace.handle(&mut state, key(KeyCode::Up));
    workspace.handle(&mut state, key(KeyCode::Enter));
    assert_eq!(state.screen, Screen::Home);
    assert!(matches!(state.status, Some(Notice::Error(_))));
    workspace.handle(&mut state, key(KeyCode::Char('i')));
    assert_eq!(state.screen, Screen::Review(Destination::Project));
    assert_eq!(workspace.saves, 0);
    let staged = project_status(&ProjectFacts {
        persisted: false,
        configured: workspace.facts.project_initialized,
        lock_matches: None,
        dirty: workspace.facts.project_dirty,
        source_error: false,
        update_available: false,
    });
    assert_eq!(staged, "Initialization staged");
}

#[test]
fn library_shows_inline_type_detail_and_retains_selection() {
    let mut workspace = Workspace::new();
    let mut state = ConfigState::new();
    // What drawing a 120x40 terminal records.
    let (tabs, _) = tab_layout(Rect::new(1, 1, 118, 1));
    state.tab_areas = tabs;
    let library_tab = state.tab_areas[Category::Library.index()];
    workspace.handle(&mut state, click(library_tab.x, library_tab.y));
    assert_eq!(state.category, Category::Library);
    state.browser_area = Rect::new(2, 4, 41, 32);
    state.type_area = Rect::new(47, 6, 70, 11);

    let library = state.browser_area;
    workspace.handle(&mut state, click(library.x, library.y + 1));
    assert_eq!(state.browse_selected, 1);
    assert_eq!(state.type_selected, 0);
    let type_area = state.type_area;
    workspace.handle(&mut state, click(type_area.x, type_area.y + 1));
    assert_eq!(state.type_selected, 1);
    assert_eq!(state.library_focus, LibraryFocus::Types);
    workspace.handle(&mut state, key(KeyCode::Left));
    workspace.handle(&mut state, key(KeyCode::Down));
    assert_eq!(state.browse_selected, 2);
    assert_eq!(state.type_selected, 0);
    workspace.handle(&mut state, key(KeyCode::Tab));
    assert_eq!(state.category, Category::Project);
    workspace.handle(&mut state, key(KeyCode::Tab));
    assert_eq!(state.category, Category::Library);
    assert_eq!(state.browse_selected, 2);
    let project_tab = state.tab_areas[Category::Project.index()];
    state.screen = Screen::Fork;
    workspace.handle(&mut state, click(project_tab.x, project_tab.y));
    assert_eq!(state.category, Category::Library);
}

#[test]
fn compact_panels_scroll_without_changing_selection() {
    let mut workspace = Workspace::new();
    let mut state = ConfigState::new();
    state.project_section = ProjectSection::Files;
    workspace.handle(&mut state, key(KeyCode::PageDown));
    assert!(state.project_scroll > 0);
    assert_eq!(state.project_section, ProjectSection::Files);

    state.category = Category::Library;
    state.library_focus = LibraryFocus::Types;
    workspace.handle(&mut state, key(KeyCode::PageDown));
    assert!(state.property_scroll > 0);
    assert_eq!(state.browse_selected, 0);
    assert_eq!(state.type_selected, 0);
}

#[test]
fn browsing_preserves_project_draft_until_global_action() {
    let mut workspace = Workspace::new();
    workspace.facts.project_initialized = true;
    workspace.facts.project_dirty = true;
    let mut state = ConfigState::new();
    workspace.handle(&mut state, key(KeyCode::Tab));
    assert_eq!(state.category, Category::Library);
    assert!(workspace.facts.project_dirty);
    assert_eq!(workspace.saves, 0);
    workspace.handle(&mut state, key(KeyCode::Char('e')));
    assert_eq!(state.screen, Screen::Home);
    assert!(matches!(state.status, Some(Notice::Error(_))));
    assert_eq!(workspace.saves, 0);
    workspace.handle(&mut state, key(KeyCode::Char('n')));
    assert_eq!(state.screen, Screen::ScopeChange(PendingAction::Create));
    assert_eq!(workspace.saves, 0);
    workspace.handle(&mut state, key(KeyCode::Esc));
    assert_eq!(state.screen, Screen::Home);
    assert_eq!(state.category, Category::Library);
    assert!(workspace.facts.project_dirty);
    workspace.handle(&mut state, key(KeyCode::Char('n')));
    workspace.handle(&mut state, key(KeyCode::Char('a')));
    assert_eq!(workspace.saves, 1);
    assert_eq!(state.screen, Screen::TaxonomyEditor(EditorMode::Create));
    assert_eq!(state.active_scope, Destination::Global);
}

#[test]
fn taxonomy_commands_target_selected_global_definition() {
    let mut workspace = Workspace::new();
    let mut state = ConfigState::new();
    state.category = Category::Library;
    workspace.handle(&mut state, key(KeyCode::Char('e')));
    assert_eq!(state.screen, Screen::Home);
    assert!(matches!(state.status, Some(Notice::Error(_))));
    workspace.handle(&mut state, key(KeyCode::Char('f')));
    assert_eq!(state.screen, Screen::Fork);
    workspace.handle(&mut state, key(KeyCode::Esc));
    workspace.handle(&mut state, key(KeyCode::Char('d')));
    assert_eq!(state.screen, Screen::Home);
    workspace.fork("team");
    state.browse_selected = 3;
    workspace.handle(&mut state, key(KeyCode::Char('e')));
    assert_eq!(state.screen, Screen::TaxonomyEditor(EditorMode::Edit));
    workspace.handle(&mut state, key(KeyCode::Esc));
    workspace.handle(&mut state, key(KeyCode::Char('d')));
    assert_eq!(state.screen, Screen::Delete);
    workspace.handle(&mut state, key(KeyCode::Char('n')));
    assert_eq!(state.screen, Screen::Home);
    workspace.handle(&mut state, control('s'));
    assert_eq!(state.screen, Screen::Review(Destination::Global));
    assert_eq!(workspace.saves, 0);
}

#[test]
fn unavailable_library_keeps_the_frame_and_reports_the_error() {
    let mut workspace = Workspace::new();
    workspace.facts.global_loaded = false;
    workspace.facts.catalog = None;
    workspace.facts.catalog_error = Some("global load failed".to_owned());
    let mut state = ConfigState::new();
    state.category = Category::Library;
    workspace.handle(&mut state, key(KeyCode::Char('n')));
    assert_eq!(state.screen, Screen::Home);
    assert!(matches!(state.status, Some(Notice::Error(_))));
}

#[test]
fn global_review_resumes_after_discarding_project_draft() {
    let mut workspace = Workspace::new();
    workspace.facts.project_initialized = true;
    workspace.facts.project_dirty = true;
    let mut state = ConfigState::new();
    state.category = Category::Library;
    workspace.handle(&mut state, control('s'));
    assert_eq!(state.screen, Screen::ScopeChange(PendingAction::ReviewGlobal));
    workspace.handle(&mut state, key(KeyCode::Char('d')));
    assert_eq!(state.screen, Screen::Home);
    assert_eq!(state.active_scope, Destination::Global);
    assert!(!workspace.facts.project_dirty);
    assert_eq!(workspace.saves, 0);
}

#[test]
fn review_is_the_only_save_boundary() {
    let mut workspace = Workspace::new();
    let mut state = ConfigState::new();
    state.active_scope = Destination::Global;
    workspace.fork("team");
    state.review_checked(Destination::Global, workspace.facts.global_dirty, None);
    assert_eq!(state.screen, Screen::Review(Destination::Global));
    assert_eq!(workspace.saves, 0);
    workspace.handle(&mut state, key(KeyCode::Enter));
    assert_eq!(workspace.saves, 1);
}

fn detail_facts() -> ProjectDetailFacts {
    ProjectDetailFacts {
        resolution: Ok(("team".to_owned(), vec!["conventional".to_owned(), "team".to_owned()])),
        pinned: None,
        lock: None,
        override_default: false,
        project_default: None,
        project_available: None,
        baseline_default: "conventional".to_owned(),
        baseline_available: vec!["conventional".to_owned()],
        library_path: Some("/library/config.toml".to_owned()),
        files: Some(("/repo/gitserious.toml".to_owned(), "/repo/gitserious.lock".to_owned())),
        status: ProjectFacts {
            persisted: false,
            configured: false,
            lock_matches: None,
            dirty: false,
            source_error: false,
            update_available: false,
        },
    }
}

#[test]
fn project_detail_shows_preview_resolution_and_files() {
    let facts = detail_facts();
    assert_eq!(
        project_detail(ProjectSection::Commit, &facts),
        "Commit taxonomy\n  team (preview; commit blocked)\n\nSource\n  Inherited Library baseline\n\nLibrary baseline\n  conventional\n\nAvailable taxonomies\n  conventional, team (preview; commit blocked)\n\nStatus\n  Not initialized\n  Press i to initialize and review."
    );
    assert_eq!(
        project_detail(ProjectSection::Resolution, &facts),
        "Library baseline\n  /library/config.toml\n  Default: conventional\n  Available: conventional\n\nProject overrides\n  /repo/gitserious.toml\n  Default: inherit\n  Available: inherit\n\nCurrent resolution\n  Default: team\n  Available: conventional, team\n\nPinned lock\n  Default: Unavailable\n  Available: Unavailable\n\nStatus\n  Not initialized"
    );
    assert_eq!(
        project_detail(ProjectSection::Files, &facts),
        "Project configuration\n  /repo/gitserious.toml\n  Absent\n\nLock\n  /repo/gitserious.lock\n  Absent\n\nStatus\n  Not initialized\n  Press i to initialize and review."
    );
}

#[test]
fn project_detail_reads_locks_staging_and_failures() {
    let mut facts = detail_facts();
    facts.resolution = Err("unknown taxonomy".to_owned());
    facts.pinned = Some(("conventional".to_owned(), vec!["conventional".to_owned()]));
    facts.lock = facts.pinned.clone();
    facts.override_default = true;
    facts.project_default = Some("team".to_owned());
    facts.status.persisted = true;
    facts.status.configured = true;
    facts.status.lock_matches = Some(true);
    facts.status.dirty = true;
    let commit = project_detail(ProjectSection::Commit, &facts);
    assert!(commit.starts_with("Commit taxonomy\n  conventional\n\nSource\n  Project override"));
    assert!(commit.contains("Staged resolution\n  Default: Unresolved: unknown taxonomy"));
    let resolution = project_detail(ProjectSection::Resolution, &facts);
    assert!(resolution.contains("Project overrides (staged)\n"));
    assert!(resolution.contains("Default: team\n  Available: inherit"));
    assert!(resolution.contains("Pinned lock\n  Default: conventional\n  Available: conventional"));
    facts.files = None;
    assert_eq!(project_detail(ProjectSection::Files, &facts), "Repository unavailable.");
    facts.library_path = None;
    assert!(project_detail(ProjectSection::Resolution, &facts)
        .starts_with("Library baseline\n  Library config location unavailable\n"));
}

#[test]
fn library_rows_and_selections_fit_what_is_shown() {
    assert_eq!(library_detail_rows(30, 2, 11), (3, 11));
    assert_eq!(library_detail_rows(30, 40, 11), (24, 1));
    assert_eq!(library_detail_rows(14, 1, 0), (2, 1));
    assert_eq!(library_detail_rows(30, 2, 3), (3, 3));

    let mut state = ConfigState::new();
    state.browse_selected = 9;
    state.clamp_browse_selection(3);
    assert_eq!(state.browse_selected, 2);
    state.clamp_browse_selection(0);
    assert_eq!(state.browse_selected, 0);
    state.type_selected = 4;
    state.clamp_type_selection(5);
    assert_eq!(state.type_selected, 4);
    state.clamp_type_selection(2);
    assert_eq!(state.type_selected, 1);

    state.project_scroll = 40;
    state.fit_project_scroll(30, 12);
    assert_eq!(state.project_scroll, 18);
    state.fit_project_scroll(5, 12);
    assert_eq!(state.project_scroll, 0);
    state.property_scroll = 3;
    state.fit_property_scroll(30, 12);
    assert_eq!(state.property_scroll, 3);

    state.record_terminal_size(59, 30);
    assert!(state.too_small);
    state.record_terminal_size(60, 17);
    assert!(state.too_small);
    state.record_terminal_size(60, 18);
    assert!(!state.too_small);
}

#[test]
fn library_detail_texts_describe_the_selection() {
    assert_eq!(taxonomy_summary("Team taxonomy", &None), "Team taxonomy");
    assert_eq!(
        taxonomy_summary("Team taxonomy", &Some(("conventional".to_owned(), "1".to_owned()))),
        "Team taxonomy\nForked from conventional@1"
    );
    let mut schema = CommitSchema {
        id: "feat".to_owned(),
        description: "An addition.".to_owned(),
        properties: vec![
            PropertySpec {
                key: "intent".to_owned(),
                description: String::new(),
                requirement: Requirement::Required,
                multiplicity: Multiplicity::Single,
            },
            PropertySpec {
                key: "risk".to_owned(),
                description: String::new(),
                requirement: Requirement::Conditional(Condition {
                    id: "risky".to_owned(),
                    rationale: "when it is".to_owned(),
                }),
                multiplicity: Multiplicity::Multiple,
            },
        ],
    };
    assert_eq!(
        type_detail(&schema),
        "An addition.\n\nProperties\n  intent  required\n  risk  conditional"
    );
    schema.properties.clear();
    assert_eq!(type_detail(&schema), "An addition.\n\nProperties\n  No durable properties.");
}
