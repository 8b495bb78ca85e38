//! The authoring session: the stages an author moves through (choosing a
//! commit type, composing the structured document, reviewing the rendered
//! message, confirming a discard) and how each terminal event moves the
//! session between them.
//!
//! The session never runs the commit rules itself: Ctrl+S asks the caller to
//! check the draft ([`Step::CheckDraft`]), and the caller hands the verdicts
//! back through the `submit_*` methods.

use vstd::prelude::*;

use crate::composer::{
    advance_spec, decision_target, delete_result, field_id_at, horizontal_result, render_issues,
    settled_cursor, terminal_coordinate, ComposerState,
};
use crate::document::{
    field_at_spec, intact_spec, issues_view, keys_well_formed, lines_view, parse_document, parse_spec,
    scaffold_spec, IssueView, ParsedDocument, ValidationIssue, SCOPE_VALUE_LINE,
};
use crate::editor::{
    after_input, after_insert, after_move, editor_cursor, editor_lines, jump_spec, CursorMotion, KeyCode,
    KeyPress,
};
use crate::issues::{draft_issues, errors_view, sort_by_line};
use crate::layout::{contains, contains_spec, sat_add, sat_sub, saturating_add, saturating_sub, Rect};
use crate::schema::{keys_of, Applicability, CommitSchema, FieldId, FieldKind, PropertyView};
use crate::text::{chars_eq, chars_of};

verus! {

/// The stage of an authoring session.
#[derive(Clone, Copy, Debug, PartialEq, Eq, Structural)]
pub enum Stage {
    SelectType,
    Compose,
    Review,
    Confirm,
}

/// What a confirmed discard does.
#[derive(Clone, Copy, Debug, PartialEq, Eq, Structural)]
pub enum ConfirmationAction {
    /// Leave authoring altogether.
    Cancel,
    /// Drop the draft and choose another commit type.
    ChangeType,
}

/// The stage a declined discard returns to.
#[derive(Clone, Copy, Debug, PartialEq, Eq, Structural)]
pub enum ResumeStage {
    Compose,
    Review,
}

/// Where the discard dialog drew its two buttons.
#[derive(Clone, Copy, Debug, PartialEq, Eq, Structural, Default)]
pub struct ConfirmationButtons {
    pub discard: Rect,
    pub keep_editing: Rect,
}

/// A catalog of commit types the picker can show.
#[derive(Clone, Copy, Debug, PartialEq, Eq, Structural)]
pub enum TypeCatalogKind {
    /// The commit types given to the session.
    Conventional,
    /// The commit types of the template at this index of the context.
    Template(usize),
}

/// Where the picker drew the tab of a catalog.
#[derive(Clone, Copy, Debug, PartialEq, Eq, Structural)]
pub struct CatalogTab {
    pub kind: TypeCatalogKind,
    pub area: Rect,
}

/// A template of the authoring context: its identity and commit types.
pub struct TemplateCatalog {
    pub id: String,
    pub types: Vec<CommitSchema>,
}

/// The rendered message under review. `payload` is what the caller made of
/// the checked draft (the draft and its message); `scroll` is the first row
/// shown, and `scrollable` whether the message overflows its pane.
pub struct ReviewState<P> {
    pub payload: P,
    pub scroll: u16,
    pub scrollable: bool,
}

/// How authoring ended.
pub enum Outcome<P> {
    Cancelled,
    Authored(P),
}

/// A terminal event, as the session reads it.
pub enum TerminalEvent {
    /// A key press.
    Key(KeyPress),
    /// A press of the left mouse button on a cell.
    Click { column: u16, row: u16 },
    /// Pasted text.
    Paste(String),
    /// Anything else: key releases, other mouse events, resizes, focus.
    Other,
}

/// What the caller does after an event.
pub enum Step<P> {
    /// Draw again and wait for the next event.
    Continue,
    /// Authoring is over.
    Finished(Outcome<P>),
    /// Check the draft with the commit rules and hand back the verdicts.
    CheckDraft,
}

/// Failure to present or operate structured commit authoring.
pub enum RatatuiCommitDraftAuthorError {
    /// Effective project policy contains no commit types.
    EmptyCatalog,
    /// The requested preselection is absent from the effective catalog.
    UnknownPreselection,
    /// Authoring was requested without interactive terminal streams.
    NotTerminal,
    /// Terminal initialization, rendering, input, or restoration failed.
    Terminal(std::io::Error),
}

/// `std::io::Error`, carried by [`RatatuiCommitDraftAuthorError::Terminal`].
#[verifier::external_type_specification]
#[verifier::external_body]
pub struct ExIoError(std::io::Error);

/// The text of an authoring failure.
pub open spec fn author_error_text(e: RatatuiCommitDraftAuthorError) -> Seq<char> {
    match e {
        RatatuiCommitDraftAuthorError::EmptyCatalog => "cannot author from an empty commit-type catalog"@,
        RatatuiCommitDraftAuthorError::UnknownPreselection => "preselected commit type is unavailable"@,
        RatatuiCommitDraftAuthorError::NotTerminal => "commit authoring requires an interactive terminal"@,
        RatatuiCommitDraftAuthorError::Terminal(_) => "commit authoring failed"@,
    }
}

impl RatatuiCommitDraftAuthorError {
    /// The text shown for this failure.
    pub fn message(&self) -> (s: String)
        ensures
            s@ == author_error_text(*self),
    {
        match self {
            RatatuiCommitDraftAuthorError::EmptyCatalog => String::from_str(
                "cannot author from an empty commit-type catalog",
            ),
            RatatuiCommitDraftAuthorError::UnknownPreselection => String::from_str(
                "preselected commit type is unavailable",
            ),
            RatatuiCommitDraftAuthorError::NotTerminal => String::from_str(
                "commit authoring requires an interactive terminal",
            ),
            RatatuiCommitDraftAuthorError::Terminal(_) => String::from_str("commit authoring failed"),
        }
    }
}

/// The first commit type with the given identity.
pub open spec fn first_with_id(types: Seq<CommitSchema>, id: Seq<char>) -> Option<nat> {
    if exists|i: int|
        0 <= i < types.len() && types[i].id@ == id && forall|j: int| 0 <= j < i ==> types[j].id@ != id {
        let i = choose|i: int|
            0 <= i < types.len() && types[i].id@ == id && forall|j: int|
                0 <= j < i ==> types[j].id@ != id;
        Some(i as nat)
    } else {
        None
    }
}

proof fn lemma_first_with_id(types: Seq<CommitSchema>, id: Seq<char>, i: int)
    requires
        0 <= i < types.len(),
        types[i].id@ == id,
        forall|j: int| 0 <= j < i ==> types[j].id@ != id,
    ensures
        first_with_id(types, id) == Some(i as nat),
{
    let k = choose|k: int|
        0 <= k < types.len() && types[k].id@ == id && forall|j: int| 0 <= j < k ==> types[j].id@ != id;
    if k < i {
        assert(types[k].id@ != id);
    }
    if i < k {
        assert(types[i].id@ != id);
    }
}

/// The position of the first commit type with the given identity.
pub fn position_of_id(types: &Vec<CommitSchema>, id: &str) -> (r: Option<usize>)
    ensures
        match r {
            Some(i) => first_with_id(types@, id@) == Some(i as nat),
            None => first_with_id(types@, id@) is None,
        },
{
    let wanted = chars_of(id);
    let mut i: usize = 0;
    while i < types.len()
        invariant
            i <= types.len(),
            wanted@ == id@,
            forall|j: int| 0 <= j < i ==> types@[j].id@ != id@,
        decreases types.len() - i,
    {
        let candidate = chars_of(types[i].id.as_str());
        if chars_eq(candidate.as_slice(), wanted.as_slice()) {
            proof {
                lemma_first_with_id(types@, id@, i as int);
            }
            return Some(i);
        }
        i = i + 1;
    }
    None
}

/// Ratatui implementation of structured commit-draft authoring.
#[derive(Clone, Copy, Debug, Default)]
pub struct RatatuiCommitDraftAuthor;

impl RatatuiCommitDraftAuthor {
    /// The checks made before a terminal is touched: an empty catalog is
    /// refused, and a preselected commit type must be one of the catalog's
    /// (matched by identity); the result is its position.
    pub fn preselection(&self, definitions: &Vec<CommitSchema>, preselected: Option<&CommitSchema>) -> (r:
        Result<Option<usize>, RatatuiCommitDraftAuthorError>)
        ensures
            definitions@.len() == 0 ==> r matches Err(RatatuiCommitDraftAuthorError::EmptyCatalog),
            definitions@.len() > 0 ==> match preselected {
                None => r == Ok::<Option<usize>, RatatuiCommitDraftAuthorError>(None),
                Some(d) => match first_with_id(definitions@, d.id@) {
                    Some(i) => r == Ok::<Option<usize>, RatatuiCommitDraftAuthorError>(Some(i as usize)),
                    None => r matches Err(RatatuiCommitDraftAuthorError::UnknownPreselection),
                },
            },
    {
        if definitions.len() == 0 {
            return Err(RatatuiCommitDraftAuthorError::EmptyCatalog);
        }
        match preselected {
            None => Ok(None),
            Some(d) => match position_of_id(definitions, d.id.as_str()) {
                Some(i) => Ok(Some(i)),
                None => Err(RatatuiCommitDraftAuthorError::UnknownPreselection),
            },
        }
    }
}

/// A composer's document fits the machine's index range.
pub open spec fn schema_fits(d: CommitSchema) -> bool {
    3 * d.properties@.len() + 14 <= usize::MAX
}

/// A catalog that a session can show: not empty, every type fitting.
pub open spec fn catalog_fits(types: Seq<CommitSchema>) -> bool {
    &&& types.len() > 0
    &&& forall|i: int| 0 <= i < types.len() ==> schema_fits(#[trigger] types[i])
}

/// Whether the author changed the document or decided a conditional property.
pub open spec fn composer_dirty(c: ComposerState) -> bool {
    c.lines() != lines_view(c.pristine@) || exists|i: int|
        0 <= i < c.applicability@.len() && c.applicability@[i] is Some
}

/// A composer just made for commit type `d`.
pub open spec fn fresh_composer(c: ComposerState, d: CommitSchema) -> bool {
    &&& c.lines() == scaffold_spec(keys_of(d@))
    &&& lines_view(c.pristine@) == scaffold_spec(keys_of(d@))
    &&& c.cursor() == (SCOPE_VALUE_LINE as nat, 0nat)
    &&& c.issues@.len() == 0
    &&& c.warnings@.len() == 0
    &&& c.applicability@.len() == d@.len()
    &&& forall|i: int| 0 <= i < c.applicability@.len() ==> c.applicability@[i] is None
}

/// The stage a declined discard returns to.
pub open spec fn resume_target(r: ResumeStage) -> Stage {
    match r {
        ResumeStage::Compose => Stage::Compose,
        ResumeStage::Review => Stage::Review,
    }
}

/// The step that reports an optional outcome.
pub open spec fn as_step<P>(out: Option<Outcome<P>>) -> Step<P> {
    match out {
        Some(o) => Step::Finished(o),
        None => Step::Continue,
    }
}

/// The commit types in use: the current template's, or those given.
pub open spec fn definitions_of(
    conventional: Seq<CommitSchema>,
    templates: Seq<TemplateCatalog>,
    template: Option<usize>,
) -> Seq<CommitSchema> {
    match template {
        Some(t) => templates[t as int].types@,
        None => conventional,
    }
}

fn definition_of<'a>(
    conventional: &'a Vec<CommitSchema>,
    templates: &'a Vec<TemplateCatalog>,
    template: Option<usize>,
    selected: usize,
) -> (d: &'a CommitSchema)
    requires
        template matches Some(t) ==> t < templates@.len(),
        selected < definitions_of(conventional@, templates@, template).len(),
    ensures
        *d == definitions_of(conventional@, templates@, template)[selected as int],
{
    match template {
        Some(t) => &templates[t].types[selected],
        None => &conventional[selected],
    }
}

/// The first catalog tab drawn over cell (`column`, `row`), from tab `k` on.
pub open spec fn tab_at(tabs: Seq<CatalogTab>, column: u16, row: u16, k: int) -> Option<TypeCatalogKind>
    decreases tabs.len() - k,
{
    if k < 0 || k >= tabs.len() {
        None
    } else if contains_spec(tabs[k].area, column, row) {
        Some(tabs[k].kind)
    } else {
        tab_at(tabs, column, row, k + 1)
    }
}

/// The commit-authoring session.
pub struct AuthoringSession<P> {
    /// The commit types given to the session (unused with a context).
    pub conventional: Vec<CommitSchema>,
    /// The templates of the authoring context (none without one).
    pub templates: Vec<TemplateCatalog>,
    /// The template whose commit types are in use.
    pub template: Option<usize>,
    pub selected_type: usize,
    pub type_catalog: TypeCatalogKind,
    /// Whether the commit type was fixed before the session began.
    pub preselected: bool,
    pub stage: Stage,
    pub composer: ComposerState,
    pub review: Option<ReviewState<P>>,
    pub confirmation: ConfirmationAction,
    pub confirmation_buttons: Option<ConfirmationButtons>,
    pub catalog_tabs: Vec<CatalogTab>,
    pub confirmation_resume: ResumeStage,
    /// Whether the terminal is too small to draw the current stage.
    pub too_small: bool,
}

impl<P> AuthoringSession<P> {
    /// The commit types in use.
    pub open spec fn definitions(&self) -> Seq<CommitSchema> {
        definitions_of(self.conventional@, self.templates@, self.template)
    }

    /// The selected commit type.
    pub open spec fn current_type(&self) -> CommitSchema {
        self.definitions()[self.selected_type as int]
    }

    /// The session's invariant: a template in use exists exactly when the
    /// session has a context; every catalog can be shown; the selection is
    /// in range; while choosing a type the composer holds no work; past that
    /// stage the composer belongs to the selected type and, for well-formed
    /// property keys, every heading of its document is intact.
    pub open spec fn wf(&self) -> bool {
        &&& (self.template is Some) == (self.templates@.len() > 0)
        &&& self.template matches Some(t) ==> t < self.templates@.len()
        &&& forall|t: int| 0 <= t < self.templates@.len() ==> catalog_fits(#[trigger] self.templates@[t].types@)
        &&& self.template is None ==> catalog_fits(self.conventional@)
        &&& self.selected_type < self.definitions().len()
        &&& self.stage == Stage::SelectType ==> !composer_dirty(self.composer)
        &&& self.stage != Stage::SelectType ==> self.composer.applicability@.len() == self.current_type()@.len()
        &&& self.stage != Stage::SelectType && keys_well_formed(keys_of(self.current_type()@)) ==> intact_spec(
            self.composer.lines(),
            keys_of(self.current_type()@),
        )
    }

    /// Back to choosing a type, with a fresh composer.
    pub open spec fn restarted(self, next: Self) -> bool {
        &&& next == (AuthoringSession {
            composer: next.composer,
            review: None,
            stage: Stage::SelectType,
            ..self
        })
        &&& fresh_composer(next.composer, self.current_type())
    }

    /// What a discard request ends in, when it ends authoring.
    pub open spec fn request_outcome(self, action: ConfirmationAction) -> Option<Outcome<P>> {
        if !composer_dirty(self.composer) && action == ConfirmationAction::Cancel {
            Some(Outcome::Cancelled)
        } else {
            None
        }
    }

    /// A discard request: with no work to lose it is carried out at once,
    /// otherwise the session asks for confirmation.
    pub open spec fn confirmation_requested(
        self,
        next: Self,
        action: ConfirmationAction,
        resume: ResumeStage,
    ) -> bool {
        if !composer_dirty(self.composer) {
            match action {
                ConfirmationAction::Cancel => next == self,
                ConfirmationAction::ChangeType => self.restarted(next),
            }
        } else {
            next == (AuthoringSession {
                confirmation: action,
                confirmation_resume: resume,
                confirmation_buttons: None,
                stage: Stage::Confirm,
                ..self
            })
        }
    }

    /// What a confirmed discard ends in, when it ends authoring.
    pub open spec fn discard_outcome(self) -> Option<Outcome<P>> {
        match self.confirmation {
            ConfirmationAction::Cancel => Some(Outcome::Cancelled),
            ConfirmationAction::ChangeType => None,
        }
    }

    /// A confirmed discard.
    pub open spec fn discarded(self, next: Self) -> bool {
        let base = AuthoringSession { confirmation_buttons: None, ..self };
        match self.confirmation {
            ConfirmationAction::Cancel => next == base,
            ConfirmationAction::ChangeType => base.restarted(next),
        }
    }

    /// A declined discard: back to the stage it interrupted.
    pub open spec fn resumed(self, next: Self) -> bool {
        next == (AuthoringSession {
            confirmation_buttons: None,
            stage: resume_target(self.confirmation_resume),
            ..self
        })
    }

    /// Choosing a catalog: ignored when the type was preselected or the
    /// catalog is already shown; a template switches to its commit types.
    pub open spec fn catalog_selected(self, next: Self, kind: TypeCatalogKind) -> bool {
        if self.preselected || self.type_catalog == kind {
            next == self
        } else {
            match kind {
                TypeCatalogKind::Template(i) => if i < self.templates@.len() {
                    &&& next == (AuthoringSession {
                        template: Some(i),
                        selected_type: 0,
                        composer: next.composer,
                        review: None,
                        type_catalog: kind,
                        ..self
                    })
                    &&& fresh_composer(next.composer, self.templates@[i as int].types@[0])
                } else {
                    next == self
                },
                TypeCatalogKind::Conventional => next == (AuthoringSession { type_catalog: kind, ..self }),
            }
        }
    }

    /// The catalog after the one shown, in the order of the available
    /// catalogs (the context's templates, or the given types alone).
    pub open spec fn next_catalog(self) -> TypeCatalogKind {
        let n = self.templates@.len();
        if n == 0 {
            TypeCatalogKind::Conventional
        } else {
            let current: int = match self.type_catalog {
                TypeCatalogKind::Template(i) => if i < n {
                    i as int
                } else {
                    0
                },
                TypeCatalogKind::Conventional => 0,
            };
            TypeCatalogKind::Template(((current + 1) % (n as int)) as usize)
        }
    }

    /// A key press while choosing the commit type: Up and Down move the
    /// selection round the list, Tab shows the next catalog, Enter starts
    /// composing, Esc, q and Ctrl+C leave.
    pub open spec fn picker_key_result(self, next: Self, key: KeyPress, step: Step<P>) -> bool {
        let n = self.definitions().len();
        if key.code == KeyCode::Up {
            &&& step is Continue
            &&& next == (AuthoringSession {
                selected_type: if self.selected_type == 0 {
                    (n - 1) as usize
                } else {
                    (self.selected_type - 1) as usize
                },
                ..self
            })
        } else if key.code == KeyCode::Down {
            &&& step is Continue
            &&& next == (AuthoringSession {
                selected_type: ((self.selected_type + 1) % (n as int)) as usize,
                ..self
            })
        } else if key.code == KeyCode::Tab {
            step is Continue && self.catalog_selected(next, self.next_catalog())
        } else if key.code == KeyCode::Enter {
            &&& step is Continue
            &&& next == (AuthoringSession { composer: next.composer, stage: Stage::Compose, ..self })
            &&& fresh_composer(next.composer, self.current_type())
        } else if key.code == KeyCode::Esc || key.code == KeyCode::Char('q') || (key.ctrl
            && key.code == KeyCode::Char('c')) {
            step == Step::<P>::Finished(Outcome::Cancelled) && next == self
        } else {
            step is Continue && next == self
        }
    }

    /// A key press on the discard dialog: y discards, n, Esc and Enter go
    /// back.
    pub open spec fn confirmation_key_result(self, next: Self, key: KeyPress, step: Step<P>) -> bool {
        if key.code == KeyCode::Char('y') {
            step == as_step(self.discard_outcome()) && self.discarded(next)
        } else if key.code == KeyCode::Char('n') || key.code == KeyCode::Esc || key.code == KeyCode::Enter {
            step is Continue && self.resumed(next)
        } else {
            step is Continue && next == self
        }
    }
}

/// The review after scrolling by a key: Up and Down move one row, Page Up
/// and Page Down ten, when the message overflows its pane.
pub open spec fn scrolled<P>(review: Option<ReviewState<P>>, code: KeyCode) -> Option<ReviewState<P>> {
    match review {
        Some(r) => if r.scrollable {
            let scroll = if code == KeyCode::Up {
                sat_sub(r.scroll, 1)
            } else if code == KeyCode::Down {
                sat_add(r.scroll, 1)
            } else if code == KeyCode::PageUp {
                sat_sub(r.scroll, 10)
            } else {
                sat_add(r.scroll, 10)
            };
            Some(ReviewState { scroll, ..r })
        } else {
            Some(r)
        },
        None => None,
    }
}

impl<P> AuthoringSession<P> {
    /// A key press while reviewing: Enter approves the message, Esc goes
    /// back to composing, q and Ctrl+C ask to leave, the arrows and page keys
    /// scroll.
    pub open spec fn review_key_result(self, next: Self, key: KeyPress, step: Step<P>) -> bool {
        if key.code == KeyCode::Enter {
            match self.review {
                Some(r) => step == Step::Finished(Outcome::Authored(r.payload)) && next == (
                AuthoringSession { review: None, ..self }),
                None => step is Continue && next == self,
            }
        } else if key.code == KeyCode::Esc {
            step is Continue && next == (AuthoringSession { review: None, stage: Stage::Compose, ..self })
        } else if key.code == KeyCode::Char('q') {
            &&& step == as_step(self.request_outcome(ConfirmationAction::Cancel))
            &&& self.confirmation_requested(next, ConfirmationAction::Cancel, ResumeStage::Review)
        } else if key.code == KeyCode::Up || key.code == KeyCode::Down || key.code == KeyCode::PageUp
            || key.code == KeyCode::PageDown {
            step is Continue && next == (AuthoringSession { review: scrolled(self.review, key.code), ..self })
        } else if key.ctrl && key.code == KeyCode::Char('c') {
            &&& step == as_step(self.request_outcome(ConfirmationAction::Cancel))
            &&& self.confirmation_requested(next, ConfirmationAction::Cancel, ResumeStage::Review)
        } else {
            step is Continue && next == self
        }
    }
}

proof fn lemma_fresh_is_clean(c: ComposerState, d: CommitSchema)
    requires
        fresh_composer(c, d),
    ensures
        !composer_dirty(c),
{
}

impl<P> AuthoringSession<P> {
    /// A session over the given commit types; with a preselected type it
    /// starts composing, otherwise it starts at the picker.
    pub fn new(definitions: Vec<CommitSchema>, preselected: Option<usize>) -> (s: Self)
        requires
            catalog_fits(definitions@),
            preselected matches Some(i) ==> i < definitions@.len(),
        ensures
            s.wf(),
            s.conventional@ == definitions@,
            s.templates@.len() == 0,
            s.template is None,
            s.selected_type == (match preselected {
                Some(i) => i,
                None => 0,
            }),
            s.type_catalog == TypeCatalogKind::Conventional,
            s.preselected == preselected is Some,
            s.stage == (if preselected is Some {
                Stage::Compose
            } else {
                Stage::SelectType
            }),
            fresh_composer(s.composer, s.current_type()),
            s.review is None,
            s.confirmation == ConfirmationAction::Cancel,
            s.confirmation_buttons is None,
            s.catalog_tabs@.len() == 0,
            s.confirmation_resume == ResumeStage::Compose,
            !s.too_small,
    {
        let selected_type = match preselected {
            Some(i) => i,
            None => 0,
        };
        let composer = ComposerState::new(&definitions[selected_type]);
        let stage = if preselected.is_some() {
            Stage::Compose
        } else {
            Stage::SelectType
        };
        let s = AuthoringSession {
            conventional: definitions,
            templates: Vec::new(),
            template: None,
            selected_type,
            type_catalog: TypeCatalogKind::Conventional,
            preselected: preselected.is_some(),
            stage,
            composer,
            review: None,
            confirmation: ConfirmationAction::Cancel,
            confirmation_buttons: None,
            catalog_tabs: Vec::new(),
            confirmation_resume: ResumeStage::Compose,
            too_small: false,
        };
        proof {
            lemma_fresh_is_clean(s.composer, s.current_type());
        }
        s
    }

    /// A session over an authoring context: the commit types of the template
    /// with identity `initial_id`, and the type with identity `preselected_id`
    /// among them preselected when there is one.
    pub fn with_context(templates: Vec<TemplateCatalog>, initial_id: &str, preselected_id: Option<&str>) -> (s:
        Self)
        requires
            forall|t: int| 0 <= t < templates@.len() ==> catalog_fits(#[trigger] templates@[t].types@),
            exists|t: int| 0 <= t < templates@.len() && templates@[t].id@ == initial_id@,
        ensures
            s.wf(),
            s.templates@ == templates@,
            s.template matches Some(t) && templates@[t as int].id@ == initial_id@ && forall|j: int|
                0 <= j < t ==> templates@[j].id@ != initial_id@,
            s.type_catalog == TypeCatalogKind::Template(s.template->Some_0),
            match preselected_id {
                Some(id) => match first_with_id(s.definitions(), id@) {
                    Some(i) => s.selected_type == i && s.preselected && s.stage == Stage::Compose,
                    None => s.selected_type == 0 && !s.preselected && s.stage == Stage::SelectType,
                },
                None => s.selected_type == 0 && !s.preselected && s.stage == Stage::SelectType,
            },
            fresh_composer(s.composer, s.current_type()),
            s.review is None,
            s.confirmation == ConfirmationAction::Cancel,
            s.confirmation_buttons is None,
            s.catalog_tabs@.len() == 0,
            s.confirmation_resume == ResumeStage::Compose,
            !s.too_small,
    {
        let wanted = chars_of(initial_id);
        let mut t: usize = 0;
        loop
            invariant
                t < templates.len(),
                wanted@ == initial_id@,
                forall|j: int| 0 <= j < t ==> templates@[j].id@ != initial_id@,
                exists|k: int| t <= k < templates@.len() && templates@[k].id@ == initial_id@,
            ensures
                t < templates.len(),
                templates@[t as int].id@ == initial_id@,
                forall|j: int| 0 <= j < t ==> templates@[j].id@ != initial_id@,
            decreases templates.len() - t,
        {
            let candidate = chars_of(templates[t].id.as_str());
            if chars_eq(candidate.as_slice(), wanted.as_slice()) {
                break;
            }
            t = t + 1;
        }
        assert(t < templates.len() && templates@[t as int].id@ == initial_id@);
        let found = match preselected_id {
            Some(id) => position_of_id(&templates[t].types, id),
            None => None,
        };
        let selected_type = match found {
            Some(i) => i,
            None => 0,
        };
        assert(catalog_fits(templates@[t as int].types@));
        let composer = ComposerState::new(&templates[t].types[selected_type]);
        let s = AuthoringSession {
            conventional: Vec::new(),
            templates,
            template: Some(t),
            selected_type,
            type_catalog: TypeCatalogKind::Template(t),
            preselected: found.is_some(),
            stage: if found.is_some() {
                Stage::Compose
            } else {
                Stage::SelectType
            },
            composer,
            review: None,
            confirmation: ConfirmationAction::Cancel,
            confirmation_buttons: None,
            catalog_tabs: Vec::new(),
            confirmation_resume: ResumeStage::Compose,
            too_small: false,
        };
        proof {
            lemma_fresh_is_clean(s.composer, s.current_type());
        }
        s
    }

    /// The number of commit types in use.
    pub fn definitions_len(&self) -> (n: usize)
        requires
            self.wf(),
        ensures
            n == self.definitions().len(),
    {
        match self.template {
            Some(t) => self.templates[t].types.len(),
            None => self.conventional.len(),
        }
    }

    /// The selected commit type.
    pub fn definition(&self) -> (d: &CommitSchema)
        requires
            self.wf(),
        ensures
            *d == self.current_type(),
    {
        definition_of(&self.conventional, &self.templates, self.template, self.selected_type)
    }

    /// The catalogs the picker can show: the context's templates, or the
    /// given commit types alone.
    pub fn available_type_catalogs(&self) -> (v: Vec<TypeCatalogKind>)
        ensures
            self.templates@.len() == 0 ==> v@ == seq![TypeCatalogKind::Conventional],
            self.templates@.len() > 0 ==> v@ == Seq::new(
                self.templates@.len(),
                |i: int| TypeCatalogKind::Template(i as usize),
            ),
    {
        let mut v: Vec<TypeCatalogKind> = Vec::new();
        if self.templates.len() == 0 {
            v.push(TypeCatalogKind::Conventional);
            return v;
        }
        let mut i: usize = 0;
        while i < self.templates.len()
            invariant
                i <= self.templates@.len(),
                v@ == Seq::new(i as nat, |k: int| TypeCatalogKind::Template(k as usize)),
            decreases self.templates.len() - i,
        {
            v.push(TypeCatalogKind::Template(i));
            i = i + 1;
        }
        v
    }

    /// The label of a catalog's tab: CONVENTIONAL for the given types, a
    /// template's identity for a template, nothing for an unknown template.
    pub fn catalog_label(&self, kind: TypeCatalogKind) -> (s: String)
        ensures
            s@ == (match kind {
                TypeCatalogKind::Conventional => "CONVENTIONAL"@,
                TypeCatalogKind::Template(i) => if i < self.templates@.len() {
                    self.templates@[i as int].id@
                } else {
                    Seq::empty()
                },
            }),
    {
        match kind {
            TypeCatalogKind::Conventional => String::from_str("CONVENTIONAL"),
            TypeCatalogKind::Template(i) => if i < self.templates.len() {
                self.templates[i].id.clone()
            } else {
                String::new()
            },
        }
    }

    /// The stage drawn behind the discard dialog, or the stage itself.
    pub fn visible_stage(&self) -> (st: Stage)
        ensures
            st == (if self.stage != Stage::Confirm {
                self.stage
            } else {
                resume_target(self.confirmation_resume)
            }),
    {
        if self.stage != Stage::Confirm {
            return self.stage;
        }
        match self.confirmation_resume {
            ResumeStage::Compose => Stage::Compose,
            ResumeStage::Review => Stage::Review,
        }
    }
}

impl<P> AuthoringSession<P> {
    /// Back to choosing a type, with a fresh composer.
    fn restart(&mut self)
        requires
            old(self).wf(),
        ensures
            final(self).wf(),
            old(self).restarted(*final(self)),
    {
        let composer = ComposerState::new(definition_of(&self.conventional, &self.templates, self.template, self.selected_type));
        self.composer = composer;
        self.review = None;
        self.stage = Stage::SelectType;
        proof {
            lemma_fresh_is_clean(self.composer, self.current_type());
        }
    }

    /// Asks to discard the draft: with no work to lose the discard happens at
    /// once, otherwise the confirmation dialog opens.
    pub fn request_confirmation(&mut self, action: ConfirmationAction, resume: ResumeStage) -> (step: Step<P>)
        requires
            old(self).wf(),
        ensures
            final(self).wf(),
            step == as_step(old(self).request_outcome(action)),
            old(self).confirmation_requested(*final(self), action, resume),
    {
        if !self.composer.dirty() {
            match action {
                ConfirmationAction::Cancel => Step::Finished(Outcome::Cancelled),
                ConfirmationAction::ChangeType => {
                    self.restart();
                    Step::Continue
                },
            }
        } else {
            self.confirmation = action;
            self.confirmation_resume = resume;
            self.confirmation_buttons = None;
            self.stage = Stage::Confirm;
            Step::Continue
        }
    }

    /// Carries out the confirmed discard.
    pub fn confirm_discard(&mut self) -> (step: Step<P>)
        requires
            old(self).wf(),
        ensures
            final(self).wf(),
            step == as_step(old(self).discard_outcome()),
            old(self).discarded(*final(self)),
    {
        self.confirmation_buttons = None;
        match self.confirmation {
            ConfirmationAction::Cancel => Step::Finished(Outcome::Cancelled),
            ConfirmationAction::ChangeType => {
                self.restart();
                Step::Continue
            },
        }
    }

    /// Declines the discard, back to the stage it interrupted.
    pub fn resume_after_confirmation(&mut self)
        requires
            old(self).wf(),
            old(self).stage == Stage::Confirm,
        ensures
            final(self).wf(),
            old(self).resumed(*final(self)),
    {
        self.confirmation_buttons = None;
        self.stage = match self.confirmation_resume {
            ResumeStage::Compose => Stage::Compose,
            ResumeStage::Review => Stage::Review,
        };
    }

    /// Shows another catalog in the picker.
    pub fn select_type_catalog(&mut self, kind: TypeCatalogKind)
        requires
            old(self).wf(),
            old(self).stage == Stage::SelectType,
        ensures
            final(self).wf(),
            old(self).catalog_selected(*final(self), kind),
    {
        if self.preselected || self.type_catalog == kind {
            return ;
        }
        match kind {
            TypeCatalogKind::Template(index) => {
                if index >= self.templates.len() {
                    return ;
                }
                assert(catalog_fits(self.templates@[index as int].types@));
                let composer = ComposerState::new(&self.templates[index].types[0]);
                self.template = Some(index);
                self.selected_type = 0;
                self.composer = composer;
                self.review = None;
                proof {
                    lemma_fresh_is_clean(self.composer, self.current_type());
                }
            },
            TypeCatalogKind::Conventional => {},
        }
        self.type_catalog = kind;
    }

    /// Shows the next catalog in the picker.
    pub fn cycle_type_catalog(&mut self)
        requires
            old(self).wf(),
            old(self).stage == Stage::SelectType,
        ensures
            final(self).wf(),
            old(self).catalog_selected(*final(self), old(self).next_catalog()),
    {
        let catalogs = self.available_type_catalogs();
        let mut current: usize = 0;
        let mut found = false;
        let mut k: usize = 0;
        while k < catalogs.len()
            invariant
                k <= catalogs@.len(),
                catalogs@.len() > 0,
                self.templates@.len() == 0 ==> catalogs@ == seq![TypeCatalogKind::Conventional],
                self.templates@.len() > 0 ==> catalogs@ == Seq::new(
                    self.templates@.len(),
                    |i: int| TypeCatalogKind::Template(i as usize),
                ),
                !found ==> current == 0 && forall|j: int| 0 <= j < k ==> catalogs@[j] != self.type_catalog,
                found ==> current < catalogs@.len() && catalogs@[current as int] == self.type_catalog,
            decreases catalogs.len() - k,
        {
            if !found && catalogs[k] == self.type_catalog {
                current = k;
                found = true;
            }
            k = k + 1;
        }
        proof {
            if self.templates@.len() > 0 {
                match self.type_catalog {
                    TypeCatalogKind::Template(i) => {
                        if i < self.templates@.len() {
                            assert(catalogs@[i as int] == self.type_catalog);
                        }
                    },
                    TypeCatalogKind::Conventional => {},
                }
            }
        }
        let next = catalogs[(current + 1) % catalogs.len()];
        self.select_type_catalog(next);
    }
}

impl<P> AuthoringSession<P> {
    /// A key press while choosing the commit type.
    pub fn handle_picker_key(&mut self, key: KeyPress) -> (step: Step<P>)
        requires
            old(self).wf(),
            old(self).stage == Stage::SelectType,
        ensures
            final(self).wf(),
            old(self).picker_key_result(*final(self), key, step),
    {
        let n = self.definitions_len();
        match key.code {
            KeyCode::Up => {
                self.selected_type = if self.selected_type == 0 {
                    n - 1
                } else {
                    self.selected_type - 1
                };
                Step::Continue
            },
            KeyCode::Down => {
                self.selected_type = (self.selected_type + 1) % n;
                Step::Continue
            },
            KeyCode::Tab => {
                self.cycle_type_catalog();
                Step::Continue
            },
            KeyCode::Enter => {
                let composer = ComposerState::new(
                    definition_of(&self.conventional, &self.templates, self.template, self.selected_type),
                );
                self.composer = composer;
                self.stage = Stage::Compose;
                Step::Continue
            },
            KeyCode::Esc => Step::Finished(Outcome::Cancelled),
            KeyCode::Char('q') => Step::Finished(Outcome::Cancelled),
            _ => if key.is_control('c') {
                Step::Finished(Outcome::Cancelled)
            } else {
                Step::Continue
            },
        }
    }

    /// A key press on the discard dialog.
    pub fn handle_confirmation_key(&mut self, key: KeyPress) -> (step: Step<P>)
        requires
            old(self).wf(),
            old(self).stage == Stage::Confirm,
        ensures
            final(self).wf(),
            old(self).confirmation_key_result(*final(self), key, step),
    {
        match key.code {
            KeyCode::Char('y') => self.confirm_discard(),
            KeyCode::Char('n') | KeyCode::Esc | KeyCode::Enter => {
                self.resume_after_confirmation();
                Step::Continue
            },
            _ => Step::Continue,
        }
    }

    /// A key press while reviewing the message.
    pub fn handle_review_key(&mut self, key: KeyPress) -> (step: Step<P>)
        requires
            old(self).wf(),
            old(self).stage == Stage::Review,
        ensures
            final(self).wf(),
            old(self).review_key_result(*final(self), key, step),
    {
        match key.code {
            KeyCode::Enter => match self.review.take() {
                Some(review) => Step::Finished(Outcome::Authored(review.payload)),
                None => Step::Continue,
            },
            KeyCode::Esc => {
                self.review = None;
                self.stage = Stage::Compose;
                Step::Continue
            },
            KeyCode::Char('q') => self.request_confirmation(ConfirmationAction::Cancel, ResumeStage::Review),
            KeyCode::Up | KeyCode::Down | KeyCode::PageUp | KeyCode::PageDown => {
                let taken = self.review.take();
                self.review = match taken {
                    Some(review) => if review.scrollable {
                        let scroll = match key.code {
                            KeyCode::Up => saturating_sub(review.scroll, 1),
                            KeyCode::Down => saturating_add(review.scroll, 1),
                            KeyCode::PageUp => saturating_sub(review.scroll, 10),
                            _ => saturating_add(review.scroll, 10),
                        };
                        Some(ReviewState { scroll, ..review })
                    } else {
                        Some(review)
                    },
                    None => None,
                };
                Step::Continue
            },
            _ => if key.is_control('c') {
                self.request_confirmation(ConfirmationAction::Cancel, ResumeStage::Review)
            } else {
                Step::Continue
            },
        }
    }
}

/// The composer keeps the untouched scaffold, the decisions and the warnings.
pub open spec fn keeps_decisions(c: ComposerState, next: ComposerState) -> bool {
    &&& next.pristine@ == c.pristine@
    &&& next.applicability@ == c.applicability@
    &&& next.warnings@ == c.warnings@
}

/// The reports after an edit: cleared when it took effect, kept otherwise.
pub open spec fn reports_after(c: ComposerState, next: ComposerState, cleared: bool) -> bool {
    if cleared {
        next.issues@.len() == 0
    } else {
        next.issues@ == c.issues@
    }
}

/// What an editing key does to the composer: Enter on a value that
/// advances moves to the next field; Left and Right move within the field;
/// Up and Down (without Shift) move off headings and reserved lines;
/// Backspace and Delete edit within the field; any other key goes to the
/// editor, and is undone when it would break a heading.
pub open spec fn composer_input_result(
    c: ComposerState,
    next: ComposerState,
    props: Seq<PropertyView>,
    key: KeyPress,
) -> bool {
    let keys = keys_of(props);
    &&& keeps_decisions(c, next)
    &&& if key.code == KeyCode::Enter && advance_spec(c.lines(), props, c.cursor()).0 {
        let a = advance_spec(c.lines(), props, c.cursor());
        next.lines() == c.lines() && next.cursor() == a.1 && reports_after(c, next, a.2)
    } else if key.code == KeyCode::Left || key.code == KeyCode::Right {
        let h = horizontal_result(c, props, key);
        next.lines() == h.0 && next.cursor() == h.1 && reports_after(c, next, h.2)
    } else if !key.shift && (key.code == KeyCode::Up || key.code == KeyCode::Down) {
        let motion = if key.code == KeyCode::Up {
            CursorMotion::Up
        } else {
            CursorMotion::Down
        };
        &&& next.lines() == c.lines()
        &&& next.cursor() == settled_cursor(c.lines(), keys, c.cursor(), after_move(c.editor, motion))
        &&& next.issues@.len() == 0
    } else if key.code == KeyCode::Backspace || key.code == KeyCode::Delete {
        let d = delete_result(c, props, key);
        next.lines() == d.0 && next.cursor() == d.1 && reports_after(c, next, d.2)
    } else {
        let e = after_input(c.editor, key);
        if intact_spec(e.0, keys) {
            &&& next.lines() == e.0
            &&& next.cursor() == settled_cursor(e.0, keys, c.cursor(), e.1)
            &&& next.issues@.len() == 0
        } else {
            next.lines() == c.lines() && next.cursor() == c.cursor() && next.issues@ == c.issues@
        }
    }
}

/// Whether the cursor is on the scope or description value, which take a
/// single line.
pub open spec fn on_single_line_field(c: ComposerState, props: Seq<PropertyView>) -> bool {
    match field_at_spec(c.lines(), props, c.cursor().0) {
        Some(FieldKind::Scope) => true,
        Some(FieldKind::Description) => true,
        _ => false,
    }
}

/// Whether text holds a line break.
pub fn has_line_break(text: &str) -> (r: bool)
    ensures
        r == (text@.contains('\n') || text@.contains('\r')),
{
    let chars = chars_of(text);
    let mut i: usize = 0;
    while i < chars.len()
        invariant
            i <= chars@.len(),
            chars@ == text@,
            forall|j: int| 0 <= j < i ==> chars@[j] != '\n' && chars@[j] != '\r',
        decreases chars.len() - i,
    {
        if chars[i] == '\n' || chars[i] == '\r' {
            assert(text@[i as int] == chars@[i as int]);
            return true;
        }
        i = i + 1;
    }
    false
}

/// The first tab drawn over a cell.
pub fn find_tab(tabs: &Vec<CatalogTab>, column: u16, row: u16) -> (r: Option<TypeCatalogKind>)
    ensures
        r == tab_at(tabs@, column, row, 0),
{
    let mut i: usize = 0;
    while i < tabs.len()
        invariant
            i <= tabs@.len(),
            tab_at(tabs@, column, row, 0) == tab_at(tabs@, column, row, i as int),
        decreases tabs.len() - i,
    {
        if contains(tabs[i].area, column, row) {
            return Some(tabs[i].kind);
        }
        i = i + 1;
    }
    None
}

impl<P> AuthoringSession<P> {
    /// A key press while composing: Alt+A and Alt+N decide a conditional
    /// property under the cursor, Ctrl+S asks for the draft to be checked,
    /// Ctrl+C asks to leave, Esc asks to leave or to change the type, and any
    /// other key edits the document.
    pub open spec fn composer_key_result(self, next: Self, key: KeyPress, step: Step<P>) -> bool {
        let props = self.current_type()@;
        let c = self.composer;
        if key.alt && (key.code == KeyCode::Char('a') || key.code == KeyCode::Char('n')) && decision_target(
            c.lines(),
            props,
            c.cursor().0,
        ) is Some {
            let d = decision_target(c.lines(), props, c.cursor().0)->Some_0;
            &&& step is Continue
            &&& next == (AuthoringSession { composer: next.composer, ..self })
            &&& next.composer.applicability@ == c.applicability@.update(
                d as int,
                Some(
                    if key.code == KeyCode::Char('a') {
                        Applicability::Applies
                    } else {
                        Applicability::DoesNotApply
                    },
                ),
            )
            &&& next.composer.issues@.len() == 0
            &&& next.composer.lines() == c.lines()
            &&& next.composer.cursor() == c.cursor()
            &&& next.composer.pristine@ == c.pristine@
            &&& next.composer.warnings@ == c.warnings@
        } else if key.ctrl && key.code == KeyCode::Char('s') {
            step is CheckDraft && next == self
        } else if key.ctrl && key.code == KeyCode::Char('c') {
            &&& step == as_step(self.request_outcome(ConfirmationAction::Cancel))
            &&& self.confirmation_requested(next, ConfirmationAction::Cancel, ResumeStage::Compose)
        } else if key.code == KeyCode::Esc {
            let action = if self.preselected {
                ConfirmationAction::Cancel
            } else {
                ConfirmationAction::ChangeType
            };
            &&& step == as_step(self.request_outcome(action))
            &&& self.confirmation_requested(next, action, ResumeStage::Compose)
        } else {
            &&& step is Continue
            &&& next == (AuthoringSession { composer: next.composer, ..self })
            &&& composer_input_result(c, next.composer, props, key)
        }
    }

    /// Pasted text while composing: refused when it holds a line break and the
    /// cursor is on the scope or description value; otherwise inserted, and
    /// undone when it would break a heading.
    pub open spec fn paste_result(self, next: Self, text: Seq<char>, step: Step<P>) -> bool {
        let props = self.current_type()@;
        let keys = keys_of(props);
        let c = self.composer;
        &&& step is Continue
        &&& if (text.contains('\n') || text.contains('\r')) && on_single_line_field(c, props) {
            next == self
        } else {
            let e = after_insert(c.editor, text);
            &&& next == (AuthoringSession { composer: next.composer, ..self })
            &&& keeps_decisions(c, next.composer)
            &&& if intact_spec(e.0, keys) {
                &&& next.composer.lines() == e.0
                &&& next.composer.cursor() == settled_cursor(e.0, keys, c.cursor(), e.1)
                &&& next.composer.issues@.len() == 0
            } else {
                &&& next.composer.lines() == c.lines()
                &&& next.composer.cursor() == c.cursor()
                &&& next.composer.issues@ == c.issues@
            }
        }
    }

    /// A left click: on the discard dialog's buttons it discards or goes
    /// back; on a catalog tab of the picker it shows that catalog.
    pub open spec fn click_result(self, next: Self, column: u16, row: u16, step: Step<P>) -> bool {
        if self.stage == Stage::Confirm {
            match self.confirmation_buttons {
                None => step is Continue && next == self,
                Some(b) => if contains_spec(b.discard, column, row) {
                    step == as_step(self.discard_outcome()) && self.discarded(next)
                } else if contains_spec(b.keep_editing, column, row) {
                    step is Continue && self.resumed(next)
                } else {
                    step is Continue && next == self
                },
            }
        } else if self.stage == Stage::SelectType {
            &&& step is Continue
            &&& match tab_at(self.catalog_tabs@, column, row, 0) {
                Some(kind) => self.catalog_selected(next, kind),
                None => next == self,
            }
        } else {
            step is Continue && next == self
        }
    }

    /// An event while the terminal is too small: only the discard dialog,
    /// leaving (Esc, q, Ctrl+C) and clicks are handled.
    pub open spec fn too_small_result(self, next: Self, event: TerminalEvent, step: Step<P>) -> bool {
        match event {
            TerminalEvent::Key(key) => if self.stage == Stage::Confirm {
                self.confirmation_key_result(next, key, step)
            } else if key.code == KeyCode::Esc || key.code == KeyCode::Char('q') || (key.ctrl && key.code
                == KeyCode::Char('c')) {
                &&& step == as_step(self.request_outcome(ConfirmationAction::Cancel))
                &&& self.confirmation_requested(next, ConfirmationAction::Cancel, ResumeStage::Compose)
            } else {
                step is Continue && next == self
            },
            TerminalEvent::Click { column, row } => self.click_result(next, column, row, step),
            _ => step is Continue && next == self,
        }
    }

    /// What an event does to the session, and what the caller does next.
    pub open spec fn event_result(self, next: Self, event: TerminalEvent, step: Step<P>) -> bool {
        if self.too_small {
            self.too_small_result(next, event, step)
        } else {
            match event {
                TerminalEvent::Key(key) => match self.stage {
                    Stage::SelectType => self.picker_key_result(next, key, step),
                    Stage::Compose => self.composer_key_result(next, key, step),
                    Stage::Review => self.review_key_result(next, key, step),
                    Stage::Confirm => self.confirmation_key_result(next, key, step),
                },
                TerminalEvent::Click { column, row } => self.click_result(next, column, row, step),
                TerminalEvent::Paste(text) => if self.stage == Stage::Compose {
                    self.paste_result(next, text@, step)
                } else {
                    step is Continue && next == self
                },
                TerminalEvent::Other => step is Continue && next == self,
            }
        }
    }

    /// An editing key while composing.
    fn input_key(&mut self, key: KeyPress)
        requires
            old(self).wf(),
            old(self).stage == Stage::Compose,
        ensures
            final(self).wf(),
            *final(self) == (AuthoringSession { composer: final(self).composer, ..*old(self) }),
            composer_input_result(old(self).composer, final(self).composer, old(self).current_type()@, key),
    {
        let d = definition_of(&self.conventional, &self.templates, self.template, self.selected_type);
        if key.code == KeyCode::Enter && self.composer.advance_on_enter(d) {
            return ;
        }
        if key.code == KeyCode::Left || key.code == KeyCode::Right {
            self.composer.move_horizontally_within_field(d, key);
            return ;
        }
        if !key.shift && key.code == KeyCode::Up {
            self.composer.move_cursor(d, CursorMotion::Up);
            return ;
        }
        if !key.shift && key.code == KeyCode::Down {
            self.composer.move_cursor(d, CursorMotion::Down);
            return ;
        }
        if key.code == KeyCode::Backspace || key.code == KeyCode::Delete {
            self.composer.delete_within_field(d, key);
            return ;
        }
        self.composer.edit_with_key(d, key);
    }

    /// A key press while composing.
    pub fn handle_composer_key(&mut self, key: KeyPress) -> (step: Step<P>)
        requires
            old(self).wf(),
            old(self).stage == Stage::Compose,
        ensures
            final(self).wf(),
            old(self).composer_key_result(*final(self), key, step),
    {
        if key.alt && (key.code == KeyCode::Char('a') || key.code == KeyCode::Char('n')) {
            let d = definition_of(&self.conventional, &self.templates, self.template, self.selected_type);
            if self.composer.decide(d, key.code == KeyCode::Char('a')) {
                return Step::Continue;
            }
        }
        if key.is_control('s') {
            return Step::CheckDraft;
        }
        if key.is_control('c') {
            return self.request_confirmation(ConfirmationAction::Cancel, ResumeStage::Compose);
        }
        if key.code == KeyCode::Esc {
            let action = if self.preselected {
                ConfirmationAction::Cancel
            } else {
                ConfirmationAction::ChangeType
            };
            return self.request_confirmation(action, ResumeStage::Compose);
        }
        self.input_key(key);
        Step::Continue
    }

    /// Pasted text while composing.
    pub fn handle_paste(&mut self, text: &str) -> (step: Step<P>)
        requires
            old(self).wf(),
            old(self).stage == Stage::Compose,
        ensures
            final(self).wf(),
            old(self).paste_result(*final(self), text@, step),
    {
        let d = definition_of(&self.conventional, &self.templates, self.template, self.selected_type);
        if has_line_break(text) {
            match self.composer.current_field(d) {
                Some(FieldKind::Scope) => {
                    return Step::Continue;
                },
                Some(FieldKind::Description) => {
                    return Step::Continue;
                },
                _ => {},
            }
        }
        self.composer.edit_with_paste(d, text);
        Step::Continue
    }

    /// A left click on a cell.
    pub fn handle_click(&mut self, column: u16, row: u16) -> (step: Step<P>)
        requires
            old(self).wf(),
        ensures
            final(self).wf(),
            old(self).click_result(*final(self), column, row, step),
    {
        if self.stage == Stage::Confirm {
            match self.confirmation_buttons {
                None => Step::Continue,
                Some(buttons) => if contains(buttons.discard, column, row) {
                    self.confirm_discard()
                } else if contains(buttons.keep_editing, column, row) {
                    self.resume_after_confirmation();
                    Step::Continue
                } else {
                    Step::Continue
                },
            }
        } else if self.stage == Stage::SelectType {
            match find_tab(&self.catalog_tabs, column, row) {
                Some(kind) => {
                    self.select_type_catalog(kind);
                    Step::Continue
                },
                None => Step::Continue,
            }
        } else {
            Step::Continue
        }
    }

    /// A key press, by stage.
    pub fn handle_key(&mut self, key: KeyPress) -> (step: Step<P>)
        requires
            old(self).wf(),
        ensures
            final(self).wf(),
            old(self).stage == Stage::SelectType ==> old(self).picker_key_result(*final(self), key, step),
            old(self).stage == Stage::Compose ==> old(self).composer_key_result(*final(self), key, step),
            old(self).stage == Stage::Review ==> old(self).review_key_result(*final(self), key, step),
            old(self).stage == Stage::Confirm ==> old(self).confirmation_key_result(*final(self), key, step),
    {
        match self.stage {
            Stage::SelectType => self.handle_picker_key(key),
            Stage::Compose => self.handle_composer_key(key),
            Stage::Review => self.handle_review_key(key),
            Stage::Confirm => self.handle_confirmation_key(key),
        }
    }

    /// An event while the terminal is too small.
    fn handle_too_small(&mut self, event: TerminalEvent) -> (step: Step<P>)
        requires
            old(self).wf(),
        ensures
            final(self).wf(),
            old(self).too_small_result(*final(self), event, step),
    {
        match event {
            TerminalEvent::Key(key) => if self.stage == Stage::Confirm {
                self.handle_confirmation_key(key)
            } else if key.code == KeyCode::Esc || key.code == KeyCode::Char('q') || key.is_control('c') {
                self.request_confirmation(ConfirmationAction::Cancel, ResumeStage::Compose)
            } else {
                Step::Continue
            },
            TerminalEvent::Click { column, row } => self.handle_click(column, row),
            _ => Step::Continue,
        }
    }

    /// Handles one terminal event.
    pub fn handle_event(&mut self, event: TerminalEvent) -> (step: Step<P>)
        requires
            old(self).wf(),
        ensures
            final(self).wf(),
            old(self).event_result(*final(self), event, step),
    {
        if self.too_small {
            return self.handle_too_small(event);
        }
        match event {
            TerminalEvent::Key(key) => self.handle_key(key),
            TerminalEvent::Click { column, row } => self.handle_click(column, row),
            TerminalEvent::Paste(text) => if self.stage == Stage::Compose {
                self.handle_paste(text.as_str())
            } else {
                Step::Continue
            },
            TerminalEvent::Other => Step::Continue,
        }
    }
}

impl<P> AuthoringSession<P> {
    /// The parse of the document being composed.
    pub fn parsed(&self) -> (p: ParsedDocument)
        requires
            self.wf(),
        ensures
            p@ == parse_spec(self.composer.lines(), self.current_type()@),
    {
        let lines = editor_lines(&self.composer.editor);
        parse_document(lines.as_slice(), self.definition())
    }

    /// Hands back the commit rules' verdicts on the draft after Ctrl+S:
    /// `errors[k]` on the value of section `k`, `lists[d]` on the values of
    /// repeatable property `d`. With any report the reports are shown in line
    /// order and the cursor goes to the first; returns whether there is none.
    pub fn submit_verdicts(&mut self, errors: &Vec<Option<String>>, lists: &Vec<Option<String>>) -> (clean: bool)
        requires
            old(self).wf(),
            old(self).stage == Stage::Compose,
        ensures
            final(self).wf(),
            *final(self) == (AuthoringSession { composer: final(self).composer, ..*old(self) }),
            clean == (draft_issues(
                old(self).composer.lines(),
                old(self).current_type()@,
                errors_view(errors@),
                errors_view(lists@),
            ).len() == 0),
            final(self).composer.lines() == old(self).composer.lines(),
            keeps_decisions(old(self).composer, final(self).composer),
            clean ==> final(self).composer.cursor() == old(self).composer.cursor()
                && final(self).composer.issues@ == old(self).composer.issues@,
            !clean ==> issues_view(final(self).composer.issues@) == sort_by_line(
                draft_issues(
                    old(self).composer.lines(),
                    old(self).current_type()@,
                    errors_view(errors@),
                    errors_view(lists@),
                ),
            ),
            !clean && old(self).composer.lines().len() > 0 ==> final(self).composer.cursor() == jump_spec(
                old(self).composer.lines(),
                terminal_coordinate(
                    sort_by_line(
                        draft_issues(
                            old(self).composer.lines(),
                            old(self).current_type()@,
                            errors_view(errors@),
                            errors_view(lists@),
                        ),
                    )[0].line,
                ),
                0,
            ),
    {
        let d = definition_of(&self.conventional, &self.templates, self.template, self.selected_type);
        self.composer.validate(d, errors, lists)
    }
}

impl<P> AuthoringSession<P> {
    /// Shows the commit rules' refusal of the draft as a whole (the draft
    /// could not be assembled) against the field and line of the cursor.
    pub fn report_draft_error(&mut self, message: String)
        requires
            old(self).wf(),
            old(self).stage == Stage::Compose,
        ensures
            final(self).wf(),
            *final(self) == (AuthoringSession { composer: final(self).composer, ..*old(self) }),
            issues_view(final(self).composer.issues@) == seq![
                IssueView {
                    field: field_id_at(old(self).composer.lines(), old(self).current_type()@, old(self).composer.cursor().0),
                    line: old(self).composer.cursor().0,
                    message: message@,
                },
            ],
            final(self).composer.lines() == old(self).composer.lines(),
            final(self).composer.cursor() == old(self).composer.cursor(),
            keeps_decisions(old(self).composer, final(self).composer),
    {
        let d = definition_of(&self.conventional, &self.templates, self.template, self.selected_type);
        self.composer.report_draft_error(d, message);
    }

    /// Shows the refusals met while rendering the message of a checked draft:
    /// each points at the line under the first heading of the field it names
    /// (the cursor's line when it names none), and the cursor goes to the
    /// first.
    pub fn report_render_errors(&mut self, errors: Vec<(Option<FieldId>, String)>)
        requires
            old(self).wf(),
            old(self).stage == Stage::Compose,
        ensures
            final(self).wf(),
            *final(self) == (AuthoringSession { composer: final(self).composer, ..*old(self) }),
            issues_view(final(self).composer.issues@) == render_issues(
                parse_spec(old(self).composer.lines(), old(self).current_type()@).sections,
                old(self).composer.cursor().0,
                errors@,
            ),
            final(self).composer.lines() == old(self).composer.lines(),
            errors@.len() > 0 && old(self).composer.lines().len() > 0 ==> final(self).composer.cursor()
                == jump_spec(
                old(self).composer.lines(),
                terminal_coordinate(
                    render_issues(
                        parse_spec(old(self).composer.lines(), old(self).current_type()@).sections,
                        old(self).composer.cursor().0,
                        errors@,
                    )[0].line,
                ),
                0,
            ),
            errors@.len() == 0 ==> final(self).composer.cursor() == old(self).composer.cursor(),
            keeps_decisions(old(self).composer, final(self).composer),
    {
        let d = definition_of(&self.conventional, &self.templates, self.template, self.selected_type);
        self.composer.report_render_errors(d, errors);
    }

    /// Shows a template's refusal to render the checked draft, against no
    /// field, on the cursor's line.
    pub fn report_template_error(&mut self, message: String)
        requires
            old(self).wf(),
            old(self).stage == Stage::Compose,
        ensures
            final(self).wf(),
            *final(self) == (AuthoringSession { composer: final(self).composer, ..*old(self) }),
            issues_view(final(self).composer.issues@) == seq![
                IssueView { field: None, line: old(self).composer.cursor().0, message: message@ },
            ],
            final(self).composer.lines() == old(self).composer.lines(),
            final(self).composer.cursor() == old(self).composer.cursor(),
            final(self).composer.editor == old(self).composer.editor,
            keeps_decisions(old(self).composer, final(self).composer),
    {
        let cursor = editor_cursor(&self.composer.editor);
        let mut issues: Vec<ValidationIssue> = Vec::new();
        issues.push(ValidationIssue { field: None, line: cursor.0, message });
        assert(issues_view(issues@) =~= seq![issues@[0]@]);
        self.composer.issues = issues;
    }

    /// The review opened on the composed document with a checked payload:
    /// shown from its first row, with the document, cursor and decisions
    /// kept and the reports cleared; nothing else changes.
    pub open spec fn review_opened(self, next: Self, payload: P) -> bool {
        &&& next.review == Some(ReviewState { payload, scroll: 0, scrollable: false })
        &&& next.stage == Stage::Review
        &&& next.composer.editor == self.composer.editor
        &&& next.composer.issues@.len() == 0
        &&& keeps_decisions(self.composer, next.composer)
        &&& next == (AuthoringSession {
            composer: next.composer,
            review: next.review,
            stage: Stage::Review,
            ..self
        })
    }

    /// Opens the review of a checked and rendered draft: the reports are
    /// cleared and the message is shown from its first row.
    pub fn open_review(&mut self, payload: P)
        requires
            old(self).wf(),
            old(self).stage == Stage::Compose,
        ensures
            final(self).wf(),
            old(self).review_opened(*final(self), payload),
    {
        self.composer.issues.clear();
        self.review = Some(ReviewState { payload, scroll: 0, scrollable: false });
        self.stage = Stage::Review;
    }
}

/// In the picker, Up then Down (or Down then Up) comes back to the type that
/// was selected, whatever the list's length: the selection wraps round at
/// both ends and changes nothing else.
pub proof fn lemma_picker_round_trip<P>(
    s0: AuthoringSession<P>,
    s1: AuthoringSession<P>,
    s2: AuthoringSession<P>,
    first: KeyPress,
    second: KeyPress,
    step1: Step<P>,
    step2: Step<P>,
)
    requires
        s0.wf(),
        s0.stage == Stage::SelectType,
        (first.code == KeyCode::Up && second.code == KeyCode::Down) || (first.code == KeyCode::Down
            && second.code == KeyCode::Up),
        s0.picker_key_result(s1, first, step1),
        s1.picker_key_result(s2, second, step2),
    ensures
        s2 == s0,
        s1.selected_type < s1.definitions().len(),
        step1 is Continue,
        step2 is Continue,
{
    let n = s0.definitions().len();
    assert(s1.definitions() == s0.definitions());
    let i = s0.selected_type as int;
    match s0.template {
        Some(t) => assert(s0.templates@[t as int].types.len() == n),
        None => assert(s0.conventional.len() == n),
    }
    if first.code == KeyCode::Up {
        if i == 0 {
            assert(s1.selected_type == n - 1);
            assert(((n - 1) + 1) % (n as int) == 0) by (nonlinear_arith)
                requires
                    n > 0,
            ;
        } else {
            assert(s1.selected_type == i - 1);
            assert((i - 1 + 1) % (n as int) == i) by (nonlinear_arith)
                requires
                    0 < i < n,
            ;
        }
        assert(s2.selected_type == s0.selected_type);
    } else {
        if i + 1 == n {
            assert((i + 1) % (n as int) == 0) by (nonlinear_arith)
                requires
                    i + 1 == n,
                    n > 0,
            ;
            assert(s1.selected_type == 0);
        } else {
            assert((i + 1) % (n as int) == i + 1) by (nonlinear_arith)
                requires
                    0 <= i,
                    i + 1 < n,
            ;
            assert(s1.selected_type == i + 1);
        }
        assert(s2.selected_type == s0.selected_type);
    }
}

/// Declining a discard loses nothing: asking to leave (or to change the
/// type) with unsaved work, then choosing to keep editing, returns to the
/// interrupted stage with the same document, decisions, reports and review.
pub proof fn lemma_declined_discard_keeps_work<P>(
    s0: AuthoringSession<P>,
    s1: AuthoringSession<P>,
    s2: AuthoringSession<P>,
    action: ConfirmationAction,
    resume: ResumeStage,
)
    requires
        s0.wf(),
        composer_dirty(s0.composer),
        s0.stage == resume_target(resume),
        s0.confirmation_requested(s1, action, resume),
        s1.resumed(s2),
    ensures
        s1.stage == Stage::Confirm,
        s0.request_outcome(action) is None,
        s2 == (AuthoringSession { confirmation: action, confirmation_resume: resume, confirmation_buttons: None, ..s0 }),
        s2.composer == s0.composer,
        s2.review == s0.review,
        s2.stage == s0.stage,
{
}

/// Backing out of a review loses nothing: once the review is opened on the
/// composed document, Esc returns to composing with the same document,
/// cursor and decisions, and the review dropped.
pub proof fn lemma_review_backtracking_is_lossless<P>(
    s0: AuthoringSession<P>,
    s1: AuthoringSession<P>,
    s2: AuthoringSession<P>,
    payload: P,
    key: KeyPress,
    step: Step<P>,
)
    requires
        s0.wf(),
        s0.stage == Stage::Compose,
        s0.review_opened(s1, payload),
        key.code == KeyCode::Esc,
        s1.review_key_result(s2, key, step),
    ensures
        step is Continue,
        s2.stage == Stage::Compose,
        s2.review is None,
        s2.composer.editor == s0.composer.editor,
        s2.composer.lines() == s0.composer.lines(),
        s2.composer.cursor() == s0.composer.cursor(),
        keeps_decisions(s0.composer, s2.composer),
        s2 == (AuthoringSession { composer: s2.composer, review: None, ..s0 }),
{
}

/// Enter on an opened review ends authoring with exactly the payload the
/// review was opened with.
pub proof fn lemma_review_returns_the_checked_draft<P>(
    s0: AuthoringSession<P>,
    s1: AuthoringSession<P>,
    s2: AuthoringSession<P>,
    payload: P,
    key: KeyPress,
    step: Step<P>,
)
    requires
        s0.wf(),
        s0.stage == Stage::Compose,
        s0.review_opened(s1, payload),
        key.code == KeyCode::Enter,
        s1.review_key_result(s2, key, step),
    ensures
        step == Step::Finished(Outcome::Authored(payload)),
        s2.review is None,
        s2.composer.lines() == s0.composer.lines(),
{
}

} // verus!
