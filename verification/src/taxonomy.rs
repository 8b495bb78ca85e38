//! The taxonomy configuration editor: the Project and Library screens, the
//! drafts of taxonomies, commit types and properties, the settings of a
//! configuration scope, and how each key press moves between screens.
//!
//! Loading, staging and saving configuration is the caller's work: where a
//! key press needs it, the editor returns a [`ConfigAction`] and the caller
//! hands the result back through the `*_done` methods.

use vstd::prelude::*;

use crate::layout::Rect;
use crate::measure::{clamp_u16, display_width, line_width, MINIMUM_HEIGHT, MINIMUM_WIDTH};
use crate::schema::{
    requirement_label, requirement_label_spec, CommitSchema, Condition, Multiplicity, PropertyView, Requirement,
    RequirementView,
};
use crate::authoring::TerminalEvent;
use crate::editor::{KeyCode, KeyPress};
use crate::layout::{contains, contains_spec};
use crate::layout::{sat_add, sat_sub, saturating_add, saturating_sub};
use crate::text::{chars_eq, chars_of, pop_char, push_char, push_text, trim, trim_spec};

verus! {

/// `std::path::PathBuf`, held by the editor as the library's location.
#[verifier::external_type_specification]
#[verifier::external_body]
pub struct ExPathBuf(std::path::PathBuf);

/// Taxonomy-first terminal configuration adapter.
#[derive(Clone, Debug, Default)]
pub struct RatatuiTaxonomyConfigurationEditor {
    pub library_path: Option<std::path::PathBuf>,
}

impl RatatuiTaxonomyConfigurationEditor {
    /// Supplies the resolved user-library source for Project resolution details.
    pub fn with_library_path(path: std::path::PathBuf) -> (r: Self)
        ensures
            r.library_path == Some(path),
    {
        RatatuiTaxonomyConfigurationEditor { library_path: Some(path) }
    }
}

/// The two top-level screens.
#[derive(Clone, Copy, Debug, PartialEq, Eq, Structural)]
pub enum Category {
    Project,
    Library,
}

impl Category {
    /// The categories in tab order.
    pub fn all() -> (v: [Category; 2])
        ensures
            v@ == seq![Category::Project, Category::Library],
    {
        [Category::Project, Category::Library]
    }

    pub open spec fn index_spec(self) -> usize {
        match self {
            Category::Project => 0,
            Category::Library => 1,
        }
    }

    /// The position of the category's tab.
    pub fn index(self) -> (i: usize)
        ensures
            i == self.index_spec(),
    {
        match self {
            Category::Project => 0,
            Category::Library => 1,
        }
    }

    /// The label of the category's tab.
    pub fn label(self) -> (s: &'static str)
        ensures
            s@ == (match self {
                Category::Project => "Project"@,
                Category::Library => "Library"@,
            }),
    {
        match self {
            Category::Project => "Project",
            Category::Library => "Library",
        }
    }

    pub open spec fn next_spec(self) -> Category {
        match self {
            Category::Project => Category::Library,
            Category::Library => Category::Project,
        }
    }

    /// The other category.
    pub fn next(self) -> (c: Category)
        ensures
            c == self.next_spec(),
    {
        match self {
            Category::Project => Category::Library,
            Category::Library => Category::Project,
        }
    }
}

/// Tab and Shift+Tab switch between the two categories: moving on twice
/// comes back, and the category's tab is at its index in tab order.
pub proof fn lemma_category_cycle(c: Category)
    ensures
        c.next_spec() != c,
        c.next_spec().next_spec() == c,
        seq![Category::Project, Category::Library][c.index_spec() as int] == c,
{
}

/// Which list of the Library screen has the focus.
#[derive(Clone, Copy, Debug, PartialEq, Eq, Structural)]
pub enum LibraryFocus {
    Taxonomies,
    Types,
}

/// The sections of the Project screen.
#[derive(Clone, Copy, Debug, PartialEq, Eq, Structural)]
pub enum ProjectSection {
    Commit,
    Resolution,
    Files,
}

/// The project sections in display order.
pub open spec fn project_sections() -> Seq<ProjectSection> {
    seq![ProjectSection::Commit, ProjectSection::Resolution, ProjectSection::Files]
}

impl ProjectSection {
    /// The sections in display order.
    pub fn all() -> (v: [ProjectSection; 3])
        ensures
            v@ == project_sections(),
    {
        [ProjectSection::Commit, ProjectSection::Resolution, ProjectSection::Files]
    }

    pub open spec fn index_spec(self) -> usize {
        match self {
            ProjectSection::Commit => 0,
            ProjectSection::Resolution => 1,
            ProjectSection::Files => 2,
        }
    }

    /// The section's position in display order.
    pub fn index(self) -> (i: usize)
        ensures
            i == self.index_spec(),
    {
        match self {
            ProjectSection::Commit => 0,
            ProjectSection::Resolution => 1,
            ProjectSection::Files => 2,
        }
    }

    /// The section's title.
    pub fn label(self) -> (s: &'static str)
        ensures
            s@ == (match self {
                ProjectSection::Commit => "Commit"@,
                ProjectSection::Resolution => "Resolution"@,
                ProjectSection::Files => "Files"@,
            }),
    {
        match self {
            ProjectSection::Commit => "Commit",
            ProjectSection::Resolution => "Resolution",
            ProjectSection::Files => "Files",
        }
    }
}

/// A project section is found at its index, and every index names one section.
pub proof fn lemma_project_section_index(s: ProjectSection, i: int)
    ensures
        project_sections()[s.index_spec() as int] == s,
        0 <= i < 3 ==> project_sections()[i].index_spec() == i,
{
}

/// A scope of configuration.
#[derive(Clone, Copy, Debug, PartialEq, Eq, Structural)]
pub enum Destination {
    Global,
    Project,
}

/// An action that waits for its scope to be free of other unapplied changes.
#[derive(Clone, Copy, Debug, PartialEq, Eq, Structural)]
pub enum PendingAction {
    EditProject,
    InitializeProject,
    ReviewProject,
    Create,
    Edit,
    Fork,
    Delete,
    ReviewGlobal,
}

/// The message row's content.
pub enum Notice {
    Error(String),
    Info(String),
}

/// Whether the taxonomy editor makes a new taxonomy or revises one.
#[derive(Clone, Copy, Debug, PartialEq, Eq, Structural)]
pub enum EditorMode {
    Create,
    Edit,
}

/// The form being filled in.
#[derive(Clone, Copy, Debug, PartialEq, Eq, Structural)]
pub enum FormKind {
    TaxonomyMetadata,
    NewType,
    EditType(usize),
    NewProperty(usize),
    EditProperty(usize, usize),
}

/// The screen shown.
#[derive(Clone, Copy, Debug, PartialEq, Eq, Structural)]
pub enum Screen {
    Home,
    Settings(Destination),
    TaxonomyEditor(EditorMode),
    TypeEditor(usize),
    Form(FormKind),
    Fork,
    Delete,
    Review(Destination),
    Leave,
    ScopeChange(PendingAction),
}

/// The screen a form returns to.
pub open spec fn parent_screen_spec(kind: FormKind, mode: EditorMode) -> Screen {
    match kind {
        FormKind::TaxonomyMetadata | FormKind::NewType => Screen::TaxonomyEditor(mode),
        FormKind::EditType(index) | FormKind::NewProperty(index) | FormKind::EditProperty(index, _) => {
            Screen::TypeEditor(index)
        },
    }
}

/// The screen a form returns to: the taxonomy editor for its metadata and new
/// types, the type editor for a type's own fields and its properties.
pub fn parent_screen(kind: FormKind, mode: EditorMode) -> (s: Screen)
    ensures
        s == parent_screen_spec(kind, mode),
{
    match kind {
        FormKind::TaxonomyMetadata | FormKind::NewType => Screen::TaxonomyEditor(mode),
        FormKind::EditType(index) | FormKind::NewProperty(index) | FormKind::EditProperty(index, _) => {
            Screen::TypeEditor(index)
        },
    }
}

/// The condition a property gets when it first becomes conditional.
pub open spec fn default_condition() -> RequirementView {
    RequirementView::Conditional { id: "condition"@, rationale: "Explain when this property applies."@ }
}

fn default_conditional() -> (r: Requirement)
    ensures
        r@ == default_condition(),
{
    Requirement::Conditional(
        Condition {
            id: String::from_str("condition"),
            rationale: String::from_str("Explain when this property applies."),
        },
    )
}

/// The requirement after Right on the requirement field: required,
/// recommended, optional, then conditional (with a fresh condition).
pub open spec fn next_requirement_spec(r: RequirementView) -> RequirementView {
    match r {
        RequirementView::Required => RequirementView::Recommended,
        RequirementView::Recommended => RequirementView::Optional,
        _ => default_condition(),
    }
}

/// The requirement after Left on the requirement field.
pub open spec fn previous_requirement_spec(r: RequirementView) -> RequirementView {
    match r {
        RequirementView::Required => default_condition(),
        RequirementView::Recommended => RequirementView::Required,
        RequirementView::Optional => RequirementView::Recommended,
        RequirementView::Conditional { .. } => RequirementView::Optional,
    }
}

/// The requirement after Right on the requirement field.
pub fn next_requirement(value: &Requirement) -> (r: Requirement)
    ensures
        r@ == next_requirement_spec(value@),
{
    match value {
        Requirement::Required => Requirement::Recommended,
        Requirement::Recommended => Requirement::Optional,
        _ => default_conditional(),
    }
}

/// The requirement after Left on the requirement field.
pub fn previous_requirement(value: &Requirement) -> (r: Requirement)
    ensures
        r@ == previous_requirement_spec(value@),
{
    match value {
        Requirement::Required => default_conditional(),
        Requirement::Recommended => Requirement::Required,
        Requirement::Optional => Requirement::Recommended,
        Requirement::Conditional(_) => Requirement::Optional,
    }
}

/// Left undoes Right on every requirement but a conditional one (Right
/// replaces its condition with a fresh one, so Left then finds optional).
/// Right undoes Left on every requirement but required (Left from required
/// wraps to a fresh condition, which Right keeps).
pub proof fn lemma_requirement_steps_undo(r: RequirementView)
    ensures
        !(r is Conditional) ==> previous_requirement_spec(next_requirement_spec(r)) == r,
        r is Recommended || r is Optional || r == default_condition() ==> next_requirement_spec(
            previous_requirement_spec(r),
        ) == r,
{
}

/// A copy of a requirement.
pub fn copy_requirement(value: &Requirement) -> (r: Requirement)
    ensures
        r@ == value@,
{
    match value {
        Requirement::Required => Requirement::Required,
        Requirement::Recommended => Requirement::Recommended,
        Requirement::Optional => Requirement::Optional,
        Requirement::Conditional(c) => Requirement::Conditional(
            Condition { id: c.id.clone(), rationale: c.rationale.clone() },
        ),
    }
}

/// Whether an identity occurs in a list of identities, and where first.
pub open spec fn first_index_of(ids: Seq<Seq<char>>, id: Seq<char>) -> Option<nat> {
    if exists|i: int| 0 <= i < ids.len() && ids[i] == id && forall|j: int| 0 <= j < i ==> ids[j] != id {
        let i = choose|i: int| 0 <= i < ids.len() && ids[i] == id && forall|j: int| 0 <= j < i ==> ids[j] != id;
        Some(i as nat)
    } else {
        None
    }
}

pub open spec fn ids_view(v: Seq<String>) -> Seq<Seq<char>> {
    Seq::new(v.len(), |i: int| v[i]@)
}

/// The position of the first occurrence of an identity.
pub fn index_of(ids: &Vec<String>, id: &String) -> (r: Option<usize>)
    ensures
        match r {
            Some(i) => first_index_of(ids_view(ids@), id@) == Some(i as nat) && i < ids@.len(),
            None => first_index_of(ids_view(ids@), id@) is None && forall|j: int|
                0 <= j < ids@.len() ==> ids@[j]@ != id@,
        },
{
    let wanted = chars_of(id.as_str());
    let mut i: usize = 0;
    while i < ids.len()
        invariant
            i <= ids@.len(),
            wanted@ == id@,
            forall|j: int| 0 <= j < i ==> ids@[j]@ != id@,
        decreases ids.len() - i,
    {
        let candidate = chars_of(ids[i].as_str());
        if chars_eq(candidate.as_slice(), wanted.as_slice()) {
            proof {
                let v = ids_view(ids@);
                let k = choose|k: int| 0 <= k < v.len() && v[k] == id@ && forall|j: int| 0 <= j < k ==> v[j] != id@;
                assert(v[i as int] == id@);
                if k < i {
                    assert(v[k] == ids@[k]@);
                }
                if i < k {
                    assert(v[i as int] == id@);
                }
            }
            return Some(i);
        }
        i = i + 1;
    }
    None
}

/// The list after moving the selected identity one place down (or up),
/// staying put at the end of the list.
pub open spec fn reordered(available: Seq<Seq<char>>, selected: Option<Seq<char>>, down: bool) -> Seq<Seq<char>> {
    match selected {
        None => available,
        Some(id) => match first_index_of(available, id) {
            None => available,
            Some(index) => {
                let target: int = if down {
                    if index + 1 < available.len() {
                        index as int + 1
                    } else {
                        available.len() - 1
                    }
                } else {
                    if index > 0 {
                        index - 1
                    } else {
                        0
                    }
                };
                available.update(index as int, available[target]).update(target, available[index as int])
            },
        },
    }
}

/// Moves the selected identity one place down (or up) in the list of
/// available taxonomies.
pub fn reorder_available(available: &mut Vec<String>, selected: &Option<String>, down: bool)
    ensures
        ids_view(final(available)@) == reordered(
            ids_view(old(available)@),
            match selected {
                Some(s) => Some(s@),
                None => None,
            },
            down,
        ),
{
    let id = match selected {
        Some(id) => id,
        None => {
            return ;
        },
    };
    let index = match index_of(available, id) {
        Some(i) => i,
        None => {
            return ;
        },
    };
    let len = available.len();
    let target = if down {
        if index < len - 1 {
            index + 1
        } else {
            available.len() - 1
        }
    } else {
        if index > 0 {
            index - 1
        } else {
            0
        }
    };
    let ghost before = ids_view(available@);
    let a = available[index].clone();
    let b = available[target].clone();
    available.set(index, b);
    available.set(target, a);
    assert(ids_view(available@) =~= before.update(index as int, before[target as int]).update(
        target as int,
        before[index as int],
    ));
}

/// Moving a taxonomy within the available list only swaps two places: the
/// list keeps its length and its identities, and moving down then up brings
/// back the order when the taxonomy was not last.
pub proof fn lemma_reorder_is_a_swap(available: Seq<Seq<char>>, id: Seq<char>, down: bool)
    ensures
        reordered(available, Some(id), down).len() == available.len(),
        reordered(available, Some(id), down).to_multiset() =~= available.to_multiset(),
{
    match first_index_of(available, id) {
        None => {},
        Some(index) => {
            let target: int = if down {
                if index + 1 < available.len() {
                    index as int + 1
                } else {
                    available.len() - 1
                }
            } else {
                if index > 0 {
                    index - 1
                } else {
                    0
                }
            };
            assert(0 <= target < available.len());
            let a = available[index as int];
            let b = available[target];
            if index as int == target {
                assert(reordered(available, Some(id), down) =~= available);
            } else {
                let once = available.update(index as int, b);
                vstd::seq_lib::to_multiset_update(available, index as int, b);
                vstd::seq_lib::to_multiset_update(once, target, a);
                assert(once[target] == b);
                broadcast use {vstd::multiset::group_multiset_axioms, vstd::multiset::group_multiset_properties};
                let m = available.to_multiset();
                available.to_multiset_ensures();
                assert(available.contains(a));
                assert(m.count(a) > 0);
                let m1 = m.insert(b).remove(a);
                let m2 = m1.insert(a).remove(b);
                assert forall|v: Seq<char>| m2.count(v) == m.count(v) by {
                    if v == a && v == b {
                    } else if v == a {
                        assert(m.insert(b).count(v) == m.count(v));
                    } else if v == b {
                        assert(m1.count(v) == m.count(v) + 1);
                    } else {
                        assert(m1.count(v) == m.count(v));
                    }
                }
                assert(m2 =~= m);
            }
        },
    }
}

/// A property as the editor holds it while it is changed.
pub struct PropertyDraft {
    pub key: String,
    pub description: String,
    pub requirement: Requirement,
    pub multiplicity: Multiplicity,
}

/// A commit type as the editor holds it while it is changed.
pub struct TypeDraft {
    pub id: String,
    pub description: String,
    pub schema_version: u16,
    pub properties: Vec<PropertyDraft>,
}

/// A taxonomy as the editor holds it while it is changed.
pub struct TaxonomyDraft {
    pub id: String,
    pub description: String,
    pub version: u16,
    pub types: Vec<TypeDraft>,
}

pub struct PropertyDraftView {
    pub key: Seq<char>,
    pub description: Seq<char>,
    pub requirement: RequirementView,
    pub multiplicity: Multiplicity,
}

pub struct TypeDraftView {
    pub id: Seq<char>,
    pub description: Seq<char>,
    pub schema_version: u16,
    pub properties: Seq<PropertyDraftView>,
}

pub struct TaxonomyDraftView {
    pub id: Seq<char>,
    pub description: Seq<char>,
    pub version: u16,
    pub types: Seq<TypeDraftView>,
}

impl View for PropertyDraft {
    type V = PropertyDraftView;

    open spec fn view(&self) -> PropertyDraftView {
        PropertyDraftView {
            key: self.key@,
            description: self.description@,
            requirement: self.requirement@,
            multiplicity: self.multiplicity,
        }
    }
}

impl View for TypeDraft {
    type V = TypeDraftView;

    open spec fn view(&self) -> TypeDraftView {
        TypeDraftView {
            id: self.id@,
            description: self.description@,
            schema_version: self.schema_version,
            properties: Seq::new(self.properties@.len(), |i: int| self.properties@[i]@),
        }
    }
}

impl View for TaxonomyDraft {
    type V = TaxonomyDraftView;

    open spec fn view(&self) -> TaxonomyDraftView {
        TaxonomyDraftView {
            id: self.id@,
            description: self.description@,
            version: self.version,
            types: Seq::new(self.types@.len(), |i: int| self.types@[i]@),
        }
    }
}

impl PropertyDraft {
    /// A blank required, single-valued property.
    pub fn empty() -> (d: PropertyDraft)
        ensures
            d@ == (PropertyDraftView {
                key: Seq::empty(),
                description: Seq::empty(),
                requirement: RequirementView::Required,
                multiplicity: Multiplicity::Single,
            }),
    {
        PropertyDraft {
            key: String::new(),
            description: String::new(),
            requirement: Requirement::Required,
            multiplicity: Multiplicity::Single,
        }
    }

    /// A copy of the draft.
    pub fn copy(&self) -> (d: PropertyDraft)
        ensures
            d@ == self@,
    {
        PropertyDraft {
            key: self.key.clone(),
            description: self.description.clone(),
            requirement: copy_requirement(&self.requirement),
            multiplicity: self.multiplicity,
        }
    }
}

/// A copy of a list of property drafts.
pub fn copy_properties(v: &Vec<PropertyDraft>) -> (r: Vec<PropertyDraft>)
    ensures
        Seq::new(r@.len(), |i: int| r@[i]@) == Seq::new(v@.len(), |i: int| v@[i]@),
{
    let mut r: Vec<PropertyDraft> = Vec::new();
    let mut i: usize = 0;
    while i < v.len()
        invariant
            i <= v@.len(),
            r@.len() == i,
            forall|j: int| 0 <= j < i ==> r@[j]@ == v@[j]@,
        decreases v.len() - i,
    {
        r.push(v[i].copy());
        i = i + 1;
    }
    assert(Seq::new(r@.len(), |i: int| r@[i]@) =~= Seq::new(v@.len(), |i: int| v@[i]@));
    r
}

impl TaxonomyDraft {
    /// The draft of a new taxonomy: no identity, no description, version one,
    /// no types.
    pub fn empty() -> (d: TaxonomyDraft)
        ensures
            d@ == (TaxonomyDraftView { id: Seq::empty(), description: Seq::empty(), version: 1, types: Seq::empty() }),
    {
        let d = TaxonomyDraft { id: String::new(), description: String::new(), version: 1, types: Vec::new() };
        assert(d@.types =~= Seq::empty());
        d
    }
}

/// A form: its text fields, the field with the focus, and (for a property)
/// its requirement and multiplicity.
pub struct FormState {
    pub fields: Vec<String>,
    pub selected: usize,
    pub requirement: Requirement,
    pub multiplicity: Multiplicity,
}

impl FormState {
    pub open spec fn fields_view(&self) -> Seq<Seq<char>> {
        ids_view(self.fields@)
    }

    /// The form of an identity and a description.
    pub fn metadata(id: String, description: String) -> (f: FormState)
        ensures
            f.fields_view() == seq![id@, description@],
            f.fields@.len() == 2,
            f.selected == 0,
            f.requirement@ == RequirementView::Required,
            f.multiplicity == Multiplicity::Single,
    {
        let mut fields: Vec<String> = Vec::new();
        fields.push(id);
        fields.push(description);
        let f = FormState { fields, selected: 0, requirement: Requirement::Required, multiplicity: Multiplicity::Single };
        assert(f.fields_view() =~= seq![f.fields@[0]@, f.fields@[1]@]);
        f
    }

    /// The form of a property: key, description, and the condition's
    /// identity and rationale (empty unless the property is conditional).
    pub fn property(value: PropertyDraft) -> (f: FormState)
        ensures
            f.fields_view() == (match value.requirement@ {
                RequirementView::Conditional { id, rationale } => seq![value.key@, value.description@, id, rationale],
                _ => seq![value.key@, value.description@, Seq::<char>::empty(), Seq::<char>::empty()],
            }),
            f.fields@.len() == 4,
            f.selected == 0,
            f.requirement@ == value.requirement@,
            f.multiplicity == value.multiplicity,
    {
        let (condition, rationale) = match &value.requirement {
            Requirement::Conditional(c) => (c.id.clone(), c.rationale.clone()),
            _ => (String::new(), String::new()),
        };
        let ghost key = value.key@;
        let ghost description = value.description@;
        let mut fields: Vec<String> = Vec::new();
        fields.push(value.key);
        fields.push(value.description);
        fields.push(condition);
        fields.push(rationale);
        let f = FormState { fields, selected: 0, requirement: value.requirement, multiplicity: value.multiplicity };
        assert(f.fields_view() =~= seq![key, description, f.fields@[2]@, f.fields@[3]@]);
        f
    }
}

/// The settings of a scope while they are changed: the taxonomy under the
/// cursor, the default, the available taxonomies in order, and whether each
/// of the two is inherited from the Library.
pub struct SettingsDraft {
    pub selected: usize,
    pub default: String,
    pub available: Vec<String>,
    pub inherit_default: bool,
    pub inherit_available: bool,
}

/// A taxonomy of the Library, as the screens read it.
pub struct TaxonomyEntry {
    pub id: String,
    /// Whether it is a custom taxonomy (built-in ones are read-only).
    pub custom: bool,
    pub type_count: usize,
}

/// What the editor reads of the loaded configuration when it decides.
pub struct ConfigFacts {
    /// The Library's taxonomies, when the global configuration and its
    /// catalog are available.
    pub catalog: Option<Vec<TaxonomyEntry>>,
    /// Why the Library is unavailable, when it is.
    pub catalog_error: Option<String>,
    pub global_loaded: bool,
    pub project_loaded: bool,
    pub project_error: String,
    pub global_dirty: bool,
    pub project_dirty: bool,
    /// Whether the project has a configuration (staged or persisted).
    pub project_initialized: bool,
    /// The Library's default and available taxonomies, as the project sees
    /// them.
    pub project_baseline: Option<(String, Vec<String>)>,
}

impl ConfigFacts {
    pub open spec fn catalog_len(&self) -> nat {
        match self.catalog {
            Some(v) => v@.len(),
            None => 0,
        }
    }

    /// The Library taxonomy at position `i`.
    pub open spec fn entry(&self, i: usize) -> Option<TaxonomyEntry> {
        match self.catalog {
            Some(v) => if i < v@.len() {
                Some(v@[i as int])
            } else {
                None
            },
            None => None,
        }
    }

    pub open spec fn loaded(&self, d: Destination) -> bool {
        match d {
            Destination::Global => self.global_loaded,
            Destination::Project => self.project_loaded,
        }
    }

    pub open spec fn dirty(&self, d: Destination) -> bool {
        match d {
            Destination::Global => self.global_dirty,
            Destination::Project => self.project_dirty,
        }
    }
}

/// Whether a notice is an error (or information) with the given text.
pub open spec fn notice_is(n: Option<Notice>, error: bool, text: Seq<char>) -> bool {
    match n {
        Some(Notice::Error(t)) => error && t@ == text,
        Some(Notice::Info(t)) => !error && t@ == text,
        None => false,
    }
}

fn error_notice(text: &str) -> (n: Option<Notice>)
    ensures
        notice_is(n, true, text@),
{
    Some(Notice::Error(String::from_str(text)))
}

fn info_notice(text: &str) -> (n: Option<Notice>)
    ensures
        notice_is(n, false, text@),
{
    Some(Notice::Info(String::from_str(text)))
}

/// What the caller does after a key press or a result.
pub enum ConfigAction {
    /// Draw again and wait for the next event.
    Continue,
    /// Leave the editor.
    Quit,
    /// Stage the settings of the scope (`settings` holds them), then report
    /// with [`ConfigState::configure_done`].
    Configure(Destination),
    /// Fork the Library taxonomy `source` under the identity in
    /// `fork_target`, then report with [`ConfigState::fork_done`].
    Fork(String),
    /// Stage the deletion of the Library taxonomy, then report with
    /// [`ConfigState::delete_done`].
    Delete(String),
    /// Apply the scope's staged changes, then report with
    /// [`ConfigState::apply_done`].
    Apply(Destination),
    /// Apply the scope's staged changes, then report with
    /// [`ConfigState::scope_apply_done`] to go on with the action.
    ApplyThen(Destination, PendingAction),
    /// Reload the scope, dropping its staged changes, then go on with
    /// [`ConfigState::scope_discard_done`].
    DiscardThen(Destination, PendingAction),
    /// Read the scope's settings and report with
    /// [`ConfigState::settings_loaded`].
    OpenSettings(Destination),
    /// Stage the project's initialization, check its review, and report with
    /// [`ConfigState::initialize_done`].
    InitializeProject,
    /// Check whether the scope has anything to review, and report with
    /// [`ConfigState::review_checked`].
    CheckReview(Destination),
    /// Read the selected Library taxonomy as a draft and report with
    /// [`ConfigState::edit_loaded`].
    OpenEdit,
    /// Build the taxonomy draft and stage it, then report with
    /// [`ConfigState::stage_done`].
    StageTaxonomy(EditorMode),
    /// Check the form's candidate (see [`ConfigState::type_candidate`] and
    /// [`ConfigState::property_candidate`]) with the commit rules, then
    /// report with [`ConfigState::form_checked`].
    CheckForm(FormKind),
}

/// The state of the configuration editor.
pub struct ConfigState {
    pub active_scope: Destination,
    pub category: Category,
    pub library_focus: LibraryFocus,
    pub project_section: ProjectSection,
    pub screen: Screen,
    pub browse_selected: usize,
    pub browser_offset: usize,
    pub type_selected: usize,
    pub type_offset: usize,
    pub child_selected: usize,
    pub scroll: u16,
    pub project_scroll: u16,
    pub property_scroll: u16,
    pub status: Option<Notice>,
    pub editor: Option<TaxonomyDraft>,
    pub editor_mode: EditorMode,
    pub form: Option<FormState>,
    pub settings: Option<SettingsDraft>,
    pub fork_target: String,
    pub too_small: bool,
    pub project_area: Rect,
    pub tab_areas: [Rect; 2],
    pub browser_area: Rect,
    pub type_area: Rect,
}

/// The editor position fits the screen a form returns to.
pub open spec fn child_fits(screen: Screen, e: TaxonomyDraft, child: usize) -> bool {
    match screen {
        Screen::TaxonomyEditor(_) => child <= e.types@.len(),
        Screen::TypeEditor(i) => i < e.types@.len() && child <= e.types@[i as int].properties@.len(),
        _ => true,
    }
}

/// Whether a form is one of a property's.
pub open spec fn is_property_form(kind: FormKind) -> bool {
    kind is NewProperty || kind is EditProperty
}

/// A form fits its kind: four fields for a property, two otherwise, and the
/// type and property it names exist in the draft.
pub open spec fn form_fits(kind: FormKind, form: FormState, editor: Option<TaxonomyDraft>) -> bool {
    &&& form.fields@.len() == (if is_property_form(kind) {
        4nat
    } else {
        2nat
    })
    &&& match kind {
        FormKind::TaxonomyMetadata | FormKind::NewType => true,
        FormKind::EditType(i) | FormKind::NewProperty(i) => editor matches Some(e) && i < e.types@.len(),
        FormKind::EditProperty(i, p) => editor matches Some(e) && i < e.types@.len() && p
            < e.types@[i as int].properties@.len(),
    }
}

impl ConfigState {
    /// The state's invariant: the screens' positions name existing types,
    /// properties and fields, and the list offsets leave room for a row.
    pub open spec fn wf(&self) -> bool {
        &&& self.screen matches Screen::TaxonomyEditor(_) ==> self.editor matches Some(e)
            && self.child_selected <= e.types@.len()
        &&& self.screen matches Screen::TypeEditor(i) ==> self.editor matches Some(e) && i < e.types@.len()
            && self.child_selected <= e.types@[i as int].properties@.len()
        &&& self.screen matches Screen::Form(kind) ==> self.form matches Some(f) && form_fits(kind, f, self.editor)
        &&& self.screen matches Screen::Form(kind) ==> self.editor matches Some(e) && child_fits(
            parent_screen_spec(kind, self.editor_mode),
            e,
            self.child_selected,
        )
        &&& self.form matches Some(f) ==> f.selected < f.fields@.len()
        &&& self.browser_offset + u16::MAX <= usize::MAX
        &&& self.type_offset + u16::MAX <= usize::MAX
    }

    /// The editor as it opens: the Project screen, nothing selected or
    /// staged.
    pub fn new() -> (s: ConfigState)
        ensures
            s.wf(),
            s.active_scope == Destination::Project,
            s.category == Category::Project,
            s.library_focus == LibraryFocus::Taxonomies,
            s.project_section == ProjectSection::Commit,
            s.screen == Screen::Home,
            s.browse_selected == 0 && s.browser_offset == 0 && s.type_selected == 0 && s.type_offset == 0,
            s.child_selected == 0 && s.scroll == 0 && s.project_scroll == 0 && s.property_scroll == 0,
            s.status is None && s.editor is None && s.form is None && s.settings is None,
            s.editor_mode == EditorMode::Create,
            s.fork_target@.len() == 0,
            !s.too_small,
    {
        ConfigState {
            active_scope: Destination::Project,
            category: Category::Project,
            library_focus: LibraryFocus::Taxonomies,
            project_section: ProjectSection::Commit,
            screen: Screen::Home,
            browse_selected: 0,
            browser_offset: 0,
            type_selected: 0,
            type_offset: 0,
            child_selected: 0,
            scroll: 0,
            project_scroll: 0,
            property_scroll: 0,
            status: None,
            editor: None,
            editor_mode: EditorMode::Create,
            form: None,
            settings: None,
            fork_target: String::new(),
            too_small: false,
            project_area: Rect::new(0, 0, 0, 0),
            tab_areas: [Rect::new(0, 0, 0, 0), Rect::new(0, 0, 0, 0)],
            browser_area: Rect::new(0, 0, 0, 0),
            type_area: Rect::new(0, 0, 0, 0),
        }
    }

    /// Back home with a notice.
    pub open spec fn home_with(self, next: Self, error: bool, text: Seq<char>) -> bool {
        next == (ConfigState { screen: Screen::Home, status: next.status, ..self }) && notice_is(
            next.status,
            error,
            text,
        )
    }

    /// The same state with a notice.
    pub open spec fn noticed(self, next: Self, error: bool, text: Seq<char>) -> bool {
        next == (ConfigState { status: next.status, ..self }) && notice_is(next.status, error, text)
    }

    /// What a pending action does once its scope is free: every action
    /// starts from Home; project actions make the project the active scope,
    /// Library actions the Library.
    pub open spec fn performed(self, next: Self, action: PendingAction, facts: ConfigFacts, out: ConfigAction) -> bool {
        let home = ConfigState { screen: Screen::Home, ..self };
        match action {
            PendingAction::EditProject => out == ConfigAction::OpenSettings(Destination::Project) && next
                == (ConfigState { active_scope: Destination::Project, ..home }),
            PendingAction::InitializeProject => {
                let base = ConfigState { active_scope: Destination::Project, ..home };
                if facts.project_loaded {
                    out == ConfigAction::InitializeProject && next == base
                } else {
                    out == ConfigAction::Continue && base.noticed(next, true, facts.project_error@)
                }
            },
            PendingAction::ReviewProject => out == ConfigAction::CheckReview(Destination::Project) && next
                == (ConfigState { active_scope: Destination::Project, ..home }),
            PendingAction::Create => {
                &&& out == ConfigAction::Continue
                &&& next == (ConfigState {
                    active_scope: Destination::Global,
                    editor: next.editor,
                    editor_mode: EditorMode::Create,
                    child_selected: 0,
                    screen: Screen::TaxonomyEditor(EditorMode::Create),
                    ..home
                })
                &&& next.editor matches Some(e) && e@ == (TaxonomyDraftView {
                    id: Seq::empty(),
                    description: Seq::empty(),
                    version: 1,
                    types: Seq::empty(),
                })
            },
            PendingAction::Edit => out == ConfigAction::OpenEdit && next == (ConfigState {
                active_scope: Destination::Global,
                ..home
            }),
            PendingAction::Fork => {
                &&& out == ConfigAction::Continue
                &&& next == (ConfigState {
                    active_scope: Destination::Global,
                    fork_target: next.fork_target,
                    screen: Screen::Fork,
                    ..home
                })
                &&& next.fork_target@.len() == 0
            },
            PendingAction::Delete => out == ConfigAction::Continue && next == (ConfigState {
                active_scope: Destination::Global,
                screen: Screen::Delete,
                ..home
            }),
            PendingAction::ReviewGlobal => out == ConfigAction::CheckReview(Destination::Global) && next
                == (ConfigState { active_scope: Destination::Global, ..home }),
        }
    }

    /// Carries out an action whose scope is free.
    pub fn perform_pending_action(&mut self, action: PendingAction, facts: &ConfigFacts) -> (out: ConfigAction)
        requires
            old(self).wf(),
        ensures
            final(self).wf(),
            old(self).performed(*final(self), action, *facts, out),
    {
        self.screen = Screen::Home;
        match action {
            PendingAction::EditProject => {
                self.active_scope = Destination::Project;
                ConfigAction::OpenSettings(Destination::Project)
            },
            PendingAction::InitializeProject => {
                self.active_scope = Destination::Project;
                if !facts.project_loaded {
                    self.status = Some(Notice::Error(facts.project_error.clone()));
                    return ConfigAction::Continue;
                }
                ConfigAction::InitializeProject
            },
            PendingAction::ReviewProject => {
                self.active_scope = Destination::Project;
                ConfigAction::CheckReview(Destination::Project)
            },
            PendingAction::Create => {
                self.active_scope = Destination::Global;
                self.editor = Some(TaxonomyDraft::empty());
                self.editor_mode = EditorMode::Create;
                self.child_selected = 0;
                self.screen = Screen::TaxonomyEditor(EditorMode::Create);
                ConfigAction::Continue
            },
            PendingAction::Edit => {
                self.active_scope = Destination::Global;
                ConfigAction::OpenEdit
            },
            PendingAction::Fork => {
                self.active_scope = Destination::Global;
                self.fork_target = String::new();
                self.screen = Screen::Fork;
                ConfigAction::Continue
            },
            PendingAction::Delete => {
                self.active_scope = Destination::Global;
                self.screen = Screen::Delete;
                ConfigAction::Continue
            },
            PendingAction::ReviewGlobal => {
                self.active_scope = Destination::Global;
                ConfigAction::CheckReview(Destination::Global)
            },
        }
    }
}

/// The Library taxonomy at a position, when there is one.
pub fn entry_at(facts: &ConfigFacts, i: usize) -> (r: Option<&TaxonomyEntry>)
    ensures
        match r {
            Some(e) => facts.entry(i) == Some(*e),
            None => facts.entry(i) is None,
        },
{
    match &facts.catalog {
        Some(v) => if i < v.len() {
            Some(&v[i])
        } else {
            None
        },
        None => None,
    }
}

/// The settings of a scope as loaded, with the identities of the Library it
/// chooses from.
pub struct SettingsSource {
    pub default: String,
    pub available: Vec<String>,
    pub inherit_default: bool,
    pub inherit_available: bool,
    pub catalog: Vec<String>,
}

impl ConfigState {
    /// A project action: refused without a loaded project, before
    /// initialization for editing, after it for initializing; held behind
    /// the scope-change dialog while the Library has unapplied changes.
    pub open spec fn project_requested(self, next: Self, action: PendingAction, facts: ConfigFacts, out: ConfigAction) -> bool {
        let cleared = ConfigState { status: None, ..self };
        if !facts.project_loaded {
            out == ConfigAction::Continue && cleared.noticed(next, true, facts.project_error@)
        } else if action == PendingAction::EditProject && !facts.project_initialized {
            out == ConfigAction::Continue && cleared.noticed(next, true, "Initialize the project before editing."@)
        } else if action == PendingAction::InitializeProject && facts.project_initialized {
            out == ConfigAction::Continue && cleared.noticed(next, false, "Project is already initialized."@)
        } else if self.active_scope == Destination::Global && facts.global_dirty {
            out == ConfigAction::Continue && next == (ConfigState { screen: Screen::ScopeChange(action), ..cleared })
        } else {
            cleared.performed(next, action, facts, out)
        }
    }

    /// Asks for a project action.
    pub fn request_project_action(&mut self, action: PendingAction, facts: &ConfigFacts) -> (out: ConfigAction)
        requires
            old(self).wf(),
        ensures
            final(self).wf(),
            old(self).project_requested(*final(self), action, *facts, out),
    {
        self.status = None;
        if !facts.project_loaded {
            self.status = Some(Notice::Error(facts.project_error.clone()));
            return ConfigAction::Continue;
        }
        if action == PendingAction::EditProject && !facts.project_initialized {
            self.status = error_notice("Initialize the project before editing.");
            return ConfigAction::Continue;
        }
        if action == PendingAction::InitializeProject && facts.project_initialized {
            self.status = info_notice("Project is already initialized.");
            return ConfigAction::Continue;
        }
        if self.active_scope == Destination::Global && facts.global_dirty {
            self.screen = Screen::ScopeChange(action);
            return ConfigAction::Continue;
        }
        self.perform_pending_action(action, facts)
    }

    /// A Library action: refused while the Library is unavailable, without a
    /// selected taxonomy (but for creating and reviewing), and on a built-in
    /// taxonomy for editing and deleting; held behind the scope-change dialog
    /// while the project has unapplied changes.
    pub open spec fn global_requested(self, next: Self, action: PendingAction, facts: ConfigFacts, out: ConfigAction) -> bool {
        match facts.catalog_error {
            Some(e) => out == ConfigAction::Continue && self.noticed(next, true, e@),
            None => if !(action == PendingAction::Create || action == PendingAction::ReviewGlobal) && facts.entry(
                self.browse_selected,
            ) is None {
                out == ConfigAction::Continue && self.noticed(next, true, "select a taxonomy"@)
            } else if (action == PendingAction::Edit || action == PendingAction::Delete) && (facts.entry(
                self.browse_selected,
            ) matches Some(e) && !e.custom) {
                &&& out == ConfigAction::Continue
                &&& self.noticed(next, true, "Built-in taxonomies are read-only; fork one to customize it."@)
            } else {
                let cleared = ConfigState { status: None, ..self };
                if self.active_scope == Destination::Project && facts.project_dirty {
                    out == ConfigAction::Continue && next == (ConfigState {
                        screen: Screen::ScopeChange(action),
                        ..cleared
                    })
                } else {
                    cleared.performed(next, action, facts, out)
                }
            },
        }
    }

    /// Asks for a Library action.
    pub fn request_global_action(&mut self, action: PendingAction, facts: &ConfigFacts) -> (out: ConfigAction)
        requires
            old(self).wf(),
        ensures
            final(self).wf(),
            old(self).global_requested(*final(self), action, *facts, out),
    {
        match &facts.catalog_error {
            Some(e) => {
                self.status = Some(Notice::Error(e.clone()));
                return ConfigAction::Continue;
            },
            None => {},
        }
        let selected = entry_at(facts, self.browse_selected);
        if !(action == PendingAction::Create || action == PendingAction::ReviewGlobal) && selected.is_none() {
            self.status = error_notice("select a taxonomy");
            return ConfigAction::Continue;
        }
        if action == PendingAction::Edit || action == PendingAction::Delete {
            match selected {
                Some(e) => if !e.custom {
                    self.status = error_notice("Built-in taxonomies are read-only; fork one to customize it.");
                    return ConfigAction::Continue;
                },
                None => {},
            }
        }
        self.status = None;
        if self.active_scope == Destination::Project && facts.project_dirty {
            self.screen = Screen::ScopeChange(action);
            return ConfigAction::Continue;
        }
        self.perform_pending_action(action, facts)
    }

    /// The result of staging a scope's settings: on success back home with
    /// the settings closed, otherwise the error.
    pub fn configure_done(&mut self, result: Result<(), String>)
        requires
            old(self).wf(),
        ensures
            final(self).wf(),
            match result {
                Ok(()) => (ConfigState { settings: None, ..*old(self) }).home_with(
                    *final(self),
                    false,
                    "Configuration change staged. Ctrl+S reviews before applying."@,
                ),
                Err(e) => old(self).noticed(*final(self), true, e@),
            },
    {
        match result {
            Ok(()) => {
                self.settings = None;
                self.screen = Screen::Home;
                self.status = info_notice("Configuration change staged. Ctrl+S reviews before applying.");
            },
            Err(e) => self.status = Some(Notice::Error(e)),
        }
    }

    /// The result of staging a fork.
    pub fn fork_done(&mut self, result: Result<(), String>)
        requires
            old(self).wf(),
        ensures
            final(self).wf(),
            match result {
                Ok(()) => old(self).home_with(*final(self), false, "Fork staged. Ctrl+S reviews before applying."@),
                Err(e) => old(self).noticed(*final(self), true, e@),
            },
    {
        match result {
            Ok(()) => {
                self.screen = Screen::Home;
                self.status = info_notice("Fork staged. Ctrl+S reviews before applying.");
            },
            Err(e) => self.status = Some(Notice::Error(e)),
        }
    }

    /// The result of staging a deletion: on success the selection moves up
    /// one taxonomy.
    pub fn delete_done(&mut self, result: Result<(), String>)
        requires
            old(self).wf(),
        ensures
            final(self).wf(),
            match result {
                Ok(()) => (ConfigState {
                    browse_selected: if old(self).browse_selected > 0 {
                        (old(self).browse_selected - 1) as usize
                    } else {
                        0
                    },
                    type_selected: 0,
                    ..*old(self)
                }).home_with(*final(self), false, "Deletion staged. Ctrl+S reviews before applying."@),
                Err(e) => old(self).home_with(*final(self), true, e@),
            },
    {
        match result {
            Ok(()) => {
                self.browse_selected = if self.browse_selected > 0 {
                    self.browse_selected - 1
                } else {
                    0
                };
                self.type_selected = 0;
                self.screen = Screen::Home;
                self.status = info_notice("Deletion staged. Ctrl+S reviews before applying.");
            },
            Err(e) => {
                self.screen = Screen::Home;
                self.status = Some(Notice::Error(e));
            },
        }
    }

    /// The result of applying a scope's changes.
    pub fn apply_done(&mut self, result: Result<(), String>)
        requires
            old(self).wf(),
        ensures
            final(self).wf(),
            match result {
                Ok(()) => old(self).home_with(*final(self), false, "Configuration applied."@),
                Err(e) => old(self).home_with(*final(self), true, e@),
            },
    {
        match result {
            Ok(()) => {
                self.screen = Screen::Home;
                self.status = info_notice("Configuration applied.");
            },
            Err(e) => {
                self.screen = Screen::Home;
                self.status = Some(Notice::Error(e));
            },
        }
    }

    /// The result of applying the other scope's changes before an action: on
    /// success the action goes on.
    pub fn scope_apply_done(&mut self, result: Result<(), String>, action: PendingAction, facts: &ConfigFacts) -> (out:
        ConfigAction)
        requires
            old(self).wf(),
        ensures
            final(self).wf(),
            match result {
                Ok(()) => (ConfigState { screen: Screen::Home, ..*old(self) }).performed(*final(self), action, *facts, out),
                Err(e) => out == ConfigAction::Continue && old(self).home_with(*final(self), true, e@),
            },
    {
        match result {
            Ok(()) => {
                self.screen = Screen::Home;
                self.perform_pending_action(action, facts)
            },
            Err(e) => {
                self.screen = Screen::Home;
                self.status = Some(Notice::Error(e));
                ConfigAction::Continue
            },
        }
    }

    /// After the other scope's changes were dropped, the action goes on.
    pub fn scope_discard_done(&mut self, action: PendingAction, facts: &ConfigFacts) -> (out: ConfigAction)
        requires
            old(self).wf(),
        ensures
            final(self).wf(),
            (ConfigState { screen: Screen::Home, ..*old(self) }).performed(*final(self), action, *facts, out),
    {
        self.screen = Screen::Home;
        self.perform_pending_action(action, facts)
    }

    /// The settings of a scope, read for editing: the cursor starts on the
    /// default taxonomy (or the first when the default is not listed).
    /// Nothing opens when the scope's settings cannot be read.
    pub fn settings_loaded(&mut self, destination: Destination, source: Option<SettingsSource>)
        requires
            old(self).wf(),
        ensures
            final(self).wf(),
            match source {
                None => *final(self) == *old(self),
                Some(src) => {
                    &&& *final(self) == (ConfigState {
                        settings: final(self).settings,
                        screen: Screen::Settings(destination),
                        ..*old(self)
                    })
                    &&& final(self).settings matches Some(st) && st.selected == (match first_index_of(
                        ids_view(src.catalog@),
                        src.default@,
                    ) {
                        Some(i) => i as usize,
                        None => 0,
                    }) && st.default@ == src.default@ && st.available@ == src.available@
                        && st.inherit_default == src.inherit_default && st.inherit_available
                        == src.inherit_available
                },
            },
    {
        let src = match source {
            Some(src) => src,
            None => {
                return ;
            },
        };
        let selected = match index_of(&src.catalog, &src.default) {
            Some(i) => i,
            None => 0,
        };
        self.settings = Some(
            SettingsDraft {
                selected,
                default: src.default,
                available: src.available,
                inherit_default: src.inherit_default,
                inherit_available: src.inherit_available,
            },
        );
        self.screen = Screen::Settings(destination);
    }

    /// The result of staging the project's initialization: its review opens.
    pub fn initialize_done(&mut self, result: Result<(), String>)
        requires
            old(self).wf(),
        ensures
            final(self).wf(),
            match result {
                Ok(()) => *final(self) == (ConfigState { screen: Screen::Review(Destination::Project), ..*old(self) }),
                Err(e) => old(self).noticed(*final(self), true, e@),
            },
    {
        match result {
            Ok(()) => self.screen = Screen::Review(Destination::Project),
            Err(e) => self.status = Some(Notice::Error(e)),
        }
    }

    /// Whether a scope has something to review (`should_review`: staged
    /// changes or an update), and the error its review met, if any.
    pub fn review_checked(&mut self, destination: Destination, should_review: bool, error: Option<String>)
        requires
            old(self).wf(),
        ensures
            final(self).wf(),
            !should_review ==> old(self).noticed(*final(self), false, "No changes or taxonomy updates to apply."@),
            should_review ==> match error {
                Some(e) => old(self).noticed(*final(self), true, e@),
                None => *final(self) == (ConfigState { scroll: 0, screen: Screen::Review(destination), ..*old(self) }),
            },
    {
        if should_review {
            match error {
                Some(e) => self.status = Some(Notice::Error(e)),
                None => {
                    self.scroll = 0;
                    self.screen = Screen::Review(destination);
                },
            }
        } else {
            self.status = info_notice("No changes or taxonomy updates to apply.");
        }
    }

    /// The selected Library taxonomy, read as a draft for editing: refused
    /// for a built-in taxonomy.
    pub fn edit_loaded(&mut self, draft: Option<TaxonomyDraft>, facts: &ConfigFacts)
        requires
            old(self).wf(),
        ensures
            final(self).wf(),
            match (facts.entry(old(self).browse_selected), draft) {
                (Some(e), Some(d)) => if !e.custom {
                    old(self).noticed(*final(self), true, "Built-in taxonomies are read-only; fork one to customize it."@)
                } else {
                    *final(self) == (ConfigState {
                        editor: Some(d),
                        editor_mode: EditorMode::Edit,
                        child_selected: 0,
                        screen: Screen::TaxonomyEditor(EditorMode::Edit),
                        ..*old(self)
                    })
                },
                _ => *final(self) == *old(self),
            },
    {
        let custom = match entry_at(facts, self.browse_selected) {
            Some(e) => e.custom,
            None => {
                return ;
            },
        };
        let d = match draft {
            Some(d) => d,
            None => {
                return ;
            },
        };
        if !custom {
            self.status = error_notice("Built-in taxonomies are read-only; fork one to customize it.");
            return ;
        }
        self.editor = Some(d);
        self.editor_mode = EditorMode::Edit;
        self.child_selected = 0;
        self.screen = Screen::TaxonomyEditor(EditorMode::Edit);
    }

    /// The result of staging the taxonomy draft: on success the editor
    /// closes.
    pub fn stage_done(&mut self, result: Result<(), String>)
        requires
            old(self).wf(),
        ensures
            final(self).wf(),
            match result {
                Ok(()) => (ConfigState { editor: None, ..*old(self) }).home_with(
                    *final(self),
                    false,
                    "Taxonomy change staged. Ctrl+S reviews before applying."@,
                ),
                Err(e) => old(self).noticed(*final(self), true, e@),
            },
    {
        match result {
            Ok(()) => {
                self.editor = None;
                self.screen = Screen::Home;
                self.status = info_notice("Taxonomy change staged. Ctrl+S reviews before applying.");
            },
            Err(e) => self.status = Some(Notice::Error(e)),
        }
    }
}

/// Whether a key types a character into a text field: no modifier but
/// Shift.
pub open spec fn types_text(key: KeyPress) -> bool {
    !key.ctrl && !key.alt
}

impl ConfigState {
    /// A key press on the discard-and-quit dialog: y quits, n, Esc and Enter
    /// go back home.
    pub open spec fn leave_key_result(self, next: Self, key: KeyPress, out: ConfigAction) -> bool {
        if key.code == KeyCode::Char('y') {
            out == ConfigAction::Quit && next == self
        } else if key.code == KeyCode::Esc || key.code == KeyCode::Enter || key.code == KeyCode::Char('n') {
            out == ConfigAction::Continue && next == (ConfigState { screen: Screen::Home, ..self })
        } else {
            out == ConfigAction::Continue && next == self
        }
    }

    pub fn leave_key(&mut self, key: KeyPress) -> (out: ConfigAction)
        requires
            old(self).wf(),
        ensures
            final(self).wf(),
            old(self).leave_key_result(*final(self), key, out),
    {
        match key.code {
            KeyCode::Char('y') => ConfigAction::Quit,
            KeyCode::Esc | KeyCode::Enter | KeyCode::Char('n') => {
                self.screen = Screen::Home;
                ConfigAction::Continue
            },
            _ => ConfigAction::Continue,
        }
    }

    /// A key press on the fork screen: typing edits the new identity, Ctrl+S
    /// forks the selected Library taxonomy, Esc goes back.
    pub open spec fn fork_key_result(self, next: Self, key: KeyPress, facts: ConfigFacts, out: ConfigAction) -> bool {
        if key.code == KeyCode::Backspace {
            &&& out == ConfigAction::Continue
            &&& next == (ConfigState { fork_target: next.fork_target, ..self })
            &&& next.fork_target@ == (if self.fork_target@.len() > 0 {
                self.fork_target@.drop_last()
            } else {
                self.fork_target@
            })
        } else if key.code == KeyCode::Char('s') && key.ctrl {
            match facts.entry(self.browse_selected) {
                None => out == ConfigAction::Continue && self.noticed(next, true, "select a taxonomy"@),
                Some(e) => out matches ConfigAction::Fork(id) && id@ == e.id@ && next == self,
            }
        } else if key.code == KeyCode::Esc {
            out == ConfigAction::Continue && next == (ConfigState { screen: Screen::Home, ..self })
        } else if key.code is Char && types_text(key) {
            &&& out == ConfigAction::Continue
            &&& next == (ConfigState { fork_target: next.fork_target, ..self })
            &&& next.fork_target@ == self.fork_target@.push(key.code->Char_0)
        } else {
            out == ConfigAction::Continue && next == self
        }
    }

    pub fn fork_key(&mut self, key: KeyPress, facts: &ConfigFacts) -> (out: ConfigAction)
        requires
            old(self).wf(),
        ensures
            final(self).wf(),
            old(self).fork_key_result(*final(self), key, *facts, out),
    {
        match key.code {
            KeyCode::Backspace => {
                pop_char(&mut self.fork_target);
                ConfigAction::Continue
            },
            KeyCode::Char('s') if key.ctrl => match entry_at(facts, self.browse_selected) {
                None => {
                    self.status = error_notice("select a taxonomy");
                    ConfigAction::Continue
                },
                Some(e) => ConfigAction::Fork(e.id.clone()),
            },
            KeyCode::Esc => {
                self.screen = Screen::Home;
                ConfigAction::Continue
            },
            KeyCode::Char(c) => {
                if !key.ctrl && !key.alt {
                    push_char(&mut self.fork_target, c);
                }
                ConfigAction::Continue
            },
            _ => ConfigAction::Continue,
        }
    }

    /// A key press on the deletion dialog: y deletes the selected Library
    /// taxonomy, n, Esc and Enter keep it.
    pub open spec fn delete_key_result(self, next: Self, key: KeyPress, facts: ConfigFacts, out: ConfigAction) -> bool {
        if key.code == KeyCode::Char('y') {
            match facts.entry(self.browse_selected) {
                None => out == ConfigAction::Continue && self.home_with(next, true, "select a taxonomy"@),
                Some(e) => out matches ConfigAction::Delete(id) && id@ == e.id@ && next == self,
            }
        } else if key.code == KeyCode::Esc || key.code == KeyCode::Enter || key.code == KeyCode::Char('n') {
            out == ConfigAction::Continue && next == (ConfigState { screen: Screen::Home, ..self })
        } else {
            out == ConfigAction::Continue && next == self
        }
    }

    pub fn delete_key(&mut self, key: KeyPress, facts: &ConfigFacts) -> (out: ConfigAction)
        requires
            old(self).wf(),
        ensures
            final(self).wf(),
            old(self).delete_key_result(*final(self), key, *facts, out),
    {
        match key.code {
            KeyCode::Char('y') => match entry_at(facts, self.browse_selected) {
                None => {
                    self.screen = Screen::Home;
                    self.status = error_notice("select a taxonomy");
                    ConfigAction::Continue
                },
                Some(e) => ConfigAction::Delete(e.id.clone()),
            },
            KeyCode::Esc | KeyCode::Enter | KeyCode::Char('n') => {
                self.screen = Screen::Home;
                ConfigAction::Continue
            },
            _ => ConfigAction::Continue,
        }
    }

    /// A key press on a scope's review: Enter applies it (when the scope is
    /// loaded), Esc goes back, Up and Down scroll.
    pub open spec fn review_key_result(self, next: Self, key: KeyPress, destination: Destination, facts: ConfigFacts, out: ConfigAction) -> bool {
        if key.code == KeyCode::Enter {
            next == self && out == (if facts.loaded(destination) {
                ConfigAction::Apply(destination)
            } else {
                ConfigAction::Continue
            })
        } else if key.code == KeyCode::Esc {
            out == ConfigAction::Continue && next == (ConfigState { screen: Screen::Home, ..self })
        } else if key.code == KeyCode::Up {
            out == ConfigAction::Continue && next == (ConfigState { scroll: sat_sub(self.scroll, 1), ..self })
        } else if key.code == KeyCode::Down {
            out == ConfigAction::Continue && next == (ConfigState { scroll: sat_add(self.scroll, 1), ..self })
        } else {
            out == ConfigAction::Continue && next == self
        }
    }

    pub fn review_key(&mut self, key: KeyPress, destination: Destination, facts: &ConfigFacts) -> (out: ConfigAction)
        requires
            old(self).wf(),
        ensures
            final(self).wf(),
            old(self).review_key_result(*final(self), key, destination, *facts, out),
    {
        match key.code {
            KeyCode::Enter => {
                let loaded = match destination {
                    Destination::Global => facts.global_loaded,
                    Destination::Project => facts.project_loaded,
                };
                if loaded {
                    ConfigAction::Apply(destination)
                } else {
                    ConfigAction::Continue
                }
            },
            KeyCode::Esc => {
                self.screen = Screen::Home;
                ConfigAction::Continue
            },
            KeyCode::Up => {
                self.scroll = saturating_sub(self.scroll, 1);
                ConfigAction::Continue
            },
            KeyCode::Down => {
                self.scroll = saturating_add(self.scroll, 1);
                ConfigAction::Continue
            },
            _ => ConfigAction::Continue,
        }
    }

    /// A key press on the scope-change dialog: a applies the active scope's
    /// changes, d drops them, and either goes on with the action; Esc and
    /// Enter cancel it.
    pub open spec fn scope_change_key_result(self, next: Self, key: KeyPress, action: PendingAction, facts: ConfigFacts, out: ConfigAction) -> bool {
        if key.code == KeyCode::Char('a') {
            next == self && out == (if facts.loaded(self.active_scope) {
                ConfigAction::ApplyThen(self.active_scope, action)
            } else {
                ConfigAction::Continue
            })
        } else if key.code == KeyCode::Char('d') {
            next == self && out == ConfigAction::DiscardThen(self.active_scope, action)
        } else if key.code == KeyCode::Esc || key.code == KeyCode::Enter {
            out == ConfigAction::Continue && next == (ConfigState { screen: Screen::Home, ..self })
        } else {
            out == ConfigAction::Continue && next == self
        }
    }

    pub fn scope_change_key(&mut self, key: KeyPress, action: PendingAction, facts: &ConfigFacts) -> (out: ConfigAction)
        requires
            old(self).wf(),
        ensures
            final(self).wf(),
            old(self).scope_change_key_result(*final(self), key, action, *facts, out),
    {
        match key.code {
            KeyCode::Char('a') => {
                let loaded = match self.active_scope {
                    Destination::Global => facts.global_loaded,
                    Destination::Project => facts.project_loaded,
                };
                if loaded {
                    ConfigAction::ApplyThen(self.active_scope, action)
                } else {
                    ConfigAction::Continue
                }
            },
            KeyCode::Char('d') => ConfigAction::DiscardThen(self.active_scope, action),
            KeyCode::Esc | KeyCode::Enter => {
                self.screen = Screen::Home;
                ConfigAction::Continue
            },
            _ => ConfigAction::Continue,
        }
    }
}

/// A copy of a list of identities.
pub fn copy_ids(v: &Vec<String>) -> (r: Vec<String>)
    ensures
        ids_view(r@) == ids_view(v@),
{
    let mut r: Vec<String> = Vec::new();
    let mut i: usize = 0;
    while i < v.len()
        invariant
            i <= v@.len(),
            r@.len() == i,
            forall|j: int| 0 <= j < i ==> r@[j]@ == v@[j]@,
        decreases v.len() - i,
    {
        r.push(v[i].clone());
        i = i + 1;
    }
    assert(ids_view(r@) =~= ids_view(v@));
    r
}

/// The settings of a scope, as plain values.
pub struct SettingsView {
    pub selected: usize,
    pub default: Seq<char>,
    pub available: Seq<Seq<char>>,
    pub inherit_default: bool,
    pub inherit_available: bool,
}

impl View for SettingsDraft {
    type V = SettingsView;

    open spec fn view(&self) -> SettingsView {
        SettingsView {
            selected: self.selected,
            default: self.default@,
            available: ids_view(self.available@),
            inherit_default: self.inherit_default,
            inherit_available: self.inherit_available,
        }
    }
}

/// The identity of the Library taxonomy at a position.
pub open spec fn id_at(facts: ConfigFacts, i: usize) -> Option<Seq<char>> {
    match facts.entry(i) {
        Some(e) => Some(e.id@),
        None => None,
    }
}

/// Whether Space would remove the default taxonomy, which is refused.
pub open spec fn removes_default(st: SettingsView, facts: ConfigFacts) -> bool {
    id_at(facts, st.selected) == Some(st.default)
}

/// The settings after a key press: Alt+Up and Alt+Down move the taxonomy
/// under the cursor in the available order; Up and Down move the cursor;
/// Space makes the taxonomy available or not (never the default); Enter
/// makes it the default, and available; in a project, d, a and r go back to
/// inheriting the default, the available list, or both.
pub open spec fn settings_after(st: SettingsView, key: KeyPress, destination: Destination, facts: ConfigFacts) -> SettingsView {
    let sid = id_at(facts, st.selected);
    let count = facts.catalog_len();
    if key.code == KeyCode::Up && key.alt {
        SettingsView { available: reordered(st.available, sid, false), ..st }
    } else if key.code == KeyCode::Down && key.alt {
        SettingsView { available: reordered(st.available, sid, true), ..st }
    } else if key.code == KeyCode::Up {
        SettingsView { selected: if st.selected > 0 { (st.selected - 1) as usize } else { 0 }, ..st }
    } else if key.code == KeyCode::Down {
        let last: int = if count > 0 { count - 1 } else { 0 };
        SettingsView { selected: if st.selected + 1 <= last { (st.selected + 1) as usize } else { last as usize }, ..st }
    } else if key.code == KeyCode::Char(' ') {
        match sid {
            None => st,
            Some(id) => {
                let st1 = SettingsView { inherit_available: false, ..st };
                if id == st.default {
                    st1
                } else {
                    match first_index_of(st.available, id) {
                        Some(i) => SettingsView { available: st.available.remove(i as int), ..st1 },
                        None => SettingsView { available: st.available.push(id), ..st1 },
                    }
                }
            },
        }
    } else if key.code == KeyCode::Enter {
        match sid {
            None => st,
            Some(id) => {
                let st1 = SettingsView { inherit_default: false, default: id, ..st };
                if st.available.contains(id) {
                    st1
                } else {
                    SettingsView { inherit_available: false, available: st.available.push(id), ..st1 }
                }
            },
        }
    } else if destination == Destination::Project && (key.code == KeyCode::Char('d') || key.code
        == KeyCode::Char('a') || key.code == KeyCode::Char('r')) {
        let d = key.code != KeyCode::Char('a');
        let a = key.code != KeyCode::Char('d');
        let st1 = SettingsView {
            inherit_default: if d { true } else { st.inherit_default },
            inherit_available: if a { true } else { st.inherit_available },
            ..st
        };
        match facts.project_baseline {
            Some((bd, ba)) => SettingsView {
                default: if d { bd@ } else { st.default },
                available: if a { ids_view(ba@) } else { st.available },
                ..st1
            },
            None => st1,
        }
    } else {
        st
    }
}

/// Space and Enter never leave the default taxonomy unavailable: Space
/// refuses to remove it, Enter adds the new default when it is missing.
pub proof fn lemma_settings_keep_default_available(st: SettingsView, key: KeyPress, destination: Destination, facts: ConfigFacts)
    requires
        key.code == KeyCode::Char(' ') || key.code == KeyCode::Enter,
        st.available.contains(st.default) || key.code == KeyCode::Enter,
        id_at(facts, st.selected) is Some,
    ensures
        settings_after(st, key, destination, facts).available.contains(settings_after(st, key, destination, facts).default),
{
    let after = settings_after(st, key, destination, facts);
    let id = id_at(facts, st.selected)->Some_0;
    if key.code == KeyCode::Char(' ') {
        if id != st.default {
            let k = choose|k: int| 0 <= k < st.available.len() && st.available[k] == st.default;
            match first_index_of(st.available, id) {
                Some(i) => {
                    assert(st.available[i as int] == id);
                    if k < i {
                        assert(after.available[k] == st.default);
                    } else {
                        assert(after.available[k - 1] == st.default);
                    }
                },
                None => {
                    assert(after.available[k] == st.default);
                },
            }
        }
    } else {
        if !st.available.contains(id) {
            assert(after.available[st.available.len() as int] == id);
        }
    }
}

impl ConfigState {
    /// A key press on a scope's settings: the settings change as
    /// [`settings_after`] says (with an error when Space would remove the
    /// default); Ctrl+S stages them; Esc drops them.
    pub open spec fn settings_key_result(self, next: Self, key: KeyPress, destination: Destination, facts: ConfigFacts, out: ConfigAction) -> bool {
        match self.settings {
            None => out == ConfigAction::Continue && next == self,
            Some(st) => if key.code == KeyCode::Char('s') && key.ctrl {
                out == ConfigAction::Configure(destination) && next == self
            } else if key.code == KeyCode::Esc {
                out == ConfigAction::Continue && next == (ConfigState {
                    settings: None,
                    screen: Screen::Home,
                    ..self
                })
            } else {
                &&& out == ConfigAction::Continue
                &&& next == (ConfigState { settings: next.settings, status: next.status, ..self })
                &&& next.settings matches Some(st2) && st2@ == settings_after(st@, key, destination, facts)
                &&& if key.code == KeyCode::Char(' ') && removes_default(st@, facts) {
                    notice_is(next.status, true, "Choose another default before removing this taxonomy."@)
                } else {
                    next.status == self.status
                }
            },
        }
    }

    pub fn settings_key(&mut self, key: KeyPress, destination: Destination, facts: &ConfigFacts) -> (out: ConfigAction)
        requires
            old(self).wf(),
        ensures
            final(self).wf(),
            old(self).settings_key_result(*final(self), key, destination, *facts, out),
    {
        if self.settings.is_none() {
            return ConfigAction::Continue;
        }
        if key.code == KeyCode::Char('s') && key.ctrl {
            return ConfigAction::Configure(destination);
        }
        if key.code == KeyCode::Esc {
            self.settings = None;
            self.screen = Screen::Home;
            return ConfigAction::Continue;
        }
        let mut st = match self.settings.take() {
            Some(st) => st,
            None => {
                return ConfigAction::Continue;
            },
        };
        if settings_step(&mut st, key, destination, facts) {
            self.status = error_notice("Choose another default before removing this taxonomy.");
        }
        self.settings = Some(st);
        ConfigAction::Continue
    }
}

/// Space on the taxonomy `id`: available or not, never removing the default.
fn toggle_available(st: &mut SettingsDraft, id: &String) -> (refused: bool)
    ensures
        refused == (id@ == old(st)@.default),
        final(st)@ == (if id@ == old(st)@.default {
            SettingsView { inherit_available: false, ..old(st)@ }
        } else {
            match first_index_of(old(st)@.available, id@) {
                Some(i) => SettingsView { available: old(st)@.available.remove(i as int), inherit_available: false, ..old(st)@ },
                None => SettingsView { available: old(st)@.available.push(id@), inherit_available: false, ..old(st)@ },
            }
        }),
{
    st.inherit_available = false;
    if chars_eq(chars_of(id.as_str()).as_slice(), chars_of(st.default.as_str()).as_slice()) {
        return true;
    }
    let ghost v = ids_view(st.available@);
    match index_of(&st.available, id) {
        Some(i) => {
            st.available.remove(i);
            assert(ids_view(st.available@) =~= v.remove(i as int));
        },
        None => {
            st.available.push(id.clone());
            assert(ids_view(st.available@) =~= v.push(id@));
        },
    }
    false
}

/// Enter on the taxonomy `id`: the default, and available.
fn make_default(st: &mut SettingsDraft, id: &String)
    ensures
        final(st)@ == (if old(st)@.available.contains(id@) {
            SettingsView { inherit_default: false, default: id@, ..old(st)@ }
        } else {
            SettingsView {
                inherit_default: false,
                default: id@,
                inherit_available: false,
                available: old(st)@.available.push(id@),
                ..old(st)@
            }
        }),
{
    st.inherit_default = false;
    st.default = id.clone();
    let ghost v = ids_view(st.available@);
    match index_of(&st.available, id) {
        Some(i) => {
            assert(v[i as int] == id@);
        },
        None => {
            st.inherit_available = false;
            st.available.push(id.clone());
            assert(ids_view(st.available@) =~= v.push(id@));
        },
    }
}

/// In a project, d, a and r go back to inheriting the default, the
/// available list, or both.
fn inherit_baseline(st: &mut SettingsDraft, d: bool, a: bool, facts: &ConfigFacts)
    ensures
        final(st)@ == (match facts.project_baseline {
            Some((bd, ba)) => SettingsView {
                default: if d { bd@ } else { old(st)@.default },
                available: if a { ids_view(ba@) } else { old(st)@.available },
                inherit_default: if d { true } else { old(st)@.inherit_default },
                inherit_available: if a { true } else { old(st)@.inherit_available },
                ..old(st)@
            },
            None => SettingsView {
                inherit_default: if d { true } else { old(st)@.inherit_default },
                inherit_available: if a { true } else { old(st)@.inherit_available },
                ..old(st)@
            },
        }),
{
    if d {
        st.inherit_default = true;
    }
    if a {
        st.inherit_available = true;
    }
    match &facts.project_baseline {
        Some((bd, ba)) => {
            if d {
                st.default = bd.clone();
            }
            if a {
                st.available = copy_ids(ba);
            }
        },
        None => {},
    }
}

/// The settings after a key press, and whether Space was refused on the
/// default.
fn settings_step(st: &mut SettingsDraft, key: KeyPress, destination: Destination, facts: &ConfigFacts) -> (refused: bool)
    ensures
        final(st)@ == settings_after(old(st)@, key, destination, *facts),
        refused == (key.code == KeyCode::Char(' ') && removes_default(old(st)@, *facts)),
{
    let count: usize = match &facts.catalog {
        Some(v) => v.len(),
        None => 0,
    };
    let selected_id: Option<String> = match entry_at(facts, st.selected) {
        Some(e) => Some(e.id.clone()),
        None => None,
    };
    if key.code == KeyCode::Up && key.alt {
        reorder_available(&mut st.available, &selected_id, false);
        return false;
    }
    if key.code == KeyCode::Down && key.alt {
        reorder_available(&mut st.available, &selected_id, true);
        return false;
    }
    if key.code == KeyCode::Up {
        st.selected = if st.selected > 0 {
            st.selected - 1
        } else {
            0
        };
        return false;
    }
    if key.code == KeyCode::Down {
        let last = if count > 0 {
            count - 1
        } else {
            0
        };
        st.selected = if st.selected < last {
            st.selected + 1
        } else {
            last
        };
        return false;
    }
    if key.code == KeyCode::Char(' ') {
        return match &selected_id {
            Some(id) => toggle_available(st, id),
            None => false,
        };
    }
    if key.code == KeyCode::Enter {
        match &selected_id {
            Some(id) => make_default(st, id),
            None => {},
        }
        return false;
    }
    if destination == Destination::Project && (key.code == KeyCode::Char('d') || key.code == KeyCode::Char('a')
        || key.code == KeyCode::Char('r')) {
        inherit_baseline(st, key.code != KeyCode::Char('a'), key.code != KeyCode::Char('d'), facts);
    }
    false
}

/// The list with the items at `a` and `a + 1` swapped.
pub open spec fn swapped<A>(s: Seq<A>, a: int) -> Seq<A> {
    s.update(a, s[a + 1]).update(a + 1, s[a])
}

/// Swaps the items at `a` and `a + 1`.
pub fn swap_adjacent<T>(v: &mut Vec<T>, a: usize)
    requires
        a + 1 < old(v)@.len(),
    ensures
        final(v)@ == swapped(old(v)@, a as int),
{
    let ghost before = v@;
    let n = v.len();
    assert(a + 1 < n);
    let x = v.remove(a + 1);
    v.insert(a, x);
    assert(v@ =~= swapped(before, a as int));
}

pub open spec fn types_view(v: Seq<TypeDraft>) -> Seq<TypeDraftView> {
    Seq::new(v.len(), |i: int| v[i]@)
}

pub open spec fn properties_view(v: Seq<PropertyDraft>) -> Seq<PropertyDraftView> {
    Seq::new(v.len(), |i: int| v[i]@)
}

/// A form of an identity and a description with the focus on a field.
pub open spec fn is_metadata_form(f: FormState, id: Seq<char>, description: Seq<char>, selected: usize) -> bool {
    &&& f.fields_view() == seq![id, description]
    &&& f.selected == selected
    &&& f.requirement@ == RequirementView::Required
    &&& f.multiplicity == Multiplicity::Single
}

/// A property's form, with the focus on its key.
pub open spec fn is_property_form_of(f: FormState, p: PropertyDraftView) -> bool {
    &&& f.fields_view() == (match p.requirement {
        RequirementView::Conditional { id, rationale } => seq![p.key, p.description, id, rationale],
        _ => seq![p.key, p.description, Seq::<char>::empty(), Seq::<char>::empty()],
    })
    &&& f.selected == 0
    &&& f.requirement@ == p.requirement
    &&& f.multiplicity == p.multiplicity
}

impl ConfigState {
    /// The taxonomy draft's types.
    pub open spec fn draft_types(self) -> Seq<TypeDraftView> {
        self.editor->Some_0@.types
    }

    /// The draft after its types changed, all else equal.
    pub open spec fn with_types(self, next: Self, types: Seq<TypeDraftView>) -> bool {
        next.editor matches Some(e) && e@ == TaxonomyDraftView { types, ..self.editor->Some_0@ }
    }

    /// The draft after the properties of type `index` changed, all else equal.
    pub open spec fn with_properties(self, next: Self, index: usize, ps: Seq<PropertyDraftView>) -> bool {
        let types = self.draft_types();
        self.with_types(next, types.update(index as int, TypeDraftView { properties: ps, ..types[index as int] }))
    }

    /// A key press in the taxonomy editor, whose rows are the taxonomy's
    /// metadata (row 0) and its types: Alt+Up and Alt+Down move the type
    /// under the cursor; Up and Down move the cursor; Enter opens the row;
    /// n adds a type; d removes the type under the cursor; Ctrl+S stages the
    /// taxonomy; Esc drops the draft.
    pub open spec fn taxonomy_editor_key_result(self, next: Self, key: KeyPress, mode: EditorMode, out: ConfigAction) -> bool {
        let types = self.draft_types();
        let c = self.child_selected;
        let count = types.len() + 1;
        if key.code == KeyCode::Up && key.alt && c > 1 {
            &&& out == ConfigAction::Continue
            &&& next == (ConfigState { editor: next.editor, child_selected: (c - 1) as usize, ..self })
            &&& self.with_types(next, swapped(types, c - 2))
        } else if key.code == KeyCode::Down && key.alt && c > 0 && c < count - 1 {
            &&& out == ConfigAction::Continue
            &&& next == (ConfigState { editor: next.editor, child_selected: (c + 1) as usize, ..self })
            &&& self.with_types(next, swapped(types, c - 1))
        } else if key.code == KeyCode::Up {
            out == ConfigAction::Continue && next == (ConfigState {
                child_selected: if c > 0 { (c - 1) as usize } else { 0 },
                ..self
            })
        } else if key.code == KeyCode::Down {
            out == ConfigAction::Continue && next == (ConfigState {
                child_selected: if c + 1 <= count - 1 { (c + 1) as usize } else { (count - 1) as usize },
                ..self
            })
        } else if key.code == KeyCode::Enter && c == 0 {
            &&& out == ConfigAction::Continue
            &&& next == (ConfigState { form: next.form, screen: Screen::Form(FormKind::TaxonomyMetadata), ..self })
            &&& next.form matches Some(f) && is_metadata_form(
                f,
                self.editor->Some_0.id@,
                self.editor->Some_0.description@,
                if mode == EditorMode::Edit { 1 } else { 0 },
            )
        } else if key.code == KeyCode::Enter {
            out == ConfigAction::Continue && next == (ConfigState {
                child_selected: 0,
                screen: Screen::TypeEditor((c - 1) as usize),
                ..self
            })
        } else if key.code == KeyCode::Char('n') {
            &&& out == ConfigAction::Continue
            &&& next == (ConfigState { form: next.form, screen: Screen::Form(FormKind::NewType), ..self })
            &&& next.form matches Some(f) && is_metadata_form(f, Seq::empty(), Seq::empty(), 0)
        } else if key.code == KeyCode::Char('d') && c > 0 {
            &&& out == ConfigAction::Continue
            &&& next == (ConfigState { editor: next.editor, child_selected: (c - 1) as usize, ..self })
            &&& self.with_types(next, types.remove(c - 1))
        } else if key.code == KeyCode::Char('s') && key.ctrl {
            out == ConfigAction::StageTaxonomy(mode) && next == self
        } else if key.code == KeyCode::Esc {
            out == ConfigAction::Continue && next == (ConfigState { editor: None, screen: Screen::Home, ..self })
        } else {
            out == ConfigAction::Continue && next == self
        }
    }

    pub fn taxonomy_editor_key(&mut self, key: KeyPress, mode: EditorMode) -> (out: ConfigAction)
        requires
            old(self).wf(),
            old(self).screen == Screen::TaxonomyEditor(mode),
        ensures
            final(self).wf(),
            old(self).taxonomy_editor_key_result(*final(self), key, mode, out),
    {
        let mut editor = match self.editor.take() {
            Some(e) => e,
            None => {
                return ConfigAction::Continue;
            },
        };
        let ghost before = editor@;
        let c = self.child_selected;
        let last = editor.types.len();
        let mut out = ConfigAction::Continue;
        if key.code == KeyCode::Up && key.alt && c > 1 {
            swap_adjacent(&mut editor.types, c - 2);
            assert(types_view(editor.types@) =~= swapped(before.types, c - 2));
            self.child_selected = c - 1;
        } else if key.code == KeyCode::Down && key.alt && c > 0 && c < last {
            swap_adjacent(&mut editor.types, c - 1);
            assert(types_view(editor.types@) =~= swapped(before.types, c - 1));
            self.child_selected = c + 1;
        } else if key.code == KeyCode::Up {
            self.child_selected = if c > 0 {
                c - 1
            } else {
                0
            };
        } else if key.code == KeyCode::Down {
            self.child_selected = if c < last {
                c + 1
            } else {
                last
            };
        } else if key.code == KeyCode::Enter && c == 0 {
            let mut form = FormState::metadata(editor.id.clone(), editor.description.clone());
            if mode == EditorMode::Edit {
                form.selected = 1;
            }
            self.form = Some(form);
            self.screen = Screen::Form(FormKind::TaxonomyMetadata);
        } else if key.code == KeyCode::Enter {
            self.child_selected = 0;
            self.screen = Screen::TypeEditor(c - 1);
        } else if key.code == KeyCode::Char('n') {
            self.form = Some(FormState::metadata(String::new(), String::new()));
            self.screen = Screen::Form(FormKind::NewType);
        } else if key.code == KeyCode::Char('d') && c > 0 {
            editor.types.remove(c - 1);
            assert(types_view(editor.types@) =~= before.types.remove(c - 1));
            self.child_selected = c - 1;
        } else if key.code == KeyCode::Char('s') && key.ctrl {
            out = ConfigAction::StageTaxonomy(mode);
        } else if key.code == KeyCode::Esc {
            self.screen = Screen::Home;
            return ConfigAction::Continue;
        }
        self.editor = Some(editor);
        out
    }

    /// A key press in a type's editor, whose rows are the type's metadata
    /// (row 0) and its properties: as in the taxonomy editor, with Esc back
    /// to the taxonomy editor on this type's row.
    pub open spec fn type_editor_key_result(self, next: Self, key: KeyPress, index: usize, out: ConfigAction) -> bool {
        let types = self.draft_types();
        let props = types[index as int].properties;
        let c = self.child_selected;
        let count = props.len() + 1;
        if key.code == KeyCode::Up && key.alt && c > 1 {
            &&& out == ConfigAction::Continue
            &&& next == (ConfigState { editor: next.editor, child_selected: (c - 1) as usize, ..self })
            &&& self.with_properties(next, index, swapped(props, c - 2))
        } else if key.code == KeyCode::Down && key.alt && c > 0 && c < count - 1 {
            &&& out == ConfigAction::Continue
            &&& next == (ConfigState { editor: next.editor, child_selected: (c + 1) as usize, ..self })
            &&& self.with_properties(next, index, swapped(props, c - 1))
        } else if key.code == KeyCode::Up {
            out == ConfigAction::Continue && next == (ConfigState {
                child_selected: if c > 0 { (c - 1) as usize } else { 0 },
                ..self
            })
        } else if key.code == KeyCode::Down {
            out == ConfigAction::Continue && next == (ConfigState {
                child_selected: if c + 1 <= count - 1 { (c + 1) as usize } else { (count - 1) as usize },
                ..self
            })
        } else if key.code == KeyCode::Enter && c == 0 {
            &&& out == ConfigAction::Continue
            &&& next == (ConfigState { form: next.form, screen: Screen::Form(FormKind::EditType(index)), ..self })
            &&& next.form matches Some(f) && is_metadata_form(f, types[index as int].id, types[index as int].description, 0)
        } else if key.code == KeyCode::Enter {
            &&& out == ConfigAction::Continue
            &&& next == (ConfigState {
                form: next.form,
                screen: Screen::Form(FormKind::EditProperty(index, (c - 1) as usize)),
                ..self
            })
            &&& next.form matches Some(f) && is_property_form_of(f, props[c - 1])
        } else if key.code == KeyCode::Char('n') {
            &&& out == ConfigAction::Continue
            &&& next == (ConfigState { form: next.form, screen: Screen::Form(FormKind::NewProperty(index)), ..self })
            &&& next.form matches Some(f) && is_property_form_of(f, PropertyDraftView {
                key: Seq::empty(),
                description: Seq::empty(),
                requirement: RequirementView::Required,
                multiplicity: Multiplicity::Single,
            })
        } else if key.code == KeyCode::Char('d') && c > 0 {
            &&& out == ConfigAction::Continue
            &&& next == (ConfigState { editor: next.editor, child_selected: (c - 1) as usize, ..self })
            &&& self.with_properties(next, index, props.remove(c - 1))
        } else if key.code == KeyCode::Esc {
            out == ConfigAction::Continue && next == (ConfigState {
                child_selected: (index + 1) as usize,
                screen: Screen::TaxonomyEditor(self.editor_mode),
                ..self
            })
        } else {
            out == ConfigAction::Continue && next == self
        }
    }

    pub fn type_editor_key(&mut self, key: KeyPress, index: usize) -> (out: ConfigAction)
        requires
            old(self).wf(),
            old(self).screen == Screen::TypeEditor(index),
        ensures
            final(self).wf(),
            old(self).type_editor_key_result(*final(self), key, index, out),
    {
        let c = self.child_selected;
        let (last, n_types) = match &self.editor {
            Some(e) => (e.types[index].properties.len(), e.types.len()),
            None => {
                return ConfigAction::Continue;
            },
        };
        let reorder_up = key.code == KeyCode::Up && key.alt && c > 1;
        let reorder_down = key.code == KeyCode::Down && key.alt && c > 0 && c < last;
        let remove = !reorder_up && !reorder_down && key.code != KeyCode::Up && key.code != KeyCode::Down
            && key.code != KeyCode::Enter && key.code != KeyCode::Esc && key.code != KeyCode::Char('n')
            && key.code == KeyCode::Char('d') && c > 0;
        if reorder_up || reorder_down || remove {
            let mut editor = match self.editor.take() {
                Some(e) => e,
                None => {
                    return ConfigAction::Continue;
                },
            };
            let ghost before = editor@;
            let mut kind = editor.types.remove(index);
            let ghost kind_before = kind@;
            assert(kind_before == before.types[index as int]);
            if reorder_up {
                swap_adjacent(&mut kind.properties, c - 2);
                assert(properties_view(kind.properties@) =~= swapped(kind_before.properties, c - 2));
                self.child_selected = c - 1;
            } else if reorder_down {
                swap_adjacent(&mut kind.properties, c - 1);
                assert(properties_view(kind.properties@) =~= swapped(kind_before.properties, c - 1));
                self.child_selected = c + 1;
            } else {
                kind.properties.remove(c - 1);
                assert(properties_view(kind.properties@) =~= kind_before.properties.remove(c - 1));
                self.child_selected = c - 1;
            }
            let ghost kind_after = kind@;
            editor.types.insert(index, kind);
            assert(types_view(editor.types@) =~= before.types.update(index as int, kind_after));
            self.editor = Some(editor);
            return ConfigAction::Continue;
        }
        if key.code == KeyCode::Up {
            self.child_selected = if c > 0 {
                c - 1
            } else {
                0
            };
        } else if key.code == KeyCode::Down {
            self.child_selected = if c < last {
                c + 1
            } else {
                last
            };
        } else if key.code == KeyCode::Enter && c == 0 {
            let form = match &self.editor {
                Some(e) => FormState::metadata(e.types[index].id.clone(), e.types[index].description.clone()),
                None => {
                    return ConfigAction::Continue;
                },
            };
            self.form = Some(form);
            self.screen = Screen::Form(FormKind::EditType(index));
        } else if key.code == KeyCode::Enter {
            let form = match &self.editor {
                Some(e) => FormState::property(e.types[index].properties[c - 1].copy()),
                None => {
                    return ConfigAction::Continue;
                },
            };
            self.form = Some(form);
            self.screen = Screen::Form(FormKind::EditProperty(index, c - 1));
        } else if key.code == KeyCode::Char('n') {
            self.form = Some(FormState::property(PropertyDraft::empty()));
            self.screen = Screen::Form(FormKind::NewProperty(index));
        } else if key.code == KeyCode::Esc {
            assert(index < n_types);
            self.child_selected = index + 1;
            self.screen = Screen::TaxonomyEditor(self.editor_mode);
        }
        ConfigAction::Continue
    }
}

/// A form with the given fields, focus, requirement and multiplicity.
pub open spec fn form_is(
    f: FormState,
    fields: Seq<Seq<char>>,
    selected: usize,
    requirement: RequirementView,
    multiplicity: Multiplicity,
) -> bool {
    &&& f.fields_view() == fields
    &&& f.fields@.len() == fields.len()
    &&& f.selected == selected
    &&& f.requirement@ == requirement
    &&& f.multiplicity == multiplicity
}

/// The other multiplicity.
pub open spec fn toggled(m: Multiplicity) -> Multiplicity {
    match m {
        Multiplicity::Single => Multiplicity::Multiple,
        Multiplicity::Multiple => Multiplicity::Single,
    }
}

impl ConfigState {
    /// The commit type a type form describes: its identity and description,
    /// schema version one, and (when it edits a type) that type's properties.
    pub open spec fn type_candidate_spec(self, kind: FormKind) -> TypeDraftView {
        let f = self.form->Some_0.fields_view();
        TypeDraftView {
            id: f[0],
            description: f[1],
            schema_version: 1,
            properties: match kind {
                FormKind::EditType(i) => self.draft_types()[i as int].properties,
                _ => Seq::empty(),
            },
        }
    }

    /// The property a property form describes: a conditional requirement
    /// takes its condition's identity and rationale from the form's third and
    /// fourth fields.
    pub open spec fn property_candidate_spec(self) -> PropertyDraftView {
        let form = self.form->Some_0;
        let f = form.fields_view();
        PropertyDraftView {
            key: f[0],
            description: f[1],
            requirement: if form.requirement@ is Conditional {
                RequirementView::Conditional { id: f[2], rationale: f[3] }
            } else {
                form.requirement@
            },
            multiplicity: form.multiplicity,
        }
    }

    /// The commit type a type form describes.
    pub fn type_candidate(&self, kind: FormKind) -> (t: TypeDraft)
        requires
            self.wf(),
            self.screen == Screen::Form(kind),
            kind is NewType || kind is EditType,
        ensures
            t@ == self.type_candidate_spec(kind),
    {
        let form = match &self.form {
            Some(f) => f,
            None => {
                return TypeDraft { id: String::new(), description: String::new(), schema_version: 1, properties: Vec::new() };
            },
        };
        let properties = match kind {
            FormKind::EditType(i) => match &self.editor {
                Some(e) => copy_properties(&e.types[i].properties),
                None => Vec::new(),
            },
            _ => Vec::new(),
        };
        let t = TypeDraft {
            id: form.fields[0].clone(),
            description: form.fields[1].clone(),
            schema_version: 1,
            properties,
        };
        assert(t@.properties =~= self.type_candidate_spec(kind).properties);
        t
    }

    /// The property a property form describes.
    pub fn property_candidate(&self) -> (p: PropertyDraft)
        requires
            self.wf(),
            self.screen matches Screen::Form(kind) && is_property_form(kind),
        ensures
            p@ == self.property_candidate_spec(),
    {
        let form = match &self.form {
            Some(f) => f,
            None => {
                return PropertyDraft::empty();
            },
        };
        let requirement = match &form.requirement {
            Requirement::Conditional(_) => Requirement::Conditional(
                Condition { id: form.fields[2].clone(), rationale: form.fields[3].clone() },
            ),
            other => copy_requirement(other),
        };
        PropertyDraft {
            key: form.fields[0].clone(),
            description: form.fields[1].clone(),
            requirement,
            multiplicity: form.multiplicity,
        }
    }

    /// Ctrl+S on a form: the taxonomy's metadata is checked here (both fields
    /// must hold more than white space) and written to the draft; a type or
    /// a property goes to the commit rules first.
    pub open spec fn submitted(self, next: Self, kind: FormKind, out: ConfigAction) -> bool {
        let f = self.form->Some_0.fields_view();
        if kind == FormKind::TaxonomyMetadata {
            &&& out == ConfigAction::Continue
            &&& if trim_spec(f[0]).len() == 0 || trim_spec(f[1]).len() == 0 {
                self.noticed(next, true, "Taxonomy id and description are required."@)
            } else {
                &&& next == (ConfigState {
                    editor: next.editor,
                    form: None,
                    screen: parent_screen_spec(kind, self.editor_mode),
                    ..self
                })
                &&& next.editor matches Some(e) && e@ == TaxonomyDraftView { id: f[0], description: f[1], ..self.editor->Some_0@ }
            }
        } else {
            out == ConfigAction::CheckForm(kind) && next == self
        }
    }

    /// The form changed, all else equal.
    pub open spec fn form_changed(
        self,
        next: Self,
        out: ConfigAction,
        fields: Seq<Seq<char>>,
        selected: usize,
        requirement: RequirementView,
        multiplicity: Multiplicity,
    ) -> bool {
        &&& out == ConfigAction::Continue
        &&& next == (ConfigState { form: next.form, ..self })
        &&& next.form matches Some(f2) && form_is(f2, fields, selected, requirement, multiplicity)
    }

    /// A key press on a form: Tab and Shift+Tab move between fields; on a
    /// property's requirement Left and Right step through the requirements,
    /// on its multiplicity they switch it; Ctrl+S submits; Esc drops the
    /// form; Backspace, Alt+Enter and typed characters edit the focused
    /// field, except a revised taxonomy's identity.
    pub open spec fn form_key_result(self, next: Self, key: KeyPress, kind: FormKind, out: ConfigAction) -> bool {
        let f = self.form->Some_0;
        let fields = f.fields_view();
        let sel = f.selected;
        let n = fields.len();
        let locked = kind == FormKind::TaxonomyMetadata && self.editor_mode == EditorMode::Edit && sel == 0;
        let prop = is_property_form(kind);
        if key.code == KeyCode::Tab {
            self.form_changed(next, out, fields, ((sel + 1) % (n as int)) as usize, f.requirement@, f.multiplicity)
        } else if key.code == KeyCode::BackTab {
            self.form_changed(next, out, fields, if sel == 0 { (n - 1) as usize } else { (sel - 1) as usize }, f.requirement@, f.multiplicity)
        } else if key.code == KeyCode::Left && prop && sel == 2 {
            self.form_changed(next, out, fields, sel, previous_requirement_spec(f.requirement@), f.multiplicity)
        } else if key.code == KeyCode::Right && prop && sel == 2 {
            self.form_changed(next, out, fields, sel, next_requirement_spec(f.requirement@), f.multiplicity)
        } else if (key.code == KeyCode::Left || key.code == KeyCode::Right) && prop && sel == 3 {
            self.form_changed(next, out, fields, sel, f.requirement@, toggled(f.multiplicity))
        } else if key.code == KeyCode::Char('s') && key.ctrl {
            self.submitted(next, kind, out)
        } else if key.code == KeyCode::Esc {
            out == ConfigAction::Continue && next == (ConfigState {
                form: None,
                screen: parent_screen_spec(kind, self.editor_mode),
                ..self
            })
        } else if key.code == KeyCode::Backspace && !locked {
            self.form_changed(next, out, 
                fields.update(sel as int, if fields[sel as int].len() > 0 { fields[sel as int].drop_last() } else { fields[sel as int] }),
                sel,
                f.requirement@,
                f.multiplicity,
            )
        } else if key.code == KeyCode::Enter && key.alt {
            self.form_changed(next, out, fields.update(sel as int, fields[sel as int].push('\n')), sel, f.requirement@, f.multiplicity)
        } else if key.code is Char && types_text(key) && !locked {
            self.form_changed(next, out, fields.update(sel as int, fields[sel as int].push(key.code->Char_0)), sel, f.requirement@, f.multiplicity)
        } else {
            out == ConfigAction::Continue && next == self
        }
    }

    /// Ctrl+S on a form.
    fn submit_form(&mut self, kind: FormKind) -> (out: ConfigAction)
        requires
            old(self).wf(),
            old(self).screen == Screen::Form(kind),
        ensures
            final(self).wf(),
            old(self).submitted(*final(self), kind, out),
    {
        if kind != FormKind::TaxonomyMetadata {
            return ConfigAction::CheckForm(kind);
        }
        let (id, description) = match &self.form {
            Some(f) => (f.fields[0].clone(), f.fields[1].clone()),
            None => {
                return ConfigAction::Continue;
            },
        };
        if trim(chars_of(id.as_str()).as_slice()).len() == 0 || trim(chars_of(description.as_str()).as_slice()).len() == 0 {
            self.status = error_notice("Taxonomy id and description are required.");
            return ConfigAction::Continue;
        }
        let mut editor = match self.editor.take() {
            Some(e) => e,
            None => {
                return ConfigAction::Continue;
            },
        };
        editor.id = id;
        editor.description = description;
        self.editor = Some(editor);
        self.form = None;
        self.screen = parent_screen(kind, self.editor_mode);
        ConfigAction::Continue
    }

    pub fn form_key(&mut self, key: KeyPress, kind: FormKind) -> (out: ConfigAction)
        requires
            old(self).wf(),
            old(self).screen == Screen::Form(kind),
        ensures
            final(self).wf(),
            old(self).form_key_result(*final(self), key, kind, out),
    {
        if key.code == KeyCode::Char('s') && key.ctrl {
            return self.submit_form(kind);
        }
        if key.code == KeyCode::Esc {
            self.form = None;
            self.screen = parent_screen(kind, self.editor_mode);
            return ConfigAction::Continue;
        }
        let mut form = match self.form.take() {
            Some(f) => f,
            None => {
                return ConfigAction::Continue;
            },
        };
        let ghost before = form.fields_view();
        let sel = form.selected;
        let n = form.fields.len();
        let prop = match kind {
            FormKind::NewProperty(_) | FormKind::EditProperty(_, _) => true,
            _ => false,
        };
        let locked = kind == FormKind::TaxonomyMetadata && self.editor_mode == EditorMode::Edit && sel == 0;
        if key.code == KeyCode::Tab {
            form.selected = (sel + 1) % n;
        } else if key.code == KeyCode::BackTab {
            form.selected = if sel == 0 {
                n - 1
            } else {
                sel - 1
            };
        } else if key.code == KeyCode::Left && prop && sel == 2 {
            form.requirement = previous_requirement(&form.requirement);
        } else if key.code == KeyCode::Right && prop && sel == 2 {
            form.requirement = next_requirement(&form.requirement);
        } else if (key.code == KeyCode::Left || key.code == KeyCode::Right) && prop && sel == 3 {
            form.multiplicity = match form.multiplicity {
                Multiplicity::Single => Multiplicity::Multiple,
                Multiplicity::Multiple => Multiplicity::Single,
            };
        } else if key.code == KeyCode::Backspace && !locked {
            let mut value = form.fields.remove(sel);
            pop_char(&mut value);
            form.fields.insert(sel, value);
            assert(form.fields_view() =~= before.update(
                sel as int,
                if before[sel as int].len() > 0 { before[sel as int].drop_last() } else { before[sel as int] },
            ));
        } else if key.code == KeyCode::Enter && key.alt {
            let mut value = form.fields.remove(sel);
            push_char(&mut value, '\n');
            form.fields.insert(sel, value);
            assert(form.fields_view() =~= before.update(sel as int, before[sel as int].push('\n')));
        } else {
            match key.code {
                KeyCode::Char(c) => if !key.ctrl && !key.alt && !locked {
                    let mut value = form.fields.remove(sel);
                    push_char(&mut value, c);
                    form.fields.insert(sel, value);
                    assert(form.fields_view() =~= before.update(sel as int, before[sel as int].push(c)));
                },
                _ => {},
            }
        }
        self.form = Some(form);
        ConfigAction::Continue
    }

    /// The commit rules' verdict on the form's type or property: accepted,
    /// it goes into the draft (a new one at the end, an edited one in its
    /// place) and the form closes; refused, the form stays with the error.
    pub open spec fn form_checked_result(self, next: Self, kind: FormKind, result: Result<(), String>) -> bool {
        match result {
            Err(e) => self.noticed(next, true, e@),
            Ok(()) => {
                let types = self.draft_types();
                let new_types = match kind {
                    FormKind::NewType => types.push(self.type_candidate_spec(kind)),
                    FormKind::EditType(i) => types.update(i as int, self.type_candidate_spec(kind)),
                    FormKind::NewProperty(i) => types.update(
                        i as int,
                        TypeDraftView { properties: types[i as int].properties.push(self.property_candidate_spec()), ..types[i as int] },
                    ),
                    FormKind::EditProperty(i, p) => types.update(
                        i as int,
                        TypeDraftView {
                            properties: types[i as int].properties.update(p as int, self.property_candidate_spec()),
                            ..types[i as int]
                        },
                    ),
                    FormKind::TaxonomyMetadata => types,
                };
                &&& next == (ConfigState {
                    editor: next.editor,
                    form: None,
                    screen: parent_screen_spec(kind, self.editor_mode),
                    ..self
                })
                &&& self.with_types(next, new_types)
            },
        }
    }

    /// Hands back the commit rules' verdict on the form's candidate.
    pub fn form_checked(&mut self, kind: FormKind, result: Result<(), String>)
        requires
            old(self).wf(),
            old(self).screen == Screen::Form(kind),
            kind != FormKind::TaxonomyMetadata,
        ensures
            final(self).wf(),
            old(self).form_checked_result(*final(self), kind, result),
    {
        match result {
            Err(e) => {
                self.status = Some(Notice::Error(e));
                return ;
            },
            Ok(()) => {},
        }
        let ghost types = self.draft_types();
        if self.editor.is_none() {
            return ;
        }
        match kind {
            FormKind::NewType | FormKind::EditType(_) => {
                let candidate = self.type_candidate(kind);
                let ghost cv = candidate@;
                let mut editor = match self.editor.take() {
                    Some(e) => e,
                    None => {
                        return ;
                    },
                };
                match kind {
                    FormKind::EditType(i) => {
                        editor.types.remove(i);
                        editor.types.insert(i, candidate);
                        assert(types_view(editor.types@) =~= types.update(i as int, cv));
                        assert(editor.types@[i as int]@ == cv);
                        assert(editor.types@[i as int].properties@.len() == cv.properties.len());
                    },
                    _ => {
                        editor.types.push(candidate);
                        assert(types_view(editor.types@) =~= types.push(cv));
                    },
                }
                self.editor = Some(editor);
            },
            FormKind::NewProperty(i) | FormKind::EditProperty(i, _) => {
                let candidate = self.property_candidate();
                let ghost cv = candidate@;
                let mut editor = match self.editor.take() {
                    Some(e) => e,
                    None => {
                        return ;
                    },
                };
                let mut t = editor.types.remove(i);
                let ghost tv = t@;
                assert(tv == types[i as int]);
                match kind {
                    FormKind::EditProperty(_, p) => {
                        t.properties.remove(p);
                        t.properties.insert(p, candidate);
                        assert(properties_view(t.properties@) =~= tv.properties.update(p as int, cv));
                    },
                    _ => {
                        t.properties.push(candidate);
                        assert(properties_view(t.properties@) =~= tv.properties.push(cv));
                    },
                }
                let ghost t2 = t@;
                assert(t.properties@.len() == t2.properties.len());
                editor.types.insert(i, t);
                assert(editor.types@[i as int].properties@.len() >= tv.properties.len());
                assert(types_view(editor.types@) =~= types.update(i as int, t2));
                self.editor = Some(editor);
            },
            FormKind::TaxonomyMetadata => {},
        }
        self.form = None;
        self.screen = parent_screen(kind, self.editor_mode);
    }
}

/// The number of commit types of the selected Library taxonomy.
pub open spec fn selected_type_count(facts: ConfigFacts, browse: usize) -> nat {
    match facts.entry(browse) {
        Some(e) => e.type_count as nat,
        None => 0,
    }
}

/// `x + 1`, but no more than `count - 1` (and zero for an empty list).
pub open spec fn step_down(x: usize, count: nat) -> usize {
    let last: int = if count > 0 { count - 1 } else { 0 };
    if x + 1 <= last { (x + 1) as usize } else { last as usize }
}

fn step_down_exec(x: usize, count: usize) -> (r: usize)
    ensures
        r == step_down(x, count as nat),
{
    let last = if count > 0 {
        count - 1
    } else {
        0
    };
    if x < last {
        x + 1
    } else {
        last
    }
}

impl ConfigState {
    /// A key press on the Project or Library screen: Tab switches screens;
    /// Up and Down move through the project's sections, the Library's
    /// taxonomies or the selected taxonomy's types; Left and Right move the
    /// Library's focus; the page keys scroll the details; Enter configures
    /// the project, i initializes it; n, e, f and d create, edit, fork and
    /// delete Library taxonomies; Ctrl+S reviews the shown scope; Esc and q
    /// leave, asking first when anything is unapplied.
    pub open spec fn home_key_result(self, next: Self, key: KeyPress, facts: ConfigFacts, out: ConfigAction) -> bool {
        let project = self.category == Category::Project;
        let library = self.category == Category::Library;
        let vertical = key.code == KeyCode::Up || key.code == KeyCode::Down;
        let up = key.code == KeyCode::Up;
        let plain = !key.ctrl && !key.alt && !key.shift;
        let same = out == ConfigAction::Continue && next == self;
        if key.code == KeyCode::Tab || key.code == KeyCode::BackTab {
            out == ConfigAction::Continue && next == (ConfigState { category: self.category.next_spec(), status: None, ..self })
        } else if vertical && project {
            let i = self.project_section.index_spec();
            let j: int = if up { if i > 0 { i - 1 } else { 0 } } else { if i + 1 <= 2 { i + 1 } else { 2 } };
            out == ConfigAction::Continue && next == (ConfigState {
                project_section: project_sections()[j],
                project_scroll: 0,
                ..self
            })
        } else if vertical && self.library_focus == LibraryFocus::Taxonomies {
            &&& out == ConfigAction::Continue
            &&& next == (ConfigState {
                browse_selected: if up {
                    if self.browse_selected > 0 { (self.browse_selected - 1) as usize } else { 0 }
                } else {
                    step_down(self.browse_selected, facts.catalog_len())
                },
                type_selected: 0,
                property_scroll: 0,
                status: None,
                ..self
            })
        } else if vertical {
            &&& out == ConfigAction::Continue
            &&& next == (ConfigState {
                type_selected: if up {
                    if self.type_selected > 0 { (self.type_selected - 1) as usize } else { 0 }
                } else {
                    step_down(self.type_selected, selected_type_count(facts, self.browse_selected))
                },
                property_scroll: 0,
                ..self
            })
        } else if key.code == KeyCode::Right && library {
            out == ConfigAction::Continue && next == (ConfigState { library_focus: LibraryFocus::Types, ..self })
        } else if key.code == KeyCode::Left && library {
            out == ConfigAction::Continue && next == (ConfigState { library_focus: LibraryFocus::Taxonomies, ..self })
        } else if key.code == KeyCode::PageUp && project {
            out == ConfigAction::Continue && next == (ConfigState { project_scroll: sat_sub(self.project_scroll, 8), ..self })
        } else if key.code == KeyCode::PageDown && project {
            out == ConfigAction::Continue && next == (ConfigState { project_scroll: sat_add(self.project_scroll, 8), ..self })
        } else if key.code == KeyCode::PageUp && library {
            out == ConfigAction::Continue && next == (ConfigState { property_scroll: sat_sub(self.property_scroll, 8), ..self })
        } else if key.code == KeyCode::PageDown && library {
            out == ConfigAction::Continue && next == (ConfigState { property_scroll: sat_add(self.property_scroll, 8), ..self })
        } else if key.code == KeyCode::Enter && project {
            if self.project_section == ProjectSection::Commit {
                self.project_requested(next, PendingAction::EditProject, facts, out)
            } else {
                same
            }
        } else if key.code == KeyCode::Char('i') && project {
            self.project_requested(next, PendingAction::InitializeProject, facts, out)
        } else if key.code == KeyCode::Char('n') && library && plain {
            self.global_requested(next, PendingAction::Create, facts, out)
        } else if key.code == KeyCode::Char('e') && library && plain {
            self.global_requested(next, PendingAction::Edit, facts, out)
        } else if key.code == KeyCode::Char('f') && library && plain {
            self.global_requested(next, PendingAction::Fork, facts, out)
        } else if key.code == KeyCode::Char('d') && library && plain {
            self.global_requested(next, PendingAction::Delete, facts, out)
        } else if key.code == KeyCode::Char('s') && key.ctrl {
            if library {
                self.global_requested(next, PendingAction::ReviewGlobal, facts, out)
            } else {
                self.project_requested(next, PendingAction::ReviewProject, facts, out)
            }
        } else if key.code == KeyCode::Esc || key.code == KeyCode::Char('q') {
            if facts.global_dirty || facts.project_dirty {
                out == ConfigAction::Continue && next == (ConfigState { screen: Screen::Leave, ..self })
            } else {
                out == ConfigAction::Quit && next == self
            }
        } else {
            same
        }
    }

    pub fn home_key(&mut self, key: KeyPress, facts: &ConfigFacts) -> (out: ConfigAction)
        requires
            old(self).wf(),
            old(self).screen == Screen::Home,
        ensures
            final(self).wf(),
            old(self).home_key_result(*final(self), key, *facts, out),
    {
        let project = self.category == Category::Project;
        let library = self.category == Category::Library;
        let vertical = key.code == KeyCode::Up || key.code == KeyCode::Down;
        let up = key.code == KeyCode::Up;
        let plain = !key.ctrl && !key.alt && !key.shift;
        if key.code == KeyCode::Tab || key.code == KeyCode::BackTab {
            self.category = self.category.next();
            self.status = None;
        } else if vertical && project {
            let i = self.project_section.index();
            let j = if up {
                if i > 0 {
                    i - 1
                } else {
                    0
                }
            } else {
                if i < 2 {
                    i + 1
                } else {
                    2
                }
            };
            let sections = ProjectSection::all();
            self.project_section = sections[j];
            self.project_scroll = 0;
        } else if vertical && self.library_focus == LibraryFocus::Taxonomies {
            let count: usize = match &facts.catalog {
                Some(v) => v.len(),
                None => 0,
            };
            self.browse_selected = if up {
                if self.browse_selected > 0 {
                    self.browse_selected - 1
                } else {
                    0
                }
            } else {
                step_down_exec(self.browse_selected, count)
            };
            self.type_selected = 0;
            self.property_scroll = 0;
            self.status = None;
        } else if vertical {
            let count: usize = match entry_at(facts, self.browse_selected) {
                Some(e) => e.type_count,
                None => 0,
            };
            self.type_selected = if up {
                if self.type_selected > 0 {
                    self.type_selected - 1
                } else {
                    0
                }
            } else {
                step_down_exec(self.type_selected, count)
            };
            self.property_scroll = 0;
        } else if key.code == KeyCode::Right && library {
            self.library_focus = LibraryFocus::Types;
        } else if key.code == KeyCode::Left && library {
            self.library_focus = LibraryFocus::Taxonomies;
        } else if key.code == KeyCode::PageUp && project {
            self.project_scroll = saturating_sub(self.project_scroll, 8);
        } else if key.code == KeyCode::PageDown && project {
            self.project_scroll = saturating_add(self.project_scroll, 8);
        } else if key.code == KeyCode::PageUp && library {
            self.property_scroll = saturating_sub(self.property_scroll, 8);
        } else if key.code == KeyCode::PageDown && library {
            self.property_scroll = saturating_add(self.property_scroll, 8);
        } else if key.code == KeyCode::Enter && project {
            if self.project_section == ProjectSection::Commit {
                return self.request_project_action(PendingAction::EditProject, facts);
            }
        } else if key.code == KeyCode::Char('i') && project {
            return self.request_project_action(PendingAction::InitializeProject, facts);
        } else if key.code == KeyCode::Char('n') && library && plain {
            return self.request_global_action(PendingAction::Create, facts);
        } else if key.code == KeyCode::Char('e') && library && plain {
            return self.request_global_action(PendingAction::Edit, facts);
        } else if key.code == KeyCode::Char('f') && library && plain {
            return self.request_global_action(PendingAction::Fork, facts);
        } else if key.code == KeyCode::Char('d') && library && plain {
            return self.request_global_action(PendingAction::Delete, facts);
        } else if key.code == KeyCode::Char('s') && key.ctrl {
            if library {
                return self.request_global_action(PendingAction::ReviewGlobal, facts);
            } else {
                return self.request_project_action(PendingAction::ReviewProject, facts);
            }
        } else if key.code == KeyCode::Esc || key.code == KeyCode::Char('q') {
            if facts.global_dirty || facts.project_dirty {
                self.screen = Screen::Leave;
            } else {
                return ConfigAction::Quit;
            }
        }
        ConfigAction::Continue
    }
}

impl ConfigState {
    /// Pasted text: into the focused field of an open form (but a revised
    /// taxonomy's identity), or into the fork's new identity.
    pub open spec fn paste_result(self, next: Self, text: Seq<char>) -> bool {
        match self.form {
            Some(f) => {
                let locked = self.screen == Screen::Form(FormKind::TaxonomyMetadata) && self.editor_mode
                    == EditorMode::Edit && f.selected == 0;
                if !locked && f.selected < f.fields@.len() {
                    &&& next == (ConfigState { form: next.form, ..self })
                    &&& next.form matches Some(f2) && form_is(
                        f2,
                        f.fields_view().update(f.selected as int, f.fields_view()[f.selected as int] + text),
                        f.selected,
                        f.requirement@,
                        f.multiplicity,
                    )
                } else {
                    next == self
                }
            },
            None => if self.screen == Screen::Fork {
                next == (ConfigState { fork_target: next.fork_target, ..self }) && next.fork_target@ == self.fork_target@ + text
            } else {
                next == self
            },
        }
    }

    /// A left click on the Project or Library screen: on a tab it shows that
    /// category; on a project section it opens it; on a Library taxonomy or
    /// type it selects it.
    pub open spec fn click_result(self, next: Self, column: u16, row: u16, facts: ConfigFacts) -> bool {
        let home = self.screen == Screen::Home;
        if home && contains_spec(self.tab_areas[0], column, row) {
            if self.category != Category::Project {
                next == (ConfigState { category: Category::Project, status: None, ..self })
            } else {
                next == self
            }
        } else if home && contains_spec(self.tab_areas[1], column, row) {
            if self.category != Category::Library {
                next == (ConfigState { category: Category::Library, status: None, ..self })
            } else {
                next == self
            }
        } else if home && self.category == Category::Project && contains_spec(self.project_area, column, row) {
            let index = sat_sub(row, self.project_area.y) as int;
            if index < 3 {
                next == (ConfigState { project_section: project_sections()[index], project_scroll: 0, ..self })
            } else {
                next == self
            }
        } else if home && self.category == Category::Library && contains_spec(self.browser_area, column, row) {
            let index = self.browser_offset + sat_sub(row, self.browser_area.y);
            if index < facts.catalog_len() {
                next == (ConfigState {
                    browse_selected: index as usize,
                    type_selected: 0,
                    property_scroll: 0,
                    status: None,
                    ..self
                })
            } else {
                next == self
            }
        } else if home && self.category == Category::Library && contains_spec(self.type_area, column, row) {
            let index = self.type_offset + sat_sub(row, self.type_area.y);
            if index < selected_type_count(facts, self.browse_selected) {
                next == (ConfigState {
                    type_selected: index as usize,
                    library_focus: LibraryFocus::Types,
                    property_scroll: 0,
                    ..self
                })
            } else {
                next == self
            }
        } else {
            next == self
        }
    }

    /// What a key press does on the screen shown.
    pub open spec fn key_result(self, next: Self, key: KeyPress, facts: ConfigFacts, out: ConfigAction) -> bool {
        if self.too_small && !(key.code == KeyCode::Esc || key.code == KeyCode::Char('q')) {
            out == ConfigAction::Continue && next == self
        } else {
            match self.screen {
                Screen::Home => self.home_key_result(next, key, facts, out),
                Screen::Settings(d) => self.settings_key_result(next, key, d, facts, out),
                Screen::TaxonomyEditor(mode) => self.taxonomy_editor_key_result(next, key, mode, out),
                Screen::TypeEditor(index) => self.type_editor_key_result(next, key, index, out),
                Screen::Form(kind) => self.form_key_result(next, key, kind, out),
                Screen::Fork => self.fork_key_result(next, key, facts, out),
                Screen::Delete => self.delete_key_result(next, key, facts, out),
                Screen::Review(d) => self.review_key_result(next, key, d, facts, out),
                Screen::Leave => self.leave_key_result(next, key, out),
                Screen::ScopeChange(action) => self.scope_change_key_result(next, key, action, facts, out),
            }
        }
    }

    /// What an event does.
    pub open spec fn event_result(self, next: Self, event: TerminalEvent, facts: ConfigFacts, out: ConfigAction) -> bool {
        match event {
            TerminalEvent::Paste(text) => out == ConfigAction::Continue && self.paste_result(next, text@),
            TerminalEvent::Click { column, row } => out == ConfigAction::Continue && self.click_result(next, column, row, facts),
            TerminalEvent::Key(key) => self.key_result(next, key, facts, out),
            TerminalEvent::Other => out == ConfigAction::Continue && next == self,
        }
    }

    fn handle_paste(&mut self, text: &str)
        requires
            old(self).wf(),
        ensures
            final(self).wf(),
            old(self).paste_result(*final(self), text@),
    {
        let in_metadata = self.screen == Screen::Form(FormKind::TaxonomyMetadata);
        let editing = self.editor_mode == EditorMode::Edit;
        let mut form = match self.form.take() {
            Some(f) => f,
            None => {
                if self.screen == Screen::Fork {
                    push_text(&mut self.fork_target, text);
                }
                return ;
            },
        };
        let sel = form.selected;
        let locked = in_metadata && editing && sel == 0;
        if !locked && sel < form.fields.len() {
            let ghost before = form.fields_view();
            let mut value = form.fields.remove(sel);
            push_text(&mut value, text);
            form.fields.insert(sel, value);
            assert(form.fields_view() =~= before.update(sel as int, before[sel as int] + text@));
        }
        self.form = Some(form);
    }

    fn handle_click(&mut self, column: u16, row: u16, facts: &ConfigFacts)
        requires
            old(self).wf(),
        ensures
            final(self).wf(),
            old(self).click_result(*final(self), column, row, *facts),
    {
        if self.screen != Screen::Home {
            return ;
        }
        if contains(self.tab_areas[0], column, row) {
            if self.category != Category::Project {
                self.category = Category::Project;
                self.status = None;
            }
        } else if contains(self.tab_areas[1], column, row) {
            if self.category != Category::Library {
                self.category = Category::Library;
                self.status = None;
            }
        } else if self.category == Category::Project && contains(self.project_area, column, row) {
            let index = saturating_sub(row, self.project_area.y);
            if index < 3 {
                let sections = ProjectSection::all();
                self.project_section = sections[index as usize];
                self.project_scroll = 0;
            }
        } else if self.category == Category::Library && contains(self.browser_area, column, row) {
            let index = self.browser_offset + saturating_sub(row, self.browser_area.y) as usize;
            let count: usize = match &facts.catalog {
                Some(v) => v.len(),
                None => 0,
            };
            if index < count {
                self.browse_selected = index;
                self.type_selected = 0;
                self.property_scroll = 0;
                self.status = None;
            }
        } else if self.category == Category::Library && contains(self.type_area, column, row) {
            let index = self.type_offset + saturating_sub(row, self.type_area.y) as usize;
            let count: usize = match entry_at(facts, self.browse_selected) {
                Some(e) => e.type_count,
                None => 0,
            };
            if index < count {
                self.type_selected = index;
                self.library_focus = LibraryFocus::Types;
                self.property_scroll = 0;
            }
        }
    }

    /// Handles one terminal event.
    pub fn handle_event(&mut self, event: TerminalEvent, facts: &ConfigFacts) -> (out: ConfigAction)
        requires
            old(self).wf(),
        ensures
            final(self).wf(),
            old(self).event_result(*final(self), event, *facts, out),
    {
        match event {
            TerminalEvent::Paste(text) => {
                self.handle_paste(text.as_str());
                ConfigAction::Continue
            },
            TerminalEvent::Click { column, row } => {
                self.handle_click(column, row, facts);
                ConfigAction::Continue
            },
            TerminalEvent::Other => ConfigAction::Continue,
            TerminalEvent::Key(key) => {
                if self.too_small && !(key.code == KeyCode::Esc || key.code == KeyCode::Char('q')) {
                    return ConfigAction::Continue;
                }
                match self.screen {
                    Screen::Home => self.home_key(key, facts),
                    Screen::Settings(d) => self.settings_key(key, d, facts),
                    Screen::TaxonomyEditor(mode) => self.taxonomy_editor_key(key, mode),
                    Screen::TypeEditor(index) => self.type_editor_key(key, index),
                    Screen::Form(kind) => self.form_key(key, kind),
                    Screen::Fork => self.fork_key(key, facts),
                    Screen::Delete => self.delete_key(key, facts),
                    Screen::Review(d) => self.review_key(key, d, facts),
                    Screen::Leave => self.leave_key(key),
                    Screen::ScopeChange(action) => self.scope_change_key(key, action, facts),
                }
            },
        }
    }
}

/// Tab then Shift+Tab (or Shift+Tab then Tab) on a form comes back to the
/// field that had the focus.
pub proof fn lemma_form_focus_round_trip(
    s0: ConfigState,
    s1: ConfigState,
    s2: ConfigState,
    kind: FormKind,
    first: KeyPress,
    second: KeyPress,
    out1: ConfigAction,
    out2: ConfigAction,
)
    requires
        s0.wf(),
        s0.screen == Screen::Form(kind),
        (first.code == KeyCode::Tab && second.code == KeyCode::BackTab) || (first.code == KeyCode::BackTab
            && second.code == KeyCode::Tab),
        s0.form_key_result(s1, first, kind, out1),
        s1.form_key_result(s2, second, kind, out2),
    ensures
        s2.form matches Some(f2) && f2.selected == s0.form->Some_0.selected,
        s2.form->Some_0.fields_view() == s0.form->Some_0.fields_view(),
        s2.screen == s0.screen,
{
    let f0 = s0.form->Some_0;
    let n = f0.fields@.len();
    let i = f0.selected as int;
    assert(f0.fields_view().len() == n);
    if first.code == KeyCode::Tab {
        if i + 1 == n {
            assert((i + 1) % (n as int) == 0) by (nonlinear_arith)
                requires
                    i + 1 == n,
                    n > 0,
            ;
        } else {
            assert((i + 1) % (n as int) == i + 1) by (nonlinear_arith)
                requires
                    0 <= i,
                    i + 1 < n,
            ;
        }
    } else {
        if i == 0 {
            assert(((n - 1) + 1) % (n as int) == 0) by (nonlinear_arith)
                requires
                    n > 0,
            ;
        } else {
            assert((i - 1 + 1) % (n as int) == i) by (nonlinear_arith)
                requires
                    0 < i < n,
            ;
        }
    }
}

/// While a published taxonomy is revised, its identity cannot be typed
/// over from its form: no key press but Alt+Enter (which adds a line break
/// to the focused field) and no paste alters the identity field.
pub proof fn lemma_revised_identity_is_locked(s0: ConfigState, s1: ConfigState, key: KeyPress, text: Seq<char>, out: ConfigAction)
    requires
        s0.wf(),
        s0.screen == Screen::Form(FormKind::TaxonomyMetadata),
        s0.editor_mode == EditorMode::Edit,
        s0.form->Some_0.selected == 0,
        !(key.code == KeyCode::Enter && key.alt),
        s0.form_key_result(s1, key, FormKind::TaxonomyMetadata, out) || s0.paste_result(s1, text),
    ensures
        s1.form matches Some(f) ==> f.fields_view()[0] == s0.form->Some_0.fields_view()[0],
{
}

/// Whether an event is a press of the given key.
pub open spec fn pressed(event: TerminalEvent, code: KeyCode) -> bool {
    event matches TerminalEvent::Key(k) && k.code == code
}

/// Changes are written or dropped only on a confirmed choice: whatever the
/// event, the editor asks to apply a scope's changes only from that scope's
/// review (Enter) or from the scope-change dialog (a), and to drop them only
/// from that dialog (d); asking changes nothing else.
pub proof fn lemma_writes_need_confirmation(
    s: ConfigState,
    next: ConfigState,
    event: TerminalEvent,
    facts: ConfigFacts,
    out: ConfigAction,
)
    requires
        s.wf(),
        s.event_result(next, event, facts, out),
    ensures
        out is Apply ==> s.screen == Screen::Review(out->Apply_0) && next == s && pressed(event, KeyCode::Enter),
        out is ApplyThen ==> s.screen == Screen::ScopeChange(out->ApplyThen_1) && out->ApplyThen_0 == s.active_scope
            && next == s && pressed(event, KeyCode::Char('a')),
        out is DiscardThen ==> s.screen == Screen::ScopeChange(out->DiscardThen_1) && out->DiscardThen_0
            == s.active_scope && next == s && pressed(event, KeyCode::Char('d')),
{
}

/// Built-in taxonomies are read-only: on the Library screen, asking to edit
/// or delete a selected built-in taxonomy (e or d) asks nothing of the
/// caller and only says so, whatever is staged.
pub proof fn lemma_built_ins_are_read_only(
    s: ConfigState,
    next: ConfigState,
    key: KeyPress,
    facts: ConfigFacts,
    out: ConfigAction,
)
    requires
        s.wf(),
        s.screen == Screen::Home,
        s.category == Category::Library,
        !s.too_small,
        facts.catalog_error is None,
        facts.entry(s.browse_selected) matches Some(e) && !e.custom,
        key.code == KeyCode::Char('e') || key.code == KeyCode::Char('d'),
        !key.ctrl && !key.alt && !key.shift,
        s.event_result(next, TerminalEvent::Key(key), facts, out),
    ensures
        out == ConfigAction::Continue,
        next == (ConfigState { status: next.status, ..s }),
        notice_is(next.status, true, "Built-in taxonomies are read-only; fork one to customize it."@),
{
}

/// In a project's settings, d goes back to the Library's default and keeps
/// the available list as it is; a goes back to the Library's available list
/// and keeps the default as it is; r does both. The cursor stays put.
pub proof fn lemma_settings_inherit_keys(
    s: ConfigState,
    next: ConfigState,
    key: KeyPress,
    facts: ConfigFacts,
    out: ConfigAction,
)
    requires
        s.wf(),
        s.screen == Screen::Settings(Destination::Project),
        !s.too_small,
        s.settings is Some,
        facts.project_baseline is Some,
        key.code == KeyCode::Char('d') || key.code == KeyCode::Char('a') || key.code == KeyCode::Char('r'),
        s.event_result(next, TerminalEvent::Key(key), facts, out),
    ensures
        out == ConfigAction::Continue,
        next.settings is Some,
        next.settings->Some_0.selected == s.settings->Some_0.selected,
        key.code != KeyCode::Char('a') ==> next.settings->Some_0.inherit_default
            && next.settings->Some_0.default@ == facts.project_baseline->Some_0.0@,
        key.code != KeyCode::Char('d') ==> next.settings->Some_0.inherit_available
            && ids_view(next.settings->Some_0.available@) == ids_view(facts.project_baseline->Some_0.1@),
        key.code == KeyCode::Char('d') ==> next.settings->Some_0.inherit_available == s.settings->Some_0.inherit_available
            && ids_view(next.settings->Some_0.available@) == ids_view(s.settings->Some_0.available@),
        key.code == KeyCode::Char('a') ==> next.settings->Some_0.inherit_default == s.settings->Some_0.inherit_default
            && next.settings->Some_0.default@ == s.settings->Some_0.default@,
{
}

/// With the type list focused in the Library, Down moves to the next commit
/// type of the selected taxonomy, stopping at its last type, and Up to the
/// previous one, stopping at the first; the selected taxonomy stays.
pub proof fn lemma_type_list_steps(
    s: ConfigState,
    next: ConfigState,
    key: KeyPress,
    facts: ConfigFacts,
    out: ConfigAction,
)
    requires
        s.wf(),
        s.screen == Screen::Home,
        !s.too_small,
        s.category == Category::Library,
        s.library_focus == LibraryFocus::Types,
        key.code == KeyCode::Down || key.code == KeyCode::Up,
        facts.catalog matches Some(c) && s.browse_selected < c@.len() && c@[s.browse_selected as int].type_count > 0,
        s.event_result(next, TerminalEvent::Key(key), facts, out),
    ensures
        out == ConfigAction::Continue,
        next.browse_selected == s.browse_selected,
        key.code == KeyCode::Down ==> next.type_selected == (if s.type_selected + 1
            < facts.catalog->Some_0@[s.browse_selected as int].type_count {
            s.type_selected + 1
        } else {
            facts.catalog->Some_0@[s.browse_selected as int].type_count - 1
        }),
        key.code == KeyCode::Up ==> next.type_selected == (if s.type_selected > 0 {
            s.type_selected - 1
        } else {
            0
        }),
{
}

/// The property a property form checks and inserts is the one the form
/// shows: its key and description, its requirement (a condition from the
/// form's condition fields), and the multiplicity the author chose; a new
/// property is added after the type's others.
pub proof fn lemma_new_property_is_the_form(s: ConfigState, next: ConfigState, i: usize)
    requires
        s.wf(),
        s.screen == Screen::Form(FormKind::NewProperty(i)),
        s.form_checked_result(next, FormKind::NewProperty(i), Ok(())),
    ensures
        s.property_candidate_spec().multiplicity == s.form->Some_0.multiplicity,
        s.property_candidate_spec().key == s.form->Some_0.fields@[0]@,
        s.property_candidate_spec().description == s.form->Some_0.fields@[1]@,
        !(s.form->Some_0.requirement is Conditional) ==> s.property_candidate_spec().requirement
            == s.form->Some_0.requirement@,
        s.form->Some_0.requirement is Conditional ==> s.property_candidate_spec().requirement
            == (RequirementView::Conditional { id: s.form->Some_0.fields@[2]@, rationale: s.form->Some_0.fields@[3]@ }),
        next.editor->Some_0@.types[i as int].properties.len() == s.editor->Some_0@.types[i as int].properties.len() + 1,
        next.editor->Some_0@.types[i as int].properties.last().multiplicity == s.form->Some_0.multiplicity,
        next.editor->Some_0@.types[i as int].properties.last().key == s.form->Some_0.fields@[0]@,
{
    let f = s.form->Some_0;
    assert(f.fields_view()[0] == f.fields@[0]@);
    assert(f.fields_view()[1] == f.fields@[1]@);
    assert(f.fields_view()[2] == f.fields@[2]@);
    assert(f.fields_view()[3] == f.fields@[3]@);
}

/// How a project stands: not initialized (or its initialization staged)
/// until its configuration is written; then a missing lock, a lock that no
/// longer matches, staged changes, an unavailable Library source and an
/// available update, checked in that order; in sync only when none holds.
pub proof fn lemma_project_status_cases(f: ProjectFacts)
    ensures
        !f.persisted && !f.configured ==> project_status_spec(f) == "Not initialized"@,
        !f.persisted && f.configured ==> project_status_spec(f) == "Initialization staged"@,
        f.persisted && f.lock_matches is None ==> project_status_spec(f) == "Lock missing"@,
        f.persisted && f.lock_matches == Some(false) ==> project_status_spec(f) == "Stale lock"@,
        f.persisted && f.lock_matches == Some(true) && f.dirty ==> project_status_spec(f) == "Changes staged"@,
        f.persisted && f.lock_matches == Some(true) && !f.dirty && f.source_error ==> project_status_spec(f)
            == "Source unavailable"@,
        f.persisted && f.lock_matches == Some(true) && !f.dirty && !f.source_error && f.update_available
            ==> project_status_spec(f) == "Update available"@,
        f.persisted && f.lock_matches == Some(true) && !f.dirty && !f.source_error && !f.update_available
            ==> project_status_spec(f) == "In sync"@,
        project_status_spec(f) == "Update available"@ ==> project_guidance_spec(project_status_spec(f))
            == "Review and refresh the lock with Ctrl+S."@,
{
    reveal_strlit("Update available");
    reveal_strlit("Not initialized");
    reveal_strlit("Initialization staged");
    reveal_strlit("Changes staged");
    reveal_strlit("Lock missing");
    reveal_strlit("Stale lock");
    assert("Update available"@.len() == 16);
    assert("Not initialized"@.len() == 15);
    assert("Initialization staged"@.len() == 21);
    assert("Changes staged"@.len() == 14);
    assert("Lock missing"@.len() == 12);
    assert("Stale lock"@.len() == 10);
}

/// How a project stands, as the Project screen reads it.
pub struct ProjectFacts {
    /// Whether the project's configuration is written in the repository.
    pub persisted: bool,
    /// Whether the project has a configuration, staged or written.
    pub configured: bool,
    /// Whether the lock is present, and then whether it matches the written
    /// configuration.
    pub lock_matches: Option<bool>,
    pub dirty: bool,
    pub source_error: bool,
    pub update_available: bool,
}

/// How a project stands.
pub open spec fn project_status_spec(f: ProjectFacts) -> Seq<char> {
    if !f.persisted {
        if f.configured {
            "Initialization staged"@
        } else {
            "Not initialized"@
        }
    } else {
        match f.lock_matches {
            None => "Lock missing"@,
            Some(matches) => if !matches {
                "Stale lock"@
            } else if f.dirty {
                "Changes staged"@
            } else if f.source_error {
                "Source unavailable"@
            } else if f.update_available {
                "Update available"@
            } else {
                "In sync"@
            },
        }
    }
}

/// How a project stands: not initialized (or initialization staged) without
/// a written configuration; otherwise by its lock, its staged changes, its
/// Library source and its updates, in that order.
pub fn project_status(f: &ProjectFacts) -> (s: &'static str)
    ensures
        s@ == project_status_spec(*f),
{
    if !f.persisted {
        return if f.configured {
            "Initialization staged"
        } else {
            "Not initialized"
        };
    }
    match f.lock_matches {
        None => "Lock missing",
        Some(matches) => if !matches {
            "Stale lock"
        } else if f.dirty {
            "Changes staged"
        } else if f.source_error {
            "Source unavailable"
        } else if f.update_available {
            "Update available"
        } else {
            "In sync"
        },
    }
}

/// What the Project screen suggests for a status.
pub open spec fn project_guidance_spec(status: Seq<char>) -> Seq<char> {
    if status == "Not initialized"@ {
        "Press i to initialize and review."@
    } else if status == "Initialization staged"@ {
        "Review and apply initialization with Ctrl+S."@
    } else if status == "Changes staged"@ {
        "Review Ctrl+S; commits still use the pinned lock."@
    } else if status == "Lock missing"@ {
        "Run gitserious init to create the missing lock."@
    } else if status == "Stale lock"@ || status == "Update available"@ {
        "Review and refresh the lock with Ctrl+S."@
    } else if status == "Source unavailable"@ {
        "Pinned commits use the lock; restore Library source before refresh."@
    } else {
        ""@
    }
}

fn same_text(a: &str, b: &str) -> (r: bool)
    ensures
        r == (a@ == b@),
{
    chars_eq(chars_of(a).as_slice(), chars_of(b).as_slice())
}

/// What the Project screen suggests for a status.
pub fn project_guidance(status: &str) -> (s: &'static str)
    ensures
        s@ == project_guidance_spec(status@),
{
    if same_text(status, "Not initialized") {
        "Press i to initialize and review."
    } else if same_text(status, "Initialization staged") {
        "Review and apply initialization with Ctrl+S."
    } else if same_text(status, "Changes staged") {
        "Review Ctrl+S; commits still use the pinned lock."
    } else if same_text(status, "Lock missing") {
        "Run gitserious init to create the missing lock."
    } else if same_text(status, "Stale lock") || same_text(status, "Update available") {
        "Review and refresh the lock with Ctrl+S."
    } else if same_text(status, "Source unavailable") {
        "Pinned commits use the lock; restore Library source before refresh."
    } else {
        ""
    }
}

/// Every status but "In sync" comes with a suggestion.
pub proof fn lemma_every_open_status_has_guidance(f: ProjectFacts)
    ensures
        project_status_spec(f) != "In sync"@ ==> project_guidance_spec(project_status_spec(f)).len() > 0,
{
    reveal_strlit("Not initialized");
    reveal_strlit("Initialization staged");
    reveal_strlit("Changes staged");
    reveal_strlit("Lock missing");
    reveal_strlit("Stale lock");
    reveal_strlit("Update available");
    reveal_strlit("Source unavailable");
    reveal_strlit("In sync");
    reveal_strlit("Press i to initialize and review.");
    reveal_strlit("Review and apply initialization with Ctrl+S.");
    reveal_strlit("Review Ctrl+S; commits still use the pinned lock.");
    reveal_strlit("Run gitserious init to create the missing lock.");
    reveal_strlit("Review and refresh the lock with Ctrl+S.");
    reveal_strlit("Pinned commits use the lock; restore Library source before refresh.");
}

/// The width of the left pane of a two-pane screen: 38 percent of the
/// width, at least 26 columns, leaving at least 28 to the right pane.
pub open spec fn pane_left_width_spec(width: u16) -> u16 {
    let share: int = if width * 38 <= u16::MAX { (width * 38) / 100 } else { (u16::MAX / 100) as int };
    let at_least: int = if share >= 26 { share } else { 26 };
    let room: int = if width >= 28 { width - 28 } else { 0 };
    (if at_least <= room { at_least } else { room }) as u16
}

/// The width of the left pane of a two-pane screen.
pub fn pane_left_width(width: u16) -> (w: u16)
    ensures
        w == pane_left_width_spec(width),
{
    let product: u16 = if width <= u16::MAX / 38 {
        width * 38
    } else {
        u16::MAX
    };
    let share = product / 100;
    let at_least = if share >= 26 {
        share
    } else {
        26
    };
    let room = if width >= 28 {
        width - 28
    } else {
        0
    };
    if at_least <= room {
        at_least
    } else {
        room
    }
}

/// The tabs of the two categories along a row: each its label's width with
/// a space on either side, one column apart, from one column in; and the
/// column after the last.
pub open spec fn tab_layout_spec(area: Rect) -> (Seq<Rect>, u16) {
    let right = crate::layout::sat_add(area.x, area.width);
    let x0 = crate::layout::sat_add(area.x, 1);
    let w0 = crate::layout::sat_add(crate::measure::clamp_u16(line_width("Project"@)), 2);
    let t0 = Rect { x: x0, y: area.y, width: if w0 <= sat_sub(right, x0) { w0 } else { sat_sub(right, x0) }, height: 1 };
    let x1 = crate::layout::sat_add(crate::layout::sat_add(x0, w0), 1);
    let w1 = crate::layout::sat_add(crate::measure::clamp_u16(line_width("Library"@)), 2);
    let t1 = Rect { x: x1, y: area.y, width: if w1 <= sat_sub(right, x1) { w1 } else { sat_sub(right, x1) }, height: 1 };
    let x2 = crate::layout::sat_add(crate::layout::sat_add(x1, w1), 1);
    (seq![t0, t1], x2)
}

fn tab_at_column(x: u16, y: u16, label: &str, right: u16) -> (r: (Rect, u16))
    ensures
        r.0 == (Rect {
            x,
            y,
            width: if crate::layout::sat_add(crate::measure::clamp_u16(line_width(label@)), 2) <= sat_sub(right, x) {
                crate::layout::sat_add(crate::measure::clamp_u16(line_width(label@)), 2)
            } else {
                sat_sub(right, x)
            },
            height: 1,
        }),
        r.1 == crate::layout::sat_add(crate::layout::sat_add(x, crate::layout::sat_add(crate::measure::clamp_u16(line_width(label@)), 2)), 1),
{
    let wide = display_width(label);
    let w: u16 = if wide <= u16::MAX as usize {
        wide as u16
    } else {
        u16::MAX
    };
    let width = saturating_add(w, 2);
    let room = saturating_sub(right, x);
    let tab = Rect::new(x, y, if width <= room { width } else { room }, 1);
    (tab, saturating_add(saturating_add(x, width), 1))
}

/// Lays out the category tabs along a row.
pub fn tab_layout(area: Rect) -> (r: ([Rect; 2], u16))
    ensures
        r.0@ == tab_layout_spec(area).0,
        r.1 == tab_layout_spec(area).1,
{
    let right = area.right();
    let x0 = saturating_add(area.x, 1);
    let (t0, x1) = tab_at_column(x0, area.y, Category::Project.label(), right);
    let (t1, x2) = tab_at_column(x1, area.y, Category::Library.label(), right);
    let tabs = [t0, t1];
    assert(tabs@ =~= tab_layout_spec(area).0);
    (tabs, x2)
}

/// Where the unapplied-changes notice goes: flush right on the tab row,
/// when anything is unapplied and it fits after the tabs.
pub fn dirty_indicator(area: Rect, after_tabs: u16, dirty: bool) -> (r: Option<Rect>)
    ensures
        !dirty ==> r is None,
        dirty ==> r == (if crate::layout::sat_add(after_tabs, crate::measure::clamp_u16(line_width("unapplied changes"@)))
            < crate::layout::sat_add(area.x, area.width) {
            Some(Rect {
                x: sat_sub(crate::layout::sat_add(area.x, area.width), crate::measure::clamp_u16(line_width("unapplied changes"@))),
                y: area.y,
                width: crate::measure::clamp_u16(line_width("unapplied changes"@)),
                height: 1,
            })
        } else {
            None
        }),
{
    if !dirty {
        return None;
    }
    let wide = display_width("unapplied changes");
    let width: u16 = if wide <= u16::MAX as usize {
        wide as u16
    } else {
        u16::MAX
    };
    let right = area.right();
    if saturating_add(after_tabs, width) < right {
        Some(Rect::new(saturating_sub(right, width), area.y, width, 1))
    } else {
        None
    }
}


/// A count clamped into a `u16`.
fn count_u16(n: usize) -> (r: u16)
    ensures
        r == clamp_u16(n as nat),
{
    if n <= 65535 {
        n as u16
    } else {
        u16::MAX
    }
}

/// The furthest a pane of `height` rows scrolls through `line_count` rows.
pub open spec fn max_scroll_spec(line_count: nat, height: u16) -> u16 {
    clamp_u16(if line_count >= height { (line_count - height) as nat } else { 0 })
}

fn max_scroll(line_count: usize, height: u16) -> (r: u16)
    ensures
        r == max_scroll_spec(line_count as nat, height),
{
    let h = height as usize;
    count_u16(if line_count >= h { line_count - h } else { 0 })
}

/// The rows of the Library details pane below its summary: the summary takes
/// its wrapped rows and a gap, leaving six rows for the rest; the type list
/// takes half of what remains after three heading rows, at least one row and
/// no more than one per type (one for none).
pub open spec fn library_detail_rows_spec(content_height: u16, summary_lines: nat, type_count: nat) -> (u16, u16) {
    let summary_wanted = crate::layout::sat_add(clamp_u16(summary_lines), 1);
    let summary_room = sat_sub(content_height, 6);
    let summary = if summary_wanted <= summary_room { summary_wanted } else { summary_room };
    let remaining = sat_sub(content_height, crate::layout::sat_add(summary, 3));
    let half = remaining / 2;
    let at_least = if half >= 1 { half } else { 1 };
    let types = clamp_u16(if type_count >= 1 { type_count } else { 1 });
    (summary, if at_least <= types { at_least } else { types })
}

/// The rows of the Library details pane for a taxonomy whose summary wraps
/// to `summary_lines` rows and which has `type_count` commit types:
/// (summary rows, type list rows).
pub fn library_detail_rows(content_height: u16, summary_lines: usize, type_count: usize) -> (r: (u16, u16))
    ensures
        r == library_detail_rows_spec(content_height, summary_lines as nat, type_count as nat),
{
    let summary_wanted = saturating_add(count_u16(summary_lines), 1);
    let summary_room = saturating_sub(content_height, 6);
    let summary = if summary_wanted <= summary_room { summary_wanted } else { summary_room };
    let remaining = saturating_sub(content_height, saturating_add(summary, 3));
    let half = remaining / 2;
    let at_least = if half >= 1 { half } else { 1 };
    let types = count_u16(if type_count >= 1 { type_count } else { 1 });
    (summary, if at_least <= types { at_least } else { types })
}

impl ConfigState {
    /// Records the terminal's size: the editor is too small below the
    /// screens' minimum width or height.
    pub fn record_terminal_size(&mut self, width: u16, height: u16)
        ensures
            *final(self) == (ConfigState {
                too_small: width < MINIMUM_WIDTH || height < MINIMUM_HEIGHT,
                ..*old(self)
            }),
    {
        self.too_small = width < MINIMUM_WIDTH || height < MINIMUM_HEIGHT;
    }

    /// Keeps the Library selection on one of the `n_items` taxonomies shown
    /// (on the first when there are none).
    pub fn clamp_browse_selection(&mut self, n_items: usize)
        ensures
            *final(self) == (ConfigState {
                browse_selected: if n_items == 0 {
                    0
                } else if old(self).browse_selected < n_items {
                    old(self).browse_selected
                } else {
                    (n_items - 1) as usize
                },
                ..*old(self)
            }),
    {
        let last = if n_items > 0 { n_items - 1 } else { 0 };
        if self.browse_selected > last {
            self.browse_selected = last;
        }
    }

    /// Keeps the type selection on one of the selected taxonomy's `n_types`
    /// commit types (on the first when there are none).
    pub fn clamp_type_selection(&mut self, n_types: usize)
        ensures
            *final(self) == (ConfigState {
                type_selected: if n_types == 0 {
                    0
                } else if old(self).type_selected < n_types {
                    old(self).type_selected
                } else {
                    (n_types - 1) as usize
                },
                ..*old(self)
            }),
    {
        let last = if n_types > 0 { n_types - 1 } else { 0 };
        if self.type_selected > last {
            self.type_selected = last;
        }
    }

    /// Keeps the project detail's scroll within its `line_count` rows shown
    /// `height` rows at a time.
    pub fn fit_project_scroll(&mut self, line_count: usize, height: u16)
        ensures
            *final(self) == (ConfigState {
                project_scroll: if old(self).project_scroll <= max_scroll_spec(line_count as nat, height) {
                    old(self).project_scroll
                } else {
                    max_scroll_spec(line_count as nat, height)
                },
                ..*old(self)
            }),
    {
        let most = max_scroll(line_count, height);
        if self.project_scroll > most {
            self.project_scroll = most;
        }
    }

    /// Keeps the type detail's scroll within its `line_count` rows shown
    /// `height` rows at a time.
    pub fn fit_property_scroll(&mut self, line_count: usize, height: u16)
        ensures
            *final(self) == (ConfigState {
                property_scroll: if old(self).property_scroll <= max_scroll_spec(line_count as nat, height) {
                    old(self).property_scroll
                } else {
                    max_scroll_spec(line_count as nat, height)
                },
                ..*old(self)
            }),
    {
        let most = max_scroll(line_count, height);
        if self.property_scroll > most {
            self.property_scroll = most;
        }
    }
}


/// What the Project screen's detail pane reads of the project's
/// configuration, as plain values.
pub struct ProjectDetailFacts {
    /// The effective default and available taxonomies, or why they cannot
    /// be resolved.
    pub resolution: Result<(String, Vec<String>), String>,
    /// The lock's default and taxonomies, when it matches the written
    /// configuration.
    pub pinned: Option<(String, Vec<String>)>,
    /// The lock's default and taxonomies, when there is a lock.
    pub lock: Option<(String, Vec<String>)>,
    /// Whether the written configuration chooses its own default.
    pub override_default: bool,
    /// The project's own default, when it chooses one.
    pub project_default: Option<String>,
    /// The project's own available taxonomies, when it chooses them.
    pub project_available: Option<Vec<String>>,
    /// The Library's default taxonomy.
    pub baseline_default: String,
    /// The Library's available taxonomies.
    pub baseline_available: Vec<String>,
    /// Where the Library's configuration lives, when known.
    pub library_path: Option<String>,
    /// The project's configuration and lock files, when the repository is
    /// known.
    pub files: Option<(String, String)>,
    /// How the project stands.
    pub status: ProjectFacts,
}

/// Texts joined by ", ".
pub open spec fn joined_spec(items: Seq<String>) -> Seq<char>
    decreases items.len(),
{
    if items.len() == 0 {
        Seq::empty()
    } else if items.len() == 1 {
        items[0]@
    } else {
        joined_spec(items.drop_last()) + ", "@ + items.last()@
    }
}

/// Texts joined by ", ".
fn joined(items: &Vec<String>) -> (s: String)
    ensures
        s@ == joined_spec(items@),
{
    let mut s = String::new();
    let mut i: usize = 0;
    while i < items.len()
        invariant
            i <= items.len(),
            s@ == joined_spec(items@.subrange(0, i as int)),
        decreases items.len() - i,
    {
        let ghost before = items@.subrange(0, i as int);
        let ghost after = items@.subrange(0, i + 1);
        assert(after.drop_last() =~= before);
        if i > 0 {
            push_text(&mut s, ", ");
        } else {
            assert(s@ =~= Seq::<char>::empty());
        }
        push_text(&mut s, items[i].as_str());
        proof {
            if i == 0 {
                assert(s@ =~= items@[0]@);
            }
        }
        i = i + 1;
    }
    assert(items@.subrange(0, items.len() as int) =~= items@);
    s
}

/// The effective default taxonomy, or why it cannot be resolved.
pub open spec fn resolved_default_spec(r: Result<(String, Vec<String>), String>) -> Seq<char> {
    match r {
        Ok((d, _)) => d@,
        Err(e) => "Unresolved: "@ + e@,
    }
}

/// The effective available taxonomies, or why they cannot be resolved.
pub open spec fn resolved_available_spec(r: Result<(String, Vec<String>), String>) -> Seq<char> {
    match r {
        Ok((_, a)) => joined_spec(a@),
        Err(e) => "Unresolved: "@ + e@,
    }
}

/// What a lock pins, or the resolution as a preview when no lock matches.
pub open spec fn commit_default_spec(f: ProjectDetailFacts) -> Seq<char> {
    match f.pinned {
        Some((d, _)) => d@,
        None => resolved_default_spec(f.resolution) + " (preview; commit blocked)"@,
    }
}

pub open spec fn commit_available_spec(f: ProjectDetailFacts) -> Seq<char> {
    match f.pinned {
        Some((_, a)) => joined_spec(a@),
        None => resolved_available_spec(f.resolution) + " (preview; commit blocked)"@,
    }
}

/// The Commit section: the taxonomy commits use, where it comes from, the
/// Library baseline, the available taxonomies, the staged resolution when
/// there are staged changes, and the status with its guidance.
pub open spec fn commit_detail_spec(f: ProjectDetailFacts) -> Seq<char> {
    let status = project_status_spec(f.status);
    "Commit taxonomy\n  "@ + commit_default_spec(f) + "\n\nSource\n  "@ + (if f.override_default {
        "Project override"@
    } else {
        "Inherited Library baseline"@
    }) + "\n\nLibrary baseline\n  "@ + f.baseline_default@ + "\n\nAvailable taxonomies\n  "@
        + commit_available_spec(f) + (if f.status.dirty {
        "\n\nStaged resolution\n  Default: "@ + resolved_default_spec(f.resolution) + "\n  Available: "@
            + resolved_available_spec(f.resolution)
    } else {
        Seq::empty()
    }) + "\n\nStatus\n  "@ + status + "\n  "@ + project_guidance_spec(status)
}

/// The Resolution section: the Library baseline, the project's overrides,
/// the current resolution, the pinned lock and the status.
pub open spec fn resolution_detail_spec(f: ProjectDetailFacts) -> Seq<char> {
    "Library baseline\n  "@ + (match f.library_path {
        Some(p) => p@,
        None => "Library config location unavailable"@,
    }) + "\n  Default: "@ + f.baseline_default@ + "\n  Available: "@ + joined_spec(f.baseline_available@)
        + "\n\n"@ + (if f.status.dirty {
        "Project overrides (staged)"@
    } else {
        "Project overrides"@
    }) + "\n  "@ + (match f.files {
        Some((config, _)) => config@,
        None => Seq::empty(),
    }) + "\n  Default: "@ + (match f.project_default {
        Some(d) => d@,
        None => "inherit"@,
    }) + "\n  Available: "@ + (match f.project_available {
        Some(a) => joined_spec(a@),
        None => "inherit"@,
    }) + "\n\nCurrent resolution\n  Default: "@ + resolved_default_spec(f.resolution) + "\n  Available: "@
        + resolved_available_spec(f.resolution) + "\n\nPinned lock\n  Default: "@ + (match f.lock {
        Some((d, _)) => d@,
        None => "Unavailable"@,
    }) + "\n  Available: "@ + (match f.lock {
        Some((_, a)) => joined_spec(a@),
        None => "Unavailable"@,
    }) + "\n\nStatus\n  "@ + project_status_spec(f.status)
}

/// The Files section: the project's configuration and lock files, whether
/// each is present, and the status with its guidance.
pub open spec fn files_detail_spec(f: ProjectDetailFacts) -> Seq<char> {
    let status = project_status_spec(f.status);
    match f.files {
        None => "Repository unavailable."@,
        Some((config, lock)) => "Project configuration\n  "@ + config@ + "\n  "@ + (if f.status.persisted {
            "Present"@
        } else {
            "Absent"@
        }) + "\n\nLock\n  "@ + lock@ + "\n  "@ + (if f.lock is Some {
            "Present"@
        } else {
            "Absent"@
        }) + "\n\nStatus\n  "@ + status + "\n  "@ + project_guidance_spec(status),
    }
}

/// The text of a Project section.
pub open spec fn project_detail_spec(section: ProjectSection, f: ProjectDetailFacts) -> Seq<char> {
    match section {
        ProjectSection::Commit => commit_detail_spec(f),
        ProjectSection::Resolution => resolution_detail_spec(f),
        ProjectSection::Files => files_detail_spec(f),
    }
}

fn resolved_default(r: &Result<(String, Vec<String>), String>) -> (s: String)
    ensures
        s@ == resolved_default_spec(*r),
{
    match r {
        Ok((d, _)) => d.clone(),
        Err(e) => {
            let mut s = String::from_str("Unresolved: ");
            push_text(&mut s, e.as_str());
            s
        },
    }
}

fn resolved_available(r: &Result<(String, Vec<String>), String>) -> (s: String)
    ensures
        s@ == resolved_available_spec(*r),
{
    match r {
        Ok((_, a)) => joined(a),
        Err(e) => {
            let mut s = String::from_str("Unresolved: ");
            push_text(&mut s, e.as_str());
            s
        },
    }
}

fn commit_detail(f: &ProjectDetailFacts) -> (s: String)
    ensures
        s@ == commit_detail_spec(*f),
{
    let status = project_status(&f.status);
    let default = resolved_default(&f.resolution);
    let available = resolved_available(&f.resolution);
    let (commit_default, commit_available) = match &f.pinned {
        Some((d, a)) => (d.clone(), joined(a)),
        None => {
            let mut d = default.clone();
            push_text(&mut d, " (preview; commit blocked)");
            let mut a = available.clone();
            push_text(&mut a, " (preview; commit blocked)");
            (d, a)
        },
    };
    let mut s = String::from_str("Commit taxonomy\n  ");
    push_text(&mut s, commit_default.as_str());
    push_text(&mut s, "\n\nSource\n  ");
    push_text(&mut s, if f.override_default { "Project override" } else { "Inherited Library baseline" });
    push_text(&mut s, "\n\nLibrary baseline\n  ");
    push_text(&mut s, f.baseline_default.as_str());
    push_text(&mut s, "\n\nAvailable taxonomies\n  ");
    push_text(&mut s, commit_available.as_str());
    let staged = if f.status.dirty {
        let mut t = String::from_str("\n\nStaged resolution\n  Default: ");
        push_text(&mut t, default.as_str());
        push_text(&mut t, "\n  Available: ");
        push_text(&mut t, available.as_str());
        t
    } else {
        String::new()
    };
    push_text(&mut s, staged.as_str());
    push_text(&mut s, "\n\nStatus\n  ");
    push_text(&mut s, status);
    push_text(&mut s, "\n  ");
    push_text(&mut s, project_guidance(status));
    s
}

fn resolution_detail(f: &ProjectDetailFacts) -> (s: String)
    ensures
        s@ == resolution_detail_spec(*f),
{
    let mut s = String::from_str("Library baseline\n  ");
    match &f.library_path {
        Some(p) => push_text(&mut s, p.as_str()),
        None => push_text(&mut s, "Library config location unavailable"),
    }
    push_text(&mut s, "\n  Default: ");
    push_text(&mut s, f.baseline_default.as_str());
    push_text(&mut s, "\n  Available: ");
    let baseline = joined(&f.baseline_available);
    push_text(&mut s, baseline.as_str());
    push_text(&mut s, "\n\n");
    push_text(&mut s, if f.status.dirty { "Project overrides (staged)" } else { "Project overrides" });
    push_text(&mut s, "\n  ");
    match &f.files {
        Some((config, _)) => push_text(&mut s, config.as_str()),
        None => {
            assert(s@ + Seq::<char>::empty() =~= s@);
        },
    }
    push_text(&mut s, "\n  Default: ");
    match &f.project_default {
        Some(d) => push_text(&mut s, d.as_str()),
        None => push_text(&mut s, "inherit"),
    }
    push_text(&mut s, "\n  Available: ");
    let own = match &f.project_available {
        Some(a) => joined(a),
        None => String::from_str("inherit"),
    };
    push_text(&mut s, own.as_str());
    push_text(&mut s, "\n\nCurrent resolution\n  Default: ");
    let default = resolved_default(&f.resolution);
    push_text(&mut s, default.as_str());
    push_text(&mut s, "\n  Available: ");
    let available = resolved_available(&f.resolution);
    push_text(&mut s, available.as_str());
    push_text(&mut s, "\n\nPinned lock\n  Default: ");
    let (lock_default, lock_available) = match &f.lock {
        Some((d, a)) => (d.clone(), joined(a)),
        None => (String::from_str("Unavailable"), String::from_str("Unavailable")),
    };
    push_text(&mut s, lock_default.as_str());
    push_text(&mut s, "\n  Available: ");
    push_text(&mut s, lock_available.as_str());
    push_text(&mut s, "\n\nStatus\n  ");
    push_text(&mut s, project_status(&f.status));
    s
}

fn files_detail(f: &ProjectDetailFacts) -> (s: String)
    ensures
        s@ == files_detail_spec(*f),
{
    match &f.files {
        None => String::from_str("Repository unavailable."),
        Some((config, lock)) => {
            let status = project_status(&f.status);
            let mut s = String::from_str("Project configuration\n  ");
            push_text(&mut s, config.as_str());
            push_text(&mut s, "\n  ");
            push_text(&mut s, if f.status.persisted { "Present" } else { "Absent" });
            push_text(&mut s, "\n\nLock\n  ");
            push_text(&mut s, lock.as_str());
            push_text(&mut s, "\n  ");
            push_text(&mut s, if f.lock.is_some() { "Present" } else { "Absent" });
            push_text(&mut s, "\n\nStatus\n  ");
            push_text(&mut s, status);
            push_text(&mut s, "\n  ");
            push_text(&mut s, project_guidance(status));
            s
        },
    }
}

/// The text of a Project section, from what the screen reads of the
/// project.
pub fn project_detail(section: ProjectSection, facts: &ProjectDetailFacts) -> (s: String)
    ensures
        s@ == project_detail_spec(section, *facts),
{
    match section {
        ProjectSection::Commit => commit_detail(facts),
        ProjectSection::Resolution => resolution_detail(facts),
        ProjectSection::Files => files_detail(facts),
    }
}


/// A Library taxonomy's summary: its description, and for a fork the
/// taxonomy and version it was forked from.
pub open spec fn taxonomy_summary_spec(description: Seq<char>, forked_from: Option<(String, String)>) -> Seq<char> {
    match forked_from {
        Some((id, version)) => description + "\nForked from "@ + id@ + "@"@ + version@,
        None => description,
    }
}

/// A Library taxonomy's summary: its description, and for a fork the
/// identity and version of the taxonomy it was forked from.
pub fn taxonomy_summary(description: &str, forked_from: &Option<(String, String)>) -> (s: String)
    ensures
        s@ == taxonomy_summary_spec(description@, *forked_from),
{
    let mut s = String::from_str(description);
    match forked_from {
        Some((id, version)) => {
            push_text(&mut s, "\nForked from ");
            push_text(&mut s, id.as_str());
            push_text(&mut s, "@");
            push_text(&mut s, version.as_str());
        },
        None => {},
    }
    s
}

/// One row per property among the first `m`: its key and requirement.
pub open spec fn property_rows_spec(props: Seq<PropertyView>, m: int) -> Seq<char>
    decreases m,
{
    if m <= 0 {
        Seq::empty()
    } else {
        property_rows_spec(props, m - 1) + "\n  "@ + props[m - 1].key + "  "@ + requirement_label_spec(
            props[m - 1].requirement,
        )
    }
}

/// A commit type's detail in the Library: its description, then its
/// properties with their requirements (or that it has none).
pub open spec fn type_detail_spec(schema: CommitSchema) -> Seq<char> {
    schema.description@ + "\n\nProperties"@ + (if schema@.len() == 0 {
        "\n  No durable properties."@
    } else {
        property_rows_spec(schema@, schema@.len() as int)
    })
}

/// A commit type's detail in the Library.
pub fn type_detail(schema: &CommitSchema) -> (s: String)
    ensures
        s@ == type_detail_spec(*schema),
{
    let mut s = String::from_str(schema.description.as_str());
    push_text(&mut s, "\n\nProperties");
    if schema.properties.len() == 0 {
        push_text(&mut s, "\n  No durable properties.");
        return s;
    }
    let ghost start = s@;
    let mut rows = String::new();
    let mut i: usize = 0;
    while i < schema.properties.len()
        invariant
            i <= schema.properties.len(),
            rows@ == property_rows_spec(schema@, i as int),
        decreases schema.properties.len() - i,
    {
        assert(schema@[i as int] == schema.properties@[i as int]@);
        push_text(&mut rows, "\n  ");
        push_text(&mut rows, schema.properties[i].key.as_str());
        push_text(&mut rows, "  ");
        push_text(&mut rows, requirement_label(&schema.properties[i].requirement));
        i = i + 1;
    }
    push_text(&mut s, rows.as_str());
    s
}

} // verus!
