//! The commit-type schema that the composer and the taxonomy editor read:
//! properties with their keys, requirements and multiplicities, and the
//! fields of the structured commit document.

use vstd::prelude::*;

use crate::text::push_text;

verus! {

/// When a conditional property applies.
pub struct Condition {
    pub id: String,
    pub rationale: String,
}

/// How strongly a property asks for a value.
pub enum Requirement {
    Required,
    Recommended,
    Optional,
    Conditional(Condition),
}

/// Whether a property takes one value or several.
#[derive(Clone, Copy, Debug, PartialEq, Eq, Structural)]
pub enum Multiplicity {
    Single,
    Multiple,
}

/// An author's decision for a conditional property.
#[derive(Clone, Copy, Debug, PartialEq, Eq, Structural)]
pub enum Applicability {
    Applies,
    DoesNotApply,
}

/// One durable property of a commit type.
pub struct PropertySpec {
    pub key: String,
    pub description: String,
    pub requirement: Requirement,
    pub multiplicity: Multiplicity,
}

/// A commit type: its identity and the properties its messages carry.
pub struct CommitSchema {
    pub id: String,
    pub description: String,
    pub properties: Vec<PropertySpec>,
}

/// The requirement of a property, as plain values.
pub enum RequirementView {
    Required,
    Recommended,
    Optional,
    Conditional { id: Seq<char>, rationale: Seq<char> },
}

/// A property, as plain values.
pub struct PropertyView {
    pub key: Seq<char>,
    pub description: Seq<char>,
    pub requirement: RequirementView,
    pub multiplicity: Multiplicity,
}

impl View for Requirement {
    type V = RequirementView;

    open spec fn view(&self) -> RequirementView {
        match self {
            Requirement::Required => RequirementView::Required,
            Requirement::Recommended => RequirementView::Recommended,
            Requirement::Optional => RequirementView::Optional,
            Requirement::Conditional(c) => RequirementView::Conditional {
                id: c.id@,
                rationale: c.rationale@,
            },
        }
    }
}

impl View for PropertySpec {
    type V = PropertyView;

    open spec fn view(&self) -> PropertyView {
        PropertyView {
            key: self.key@,
            description: self.description@,
            requirement: self.requirement@,
            multiplicity: self.multiplicity,
        }
    }
}

impl View for CommitSchema {
    type V = Seq<PropertyView>;

    open spec fn view(&self) -> Seq<PropertyView> {
        Seq::new(self.properties@.len(), |i: int| self.properties@[i]@)
    }
}

/// The property keys of a schema, in order.
pub open spec fn keys_of(props: Seq<PropertyView>) -> Seq<Seq<char>> {
    Seq::new(props.len(), |i: int| props[i].key)
}

/// A field of the commit document.
#[derive(Clone, Copy, Debug, PartialEq, Eq, Structural)]
pub enum FieldId {
    Scope,
    Description,
    Property(usize),
    BreakingChange,
}

/// A field occurrence: repeated properties carry the index of the value.
#[derive(Clone, Copy, Debug, PartialEq, Eq, Structural)]
pub enum FieldKind {
    Scope,
    Description,
    Property { definition_index: usize, value_index: usize },
    BreakingChange,
}

pub open spec fn kind_id(kind: FieldKind) -> FieldId {
    match kind {
        FieldKind::Scope => FieldId::Scope,
        FieldKind::Description => FieldId::Description,
        FieldKind::Property { definition_index, .. } => FieldId::Property(definition_index),
        FieldKind::BreakingChange => FieldId::BreakingChange,
    }
}

impl FieldKind {
    /// The field that this occurrence belongs to.
    pub fn id(self) -> (r: FieldId)
        ensures
            r == kind_id(self),
    {
        match self {
            FieldKind::Scope => FieldId::Scope,
            FieldKind::Description => FieldId::Description,
            FieldKind::Property { definition_index, .. } => FieldId::Property(definition_index),
            FieldKind::BreakingChange => FieldId::BreakingChange,
        }
    }
}

/// The fields of a schema in document order: scope, description, each
/// property, breaking change.
pub open spec fn field_order(n: nat) -> Seq<FieldId> {
    Seq::new(
        n + 3,
        |k: int|
            if k == 0 {
                FieldId::Scope
            } else if k == 1 {
                FieldId::Description
            } else if k < n + 2 {
                FieldId::Property((k - 2) as usize)
            } else {
                FieldId::BreakingChange
            },
    )
}

/// Whether `id` names a field of a schema with `n` properties.
pub open spec fn field_in_schema(id: FieldId, n: nat) -> bool {
    match id {
        FieldId::Property(i) => i < n,
        _ => true,
    }
}

/// The label of a requirement, as shown beside a field.
pub open spec fn requirement_label_spec(r: RequirementView) -> Seq<char> {
    match r {
        RequirementView::Required => "required"@,
        RequirementView::Recommended => "recommended"@,
        RequirementView::Optional => "optional"@,
        RequirementView::Conditional { .. } => "conditional"@,
    }
}

/// The label of a requirement, as shown beside a field.
pub fn requirement_label(r: &Requirement) -> (s: &'static str)
    ensures
        s@ == requirement_label_spec(r@),
{
    match r {
        Requirement::Required => "required",
        Requirement::Recommended => "recommended",
        Requirement::Optional => "optional",
        Requirement::Conditional(_) => "conditional",
    }
}

/// The name of a field as the document and messages spell it.
pub open spec fn field_name_spec(id: FieldId, props: Seq<PropertyView>) -> Seq<char> {
    match id {
        FieldId::Scope => "scope"@,
        FieldId::Description => "description"@,
        FieldId::Property(i) => props[i as int].key,
        FieldId::BreakingChange => "breaking-change"@,
    }
}

/// The name of a field as the document and messages spell it.
pub fn field_name(id: FieldId, schema: &CommitSchema) -> (s: String)
    requires
        field_in_schema(id, schema@.len()),
    ensures
        s@ == field_name_spec(id, schema@),
{
    match id {
        FieldId::Scope => String::from_str("scope"),
        FieldId::Description => String::from_str("description"),
        FieldId::Property(i) => schema.properties[i].key.clone(),
        FieldId::BreakingChange => String::from_str("breaking-change"),
    }
}

/// The name and requirement columns of a field in the fields panel.
pub open spec fn field_columns_spec(id: FieldId, props: Seq<PropertyView>) -> (Seq<char>, Seq<char>) {
    match id {
        FieldId::Scope => ("scope"@, "optional"@),
        FieldId::Description => ("description"@, "required"@),
        FieldId::Property(i) => (
            props[i as int].key,
            requirement_label_spec(props[i as int].requirement),
        ),
        FieldId::BreakingChange => ("breaking-change"@, "optional"@),
    }
}

/// The name and requirement columns of a field in the fields panel.
pub fn field_columns(id: FieldId, schema: &CommitSchema) -> (r: (String, &'static str))
    requires
        field_in_schema(id, schema@.len()),
    ensures
        (r.0@, r.1@) == field_columns_spec(id, schema@),
{
    match id {
        FieldId::Scope => (String::from_str("scope"), "optional"),
        FieldId::Description => (String::from_str("description"), "required"),
        FieldId::Property(i) => (
            schema.properties[i].key.clone(),
            requirement_label(&schema.properties[i].requirement),
        ),
        FieldId::BreakingChange => (String::from_str("breaking-change"), "optional"),
    }
}


/// What a field asks for, as its guidance pane shows it: the requirement, and
/// for a conditional property the rationale of its condition.
pub open spec fn requirement_text_spec(r: RequirementView) -> Seq<char> {
    match r {
        RequirementView::Conditional { rationale, .. } => "conditional: "@ + rationale,
        _ => requirement_label_spec(r),
    }
}

/// The title and guidance of a field occurrence.
pub open spec fn field_metadata_spec(kind: FieldKind, props: Seq<PropertyView>) -> (Seq<char>, Seq<char>) {
    match kind {
        FieldKind::Scope => (" Scope · optional "@, SCOPE_GUIDANCE@),
        FieldKind::Description => (" Description · required "@, DESCRIPTION_GUIDANCE@),
        FieldKind::Property { definition_index, .. } => (
            " "@ + props[definition_index as int].key + " · "@ + requirement_text_spec(
                props[definition_index as int].requirement,
            ) + " "@,
            props[definition_index as int].description,
        ),
        FieldKind::BreakingChange => (" Breaking change · optional "@, BREAKING_CHANGE_GUIDANCE@),
    }
}

/// The title and guidance shown for the cursor's field, or for the form as
/// a whole when the cursor is on no field.
pub open spec fn field_guidance_spec(current: Option<FieldKind>, props: Seq<PropertyView>) -> (Seq<char>, Seq<char>) {
    match current {
        Some(kind) => field_metadata_spec(kind, props),
        None => (" Commit form "@, FORM_GUIDANCE@),
    }
}

pub const SCOPE_GUIDANCE: &'static str =
    "Optional affected area in a Conventional Commit: type(scope): description. Leave blank for type: description.";

pub const DESCRIPTION_GUIDANCE: &'static str =
    "Required concise description in a Conventional Commit: type(scope): description, or type: description without a scope.";

pub const BREAKING_CHANGE_GUIDANCE: &'static str =
    "Describe an incompatible change. Review adds ! before the header colon and renders this value as an uppercase BREAKING CHANGE footer.";

pub const FORM_GUIDANCE: &'static str = "Edit values beneath the schema-generated field headers.";

/// The title and guidance of a field occurrence.
pub fn field_metadata(kind: FieldKind, schema: &CommitSchema) -> (r: (String, String))
    requires
        field_in_schema(kind_id(kind), schema@.len()),
    ensures
        (r.0@, r.1@) == field_metadata_spec(kind, schema@),
{
    match kind {
        FieldKind::Scope => (String::from_str(" Scope · optional "), String::from_str(SCOPE_GUIDANCE)),
        FieldKind::Description => (
            String::from_str(" Description · required "),
            String::from_str(DESCRIPTION_GUIDANCE),
        ),
        FieldKind::Property { definition_index, .. } => {
            let property = &schema.properties[definition_index];
            assert(schema@[definition_index as int] == property@);
            let mut title = String::from_str(" ");
            push_text(&mut title, property.key.as_str());
            push_text(&mut title, " · ");
            match &property.requirement {
                Requirement::Conditional(condition) => {
                    push_text(&mut title, "conditional: ");
                    push_text(&mut title, condition.rationale.as_str());
                },
                other => push_text(&mut title, requirement_label(other)),
            }
            push_text(&mut title, " ");
            (title, property.description.clone())
        },
        FieldKind::BreakingChange => (
            String::from_str(" Breaking change · optional "),
            String::from_str(BREAKING_CHANGE_GUIDANCE),
        ),
    }
}

/// The title and guidance shown for the cursor's field, or for the form as
/// a whole when the cursor is on no field.
pub fn field_guidance(current: Option<FieldKind>, schema: &CommitSchema) -> (r: (String, String))
    requires
        current matches Some(kind) ==> field_in_schema(kind_id(kind), schema@.len()),
    ensures
        (r.0@, r.1@) == field_guidance_spec(current, schema@),
{
    match current {
        Some(kind) => field_metadata(kind, schema),
        None => (String::from_str(" Commit form "), String::from_str(FORM_GUIDANCE)),
    }
}

} // verus!
