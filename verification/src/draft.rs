//! What a checked commit document says, as the commit rules take it: the
//! scope, the description, the values of each property and the breaking
//! change, read from the parsed sections.

use vstd::prelude::*;

use crate::composer::first_section_of;
use crate::document::{ParsedDocument, SectionView};
use crate::issues::first_of;
use crate::schema::{kind_id, CommitSchema, FieldId, Multiplicity, PropertyView};
use crate::text::{chars_eq, chars_of};

verus! {

/// The texts, in document order, of those of the first `m` sections that
/// belong to field `id` and hold a value.
pub open spec fn value_texts(secs: Seq<SectionView>, id: FieldId, m: int) -> Seq<Seq<char>>
    decreases m,
{
    if m <= 0 {
        Seq::empty()
    } else {
        let before = value_texts(secs, id, m - 1);
        if kind_id(secs[m - 1].kind) == id && secs[m - 1].text.len() > 0 {
            before.push(secs[m - 1].text)
        } else {
            before
        }
    }
}

/// The value of a field that appears once: the text of its first section,
/// when that text is not empty.
pub open spec fn optional_text(secs: Seq<SectionView>, id: FieldId) -> Option<Seq<char>> {
    match first_of(secs, id, secs.len() as int) {
        Some(k) => if secs[k as int].text.len() > 0 {
            Some(secs[k as int].text)
        } else {
            None
        },
        None => None,
    }
}

/// The text of the first description section, empty or not.
pub open spec fn description_text(secs: Seq<SectionView>) -> Option<Seq<char>> {
    match first_of(secs, FieldId::Description, secs.len() as int) {
        Some(k) => Some(secs[k as int].text),
        None => None,
    }
}

/// The values of property `d`: none when no section of it holds a value;
/// otherwise the first value for a single-valued property, every value in
/// document order for a repeatable one.
pub open spec fn property_values(secs: Seq<SectionView>, props: Seq<PropertyView>, d: int) -> Option<Seq<Seq<char>>> {
    let texts = value_texts(secs, FieldId::Property(d as usize), secs.len() as int);
    if texts.len() == 0 {
        None
    } else if props[d].multiplicity == Multiplicity::Single {
        Some(seq![texts[0]])
    } else {
        Some(texts)
    }
}

/// The values of a checked commit document.
pub struct DraftValues {
    pub scope: Option<String>,
    pub description: Option<String>,
    /// For each property of the schema, its values, when it has any.
    pub properties: Vec<Option<Vec<String>>>,
    pub breaking_change: Option<String>,
}

pub open spec fn text_view(s: Option<String>) -> Option<Seq<char>> {
    match s {
        Some(t) => Some(t@),
        None => None,
    }
}

pub open spec fn texts_view(v: Option<Vec<String>>) -> Option<Seq<Seq<char>>> {
    match v {
        Some(vs) => Some(Seq::new(vs@.len(), |i: int| vs@[i]@)),
        None => None,
    }
}

/// The texts of the sections of field `id` that hold a value.
fn collect_values(parsed: &ParsedDocument, id: FieldId) -> (v: Vec<String>)
    ensures
        Seq::new(v@.len(), |i: int| v@[i]@) == value_texts(
            parsed@.sections,
            id,
            parsed@.sections.len() as int,
        ),
{
    let ghost secs = parsed@.sections;
    let mut v: Vec<String> = Vec::new();
    let mut m: usize = 0;
    while m < parsed.sections.len()
        invariant
            m <= parsed.sections.len(),
            secs == parsed@.sections,
            Seq::new(v@.len(), |i: int| v@[i]@) == value_texts(secs, id, m as int),
        decreases parsed.sections.len() - m,
    {
        assert(secs[m as int] == parsed.sections@[m as int]@);
        let ghost before = Seq::new(v@.len(), |i: int| v@[i]@);
        if parsed.sections[m].kind.id() == id && chars_of(parsed.sections[m].text.as_str()).len() > 0 {
            v.push(parsed.sections[m].text.clone());
            assert(Seq::new(v@.len(), |i: int| v@[i]@) =~= before.push(secs[m as int].text));
        }
        m = m + 1;
    }
    v
}

/// The text of the first section of field `id`, when it holds a value.
fn first_value(parsed: &ParsedDocument, id: FieldId) -> (r: Option<String>)
    ensures
        text_view(r) == optional_text(parsed@.sections, id),
{
    match first_section_of(parsed, id) {
        Some(k) => {
            assert(parsed@.sections[k as int] == parsed.sections@[k as int]@);
            if chars_of(parsed.sections[k].text.as_str()).len() > 0 {
                Some(parsed.sections[k].text.clone())
            } else {
                None
            }
        },
        None => None,
    }
}

/// The values of a parsed commit document for a commit type.
pub fn draft_values(parsed: &ParsedDocument, schema: &CommitSchema) -> (v: DraftValues)
    ensures
        text_view(v.scope) == optional_text(parsed@.sections, FieldId::Scope),
        text_view(v.description) == description_text(parsed@.sections),
        v.properties@.len() == schema@.len(),
        forall|d: int|
            0 <= d < schema@.len() ==> texts_view(#[trigger] v.properties@[d]) == property_values(
                parsed@.sections,
                schema@,
                d,
            ),
        text_view(v.breaking_change) == optional_text(parsed@.sections, FieldId::BreakingChange),
{
    let ghost secs = parsed@.sections;
    let scope = first_value(parsed, FieldId::Scope);
    let description = match first_section_of(parsed, FieldId::Description) {
        Some(k) => {
            assert(secs[k as int] == parsed.sections@[k as int]@);
            Some(parsed.sections[k].text.clone())
        },
        None => None,
    };
    let mut properties: Vec<Option<Vec<String>>> = Vec::new();
    let mut d: usize = 0;
    while d < schema.properties.len()
        invariant
            d <= schema.properties.len(),
            secs == parsed@.sections,
            properties@.len() == d,
            forall|j: int|
                0 <= j < d ==> texts_view(#[trigger] properties@[j]) == property_values(secs, schema@, j),
        decreases schema.properties.len() - d,
    {
        let values = collect_values(parsed, FieldId::Property(d));
        let entry = if values.len() == 0 {
            None
        } else {
            match schema.properties[d].multiplicity {
                Multiplicity::Single => {
                    let mut one: Vec<String> = Vec::new();
                    one.push(values[0].clone());
                    assert(Seq::new(one@.len(), |i: int| one@[i]@) =~= seq![
                        Seq::new(values@.len(), |i: int| values@[i]@)[0],
                    ]);
                    Some(one)
                },
                Multiplicity::Multiple => Some(values),
            }
        };
        properties.push(entry);
        d = d + 1;
    }
    let breaking_change = first_value(parsed, FieldId::BreakingChange);
    DraftValues { scope, description, properties, breaking_change }
}

/// The first property with the given key.
pub open spec fn property_with_key(props: Seq<PropertyView>, key: Seq<char>) -> Option<nat> {
    if exists|i: int| 0 <= i < props.len() && props[i].key == key && forall|j: int| 0 <= j < i ==> props[j].key != key {
        let i = choose|i: int|
            0 <= i < props.len() && props[i].key == key && forall|j: int| 0 <= j < i ==> props[j].key != key;
        Some(i as nat)
    } else {
        None
    }
}

/// The field of the property that a refusal names by key.
pub fn property_field(schema: &CommitSchema, key: &str) -> (r: Option<FieldId>)
    ensures
        r == (match property_with_key(schema@, key@) {
            Some(i) => Some(FieldId::Property(i as usize)),
            None => None,
        }),
{
    let wanted = chars_of(key);
    let mut i: usize = 0;
    while i < schema.properties.len()
        invariant
            i <= schema.properties.len(),
            wanted@ == key@,
            forall|j: int| 0 <= j < i ==> schema@[j].key != key@,
        decreases schema.properties.len() - i,
    {
        let candidate = chars_of(schema.properties[i].key.as_str());
        if chars_eq(candidate.as_slice(), wanted.as_slice()) {
            proof {
                let props = schema@;
                let k = choose|k: int|
                    0 <= k < props.len() && props[k].key == key@ && forall|j: int|
                        0 <= j < k ==> props[j].key != key@;
                if k < i {
                    assert(props[k].key != key@);
                }
                if i < k {
                    assert(props[i as int].key != key@);
                }
            }
            return Some(FieldId::Property(i));
        }
        i = i + 1;
    }
    None
}

} // verus!
