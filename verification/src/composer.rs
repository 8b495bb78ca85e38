//! The composer: the commit document in its editor, the author's decisions
//! for conditional properties, and the reports shown against the document.
//! Every edit keeps the schema's headings intact and the cursor off them.

use vstd::prelude::*;

use crate::document::{
    intact_spec, key_rows, lines_to_rows, lines_view, parse_document, parse_spec,
    rows_view, scaffold_lines, scaffold_spec, section_index, section_index_at, skip_destination,
    skip_target, structural_marker, field_at_spec, headings_are_intact, keys_well_formed,
    lemma_scaffold_is_intact, marker_spec, ValidationIssue, SCOPE_VALUE_LINE, boundaries_upto,
    sections_upto, lemma_boundaries_facts, lemma_section_index_in_range, Boundary, BoundaryKind,
    issues_view, IssueView, ParsedDocument, SectionView, lemma_sections_bounded, editable_spec,
    first_editable_from, last_editable_before,
};
use crate::editor::{
    after_delete_char, after_input, after_move, after_insert, editor_clone, editor_cursor, editor_delete_char,
    editor_input, editor_insert_str, editor_jump, editor_lines, editor_move, editor_new,
    jump_spec, textarea_cursor, textarea_lines, CursorMotion, Editor, KeyCode, KeyPress,
};
use crate::text::chars_of;
use crate::issues::{collect_draft_issues, draft_issues, errors_view, first_of, lemma_first_of_prefix, sections_bounded, sort_by_line, sorted_by_line, lemma_sort_len};
use crate::schema::{field_order, field_in_schema, keys_of, kind_id, Applicability, Requirement, CommitSchema, FieldId, FieldKind, PropertyView};

verus! {

/// A row or column as the terminal addresses it, saturating at the largest.
pub open spec fn terminal_coordinate(x: nat) -> u16 {
    if x <= u16::MAX as nat {
        x as u16
    } else {
        u16::MAX
    }
}

/// A line index as the terminal addresses it.
pub fn terminal_line(line: usize) -> (r: u16)
    ensures
        r == terminal_coordinate(line as nat),
{
    if line <= u16::MAX as usize {
        line as u16
    } else {
        u16::MAX
    }
}

/// A column index as the terminal addresses it.
pub fn terminal_column(column: usize) -> (r: u16)
    ensures
        r == terminal_coordinate(column as nat),
{
    if column <= u16::MAX as usize {
        column as u16
    } else {
        u16::MAX
    }
}

/// The cursor after a move from `previous` that landed on `cursor`: unchanged
/// on an editable line, otherwise jumped as `skip_destination` says.
pub open spec fn settled_cursor(
    lines: Seq<Seq<char>>,
    keys: Seq<Seq<char>>,
    previous: (nat, nat),
    cursor: (nat, nat),
) -> (nat, nat) {
    match skip_destination(lines, keys, previous, cursor) {
        Some((r, c)) => jump_spec(lines, terminal_coordinate(r), terminal_coordinate(c)),
        None => cursor,
    }
}

proof fn lemma_first_editable_from(lines: Seq<Seq<char>>, keys: Seq<Seq<char>>, k: int)
    ensures
        first_editable_from(lines, keys, k) matches Some(t) ==> k <= t < lines.len() && editable_spec(
            lines,
            keys,
            t as int,
        ),
    decreases lines.len() - k,
{
    if 0 <= k < lines.len() && !editable_spec(lines, keys, k) {
        lemma_first_editable_from(lines, keys, k + 1);
    }
}

proof fn lemma_last_editable_before(lines: Seq<Seq<char>>, keys: Seq<Seq<char>>, k: int)
    ensures
        last_editable_before(lines, keys, k) matches Some(t) ==> t < k && t < lines.len() && editable_spec(
            lines,
            keys,
            t as int,
        ),
    decreases k,
{
    if k > 0 && !(k - 1 < lines.len() && editable_spec(lines, keys, k - 1)) {
        lemma_last_editable_before(lines, keys, k - 1);
    }
}

/// Navigation never rests on a heading: after a move, the cursor is on a line
/// where the author may type, or back on the line it came from when there is
/// no such line in the direction it moved.
pub proof fn lemma_settled_cursor_is_editable(
    lines: Seq<Seq<char>>,
    keys: Seq<Seq<char>>,
    previous: (nat, nat),
    cursor: (nat, nat),
)
    requires
        lines.len() <= u16::MAX,
        cursor.0 < lines.len(),
        previous.0 < lines.len(),
    ensures
        editable_spec(lines, keys, settled_cursor(lines, keys, previous, cursor).0 as int)
            || settled_cursor(lines, keys, previous, cursor).0 == previous.0,
        settled_cursor(lines, keys, previous, cursor).0 < lines.len(),
{
    lemma_first_editable_from(lines, keys, cursor.0 + 1 as int);
    lemma_last_editable_before(lines, keys, cursor.0 as int);
}

/// Moves the cursor off a heading or reserved line it landed on.
fn skip_noneditable_cursor(editor: &mut Editor, schema: &CommitSchema, previous: (usize, usize))
    ensures
        textarea_lines(*final(editor)) == textarea_lines(*old(editor)),
        textarea_cursor(*final(editor)) == settled_cursor(
            textarea_lines(*old(editor)),
            keys_of(schema@),
            (previous.0 as nat, previous.1 as nat),
            textarea_cursor(*old(editor)),
        ),
{
    let lines = editor_lines(editor);
    let rows = lines_to_rows(lines.as_slice());
    let keys = key_rows(schema);
    let cursor = editor_cursor(editor);
    match skip_target(&rows, &keys, previous, cursor) {
        Some((row, col)) => {
            assert(rows_view(rows@).len() > 0);
            editor_jump(editor, terminal_line(row), terminal_column(col));
        },
        None => {},
    }
}

/// Whether two line vectors hold the same text.
pub fn same_lines(a: &Vec<String>, b: &Vec<String>) -> (r: bool)
    ensures
        r == (lines_view(a@) == lines_view(b@)),
{
    if a.len() != b.len() {
        assert(lines_view(a@).len() != lines_view(b@).len());
        return false;
    }
    let mut k: usize = 0;
    while k < a.len()
        invariant
            k <= a.len(),
            a.len() == b.len(),
            forall|j: int| 0 <= j < k ==> a@[j]@ == b@[j]@,
        decreases a.len() - k,
    {
        if a[k] != b[k] {
            assert(lines_view(a@)[k as int] != lines_view(b@)[k as int]);
            return false;
        }
        k = k + 1;
    }
    assert(lines_view(a@) =~= lines_view(b@));
    true
}

/// Backspace or Delete at the start of a line just under an empty line joins
/// the two lines.
pub open spec fn join_previous_spec(lines: Seq<Seq<char>>, cursor: (nat, nat), keys: Seq<Seq<char>>) -> bool {
    &&& cursor.1 == 0
    &&& cursor.0 > 0
    &&& cursor.0 < lines.len()
    &&& lines[cursor.0 - 1].len() == 0
    &&& marker_spec(lines[cursor.0 as int], keys) is None
}

/// The field holding line `row`.
pub open spec fn field_id_at(lines: Seq<Seq<char>>, props: Seq<PropertyView>, row: nat) -> Option<FieldId> {
    match field_at_spec(lines, props, row) {
        Some(kind) => Some(kind_id(kind)),
        None => None,
    }
}

/// The lines and cursor after Backspace or Delete, and whether the reports
/// were cleared.
pub open spec fn delete_result(c: ComposerState, props: Seq<PropertyView>, key: KeyPress) -> (Seq<Seq<char>>, (nat, nat), bool) {
    let keys = keys_of(props);
    let unchanged = (c.lines(), c.cursor(), false);
    match field_id_at(c.lines(), props, c.cursor().0) {
        None => unchanged,
        Some(field) => {
            let edited = if join_previous_spec(c.lines(), c.cursor(), keys) {
                after_delete_char(c.editor)
            } else {
                after_input(c.editor, key)
            };
            if !intact_spec(edited.0, keys) {
                unchanged
            } else {
                let cursor = settled_cursor(edited.0, keys, c.cursor(), edited.1);
                if field_id_at(edited.0, props, cursor.0) == Some(field) {
                    (edited.0, cursor, true)
                } else {
                    unchanged
                }
            }
        },
    }
}

/// The lines and cursor after Left or Right, and whether the reports were
/// cleared.
pub open spec fn horizontal_result(c: ComposerState, props: Seq<PropertyView>, key: KeyPress) -> (Seq<Seq<char>>, (nat, nat), bool) {
    let keys = keys_of(props);
    let moved = after_input(c.editor, key);
    let cursor = settled_cursor(moved.0, keys, c.cursor(), moved.1);
    let before = field_id_at(c.lines(), props, c.cursor().0);
    if before is None || field_id_at(moved.0, props, cursor.0) != before {
        (c.lines(), c.cursor(), false)
    } else {
        (moved.0, cursor, true)
    }
}

/// Whether Enter advances from the cursor's field, where the cursor goes, and
/// whether the reports are cleared.
pub open spec fn advance_spec(lines: Seq<Seq<char>>, props: Seq<PropertyView>, cursor: (nat, nat)) -> (bool, (nat, nat), bool) {
    let secs = parse_spec(lines, props).sections;
    match section_index_at(secs, cursor.0, secs.len() as int) {
        None => (false, cursor, false),
        Some(i) => {
            let current = secs[i as int];
            let advance = current.kind is Scope || current.kind is Description || current.text.len() == 0;
            if !advance {
                (false, cursor, false)
            } else if i + 1 < secs.len() && lines.len() > 0 && secs[i + 1 as int].heading_line + 1 <= usize::MAX {
                (true, jump_spec(lines, terminal_coordinate(secs[i + 1 as int].heading_line + 1), 0), true)
            } else {
                (true, cursor, false)
            }
        },
    }
}

/// The property whose applicability Alt+A / Alt+N decides when the cursor is
/// on line `row`: a conditional property.
pub open spec fn decision_target(lines: Seq<Seq<char>>, props: Seq<PropertyView>, row: nat) -> Option<usize> {
    match field_at_spec(lines, props, row) {
        Some(FieldKind::Property { definition_index, .. }) => if props[definition_index as int].requirement is Conditional {
            Some(definition_index)
        } else {
            None
        },
        _ => None,
    }
}

/// The field under the cursor belongs to the schema.
pub proof fn lemma_field_at_in_schema(lines: Seq<Seq<char>>, props: Seq<PropertyView>, row: nat)
    requires
        lines.len() <= usize::MAX,
    ensures
        field_at_spec(lines, props, row) matches Some(kind) ==> field_in_schema(kind_id(kind), props.len()),
{
    let keys = keys_of(props);
    let bs = boundaries_upto(lines, keys, lines.len());
    let secs = sections_upto(bs, lines, bs.len());
    lemma_boundaries_facts(lines, keys, lines.len());
    lemma_sections_in_schema(bs, lines, bs.len(), props.len());
    lemma_section_index_in_range(secs, row, secs.len() as int);
}

/// Every section of a parse belongs to a field of the schema.
pub proof fn lemma_sections_in_schema(bs: Seq<Boundary>, lines: Seq<Seq<char>>, m: nat, n: nat)
    requires
        m <= bs.len(),
        forall|k: int|
            0 <= k < bs.len() ==> match (#[trigger] bs[k]).kind {
                BoundaryKind::Known(id) => field_in_schema(id, n),
                _ => true,
            },
    ensures
        forall|k: int|
            0 <= k < sections_upto(bs, lines, m).len() ==> field_in_schema(
                kind_id((#[trigger] sections_upto(bs, lines, m)[k]).kind),
                n,
            ),
    decreases m,
{
    if m > 0 {
        lemma_sections_in_schema(bs, lines, (m - 1) as nat, n);
        let prev = sections_upto(bs, lines, (m - 1) as nat);
        let cur = sections_upto(bs, lines, m);
        assert forall|k: int| 0 <= k < cur.len() implies field_in_schema(
            kind_id((#[trigger] cur[k]).kind),
            n,
        ) by {
            if k < prev.len() {
                assert(cur[k] == prev[k]);
            } else {
                assert(bs[m - 1].kind is Known);
            }
        }
    }
}

/// How a field of the panel stands.
#[derive(Clone, Copy, Debug, PartialEq, Eq, Structural)]
pub enum FieldStatus {
    Incomplete,
    Complete,
    Invalid,
}

/// A row of the fields panel.
#[derive(Clone, Copy, Debug, PartialEq, Eq, Structural)]
pub struct HudField {
    pub id: FieldId,
    pub status: FieldStatus,
}

pub open spec fn has_issue_for(issues: Seq<IssueView>, id: FieldId) -> bool {
    exists|k: int| 0 <= k < issues.len() && (#[trigger] issues[k]).field == Some(id)
}

/// Some section of field `id` holds a value.
pub open spec fn has_value_for(secs: Seq<SectionView>, id: FieldId) -> bool {
    exists|k: int| 0 <= k < secs.len() && kind_id((#[trigger] secs[k]).kind) == id && secs[k].text.len() > 0
}

/// Some scope or description value fails its rules.
pub open spec fn rejected_for(secs: Seq<SectionView>, accepted: Seq<bool>, id: FieldId) -> bool {
    (id is Scope || id is Description) && exists|k: int|
        0 <= k < secs.len() && kind_id((#[trigger] secs[k]).kind) == id && secs[k].text.len() > 0
            && k < accepted.len() && !accepted[k]
}

/// The status of a field: invalid when reported, when its scope or
/// description fails its rules, or when a property that does not apply holds
/// a value; complete when it holds a value (for a conditional property: when
/// its decision and its value agree); incomplete otherwise.
pub open spec fn field_status_spec(
    props: Seq<PropertyView>,
    secs: Seq<SectionView>,
    issues: Seq<IssueView>,
    accepted: Seq<bool>,
    applicability: Seq<Option<Applicability>>,
    id: FieldId,
) -> FieldStatus {
    let value = has_value_for(secs, id);
    let decision = match id {
        FieldId::Property(i) => applicability[i as int],
        _ => None,
    };
    let conditional = match id {
        FieldId::Property(i) => props[i as int].requirement is Conditional,
        _ => false,
    };
    let invalid = has_issue_for(issues, id) || rejected_for(secs, accepted, id) || (decision == Some(
        Applicability::DoesNotApply,
    ) && value);
    let complete = if conditional {
        match decision {
            Some(Applicability::Applies) => value,
            Some(Applicability::DoesNotApply) => !value,
            None => false,
        }
    } else {
        value
    };
    if invalid {
        FieldStatus::Invalid
    } else if complete {
        FieldStatus::Complete
    } else {
        FieldStatus::Incomplete
    }
}

/// The fields panel for a document: every field in document order with its
/// status, judged against the parse reports and the reports shown.
pub open spec fn hud_spec(
    lines: Seq<Seq<char>>,
    props: Seq<PropertyView>,
    shown: Seq<IssueView>,
    accepted: Seq<bool>,
    applicability: Seq<Option<Applicability>>,
) -> Seq<HudField> {
    let parsed = parse_spec(lines, props);
    Seq::new(
        props.len() + 3,
        |k: int|
            HudField {
                id: field_order(props.len())[k],
                status: field_status_spec(
                    props,
                    parsed.sections,
                    parsed.issues + shown,
                    accepted,
                    applicability,
                    field_order(props.len())[k],
                ),
            },
    )
}

fn issue_for(issues: &Vec<ValidationIssue>, id: FieldId) -> (r: bool)
    ensures
        r == has_issue_for(issues_view(issues@), id),
{
    let mut k: usize = 0;
    while k < issues.len()
        invariant
            k <= issues.len(),
            forall|j: int| 0 <= j < k ==> issues@[j].field != Some(id),
        decreases issues.len() - k,
    {
        if issues[k].field == Some(id) {
            assert(issues_view(issues@)[k as int].field == Some(id));
            return true;
        }
        k = k + 1;
    }
    assert forall|j: int| 0 <= j < issues_view(issues@).len() implies (#[trigger] issues_view(issues@)[j]).field != Some(id) by {
        assert(issues_view(issues@)[j] == issues@[j]@);
    }
    false
}

fn section_flags(parsed: &ParsedDocument, accepted: &Vec<bool>, id: FieldId) -> (r: (bool, bool))
    ensures
        r.0 == has_value_for(parsed@.sections, id),
        r.1 == rejected_for(parsed@.sections, accepted@, id),
{
    let ghost secs = parsed@.sections;
    let checked = match id {
        FieldId::Scope | FieldId::Description => true,
        _ => false,
    };
    let mut value = false;
    let mut rejected = false;
    let mut k: usize = 0;
    while k < parsed.sections.len()
        invariant
            k <= parsed.sections.len(),
            secs == parsed@.sections,
            checked == (id is Scope || id is Description),
            value == exists|j: int| 0 <= j < k && kind_id((#[trigger] secs[j]).kind) == id && secs[j].text.len() > 0,
            rejected == (checked && exists|j: int|
                0 <= j < k && kind_id((#[trigger] secs[j]).kind) == id && secs[j].text.len() > 0
                    && j < accepted@.len() && !accepted@[j]),
        decreases parsed.sections.len() - k,
    {
        let section = &parsed.sections[k];
        assert(secs[k as int] == section@);
        if section.kind.id() == id && chars_of(section.text.as_str()).len() > 0 {
            value = true;
            if checked && k < accepted.len() && !accepted[k] {
                rejected = true;
            }
        }
        k = k + 1;
    }
    (value, rejected)
}

/// The report for each rendering refusal: it points at the line under the
/// first heading of its field, or at the cursor's line.
pub open spec fn render_issues(secs: Seq<SectionView>, cursor_row: nat, errors: Seq<(Option<FieldId>, String)>) -> Seq<IssueView> {
    Seq::new(
        errors.len(),
        |k: int|
            IssueView {
                field: errors[k].0,
                line: match errors[k].0 {
                    Some(id) => match first_of(secs, id, secs.len() as int) {
                        Some(i) => secs[i as int].heading_line + 1,
                        None => cursor_row,
                    },
                    None => cursor_row,
                },
                message: errors[k].1@,
            },
    )
}

pub(crate) fn first_section_of(parsed: &ParsedDocument, id: FieldId) -> (r: Option<usize>)
    ensures
        match r {
            Some(k) => first_of(parsed@.sections, id, parsed@.sections.len() as int) == Some(k as nat)
                && k < parsed.sections.len(),
            None => first_of(parsed@.sections, id, parsed@.sections.len() as int) is None,
        },
{
    let ghost secs = parsed@.sections;
    let mut m: usize = 0;
    while m < parsed.sections.len()
        invariant
            m <= parsed.sections.len(),
            secs == parsed@.sections,
            first_of(secs, id, m as int) is None,
        decreases parsed.sections.len() - m,
    {
        assert(secs[m as int] == parsed.sections@[m as int]@);
        if parsed.sections[m].kind.id() == id {
            proof {
                lemma_first_of_prefix(secs, id, (m + 1) as int, secs.len() as int);
            }
            return Some(m);
        }
        m = m + 1;
    }
    None
}

/// The composer: the document in its editor, the untouched scaffold, the
/// reports shown, the decisions for conditional properties, and warnings.
pub struct ComposerState {
    pub editor: Editor,
    pub pristine: Vec<String>,
    pub issues: Vec<ValidationIssue>,
    pub applicability: Vec<Option<Applicability>>,
    pub warnings: Vec<String>,
}

impl ComposerState {
    pub open spec fn lines(&self) -> Seq<Seq<char>> {
        textarea_lines(self.editor)
    }

    pub open spec fn cursor(&self) -> (nat, nat) {
        textarea_cursor(self.editor)
    }

    /// A fresh composer: the scaffold with the cursor on the scope value and
    /// no decisions, reports or warnings.
    pub fn new(schema: &CommitSchema) -> (c: ComposerState)
        requires
            3 * schema.properties.len() + 14 <= usize::MAX,
        ensures
            c.lines() == scaffold_spec(keys_of(schema@)),
            lines_view(c.pristine@) == scaffold_spec(keys_of(schema@)),
            c.cursor() == (SCOPE_VALUE_LINE as nat, 0nat),
            c.issues@.len() == 0,
            c.warnings@.len() == 0,
            c.applicability@.len() == schema@.len(),
            forall|i: int| 0 <= i < c.applicability@.len() ==> c.applicability@[i] is None,
            keys_well_formed(keys_of(schema@)) ==> intact_spec(c.lines(), keys_of(schema@)),
    {
        let pristine = scaffold_lines(schema);
        let mut editor = editor_new(scaffold_lines(schema));
        proof {
            let keys = keys_of(schema@);
            assert(scaffold_spec(keys)[SCOPE_VALUE_LINE as int].len() == 0);
            if keys_well_formed(keys) {
                lemma_scaffold_is_intact(keys);
            }
        }
        editor_jump(&mut editor, terminal_line(SCOPE_VALUE_LINE), 0);
        let mut applicability: Vec<Option<Applicability>> = Vec::new();
        let mut i: usize = 0;
        while i < schema.properties.len()
            invariant
                i <= schema.properties.len(),
                applicability.len() == i,
                forall|j: int| 0 <= j < i ==> applicability@[j] is None,
            decreases schema.properties.len() - i,
        {
            applicability.push(None);
            i = i + 1;
        }
        ComposerState {
            editor,
            pristine,
            issues: Vec::new(),
            applicability,
            warnings: Vec::new(),
        }
    }

    /// Whether the author changed the document or decided any conditional
    /// property.
    pub fn dirty(&self) -> (r: bool)
        ensures
            r == (self.lines() != lines_view(self.pristine@) || exists|i: int|
                0 <= i < self.applicability@.len() && self.applicability@[i] is Some),
    {
        let lines = editor_lines(&self.editor);
        let same = same_lines(&lines, &self.pristine);
        let mut decided = false;
        let mut i: usize = 0;
        while i < self.applicability.len()
            invariant
                i <= self.applicability.len(),
                decided == exists|j: int| 0 <= j < i && self.applicability@[j] is Some,
            decreases self.applicability.len() - i,
        {
            if self.applicability[i].is_some() {
                decided = true;
            }
            i = i + 1;
        }
        !same || decided
    }

    /// The field occurrence that holds the cursor.
    pub fn current_field(&self, schema: &CommitSchema) -> (r: Option<FieldKind>)
        ensures
            r == field_at_spec(self.lines(), schema@, self.cursor().0),
    {
        let lines = editor_lines(&self.editor);
        let parsed = parse_document(lines.as_slice(), schema);
        let cursor = editor_cursor(&self.editor);
        match section_index(&parsed, cursor.0) {
            Some(i) => Some(parsed.sections[i].kind),
            None => None,
        }
    }

    /// After an edit in place: keeps it when every heading is intact, settling
    /// the cursor and clearing the reports; otherwise puts back the editor as
    /// it was before the edit. Returns whether the edit was kept.
    fn keep_if_intact(&mut self, schema: &CommitSchema, previous: Editor, previous_cursor: (usize, usize)) -> (kept: bool)
        ensures
            kept == intact_spec(old(self).lines(), keys_of(schema@)),
            kept ==> final(self).lines() == old(self).lines(),
            kept ==> final(self).cursor() == settled_cursor(
                old(self).lines(),
                keys_of(schema@),
                (previous_cursor.0 as nat, previous_cursor.1 as nat),
                old(self).cursor(),
            ),
            kept ==> final(self).issues@.len() == 0,
            !kept ==> final(self).lines() == textarea_lines(previous) && final(self).cursor()
                == textarea_cursor(previous) && final(self).issues@ == old(self).issues@,
            final(self).pristine@ == old(self).pristine@,
            final(self).applicability@ == old(self).applicability@,
            final(self).warnings@ == old(self).warnings@,
    {
        let lines = editor_lines(&self.editor);
        if headings_are_intact(lines.as_slice(), schema) {
            skip_noneditable_cursor(&mut self.editor, schema, previous_cursor);
            self.issues.clear();
            true
        } else {
            self.editor = previous;
            false
        }
    }

    /// Lets the editor handle a key press, keeping the result only when every
    /// heading stays intact.
    pub fn edit_with_key(&mut self, schema: &CommitSchema, key: KeyPress) -> (kept: bool)
        ensures
            intact_spec(old(self).lines(), keys_of(schema@)) ==> intact_spec(final(self).lines(), keys_of(schema@)),
            kept == intact_spec(after_input(old(self).editor, key).0, keys_of(schema@)),
            kept ==> final(self).lines() == after_input(old(self).editor, key).0
                && final(self).cursor() == settled_cursor(
                    after_input(old(self).editor, key).0,
                    keys_of(schema@),
                    old(self).cursor(),
                    after_input(old(self).editor, key).1,
                ) && final(self).issues@.len() == 0,
            !kept ==> final(self).lines() == old(self).lines() && final(self).cursor() == old(self).cursor()
                && final(self).issues@ == old(self).issues@,
            final(self).pristine@ == old(self).pristine@,
            final(self).applicability@ == old(self).applicability@,
            final(self).warnings@ == old(self).warnings@,
    {
        let previous_cursor = editor_cursor(&self.editor);
        let previous = editor_clone(&self.editor);
        editor_input(&mut self.editor, key);
        self.keep_if_intact(schema, previous, previous_cursor)
    }

    /// Inserts pasted text at the cursor, keeping the result only when every
    /// heading stays intact.
    pub fn edit_with_paste(&mut self, schema: &CommitSchema, text: &str) -> (kept: bool)
        ensures
            intact_spec(old(self).lines(), keys_of(schema@)) ==> intact_spec(final(self).lines(), keys_of(schema@)),
            kept == intact_spec(after_insert(old(self).editor, text@).0, keys_of(schema@)),
            kept ==> final(self).lines() == after_insert(old(self).editor, text@).0
                && final(self).cursor() == settled_cursor(
                    after_insert(old(self).editor, text@).0,
                    keys_of(schema@),
                    old(self).cursor(),
                    after_insert(old(self).editor, text@).1,
                ) && final(self).issues@.len() == 0,
            !kept ==> final(self).lines() == old(self).lines() && final(self).cursor() == old(self).cursor()
                && final(self).issues@ == old(self).issues@,
            final(self).pristine@ == old(self).pristine@,
            final(self).applicability@ == old(self).applicability@,
            final(self).warnings@ == old(self).warnings@,
    {
        let previous_cursor = editor_cursor(&self.editor);
        let previous = editor_clone(&self.editor);
        editor_insert_str(&mut self.editor, text);
        self.keep_if_intact(schema, previous, previous_cursor)
    }

    /// Moves the cursor up or down, then off any heading or reserved line,
    /// clearing the reports.
    pub fn move_cursor(&mut self, schema: &CommitSchema, motion: CursorMotion)
        ensures
            intact_spec(old(self).lines(), keys_of(schema@)) ==> intact_spec(final(self).lines(), keys_of(schema@)),
            final(self).lines() == old(self).lines(),
            final(self).cursor() == settled_cursor(
                old(self).lines(),
                keys_of(schema@),
                old(self).cursor(),
                after_move(old(self).editor, motion),
            ),
            final(self).issues@.len() == 0,
            final(self).pristine@ == old(self).pristine@,
            final(self).applicability@ == old(self).applicability@,
            final(self).warnings@ == old(self).warnings@,
    {
        let previous = editor_cursor(&self.editor);
        editor_move(&mut self.editor, motion);
        skip_noneditable_cursor(&mut self.editor, schema, previous);
        self.issues.clear();
    }

    /// Handles Backspace or Delete without letting the edit reach into another
    /// field: at the start of a line under an empty line, the character before
    /// the cursor (the line break) is deleted; any edit that breaks a heading
    /// or moves the cursor into another field is undone.
    pub fn delete_within_field(&mut self, schema: &CommitSchema, key: KeyPress)
        ensures
            final(self).lines() == delete_result(*old(self), schema@, key).0,
            final(self).cursor() == delete_result(*old(self), schema@, key).1,
            delete_result(*old(self), schema@, key).2 ==> final(self).issues@.len() == 0,
            !delete_result(*old(self), schema@, key).2 ==> final(self).issues@ == old(self).issues@,
            intact_spec(old(self).lines(), keys_of(schema@)) ==> intact_spec(final(self).lines(), keys_of(schema@)),
            final(self).pristine@ == old(self).pristine@,
            final(self).applicability@ == old(self).applicability@,
            final(self).warnings@ == old(self).warnings@,
    {
        let ghost props = schema@;
        let ghost keys = keys_of(props);
        let cursor = editor_cursor(&self.editor);
        let lines = editor_lines(&self.editor);
        let rows = lines_to_rows(lines.as_slice());
        let key_chars = key_rows(schema);
        let join = cursor.1 == 0 && cursor.0 > 0 && cursor.0 - 1 < rows.len() && rows[cursor.0
            - 1].len() == 0 && cursor.0 < rows.len() && structural_marker(
            rows[cursor.0].as_slice(),
            &key_chars,
        ).is_none();
        assert(join == join_previous_spec(self.lines(), self.cursor(), keys));
        let previous_field = match self.current_field(schema) {
            Some(kind) => kind.id(),
            None => {
                return ;
            },
        };
        let previous_cursor = cursor;
        let previous = editor_clone(&self.editor);
        let restore = editor_clone(&self.editor);
        let mut saved: Vec<ValidationIssue> = Vec::new();
        std::mem::swap(&mut saved, &mut self.issues);
        if join {
            editor_delete_char(&mut self.editor);
        } else {
            editor_input(&mut self.editor, key);
        }
        let kept = self.keep_if_intact(schema, previous, previous_cursor);
        if !kept {
            self.issues = saved;
            return ;
        }
        let same_field = match self.current_field(schema) {
            Some(kind) => kind.id() == previous_field,
            None => false,
        };
        if !same_field {
            self.editor = restore;
            self.issues = saved;
        }
    }

    /// Moves the cursor left or right as the editor does, undoing the move
    /// when it would leave the current field.
    pub fn move_horizontally_within_field(&mut self, schema: &CommitSchema, key: KeyPress)
        ensures
            (key.code == KeyCode::Left || key.code == KeyCode::Right) && intact_spec(old(self).lines(), keys_of(schema@)) ==> intact_spec(final(self).lines(), keys_of(schema@)),
            final(self).lines() == horizontal_result(*old(self), schema@, key).0,
            final(self).cursor() == horizontal_result(*old(self), schema@, key).1,
            horizontal_result(*old(self), schema@, key).2 ==> final(self).issues@.len() == 0,
            !horizontal_result(*old(self), schema@, key).2 ==> final(self).issues@ == old(self).issues@,
            final(self).pristine@ == old(self).pristine@,
            final(self).applicability@ == old(self).applicability@,
            final(self).warnings@ == old(self).warnings@,
    {
        let previous = editor_clone(&self.editor);
        let previous_cursor = editor_cursor(&self.editor);
        let previous_field = match self.current_field(schema) {
            Some(kind) => Some(kind.id()),
            None => None,
        };
        editor_input(&mut self.editor, key);
        skip_noneditable_cursor(&mut self.editor, schema, previous_cursor);
        let current = match self.current_field(schema) {
            Some(kind) => Some(kind.id()),
            None => None,
        };
        if previous_field.is_none() || current != previous_field {
            self.editor = previous;
        } else {
            self.issues.clear();
        }
    }

    /// Enter on a scope or description value, or on an empty value, moves the
    /// cursor to the value line of the next field instead of editing.
    /// Returns whether Enter was consumed this way.
    pub fn advance_on_enter(&mut self, schema: &CommitSchema) -> (consumed: bool)
        ensures
            intact_spec(old(self).lines(), keys_of(schema@)) ==> intact_spec(final(self).lines(), keys_of(schema@)),
            consumed == advance_spec(old(self).lines(), schema@, old(self).cursor()).0,
            !consumed ==> *final(self) == *old(self),
            final(self).lines() == old(self).lines(),
            final(self).cursor() == advance_spec(old(self).lines(), schema@, old(self).cursor()).1,
            advance_spec(old(self).lines(), schema@, old(self).cursor()).2 ==> final(self).issues@.len() == 0,
            !advance_spec(old(self).lines(), schema@, old(self).cursor()).2 ==> final(self).issues@ == old(self).issues@,
            final(self).pristine@ == old(self).pristine@,
            final(self).applicability@ == old(self).applicability@,
            final(self).warnings@ == old(self).warnings@,
    {
        let cursor = editor_cursor(&self.editor);
        let lines = editor_lines(&self.editor);
        let parsed = parse_document(lines.as_slice(), schema);
        let index = match section_index(&parsed, cursor.0) {
            Some(i) => i,
            None => {
                return false;
            },
        };
        let current = &parsed.sections[index];
        let should_advance = match current.kind {
            FieldKind::Scope | FieldKind::Description => true,
            _ => chars_of(current.text.as_str()).len() == 0,
        };
        proof {
            let secs = parse_spec(self.lines(), schema@).sections;
            assert(secs[index as int] == parsed.sections@[index as int]@);
        }
        if !should_advance {
            return false;
        }
        if index + 1 < parsed.sections.len() && lines.len() > 0 {
            let next_line = parsed.sections[index + 1].heading_line;
            assert(parse_spec(self.lines(), schema@).sections[index + 1] == parsed.sections@[index as int + 1]@);
            if next_line < usize::MAX {
                editor_jump(&mut self.editor, terminal_line(next_line + 1), 0);
                self.issues.clear();
            }
        }
        true
    }

    /// Records the author's decision for the conditional property holding
    /// the cursor. Returns whether the cursor was on such a property.
    pub fn decide(&mut self, schema: &CommitSchema, applies: bool) -> (recorded: bool)
        requires
            old(self).applicability@.len() == schema@.len(),
        ensures
            recorded == decision_target(old(self).lines(), schema@, old(self).cursor().0) is Some,
            !recorded ==> *final(self) == *old(self),
            final(self).applicability@.len() == old(self).applicability@.len(),
            recorded ==> final(self).applicability@ == old(self).applicability@.update(
                decision_target(old(self).lines(), schema@, old(self).cursor().0)->Some_0 as int,
                Some(if applies { Applicability::Applies } else { Applicability::DoesNotApply }),
            ) && final(self).issues@.len() == 0,
            !recorded ==> final(self).applicability@ == old(self).applicability@ && final(self).issues@
                == old(self).issues@,
            final(self).lines() == old(self).lines(),
            final(self).cursor() == old(self).cursor(),
            final(self).pristine@ == old(self).pristine@,
            final(self).warnings@ == old(self).warnings@,
    {
        let lines = editor_lines(&self.editor);
        let count = lines.len();
        assert(lines_view(lines@).len() == count);
        match self.current_field(schema) {
            Some(FieldKind::Property { definition_index, .. }) => {
                proof {
                    lemma_field_at_in_schema(self.lines(), schema@, self.cursor().0);
                }
                match schema.properties[definition_index].requirement {
                    Requirement::Conditional(_) => {
                        self.applicability.set(
                            definition_index,
                            Some(
                                if applies {
                                    Applicability::Applies
                                } else {
                                    Applicability::DoesNotApply
                                },
                            ),
                        );
                        self.issues.clear();
                        true
                    },
                    _ => false,
                }
            },
            _ => false,
        }
    }

    /// The fields panel: each field of the schema in document order with its
    /// status. `accepted[k]` says whether the text of section `k` (in parse
    /// order) passes the commit scope or subject rules; sections without a
    /// verdict count as accepted.
    pub fn hud_fields(&self, schema: &CommitSchema, accepted: &Vec<bool>) -> (fields: Vec<HudField>)
        requires
            self.applicability@.len() == schema@.len(),
        ensures
            fields@ == hud_spec(self.lines(), schema@, issues_view(self.issues@), accepted@, self.applicability@),
    {
        let lines = editor_lines(&self.editor);
        let parsed = parse_document(lines.as_slice(), schema);
        let ghost props = schema@;
        let ghost secs = parsed@.sections;
        let ghost all = parsed@.issues + issues_view(self.issues@);
        let n = schema.properties.len();
        let mut fields: Vec<HudField> = Vec::new();
        let scope = self.field_status(schema, &parsed, accepted, FieldId::Scope);
        fields.push(HudField { id: FieldId::Scope, status: scope });
        let description = self.field_status(schema, &parsed, accepted, FieldId::Description);
        fields.push(HudField { id: FieldId::Description, status: description });
        let mut i: usize = 0;
        while i < n
            invariant
                i <= n,
                n == schema@.len(),
                self.applicability@.len() == n,
                secs == parsed@.sections,
                fields.len() == i + 2,
                forall|k: int| 0 <= k < fields.len() ==> fields@[k] == hud_spec(self.lines(), schema@, issues_view(self.issues@), accepted@, self.applicability@)[k],
                parsed@ == parse_spec(self.lines(), schema@),
            decreases n - i,
        {
            let status = self.field_status(schema, &parsed, accepted, FieldId::Property(i));
            fields.push(HudField { id: FieldId::Property(i), status });
            i = i + 1;
        }
        let breaking = self.field_status(schema, &parsed, accepted, FieldId::BreakingChange);
        fields.push(HudField { id: FieldId::BreakingChange, status: breaking });
        assert(fields@ =~= hud_spec(self.lines(), schema@, issues_view(self.issues@), accepted@, self.applicability@));
        fields
    }

    fn field_status(&self, schema: &CommitSchema, parsed: &ParsedDocument, accepted: &Vec<bool>, id: FieldId) -> (st: FieldStatus)
        requires
            field_in_schema(id, schema@.len()),
            self.applicability@.len() == schema@.len(),
        ensures
            st == field_status_spec(
                schema@,
                parsed@.sections,
                parsed@.issues + issues_view(self.issues@),
                accepted@,
                self.applicability@,
                id,
            ),
    {
        let ghost all = parsed@.issues + issues_view(self.issues@);
        let flagged = issue_for(&parsed.issues, id) || issue_for(&self.issues, id);
        assert(flagged == has_issue_for(all, id)) by {
            if has_issue_for(all, id) {
                let k = choose|k: int| 0 <= k < all.len() && (#[trigger] all[k]).field == Some(id);
                if k < parsed@.issues.len() {
                    assert(has_issue_for(parsed@.issues, id));
                } else {
                    assert(issues_view(self.issues@)[k - parsed@.issues.len()] == all[k]);
                }
            }
            if has_issue_for(parsed@.issues, id) {
                let k = choose|k: int| 0 <= k < parsed@.issues.len() && (#[trigger] parsed@.issues[k]).field == Some(id);
                assert(all[k] == parsed@.issues[k]);
            }
            if has_issue_for(issues_view(self.issues@), id) {
                let k = choose|k: int| 0 <= k < issues_view(self.issues@).len() && (#[trigger] issues_view(self.issues@)[k]).field == Some(id);
                assert(all[k + parsed@.issues.len()] == issues_view(self.issues@)[k]);
            }
        }
        let (value, rejected) = section_flags(parsed, accepted, id);
        let decision = match id {
            FieldId::Property(i) => self.applicability[i],
            _ => None,
        };
        let conditional = match id {
            FieldId::Property(i) => match schema.properties[i].requirement {
                Requirement::Conditional(_) => true,
                _ => false,
            },
            _ => false,
        };
        let invalid = flagged || rejected || (decision == Some(Applicability::DoesNotApply) && value);
        let complete = if conditional {
            match decision {
                Some(Applicability::Applies) => value,
                Some(Applicability::DoesNotApply) => !value,
                None => false,
            }
        } else {
            value
        };
        if invalid {
            FieldStatus::Invalid
        } else if complete {
            FieldStatus::Complete
        } else {
            FieldStatus::Incomplete
        }
    }

    /// Checks the draft: with any report (parse, scope, description,
    /// properties, breaking change) the reports are shown in line order and
    /// the cursor goes to the first; returns whether the draft has none.
    /// `errors[k]` is the commit rules' verdict on section `k`'s value and
    /// `lists[d]` on the accepted values of repeatable property `d`.
    pub fn validate(&mut self, schema: &CommitSchema, errors: &Vec<Option<String>>, lists: &Vec<Option<String>>) -> (clean: bool)
        ensures
            clean == (draft_issues(old(self).lines(), schema@, errors_view(errors@), errors_view(lists@)).len() == 0),
            final(self).lines() == old(self).lines(),
            clean ==> final(self).cursor() == old(self).cursor() && final(self).issues@ == old(self).issues@,
            !clean ==> issues_view(final(self).issues@) == sort_by_line(
                draft_issues(old(self).lines(), schema@, errors_view(errors@), errors_view(lists@)),
            ),
            !clean && old(self).lines().len() > 0 ==> final(self).cursor() == jump_spec(
                old(self).lines(),
                terminal_coordinate(sort_by_line(draft_issues(old(self).lines(), schema@, errors_view(errors@), errors_view(lists@)))[0].line),
                0,
            ),
            final(self).pristine@ == old(self).pristine@,
            final(self).applicability@ == old(self).applicability@,
            final(self).warnings@ == old(self).warnings@,
    {
        let lines = editor_lines(&self.editor);
        let found = collect_draft_issues(lines.as_slice(), schema, errors, lists);
        if found.len() == 0 {
            return true;
        }
        let sorted = sorted_by_line(&found);
        proof {
            lemma_sort_len(issues_view(found@));
        }
        let first = sorted[0].line;
        assert(issues_view(sorted@)[0] == sorted@[0]@);
        self.issues = sorted;
        if lines.len() > 0 {
            editor_jump(&mut self.editor, terminal_line(first), 0);
        }
        false
    }

    /// Shows the rendering refusals of a checked draft: each points at the
    /// line under the first heading of its field, or at the cursor's line when
    /// it names no field there; the cursor goes to the first.
    pub fn report_render_errors(&mut self, schema: &CommitSchema, errors: Vec<(Option<FieldId>, String)>)
        ensures
            issues_view(final(self).issues@) == render_issues(
                parse_spec(old(self).lines(), schema@).sections,
                old(self).cursor().0,
                errors@,
            ),
            final(self).lines() == old(self).lines(),
            errors@.len() > 0 && old(self).lines().len() > 0 ==> final(self).cursor() == jump_spec(
                old(self).lines(),
                terminal_coordinate(render_issues(parse_spec(old(self).lines(), schema@).sections, old(self).cursor().0, errors@)[0].line),
                0,
            ),
            errors@.len() == 0 ==> final(self).cursor() == old(self).cursor(),
            final(self).pristine@ == old(self).pristine@,
            final(self).applicability@ == old(self).applicability@,
            final(self).warnings@ == old(self).warnings@,
    {
        let lines = editor_lines(&self.editor);
        let parsed = parse_document(lines.as_slice(), schema);
        proof {
            assert(lines_view(lines@).len() == lines.len());
            lemma_sections_bounded(lines_view(lines@), schema@);
        }
        let cursor = editor_cursor(&self.editor);
        let ghost secs = parsed@.sections;
        let mut issues: Vec<ValidationIssue> = Vec::new();
        let mut k: usize = 0;
        while k < errors.len()
            invariant
                k <= errors.len(),
                secs == parsed@.sections,
                sections_bounded(secs),
                issues_view(issues@) == render_issues(secs, cursor.0 as nat, errors@.subrange(0, k as int)),
            decreases errors.len() - k,
        {
            let field = errors[k].0;
            let line = match field {
                Some(id) => match first_section_of(&parsed, id) {
                    Some(i) => {
                        assert(secs[i as int] == parsed.sections@[i as int]@);
                        parsed.sections[i].heading_line + 1
                    },
                    None => cursor.0,
                },
                None => cursor.0,
            };
            let ghost before = issues_view(issues@);
            issues.push(ValidationIssue { field, line, message: errors[k].1.clone() });
            assert(errors@.subrange(0, k + 1).drop_last() =~= errors@.subrange(0, k as int));
            assert(issues_view(issues@) =~= before.push(issues_view(issues@).last()));
            k = k + 1;
        }
        assert(errors@.subrange(0, errors.len() as int) =~= errors@);
        if issues.len() > 0 && lines.len() > 0 {
            assert(issues_view(issues@)[0] == issues@[0]@);
            let first = issues[0].line;
            editor_jump(&mut self.editor, terminal_line(first), 0);
        }
        self.issues = issues;
    }

    /// Shows a refusal of the draft as a whole against the field and line of
    /// the cursor.
    pub fn report_draft_error(&mut self, schema: &CommitSchema, message: String)
        ensures
            issues_view(final(self).issues@) == seq![
                IssueView {
                    field: field_id_at(old(self).lines(), schema@, old(self).cursor().0),
                    line: old(self).cursor().0,
                    message: message@,
                },
            ],
            final(self).lines() == old(self).lines(),
            final(self).cursor() == old(self).cursor(),
            final(self).pristine@ == old(self).pristine@,
            final(self).applicability@ == old(self).applicability@,
            final(self).warnings@ == old(self).warnings@,
    {
        let field = match self.current_field(schema) {
            Some(kind) => Some(kind.id()),
            None => None,
        };
        let cursor = editor_cursor(&self.editor);
        let mut issues: Vec<ValidationIssue> = Vec::new();
        issues.push(ValidationIssue { field, line: cursor.0, message });
        assert(issues_view(issues@) =~= seq![issues@[0]@]);
        self.issues = issues;
    }
}

} // verus!
