//! The structured commit document edited by the composer: a scaffold of
//! section labels and field headings generated from a commit schema, the
//! parser that recovers field values from the edited lines, and the rules that
//! keep the headings intact and the cursor on editable lines.

use vstd::prelude::*;

use crate::schema::{
    field_in_schema, field_name, field_name_spec, field_order, keys_of, kind_id, CommitSchema,
    FieldId, FieldKind, Multiplicity, PropertyView,
};
use crate::text::{
    all_ws, chars_eq, chars_of, debug_quoted, debug_text, is_blank, string_of, trim, trim_end,
    trim_end_spec, trim_spec, is_ws, lemma_trim_end_prefix,
};

verus! {

/// The line on which the scope value is typed in a fresh document.
pub const SCOPE_VALUE_LINE: usize = 2;

/// A labelled group of fields in the document.
#[derive(Clone, Copy, Debug, PartialEq, Eq, Structural)]
pub enum MessageSection {
    Subject,
    Body,
    Footer,
}

pub open spec fn section_label_spec(s: MessageSection) -> Seq<char> {
    match s {
        MessageSection::Subject => "Message Subject"@,
        MessageSection::Body => "Message Body"@,
        MessageSection::Footer => "Message Footer"@,
    }
}

impl MessageSection {
    /// The line that labels this section in the document.
    pub fn label(self) -> (s: &'static str)
        ensures
            s@ == section_label_spec(self),
    {
        match self {
            MessageSection::Subject => "Message Subject",
            MessageSection::Body => "Message Body",
            MessageSection::Footer => "Message Footer",
        }
    }
}

/// A non-editable structural line: a section label or a field heading.
#[derive(Clone, Copy, Debug, PartialEq, Eq, Structural)]
pub enum DocumentMarker {
    Section(MessageSection),
    Field(FieldId),
}

/// The heading line of a property: its key followed by a colon.
pub open spec fn heading_of(key: Seq<char>) -> Seq<char> {
    key.push(':')
}

pub open spec fn is_property_heading(line: Seq<char>, keys: Seq<Seq<char>>, i: int) -> bool {
    0 <= i < keys.len() && line == heading_of(keys[i])
}

pub open spec fn first_property_heading(line: Seq<char>, keys: Seq<Seq<char>>, i: int) -> bool {
    is_property_heading(line, keys, i) && forall|j: int|
        0 <= j < i ==> !is_property_heading(line, keys, j)
}

/// The first property whose heading is `line`.
pub open spec fn property_heading(line: Seq<char>, keys: Seq<Seq<char>>) -> Option<nat> {
    if exists|i: int| is_property_heading(line, keys, i) {
        Some(choose|i: nat| first_property_heading(line, keys, i as int))
    } else {
        None
    }
}

/// The field whose heading `line` is exactly.
pub open spec fn exact_heading_spec(line: Seq<char>, keys: Seq<Seq<char>>) -> Option<FieldId> {
    if line == "scope:"@ {
        Some(FieldId::Scope)
    } else if line == "description:"@ {
        Some(FieldId::Description)
    } else if line == "breaking-change:"@ {
        Some(FieldId::BreakingChange)
    } else {
        match property_heading(line, keys) {
            Some(i) => Some(FieldId::Property(i as usize)),
            None => None,
        }
    }
}

/// The structural marker that `line` is, if any.
pub open spec fn marker_spec(line: Seq<char>, keys: Seq<Seq<char>>) -> Option<DocumentMarker> {
    if line == section_label_spec(MessageSection::Subject) {
        Some(DocumentMarker::Section(MessageSection::Subject))
    } else if line == section_label_spec(MessageSection::Body) {
        Some(DocumentMarker::Section(MessageSection::Body))
    } else if line == section_label_spec(MessageSection::Footer) {
        Some(DocumentMarker::Section(MessageSection::Footer))
    } else {
        match exact_heading_spec(line, keys) {
            Some(id) => Some(DocumentMarker::Field(id)),
            None => None,
        }
    }
}

/// The views of a sequence of strings.
pub open spec fn lines_view(lines: Seq<String>) -> Seq<Seq<char>> {
    Seq::new(lines.len(), |i: int| lines[i]@)
}

/// The views of a sequence of character vectors.
pub open spec fn rows_view(rows: Seq<Vec<char>>) -> Seq<Seq<char>> {
    Seq::new(rows.len(), |i: int| rows[i]@)
}

/// The characters of every line.
pub fn lines_to_rows(lines: &[String]) -> (rows: Vec<Vec<char>>)
    ensures
        rows_view(rows@) == lines_view(lines@),
{
    let mut rows: Vec<Vec<char>> = Vec::new();
    let mut i: usize = 0;
    while i < lines.len()
        invariant
            i <= lines.len(),
            rows.len() == i,
            forall|j: int| 0 <= j < i ==> (#[trigger] rows@[j])@ == lines@[j]@,
        decreases lines.len() - i,
    {
        rows.push(chars_of(lines[i].as_str()));
        i = i + 1;
    }
    assert(rows_view(rows@) =~= lines_view(lines@));
    rows
}

/// The characters of each property key, in order.
pub fn key_rows(schema: &CommitSchema) -> (rows: Vec<Vec<char>>)
    ensures
        rows_view(rows@) == keys_of(schema@),
{
    let mut rows: Vec<Vec<char>> = Vec::new();
    let mut i: usize = 0;
    while i < schema.properties.len()
        invariant
            i <= schema.properties.len(),
            rows.len() == i,
            forall|j: int| 0 <= j < i ==> (#[trigger] rows@[j])@ == schema.properties@[j].key@,
        decreases schema.properties.len() - i,
    {
        rows.push(chars_of(schema.properties[i].key.as_str()));
        i = i + 1;
    }
    assert(rows_view(rows@) =~= keys_of(schema@));
    rows
}

/// The first property whose heading is `line`.
fn find_property_heading(line: &[char], keys: &Vec<Vec<char>>) -> (r: Option<usize>)
    ensures
        r matches Some(i) ==> property_heading(line@, rows_view(keys@)) == Some(i as nat),
        r is None ==> property_heading(line@, rows_view(keys@)) is None,
{
    let ghost kv = rows_view(keys@);
    let mut i: usize = 0;
    while i < keys.len()
        invariant
            i <= keys.len(),
            kv == rows_view(keys@),
            forall|j: int| 0 <= j < i ==> !is_property_heading(line@, kv, j),
        decreases keys.len() - i,
    {
        let mut heading = keys[i].clone();
        heading.push(':');
        if chars_eq(line, heading.as_slice()) {
            proof {
                assert(is_property_heading(line@, kv, i as int));
                assert(first_property_heading(line@, kv, i as int));
                let c = choose|c: nat| first_property_heading(line@, kv, c as int);
                assert(c == i as nat) by {
                    if c < i as nat {
                        assert(!is_property_heading(line@, kv, c as int));
                    } else if c > i as nat {
                        assert(!is_property_heading(line@, kv, i as int));
                    }
                }
            }
            return Some(i);
        }
        i = i + 1;
    }
    None
}

/// The field whose heading `line` is exactly.
pub fn exact_heading(line: &[char], keys: &Vec<Vec<char>>) -> (r: Option<FieldId>)
    ensures
        r == exact_heading_spec(line@, rows_view(keys@)),
{
    if chars_eq(line, chars_of("scope:").as_slice()) {
        Some(FieldId::Scope)
    } else if chars_eq(line, chars_of("description:").as_slice()) {
        Some(FieldId::Description)
    } else if chars_eq(line, chars_of("breaking-change:").as_slice()) {
        Some(FieldId::BreakingChange)
    } else {
        match find_property_heading(line, keys) {
            Some(i) => Some(FieldId::Property(i)),
            None => None,
        }
    }
}

/// The structural marker that `line` is, if any.
pub fn structural_marker(line: &[char], keys: &Vec<Vec<char>>) -> (r: Option<DocumentMarker>)
    ensures
        r == marker_spec(line@, rows_view(keys@)),
{
    if chars_eq(line, chars_of(MessageSection::Subject.label()).as_slice()) {
        Some(DocumentMarker::Section(MessageSection::Subject))
    } else if chars_eq(line, chars_of(MessageSection::Body.label()).as_slice()) {
        Some(DocumentMarker::Section(MessageSection::Body))
    } else if chars_eq(line, chars_of(MessageSection::Footer.label()).as_slice()) {
        Some(DocumentMarker::Section(MessageSection::Footer))
    } else {
        match exact_heading(line, keys) {
            Some(id) => Some(DocumentMarker::Field(id)),
            None => None,
        }
    }
}

/// A heading-shaped name: lowercase ASCII letters, digits and hyphens.
pub open spec fn heading_name_char(c: char) -> bool {
    ('a' <= c && c <= 'z') || ('0' <= c && c <= '9') || c == '-'
}

/// A line that has the shape of a field heading: a non-empty heading-shaped
/// name followed by a colon.
pub open spec fn looks_like_heading_spec(line: Seq<char>) -> bool {
    &&& line.len() > 1
    &&& line.last() == ':'
    &&& forall|k: int| 0 <= k < line.len() - 1 ==> heading_name_char(#[trigger] line[k])
}

/// Whether `line` has the shape of a field heading.
pub fn looks_like_heading(line: &[char]) -> (r: bool)
    ensures
        r == looks_like_heading_spec(line@),
{
    if line.len() < 2 || line[line.len() - 1] != ':' {
        return false;
    }
    let mut k: usize = 0;
    while k < line.len() - 1
        invariant
            line.len() >= 2,
            k <= line.len() - 1,
            forall|j: int| 0 <= j < k ==> heading_name_char(#[trigger] line@[j]),
        decreases line.len() - 1 - k,
    {
        let c = line[k];
        if !(('a' <= c && c <= 'z') || ('0' <= c && c <= '9') || c == '-') {
            return false;
        }
        k = k + 1;
    }
    true
}

/// A known field name written without its colon, possibly padded.
pub open spec fn malformed_known_heading_spec(line: Seq<char>, keys: Seq<Seq<char>>) -> bool {
    let t = trim_spec(line);
    ||| t == "scope"@
    ||| t == "description"@
    ||| t == "breaking-change"@
    ||| exists|i: int| 0 <= i < keys.len() && t == keys[i]
}

/// Whether `line` is a known field name written without its colon.
pub fn looks_like_malformed_known_heading(line: &[char], keys: &Vec<Vec<char>>) -> (r: bool)
    ensures
        r == malformed_known_heading_spec(line@, rows_view(keys@)),
{
    let t = trim(line);
    if chars_eq(t.as_slice(), chars_of("scope").as_slice()) || chars_eq(
        t.as_slice(),
        chars_of("description").as_slice(),
    ) || chars_eq(t.as_slice(), chars_of("breaking-change").as_slice()) {
        return true;
    }
    let ghost kv = rows_view(keys@);
    let mut i: usize = 0;
    while i < keys.len()
        invariant
            i <= keys.len(),
            kv == rows_view(keys@),
            t@ == trim_spec(line@),
            forall|j: int| 0 <= j < i ==> t@ != kv[j],
        decreases keys.len() - i,
    {
        if chars_eq(t.as_slice(), keys[i].as_slice()) {
            assert(t@ == kv[i as int]);
            return true;
        }
        i = i + 1;
    }
    false
}


/// Line `l` of the scaffold for a schema with the given keys: the subject
/// section with scope and description, the body section with one heading per
/// property, and the footer section with the breaking change.
pub open spec fn scaffold_line(keys: Seq<Seq<char>>, l: int) -> Seq<char> {
    let n = keys.len() as int;
    if l == 0 {
        section_label_spec(MessageSection::Subject)
    } else if l == 1 {
        "scope:"@
    } else if l == 4 {
        "description:"@
    } else if l == 8 {
        section_label_spec(MessageSection::Body)
    } else if 9 <= l < 9 + 3 * n {
        if (l - 9) % 3 == 0 {
            heading_of(keys[(l - 9) / 3])
        } else {
            Seq::empty()
        }
    } else if l == 10 + 3 * n {
        section_label_spec(MessageSection::Footer)
    } else if l == 11 + 3 * n {
        "breaking-change:"@
    } else {
        Seq::empty()
    }
}

/// The fresh document for a schema with the given keys.
pub open spec fn scaffold_spec(keys: Seq<Seq<char>>) -> Seq<Seq<char>> {
    Seq::new(3 * keys.len() + 14, |l: int| scaffold_line(keys, l))
}

proof fn lemma_div3(i: int, r: int)
    requires
        0 <= i,
        0 <= r < 3,
    ensures
        (3 * i + r) % 3 == r,
        (3 * i + r) / 3 == i,
{
    assert((3 * i + r) % 3 == r && (3 * i + r) / 3 == i) by (nonlinear_arith)
        requires
            0 <= i,
            0 <= r < 3,
    ;
}

/// The fresh document for a schema: every field heading with room for its
/// value beneath, grouped into subject, body and footer sections.
pub fn scaffold_lines(schema: &CommitSchema) -> (lines: Vec<String>)
    requires
        3 * schema.properties.len() + 14 <= usize::MAX,
    ensures
        lines_view(lines@) == scaffold_spec(keys_of(schema@)),
{
    let ghost keys = keys_of(schema@);
    let n = schema.properties.len();
    let mut lines: Vec<String> = Vec::new();
    lines.push(String::from_str(MessageSection::Subject.label()));
    lines.push(String::from_str("scope:"));
    lines.push(String::new());
    lines.push(String::new());
    lines.push(String::from_str("description:"));
    lines.push(String::new());
    lines.push(String::new());
    lines.push(String::new());
    lines.push(String::from_str(MessageSection::Body.label()));
    let mut i: usize = 0;
    while i < n
        invariant
            n == schema.properties.len(),
            3 * n + 14 <= usize::MAX,
            keys == keys_of(schema@),
            i <= n,
            lines.len() == 9 + 3 * i,
            forall|l: int| 0 <= l < lines.len() ==> (#[trigger] lines@[l])@ == scaffold_line(keys, l),
        decreases n - i,
    {
        let mut heading = schema.properties[i].key.clone();
        heading.append(":");
        proof {
            reveal_strlit(":");
            assert(heading@ =~= heading_of(keys[i as int]));
            lemma_div3(i as int, 0);
            lemma_div3(i as int, 1);
            lemma_div3(i as int, 2);
        }
        lines.push(heading);
        lines.push(String::new());
        lines.push(String::new());
        i = i + 1;
    }
    lines.push(String::new());
    lines.push(String::from_str(MessageSection::Footer.label()));
    lines.push(String::from_str("breaking-change:"));
    lines.push(String::new());
    lines.push(String::new());
    assert(lines_view(lines@) =~= scaffold_spec(keys));
    lines
}


/// A structural marker and the line it stands on.
#[derive(Clone, Copy, Debug, PartialEq, Eq, Structural)]
pub struct MarkerAt {
    pub line: usize,
    pub marker: DocumentMarker,
}

/// The markers among the first `m` lines, in line order.
pub open spec fn markers_upto(lines: Seq<Seq<char>>, keys: Seq<Seq<char>>, m: nat) -> Seq<
    MarkerAt,
>
    decreases m,
{
    if m == 0 {
        Seq::empty()
    } else {
        let prev = markers_upto(lines, keys, (m - 1) as nat);
        match marker_spec(lines[m - 1], keys) {
            Some(marker) => prev.push(MarkerAt { line: (m - 1) as usize, marker }),
            None => prev,
        }
    }
}

/// The markers of a document, in line order.
pub open spec fn markers_of(lines: Seq<Seq<char>>, keys: Seq<Seq<char>>) -> Seq<MarkerAt> {
    markers_upto(lines, keys, lines.len())
}

/// `ms` lists exactly the marker lines below `m`, in increasing order.
pub open spec fn enumerates_markers(
    ms: Seq<MarkerAt>,
    lines: Seq<Seq<char>>,
    keys: Seq<Seq<char>>,
    m: nat,
) -> bool {
    &&& forall|k: int| 0 <= k < ms.len() ==> (#[trigger] ms[k]).line < m
    &&& forall|k: int| 0 <= k < ms.len() - 1 ==> (#[trigger] ms[k]).line < ms[k + 1].line
    &&& forall|k: int|
        0 <= k < ms.len() ==> marker_spec(lines[(#[trigger] ms[k]).line as int], keys) == Some(
            ms[k].marker,
        )
    &&& forall|l: int|
        0 <= l < m && (#[trigger] marker_spec(lines[l], keys)) is Some ==> exists|k: int|
            0 <= k < ms.len() && (#[trigger] ms[k]).line == l
}

/// A list that enumerates the marker lines in order is the list of markers.
pub proof fn lemma_markers_enumerated(
    ms: Seq<MarkerAt>,
    lines: Seq<Seq<char>>,
    keys: Seq<Seq<char>>,
    m: nat,
)
    requires
        m <= lines.len(),
        enumerates_markers(ms, lines, keys, m),
    ensures
        markers_upto(lines, keys, m) == ms,
    decreases m,
{
    if m == 0 {
        if ms.len() > 0 {
            assert(ms[0].line < m);
        }
        assert(ms =~= Seq::<MarkerAt>::empty());
    } else {
        let l = m - 1;
        assert forall|a: int, b: int| 0 <= a < b < ms.len() implies ms[a].line < ms[b].line by {
            lemma_increasing(ms, a, b);
        }
        match marker_spec(lines[l], keys) {
            Some(marker) => {
                let k = choose|k: int| 0 <= k < ms.len() && (#[trigger] ms[k]).line == l;
                if k < ms.len() - 1 {
                    assert(ms[ms.len() - 1].line < m);
                    assert(ms[k].line < ms[ms.len() - 1].line);
                }
                let rest = ms.drop_last();
                assert forall|l2: int|
                    0 <= l2 < (m - 1) as nat && (#[trigger] marker_spec(
                        lines[l2],
                        keys,
                    )) is Some implies exists|k2: int|
                    0 <= k2 < rest.len() && (#[trigger] rest[k2]).line == l2 by {
                    let k2 = choose|k2: int| 0 <= k2 < ms.len() && (#[trigger] ms[k2]).line == l2;
                    assert(k2 != ms.len() - 1);
                    assert(rest[k2].line == l2);
                }
                assert forall|k2: int| 0 <= k2 < rest.len() implies (#[trigger] rest[k2]).line < (m
                    - 1) as nat by {
                    assert(ms[k2].line < ms[ms.len() - 1].line);
                }
                lemma_markers_enumerated(rest, lines, keys, (m - 1) as nat);
                assert(ms =~= rest.push(MarkerAt { line: l as usize, marker }));
            },
            None => {
                assert forall|k2: int| 0 <= k2 < ms.len() implies (#[trigger] ms[k2]).line < (m
                    - 1) as nat by {
                    if ms[k2].line == l {
                        assert(marker_spec(lines[l], keys) is Some);
                    }
                }
                lemma_markers_enumerated(ms, lines, keys, (m - 1) as nat);
            },
        }
    }
}

proof fn lemma_increasing(ms: Seq<MarkerAt>, a: int, b: int)
    requires
        0 <= a < b < ms.len(),
        forall|k: int| 0 <= k < ms.len() - 1 ==> (#[trigger] ms[k]).line < ms[k + 1].line,
    ensures
        ms[a].line < ms[b].line,
    decreases b - a,
{
    if b > a + 1 {
        lemma_increasing(ms, a, b - 1);
        assert(ms[b - 1].line < ms[b].line);
    }
}

/// The markers a document must show, in order: the subject section with
/// scope and description, the body with every property, and the footer with
/// the breaking change.
pub open spec fn expected_signature(n: nat) -> Seq<DocumentMarker> {
    Seq::new(
        n + 6,
        |k: int|
            if k == 0 {
                DocumentMarker::Section(MessageSection::Subject)
            } else if k == 1 {
                DocumentMarker::Field(FieldId::Scope)
            } else if k == 2 {
                DocumentMarker::Field(FieldId::Description)
            } else if k == 3 {
                DocumentMarker::Section(MessageSection::Body)
            } else if k < n + 4 {
                DocumentMarker::Field(FieldId::Property((k - 4) as usize))
            } else if k == n + 4 {
                DocumentMarker::Section(MessageSection::Footer)
            } else {
                DocumentMarker::Field(FieldId::BreakingChange)
            },
    )
}

pub open spec fn signature_of(ms: Seq<MarkerAt>) -> Seq<DocumentMarker> {
    Seq::new(ms.len(), |k: int| ms[k].marker)
}

/// The field headings among the first `m` markers.
pub open spec fn field_markers_upto(ms: Seq<MarkerAt>, m: nat) -> Seq<MarkerAt>
    decreases m,
{
    if m == 0 {
        Seq::empty()
    } else {
        let prev = field_markers_upto(ms, (m - 1) as nat);
        if ms[m - 1].marker is Field {
            prev.push(ms[m - 1])
        } else {
            prev
        }
    }
}

pub open spec fn field_markers(ms: Seq<MarkerAt>) -> Seq<MarkerAt> {
    field_markers_upto(ms, ms.len())
}

/// Consecutive field headings leave at least two lines between them.
pub open spec fn headings_separated(hs: Seq<MarkerAt>) -> bool {
    forall|k: int| 0 <= k < hs.len() - 1 ==> (#[trigger] hs[k]).line + 3 <= hs[k + 1].line
}

/// A heading follows its section label, and a section label stands at least
/// four lines below the heading before it.
pub open spec fn group_pair_ok(a: MarkerAt, b: MarkerAt) -> bool {
    match (a.marker, b.marker) {
        (DocumentMarker::Section(_), DocumentMarker::Field(_)) => a.line + 1 <= b.line,
        (DocumentMarker::Field(_), DocumentMarker::Section(_)) => a.line + 4 <= b.line,
        _ => true,
    }
}

pub open spec fn groups_separated(ms: Seq<MarkerAt>) -> bool {
    forall|k: int| 0 <= k < ms.len() - 1 ==> group_pair_ok(#[trigger] ms[k], ms[k + 1])
}

/// The document keeps every heading, in schema order, with room for values,
/// and ends with an empty line.
pub open spec fn intact_spec(lines: Seq<Seq<char>>, keys: Seq<Seq<char>>) -> bool {
    let ms = markers_of(lines, keys);
    let hs = field_markers(ms);
    &&& signature_of(ms) == expected_signature(keys.len())
    &&& headings_separated(hs)
    &&& groups_separated(ms)
    &&& hs.len() > 0
    &&& hs.last().line + 3 <= lines.len()
    &&& lines.len() > 0
    &&& lines.last().len() == 0
}

/// Every marker listed among the first `m` lines is the marker of its line.
proof fn lemma_markers_sound(lines: Seq<Seq<char>>, keys: Seq<Seq<char>>, m: nat)
    requires
        m <= lines.len(),
        lines.len() <= usize::MAX,
    ensures
        forall|k: int|
            0 <= k < markers_upto(lines, keys, m).len() ==> (#[trigger] markers_upto(lines, keys, m)[k]).line
                < m && marker_spec(lines[markers_upto(lines, keys, m)[k].line as int], keys) == Some(
                markers_upto(lines, keys, m)[k].marker,
            ),
    decreases m,
{
    if m > 0 {
        lemma_markers_sound(lines, keys, (m - 1) as nat);
        let prev = markers_upto(lines, keys, (m - 1) as nat);
        let cur = markers_upto(lines, keys, m);
        assert forall|k: int| 0 <= k < cur.len() implies (#[trigger] cur[k]).line < m && marker_spec(
            lines[cur[k].line as int],
            keys,
        ) == Some(cur[k].marker) by {
            if k < prev.len() {
                assert(cur[k] == prev[k]);
            }
        }
    }
}

/// Whether some line of the document is the label of a message section.
pub open spec fn has_label(lines: Seq<Seq<char>>, s: MessageSection) -> bool {
    exists|l: int| 0 <= l < lines.len() && lines[l] == section_label_spec(s)
}

/// An intact document has the labels of the message subject, body and
/// footer, and ends with an empty line: a document without any of the three
/// labels, or ending in a line that is not empty, is refused.
pub proof fn lemma_intact_needs_labels_and_final_blank(lines: Seq<Seq<char>>, keys: Seq<Seq<char>>)
    requires
        lines.len() <= usize::MAX,
        intact_spec(lines, keys),
    ensures
        has_label(lines, MessageSection::Subject),
        has_label(lines, MessageSection::Body),
        has_label(lines, MessageSection::Footer),
        lines.len() > 0,
        lines.last().len() == 0,
{
    let ms = markers_of(lines, keys);
    let n = keys.len() as int;
    lemma_markers_sound(lines, keys, lines.len());
    assert(signature_of(ms) == expected_signature(keys.len()));
    assert(signature_of(ms).len() == expected_signature(keys.len()).len());
    assert(ms.len() == n + 6);
    assert(signature_of(ms)[0] == ms[0].marker);
    assert(signature_of(ms)[3] == ms[3].marker);
    assert(signature_of(ms)[n + 4] == ms[n + 4].marker);
    assert(ms[0].marker == DocumentMarker::Section(MessageSection::Subject));
    assert(ms[3].marker == DocumentMarker::Section(MessageSection::Body));
    assert(ms[n + 4].marker == DocumentMarker::Section(MessageSection::Footer));
    assert(lines[ms[0].line as int] == section_label_spec(MessageSection::Subject));
    assert(lines[ms[3].line as int] == section_label_spec(MessageSection::Body));
    assert(lines[ms[n + 4].line as int] == section_label_spec(MessageSection::Footer));
}

/// The markers of a document, in line order.
pub fn document_markers(rows: &Vec<Vec<char>>, keys: &Vec<Vec<char>>) -> (ms: Vec<MarkerAt>)
    ensures
        ms@ == markers_of(rows_view(rows@), rows_view(keys@)),
{
    let ghost lv = rows_view(rows@);
    let ghost kv = rows_view(keys@);
    let mut ms: Vec<MarkerAt> = Vec::new();
    let mut l: usize = 0;
    while l < rows.len()
        invariant
            l <= rows.len(),
            lv == rows_view(rows@),
            kv == rows_view(keys@),
            ms@ == markers_upto(lv, kv, l as nat),
        decreases rows.len() - l,
    {
        match structural_marker(rows[l].as_slice(), keys) {
            Some(marker) => {
                ms.push(MarkerAt { line: l, marker });
            },
            None => {},
        }
        l = l + 1;
    }
    ms
}

fn expected_markers(n: usize) -> (v: Vec<DocumentMarker>)
    requires
        n + 6 <= usize::MAX,
    ensures
        v@ == expected_signature(n as nat),
{
    let mut v: Vec<DocumentMarker> = Vec::new();
    v.push(DocumentMarker::Section(MessageSection::Subject));
    v.push(DocumentMarker::Field(FieldId::Scope));
    v.push(DocumentMarker::Field(FieldId::Description));
    v.push(DocumentMarker::Section(MessageSection::Body));
    let mut i: usize = 0;
    while i < n
        invariant
            i <= n,
            n + 6 <= usize::MAX,
            v.len() == 4 + i,
            forall|k: int| 0 <= k < v.len() ==> v@[k] == expected_signature(n as nat)[k],
        decreases n - i,
    {
        v.push(DocumentMarker::Field(FieldId::Property(i)));
        i = i + 1;
    }
    v.push(DocumentMarker::Section(MessageSection::Footer));
    v.push(DocumentMarker::Field(FieldId::BreakingChange));
    assert(v@ =~= expected_signature(n as nat));
    v
}

/// Marker lines stand below the number of lines scanned, in increasing order.
pub proof fn lemma_markers_lines(lines: Seq<Seq<char>>, keys: Seq<Seq<char>>, m: nat)
    ensures
        forall|k: int|
            0 <= k < markers_upto(lines, keys, m).len() ==> (#[trigger] markers_upto(
                lines,
                keys,
                m,
            )[k]).line < m,
    decreases m,
{
    if m > 0 {
        lemma_markers_lines(lines, keys, (m - 1) as nat);
    }
}

fn signature_matches(ms: &Vec<MarkerAt>, n: usize) -> (r: bool)
    ensures
        r == (signature_of(ms@) == expected_signature(n as nat)),
{
    if n > usize::MAX - 6 || ms.len() != n + 6 {
        assert(ms@.len() == ms.len());
        assert(signature_of(ms@).len() != expected_signature(n as nat).len());
        return false;
    }
    let expected = expected_markers(n);
    let mut k: usize = 0;
    while k < ms.len()
        invariant
            k <= ms.len(),
            ms.len() == expected.len(),
            expected@ == expected_signature(n as nat),
            forall|j: int| 0 <= j < k ==> ms@[j].marker == expected@[j],
        decreases ms.len() - k,
    {
        if ms[k].marker != expected[k] {
            assert(signature_of(ms@)[k as int] != expected_signature(n as nat)[k as int]);
            return false;
        }
        k = k + 1;
    }
    assert(signature_of(ms@) =~= expected_signature(n as nat));
    true
}

fn field_headings(ms: &Vec<MarkerAt>) -> (hs: Vec<MarkerAt>)
    ensures
        hs@ == field_markers(ms@),
{
    let mut hs: Vec<MarkerAt> = Vec::new();
    let mut k: usize = 0;
    while k < ms.len()
        invariant
            k <= ms.len(),
            hs@ == field_markers_upto(ms@, k as nat),
        decreases ms.len() - k,
    {
        if let DocumentMarker::Field(_) = ms[k].marker {
            hs.push(ms[k]);
        }
        k = k + 1;
    }
    hs
}

fn headings_are_separated(hs: &Vec<MarkerAt>) -> (r: bool)
    ensures
        r == headings_separated(hs@),
{
    let mut k: usize = 0;
    while hs.len() > 0 && k < hs.len() - 1
        invariant
            k <= hs.len(),
            forall|j: int| 0 <= j < k && j < hs.len() - 1 ==> (#[trigger] hs@[j]).line + 3 <= hs@[j + 1].line,
        decreases hs.len() - k,
    {
        if !(hs[k + 1].line >= hs[k].line && hs[k + 1].line - hs[k].line >= 3) {
            return false;
        }
        k = k + 1;
    }
    true
}

fn pair_ok(a: MarkerAt, b: MarkerAt) -> (r: bool)
    ensures
        r == group_pair_ok(a, b),
{
    match (a.marker, b.marker) {
        (DocumentMarker::Section(_), DocumentMarker::Field(_)) => b.line >= a.line && b.line
            - a.line >= 1,
        (DocumentMarker::Field(_), DocumentMarker::Section(_)) => b.line >= a.line && b.line
            - a.line >= 4,
        _ => true,
    }
}

fn groups_are_separated(ms: &Vec<MarkerAt>) -> (r: bool)
    ensures
        r == groups_separated(ms@),
{
    let mut k: usize = 0;
    while ms.len() > 0 && k < ms.len() - 1
        invariant
            k <= ms.len(),
            forall|j: int| 0 <= j < k && j < ms.len() - 1 ==> group_pair_ok(#[trigger] ms@[j], ms@[j + 1]),
        decreases ms.len() - k,
    {
        if !pair_ok(ms[k], ms[k + 1]) {
            return false;
        }
        k = k + 1;
    }
    true
}

/// Whether the document keeps every heading, in schema order, with room for
/// values, and ends with an empty line.
pub fn headings_are_intact(lines: &[String], schema: &CommitSchema) -> (r: bool)
    ensures
        r == intact_spec(lines_view(lines@), keys_of(schema@)),
{
    let rows = lines_to_rows(lines);
    let keys = key_rows(schema);
    let ms = document_markers(&rows, &keys);
    let same = signature_matches(&ms, keys.len());
    let hs = field_headings(&ms);
    let separated = headings_are_separated(&hs);
    let groups = groups_are_separated(&ms);
    let final_separated = hs.len() > 0 && hs[hs.len() - 1].line <= rows.len() && rows.len()
        - hs[hs.len() - 1].line >= 3;
    let ends_empty = rows.len() > 0 && rows[rows.len() - 1].len() == 0;
    proof {
        let lv = lines_view(lines@);
        assert(rows_view(rows@) == lv);
        if rows.len() > 0 {
            assert(lv.last() == rows@[rows.len() - 1]@);
        }
    }
    same && separated && groups && final_separated && ends_empty
}


/// A name that the document reserves for its own fields.
pub open spec fn reserved_field_name(key: Seq<char>) -> bool {
    key == "scope"@ || key == "description"@ || key == "breaking-change"@
}

/// Property keys that can head their own fields: distinct, and none of the
/// document's own field names.
pub open spec fn keys_well_formed(keys: Seq<Seq<char>>) -> bool {
    &&& forall|i: int|
        0 <= i < keys.len() ==> !reserved_field_name(#[trigger] keys[i])
    &&& forall|i: int, j: int|
        0 <= i < keys.len() && 0 <= j < keys.len() && i != j ==> keys[i] != keys[j]
}

proof fn lemma_reveal_literals()
    ensures
        "scope:"@ == "scope"@.push(':'),
        "description:"@ == "description"@.push(':'),
        "breaking-change:"@ == "breaking-change"@.push(':'),
        "scope:"@.len() == 6,
        "description:"@.len() == 12,
        "breaking-change:"@.len() == 16,
        section_label_spec(MessageSection::Subject).len() == 15,
        section_label_spec(MessageSection::Body).len() == 12,
        section_label_spec(MessageSection::Footer).len() == 14,
        section_label_spec(MessageSection::Subject).last() == 't',
        section_label_spec(MessageSection::Body).last() == 'y',
        section_label_spec(MessageSection::Footer).last() == 'r',
        section_label_spec(MessageSection::Body)[8] == 'B',
        section_label_spec(MessageSection::Subject)[8] == 'S',
        section_label_spec(MessageSection::Footer)[8] == 'F',
        "scope:"@[0] == 's',
        "description:"@[0] == 'd',
        "breaking-change:"@[0] == 'b',
{
    reveal_strlit("scope:");
    reveal_strlit("scope");
    reveal_strlit("description:");
    reveal_strlit("description");
    reveal_strlit("breaking-change:");
    reveal_strlit("breaking-change");
    reveal_strlit("Message Subject");
    reveal_strlit("Message Body");
    reveal_strlit("Message Footer");
    assert("scope:"@ =~= "scope"@.push(':'));
    assert("description:"@ =~= "description"@.push(':'));
    assert("breaking-change:"@ =~= "breaking-change"@.push(':'));
}

/// Markers of the lines that a fresh document holds.
proof fn lemma_scaffold_line_markers(keys: Seq<Seq<char>>)
    requires
        keys_well_formed(keys),
    ensures
        marker_spec(Seq::empty(), keys) is None,
        marker_spec(section_label_spec(MessageSection::Subject), keys) == Some(
            DocumentMarker::Section(MessageSection::Subject),
        ),
        marker_spec(section_label_spec(MessageSection::Body), keys) == Some(
            DocumentMarker::Section(MessageSection::Body),
        ),
        marker_spec(section_label_spec(MessageSection::Footer), keys) == Some(
            DocumentMarker::Section(MessageSection::Footer),
        ),
        marker_spec("scope:"@, keys) == Some(DocumentMarker::Field(FieldId::Scope)),
        marker_spec("description:"@, keys) == Some(DocumentMarker::Field(FieldId::Description)),
        marker_spec("breaking-change:"@, keys) == Some(
            DocumentMarker::Field(FieldId::BreakingChange),
        ),
        forall|i: int|
            0 <= i < keys.len() ==> marker_spec(#[trigger] heading_of(keys[i]), keys) == Some(
                DocumentMarker::Field(FieldId::Property(i as usize)),
            ),
{
    lemma_reveal_literals();
    let e = Seq::<char>::empty();
    assert forall|i: int| !is_property_heading(e, keys, i) by {
        if 0 <= i < keys.len() {
            assert(heading_of(keys[i]).len() == keys[i].len() + 1);
        }
    }
    assert forall|i: int| 0 <= i < keys.len() implies marker_spec(
        #[trigger] heading_of(keys[i]),
        keys,
    ) == Some(DocumentMarker::Field(FieldId::Property(i as usize))) by {
        let h = heading_of(keys[i]);
        assert(h.last() == ':');
        assert(h.drop_last() =~= keys[i]);
        if h == "scope:"@ {
            assert("scope:"@.drop_last() =~= "scope"@);
        }
        if h == "description:"@ {
            assert("description:"@.drop_last() =~= "description"@);
        }
        if h == "breaking-change:"@ {
            assert("breaking-change:"@.drop_last() =~= "breaking-change"@);
        }
        assert(is_property_heading(h, keys, i));
        assert(first_property_heading(h, keys, i)) by {
            assert forall|j: int| 0 <= j < i implies !is_property_heading(h, keys, j) by {
                if is_property_heading(h, keys, j) {
                    assert(heading_of(keys[j]).drop_last() =~= keys[j]);
                }
            }
        }
        let c = choose|c: nat| first_property_heading(h, keys, c as int);
        assert(c == i) by {
            if c < i {
                assert(!is_property_heading(h, keys, c as int));
            } else if c > i {
                assert(!is_property_heading(h, keys, i));
            }
        }
    }
}

/// Line of the `k`-th marker of a fresh document with `n` properties.
pub open spec fn scaffold_marker_line(n: nat, k: int) -> int {
    if k == 0 {
        0
    } else if k == 1 {
        1
    } else if k == 2 {
        4
    } else if k == 3 {
        8
    } else if k < n + 4 {
        9 + 3 * (k - 4)
    } else if k == n + 4 {
        10 + 3 * n as int
    } else {
        11 + 3 * n as int
    }
}

pub open spec fn scaffold_markers(n: nat) -> Seq<MarkerAt> {
    Seq::new(
        n + 6,
        |k: int|
            MarkerAt {
                line: scaffold_marker_line(n, k) as usize,
                marker: expected_signature(n)[k],
            },
    )
}

proof fn lemma_scaffold_markers_match(keys: Seq<Seq<char>>)
    requires
        keys_well_formed(keys),
        3 * keys.len() + 14 <= usize::MAX,
    ensures
        forall|k: int|
            0 <= k < scaffold_markers(keys.len()).len() ==> marker_spec(
                scaffold_spec(keys)[(#[trigger] scaffold_markers(keys.len())[k]).line as int],
                keys,
            ) == Some(scaffold_markers(keys.len())[k].marker),
{
    let n = keys.len();
    let lines = scaffold_spec(keys);
    let ms = scaffold_markers(n);
    lemma_scaffold_line_markers(keys);
    assert forall|k: int| 0 <= k < ms.len() implies marker_spec(
        lines[(#[trigger] ms[k]).line as int],
        keys,
    ) == Some(ms[k].marker) by {
        if 4 <= k < n + 4 {
            lemma_div3(k - 4, 0);
            assert(lines[ms[k].line as int] == heading_of(keys[k - 4]));
        }
    }
}

proof fn lemma_scaffold_markers_complete(keys: Seq<Seq<char>>)
    requires
        keys_well_formed(keys),
        3 * keys.len() + 14 <= usize::MAX,
    ensures
        forall|l: int|
            0 <= l < scaffold_spec(keys).len() && (#[trigger] marker_spec(
                scaffold_spec(keys)[l],
                keys,
            )) is Some ==> exists|k: int|
                0 <= k < scaffold_markers(keys.len()).len() && (#[trigger] scaffold_markers(
                    keys.len(),
                )[k]).line == l,
{
    let n = keys.len();
    let lines = scaffold_spec(keys);
    let ms = scaffold_markers(n);
    lemma_scaffold_line_markers(keys);
    assert forall|l: int|
        0 <= l < lines.len() && (#[trigger] marker_spec(lines[l], keys)) is Some implies exists|
        k: int,
    | 0 <= k < ms.len() && (#[trigger] ms[k]).line == l by {
        if l == 0 {
            assert(ms[0].line == l);
        } else if l == 1 {
            assert(ms[1].line == l);
        } else if l == 4 {
            assert(ms[2].line == l);
        } else if l == 8 {
            assert(ms[3].line == l);
        } else if 9 <= l < 9 + 3 * n {
            let i = (l - 9) / 3;
            let r = (l - 9) % 3;
            assert(l - 9 == 3 * i + r && 0 <= r < 3 && 0 <= i < n) by (nonlinear_arith)
                requires
                    9 <= l < 9 + 3 * n,
                    i == (l - 9) / 3,
                    r == (l - 9) % 3,
            ;
            if r == 0 {
                assert(ms[i + 4].line == l);
            } else {
                assert(lines[l] == Seq::<char>::empty());
            }
        } else if l == 10 + 3 * n {
            assert(ms[n + 4 as int].line == l);
        } else if l == 11 + 3 * n {
            assert(ms[n + 5 as int].line == l);
        } else {
            assert(lines[l] == Seq::<char>::empty());
        }
    }
}

/// The markers of a fresh document are its section labels and headings.
proof fn lemma_scaffold_markers(keys: Seq<Seq<char>>)
    requires
        keys_well_formed(keys),
        3 * keys.len() + 14 <= usize::MAX,
    ensures
        markers_of(scaffold_spec(keys), keys) == scaffold_markers(keys.len()),
{
    let n = keys.len();
    let lines = scaffold_spec(keys);
    let ms = scaffold_markers(n);
    lemma_scaffold_markers_match(keys);
    lemma_scaffold_markers_complete(keys);
    assert forall|k: int| 0 <= k < ms.len() implies (#[trigger] ms[k]).line < lines.len() by {}
    assert forall|k: int| 0 <= k < ms.len() - 1 implies (#[trigger] ms[k]).line < ms[k
        + 1].line by {}
    lemma_markers_enumerated(ms, lines, keys, lines.len());
}

/// Headings of a fresh document: scope, description, each property, and the
/// breaking change.
pub open spec fn scaffold_headings(n: nat) -> Seq<MarkerAt> {
    Seq::new(
        n + 3,
        |k: int|
            MarkerAt {
                line: (if k == 0 {
                    1
                } else if k == 1 {
                    4
                } else if k < n + 2 {
                    9 + 3 * (k - 2)
                } else {
                    11 + 3 * n as int
                }) as usize,
                marker: DocumentMarker::Field(field_order(n)[k]),
            },
    )
}

proof fn lemma_scaffold_headings(n: nat, m: nat)
    requires
        m <= n + 6,
        3 * n + 14 <= usize::MAX,
    ensures
        field_markers_upto(scaffold_markers(n), m) == scaffold_headings(n).take(
            if m <= 1 {
                0int
            } else if m <= 2 {
                1int
            } else if m <= 4 {
                2int
            } else if m <= n + 4 {
                m - 2
            } else if m == n + 5 {
                n + 2 as int
            } else {
                n + 3 as int
            },
        ),
    decreases m,
{
    let ms = scaffold_markers(n);
    let hs = scaffold_headings(n);
    if m > 0 {
        lemma_scaffold_headings(n, (m - 1) as nat);
        let k = m - 1;
        if k == 1 {
            assert(hs.take(1int) =~= hs.take(0int).push(ms[1int]));
        } else if k == 2 {
            assert(hs.take(2int) =~= hs.take(1int).push(ms[2int]));
        } else if 4 <= k < n + 4 {
            assert(hs.take(k - 1) =~= hs.take(k - 2).push(ms[k as int]));
        } else if k == n + 5 {
            assert(hs.take(n + 3 as int) =~= hs.take(n + 2 as int).push(ms[k as int]));
        } else if k == 0 {
            assert(hs.take(0int) =~= Seq::<MarkerAt>::empty());
        }
    } else {
        assert(hs.take(0int) =~= Seq::<MarkerAt>::empty());
    }
}

/// A fresh document keeps every heading intact.
pub proof fn lemma_scaffold_is_intact(keys: Seq<Seq<char>>)
    requires
        keys_well_formed(keys),
        3 * keys.len() + 14 <= usize::MAX,
    ensures
        intact_spec(scaffold_spec(keys), keys),
{
    let n = keys.len();
    let lines = scaffold_spec(keys);
    lemma_scaffold_markers(keys);
    let ms = scaffold_markers(n);
    assert(signature_of(ms) =~= expected_signature(n));
    lemma_scaffold_headings(n, n + 6);
    let hs = scaffold_headings(n);
    assert(hs.take(n + 3 as int) =~= hs);
    assert(field_markers(ms) == hs);
    assert forall|k: int| 0 <= k < ms.len() - 1 implies group_pair_ok(#[trigger] ms[k], ms[k + 1]) by {}
    assert(headings_separated(hs));
    assert(lines.last() == Seq::<char>::empty());
}


/// `rows` without its leading blank lines.
pub open spec fn drop_blank_front(rows: Seq<Seq<char>>) -> Seq<Seq<char>>
    decreases rows.len(),
{
    if rows.len() > 0 && all_ws(rows[0]) {
        drop_blank_front(rows.drop_first())
    } else {
        rows
    }
}

/// `rows` without its trailing blank lines.
pub open spec fn drop_blank_back(rows: Seq<Seq<char>>) -> Seq<Seq<char>>
    decreases rows.len(),
{
    if rows.len() > 0 && all_ws(rows.last()) {
        drop_blank_back(rows.drop_last())
    } else {
        rows
    }
}

/// The rows joined by line feeds.
pub open spec fn join_lines(rows: Seq<Seq<char>>) -> Seq<char>
    decreases rows.len(),
{
    if rows.len() == 0 {
        Seq::empty()
    } else if rows.len() == 1 {
        rows[0]
    } else {
        join_lines(rows.drop_last()) + seq!['\n'] + rows.last()
    }
}

pub open spec fn trim_each_end(rows: Seq<Seq<char>>) -> Seq<Seq<char>> {
    Seq::new(rows.len(), |k: int| trim_end_spec(rows[k]))
}

/// The value of a field: the lines beneath its heading without the blank
/// lines around them, each without trailing whitespace, joined by line feeds.
pub open spec fn section_text_spec(rows: Seq<Seq<char>>) -> Seq<char> {
    join_lines(trim_each_end(drop_blank_back(drop_blank_front(rows))))
}

/// The value held by `rows[from..to]`.
pub fn section_text(rows: &Vec<Vec<char>>, from: usize, to: usize) -> (r: String)
    requires
        from <= to <= rows.len(),
    ensures
        r@ == section_text_spec(rows_view(rows@).subrange(from as int, to as int)),
{
    let ghost rv = rows_view(rows@);
    let ghost part = rv.subrange(from as int, to as int);
    let mut start = from;
    assert(rv.subrange(start as int, to as int) =~= part);
    while start < to && is_blank(rows[start].as_slice())
        invariant
            from <= start <= to <= rows.len(),
            rv == rows_view(rows@),
            part == rv.subrange(from as int, to as int),
            drop_blank_front(part) == drop_blank_front(rv.subrange(start as int, to as int)),
        decreases to - start,
    {
        assert(rv.subrange(start as int, to as int).drop_first() =~= rv.subrange(
            start + 1,
            to as int,
        ));
        start = start + 1;
    }
    let ghost front = rv.subrange(start as int, to as int);
    assert(drop_blank_front(part) == front);
    let mut end = to;
    assert(rv.subrange(start as int, end as int) =~= front);
    while end > start && is_blank(rows[end - 1].as_slice())
        invariant
            from <= start <= end <= to <= rows.len(),
            rv == rows_view(rows@),
            front == rv.subrange(start as int, to as int),
            drop_blank_back(front) == drop_blank_back(rv.subrange(start as int, end as int)),
        decreases end - start,
    {
        assert(rv.subrange(start as int, end as int).drop_last() =~= rv.subrange(
            start as int,
            end - 1,
        ));
        end = end - 1;
    }
    let ghost content = rv.subrange(start as int, end as int);
    assert(drop_blank_back(front) == content);
    let mut out: Vec<char> = Vec::new();
    let mut k = start;
    while k < end
        invariant
            start <= k <= end <= rows.len(),
            rv == rows_view(rows@),
            content == rv.subrange(start as int, end as int),
            out@ == join_lines(trim_each_end(rv.subrange(start as int, k as int))),
        decreases end - k,
    {
        let ghost before = trim_each_end(rv.subrange(start as int, k as int));
        let line = trim_end(rows[k].as_slice());
        let ghost after = trim_each_end(rv.subrange(start as int, k + 1));
        assert(after.drop_last() =~= before);
        assert(after.last() == line@);
        if k > start {
            out.push('\n');
        } else {
            assert(after.len() == 1);
        }
        let mut j: usize = 0;
        let ghost base = out@;
        while j < line.len()
            invariant
                j <= line.len(),
                out@ == base + line@.subrange(0, j as int),
            decreases line.len() - j,
        {
            out.push(line[j]);
            j = j + 1;
        }
        assert(line@.subrange(0, line.len() as int) =~= line@);
        k = k + 1;
    }
    string_of(out.as_slice())
}


/// No character of `s` is a line feed.
pub open spec fn no_line_feed(s: Seq<char>) -> bool {
    forall|i: int| 0 <= i < s.len() ==> s[i] != '\n'
}

/// A text cut at its line feeds, as `str::split('\n')` cuts it: the empty
/// text is one empty line, and a line feed at the end leaves an empty last
/// line.
pub open spec fn split_lines(s: Seq<char>) -> Seq<Seq<char>>
    decreases s.len(),
{
    if s.len() == 0 {
        seq![Seq::<char>::empty()]
    } else {
        let prev = split_lines(s.drop_last());
        if s.last() == '\n' {
            prev.push(Seq::<char>::empty())
        } else {
            prev.update(prev.len() - 1, prev.last().push(s.last()))
        }
    }
}

proof fn lemma_split_lines_nonempty(s: Seq<char>)
    ensures
        split_lines(s).len() > 0,
    decreases s.len(),
{
    if s.len() > 0 {
        lemma_split_lines_nonempty(s.drop_last());
    }
}

/// Text without a line feed extends the last line.
proof fn lemma_split_lines_extend(p: Seq<char>, b: Seq<char>)
    requires
        no_line_feed(b),
    ensures
        split_lines(p + b) == split_lines(p).update(
            split_lines(p).len() - 1,
            split_lines(p).last() + b,
        ),
    decreases b.len(),
{
    lemma_split_lines_nonempty(p);
    let sp = split_lines(p);
    if b.len() == 0 {
        assert(p + b =~= p);
        assert(sp.last() + b =~= sp.last());
        assert(sp.update(sp.len() - 1, sp.last()) =~= sp);
    } else {
        let b1 = b.drop_last();
        assert(no_line_feed(b1));
        lemma_split_lines_extend(p, b1);
        assert((p + b).drop_last() =~= p + b1);
        assert((p + b).last() == b.last());
        let prev = split_lines(p + b1);
        assert(prev.len() == sp.len());
        assert(prev.last() == sp.last() + b1);
        assert(prev.last().push(b.last()) =~= sp.last() + b);
        assert(split_lines(p + b) =~= sp.update(sp.len() - 1, sp.last() + b));
    }
}

/// Cutting joined lines without line feeds gives the lines back.
pub proof fn lemma_split_join(rows: Seq<Seq<char>>)
    requires
        rows.len() > 0,
        forall|k: int| 0 <= k < rows.len() ==> no_line_feed(#[trigger] rows[k]),
    ensures
        split_lines(join_lines(rows)) == rows,
    decreases rows.len(),
{
    if rows.len() == 1 {
        lemma_split_lines_extend(Seq::<char>::empty(), rows[0]);
        assert(Seq::<char>::empty() + rows[0] =~= rows[0]);
        assert(split_lines(Seq::<char>::empty()).update(0, Seq::<char>::empty() + rows[0]) =~= rows);
    } else {
        let front = rows.drop_last();
        assert forall|k: int| 0 <= k < front.len() implies no_line_feed(#[trigger] front[k]) by {
            assert(front[k] == rows[k]);
        }
        lemma_split_join(front);
        let p = join_lines(front) + seq!['\n'];
        assert(p.drop_last() =~= join_lines(front));
        assert(split_lines(p) == front.push(Seq::<char>::empty()));
        assert(no_line_feed(rows.last()));
        lemma_split_lines_extend(p, rows.last());
        assert(Seq::<char>::empty() + rows.last() =~= rows.last());
        assert(join_lines(rows) == p + rows.last());
        assert(front.push(Seq::<char>::empty()).update(front.len() as int, rows.last()) =~= rows);
    }
}

/// Trimming the end twice trims no more than once.
proof fn lemma_trim_end_idempotent(s: Seq<char>)
    ensures
        trim_end_spec(trim_end_spec(s)) == trim_end_spec(s),
{
    lemma_trim_end_prefix(s);
}

/// The trimmed end of a line that is not blank is not blank.
proof fn lemma_trim_end_keeps_content(s: Seq<char>)
    requires
        !all_ws(s),
    ensures
        trim_end_spec(s).len() > 0,
        !all_ws(trim_end_spec(s)),
        !is_ws(trim_end_spec(s).last()),
{
    lemma_trim_end_prefix(s);
    let k = trim_end_spec(s).len() as int;
    if k == 0 {
        assert forall|i: int| 0 <= i < s.len() implies is_ws(#[trigger] s[i]) by {
            assert(s.subrange(0, s.len() as int)[i] == s[i]);
        }
    }
    assert(trim_end_spec(s)[k - 1] == trim_end_spec(s).last());
}

/// Dropping the leading blank lines leaves a suffix that is empty or starts
/// with a line that is not blank.
proof fn lemma_drop_blank_front(rows: Seq<Seq<char>>)
    ensures
        drop_blank_front(rows).len() <= rows.len(),
        drop_blank_front(rows) =~= rows.subrange(rows.len() - drop_blank_front(rows).len(), rows.len() as int),
        drop_blank_front(rows).len() > 0 ==> !all_ws(drop_blank_front(rows)[0]),
    decreases rows.len(),
{
    if rows.len() > 0 && all_ws(rows[0]) {
        lemma_drop_blank_front(rows.drop_first());
    }
}

/// Dropping the trailing blank lines leaves a prefix that is empty or ends
/// with a line that is not blank, and keeps a first line that is not blank.
proof fn lemma_drop_blank_back(rows: Seq<Seq<char>>)
    ensures
        drop_blank_back(rows).len() <= rows.len(),
        drop_blank_back(rows) =~= rows.subrange(0, drop_blank_back(rows).len() as int),
        drop_blank_back(rows).len() > 0 ==> !all_ws(drop_blank_back(rows).last()),
        rows.len() > 0 && !all_ws(rows[0]) ==> drop_blank_back(rows).len() > 0,
    decreases rows.len(),
{
    if rows.len() > 0 && all_ws(rows.last()) {
        lemma_drop_blank_back(rows.drop_last());
        if rows.len() > 1 {
            assert(rows.drop_last()[0] == rows[0]);
        }
    }
}

/// The lines of a field's value: with no line feed inside its lines, the
/// value cut at its line feeds gives the trimmed lines between the first
/// and last that are not blank.
proof fn lemma_section_text_lines(rows: Seq<Seq<char>>)
    requires
        forall|k: int| 0 <= k < rows.len() ==> no_line_feed(#[trigger] rows[k]),
    ensures
        ({
            let t = trim_each_end(drop_blank_back(drop_blank_front(rows)));
            &&& section_text_spec(rows) == join_lines(t)
            &&& t.len() > 0 ==> split_lines(section_text_spec(rows)) == t
            &&& t.len() > 0 ==> !all_ws(t[0]) && !all_ws(t.last())
            &&& forall|k: int| 0 <= k < t.len() ==> trim_end_spec(#[trigger] t[k]) == t[k]
        }),
{
    let f = drop_blank_front(rows);
    let c = drop_blank_back(f);
    let t = trim_each_end(c);
    lemma_drop_blank_front(rows);
    lemma_drop_blank_back(f);
    assert forall|k: int| 0 <= k < t.len() implies trim_end_spec(#[trigger] t[k]) == t[k] by {
        lemma_trim_end_idempotent(c[k]);
    }
    if t.len() > 0 {
        assert(c[0] == f[0]);
        lemma_trim_end_keeps_content(c[0]);
        lemma_trim_end_keeps_content(c.last());
        assert(t.last() == trim_end_spec(c.last()));
        assert forall|k: int| 0 <= k < t.len() implies no_line_feed(#[trigger] t[k]) by {
            let off = rows.len() - f.len();
            assert(c[k] == f[k]);
            assert(f[k] == rows[off + k]);
            lemma_trim_end_prefix(c[k]);
            assert forall|i: int| 0 <= i < t[k].len() implies t[k][i] != '\n' by {
                assert(t[k][i] == c[k][i]);
            }
        }
        lemma_split_join(t);
    }
}

/// A field's value is its own value: read back line by line, the value that
/// a field's lines give (lines without line feeds) gives itself again. Its
/// lines carry no trailing whitespace, and its first and last lines are not
/// blank.
pub proof fn lemma_section_text_idempotent(rows: Seq<Seq<char>>)
    requires
        forall|k: int| 0 <= k < rows.len() ==> no_line_feed(#[trigger] rows[k]),
    ensures
        section_text_spec(split_lines(section_text_spec(rows))) == section_text_spec(rows),
        forall|k: int|
            0 <= k < split_lines(section_text_spec(rows)).len() ==> trim_end_spec(
                #[trigger] split_lines(section_text_spec(rows))[k],
            ) == split_lines(section_text_spec(rows))[k],
        section_text_spec(rows).len() > 0 ==> !all_ws(split_lines(section_text_spec(rows))[0]) && !all_ws(
            split_lines(section_text_spec(rows)).last(),
        ),
{
    lemma_section_text_lines(rows);
    let t = trim_each_end(drop_blank_back(drop_blank_front(rows)));
    if t.len() == 0 {
        assert(section_text_spec(rows) == Seq::<char>::empty());
        let e = seq![Seq::<char>::empty()];
        assert(split_lines(section_text_spec(rows)) == e);
        assert(all_ws(e[0]));
        assert(drop_blank_front(e) == drop_blank_front(e.drop_first()));
        assert(e.drop_first().len() == 0);
        assert(drop_blank_back(Seq::<Seq<char>>::empty()) == Seq::<Seq<char>>::empty());
        assert(trim_each_end(Seq::<Seq<char>>::empty()) =~= Seq::<Seq<char>>::empty());
        assert(trim_end_spec(Seq::<char>::empty()) == Seq::<char>::empty());
    } else {
        assert(split_lines(section_text_spec(rows)) == t);
        assert(drop_blank_front(t) == t);
        assert(drop_blank_back(t) == t);
        assert(trim_each_end(t) =~= t);
    }
}

/// What a structural or heading-like line starts.
#[derive(Clone, Copy, Debug, PartialEq, Eq, Structural)]
pub enum BoundaryKind {
    Known(FieldId),
    Group,
    Invalid,
}

/// A line that ends the field above it.
#[derive(Clone, Copy, Debug, PartialEq, Eq, Structural)]
pub struct Boundary {
    pub line: usize,
    pub kind: BoundaryKind,
}

/// The boundary that `line` starts, if any: a known field heading, a section
/// label, or an unknown or malformed heading.
pub open spec fn boundary_kind_spec(line: Seq<char>, keys: Seq<Seq<char>>) -> Option<BoundaryKind> {
    match marker_spec(line, keys) {
        Some(DocumentMarker::Field(id)) => Some(BoundaryKind::Known(id)),
        Some(DocumentMarker::Section(_)) => Some(BoundaryKind::Group),
        None => if looks_like_heading_spec(line) || malformed_known_heading_spec(line, keys) {
            Some(BoundaryKind::Invalid)
        } else {
            None
        },
    }
}

/// The boundaries among the first `m` lines, in line order.
pub open spec fn boundaries_upto(lines: Seq<Seq<char>>, keys: Seq<Seq<char>>, m: nat) -> Seq<
    Boundary,
>
    decreases m,
{
    if m == 0 {
        Seq::empty()
    } else {
        let prev = boundaries_upto(lines, keys, (m - 1) as nat);
        match boundary_kind_spec(lines[m - 1], keys) {
            Some(kind) => prev.push(Boundary { line: (m - 1) as usize, kind }),
            None => prev,
        }
    }
}

/// A field, section or heading problem reported against a document line.
pub struct ValidationIssue {
    pub field: Option<FieldId>,
    pub line: usize,
    pub message: String,
}

pub struct IssueView {
    pub field: Option<FieldId>,
    pub line: nat,
    pub message: Seq<char>,
}

impl View for ValidationIssue {
    type V = IssueView;

    open spec fn view(&self) -> IssueView {
        IssueView { field: self.field, line: self.line as nat, message: self.message@ }
    }
}

pub open spec fn issues_view(v: Seq<ValidationIssue>) -> Seq<IssueView> {
    Seq::new(v.len(), |i: int| v[i]@)
}

/// The report for a line that looks like a heading but names no field.
pub open spec fn invalid_header_issue(l: nat, line: Seq<char>) -> IssueView {
    IssueView {
        field: None,
        line: l,
        message: "unknown or malformed field header "@ + debug_text(line),
    }
}

/// Reports for the unknown or malformed headings among the first `m` lines.
pub open spec fn invalid_issues_upto(lines: Seq<Seq<char>>, keys: Seq<Seq<char>>, m: nat) -> Seq<
    IssueView,
>
    decreases m,
{
    if m == 0 {
        Seq::empty()
    } else {
        let prev = invalid_issues_upto(lines, keys, (m - 1) as nat);
        if boundary_kind_spec(lines[m - 1], keys) == Some(BoundaryKind::Invalid) {
            prev.push(invalid_header_issue((m - 1) as nat, lines[m - 1]))
        } else {
            prev
        }
    }
}

/// The kind of a line, and its report when it looks like a heading but names
/// no field.
fn classify_line(line: &[char], keys: &Vec<Vec<char>>) -> (r: Option<BoundaryKind>)
    ensures
        r == boundary_kind_spec(line@, rows_view(keys@)),
{
    match structural_marker(line, keys) {
        Some(DocumentMarker::Field(id)) => Some(BoundaryKind::Known(id)),
        Some(DocumentMarker::Section(_)) => Some(BoundaryKind::Group),
        None => if looks_like_heading(line) || looks_like_malformed_known_heading(line, keys) {
            Some(BoundaryKind::Invalid)
        } else {
            None
        },
    }
}

/// A field of the parsed document: its occurrence, the heading line, the line
/// that ends it, and its value.
pub struct DocumentSection {
    pub kind: FieldKind,
    pub heading_line: usize,
    pub end_line: usize,
    pub text: String,
}

pub struct SectionView {
    pub kind: FieldKind,
    pub heading_line: nat,
    pub end_line: nat,
    pub text: Seq<char>,
}

impl View for DocumentSection {
    type V = SectionView;

    open spec fn view(&self) -> SectionView {
        SectionView {
            kind: self.kind,
            heading_line: self.heading_line as nat,
            end_line: self.end_line as nat,
            text: self.text@,
        }
    }
}

pub open spec fn sections_view(v: Seq<DocumentSection>) -> Seq<SectionView> {
    Seq::new(v.len(), |i: int| v[i]@)
}

/// The line at which boundary `b`'s field ends: the next boundary, or the
/// end of the document.
pub open spec fn section_end(bs: Seq<Boundary>, b: int, total: nat) -> nat {
    if b + 1 < bs.len() {
        bs[b + 1].line as nat
    } else {
        total
    }
}

/// How many of the first `b` boundaries head property `d`.
pub open spec fn occurrences_before(bs: Seq<Boundary>, d: usize, b: int) -> nat
    decreases b,
{
    if b <= 0 {
        0
    } else {
        occurrences_before(bs, d, b - 1) + if bs[b - 1].kind == BoundaryKind::Known(
            FieldId::Property(d),
        ) {
            1nat
        } else {
            0nat
        }
    }
}

/// The occurrence that a known heading starts.
pub open spec fn occurrence_kind(bs: Seq<Boundary>, b: int, id: FieldId) -> FieldKind {
    match id {
        FieldId::Scope => FieldKind::Scope,
        FieldId::Description => FieldKind::Description,
        FieldId::Property(d) => FieldKind::Property {
            definition_index: d,
            value_index: occurrences_before(bs, d, b) as usize,
        },
        FieldId::BreakingChange => FieldKind::BreakingChange,
    }
}

/// The field that boundary `b` heads.
pub open spec fn section_of(bs: Seq<Boundary>, lines: Seq<Seq<char>>, b: int, id: FieldId) -> SectionView {
    let end = section_end(bs, b, lines.len());
    SectionView {
        kind: occurrence_kind(bs, b, id),
        heading_line: bs[b].line as nat,
        end_line: end,
        text: section_text_spec(lines.subrange(bs[b].line + 1, end as int)),
    }
}

/// The fields headed by the first `m` boundaries, in order.
pub open spec fn sections_upto(bs: Seq<Boundary>, lines: Seq<Seq<char>>, m: nat) -> Seq<
    SectionView,
>
    decreases m,
{
    if m == 0 {
        Seq::empty()
    } else {
        let prev = sections_upto(bs, lines, (m - 1) as nat);
        match bs[m - 1].kind {
            BoundaryKind::Known(id) => prev.push(section_of(bs, lines, m - 1, id)),
            _ => prev,
        }
    }
}

/// Whether a field may occur more than once.
pub open spec fn repeatable(id: FieldId, props: Seq<PropertyView>) -> bool {
    match id {
        FieldId::Property(i) => props[i as int].multiplicity == Multiplicity::Multiple,
        _ => false,
    }
}

/// How many of the first `m` sections belong to field `id`.
pub open spec fn matches_before(secs: Seq<SectionView>, id: FieldId, m: int) -> nat
    decreases m,
{
    if m <= 0 {
        0
    } else {
        matches_before(secs, id, m - 1) + if kind_id(secs[m - 1].kind) == id {
            1nat
        } else {
            0nat
        }
    }
}

/// The report for a second or later occurrence of a single-valued field.
pub open spec fn duplicate_issue(sec: SectionView, props: Seq<PropertyView>) -> IssueView {
    IssueView {
        field: Some(kind_id(sec.kind)),
        line: sec.heading_line,
        message: "field "@ + field_name_spec(kind_id(sec.kind), props) + " may appear only once"@,
    }
}

/// Reports for the later occurrences of field `id` among the first `m`
/// sections.
pub open spec fn duplicates_of_upto(
    secs: Seq<SectionView>,
    id: FieldId,
    props: Seq<PropertyView>,
    m: nat,
) -> Seq<IssueView>
    decreases m,
{
    if m == 0 {
        Seq::empty()
    } else {
        let prev = duplicates_of_upto(secs, id, props, (m - 1) as nat);
        if kind_id(secs[m - 1].kind) == id && matches_before(secs, id, m - 1) >= 1 {
            prev.push(duplicate_issue(secs[m - 1], props))
        } else {
            prev
        }
    }
}

/// Reports for the repeated single-valued fields among the first `k` fields
/// of the schema, field by field in document order.
pub open spec fn duplicate_issues_upto(secs: Seq<SectionView>, props: Seq<PropertyView>, k: nat) -> Seq<
    IssueView,
>
    decreases k,
{
    if k == 0 {
        Seq::empty()
    } else {
        let id = field_order(props.len())[k - 1];
        let prev = duplicate_issues_upto(secs, props, (k - 1) as nat);
        if repeatable(id, props) {
            prev
        } else {
            prev + duplicates_of_upto(secs, id, props, secs.len())
        }
    }
}

/// A parsed document: its fields and the problems found.
pub struct ParsedDocument {
    pub sections: Vec<DocumentSection>,
    pub issues: Vec<ValidationIssue>,
}

pub struct ParsedView {
    pub sections: Seq<SectionView>,
    pub issues: Seq<IssueView>,
}

impl View for ParsedDocument {
    type V = ParsedView;

    open spec fn view(&self) -> ParsedView {
        ParsedView {
            sections: sections_view(self.sections@),
            issues: issues_view(self.issues@),
        }
    }
}

/// The parse of a document: one section per known heading, running to the
/// next boundary; reports for unknown or malformed headings in line order,
/// then for repeated single-valued fields in schema order.
pub open spec fn parse_spec(lines: Seq<Seq<char>>, props: Seq<PropertyView>) -> ParsedView {
    let keys = keys_of(props);
    let bs = boundaries_upto(lines, keys, lines.len());
    let secs = sections_upto(bs, lines, bs.len());
    ParsedView {
        sections: secs,
        issues: invalid_issues_upto(lines, keys, lines.len()) + duplicate_issues_upto(
            secs,
            props,
            props.len() + 3,
        ),
    }
}


proof fn lemma_first_property_exists(line: Seq<char>, keys: Seq<Seq<char>>, i: int)
    requires
        is_property_heading(line, keys, i),
    ensures
        exists|j: nat| first_property_heading(line, keys, j as int),
    decreases i,
{
    if forall|j: int| 0 <= j < i ==> !is_property_heading(line, keys, j) {
        assert(first_property_heading(line, keys, i as nat as int));
    } else {
        let j = choose|j: int| 0 <= j < i && is_property_heading(line, keys, j);
        lemma_first_property_exists(line, keys, j);
    }
}

/// A property heading names one of the schema's properties.
pub proof fn lemma_property_heading_in_range(line: Seq<char>, keys: Seq<Seq<char>>)
    ensures
        property_heading(line, keys) matches Some(i) ==> i < keys.len(),
{
    if exists|i: int| is_property_heading(line, keys, i) {
        let i = choose|i: int| is_property_heading(line, keys, i);
        lemma_first_property_exists(line, keys, i);
    }
}

/// Boundaries stand on increasing lines below `m`, and known property
/// headings name properties of the schema.
pub proof fn lemma_boundaries_facts(lines: Seq<Seq<char>>, keys: Seq<Seq<char>>, m: nat)
    requires
        m <= lines.len(),
        lines.len() <= usize::MAX,
    ensures
        forall|k: int|
            0 <= k < boundaries_upto(lines, keys, m).len() ==> (#[trigger] boundaries_upto(
                lines,
                keys,
                m,
            )[k]).line < m,
        forall|a: int, b: int|
            0 <= a < b < boundaries_upto(lines, keys, m).len() ==> (#[trigger] boundaries_upto(
                lines,
                keys,
                m,
            )[a]).line < (#[trigger] boundaries_upto(lines, keys, m)[b]).line,
        forall|k: int|
            0 <= k < boundaries_upto(lines, keys, m).len() ==> match (#[trigger] boundaries_upto(
                lines,
                keys,
                m,
            )[k]).kind {
                BoundaryKind::Known(id) => field_in_schema(id, keys.len()),
                _ => true,
            },
    decreases m,
{
    if m > 0 {
        lemma_boundaries_facts(lines, keys, (m - 1) as nat);
        lemma_property_heading_in_range(lines[m - 1], keys);
        let bs = boundaries_upto(lines, keys, m);
        let prev = boundaries_upto(lines, keys, (m - 1) as nat);
        match boundary_kind_spec(lines[m - 1], keys) {
            Some(kind) => {
                assert(bs == prev.push(Boundary { line: (m - 1) as usize, kind }));
                assert forall|a: int, b: int| 0 <= a < b < bs.len() implies (#[trigger] bs[a]).line
                    < (#[trigger] bs[b]).line by {
                    assert(bs[a] == prev[a]);
                    if b < prev.len() {
                        assert(bs[b] == prev[b]);
                    } else {
                        assert(prev[a].line < m - 1);
                    }
                }
            },
            None => {},
        }
    }
}

fn scan_boundaries(rows: &Vec<Vec<char>>, lines: &[String], keys: &Vec<Vec<char>>) -> (r: (
    Vec<Boundary>,
    Vec<ValidationIssue>,
))
    requires
        rows_view(rows@) == lines_view(lines@),
    ensures
        r.0@ == boundaries_upto(rows_view(rows@), rows_view(keys@), rows.len() as nat),
        issues_view(r.1@) == invalid_issues_upto(
            rows_view(rows@),
            rows_view(keys@),
            rows.len() as nat,
        ),
{
    let ghost lv = rows_view(rows@);
    let ghost kv = rows_view(keys@);
    assert(rows_view(rows@).len() == lines_view(lines@).len());
    let mut bs: Vec<Boundary> = Vec::new();
    let mut issues: Vec<ValidationIssue> = Vec::new();
    let mut l: usize = 0;
    while l < rows.len()
        invariant
            l <= rows.len(),
            rows.len() == lines.len(),
            lv == rows_view(rows@),
            lv == lines_view(lines@),
            kv == rows_view(keys@),
            bs@ == boundaries_upto(lv, kv, l as nat),
            issues_view(issues@) == invalid_issues_upto(lv, kv, l as nat),
        decreases rows.len() - l,
    {
        let kind = classify_line(rows[l].as_slice(), keys);
        match kind {
            Some(kind) => {
                if kind == BoundaryKind::Invalid {
                    let mut message = String::from_str("unknown or malformed field header ");
                    let quoted = debug_quoted(lines[l].as_str());
                    message.append(quoted.as_str());
                    let ghost before = issues_view(issues@);
                    assert(lines@[l as int]@ == lv[l as int]);
                    issues.push(ValidationIssue { field: None, line: l, message });
                    assert(issues_view(issues@) =~= before.push(
                        invalid_header_issue(l as nat, lv[l as int]),
                    ));
                }
                bs.push(Boundary { line: l, kind });
            },
            None => {},
        }
        l = l + 1;
    }
    (bs, issues)
}

fn build_sections(rows: &Vec<Vec<char>>, bs: &Vec<Boundary>, n: usize) -> (secs: Vec<
    DocumentSection,
>)
    requires
        forall|k: int| 0 <= k < bs.len() ==> (#[trigger] bs@[k]).line < rows.len(),
        forall|a: int, b: int|
            0 <= a < b < bs.len() ==> (#[trigger] bs@[a]).line < (#[trigger] bs@[b]).line,
        forall|k: int|
            0 <= k < bs.len() ==> match (#[trigger] bs@[k]).kind {
                BoundaryKind::Known(id) => field_in_schema(id, n as nat),
                _ => true,
            },
    ensures
        sections_view(secs@) == sections_upto(bs@, rows_view(rows@), bs.len() as nat),
{
    let ghost lv = rows_view(rows@);
    let mut occ: Vec<usize> = Vec::new();
    let mut d: usize = 0;
    while d < n
        invariant
            d <= n,
            occ.len() == d,
            forall|j: int| 0 <= j < d ==> occ@[j] == 0,
        decreases n - d,
    {
        occ.push(0);
        d = d + 1;
    }
    let mut secs: Vec<DocumentSection> = Vec::new();
    let mut b: usize = 0;
    while b < bs.len()
        invariant
            b <= bs.len(),
            lv == rows_view(rows@),
            occ.len() == n,
            forall|j: int| 0 <= j < n ==> occ@[j] as nat == occurrences_before(bs@, j as usize, b as int),
            forall|j: int| 0 <= j < n ==> occ@[j] <= b,
            forall|k: int| 0 <= k < bs.len() ==> (#[trigger] bs@[k]).line < rows.len(),
            forall|a: int, c: int|
                0 <= a < c < bs.len() ==> (#[trigger] bs@[a]).line < (#[trigger] bs@[c]).line,
            forall|k: int|
                0 <= k < bs.len() ==> match (#[trigger] bs@[k]).kind {
                    BoundaryKind::Known(id) => field_in_schema(id, n as nat),
                    _ => true,
                },
            sections_view(secs@) == sections_upto(bs@, lv, b as nat),
        decreases bs.len() - b,
    {
        let boundary = bs[b];
        if let BoundaryKind::Known(id) = boundary.kind {
            let end = if b + 1 < bs.len() {
                bs[b + 1].line
            } else {
                rows.len()
            };
            assert(section_end(bs@, b as int, lv.len()) == end);
            let text = section_text(rows, boundary.line + 1, end);
            let kind = match id {
                FieldId::Scope => FieldKind::Scope,
                FieldId::Description => FieldKind::Description,
                FieldId::Property(d) => FieldKind::Property {
                    definition_index: d,
                    value_index: occ[d],
                },
                FieldId::BreakingChange => FieldKind::BreakingChange,
            };
            assert(kind == occurrence_kind(bs@, b as int, id));
            let ghost before = sections_view(secs@);
            secs.push(DocumentSection { kind, heading_line: boundary.line, end_line: end, text });
            assert(sections_view(secs@) =~= before.push(section_of(bs@, lv, b as int, id)));
        }
        let mut j: usize = 0;
        while j < n
            invariant
                j <= n,
                b < bs.len(),
                occ.len() == n,
                forall|i: int|
                    0 <= i < j ==> occ@[i] as nat == occurrences_before(bs@, i as usize, b + 1),
                forall|i: int|
                    j <= i < n ==> occ@[i] as nat == occurrences_before(bs@, i as usize, b as int),
                forall|i: int| 0 <= i < n ==> occ@[i] <= b + 1,
                forall|i: int| j <= i < n ==> occ@[i] <= b,
            decreases n - j,
        {
            if bs[b].kind == BoundaryKind::Known(FieldId::Property(j)) {
                occ.set(j, occ[j] + 1);
            }
            j = j + 1;
        }
        b = b + 1;
    }
    secs
}

fn duplicate_message(id: FieldId, schema: &CommitSchema) -> (m: String)
    requires
        field_in_schema(id, schema@.len()),
    ensures
        m@ == "field "@ + field_name_spec(id, schema@) + " may appear only once"@,
{
    let mut m = String::from_str("field ");
    let name = field_name(id, schema);
    m.append(name.as_str());
    m.append(" may appear only once");
    m
}

fn duplicates_of(secs: &Vec<DocumentSection>, id: FieldId, schema: &CommitSchema) -> (r: Vec<
    ValidationIssue,
>)
    requires
        field_in_schema(id, schema@.len()),
    ensures
        issues_view(r@) == duplicates_of_upto(sections_view(secs@), id, schema@, secs.len() as nat),
{
    let ghost sv = sections_view(secs@);
    let mut r: Vec<ValidationIssue> = Vec::new();
    let mut seen: usize = 0;
    let mut m: usize = 0;
    while m < secs.len()
        invariant
            m <= secs.len(),
            sv == sections_view(secs@),
            field_in_schema(id, schema@.len()),
            seen as nat == matches_before(sv, id, m as int),
            seen <= m,
            issues_view(r@) == duplicates_of_upto(sv, id, schema@, m as nat),
        decreases secs.len() - m,
    {
        if secs[m].kind.id() == id {
            if seen >= 1 {
                let message = duplicate_message(id, schema);
                let ghost before = issues_view(r@);
                r.push(ValidationIssue { field: Some(id), line: secs[m].heading_line, message });
                assert(issues_view(r@) =~= before.push(duplicate_issue(sv[m as int], schema@)));
            }
            seen = seen + 1;
        }
        m = m + 1;
    }
    r
}

fn append_issues(dst: &mut Vec<ValidationIssue>, src: Vec<ValidationIssue>)
    ensures
        issues_view(final(dst)@) == issues_view(old(dst)@) + issues_view(src@),
{
    let mut src = src;
    let ghost a = issues_view(dst@);
    let ghost b = issues_view(src@);
    dst.append(&mut src);
    assert(issues_view(dst@) =~= a + b);
}

/// Parses the document: one section per known heading, running to the next
/// boundary, with reports for unknown or malformed headings in line order and
/// then for repeated single-valued fields in schema order.
pub fn parse_document(lines: &[String], schema: &CommitSchema) -> (r: ParsedDocument)
    ensures
        r@ == parse_spec(lines_view(lines@), schema@),
{
    let rows = lines_to_rows(lines);
    let keys = key_rows(schema);
    let ghost lv = lines_view(lines@);
    let ghost kv = keys_of(schema@);
    let (bs, mut issues) = scan_boundaries(&rows, lines, &keys);
    proof {
        assert(lv.len() == lines.len());
        lemma_boundaries_facts(lv, kv, lv.len());
    }
    let secs = build_sections(&rows, &bs, schema.properties.len());
    let ghost sv = sections_view(secs@);
    let ghost invalid = issues_view(issues@);
    let ghost n = schema@.len();
    assert(field_order(n)[0] == FieldId::Scope);
    assert(field_order(n)[1] == FieldId::Description);
    assert(field_order(n)[n + 2 as int] == FieldId::BreakingChange);
    assert(duplicate_issues_upto(sv, schema@, 0) =~= Seq::<IssueView>::empty());
    append_issues(&mut issues, duplicates_of(&secs, FieldId::Scope, schema));
    assert(issues_view(issues@) =~= invalid + duplicate_issues_upto(sv, schema@, 1));
    append_issues(&mut issues, duplicates_of(&secs, FieldId::Description, schema));
    assert(issues_view(issues@) =~= invalid + duplicate_issues_upto(sv, schema@, 2));
    let mut i: usize = 0;
    while i < schema.properties.len()
        invariant
            i <= schema.properties.len(),
            n == schema@.len(),
            sv == sections_view(secs@),
            issues_view(issues@) == invalid + duplicate_issues_upto(sv, schema@, (i + 2) as nat),
        decreases schema.properties.len() - i,
    {
        assert(field_order(n)[i + 2] == FieldId::Property(i));
        let ghost before = issues_view(issues@);
        if schema.properties[i].multiplicity != Multiplicity::Multiple {
            append_issues(&mut issues, duplicates_of(&secs, FieldId::Property(i), schema));
        }
        assert(issues_view(issues@) =~= invalid + duplicate_issues_upto(sv, schema@, (i + 3) as nat));
        i = i + 1;
    }
    append_issues(&mut issues, duplicates_of(&secs, FieldId::BreakingChange, schema));
    assert(issues_view(issues@) =~= invalid + duplicate_issues_upto(sv, schema@, (n + 3) as nat));
    ParsedDocument { sections: secs, issues }
}


/// The nearest marker above line `l`, with its line.
pub open spec fn last_marker_before(lines: Seq<Seq<char>>, keys: Seq<Seq<char>>, l: int) -> Option<
    (nat, DocumentMarker),
>
    decreases l,
{
    if l <= 0 {
        None
    } else {
        match marker_spec(lines[l - 1], keys) {
            Some(m) => Some(((l - 1) as nat, m)),
            None => last_marker_before(lines, keys, l - 1),
        }
    }
}

/// The first non-empty line at or after `k`.
pub open spec fn next_nonempty_from(lines: Seq<Seq<char>>, k: int) -> Option<nat>
    decreases lines.len() - k,
{
    if k < 0 || k >= lines.len() {
        None
    } else if lines[k].len() > 0 {
        Some(k as nat)
    } else {
        next_nonempty_from(lines, k + 1)
    }
}

/// Whether the blank rows between line `l` and the boundary below belong to
/// the layout rather than to the field above.
pub open spec fn reserved_rows_ok(
    marker: DocumentMarker,
    heading: nat,
    l: nat,
    boundary: nat,
    next: Option<DocumentMarker>,
) -> bool {
    match marker {
        DocumentMarker::Field(_) => {
            let rows: nat = if next matches Some(DocumentMarker::Section(_)) {
                2
            } else {
                1
            };
            l > heading + 1 && boundary - l <= rows
        },
        DocumentMarker::Section(MessageSection::Subject) => false,
        DocumentMarker::Section(_) => true,
    }
}

/// An empty line kept as layout: a spacer under a body or footer label, or
/// the separator rows between a field's value and the next heading.
pub open spec fn reserved_spec(lines: Seq<Seq<char>>, l: int, keys: Seq<Seq<char>>) -> bool {
    &&& 0 <= l < lines.len()
    &&& lines[l].len() == 0
    &&& match last_marker_before(lines, keys, l) {
        None => false,
        Some((heading, marker)) => match next_nonempty_from(lines, l + 1) {
            Some(k) => match marker_spec(lines[k as int], keys) {
                None => false,
                Some(next) => reserved_rows_ok(marker, heading, l as nat, k, Some(next)),
            },
            None => reserved_rows_ok(marker, heading, l as nat, lines.len(), None),
        },
    }
}

fn last_marker_above(rows: &Vec<Vec<char>>, keys: &Vec<Vec<char>>, l: usize) -> (r: Option<(usize, DocumentMarker)>)
    requires
        l <= rows.len(),
    ensures
        match r {
            Some((h, m)) => last_marker_before(rows_view(rows@), rows_view(keys@), l as int) == Some(
                (h as nat, m),
            ),
            None => last_marker_before(rows_view(rows@), rows_view(keys@), l as int) is None,
        },
{
    let ghost lv = rows_view(rows@);
    let ghost kv = rows_view(keys@);
    let mut k = l;
    while k > 0
        invariant
            k <= l <= rows.len(),
            lv == rows_view(rows@),
            kv == rows_view(keys@),
            last_marker_before(lv, kv, l as int) == last_marker_before(lv, kv, k as int),
        decreases k,
    {
        match structural_marker(rows[k - 1].as_slice(), keys) {
            Some(m) => {
                return Some((k - 1, m));
            },
            None => {},
        }
        k = k - 1;
    }
    None
}

fn first_nonempty_from(rows: &Vec<Vec<char>>, from: usize) -> (r: Option<usize>)
    ensures
        match r {
            Some(k) => next_nonempty_from(rows_view(rows@), from as int) == Some(k as nat) && k
                < rows.len(),
            None => next_nonempty_from(rows_view(rows@), from as int) is None,
        },
{
    let ghost lv = rows_view(rows@);
    let mut k = from;
    while k < rows.len()
        invariant
            from <= k,
            lv == rows_view(rows@),
            next_nonempty_from(lv, from as int) == next_nonempty_from(lv, k as int),
        decreases rows.len() - k,
    {
        if rows[k].len() > 0 {
            return Some(k);
        }
        k = k + 1;
    }
    None
}

fn rows_ok(marker: DocumentMarker, heading: usize, l: usize, boundary: usize, next: Option<DocumentMarker>) -> (r: bool)
    requires
        l < boundary,
    ensures
        r == reserved_rows_ok(marker, heading as nat, l as nat, boundary as nat, next),
{
    match marker {
        DocumentMarker::Field(_) => {
            let rows: usize = if let Some(DocumentMarker::Section(_)) = next {
                2
            } else {
                1
            };
            heading < l && l - heading > 1 && boundary - l <= rows
        },
        DocumentMarker::Section(MessageSection::Subject) => false,
        DocumentMarker::Section(_) => true,
    }
}

/// Whether empty line `l` is kept as layout rather than as part of a value.
pub fn reserved_separator(rows: &Vec<Vec<char>>, l: usize, keys: &Vec<Vec<char>>) -> (r: bool)
    ensures
        r == reserved_spec(rows_view(rows@), l as int, rows_view(keys@)),
{
    let ghost lv = rows_view(rows@);
    let ghost kv = rows_view(keys@);
    if l >= rows.len() || rows[l].len() != 0 {
        return false;
    }
    let (heading, marker) = match last_marker_above(rows, keys, l) {
        Some(found) => found,
        None => {
            return false;
        },
    };
    match first_nonempty_from(rows, l + 1) {
        Some(k) => match structural_marker(rows[k].as_slice(), keys) {
            None => false,
            Some(next) => {
                proof {
                    lemma_next_nonempty_after(lv, (l + 1) as int);
                }
                rows_ok(marker, heading, l, k, Some(next))
            },
        },
        None => rows_ok(marker, heading, l, rows.len(), None),
    }
}

proof fn lemma_next_nonempty_after(lines: Seq<Seq<char>>, k: int)
    ensures
        next_nonempty_from(lines, k) matches Some(j) ==> k <= j < lines.len(),
    decreases lines.len() - k,
{
    if 0 <= k < lines.len() && lines[k].len() == 0 {
        lemma_next_nonempty_after(lines, k + 1);
    }
}

/// A line where the author may type: neither a marker nor reserved layout.
pub open spec fn editable_spec(lines: Seq<Seq<char>>, keys: Seq<Seq<char>>, r: int) -> bool {
    marker_spec(lines[r], keys) is None && !reserved_spec(lines, r, keys)
}

/// The first editable line at or after `k`.
pub open spec fn first_editable_from(lines: Seq<Seq<char>>, keys: Seq<Seq<char>>, k: int) -> Option<
    nat,
>
    decreases lines.len() - k,
{
    if k < 0 || k >= lines.len() {
        None
    } else if editable_spec(lines, keys, k) {
        Some(k as nat)
    } else {
        first_editable_from(lines, keys, k + 1)
    }
}

/// The last editable line before `k`.
pub open spec fn last_editable_before(lines: Seq<Seq<char>>, keys: Seq<Seq<char>>, k: int) -> Option<
    nat,
>
    decreases k,
{
    if k <= 0 {
        None
    } else if k - 1 < lines.len() && editable_spec(lines, keys, k - 1) {
        Some((k - 1) as nat)
    } else {
        last_editable_before(lines, keys, k - 1)
    }
}

/// Lexicographic order of cursor positions.
pub open spec fn cursor_after(a: (nat, nat), b: (nat, nat)) -> bool {
    a.0 > b.0 || (a.0 == b.0 && a.1 > b.1)
}

/// Where a cursor that moved from `previous` onto a marker or reserved line
/// must jump: on to the next editable line in the direction it moved, keeping
/// the previous column, or back to where it came from when no such line
/// exists. `None` when the cursor may stay.
pub open spec fn skip_destination(
    lines: Seq<Seq<char>>,
    keys: Seq<Seq<char>>,
    previous: (nat, nat),
    cursor: (nat, nat),
) -> Option<(nat, nat)> {
    if cursor.0 >= lines.len() || editable_spec(lines, keys, cursor.0 as int) {
        None
    } else {
        let found = if cursor_after(cursor, previous) {
            first_editable_from(lines, keys, cursor.0 + 1 as int)
        } else {
            last_editable_before(lines, keys, cursor.0 as int)
        };
        match found {
            Some(t) => Some((t, previous.1)),
            None => Some(previous),
        }
    }
}

fn is_editable(rows: &Vec<Vec<char>>, keys: &Vec<Vec<char>>, r: usize) -> (b: bool)
    requires
        r < rows.len(),
    ensures
        b == editable_spec(rows_view(rows@), rows_view(keys@), r as int),
{
    structural_marker(rows[r].as_slice(), keys).is_none() && !reserved_separator(rows, r, keys)
}

/// Where the cursor must jump after moving from `previous` to `cursor`, if it
/// may not stay.
pub fn skip_target(
    rows: &Vec<Vec<char>>,
    keys: &Vec<Vec<char>>,
    previous: (usize, usize),
    cursor: (usize, usize),
) -> (r: Option<(usize, usize)>)
    ensures
        match r {
            Some((row, col)) => skip_destination(
                rows_view(rows@),
                rows_view(keys@),
                (previous.0 as nat, previous.1 as nat),
                (cursor.0 as nat, cursor.1 as nat),
            ) == Some((row as nat, col as nat)),
            None => skip_destination(
                rows_view(rows@),
                rows_view(keys@),
                (previous.0 as nat, previous.1 as nat),
                (cursor.0 as nat, cursor.1 as nat),
            ) is None,
        },
{
    let ghost lv = rows_view(rows@);
    let ghost kv = rows_view(keys@);
    if cursor.0 >= rows.len() || is_editable(rows, keys, cursor.0) {
        return None;
    }
    let forward = cursor.0 > previous.0 || (cursor.0 == previous.0 && cursor.1 > previous.1);
    if forward {
        let mut k = cursor.0 + 1;
        while k < rows.len()
            invariant
                cursor.0 < k,
                cursor.0 < rows.len(),
                !editable_spec(lv, kv, cursor.0 as int),
                cursor_after((cursor.0 as nat, cursor.1 as nat), (previous.0 as nat, previous.1 as nat)),
                lv == rows_view(rows@),
                kv == rows_view(keys@),
                first_editable_from(lv, kv, cursor.0 + 1) == first_editable_from(lv, kv, k as int),
            decreases rows.len() - k,
        {
            if is_editable(rows, keys, k) {
                assert(first_editable_from(lv, kv, k as int) == Some(k as nat));
                return Some((k, previous.1));
            }
            k = k + 1;
        }
        Some(previous)
    } else {
        let mut k = cursor.0;
        while k > 0
            invariant
                k <= cursor.0 < rows.len(),
                !editable_spec(lv, kv, cursor.0 as int),
                !cursor_after((cursor.0 as nat, cursor.1 as nat), (previous.0 as nat, previous.1 as nat)),
                lv == rows_view(rows@),
                kv == rows_view(keys@),
                last_editable_before(lv, kv, cursor.0 as int) == last_editable_before(lv, kv, k as int),
            decreases k,
        {
            if is_editable(rows, keys, k - 1) {
                assert(last_editable_before(lv, kv, k as int) == Some((k - 1) as nat));
                return Some((k - 1, previous.1));
            }
            k = k - 1;
        }
        Some(previous)
    }
}

/// The index of the first section whose lines include `row`.
pub open spec fn section_index_at(secs: Seq<SectionView>, row: nat, m: int) -> Option<nat>
    decreases m,
{
    if m <= 0 {
        None
    } else {
        match section_index_at(secs, row, m - 1) {
            Some(i) => Some(i),
            None => if secs[m - 1].heading_line <= row < secs[m - 1].end_line {
                Some((m - 1) as nat)
            } else {
                None
            },
        }
    }
}

pub proof fn lemma_section_index_in_range(secs: Seq<SectionView>, row: nat, m: int)
    ensures
        section_index_at(secs, row, m) matches Some(i) ==> i < m && secs[i as int].heading_line
            <= row < secs[i as int].end_line,
    decreases m,
{
    if m > 0 {
        lemma_section_index_in_range(secs, row, m - 1);
    }
}

/// The index of the section holding line `row`.
pub fn section_index(parsed: &ParsedDocument, row: usize) -> (r: Option<usize>)
    ensures
        match r {
            Some(i) => section_index_at(parsed@.sections, row as nat, parsed@.sections.len() as int)
                == Some(i as nat) && i < parsed.sections.len(),
            None => section_index_at(parsed@.sections, row as nat, parsed@.sections.len() as int) is None,
        },
{
    let ghost sv = parsed@.sections;
    let mut m: usize = 0;
    while m < parsed.sections.len()
        invariant
            m <= parsed.sections.len(),
            sv == parsed@.sections,
            section_index_at(sv, row as nat, m as int) is None,
        decreases parsed.sections.len() - m,
    {
        let s = &parsed.sections[m];
        if s.heading_line <= row && row < s.end_line {
            assert(sv[m as int] == parsed.sections@[m as int]@);
            proof {
                lemma_section_index_prefix(sv, row as nat, (m + 1) as int, sv.len() as int);
            }
            return Some(m);
        }
        m = m + 1;
    }
    None
}

pub proof fn lemma_section_index_prefix(secs: Seq<SectionView>, row: nat, m: int, total: int)
    requires
        0 <= m <= total,
        section_index_at(secs, row, m) is Some,
    ensures
        section_index_at(secs, row, total) == section_index_at(secs, row, m),
    decreases total - m,
{
    if total > m {
        lemma_section_index_prefix(secs, row, m, total - 1);
    }
}

/// The field occurrence that holds line `row`.
pub open spec fn field_at_spec(lines: Seq<Seq<char>>, props: Seq<PropertyView>, row: nat) -> Option<FieldKind> {
    let secs = parse_spec(lines, props).sections;
    match section_index_at(secs, row, secs.len() as int) {
        Some(i) => Some(secs[i as int].kind),
        None => None,
    }
}


/// Each section of a parse starts on its heading line, before the line that
/// ends it, within the document.
pub proof fn lemma_sections_bounded(lines: Seq<Seq<char>>, props: Seq<PropertyView>)
    requires
        lines.len() <= usize::MAX,
    ensures
        forall|k: int|
            0 <= k < parse_spec(lines, props).sections.len() ==> (#[trigger] parse_spec(lines, props).sections[k]).heading_line
                < parse_spec(lines, props).sections[k].end_line <= lines.len(),
{
    let keys = keys_of(props);
    let bs = boundaries_upto(lines, keys, lines.len());
    lemma_boundaries_facts(lines, keys, lines.len());
    lemma_sections_bounded_upto(bs, lines, bs.len());
}

proof fn lemma_sections_bounded_upto(bs: Seq<Boundary>, lines: Seq<Seq<char>>, m: nat)
    requires
        m <= bs.len(),
        forall|k: int| 0 <= k < bs.len() ==> (#[trigger] bs[k]).line < lines.len(),
        forall|a: int, b: int| 0 <= a < b < bs.len() ==> (#[trigger] bs[a]).line < (#[trigger] bs[b]).line,
    ensures
        forall|k: int|
            0 <= k < sections_upto(bs, lines, m).len() ==> (#[trigger] sections_upto(bs, lines, m)[k]).heading_line
                < sections_upto(bs, lines, m)[k].end_line <= lines.len(),
    decreases m,
{
    if m > 0 {
        lemma_sections_bounded_upto(bs, lines, (m - 1) as nat);
        let prev = sections_upto(bs, lines, (m - 1) as nat);
        let cur = sections_upto(bs, lines, m);
        assert forall|k: int| 0 <= k < cur.len() implies (#[trigger] cur[k]).heading_line < cur[k].end_line <= lines.len() by {
            if k < prev.len() {
                assert(cur[k] == prev[k]);
            } else {
                let b = m - 1;
                if b + 1 < bs.len() {
                    assert(bs[b].line < bs[b + 1].line);
                }
            }
        }
    }
}

} // verus!
