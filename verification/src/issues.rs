//! Reports gathered when a draft is checked: their order on screen and the
//! rules that decide which fields they point at.

use vstd::prelude::*;

use crate::composer::lemma_sections_in_schema;
use crate::document::{
    boundaries_upto, issues_view, lemma_boundaries_facts, parse_spec, parse_document, lines_view, lemma_sections_bounded,
    IssueView, ParsedDocument, SectionView, ValidationIssue,
};
use crate::schema::{field_in_schema, keys_of, kind_id, CommitSchema, FieldId, Multiplicity, PropertyView, Requirement};
use crate::text::{chars_of, debug_quoted, debug_text};

verus! {

/// `x` placed after every report of `sorted` on a line no later than its own.
pub open spec fn insert_by_line(sorted: Seq<IssueView>, x: IssueView) -> Seq<IssueView>
    decreases sorted.len(),
{
    if sorted.len() == 0 {
        seq![x]
    } else if sorted.last().line <= x.line {
        sorted.push(x)
    } else {
        insert_by_line(sorted.drop_last(), x).push(sorted.last())
    }
}

/// Reports ordered by line, keeping the order of reports on the same line.
pub open spec fn sort_by_line(s: Seq<IssueView>) -> Seq<IssueView>
    decreases s.len(),
{
    if s.len() == 0 {
        Seq::empty()
    } else {
        insert_by_line(sort_by_line(s.drop_last()), s.last())
    }
}

/// Inserting keeps the reports, adds one, and keeps line order.
proof fn lemma_insert_at(sorted: Seq<IssueView>, x: IssueView, p: int)
    requires
        0 <= p <= sorted.len(),
        forall|j: int| p <= j < sorted.len() ==> (#[trigger] sorted[j]).line > x.line,
        p > 0 ==> sorted[p - 1].line <= x.line,
    ensures
        insert_by_line(sorted, x) == sorted.subrange(0, p).push(x) + sorted.subrange(
            p,
            sorted.len() as int,
        ),
    decreases sorted.len(),
{
    if sorted.len() == 0 {
        assert(sorted.subrange(0, p).push(x) + sorted.subrange(p, sorted.len() as int) =~= seq![x]);
    } else if sorted.last().line <= x.line {
        assert(p == sorted.len());
        assert(sorted.subrange(0, p).push(x) + sorted.subrange(p, sorted.len() as int) =~= sorted.push(x));
    } else {
        let rest = sorted.drop_last();
        lemma_insert_at(rest, x, p);
        assert(sorted.subrange(0, p).push(x) + sorted.subrange(p, sorted.len() as int) =~= (
        rest.subrange(0, p).push(x) + rest.subrange(p, rest.len() as int)).push(sorted.last()));
    }
}

/// Sorting keeps the number of reports.
pub proof fn lemma_sort_len(s: Seq<IssueView>)
    ensures
        sort_by_line(s).len() == s.len(),
    decreases s.len(),
{
    if s.len() > 0 {
        lemma_sort_len(s.drop_last());
        lemma_insert_len(sort_by_line(s.drop_last()), s.last());
    }
}

proof fn lemma_insert_len(sorted: Seq<IssueView>, x: IssueView)
    ensures
        insert_by_line(sorted, x).len() == sorted.len() + 1,
    decreases sorted.len(),
{
    if sorted.len() > 0 && sorted.last().line > x.line {
        lemma_insert_len(sorted.drop_last(), x);
    }
}

/// Sorted order of report lines.
pub open spec fn lines_sorted(s: Seq<IssueView>) -> bool {
    forall|a: int, b: int| 0 <= a <= b < s.len() ==> (#[trigger] s[a]).line <= (#[trigger] s[b]).line
}

proof fn lemma_insert_sorted(sorted: Seq<IssueView>, x: IssueView, p: int)
    requires
        lines_sorted(sorted),
        0 <= p <= sorted.len(),
        forall|j: int| p <= j < sorted.len() ==> (#[trigger] sorted[j]).line > x.line,
        p > 0 ==> sorted[p - 1].line <= x.line,
    ensures
        lines_sorted(sorted.subrange(0, p).push(x) + sorted.subrange(p, sorted.len() as int)),
{
    let r = sorted.subrange(0, p).push(x) + sorted.subrange(p, sorted.len() as int);
    assert forall|a: int, b: int| 0 <= a <= b < r.len() implies (#[trigger] r[a]).line <= (#[trigger] r[b]).line by {
        if a < p && b < p {
            assert(r[a] == sorted[a] && r[b] == sorted[b]);
        } else if a < p && b == p {
            assert(r[a] == sorted[a]);
            assert(sorted[a].line <= sorted[p - 1].line);
        } else if a < p {
            assert(r[a] == sorted[a] && r[b] == sorted[b - 1]);
        } else if a == p && b > p {
            assert(r[b] == sorted[b - 1]);
        } else if a > p {
            assert(r[a] == sorted[a - 1] && r[b] == sorted[b - 1]);
        }
    }
}

fn copy_issue(issue: &ValidationIssue) -> (r: ValidationIssue)
    ensures
        r@ == issue@,
{
    ValidationIssue { field: issue.field, line: issue.line, message: issue.message.clone() }
}

/// The reports ordered by line; reports on the same line keep their order.
pub fn sorted_by_line(issues: &Vec<ValidationIssue>) -> (r: Vec<ValidationIssue>)
    ensures
        issues_view(r@) == sort_by_line(issues_view(issues@)),
        lines_sorted(issues_view(r@)),
{
    let ghost all = issues_view(issues@);
    let mut sorted: Vec<ValidationIssue> = Vec::new();
    let mut i: usize = 0;
    while i < issues.len()
        invariant
            i <= issues.len(),
            all == issues_view(issues@),
            issues_view(sorted@) == sort_by_line(all.subrange(0, i as int)),
            lines_sorted(issues_view(sorted@)),
        decreases issues.len() - i,
    {
        let item = copy_issue(&issues[i]);
        let ghost before = issues_view(sorted@);
        let mut p = sorted.len();
        while p > 0 && sorted[p - 1].line > item.line
            invariant
                p <= sorted.len(),
                before == issues_view(sorted@),
                forall|j: int| p <= j < sorted.len() ==> (#[trigger] before[j]).line > item.line,
            decreases p,
        {
            assert(before[p - 1] == sorted@[p - 1]@);
            p = p - 1;
        }
        if p > 0 {
            assert(before[p - 1] == sorted@[p - 1]@);
        }
        proof {
            lemma_insert_at(before, item@, p as int);
            lemma_insert_sorted(before, item@, p as int);
            assert(all.subrange(0, i + 1).drop_last() =~= all.subrange(0, i as int));
            assert(all.subrange(0, i + 1).last() == item@);
        }
        sorted.insert(p, item);
        assert(issues_view(sorted@) =~= before.subrange(0, p as int).push(item@) + before.subrange(
            p as int,
            before.len() as int,
        ));
        i = i + 1;
    }
    assert(all.subrange(0, issues.len() as int) =~= all);
    sorted
}


/// Every section starts before it ends, within the addressable lines.
pub open spec fn sections_bounded(secs: Seq<SectionView>) -> bool {
    forall|k: int| 0 <= k < secs.len() ==> (#[trigger] secs[k]).heading_line < secs[k].end_line <= usize::MAX
}

/// The verdicts of the commit rules on each section's value, in parse order:
/// `Some(message)` when the value is refused.
pub open spec fn errors_view(v: Seq<Option<String>>) -> Seq<Option<Seq<char>>> {
    Seq::new(
        v.len(),
        |i: int|
            match v[i] {
                Some(m) => Some(m@),
                None => None,
            },
    )
}

/// The verdict for entry `k`; entries without one count as accepted.
pub open spec fn error_at(errors: Seq<Option<Seq<char>>>, k: int) -> Option<Seq<char>> {
    if 0 <= k < errors.len() {
        errors[k]
    } else {
        None
    }
}

/// The first of the first `m` sections that belongs to field `id`.
pub open spec fn first_of(secs: Seq<SectionView>, id: FieldId, m: int) -> Option<nat>
    decreases m,
{
    if m <= 0 {
        None
    } else {
        match first_of(secs, id, m - 1) {
            Some(i) => Some(i),
            None => if kind_id(secs[m - 1].kind) == id {
                Some((m - 1) as nat)
            } else {
                None
            },
        }
    }
}

pub proof fn lemma_first_of(secs: Seq<SectionView>, id: FieldId, m: int)
    ensures
        first_of(secs, id, m) matches Some(i) ==> i < m && kind_id(secs[i as int].kind) == id,
        first_of(secs, id, m) is None ==> forall|j: int| 0 <= j < m ==> kind_id(#[trigger] secs[j].kind) != id,
    decreases m,
{
    if m > 0 {
        lemma_first_of(secs, id, m - 1);
    }
}

/// The report of a refused value, pointed at the line under its heading.
pub open spec fn refused(id: FieldId, sec: SectionView, message: Seq<char>) -> IssueView {
    IssueView { field: Some(id), line: sec.heading_line + 1, message }
}

/// The first value of a single optional field, when present and refused.
pub open spec fn optional_value_issues(secs: Seq<SectionView>, errors: Seq<Option<Seq<char>>>, id: FieldId) -> Seq<IssueView> {
    match first_of(secs, id, secs.len() as int) {
        Some(k) => if secs[k as int].text.len() > 0 && error_at(errors, k as int) is Some {
            seq![refused(id, secs[k as int], error_at(errors, k as int)->Some_0)]
        } else {
            Seq::empty()
        },
        None => Seq::empty(),
    }
}

/// The description: missing, or refused.
pub open spec fn description_issues(secs: Seq<SectionView>, errors: Seq<Option<Seq<char>>>) -> Seq<IssueView> {
    match first_of(secs, FieldId::Description, secs.len() as int) {
        None => seq![
            IssueView {
                field: Some(FieldId::Description),
                line: 0,
                message: "restore the description field header"@,
            },
        ],
        Some(k) => match error_at(errors, k as int) {
            Some(m) => seq![refused(FieldId::Description, secs[k as int], m)],
            None => Seq::empty(),
        },
    }
}

/// Reports for the refused values of property `d` among the first `m`
/// sections.
pub open spec fn value_issues(secs: Seq<SectionView>, errors: Seq<Option<Seq<char>>>, d: usize, m: int) -> Seq<IssueView>
    decreases m,
{
    if m <= 0 {
        Seq::empty()
    } else {
        let prev = value_issues(secs, errors, d, m - 1);
        let sec = secs[m - 1];
        if kind_id(sec.kind) == FieldId::Property(d) && sec.text.len() > 0 && error_at(errors, m - 1) is Some {
            prev.push(refused(FieldId::Property(d), sec, error_at(errors, m - 1)->Some_0))
        } else {
            prev
        }
    }
}

/// How many values of property `d` among the first `m` sections pass.
pub open spec fn accepted_values(secs: Seq<SectionView>, errors: Seq<Option<Seq<char>>>, d: usize, m: int) -> nat
    decreases m,
{
    if m <= 0 {
        0
    } else {
        accepted_values(secs, errors, d, m - 1) + if kind_id(secs[m - 1].kind) == FieldId::Property(d)
            && secs[m - 1].text.len() > 0 && error_at(errors, m - 1) is None {
            1nat
        } else {
            0nat
        }
    }
}

/// The values of property `d` among the first `m` sections that pass, in
/// document order: what the commit rules then judge as a list.
pub open spec fn accepted_texts(secs: Seq<SectionView>, errors: Seq<Option<Seq<char>>>, d: usize, m: int) -> Seq<Seq<char>>
    decreases m,
{
    if m <= 0 {
        Seq::empty()
    } else {
        let prev = accepted_texts(secs, errors, d, m - 1);
        if kind_id(secs[m - 1].kind) == FieldId::Property(d) && secs[m - 1].text.len() > 0 && error_at(
            errors,
            m - 1,
        ) is None {
            prev.push(secs[m - 1].text)
        } else {
            prev
        }
    }
}

/// The accepted values are as many as they are counted.
pub proof fn lemma_accepted_texts_len(secs: Seq<SectionView>, errors: Seq<Option<Seq<char>>>, d: usize, m: int)
    ensures
        accepted_texts(secs, errors, d, m).len() == accepted_values(secs, errors, d, m),
    decreases m,
{
    if m > 0 {
        lemma_accepted_texts_len(secs, errors, d, m - 1);
    }
}

/// The values of repeatable property `d` that the section verdicts accept,
/// in document order.
pub fn accepted_property_values(parsed: &ParsedDocument, errors: &Vec<Option<String>>, d: usize) -> (v: Vec<String>)
    ensures
        Seq::new(v@.len(), |i: int| v@[i]@) == accepted_texts(
            parsed@.sections,
            errors_view(errors@),
            d,
            parsed@.sections.len() as int,
        ),
        v@.len() == accepted_values(parsed@.sections, errors_view(errors@), d, parsed@.sections.len() as int),
{
    let ghost secs = parsed@.sections;
    let ghost errs = errors_view(errors@);
    let mut v: Vec<String> = Vec::new();
    let mut m: usize = 0;
    while m < parsed.sections.len()
        invariant
            m <= parsed.sections.len(),
            secs == parsed@.sections,
            errs == errors_view(errors@),
            Seq::new(v@.len(), |i: int| v@[i]@) == accepted_texts(secs, errs, d, m as int),
        decreases parsed.sections.len() - m,
    {
        assert(secs[m as int] == parsed.sections@[m as int]@);
        let ghost before = Seq::new(v@.len(), |i: int| v@[i]@);
        let refused = match copy_error(errors, m) {
            Some(_) => true,
            None => false,
        };
        if parsed.sections[m].kind.id() == FieldId::Property(d) && chars_of(parsed.sections[m].text.as_str()).len() > 0
            && !refused {
            v.push(parsed.sections[m].text.clone());
            assert(Seq::new(v@.len(), |i: int| v@[i]@) =~= before.push(secs[m as int].text));
        }
        m = m + 1;
    }
    proof {
        lemma_accepted_texts_len(secs, errs, d, secs.len() as int);
    }
    v
}

/// The line reports about property `d` point at: under its first heading.
pub open spec fn first_value_line(secs: Seq<SectionView>, d: usize) -> nat {
    match first_of(secs, FieldId::Property(d), secs.len() as int) {
        Some(k) => secs[k as int].heading_line + 1,
        None => 0,
    }
}

/// Reports about property `d`: its refused values; then, without an
/// accepted value, a missing required value; or, for a repeatable property,
/// the refusal of its list of values.
pub open spec fn property_issues(
    secs: Seq<SectionView>,
    errors: Seq<Option<Seq<char>>>,
    lists: Seq<Option<Seq<char>>>,
    props: Seq<PropertyView>,
    d: usize,
) -> Seq<IssueView> {
    let values = value_issues(secs, errors, d, secs.len() as int);
    let line = first_value_line(secs, d);
    let extra = if accepted_values(secs, errors, d, secs.len() as int) == 0 {
        if props[d as int].requirement is Required {
            seq![
                IssueView {
                    field: Some(FieldId::Property(d)),
                    line,
                    message: "complete required property "@ + debug_text(props[d as int].key),
                },
            ]
        } else {
            Seq::empty()
        }
    } else if props[d as int].multiplicity == Multiplicity::Multiple && error_at(lists, d as int) is Some {
        seq![IssueView { field: Some(FieldId::Property(d)), line, message: error_at(lists, d as int)->Some_0 }]
    } else {
        Seq::empty()
    };
    values + extra
}

/// Reports about the first `m` properties, property by property.
pub open spec fn properties_issues(
    secs: Seq<SectionView>,
    errors: Seq<Option<Seq<char>>>,
    lists: Seq<Option<Seq<char>>>,
    props: Seq<PropertyView>,
    m: nat,
) -> Seq<IssueView>
    decreases m,
{
    if m == 0 {
        Seq::empty()
    } else {
        properties_issues(secs, errors, lists, props, (m - 1) as nat) + property_issues(
            secs,
            errors,
            lists,
            props,
            (m - 1) as usize,
        )
    }
}

proof fn lemma_value_issues_report(secs: Seq<SectionView>, errors: Seq<Option<Seq<char>>>, d: usize, m: int, k: int)
    requires
        0 <= k < m <= secs.len(),
        kind_id(secs[k].kind) == FieldId::Property(d),
        secs[k].text.len() > 0,
        error_at(errors, k) is Some,
    ensures
        value_issues(secs, errors, d, m).contains(refused(FieldId::Property(d), secs[k], error_at(errors, k)->Some_0)),
    decreases m,
{
    let x = refused(FieldId::Property(d), secs[k], error_at(errors, k)->Some_0);
    let prev = value_issues(secs, errors, d, m - 1);
    if k == m - 1 {
        assert(value_issues(secs, errors, d, m) == prev.push(x));
        assert(prev.push(x)[prev.len() as int] == x);
    } else {
        lemma_value_issues_report(secs, errors, d, m - 1, k);
        let j = choose|j: int| 0 <= j < prev.len() && prev[j] == x;
        let cur = value_issues(secs, errors, d, m);
        assert(cur[j] == x);
    }
}

proof fn lemma_properties_issues_report(
    secs: Seq<SectionView>,
    errors: Seq<Option<Seq<char>>>,
    lists: Seq<Option<Seq<char>>>,
    props: Seq<PropertyView>,
    n: nat,
    d: usize,
    x: IssueView,
)
    requires
        d < n,
        property_issues(secs, errors, lists, props, d).contains(x),
    ensures
        properties_issues(secs, errors, lists, props, n).contains(x),
    decreases n,
{
    let prev = properties_issues(secs, errors, lists, props, (n - 1) as nat);
    let last = property_issues(secs, errors, lists, props, (n - 1) as usize);
    let cur = properties_issues(secs, errors, lists, props, n);
    assert(cur == prev + last);
    if d == n - 1 {
        let j = choose|j: int| 0 <= j < last.len() && last[j] == x;
        assert(cur[prev.len() + j] == x);
    } else {
        lemma_properties_issues_report(secs, errors, lists, props, (n - 1) as nat, d, x);
        let j = choose|j: int| 0 <= j < prev.len() && prev[j] == x;
        assert(cur[j] == x);
    }
}

/// A refused property value is always reported: whenever the commit rules
/// refuse the non-empty value of a section of property `d`, the draft's
/// reports include one for property `d`, on the line under that section's
/// heading, with the rules' message; so such a draft is never clean.
pub proof fn lemma_refused_values_are_reported(
    lines: Seq<Seq<char>>,
    props: Seq<PropertyView>,
    errors: Seq<Option<Seq<char>>>,
    lists: Seq<Option<Seq<char>>>,
    k: int,
    d: usize,
)
    requires
        lines.len() <= usize::MAX,
        0 <= k < parse_spec(lines, props).sections.len(),
        kind_id(parse_spec(lines, props).sections[k].kind) == FieldId::Property(d),
        parse_spec(lines, props).sections[k].text.len() > 0,
        k < errors.len() && errors[k] is Some,
    ensures
        draft_issues(lines, props, errors, lists).contains(
            IssueView {
                field: Some(FieldId::Property(d)),
                line: parse_spec(lines, props).sections[k].heading_line + 1,
                message: errors[k]->Some_0,
            },
        ),
        draft_issues(lines, props, errors, lists).len() > 0,
{
    let parsed = parse_spec(lines, props);
    let secs = parsed.sections;
    let keys = keys_of(props);
    let bs = boundaries_upto(lines, keys, lines.len());
    lemma_boundaries_facts(lines, keys, lines.len());
    lemma_sections_in_schema(bs, lines, bs.len(), props.len());
    assert(field_in_schema(kind_id(secs[k].kind), props.len()));
    assert(d < props.len());
    let x = refused(FieldId::Property(d), secs[k], error_at(errors, k)->Some_0);
    lemma_value_issues_report(secs, errors, d, secs.len() as int, k);
    let values = value_issues(secs, errors, d, secs.len() as int);
    let pi = property_issues(secs, errors, lists, props, d);
    let jv = choose|j: int| 0 <= j < values.len() && values[j] == x;
    assert(pi[jv] == x);
    lemma_properties_issues_report(secs, errors, lists, props, props.len(), d, x);
    let ps = properties_issues(secs, errors, lists, props, props.len());
    let jp = choose|j: int| 0 <= j < ps.len() && ps[j] == x;
    let a = parsed.issues + optional_value_issues(secs, errors, FieldId::Scope) + description_issues(secs, errors);
    let all = draft_issues(lines, props, errors, lists);
    assert(all == a + ps + optional_value_issues(secs, errors, FieldId::BreakingChange));
    assert(all[a.len() + jp] == x);
}

/// Every report about a draft: the parse reports, then scope, description,
/// each property, and breaking change.
pub open spec fn draft_issues(
    lines: Seq<Seq<char>>,
    props: Seq<PropertyView>,
    errors: Seq<Option<Seq<char>>>,
    lists: Seq<Option<Seq<char>>>,
) -> Seq<IssueView> {
    let parsed = parse_spec(lines, props);
    let secs = parsed.sections;
    parsed.issues + optional_value_issues(secs, errors, FieldId::Scope) + description_issues(secs, errors)
        + properties_issues(secs, errors, lists, props, props.len()) + optional_value_issues(
        secs,
        errors,
        FieldId::BreakingChange,
    )
}

fn copy_error(errors: &Vec<Option<String>>, k: usize) -> (r: Option<String>)
    ensures
        match r {
            Some(m) => error_at(errors_view(errors@), k as int) == Some(m@),
            None => error_at(errors_view(errors@), k as int) is None,
        },
{
    if k < errors.len() {
        match &errors[k] {
            Some(m) => Some(m.clone()),
            None => None,
        }
    } else {
        None
    }
}

fn first_section(parsed: &ParsedDocument, id: FieldId) -> (r: Option<usize>)
    ensures
        match r {
            Some(k) => first_of(parsed@.sections, id, parsed@.sections.len() as int) == Some(k as nat)
                && k < parsed.sections.len(),
            None => first_of(parsed@.sections, id, parsed@.sections.len() as int) is None,
        },
{
    let ghost secs = parsed@.sections;
    let mut m: usize = 0;
    while m < parsed.sections.len()
        invariant
            m <= parsed.sections.len(),
            secs == parsed@.sections,
            first_of(secs, id, m as int) is None,
        decreases parsed.sections.len() - m,
    {
        assert(secs[m as int] == parsed.sections@[m as int]@);
        if parsed.sections[m].kind.id() == id {
            proof {
                lemma_first_of_prefix(secs, id, (m + 1) as int, secs.len() as int);
            }
            return Some(m);
        }
        m = m + 1;
    }
    None
}

pub proof fn lemma_first_of_prefix(secs: Seq<SectionView>, id: FieldId, m: int, total: int)
    requires
        0 <= m <= total,
        first_of(secs, id, m) is Some,
    ensures
        first_of(secs, id, total) == first_of(secs, id, m),
    decreases total - m,
{
    if total > m {
        lemma_first_of_prefix(secs, id, m, total - 1);
    }
}

fn nonempty(s: &String) -> (b: bool)
    ensures
        b == (s@.len() > 0),
{
    chars_of(s.as_str()).len() > 0
}

fn optional_value_report(parsed: &ParsedDocument, errors: &Vec<Option<String>>, id: FieldId) -> (r: Vec<ValidationIssue>)
    requires
        sections_bounded(parsed@.sections),
    ensures
        issues_view(r@) == optional_value_issues(parsed@.sections, errors_view(errors@), id),
{
    let mut r: Vec<ValidationIssue> = Vec::new();
    if let Some(k) = first_section(parsed, id) {
        assert(parsed@.sections[k as int] == parsed.sections@[k as int]@);
        let section = &parsed.sections[k];
        if nonempty(&section.text) {
            if let Some(message) = copy_error(errors, k) {
                r.push(ValidationIssue { field: Some(id), line: section.heading_line + 1, message });
            }
        }
    }
    assert(issues_view(r@) =~= optional_value_issues(parsed@.sections, errors_view(errors@), id));
    r
}


fn description_report(parsed: &ParsedDocument, errors: &Vec<Option<String>>) -> (r: Vec<ValidationIssue>)
    requires
        sections_bounded(parsed@.sections),
    ensures
        issues_view(r@) == description_issues(parsed@.sections, errors_view(errors@)),
{
    let mut r: Vec<ValidationIssue> = Vec::new();
    match first_section(parsed, FieldId::Description) {
        None => {
            r.push(
                ValidationIssue {
                    field: Some(FieldId::Description),
                    line: 0,
                    message: String::from_str("restore the description field header"),
                },
            );
        },
        Some(k) => {
            assert(parsed@.sections[k as int] == parsed.sections@[k as int]@);
            if let Some(message) = copy_error(errors, k) {
                r.push(
                    ValidationIssue {
                        field: Some(FieldId::Description),
                        line: parsed.sections[k].heading_line + 1,
                        message,
                    },
                );
            }
        },
    }
    assert(issues_view(r@) =~= description_issues(parsed@.sections, errors_view(errors@)));
    r
}

fn property_report(
    parsed: &ParsedDocument,
    errors: &Vec<Option<String>>,
    lists: &Vec<Option<String>>,
    schema: &CommitSchema,
    d: usize,
) -> (r: Vec<ValidationIssue>)
    requires
        sections_bounded(parsed@.sections),
        d < schema@.len(),
    ensures
        issues_view(r@) == property_issues(parsed@.sections, errors_view(errors@), errors_view(lists@), schema@, d),
{
    let ghost secs = parsed@.sections;
    let ghost ev = errors_view(errors@);
    let mut r: Vec<ValidationIssue> = Vec::new();
    let mut accepted: usize = 0;
    let mut m: usize = 0;
    while m < parsed.sections.len()
        invariant
            m <= parsed.sections.len(),
            secs == parsed@.sections,
            ev == errors_view(errors@),
            sections_bounded(secs),
            issues_view(r@) == value_issues(secs, ev, d, m as int),
            accepted as nat == accepted_values(secs, ev, d, m as int),
            accepted <= m,
        decreases parsed.sections.len() - m,
    {
        let section = &parsed.sections[m];
        assert(secs[m as int] == section@);
        if section.kind.id() == FieldId::Property(d) && nonempty(&section.text) {
            match copy_error(errors, m) {
                Some(message) => {
                    let ghost before = issues_view(r@);
                    r.push(ValidationIssue { field: Some(FieldId::Property(d)), line: section.heading_line + 1, message });
                    assert(issues_view(r@) =~= before.push(refused(FieldId::Property(d), secs[m as int], ev[m as int]->Some_0)));
                },
                None => {
                    accepted = accepted + 1;
                },
            }
        }
        m = m + 1;
    }
    let line = match first_section(parsed, FieldId::Property(d)) {
        Some(k) => {
            assert(secs[k as int] == parsed.sections@[k as int]@);
            parsed.sections[k].heading_line + 1
        },
        None => 0,
    };
    let property = &schema.properties[d];
    let ghost values = issues_view(r@);
    if accepted == 0 {
        if let Requirement::Required = property.requirement {
            let mut message = String::from_str("complete required property ");
            let quoted = debug_quoted(property.key.as_str());
            message.append(quoted.as_str());
            r.push(ValidationIssue { field: Some(FieldId::Property(d)), line, message });
        }
    } else if property.multiplicity == Multiplicity::Multiple {
        if let Some(message) = copy_error(lists, d) {
            r.push(ValidationIssue { field: Some(FieldId::Property(d)), line, message });
        }
    }
    assert(issues_view(r@) =~= property_issues(secs, ev, errors_view(lists@), schema@, d));
    r
}

/// Every report about the draft in `lines`: the parse reports, then scope,
/// description, each property, and breaking change. `errors[k]` is the
/// commit rules' verdict on the value of section `k`; `lists[d]` their
/// verdict on the list of accepted values of repeatable property `d`.
pub fn collect_draft_issues(
    lines: &[String],
    schema: &CommitSchema,
    errors: &Vec<Option<String>>,
    lists: &Vec<Option<String>>,
) -> (r: Vec<ValidationIssue>)
    ensures
        issues_view(r@) == draft_issues(lines_view(lines@), schema@, errors_view(errors@), errors_view(lists@)),
{
    let parsed = parse_document(lines, schema);
    proof {
        assert(lines_view(lines@).len() == lines.len());
        lemma_sections_bounded(lines_view(lines@), schema@);
    }
    let ghost secs = parsed@.sections;
    let ghost ev = errors_view(errors@);
    let ghost lv = errors_view(lists@);
    let mut r: Vec<ValidationIssue> = Vec::new();
    let mut k: usize = 0;
    while k < parsed.issues.len()
        invariant
            k <= parsed.issues.len(),
            issues_view(r@) == parsed@.issues.subrange(0, k as int),
        decreases parsed.issues.len() - k,
    {
        let ghost before = issues_view(r@);
        let item = copy_issue(&parsed.issues[k]);
        assert(parsed@.issues[k as int] == parsed.issues@[k as int]@);
        r.push(item);
        assert(issues_view(r@) =~= before.push(item@));
        assert(issues_view(r@) =~= parsed@.issues.subrange(0, k + 1));
        k = k + 1;
    }
    assert(parsed@.issues.subrange(0, parsed.issues.len() as int) =~= parsed@.issues);
    append_all(&mut r, optional_value_report(&parsed, errors, FieldId::Scope));
    append_all(&mut r, description_report(&parsed, errors));
    let ghost head = issues_view(r@);
    let mut d: usize = 0;
    while d < schema.properties.len()
        invariant
            d <= schema.properties.len(),
            secs == parsed@.sections,
            ev == errors_view(errors@),
            lv == errors_view(lists@),
            sections_bounded(secs),
            issues_view(r@) == head + properties_issues(secs, ev, lv, schema@, d as nat),
        decreases schema.properties.len() - d,
    {
        append_all(&mut r, property_report(&parsed, errors, lists, schema, d));
        assert(issues_view(r@) =~= head + properties_issues(secs, ev, lv, schema@, (d + 1) as nat));
        d = d + 1;
    }
    append_all(&mut r, optional_value_report(&parsed, errors, FieldId::BreakingChange));
    r
}

fn append_all(dst: &mut Vec<ValidationIssue>, src: Vec<ValidationIssue>)
    ensures
        issues_view(final(dst)@) == issues_view(old(dst)@) + issues_view(src@),
{
    let mut src = src;
    let ghost a = issues_view(dst@);
    let ghost b = issues_view(src@);
    dst.append(&mut src);
    assert(issues_view(dst@) =~= a + b);
}

} // verus!
