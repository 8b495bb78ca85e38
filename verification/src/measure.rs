//! Measuring text on the terminal: display widths, how many rows a text
//! takes when wrapped at word boundaries, and the widths and minimum sizes
//! that follow for the composer's panes and buttons.

use vstd::prelude::*;

use ratatui::text::Line;

use crate::layout::{sat_add, saturating_add};
use crate::authoring::AuthoringSession;
use crate::composer::lemma_field_at_in_schema;
use crate::document::{field_at_spec, lines_view};
use crate::editor::editor_lines;
use crate::schema::{
    field_columns, field_columns_spec, field_guidance, field_guidance_spec, field_in_schema, field_order, CommitSchema,
    FieldId, FieldKind, PropertyView,
};
use crate::text::{chars_of, is_whitespace, is_ws, string_of, trim, trim_spec};

verus! {

/// The narrowest terminal any screen is drawn in.
pub const MINIMUM_WIDTH: u16 = 60;

/// The lowest terminal any screen but the composer is drawn in.
pub const MINIMUM_HEIGHT: u16 = 18;

/// The lowest terminal the composer is drawn in.
pub const COMPOSER_MINIMUM_HEIGHT: u16 = 22;

/// The width at which the document editor wraps.
pub const MAX_EDITOR_INNER_WIDTH: u16 = 80;

/// The gap between the columns of the fields panel.
pub const FIELD_COLUMN_SPACING: u16 = 2;

/// The width of a field's status marker.
pub const FIELD_MARKER_WIDTH: u16 = 1;

/// The width of a field's requirement column.
pub const FIELD_REQUIREMENT_WIDTH: u16 = 11;

/// The composer's frame and separators beside the fields panel.
pub const COMPOSER_FRAME_WIDTH_OVERHEAD: u16 = 10;

/// The rows of the composer that are not its context panes.
pub const COMPOSER_NON_CONTEXT_ROWS: u16 = 8;

/// The display width that ratatui gives a line made from this text: the sum
/// of its characters' Unicode widths, line breaks removed.
pub uninterp spec fn line_width(text: Seq<char>) -> nat;

/// `Line::from(text).width()`.
#[verifier::external_body]
pub(crate) fn display_width(text: &str) -> (w: usize)
    ensures
        w as nat == line_width(text@),
{
    Line::from(text).width()
}

/// A width clamped into a `u16`.
pub open spec fn clamp_u16(w: nat) -> u16 {
    if w <= u16::MAX {
        w as u16
    } else {
        u16::MAX
    }
}

/// The words of a text, split at white space, and the word still being read.
pub open spec fn split_words(s: Seq<char>) -> (Seq<Seq<char>>, Seq<char>)
    decreases s.len(),
{
    if s.len() == 0 {
        (Seq::empty(), Seq::empty())
    } else {
        let (done, current) = split_words(s.drop_last());
        let c = s.last();
        if is_ws(c) {
            if current.len() > 0 {
                (done.push(current), Seq::empty())
            } else {
                (done, Seq::empty())
            }
        } else {
            (done, current.push(c))
        }
    }
}

/// The words of a text: its maximal runs of characters other than white
/// space, in order.
pub open spec fn words(s: Seq<char>) -> Seq<Seq<char>> {
    let (done, current) = split_words(s);
    if current.len() > 0 {
        done.push(current)
    } else {
        done
    }
}

/// After laying out words of the given widths on rows `width` wide: the
/// rows added after the first, and the columns used on the last row. A word
/// follows on the same row after one space when it fits; otherwise it starts
/// a new row, and a word wider than a row spans as many rows as it needs.
pub open spec fn wrap_state(widths: Seq<nat>, width: nat) -> (nat, nat)
    decreases widths.len(),
{
    if widths.len() == 0 {
        (0, 0)
    } else {
        let (rows, used) = wrap_state(widths.drop_last(), width);
        let w = widths.last();
        if used > 0 && used + 1 + w <= width {
            (rows, used + 1 + w)
        } else {
            let rows1: nat = if used > 0 {
                rows + 1
            } else {
                rows
            };
            let span: nat = if w > 0 {
                w
            } else {
                1
            };
            let word_rows: nat = span / width + if span % width == 0 {
                0nat
            } else {
                1nat
            };
            let rest: nat = w % width;
            (
                (rows1 + word_rows - 1) as nat,
                if rest == 0 && w > 0 {
                    width
                } else {
                    rest
                },
            )
        }
    }
}

/// The widths of a text's words.
pub open spec fn word_widths(s: Seq<char>) -> Seq<nat> {
    Seq::new(words(s).len(), |i: int| line_width(words(s)[i]))
}

/// The rows a text takes when wrapped at word boundaries on rows `width`
/// wide (at least one column): one row plus those the words add, no more
/// than a `u16` holds.
pub open spec fn wrapped_rows(s: Seq<char>, width: u16) -> u16 {
    let w: nat = if width > 0 {
        width as nat
    } else {
        1
    };
    clamp_u16(1 + wrap_state(word_widths(s), w).0)
}

proof fn lemma_wrap_state_width(widths: Seq<nat>, width: nat)
    requires
        width > 0,
    ensures
        wrap_state(widths, width).1 <= width,
    decreases widths.len(),
{
    if widths.len() > 0 {
        lemma_wrap_state_width(widths.drop_last(), width);
        let w = widths.last();
        if w > 0 {
            assert(w % width < width) by (nonlinear_arith)
                requires
                    width > 0,
            ;
        } else {
            assert(0nat % width == 0) by (nonlinear_arith)
                requires
                    width > 0,
            ;
        }
    }
}

/// The words of a text, in order.
pub fn split_into_words(text: &str) -> (v: Vec<Vec<char>>)
    ensures
        v@.len() == words(text@).len(),
        forall|i: int| 0 <= i < v@.len() ==> v@[i]@ == words(text@)[i],
{
    let chars = chars_of(text);
    let mut done: Vec<Vec<char>> = Vec::new();
    let mut current: Vec<char> = Vec::new();
    let mut i: usize = 0;
    while i < chars.len()
        invariant
            i <= chars@.len(),
            chars@ == text@,
            split_words(chars@.take(i as int)).0.len() == done@.len(),
            forall|k: int| 0 <= k < done@.len() ==> done@[k]@ == split_words(chars@.take(i as int)).0[k],
            current@ == split_words(chars@.take(i as int)).1,
        decreases chars.len() - i,
    {
        assert(chars@.take(i + 1).drop_last() =~= chars@.take(i as int));
        let c = chars[i];
        if is_whitespace(c) {
            if current.len() > 0 {
                let finished = current;
                done.push(finished);
                current = Vec::new();
            } else {
                current = Vec::new();
            }
        } else {
            current.push(c);
        }
        i = i + 1;
    }
    assert(chars@.take(chars@.len() as int) =~= chars@);
    if current.len() > 0 {
        done.push(current);
    }
    done
}

/// The rows a text takes when wrapped at word boundaries on rows `width`
/// wide.
pub fn wrapped_line_count(text: &str, width: u16) -> (rows: u16)
    ensures
        rows == wrapped_rows(text@, width),
{
    let w: usize = if width > 0 {
        width as usize
    } else {
        1
    };
    let ws = split_into_words(text);
    let ghost widths = word_widths(text@);
    let mut rows: usize = 0;
    let mut used: usize = 0;
    let mut k: usize = 0;
    while k < ws.len()
        invariant
            k <= ws@.len(),
            ws@.len() == widths.len(),
            widths == word_widths(text@),
            forall|j: int| 0 <= j < ws@.len() ==> ws@[j]@ == words(text@)[j],
            w as nat == (if width > 0 { width as nat } else { 1nat }),
            1 <= w <= u16::MAX,
            rows as nat == (if wrap_state(widths.take(k as int), w as nat).0 <= u16::MAX {
                wrap_state(widths.take(k as int), w as nat).0
            } else {
                u16::MAX as nat
            }),
            used as nat == wrap_state(widths.take(k as int), w as nat).1,
            used <= w,
        decreases ws.len() - k,
    {
        let word = string_of(ws[k].as_slice());
        let ww = display_width(word.as_str());
        assert(widths[k as int] == ww as nat);
        assert(widths.take(k + 1).drop_last() =~= widths.take(k as int));
        proof {
            lemma_wrap_state_width(widths.take(k + 1), w as nat);
        }
        if used > 0 && ww <= w && used + 1 <= w - ww {
            used = used + 1 + ww;
        } else {
            let added: usize = if used > 0 {
                1
            } else {
                0
            };
            let span = if ww > 0 {
                ww
            } else {
                1
            };
            let q = span / w;
            assert(span % w != 0 ==> q < span) by (nonlinear_arith)
                requires
                    w >= 1,
                    span >= 1,
                    q == span / w,
            ;
            let word_rows = if span % w == 0 {
                q
            } else {
                q + 1
            };
            assert(word_rows >= 1) by (nonlinear_arith)
                requires
                    w >= 1,
                    span >= 1,
                    word_rows == span / w + if span % w == 0 { 0nat } else { 1nat },
            ;
            assert(word_rows <= span) by (nonlinear_arith)
                requires
                    w >= 1,
                    span >= 1,
                    word_rows == span / w + if span % w == 0 { 0nat } else { 1nat },
            ;
            let increase = added + (word_rows - 1);
            rows = if increase >= u16::MAX as usize - rows {
                u16::MAX as usize
            } else {
                rows + increase
            };
            let rest = ww % w;
            used = if rest == 0 && ww > 0 {
                w
            } else {
                rest
            };
        }
        k = k + 1;
    }
    assert(widths.take(ws@.len() as int) =~= widths);
    if rows >= u16::MAX as usize {
        u16::MAX
    } else {
        (rows + 1) as u16
    }
}

/// The widest field name of a commit type, as the fields panel shows it.
pub open spec fn name_width_upto(props: Seq<PropertyView>, ids: Seq<FieldId>) -> u16
    decreases ids.len(),
{
    if ids.len() == 0 {
        0
    } else {
        let rest = name_width_upto(props, ids.drop_last());
        let w = clamp_u16(line_width(field_columns_spec(ids.last(), props).0));
        if w > rest {
            w
        } else {
            rest
        }
    }
}

/// The width of the fields panel's name column: the widest field name.
pub open spec fn field_hud_name_width_spec(props: Seq<PropertyView>) -> u16 {
    name_width_upto(props, field_order(props.len()))
}

/// The width of the fields panel's name column: the widest field name.
pub fn field_hud_name_width(schema: &CommitSchema) -> (w: u16)
    ensures
        w == field_hud_name_width_spec(schema@),
{
    let ghost props = schema@;
    let ghost order = field_order(props.len());
    let n = schema.properties.len();
    let mut ids: Vec<FieldId> = Vec::new();
    ids.push(FieldId::Scope);
    ids.push(FieldId::Description);
    let mut i: usize = 0;
    while i < n
        invariant
            i <= n,
            n == props.len(),
            order == field_order(props.len()),
            ids@ == order.take(i + 2),
        decreases n - i,
    {
        assert(order[i as int + 2] == FieldId::Property(i));
        ids.push(FieldId::Property(i));
        i = i + 1;
        assert(ids@ =~= order.take(i + 2));
    }
    ids.push(FieldId::BreakingChange);
    assert(ids@ =~= order);
    assert forall|k: int| 0 <= k < order.len() implies field_in_schema(#[trigger] order[k], props.len()) by {}
    let mut best: u16 = 0;
    let mut k: usize = 0;
    while k < ids.len()
        invariant
            k <= ids@.len(),
            ids@ == order,
            order == field_order(props.len()),
            forall|k: int| 0 <= k < order.len() ==> field_in_schema(#[trigger] order[k], props.len()),
            props == schema@,
            best == name_width_upto(props, order.take(k as int)),
        decreases ids.len() - k,
    {
        assert(order.take(k + 1).drop_last() =~= order.take(k as int));
        let (name, _) = field_columns(ids[k], schema);
        let wide = display_width(name.as_str());
        let w: u16 = if wide <= u16::MAX as usize {
            wide as u16
        } else {
            u16::MAX
        };
        if w > best {
            best = w;
        }
        k = k + 1;
    }
    assert(order.take(ids@.len() as int) =~= order);
    best
}

/// The width of the fields panel's content: marker, name, requirement and
/// the gaps between them.
pub open spec fn field_hud_content_width_spec(props: Seq<PropertyView>) -> u16 {
    sat_add(
        sat_add(sat_add(FIELD_MARKER_WIDTH, field_hud_name_width_spec(props)), FIELD_REQUIREMENT_WIDTH),
        (2 * FIELD_COLUMN_SPACING) as u16,
    )
}

/// The width of the fields panel's content.
pub fn field_hud_content_width(schema: &CommitSchema) -> (w: u16)
    ensures
        w == field_hud_content_width_spec(schema@),
{
    saturating_add(
        saturating_add(saturating_add(FIELD_MARKER_WIDTH, field_hud_name_width(schema)), FIELD_REQUIREMENT_WIDTH),
        FIELD_COLUMN_SPACING * 2,
    )
}

/// The narrowest terminal the composer is drawn in for a commit type: the
/// screens' minimum, or the fields panel with the composer's frame when that
/// is wider.
pub open spec fn composer_minimum_width_spec(props: Seq<PropertyView>) -> u16 {
    let framed = sat_add(field_hud_content_width_spec(props), COMPOSER_FRAME_WIDTH_OVERHEAD);
    if framed > MINIMUM_WIDTH {
        framed
    } else {
        MINIMUM_WIDTH
    }
}

/// The narrowest terminal the composer is drawn in for a commit type.
pub fn composer_minimum_width(schema: &CommitSchema) -> (w: u16)
    ensures
        w == composer_minimum_width_spec(schema@),
        w >= MINIMUM_WIDTH,
{
    let framed = saturating_add(field_hud_content_width(schema), COMPOSER_FRAME_WIDTH_OVERHEAD);
    if framed > MINIMUM_WIDTH {
        framed
    } else {
        MINIMUM_WIDTH
    }
}

/// The width of a button: its label with a space on each side.
pub fn text_button_width(label: &str) -> (w: u16)
    ensures
        w == sat_add(clamp_u16(line_width(label@)), 2),
{
    let wide = display_width(label);
    let w: u16 = if wide <= u16::MAX as usize {
        wide as u16
    } else {
        u16::MAX
    };
    saturating_add(w, 2)
}

/// Whether a terminal of the given size is too small for a screen: the
/// composer needs its own minimum width and a taller terminal; every other
/// screen the common minimum.
pub open spec fn too_small_spec(composing: bool, props: Seq<PropertyView>, width: u16, height: u16) -> bool {
    if composing {
        width < composer_minimum_width_spec(props) || height < COMPOSER_MINIMUM_HEIGHT
    } else {
        width < MINIMUM_WIDTH || height < MINIMUM_HEIGHT
    }
}

/// Whether a terminal of the given size is too small for a screen.
pub fn too_small(composing: bool, schema: &CommitSchema, width: u16, height: u16) -> (r: bool)
    ensures
        r == too_small_spec(composing, schema@, width, height),
{
    if composing {
        width < composer_minimum_width(schema) || height < COMPOSER_MINIMUM_HEIGHT
    } else {
        width < MINIMUM_WIDTH || height < MINIMUM_HEIGHT
    }
}

/// The height of the composer's context panes: what the fields and the
/// guidance need, but no more than the rows left beside the editor and its
/// frame, and at least one.
pub fn context_height(desired: u16, inner_height: u16) -> (h: u16)
    ensures
        h == (if inner_height >= COMPOSER_NON_CONTEXT_ROWS && desired <= inner_height - COMPOSER_NON_CONTEXT_ROWS {
            if desired >= 1 { desired } else { 1 }
        } else if inner_height >= COMPOSER_NON_CONTEXT_ROWS + 1 {
            (inner_height - COMPOSER_NON_CONTEXT_ROWS) as u16
        } else {
            1
        }),
        h >= 1,
{
    let maximum = if inner_height >= COMPOSER_NON_CONTEXT_ROWS {
        inner_height - COMPOSER_NON_CONTEXT_ROWS
    } else {
        0
    };
    let bounded = if desired <= maximum {
        desired
    } else {
        maximum
    };
    if bounded >= 1 {
        bounded
    } else {
        1
    }
}


/// The rows the composer's context panes want: the fields panel (a row per
/// field) or the cursor field's title (trimmed) and guidance wrapped at the
/// guidance pane's width, whichever is taller.
pub open spec fn context_content_height_spec(
    props: Seq<PropertyView>,
    current: Option<FieldKind>,
    description_width: u16,
) -> u16 {
    let guidance = field_guidance_spec(current, props);
    let hud = clamp_u16(props.len() + 3);
    let text = sat_add(wrapped_rows(trim_spec(guidance.0), description_width), wrapped_rows(guidance.1, description_width));
    if hud >= text {
        hud
    } else {
        text
    }
}

/// The rows the composer's context panes want for the session's document.
pub fn context_content_height<P>(description_width: u16, session: &AuthoringSession<P>) -> (h: u16)
    requires
        session.wf(),
    ensures
        h == context_content_height_spec(
            session.current_type()@,
            field_at_spec(session.composer.lines(), session.current_type()@, session.composer.cursor().0),
            description_width,
        ),
{
    let schema = session.definition();
    let current = session.composer.current_field(schema);
    let lines = editor_lines(&session.composer.editor);
    assert(lines_view(lines@).len() == lines.len());
    proof {
        lemma_field_at_in_schema(session.composer.lines(), schema@, session.composer.cursor().0);
    }
    let (title, description) = field_guidance(current, schema);
    let title_chars = chars_of(title.as_str());
    let trimmed = string_of(trim(title_chars.as_slice()).as_slice());
    let text = saturating_add(
        wrapped_line_count(trimmed.as_str(), description_width),
        wrapped_line_count(description.as_str(), description_width),
    );
    let n = schema.properties.len();
    let hud: u16 = if n <= 65532 {
        (n + 3) as u16
    } else {
        u16::MAX
    };
    if hud >= text {
        hud
    } else {
        text
    }
}

} // verus!
