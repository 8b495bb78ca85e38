//! The composer's frame chrome: how box-drawing rules that cross one another
//! merge into one symbol, and where the editor's scrollbar thumb sits.

use vstd::prelude::*;

use crate::text::{chars_eq, chars_of};

verus! {

/// The directions a box-drawing symbol reaches out to.
#[derive(Clone, Copy, Debug, PartialEq, Eq, Structural)]
pub struct Connections {
    pub left: bool,
    pub right: bool,
    pub up: bool,
    pub down: bool,
}

/// No direction.
pub open spec fn no_connections() -> Connections {
    Connections { left: false, right: false, up: false, down: false }
}

pub open spec fn reach(left: bool, right: bool, up: bool, down: bool) -> Connections {
    Connections { left, right, up, down }
}

/// Where a light box-drawing symbol reaches; nowhere for any other text.
pub open spec fn connections_spec(s: Seq<char>) -> Connections {
    if s == "─"@ {
        reach(true, true, false, false)
    } else if s == "│"@ {
        reach(false, false, true, true)
    } else if s == "┌"@ {
        reach(false, true, false, true)
    } else if s == "┐"@ {
        reach(true, false, false, true)
    } else if s == "└"@ {
        reach(false, true, true, false)
    } else if s == "┘"@ {
        reach(true, false, true, false)
    } else if s == "├"@ {
        reach(false, true, true, true)
    } else if s == "┤"@ {
        reach(true, false, true, true)
    } else if s == "┬"@ {
        reach(true, true, false, true)
    } else if s == "┴"@ {
        reach(true, true, true, false)
    } else if s == "┼"@ {
        reach(true, true, true, true)
    } else {
        no_connections()
    }
}

/// The light box-drawing symbol reaching exactly the given directions, or
/// `fallback` when none does.
pub open spec fn symbol_spec(c: Connections, fallback: Seq<char>) -> Seq<char> {
    if c == reach(true, true, false, false) {
        "─"@
    } else if c == reach(false, false, true, true) {
        "│"@
    } else if c == reach(false, true, false, true) {
        "┌"@
    } else if c == reach(true, false, false, true) {
        "┐"@
    } else if c == reach(false, true, true, false) {
        "└"@
    } else if c == reach(true, false, true, false) {
        "┘"@
    } else if c == reach(false, true, true, true) {
        "├"@
    } else if c == reach(true, false, true, true) {
        "┤"@
    } else if c == reach(true, true, false, true) {
        "┬"@
    } else if c == reach(true, true, true, false) {
        "┴"@
    } else if c == reach(true, true, true, true) {
        "┼"@
    } else {
        fallback
    }
}

/// Both symbols' directions together.
pub open spec fn union(a: Connections, b: Connections) -> Connections {
    Connections { left: a.left || b.left, right: a.right || b.right, up: a.up || b.up, down: a.down || b.down }
}

/// The symbol left where a rule is drawn over a cell that holds `existing`:
/// the symbol reaching every direction of both, or the incoming symbol when
/// no light box-drawing symbol does.
pub open spec fn merged_rule_spec(existing: Seq<char>, incoming: Seq<char>) -> Seq<char> {
    symbol_spec(union(connections_spec(existing), connections_spec(incoming)), incoming)
}

fn same_text(a: &str, b: &str) -> (r: bool)
    ensures
        r == (a@ == b@),
{
    chars_eq(chars_of(a).as_slice(), chars_of(b).as_slice())
}

fn reach_exec(left: bool, right: bool, up: bool, down: bool) -> (c: Connections)
    ensures
        c == reach(left, right, up, down),
{
    Connections { left, right, up, down }
}

/// Where a symbol reaches.
pub fn connections(s: &str) -> (c: Connections)
    ensures
        c == connections_spec(s@),
{
    if same_text(s, "─") {
        reach_exec(true, true, false, false)
    } else if same_text(s, "│") {
        reach_exec(false, false, true, true)
    } else if same_text(s, "┌") {
        reach_exec(false, true, false, true)
    } else if same_text(s, "┐") {
        reach_exec(true, false, false, true)
    } else if same_text(s, "└") {
        reach_exec(false, true, true, false)
    } else if same_text(s, "┘") {
        reach_exec(true, false, true, false)
    } else if same_text(s, "├") {
        reach_exec(false, true, true, true)
    } else if same_text(s, "┤") {
        reach_exec(true, false, true, true)
    } else if same_text(s, "┬") {
        reach_exec(true, true, false, true)
    } else if same_text(s, "┴") {
        reach_exec(true, true, true, false)
    } else if same_text(s, "┼") {
        reach_exec(true, true, true, true)
    } else {
        reach_exec(false, false, false, false)
    }
}

/// The symbol reaching exactly the given directions, or `fallback`.
pub fn rule_symbol(c: Connections, fallback: &'static str) -> (s: &'static str)
    ensures
        s@ == symbol_spec(c, fallback@),
{
    if c == reach_exec(true, true, false, false) {
        "─"
    } else if c == reach_exec(false, false, true, true) {
        "│"
    } else if c == reach_exec(false, true, false, true) {
        "┌"
    } else if c == reach_exec(true, false, false, true) {
        "┐"
    } else if c == reach_exec(false, true, true, false) {
        "└"
    } else if c == reach_exec(true, false, true, false) {
        "┘"
    } else if c == reach_exec(false, true, true, true) {
        "├"
    } else if c == reach_exec(true, false, true, true) {
        "┤"
    } else if c == reach_exec(true, true, false, true) {
        "┬"
    } else if c == reach_exec(true, true, true, false) {
        "┴"
    } else if c == reach_exec(true, true, true, true) {
        "┼"
    } else {
        fallback
    }
}

/// The symbol left where a rule is drawn over a cell.
pub fn merged_rule(existing: &str, incoming: &'static str) -> (s: &'static str)
    ensures
        s@ == merged_rule_spec(existing@, incoming@),
{
    let a = connections(existing);
    let b = connections(incoming);
    rule_symbol(
        Connections { left: a.left || b.left, right: a.right || b.right, up: a.up || b.up, down: a.down || b.down },
        incoming,
    )
}

/// Whether a text is one of the light box-drawing symbols of the frame.
pub open spec fn is_rule_symbol(s: Seq<char>) -> bool {
    connections_spec(s) != no_connections()
}

proof fn lemma_reveal_rule_symbols()
    ensures
        "─"@ == seq!['─'],
        "│"@ == seq!['│'],
        "┌"@ == seq!['┌'],
        "┐"@ == seq!['┐'],
        "└"@ == seq!['└'],
        "┘"@ == seq!['┘'],
        "├"@ == seq!['├'],
        "┤"@ == seq!['┤'],
        "┬"@ == seq!['┬'],
        "┴"@ == seq!['┴'],
        "┼"@ == seq!['┼'],
{
    reveal_strlit("─");
    reveal_strlit("│");
    reveal_strlit("┌");
    reveal_strlit("┐");
    reveal_strlit("└");
    reveal_strlit("┘");
    reveal_strlit("├");
    reveal_strlit("┤");
    reveal_strlit("┬");
    reveal_strlit("┴");
    reveal_strlit("┼");
}

/// Each frame symbol is the symbol of its own directions; drawing a frame
/// symbol over itself leaves it; two frame symbols merge to the same frame
/// symbol in either order.
pub proof fn lemma_rule_merge_laws(a: Seq<char>, b: Seq<char>)
    requires
        is_rule_symbol(a),
        is_rule_symbol(b),
    ensures
        symbol_spec(connections_spec(a), Seq::empty()) == a,
        merged_rule_spec(a, a) == a,
        merged_rule_spec(a, b) == merged_rule_spec(b, a),
        is_rule_symbol(merged_rule_spec(a, b)),
{
    lemma_reveal_rule_symbols();
    let u = union(connections_spec(a), connections_spec(b));
    assert(union(connections_spec(b), connections_spec(a)) == u);
    assert(union(connections_spec(a), connections_spec(a)) == connections_spec(a));
}

/// The rows of a scrollbar's track that its thumb covers: `(offset,
/// length)`.
pub open spec fn thumb_spec(track: u16, content_rows: u16, viewport_height: u16, viewport_top: u16) -> (u16, u16) {
    if content_rows <= viewport_height {
        (0, track)
    } else {
        let product: nat = (viewport_height * track) as nat;
        let ceil: nat = product / (content_rows as nat) + if product % (content_rows as nat) == 0 {
            0nat
        } else {
            1nat
        };
        let fitted: nat = if ceil <= u16::MAX {
            ceil
        } else {
            track as nat
        };
        let length: u16 = if fitted < 1 {
            1
        } else if fitted > track {
            track
        } else {
            fitted as u16
        };
        let maximum_position: nat = (content_rows - viewport_height) as nat;
        let position: nat = if viewport_top <= maximum_position {
            viewport_top as nat
        } else {
            maximum_position
        };
        let maximum_offset: nat = (track - length) as nat;
        let rounded: nat = (position * maximum_offset + maximum_position / 2) / maximum_position;
        let offset: u16 = if rounded <= maximum_offset {
            rounded as u16
        } else {
            maximum_offset as u16
        };
        (offset, length)
    }
}

/// Where the scrollbar thumb sits on a track of `track` rows (at least one):
/// the whole track when the content fits the viewport; otherwise a thumb in
/// proportion to the viewport (rounded up, at least a row) placed in
/// proportion to the scroll position (rounded to nearest).
pub fn scrollbar_thumb(track: u16, content_rows: u16, viewport_height: u16, viewport_top: u16) -> (r: (u16, u16))
    requires
        track >= 1,
    ensures
        r == thumb_spec(track, content_rows, viewport_height, viewport_top),
{
    if content_rows <= viewport_height {
        return (0, track);
    }
    assert((viewport_height as int) * (track as int) <= 65535 * 65535) by (nonlinear_arith)
        requires
            viewport_height <= 65535,
            track <= 65535,
    ;
    let product: u32 = (viewport_height as u32) * (track as u32);
    assert(product == viewport_height * track) by (nonlinear_arith)
        requires
            product == (viewport_height as u32) * (track as u32),
    ;
    let content = content_rows as u32;
    assert(product / content <= product) by (nonlinear_arith)
        requires
            content >= 1,
    ;
    let ceil: u32 = product / content + if product % content == 0 {
        0
    } else {
        1
    };
    let fitted: u16 = if ceil <= u16::MAX as u32 {
        ceil as u16
    } else {
        track
    };
    let length: u16 = if fitted < 1 {
        1
    } else if fitted > track {
        track
    } else {
        fitted
    };
    let maximum_position = content_rows - viewport_height;
    let position = if viewport_top <= maximum_position {
        viewport_top
    } else {
        maximum_position
    };
    let maximum_offset = track - length;
    assert((position as int) * (maximum_offset as int) <= 65535 * 65535) by (nonlinear_arith)
        requires
            position <= 65535,
            maximum_offset <= 65535,
    ;
    let scaled: u32 = (position as u32) * (maximum_offset as u32);
    assert(scaled == position * maximum_offset) by (nonlinear_arith)
        requires
            scaled == (position as u32) * (maximum_offset as u32),
    ;
    assert(scaled <= 65535 * 65535) by (nonlinear_arith)
        requires
            scaled == position * maximum_offset,
            position <= 65535,
            maximum_offset <= 65535,
    ;
    let rounded: u32 = (scaled + (maximum_position as u32) / 2) / (maximum_position as u32);
    let offset: u16 = if rounded <= maximum_offset as u32 {
        rounded as u16
    } else {
        maximum_offset
    };
    (offset, length)
}

/// The thumb stays on the track and covers at least a row; it is at the top
/// when the viewport shows the start, and at the bottom when it shows the
/// end.
pub proof fn lemma_thumb_placement(track: u16, content_rows: u16, viewport_height: u16, viewport_top: u16)
    requires
        track >= 1,
    ensures
        thumb_spec(track, content_rows, viewport_height, viewport_top).0 + thumb_spec(
            track,
            content_rows,
            viewport_height,
            viewport_top,
        ).1 <= track,
        thumb_spec(track, content_rows, viewport_height, viewport_top).1 >= 1,
        viewport_top == 0 ==> thumb_spec(track, content_rows, viewport_height, viewport_top).0 == 0,
        content_rows > viewport_height && viewport_top >= content_rows - viewport_height ==> thumb_spec(
            track,
            content_rows,
            viewport_height,
            viewport_top,
        ).0 + thumb_spec(track, content_rows, viewport_height, viewport_top).1 == track,
{
    if content_rows > viewport_height {
        let (offset, length) = thumb_spec(track, content_rows, viewport_height, viewport_top);
        let maximum_position: nat = (content_rows - viewport_height) as nat;
        let maximum_offset: nat = (track - length) as nat;
        if viewport_top == 0 {
            assert((0 * maximum_offset + maximum_position / 2) / maximum_position == 0) by (nonlinear_arith)
                requires
                    maximum_position > 0,
            ;
        }
        if viewport_top >= maximum_position {
            assert((maximum_position * maximum_offset + maximum_position / 2) / maximum_position == maximum_offset)
                by (nonlinear_arith)
                requires
                    maximum_position > 0,
            {
                assert(maximum_position / 2 < maximum_position);
            }
        }
    }
}

} // verus!
