//! Character-level helpers: Unicode whitespace, trimming, and conversions
//! between `str`/`String` and character vectors.

use vstd::prelude::*;

verus! {

/// The Unicode `White_Space` property, which `char::is_whitespace` tests.
pub open spec fn is_ws(c: char) -> bool {
    let u = c as u32;
    ||| 0x09 <= u <= 0x0D
    ||| u == 0x20
    ||| u == 0x85
    ||| u == 0xA0
    ||| u == 0x1680
    ||| 0x2000 <= u <= 0x200A
    ||| u == 0x2028
    ||| u == 0x2029
    ||| u == 0x202F
    ||| u == 0x205F
    ||| u == 0x3000
}

/// Every character of `s` is whitespace (so `s.trim()` is empty).
pub open spec fn all_ws(s: Seq<char>) -> bool {
    forall|i: int| 0 <= i < s.len() ==> is_ws(#[trigger] s[i])
}

/// `s` with its trailing whitespace removed.
pub open spec fn trim_end_spec(s: Seq<char>) -> Seq<char>
    decreases s.len(),
{
    if s.len() > 0 && is_ws(s.last()) {
        trim_end_spec(s.drop_last())
    } else {
        s
    }
}

/// `s` with its leading whitespace removed.
pub open spec fn trim_start_spec(s: Seq<char>) -> Seq<char>
    decreases s.len(),
{
    if s.len() > 0 && is_ws(s[0]) {
        trim_start_spec(s.drop_first())
    } else {
        s
    }
}

/// `s` with leading and trailing whitespace removed.
pub open spec fn trim_spec(s: Seq<char>) -> Seq<char> {
    trim_end_spec(trim_start_spec(s))
}

/// Whether `c` is Unicode whitespace.
pub fn is_whitespace(c: char) -> (b: bool)
    ensures
        b == is_ws(c),
{
    let u = c as u32;
    (0x09 <= u && u <= 0x0D) || u == 0x20 || u == 0x85 || u == 0xA0 || u == 0x1680 || (0x2000
        <= u && u <= 0x200A) || u == 0x2028 || u == 0x2029 || u == 0x202F || u == 0x205F || u
        == 0x3000
}

/// Trimming whitespace from a prefix-closed cut point: the trimmed end of
/// `s[0..end]` is `s[0..k]` for the first `k` from which only whitespace remains.
proof fn lemma_trim_end_step(s: Seq<char>, end: int)
    requires
        0 < end <= s.len(),
        is_ws(s[end - 1]),
    ensures
        trim_end_spec(s.subrange(0, end)) == trim_end_spec(s.subrange(0, end - 1)),
{
    assert(s.subrange(0, end).drop_last() =~= s.subrange(0, end - 1));
}

proof fn lemma_trim_start_step(s: Seq<char>, start: int)
    requires
        0 <= start < s.len(),
        is_ws(s[start]),
    ensures
        trim_start_spec(s.subrange(start, s.len() as int)) == trim_start_spec(
            s.subrange(start + 1, s.len() as int),
        ),
{
    assert(s.subrange(start, s.len() as int).drop_first() =~= s.subrange(
        start + 1,
        s.len() as int,
    ));
}

/// The trimmed end of a sequence is one of its prefixes, and nothing but
/// whitespace was cut.
pub proof fn lemma_trim_end_prefix(s: Seq<char>)
    ensures
        trim_end_spec(s).len() <= s.len(),
        trim_end_spec(s) =~= s.subrange(0, trim_end_spec(s).len() as int),
        all_ws(s.subrange(trim_end_spec(s).len() as int, s.len() as int)),
        trim_end_spec(s).len() > 0 ==> !is_ws(trim_end_spec(s).last()),
    decreases s.len(),
{
    if s.len() > 0 && is_ws(s.last()) {
        lemma_trim_end_prefix(s.drop_last());
        let k = trim_end_spec(s).len() as int;
        assert forall|i: int| 0 <= i < s.subrange(k, s.len() as int).len() implies is_ws(
            #[trigger] s.subrange(k, s.len() as int)[i],
        ) by {
            if k + i < s.len() - 1 {
                assert(s.drop_last().subrange(k, s.len() - 1)[i] == s[k + i]);
            }
        }
    }
}

/// Characters of a string slice, in order.
#[verifier::external_body]
pub(crate) fn chars_of(s: &str) -> (v: Vec<char>)
    ensures
        v@ == s@,
{
    s.chars().collect()
}

/// The string made of the given characters, in order.
#[verifier::external_body]
pub(crate) fn string_of(v: &[char]) -> (s: String)
    ensures
        s@ == v@,
{
    v.iter().collect()
}

/// The text that `{:?}` renders for a string: quoted and escaped.
pub uninterp spec fn debug_text(s: Seq<char>) -> Seq<char>;

/// `format!("{s:?}")`: the quoted, escaped form of a string.
#[verifier::external_body]
pub(crate) fn debug_quoted(s: &str) -> (r: String)
    ensures
        r@ == debug_text(s@),
{
    format!("{s:?}")
}

/// Whether two character sequences are equal.
pub fn chars_eq(a: &[char], b: &[char]) -> (r: bool)
    ensures
        r == (a@ == b@),
{
    if a.len() != b.len() {
        return false;
    }
    let mut i: usize = 0;
    while i < a.len()
        invariant
            a.len() == b.len(),
            i <= a.len(),
            forall|j: int| 0 <= j < i ==> a@[j] == b@[j],
        decreases a.len() - i,
    {
        if a[i] != b[i] {
            return false;
        }
        i = i + 1;
    }
    assert(a@ =~= b@);
    true
}

/// Whether every character of `s` is whitespace.
pub fn is_blank(s: &[char]) -> (r: bool)
    ensures
        r == all_ws(s@),
{
    let mut i: usize = 0;
    while i < s.len()
        invariant
            i <= s.len(),
            forall|j: int| 0 <= j < i ==> is_ws(#[trigger] s@[j]),
        decreases s.len() - i,
    {
        if !is_whitespace(s[i]) {
            return false;
        }
        i = i + 1;
    }
    true
}

/// `s` without trailing whitespace.
pub fn trim_end(s: &[char]) -> (r: Vec<char>)
    ensures
        r@ == trim_end_spec(s@),
{
    let mut end: usize = s.len();
    assert(s@.subrange(0, end as int) =~= s@);
    while end > 0 && is_whitespace(s[end - 1])
        invariant
            end <= s.len(),
            trim_end_spec(s@) == trim_end_spec(s@.subrange(0, end as int)),
        decreases end,
    {
        proof {
            lemma_trim_end_step(s@, end as int);
        }
        end = end - 1;
    }
    let mut r: Vec<char> = Vec::new();
    let mut i: usize = 0;
    while i < end
        invariant
            end <= s.len(),
            i <= end,
            r@ =~= s@.subrange(0, i as int),
        decreases end - i,
    {
        r.push(s[i]);
        i = i + 1;
    }
    r
}

/// `s` without leading or trailing whitespace.
pub fn trim(s: &[char]) -> (r: Vec<char>)
    ensures
        r@ == trim_spec(s@),
{
    let mut start: usize = 0;
    assert(s@.subrange(0, s.len() as int) =~= s@);
    while start < s.len() && is_whitespace(s[start])
        invariant
            start <= s.len(),
            trim_start_spec(s@) == trim_start_spec(s@.subrange(start as int, s.len() as int)),
        decreases s.len() - start,
    {
        proof {
            lemma_trim_start_step(s@, start as int);
        }
        start = start + 1;
    }
    let mut rest: Vec<char> = Vec::new();
    let mut i: usize = start;
    while i < s.len()
        invariant
            start <= i <= s.len(),
            rest@ =~= s@.subrange(start as int, i as int),
        decreases s.len() - i,
    {
        rest.push(s[i]);
        i = i + 1;
    }
    proof {
        assert(s@.subrange(start as int, s.len() as int) =~= rest@);
    }
    trim_end(rest.as_slice())
}

/// Removes the last character of a text, if any.
pub fn pop_char(s: &mut String)
    ensures
        final(s)@ == (if old(s)@.len() > 0 {
            old(s)@.drop_last()
        } else {
            old(s)@
        }),
{
    let mut chars = chars_of(s.as_str());
    if chars.len() > 0 {
        chars.pop();
        *s = string_of(chars.as_slice());
    }
}

/// Appends a character to a text.
pub fn push_char(s: &mut String, c: char)
    ensures
        final(s)@ == old(s)@.push(c),
{
    let mut chars = chars_of(s.as_str());
    chars.push(c);
    *s = string_of(chars.as_slice());
}

/// Appends a text to a text.
pub fn push_text(s: &mut String, t: &str)
    ensures
        final(s)@ == old(s)@ + t@,
{
    let mut chars = chars_of(s.as_str());
    let added = chars_of(t);
    let ghost start = chars@;
    let mut i: usize = 0;
    while i < added.len()
        invariant
            i <= added@.len(),
            chars@ == start + added@.subrange(0, i as int),
        decreases added.len() - i,
    {
        chars.push(added[i]);
        assert(added@.subrange(0, i + 1) =~= added@.subrange(0, i as int).push(added@[i as int]));
        i = i + 1;
    }
    assert(added@.subrange(0, added@.len() as int) =~= added@);
    *s = string_of(chars.as_slice());
}

} // verus!
