//! Text helpers over `str`.

use vstd::prelude::*;
use vstd::string::*;

verus! {

/// Whether `c` has the Unicode property `White_Space`, which is what `std`
/// calls whitespace: the controls from tab to carriage return, the space,
/// next line, the no-break spaces, the Ogham space mark, the spaces of fixed
/// width, the line and paragraph separators, the mathematical space and the
/// ideographic space.
pub open spec fn white_space(c: char) -> bool {
    let code = c as u32;
    ||| 0x0009 <= code <= 0x000D
    ||| code == 0x0020
    ||| code == 0x0085
    ||| code == 0x00A0
    ||| code == 0x1680
    ||| 0x2000 <= code <= 0x200A
    ||| code == 0x2028
    ||| code == 0x2029
    ||| code == 0x202F
    ||| code == 0x205F
    ||| code == 0x3000
}

/// The text holds nothing but whitespace.
pub open spec fn is_blank(text: Seq<char>) -> bool {
    forall|k: int| 0 <= k < text.len() ==> white_space(#[trigger] text[k])
}

/// `trimmed` is `text` from `from` up to `to`, which cuts off exactly the
/// leading and the trailing whitespace.
pub open spec fn is_trim_at(trimmed: Seq<char>, text: Seq<char>, from: int, to: int) -> bool {
    &&& 0 <= from <= to <= text.len()
    &&& trimmed == text.subrange(from, to)
    &&& forall|k: int| 0 <= k < from ==> white_space(#[trigger] text[k])
    &&& forall|k: int| to <= k < text.len() ==> white_space(#[trigger] text[k])
    &&& from < to ==> !white_space(text[from]) && !white_space(text[to - 1])
}

/// `trimmed` is `text` without its leading and trailing whitespace.
pub open spec fn is_trim_of(trimmed: Seq<char>, text: Seq<char>) -> bool {
    exists|from: int, to: int| #[trigger] is_trim_at(trimmed, text, from, to)
}

/// Calls `str::trim`, which returns the slice of the text without its
/// leading and trailing whitespace.
#[verifier::external_body]
pub(crate) fn trim(text: &str) -> (r: &str)
    ensures
        is_trim_of(r@, text@),
{
    text.trim()
}

/// Whether the text holds nothing but whitespace.
pub fn blank(text: &str) -> (r: bool)
    ensures
        r == is_blank(text@),
{
    let trimmed = trim(text);
    proof {
        let (from, to) = choose|from: int, to: int|
            #[trigger] is_trim_at(trimmed@, text@, from, to);
        assert(trimmed@.len() == to - from);
    }
    trimmed.is_empty()
}

/// The two texts, one after the other.
pub fn join(head: &str, tail: &str) -> (r: String)
    ensures
        r@ == head@ + tail@,
{
    let mut text = String::from_str(head);
    text.append(tail);
    text
}

} // verus!
