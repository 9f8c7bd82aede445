//! Reading a range that is written as two parts with `-` between them.

use vstd::prelude::*;

verus! {

/// Why a text is no range.
#[derive(Clone, Copy, Debug, PartialEq, Eq, Structural)]
pub enum RangeError {
    /// The text holds no `-`.
    MissingSeparator,
}

/// True if `at` is the place of the first `-` in `text`.
pub open spec fn first_separator(text: Seq<char>, at: int) -> bool {
    &&& 0 <= at < text.len()
    &&& text[at] == '-'
    &&& forall|j: int| 0 <= j < at ==> text[j] != '-'
}

/// Splits `s` at its first `-` into the part before it and the part behind
/// it. Neither part holds that `-`; the second part may hold further ones.
///
/// A text without `-` is refused, and no other.
pub fn parse_range<'a>(s: &'a str) -> (r: Result<(&'a str, &'a str), RangeError>)
    ensures
        r is Ok <==> s@.contains('-'),
        r matches Ok((before, behind)) ==> ({
            let at = before@.len() as int;
            &&& first_separator(s@, at)
            &&& before@ == s@.subrange(0, at)
            &&& behind@ == s@.subrange(at + 1, s@.len() as int)
        }),
{
    let n: usize = s.unicode_len();
    let mut at: usize = 0;
    for c in it: s.chars()
        invariant
            n == s@.len(),
            it.seq() == s@,
            at == it.index(),
            forall|j: int| 0 <= j < at ==> s@[j] != '-',
    {
        if c == '-' {
            let before = s.substring_char(0, at);
            let behind = s.substring_char(at + 1, n);
            assert(s@.contains('-'));
            return Ok((before, behind));
        }
        at = at + 1;
    }
    Err(RangeError::MissingSeparator)
}

} // verus!
