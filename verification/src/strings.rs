//! What this crate takes on trust about the standard library's strings.

use vstd::prelude::*;

verus! {

/// The upper-case form of a text, as the standard library's `str::to_uppercase`
/// gives it.
///
/// The mapping follows the Unicode case tables that the standard library is
/// built with and depends on the text alone. Nothing more is assumed of it, so
/// what this crate proves holds whatever those tables say.
pub uninterp spec fn uppercase_of(text: Seq<char>) -> Seq<char>;

/// `str::to_uppercase` returns the upper-case form of its argument. Assumed, not
/// proved.
pub assume_specification[ str::to_uppercase ](text: &str) -> (upper: String)
    ensures
        upper@ == uppercase_of(text@),
;

/// `String::push` appends the character to the end of the string and leaves the
/// rest as it was. Assumed, not proved.
pub assume_specification[ String::push ](text: &mut String, c: char)
    ensures
        final(text)@ == old(text)@.push(c),
;

} // verus!
