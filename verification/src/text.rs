use vstd::prelude::*;

verus! {

/// Appends one character to a `String` (std's `String::push`): the text
/// afterwards is the text before followed by `c`.
#[verifier::external_body]
pub(crate) fn push_char(out: &mut String, c: char)
    ensures
        final(out)@ == old(out)@.push(c),
{
    out.push(c);
}

} // verus!
