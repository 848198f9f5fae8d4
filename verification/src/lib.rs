use vstd::prelude::*;

pub mod datime;
pub mod file;
pub mod lexer;
pub mod token;

verus! {

/// Relies on String::push: appends exactly the one character `c`.
#[verifier::external_body]
pub(crate) fn push_char(s: &mut String, c: char)
    ensures
        final(s)@ == old(s)@.push(c),
{
    s.push(c);
}

} // verus!
