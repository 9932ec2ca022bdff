//! Shared ownership of immutable nodes, and the string of one character.

use vstd::prelude::*;
use std::rc::Rc;

verus! {

/// Another handle to the value that `r` points to.
///
/// Calls `Rc::clone`, which copies the pointer and leaves the value alone:
/// the new handle holds the value that the old one holds.
#[verifier::external_body]
pub(crate) fn rc_clone<T>(r: &Rc<T>) -> (res: Rc<T>)
    ensures
        res == *r,
{
    Rc::clone(r)
}

/// The string that holds the character `c` and nothing else.
///
/// Calls `String::from` on a character, which allocates a string from that
/// single character.
#[verifier::external_body]
pub(crate) fn char_to_string(c: char) -> (res: String)
    ensures
        res@ == seq![c],
{
    String::from(c)
}

} // verus!
