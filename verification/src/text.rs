//! Small owned-string helpers.
//!
//! Two functions around string ownership: one extends a borrowed string
//! in place, the other hands a freshly created string to the caller.

use vstd::prelude::*;
use vstd::string::StringExecFns;

verus! {

/// Appends the word `" world"` to the string in place.
pub fn add_world(s: &mut String)
    ensures
        final(s)@ == old(s)@ + " world"@,
{
    s.append(" world");
}

/// Creates the owned string `"hello"` and returns it to the caller.
pub fn create_string() -> (s: String)
    ensures
        s@ == "hello"@,
{
    String::from_str("hello")
}

} // verus!
