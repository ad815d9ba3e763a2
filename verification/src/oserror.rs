//! Errors of the operating system.
//!
//! The library does no input or output of its own. Where its callers hand it
//! an error that came of theirs, it carries the error along unread.

use vstd::prelude::*;

verus! {

/// `std::io::Error`, of which nothing is known here but that it is a value.
#[verifier::external_type_specification]
#[verifier::external_body]
pub struct ExIoError(std::io::Error);

} // verus!
