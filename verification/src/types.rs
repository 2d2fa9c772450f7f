//! The declared type space used when a call is validated.

use vstd::prelude::*;

verus! {

/// The declared type of a column, an argument or a result.
#[derive(Clone, Copy, Debug, PartialEq, Eq, Structural)]
pub enum DataType {
    Text,
    Number,
}

} // verus!
