//! Failures of register access.
use vstd::prelude::*;

verus! {

/// Why an access to the register file failed.
#[derive(Clone, Copy, Debug, PartialEq, Eq, Structural)]
pub enum RegisterError {
    /// The architectural number names no register of the file.
    OutOfRange,
    /// The name is no register name, or its number is not one of a
    /// general-purpose register.
    UnresolvableName,
}

} // verus!
