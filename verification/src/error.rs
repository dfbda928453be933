use vstd::prelude::*;

verus! {

/// Every way a scan-and-walk invocation can fail. All variants are terminal
/// for a single invocation: no partial record list is ever returned.
#[derive(Clone, Copy, Debug, PartialEq, Eq, Structural)]
pub enum Error {
    /// The requested module is not loaded in the inspected process.
    ModuleNotFound,
    /// No position of the buffer matches the pattern.
    PatternNotFound,
    /// The pattern match sits too close to the end of the buffer to
    /// contain the displacement field.
    TruncatedMatch,
    /// A remote read at the given address failed.
    Unreadable(u64),
    /// A remote string read ran past its length bound without a terminator.
    MalformedString,
    /// The traversal exceeded its iteration cap (a cyclic or corrupted
    /// structure) and was stopped rather than allowed to loop.
    TraversalOverflow,
}

} // verus!
