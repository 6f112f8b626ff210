//! The grammar's alphabet.

use vstd::prelude::*;

verus! {

/// One symbol of the grammar. A sequence of symbols is the sentential form of
/// the grammar at a given generation.
///
/// `Turn` carries a relative heading change in radians and `Translate` a
/// forward distance; both are carried as the bit patterns of double-precision
/// values, held in plain `u64` integers. The library moves these payloads
/// about unchanged and never computes on them: all real arithmetic belongs to
/// the caller.
#[derive(Clone, Copy, Debug, PartialEq, Eq, Structural)]
pub enum Symbol {
    /// Save the current turtle state on the stack.
    Push,
    /// Restore the most recently saved turtle state.
    Pop,
    /// Change the heading by the carried angle.
    Turn(u64),
    /// Move forward by the carried distance, emitting one segment.
    Translate(u64),
    /// A nonterminal placeholder whose meaning the rewrite rule defines.
    Generic(u32),
}

} // verus!
