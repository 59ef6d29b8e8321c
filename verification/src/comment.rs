//! Comment styles.

use vstd::prelude::*;

verus! {

/// Defines comment styles for any language.
pub trait Comment {
    /// The type of the comment tokens (`String`, `&'static str`, etc.)
    type Rep;

    /// The tokens that begin a single line comment, if any.
    fn single(&self) -> Option<Vec<Self::Rep>>;

    /// The token that begins a multi-line comment, if any.
    fn multi_start(&self) -> Option<Self::Rep>;

    /// The token that ends a multi-line comment, if any.
    fn multi_end(&self) -> Option<Self::Rep>;
}

} // verus!
