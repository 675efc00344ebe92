//! Output modes: the shape in which an admitted result is rendered.

use vstd::prelude::*;

verus! {

/// The rendering policy of a sink. It is chosen when the sink is built and
/// stays the same for the sink's lifetime.
#[derive(Clone, Copy, Debug, PartialEq, Eq, Structural)]
pub enum OutputMode {
    /// Nothing is rendered and nothing is written.
    Suppressed,
    /// Each result is rendered with all of its fields.
    Full,
    /// Each result is reduced to its compact form before it is rendered.
    Compact,
}

} // verus!
