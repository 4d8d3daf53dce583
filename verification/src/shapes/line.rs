//! Path styles of lines and arrows.
use vstd::prelude::*;

verus! {

/// Path style for lines and arrows.
#[derive(Debug, Clone, Copy, PartialEq, Eq, Structural)]
pub enum PathStyle {
    /// Straight line segments (sharp corners), the default.
    Direct,
    /// Smooth bezier curves through points.
    Flowing,
    /// Right-angle connectors (elbow).
    Angular,
}

impl Default for PathStyle {
    fn default() -> (p: Self)
        ensures
            p == PathStyle::Direct,
    {
        PathStyle::Direct
    }
}

} // verus!
