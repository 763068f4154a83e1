//! Permission levels of authenticated connections.
//!
//! `Admin(k)` outranks every non-admin level, and a higher admin level
//! outranks a lower one.  `Any` is the bottom of the order: every level is
//! at least `Any`, while `Any` itself is at least nothing but `Any`.
//! `Standart` and `Node` are incomparable with one another.

use vstd::prelude::*;

verus! {

/// Permission level of a client, node or administrator.
#[derive(Debug, Clone, Copy, PartialEq, Eq, Structural)]
pub enum PermissionLevel {
    /// Administrator; a higher level outranks a lower one.
    Admin(u32),
    /// An ordinary client, allowed to request forwards.
    Standart,
    /// An edge agent, allowed to share its local ports.
    Node,
    /// No privilege at all; the bottom of the order.
    Any,
}

/// What it means for level `a` to rank at least as high as level `b`.
pub open spec fn spec_at_least(a: PermissionLevel, b: PermissionLevel) -> bool {
    match (a, b) {
        (PermissionLevel::Admin(j), PermissionLevel::Admin(k)) => j >= k,
        (PermissionLevel::Admin(_), _) => true,
        (_, PermissionLevel::Any) => true,
        (x, y) => x == y,
    }
}

impl PermissionLevel {
    /// Checks whether `self` ranks at least as high as `other`.
    pub fn at_least(&self, other: &Self) -> (r: bool)
        ensures
            r == spec_at_least(*self, *other),
    {
        match (self, other) {
            (PermissionLevel::Admin(j), PermissionLevel::Admin(k)) => *j >= *k,
            (PermissionLevel::Admin(_), _) => true,
            (_, PermissionLevel::Any) => true,
            (PermissionLevel::Standart, PermissionLevel::Standart) => true,
            (PermissionLevel::Node, PermissionLevel::Node) => true,
            _ => false,
        }
    }
}

/// The rank order is reflexive: every level is at least itself.
pub proof fn lemma_at_least_reflexive(p: PermissionLevel)
    ensures
        spec_at_least(p, p),
{
}

/// Between administrators the order is exactly the order of their levels.
pub proof fn lemma_admin_at_least(j: u32, k: u32)
    ensures
        spec_at_least(PermissionLevel::Admin(j), PermissionLevel::Admin(k)) <==> j >= k,
{
}

/// Every level is at least `Any`.
pub proof fn lemma_any_is_bottom(p: PermissionLevel)
    ensures
        spec_at_least(p, PermissionLevel::Any),
{
}

/// `Any` itself ranks at least nothing but `Any`.
pub proof fn lemma_any_outranks_nothing(p: PermissionLevel)
    ensures
        spec_at_least(PermissionLevel::Any, p) <==> p == PermissionLevel::Any,
{
}

} // verus!
