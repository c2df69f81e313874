use vstd::prelude::*;

verus! {

/// The denominator shared by every duty-cycle fraction sent to a wheel output.
pub const DUTY_DENOMINATOR: u32 = 100;

/// The forward duty-cycle numerator of a signed wheel velocity: `max(0, v)`.
pub open spec fn forward_spec(v: int) -> int {
    if v > 0 { v } else { 0 }
}

/// The backward duty-cycle numerator of a signed wheel velocity: `max(0, -v)`.
pub open spec fn backward_spec(v: int) -> int {
    if v < 0 { -v } else { 0 }
}

/// Forward numerator for a wheel driven at velocity `val`.
pub fn forward(val: i32) -> (r: u32)
    ensures
        r as int == forward_spec(val as int),
{
    if val > 0 { val as u32 } else { 0 }
}

/// Backward numerator for a wheel driven at velocity `val`.
pub fn backward(val: i32) -> (r: u32)
    ensures
        r as int == backward_spec(val as int),
{
    if val < 0 {
        (-(val as i64)) as u32
    } else {
        0
    }
}

/// Signed-to-unsigned split: the forward numerator minus the backward numerator gives back
/// the velocity, and at most one of the two is nonzero.
pub proof fn lemma_split_recombines(v: int)
    ensures
        forward_spec(v) - backward_spec(v) == v,
        forward_spec(v) * backward_spec(v) == 0,
        forward_spec(v) >= 0,
        backward_spec(v) >= 0,
{
}

/// The four duty-cycle numerators (over `DUTY_DENOMINATOR`) that drive the two wheels, in
/// the order in which they are applied.
#[derive(Clone, Copy, Debug, PartialEq, Eq, Structural)]
pub struct DutyCycles {
    pub left_forward: u32,
    pub left_backward: u32,
    pub right_forward: u32,
    pub right_backward: u32,
}

impl DutyCycles {
    /// The duty cycles are exactly the split of the two wheel velocities.
    pub open spec fn drives(&self, left: int, right: int) -> bool {
        &&& self.left_forward as int == forward_spec(left)
        &&& self.left_backward as int == backward_spec(left)
        &&& self.right_forward as int == forward_spec(right)
        &&& self.right_backward as int == backward_spec(right)
    }

    /// At most one output of each wheel is active.
    pub open spec fn exclusive(&self) -> bool {
        &&& (self.left_forward == 0 || self.left_backward == 0)
        &&& (self.right_forward == 0 || self.right_backward == 0)
    }

    /// Splits a (left, right) velocity pair into the four outputs.
    pub fn for_velocities(left: i32, right: i32) -> (r: DutyCycles)
        ensures
            r.drives(left as int, right as int),
            r.exclusive(),
    {
        DutyCycles {
            left_forward: forward(left),
            left_backward: backward(left),
            right_forward: forward(right),
            right_backward: backward(right),
        }
    }
}

} // verus!
