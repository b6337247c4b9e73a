//! Placement of several instances of a structure on the ground plane.
//!
//! Positions are kept in thousandths of a unit and yaw angles in thousandths
//! of a degree. The random numbers come from the caller, one triple per
//! instance, so that a layout can be repeated from the same numbers.
use vstd::prelude::*;

verus! {

/// Steps per unit of length, and per degree of yaw.
pub const STEPS_PER_UNIT: i64 = 1000;

/// Yaw steps in a full turn.
pub const FULL_TURN: u32 = 360000;

/// The area that instances are placed in: `x_min <= x < x_max` and
/// `z_min <= z < z_max`, in units.
#[derive(Debug, Clone, Copy, PartialEq, Eq, Structural)]
pub struct PlacementBounds {
    pub x_min: i32,
    pub x_max: i32,
    pub z_min: i32,
    pub z_max: i32,
}

impl PlacementBounds {
    /// Both ranges are non-empty.
    pub open spec fn valid(&self) -> bool {
        self.x_min < self.x_max && self.z_min < self.z_max
    }
}

/// Where one instance stands, and how it is turned about the vertical axis.
#[derive(Debug, Clone, Copy, PartialEq, Eq, Structural)]
pub struct Placement {
    /// Position along x, in thousandths of a unit.
    pub x_milli: i64,
    /// Position along z, in thousandths of a unit.
    pub z_milli: i64,
    /// Yaw, in thousandths of a degree, below a full turn.
    pub yaw_millidegrees: u32,
}

/// Why no placement was made.
#[derive(Debug, Clone, Copy, PartialEq, Eq, Structural)]
pub enum PlacementError {
    /// A range of the bounds is empty: its minimum is not below its maximum.
    InvalidBounds,
}

/// The value in `[low * STEPS_PER_UNIT, high * STEPS_PER_UNIT)` that a random
/// number picks.
pub open spec fn pick_in_range(low: i32, high: i32, sample: u64) -> int {
    low * STEPS_PER_UNIT + sample as int % ((high - low) * STEPS_PER_UNIT)
}

/// The placement that a triple of random numbers picks.
pub open spec fn placement_for(bounds: PlacementBounds, sample: (u64, u64, u64)) -> Placement {
    Placement {
        x_milli: pick_in_range(bounds.x_min, bounds.x_max, sample.0) as i64,
        z_milli: pick_in_range(bounds.z_min, bounds.z_max, sample.1) as i64,
        yaw_millidegrees: (sample.2 % FULL_TURN as u64) as u32,
    }
}

/// The placement lies in the bounds and its yaw below a full turn.
pub open spec fn within(bounds: PlacementBounds, p: Placement) -> bool {
    &&& bounds.x_min * STEPS_PER_UNIT <= p.x_milli < bounds.x_max * STEPS_PER_UNIT
    &&& bounds.z_min * STEPS_PER_UNIT <= p.z_milli < bounds.z_max * STEPS_PER_UNIT
    &&& p.yaw_millidegrees < FULL_TURN
}

/// The pick lies in its range.
proof fn lemma_pick_in_range(low: i32, high: i32, sample: u64)
    requires
        low < high,
    ensures
        low * STEPS_PER_UNIT <= pick_in_range(low, high, sample) < high * STEPS_PER_UNIT,
{
    let span = (high - low) * STEPS_PER_UNIT;
    assert(span > 0) by (nonlinear_arith)
        requires
            low < high,
            span == (high - low) * STEPS_PER_UNIT,
    ;
    assert(0 <= sample as int % span < span);
    assert(low * STEPS_PER_UNIT + span == high * STEPS_PER_UNIT) by (nonlinear_arith)
        requires
            span == (high - low) * STEPS_PER_UNIT,
    ;
}

/// Every placement picked in valid bounds lies in them, with its yaw below a
/// full turn, whatever the random numbers.
pub proof fn lemma_placement_within_bounds(bounds: PlacementBounds, sample: (u64, u64, u64))
    requires
        bounds.valid(),
    ensures
        within(bounds, placement_for(bounds, sample)),
{
    lemma_pick_in_range(bounds.x_min, bounds.x_max, sample.0);
    lemma_pick_in_range(bounds.z_min, bounds.z_max, sample.1);
}

/// Picks a value in `[low, high)` units from a random number.
fn pick(low: i32, high: i32, sample: u64) -> (r: i64)
    requires
        low < high,
    ensures
        r == pick_in_range(low, high, sample),
{
    proof {
        lemma_pick_in_range(low, high, sample);
    }
    let span: i64 = (high as i64 - low as i64) * STEPS_PER_UNIT;
    let offset: i64 = (sample % (span as u64)) as i64;
    low as i64 * STEPS_PER_UNIT + offset
}

/// Places one instance from a triple of random numbers: x, z and yaw.
pub fn place_one(bounds: &PlacementBounds, sample: (u64, u64, u64)) -> (r: Result<
    Placement,
    PlacementError,
>)
    ensures
        r is Err <==> !bounds.valid(),
        r is Err ==> r == Err::<Placement, PlacementError>(PlacementError::InvalidBounds),
        r is Ok ==> r->Ok_0 == placement_for(*bounds, sample),
        r is Ok ==> within(*bounds, r->Ok_0),
{
    if bounds.x_min >= bounds.x_max || bounds.z_min >= bounds.z_max {
        return Err(PlacementError::InvalidBounds);
    }
    proof {
        lemma_placement_within_bounds(*bounds, sample);
    }
    let x_milli = pick(bounds.x_min, bounds.x_max, sample.0);
    let z_milli = pick(bounds.z_min, bounds.z_max, sample.1);
    let yaw_millidegrees = (sample.2 % FULL_TURN as u64) as u32;
    Ok(Placement { x_milli, z_milli, yaw_millidegrees })
}

/// Places one instance per triple of random numbers, in order.
pub fn place(bounds: &PlacementBounds, samples: &Vec<(u64, u64, u64)>) -> (r: Result<
    Vec<Placement>,
    PlacementError,
>)
    ensures
        r is Err <==> !bounds.valid(),
        r is Err ==> r == Err::<Vec<Placement>, PlacementError>(PlacementError::InvalidBounds),
        r is Ok ==> r->Ok_0@.len() == samples@.len(),
        r is Ok ==> forall|i: int|
            0 <= i < samples@.len() ==> #[trigger] r->Ok_0@[i] == placement_for(
                *bounds,
                samples@[i],
            ),
        r is Ok ==> forall|i: int| 0 <= i < samples@.len() ==> within(*bounds, #[trigger] r->Ok_0@[i]),
{
    if bounds.x_min >= bounds.x_max || bounds.z_min >= bounds.z_max {
        return Err(PlacementError::InvalidBounds);
    }
    let mut placements: Vec<Placement> = Vec::new();
    let mut i: usize = 0;
    while i < samples.len()
        invariant
            bounds.valid(),
            i <= samples@.len(),
            placements@.len() == i,
            forall|k: int|
                0 <= k < i ==> #[trigger] placements@[k] == placement_for(*bounds, samples@[k]),
            forall|k: int| 0 <= k < i ==> within(*bounds, #[trigger] placements@[k]),
        decreases samples@.len() - i,
    {
        match place_one(bounds, samples[i]) {
            Ok(p) => placements.push(p),
            Err(_) => {},
        }
        i = i + 1;
    }
    Ok(placements)
}

} // verus!
