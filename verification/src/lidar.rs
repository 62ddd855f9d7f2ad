//! Forward-facing LiDAR frames and obstacle selection.
//!
//! A frame carries detections as 3D points in the vehicle frame, in mm:
//! `+x` forward, `+y` right, `+z` up. The controller only reacts to points
//! inside the forward corridor: ahead of the vehicle within its detection
//! range, inside the lane width, and at vehicle height.

use vstd::prelude::*;
use crate::units::{spec_min, COORD_MAX};

verus! {

/// A point in the vehicle frame, coordinates in mm.
#[derive(Clone, Copy, Debug)]
pub struct PointCoords {
    pub x: i64,
    pub y: i64,
    pub z: i64,
}

/// One LiDAR return: an intensity (thousandths) and its point.
#[derive(Clone, Copy, Debug)]
pub struct LidarDetection {
    pub intensity: i64,
    pub point: PointCoords,
}

/// A LiDAR frame as the perception stack publishes it.
#[derive(Debug)]
pub struct LidarMeasurement {
    pub channel_count: u32,
    pub detections: Vec<LidarDetection>,
    pub horizontal_angle: i64,
    pub is_empty: bool,
    pub len: u32,
}

impl LidarMeasurement {
    /// Every coordinate of every detection has a plausible magnitude.
    pub open spec fn wf(self) -> bool {
        forall|i: int|
            0 <= i < self.detections@.len() ==> {
                let p = (#[trigger] self.detections@[i]).point;
                -COORD_MAX <= p.x <= COORD_MAX && -COORD_MAX <= p.y <= COORD_MAX
                    && -COORD_MAX <= p.z <= COORD_MAX
            }
    }

    /// A deep copy of the frame.
    pub fn duplicate(&self) -> (r: LidarMeasurement)
        ensures
            r.channel_count == self.channel_count,
            r.detections@ == self.detections@,
            r.horizontal_angle == self.horizontal_angle,
            r.is_empty == self.is_empty,
            r.len == self.len,
    {
        let mut dets: Vec<LidarDetection> = Vec::new();
        let mut i: usize = 0;
        while i < self.detections.len()
            invariant
                0 <= i <= self.detections@.len(),
                dets@ == self.detections@.take(i as int),
            decreases self.detections@.len() - i,
        {
            dets.push(self.detections[i]);
            proof {
                assert(dets@ =~= self.detections@.take(i + 1));
            }
            i += 1;
        }
        proof {
            assert(dets@ =~= self.detections@);
        }
        LidarMeasurement {
            channel_count: self.channel_count,
            detections: dets,
            horizontal_angle: self.horizontal_angle,
            is_empty: self.is_empty,
            len: self.len,
        }
    }
}

/// Whether a point blocks the vehicle's path: more than 1 m and less than
/// 30 m ahead, strictly inside the 3 m lane width, and between ground
/// clutter (0.3 m) and overhead structures (2.5 m).
pub open spec fn in_corridor(p: PointCoords) -> bool {
    &&& 1000 < p.x < 30_000
    &&& -1500 < p.y < 1500
    &&& 300 < p.z < 2500
}

/// Forward distance (mm) of the nearest detection inside the corridor,
/// or nothing when no detection lies in it.
pub open spec fn closest_forward(dets: Seq<LidarDetection>) -> Option<int>
    decreases dets.len(),
{
    if dets.len() == 0 {
        Option::None
    } else {
        let rest = closest_forward(dets.drop_last());
        let p = dets.last().point;
        if in_corridor(p) {
            match rest {
                Option::None => Option::Some(p.x as int),
                Option::Some(m) => Option::Some(spec_min(m, p.x as int)),
            }
        } else {
            rest
        }
    }
}

/// The nearest corridor distance never exceeds the forward distance of
/// any detection inside the corridor.
pub proof fn lemma_closest_forward_le(dets: Seq<LidarDetection>, i: int)
    requires
        0 <= i < dets.len(),
        in_corridor(dets[i].point),
    ensures
        closest_forward(dets) matches Option::Some(d) && d <= dets[i].point.x,
    decreases dets.len(),
{
    if i == dets.len() - 1 {
    } else {
        lemma_closest_forward_le(dets.drop_last(), i);
    }
}

/// The nearest corridor distance, when there is one, is the forward
/// distance of some detection inside the corridor.
pub proof fn lemma_closest_forward_member(dets: Seq<LidarDetection>)
    requires
        closest_forward(dets) is Some,
    ensures
        exists|i: int|
            0 <= i < dets.len() && in_corridor((#[trigger] dets[i]).point)
                && dets[i].point.x == closest_forward(dets).unwrap(),
    decreases dets.len(),
{
    let p = dets.last().point;
    let rest = closest_forward(dets.drop_last());
    if in_corridor(p) && (rest is None || closest_forward(dets).unwrap() == p.x) {
        assert(dets[dets.len() - 1] == dets.last());
    } else {
        lemma_closest_forward_member(dets.drop_last());
        let j = choose|j: int|
            0 <= j < dets.drop_last().len() && in_corridor(
                (#[trigger] dets.drop_last()[j]).point,
            ) && dets.drop_last()[j].point.x == rest.unwrap();
        assert(dets[j] == dets.drop_last()[j]);
    }
}

/// Forward distance (mm) of the nearest path-blocking detection of the
/// frame's detection list, or nothing when none lies in the corridor.
pub fn closest_forward_obstacle(dets: &Vec<LidarDetection>) -> (r: Option<i64>)
    ensures
        match r {
            Option::Some(d) => closest_forward(dets@) == Option::Some(d as int),
            Option::None => closest_forward(dets@) is None,
        },
{
    let mut best: Option<i64> = Option::None;
    let mut i: usize = 0;
    while i < dets.len()
        invariant
            0 <= i <= dets@.len(),
            match best {
                Option::Some(b) => closest_forward(dets@.take(i as int)) == Option::Some(b as int),
                Option::None => closest_forward(dets@.take(i as int)) is None,
            },
        decreases dets@.len() - i,
    {
        let p = dets[i].point;
        proof {
            assert(dets@.take(i + 1).drop_last() =~= dets@.take(i as int));
            assert(dets@.take(i + 1).last() == dets@[i as int]);
        }
        if p.x > 1000 && p.x < 30_000 && p.y > -1500 && p.y < 1500 && p.z > 300 && p.z < 2500 {
            best = match best {
                Option::None => Option::Some(p.x),
                Option::Some(b) => if p.x < b {
                    Option::Some(p.x)
                } else {
                    Option::Some(b)
                },
            };
        }
        i += 1;
    }
    proof {
        assert(dets@.take(dets@.len() as int) =~= dets@);
    }
    best
}

/// Squared straight-line range (mm²) of a point from the sensor origin.
pub open spec fn square_range(p: PointCoords) -> int {
    p.x * p.x + p.y * p.y + p.z * p.z
}

/// Smallest squared range over all detections of the list.
pub open spec fn min_square_range(dets: Seq<LidarDetection>) -> Option<int>
    decreases dets.len(),
{
    if dets.len() == 0 {
        Option::None
    } else {
        let rest = min_square_range(dets.drop_last());
        let s = square_range(dets.last().point);
        match rest {
            Option::None => Option::Some(s),
            Option::Some(m) => Option::Some(spec_min(m, s)),
        }
    }
}

/// Smallest squared range (mm²) over all detections, by one pass.
pub fn min_square_range_of(dets: &Vec<LidarDetection>) -> (r: Option<i64>)
    requires
        forall|i: int|
            0 <= i < dets@.len() ==> {
                let p = (#[trigger] dets@[i]).point;
                -COORD_MAX <= p.x <= COORD_MAX && -COORD_MAX <= p.y <= COORD_MAX
                    && -COORD_MAX <= p.z <= COORD_MAX
            },
    ensures
        match r {
            Option::Some(s) => min_square_range(dets@) == Option::Some(s as int),
            Option::None => min_square_range(dets@) is None,
        },
        r matches Option::Some(s) ==> 0 <= s <= 3 * COORD_MAX * COORD_MAX,
{
    let mut best: Option<i64> = Option::None;
    let mut i: usize = 0;
    while i < dets.len()
        invariant
            0 <= i <= dets@.len(),
            forall|k: int|
                0 <= k < dets@.len() ==> {
                    let p = (#[trigger] dets@[k]).point;
                    -COORD_MAX <= p.x <= COORD_MAX && -COORD_MAX <= p.y <= COORD_MAX
                        && -COORD_MAX <= p.z <= COORD_MAX
                },
            match best {
                Option::Some(b) => min_square_range(dets@.take(i as int)) == Option::Some(b as int)
                    && 0 <= b <= 3 * COORD_MAX * COORD_MAX,
                Option::None => min_square_range(dets@.take(i as int)) is None,
            },
        decreases dets@.len() - i,
    {
        let p = dets[i].point;
        proof {
            assert(dets@.take(i + 1).drop_last() =~= dets@.take(i as int));
            assert(dets@.take(i + 1).last() == dets@[i as int]);
            assert(p.x * p.x <= COORD_MAX * COORD_MAX) by (nonlinear_arith)
                requires -COORD_MAX <= p.x <= COORD_MAX, COORD_MAX > 0;
            assert(p.y * p.y <= COORD_MAX * COORD_MAX) by (nonlinear_arith)
                requires -COORD_MAX <= p.y <= COORD_MAX, COORD_MAX > 0;
            assert(p.z * p.z <= COORD_MAX * COORD_MAX) by (nonlinear_arith)
                requires -COORD_MAX <= p.z <= COORD_MAX, COORD_MAX > 0;
            assert(p.x * p.x >= 0) by (nonlinear_arith);
            assert(p.y * p.y >= 0) by (nonlinear_arith);
            assert(p.z * p.z >= 0) by (nonlinear_arith);
        }
        let s = p.x * p.x + p.y * p.y + p.z * p.z;
        best = match best {
            Option::None => Option::Some(s),
            Option::Some(b) => if s < b {
                Option::Some(s)
            } else {
                Option::Some(b)
            },
        };
        i += 1;
    }
    proof {
        assert(dets@.take(dets@.len() as int) =~= dets@);
    }
    best
}

/// Integer square root: the greatest `r` with `r * r <= n`.
pub fn isqrt_i64(n: i64) -> (r: i64)
    requires
        0 <= n < 0x4000_0000_0000_0000,
    ensures
        0 <= r,
        r * r <= n < (r + 1) * (r + 1),
{
    let mut lo: i64 = 0;
    let mut hi: i64 = 0x8000_0000;
    proof {
        assert(0x8000_0000i64 * 0x8000_0000i64 == 0x4000_0000_0000_0000) by (nonlinear_arith);
    }
    while lo + 1 < hi
        invariant
            0 <= lo < hi <= 0x8000_0000,
            lo * lo <= n,
            hi * hi > n,
        decreases hi - lo,
    {
        let mid = lo + (hi - lo) / 2;
        proof {
            assert(lo < mid < hi);
            assert(mid * mid <= 0x8000_0000i64 * 0x8000_0000i64) by (nonlinear_arith)
                requires 0 < mid <= 0x8000_0000i64;
        }
        if mid * mid <= n {
            lo = mid;
        } else {
            hi = mid;
        }
    }
    lo
}

} // verus!
