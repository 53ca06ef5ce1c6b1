use vstd::prelude::*;

pub mod colour;
pub mod fixed;
pub mod interval;
pub mod mat3;
pub mod random;
pub mod ray;
pub mod vec3;

verus! {

/// Smallest intersection parameter the radiance integrator accepts, in
/// fixed-point units: roughly one thousandth of a world unit.  Intersections
/// at or before this distance from the ray origin are ignored so that a
/// scattered ray does not immediately re-hit the surface it left.
pub const RAY_MINIMUM_DISTANCE_BEFORE_HIT: i128 = 66;

/// Largest magnitude of any world coordinate, sphere radius or ray direction
/// component (2^32 fixed-point, 65536 world units): inside this range every
/// step of the intersection arithmetic fits the 128-bit scalars.
pub const WORLD_MAX: i128 = 0x1_0000_0000;

/// Largest intersection parameter a ray is traced to (2^48 fixed-point).
/// It stands in for an unbounded upper limit: a hit this far away would lie
/// outside the representable world anyway.
pub const RAY_T_MAX: i128 = 0x1_0000_0000_0000;

/// Largest magnitude of a surface normal component: one unit plus rounding
/// slack.  A normal is computed by dividing an offset by the sphere radius,
/// so rounding can push a component slightly past one unit.
pub const NORMAL_MAX: i128 = 131072;

/// Bounds on the squared length of a surface normal: a normal is unit
/// length up to rounding, so its squared length stays between half a unit
/// and two units.
pub const NORMAL_LS_MIN: i128 = 32768;

pub const NORMAL_LS_MAX: i128 = 131072;

/// Largest refraction ratio a dielectric boundary can apply (2^23, that is
/// 128 units): the refractive index must keep the ratio representable in
/// both directions.
pub const REFRACT_RATIO_MAX: i128 = 0x80_0000;

/// Largest magnitude of a scattered direction component (2^30).  Scattered
/// directions are built from normalized vectors, surface normals and
/// bounded refraction ratios, and stay far below `WORLD_MAX`.
pub const SCATTER_DIR_MAX: i128 = 0x4000_0000;

} // verus!
