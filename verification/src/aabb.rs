//! Axis-aligned bounding boxes over integer positions, used to track the
//! spatial extent of non-empty generated content.

use crate::position::Vec3i;
use vstd::prelude::*;

verus! {

/// An axis-aligned bounding box given by its componentwise minimum and
/// maximum corners, both inclusive.
#[derive(Clone, Copy, PartialEq, Eq, Structural, Debug)]
pub struct AABB {
    pub min: Vec3i,
    pub max: Vec3i,
}

impl AABB {
    /// The box covering only the origin, the starting state before any
    /// positions are added.
    pub open spec fn spec_zero() -> AABB {
        AABB { min: (Vec3i { x: 0, y: 0, z: 0 }), max: (Vec3i { x: 0, y: 0, z: 0 }) }
    }

    /// Whether the point lies inside the box, bounds inclusive.
    pub open spec fn spec_contains(self, p: Vec3i) -> bool {
        &&& self.min.x <= p.x <= self.max.x
        &&& self.min.y <= p.y <= self.max.y
        &&& self.min.z <= p.z <= self.max.z
    }

    /// The box extended to cover `p`: each minimum component is lowered and
    /// each maximum component is raised exactly as far as needed.
    pub open spec fn spec_add(self, p: Vec3i) -> AABB {
        AABB {
            min: (Vec3i {
                x: if p.x < self.min.x {
                    p.x
                } else {
                    self.min.x
                },
                y: if p.y < self.min.y {
                    p.y
                } else {
                    self.min.y
                },
                z: if p.z < self.min.z {
                    p.z
                } else {
                    self.min.z
                },
            }),
            max: (Vec3i {
                x: if p.x > self.max.x {
                    p.x
                } else {
                    self.max.x
                },
                y: if p.y > self.max.y {
                    p.y
                } else {
                    self.max.y
                },
                z: if p.z > self.max.z {
                    p.z
                } else {
                    self.max.z
                },
            }),
        }
    }

    /// Extends the box to cover `position`.
    pub fn add(&mut self, position: Vec3i)
        ensures
            *final(self) == old(self).spec_add(position),
    {
        if position.x < self.min.x {
            self.min.x = position.x;
        }
        if position.y < self.min.y {
            self.min.y = position.y;
        }
        if position.z < self.min.z {
            self.min.z = position.z;
        }
        if position.x > self.max.x {
            self.max.x = position.x;
        }
        if position.y > self.max.y {
            self.max.y = position.y;
        }
        if position.z > self.max.z {
            self.max.z = position.z;
        }
    }

    /// Whether the point lies inside the box, bounds inclusive.
    pub fn contains(&self, p: Vec3i) -> (r: bool)
        ensures
            r == self.spec_contains(p),
    {
        self.min.x <= p.x && p.x <= self.max.x && self.min.y <= p.y && p.y <= self.max.y
            && self.min.z <= p.z && p.z <= self.max.z
    }
}

impl Default for AABB {
    /// The starting box, covering only the origin.
    fn default() -> (r: AABB)
        ensures
            r == AABB::spec_zero(),
    {
        AABB { min: Vec3i { x: 0, y: 0, z: 0 }, max: Vec3i { x: 0, y: 0, z: 0 } }
    }
}

/// Extending a box never shrinks it: everything the box covered before
/// adding a position is still covered afterwards, and so is the position.
pub proof fn lemma_add_grows(b: AABB, p: Vec3i, q: Vec3i)
    ensures
        b.spec_contains(q) ==> b.spec_add(p).spec_contains(q),
        b.spec_add(p).spec_contains(p),
{
}

} // verus!
