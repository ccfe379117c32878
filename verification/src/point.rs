//! A 3-component integer vector, used for positions, velocities and
//! accelerations. Every operation returns a new value.

use vstd::prelude::*;

verus! {

#[derive(Clone, Copy, PartialEq, Eq, Structural)]
pub struct Point {
    pub x: i64,
    pub y: i64,
    pub z: i64,
}

impl Default for Point {
    /// The origin.
    fn default() -> (r: Self)
        ensures
            r.x == 0,
            r.y == 0,
            r.z == 0,
    {
        Point { x: 0, y: 0, z: 0 }
    }
}

impl Point {
    /// Component-wise sum.
    pub fn add(&self, other: &Point) -> (r: Point)
        requires
            i64::MIN <= self.x + other.x <= i64::MAX,
            i64::MIN <= self.y + other.y <= i64::MAX,
            i64::MIN <= self.z + other.z <= i64::MAX,
        ensures
            r.x == self.x + other.x,
            r.y == self.y + other.y,
            r.z == self.z + other.z,
    {
        Point { x: self.x + other.x, y: self.y + other.y, z: self.z + other.z }
    }

    /// Component-wise difference.
    pub fn subtract(&self, other: &Point) -> (r: Point)
        requires
            i64::MIN <= self.x - other.x <= i64::MAX,
            i64::MIN <= self.y - other.y <= i64::MAX,
            i64::MIN <= self.z - other.z <= i64::MAX,
        ensures
            r.x == self.x - other.x,
            r.y == self.y - other.y,
            r.z == self.z - other.z,
    {
        Point { x: self.x - other.x, y: self.y - other.y, z: self.z - other.z }
    }

    /// Scaling by an integer coefficient.
    pub fn mult(&self, coefficient: i64) -> (r: Point)
        requires
            i64::MIN <= self.x * coefficient <= i64::MAX,
            i64::MIN <= self.y * coefficient <= i64::MAX,
            i64::MIN <= self.z * coefficient <= i64::MAX,
        ensures
            r.x == self.x * coefficient,
            r.y == self.y * coefficient,
            r.z == self.z * coefficient,
    {
        Point {
            x: self.x * coefficient,
            y: self.y * coefficient,
            z: self.z * coefficient,
        }
    }

    /// Component-wise negation.
    pub fn inverse(&self) -> (r: Point)
        requires
            i64::MIN < self.x,
            i64::MIN < self.y,
            i64::MIN < self.z,
        ensures
            r.x == -self.x,
            r.y == -self.y,
            r.z == -self.z,
    {
        Point { x: -self.x, y: -self.y, z: -self.z }
    }
}

} // verus!
