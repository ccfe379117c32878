//! The chemical tag of a particle: a name, a stickiness coefficient and a
//! display colour. Stickiness is a fixed-point fraction of
//! [`crate::consts::STICKINESS_SCALE`]. Combining two elements
//! concatenates the names, averages the stickiness and averages the
//! colour channel-wise.

use vstd::prelude::*;
use vstd::string::StringExecFns;
use crate::consts::STICKINESS_SCALE;

verus! {

pub struct Element {
    pub stickiness: i64,
    pub name: String,
    pub color: [u8; 3],
}

/// An element is well formed when its stickiness is a fixed-point
/// fraction in `[0, 1]`.
pub open spec fn wf_element(e: Element) -> bool {
    0 <= e.stickiness <= STICKINESS_SCALE
}

impl Clone for Element {
    fn clone(&self) -> (r: Self)
        ensures
            r == *self,
    {
        Element { stickiness: self.stickiness, name: self.name.clone(), color: self.color }
    }
}

/// Channel-wise average of two colours; a sum beyond the saturation
/// threshold would clip to 255, but two channels can never reach it.
pub fn average_color(color_one: [u8; 3], color_two: [u8; 3]) -> (r: [u8; 3])
    ensures
        r@[0] == (color_one@[0] + color_two@[0]) / 2,
        r@[1] == (color_one@[1] + color_two@[1]) / 2,
        r@[2] == (color_one@[2] + color_two@[2]) / 2,
{
    let (r1, g1, b1) = (color_one[0] as u16, color_one[1] as u16, color_one[2] as u16);
    let (r2, g2, b2) = (color_two[0] as u16, color_two[1] as u16, color_two[2] as u16);
    [
        if r1 + r2 > 512u16 { 255u8 } else { ((r1 + r2) / 2) as u8 },
        if g1 + g2 > 512u16 { 255u8 } else { ((g1 + g2) / 2) as u8 },
        if b1 + b2 > 512u16 { 255u8 } else { ((b1 + b2) / 2) as u8 },
    ]
}

impl Element {
    pub fn hydrogen() -> (r: Element)
        ensures
            r.name@ == "hydrogen"@,
            r.stickiness == 600,
            r.color@ == seq![255u8, 0u8, 0u8],
            wf_element(r),
    {
        Element { name: "hydrogen".to_owned(), stickiness: 600, color: [255, 0, 0] }
    }

    pub fn oxygen() -> (r: Element)
        ensures
            r.name@ == "oxygen"@,
            r.stickiness == 200,
            r.color@ == seq![0u8, 255u8, 0u8],
            wf_element(r),
    {
        Element { name: "oxygen".to_owned(), stickiness: 200, color: [0, 255, 0] }
    }

    pub fn carbon() -> (r: Element)
        ensures
            r.name@ == "carbon"@,
            r.stickiness == 340,
            r.color@ == seq![0u8, 0u8, 255u8],
            wf_element(r),
    {
        Element { name: "carbon".to_owned(), stickiness: 340, color: [0, 0, 255] }
    }

    /// The composite of two elements: concatenated names, averaged
    /// stickiness, averaged colour.
    pub fn combine(&self, other: &Element) -> (r: Element)
        requires
            wf_element(*self),
            wf_element(*other),
        ensures
            r.name@ == self.name@ + "-"@ + other.name@,
            r.stickiness == (self.stickiness + other.stickiness) / 2,
            r.color@[0] == (self.color@[0] + other.color@[0]) / 2,
            r.color@[1] == (self.color@[1] + other.color@[1]) / 2,
            r.color@[2] == (self.color@[2] + other.color@[2]) / 2,
            wf_element(r),
    {
        Element {
            name: self.name.clone().concat("-").concat(other.name.as_str()),
            stickiness: (self.stickiness + other.stickiness) / 2,
            color: average_color(self.color, other.color),
        }
    }
}

} // verus!
