//! Lengths on the screen, as the bits of single-precision numbers. Hosts do the
//! arithmetic; comparing two lengths is a matter of their bits.

use vstd::prelude::*;

verus! {

/// A length in pixels: the bits of a single-precision number.
#[derive(Clone, Copy, Debug, PartialEq, Eq, Structural)]
pub struct Pixels {
    pub bits: u32,
}

/// A point.
#[derive(Clone, Copy, Debug, PartialEq, Eq, Structural)]
pub struct Point {
    pub x: Pixels,
    pub y: Pixels,
}

/// A width and a height.
#[derive(Clone, Copy, Debug, PartialEq, Eq, Structural)]
pub struct Size {
    pub width: Pixels,
    pub height: Pixels,
}

/// A rectangle.
#[derive(Clone, Copy, Debug, PartialEq, Eq, Structural)]
pub struct Bounds {
    pub origin: Point,
    pub size: Size,
}

impl Pixels {
    /// No length.
    pub fn zero() -> (length: Pixels)
        ensures
            length.bits == 0,
    {
        Pixels { bits: 0 }
    }

    /// The bits without the sign.
    pub open spec fn magnitude(self) -> int {
        self.bits as int % 0x8000_0000
    }

    /// Whether the bits are no number.
    pub open spec fn is_nan(self) -> bool {
        self.magnitude() > 0x7f80_0000
    }

    /// Where a number stands among all numbers. Both zeros stand at the same place.
    pub open spec fn rank(self) -> int {
        if self.bits >= 0x8000_0000 {
            -self.magnitude()
        } else {
            self.magnitude()
        }
    }

    /// Whether one length is less than another. What is no number is neither less nor
    /// greater than anything.
    pub open spec fn less(self, other: Pixels) -> bool {
        !self.is_nan() && !other.is_nan() && self.rank() < other.rank()
    }

    /// Whether two lengths are equal numbers. What is no number equals nothing.
    pub open spec fn equal(self, other: Pixels) -> bool {
        !self.is_nan() && !other.is_nan() && self.rank() == other.rank()
    }

    fn place(self) -> (place: Option<i64>)
        ensures
            place is None <==> self.is_nan(),
            place is Some ==> place->0 == self.rank(),
    {
        let magnitude: i64 = (self.bits % 0x8000_0000) as i64;
        if magnitude > 0x7f80_0000 {
            None
        } else if self.bits >= 0x8000_0000 {
            Some(-magnitude)
        } else {
            Some(magnitude)
        }
    }

    /// Whether one length is less than another.
    pub fn is_less(self, other: Pixels) -> (less: bool)
        ensures
            less == self.less(other),
    {
        match (self.place(), other.place()) {
            (Some(left), Some(right)) => left < right,
            _ => false,
        }
    }

    /// Whether two lengths are equal numbers.
    pub fn is_equal(self, other: Pixels) -> (equal: bool)
        ensures
            equal == self.equal(other),
    {
        match (self.place(), other.place()) {
            (Some(left), Some(right)) => left == right,
            _ => false,
        }
    }
}

/// Lengths that are numbers are in order: of two of them exactly one is less, or they are equal,
/// and what is less than a third one's lesser is less than the third. What is no number is
/// neither less than, nor greater than, nor equal to anything, itself included.
pub proof fn law_lengths_are_in_order(a: Pixels, b: Pixels, c: Pixels)
    ensures
        !(a.less(b) && b.less(a)) && !(a.less(b) && a.equal(b)),
        !a.is_nan() && !b.is_nan() ==> a.less(b) || a.equal(b) || b.less(a),
        a.less(b) && b.less(c) ==> a.less(c),
        a.equal(b) && b.equal(c) ==> a.equal(c),
        a.equal(b) ==> b.equal(a),
        a.equal(b) && b.less(c) ==> a.less(c),
        a.is_nan() ==> !a.less(b) && !b.less(a) && !a.equal(b),
        a.equal(a) <==> !a.is_nan(),
{
}

/// The order of lengths is that of single-precision numbers: the bits of two lengths that are
/// not negative are in their order, those of two negative ones in the opposite order, and a
/// negative length is less than one that is not, but for the two zeros, which are equal. The
/// bits beyond those of infinity are no numbers.
pub proof fn law_lengths_compare_as_numbers(a: Pixels, b: Pixels)
    ensures
        a.bits < b.bits <= 0x7f80_0000 ==> a.less(b),
        0x8000_0000 <= a.bits < b.bits <= 0xff80_0000 ==> b.less(a),
        b.bits <= 0x7f80_0000 < 0x8000_0000 < a.bits <= 0xff80_0000 ==> a.less(b),
        a.bits == 0 && b.bits == 0x8000_0000 ==> a.equal(b),
        a.equal(b) && a.bits != b.bits ==> a.bits % 0x8000_0000 == 0 && b.bits % 0x8000_0000 == 0,
        a.is_nan() <==> 0x7f80_0000 < a.bits < 0x8000_0000 || a.bits > 0xff80_0000,
{
}

} // verus!
