//! Value types shared by the schematic and PCB models.
//!
//! Lengths and angles are binary64 floating-point numbers in the native files.
//! The library carries each of them as its IEEE-754 bit pattern (`Real`) and
//! compares them with IEEE-754 equality, so that no floating-point arithmetic
//! is needed inside the verified core.

use vstd::prelude::*;

verus! {

/// A binary64 floating-point number, held by its IEEE-754 bit pattern.
#[derive(Clone, Copy, Debug)]
pub struct Real(pub u64);

/// 2^52: the weight of the lowest exponent bit of a binary64 pattern.
pub const MANTISSA_SPAN: u64 = 0x10_0000_0000_0000;

/// 2^63: the weight of the sign bit of a binary64 pattern.
pub const SIGN_BIT: u64 = 0x8000_0000_0000_0000;

impl Real {
    /// The biased exponent field of the pattern.
    pub open spec fn exponent(self) -> int {
        (self.0 / MANTISSA_SPAN) as int % 0x800
    }

    /// The pattern encodes a NaN: all exponent bits set and a non-zero mantissa.
    pub open spec fn is_nan(self) -> bool {
        self.exponent() == 0x7ff && self.0 % MANTISSA_SPAN != 0
    }

    /// The pattern encodes +0.0 or -0.0.
    pub open spec fn is_zero(self) -> bool {
        self.0 % SIGN_BIT == 0
    }

    /// IEEE-754 equality: NaN equals nothing, the two zeros are equal, and any
    /// other two values are equal exactly when their patterns are.
    pub open spec fn same(self, other: Real) -> bool {
        ||| (self.0 == other.0 && !self.is_nan())
        ||| (self.is_zero() && other.is_zero())
    }

    /// The number zero (+0.0).
    pub fn zero() -> (r: Real)
        ensures
            r.0 == 0,
    {
        Real(0)
    }

    /// IEEE-754 equality of two numbers.
    pub fn equals(&self, other: &Real) -> (r: bool)
        ensures
            r == self.same(*other),
    {
        let a = self.0;
        let b = other.0;
        let a_nan = (a / MANTISSA_SPAN) % 0x800 == 0x7ff && a % MANTISSA_SPAN != 0;
        (a == b && !a_nan) || (a % SIGN_BIT == 0 && b % SIGN_BIT == 0)
    }
}

/// The identifier of a canonical object.
#[derive(Clone, Debug)]
pub struct ObjectId(pub String);

impl View for ObjectId {
    type V = Seq<char>;

    open spec fn view(&self) -> Seq<char> {
        self.0@
    }
}

impl ObjectId {
    pub fn new(value: &str) -> (id: ObjectId)
        ensures
            id@ == value@,
    {
        ObjectId(String::from_str(value))
    }

    /// A second identifier with the same text.
    pub fn duplicate(&self) -> (id: ObjectId)
        ensures
            id@ == self@,
    {
        ObjectId(self.0.clone())
    }
}

/// A position in millimetres.
#[derive(Clone, Copy, Debug)]
pub struct Point {
    pub x_mm: Real,
    pub y_mm: Real,
}

impl Point {
    pub fn new(x_mm: Real, y_mm: Real) -> (p: Point)
        ensures
            p.x_mm == x_mm,
            p.y_mm == y_mm,
    {
        Point { x_mm, y_mm }
    }

    /// Both coordinates are equal as numbers.
    pub open spec fn same(self, other: Point) -> bool {
        self.x_mm.same(other.x_mm) && self.y_mm.same(other.y_mm)
    }
}

/// An angle in degrees.
#[derive(Clone, Copy, Debug)]
pub struct Rotation {
    pub degrees: Real,
}

impl Rotation {
    pub open spec fn same(self, other: Rotation) -> bool {
        self.degrees.same(other.degrees)
    }
}

/// A width and a height in millimetres.
#[derive(Clone, Copy, Debug)]
pub struct Size {
    pub width_mm: Real,
    pub height_mm: Real,
}

impl Size {
    pub fn new(width_mm: Real, height_mm: Real) -> (s: Size)
        ensures
            s.width_mm == width_mm,
            s.height_mm == height_mm,
    {
        Size { width_mm, height_mm }
    }

    pub open spec fn same(self, other: Size) -> bool {
        self.width_mm.same(other.width_mm) && self.height_mm.same(other.height_mm)
    }
}

/// The views of a sequence of points are equal as numbers, point by point.
pub open spec fn same_points(a: Seq<Point>, b: Seq<Point>) -> bool {
    &&& a.len() == b.len()
    &&& forall|i: int| 0 <= i < a.len() ==> (#[trigger] a[i]).same(b[i])
}

/// Two optional numbers are both absent, or both present and equal.
pub open spec fn same_optional_real(a: Option<Real>, b: Option<Real>) -> bool {
    match (a, b) {
        (None, None) => true,
        (Some(x), Some(y)) => x.same(y),
        _ => false,
    }
}

} // verus!
