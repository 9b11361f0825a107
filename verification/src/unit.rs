//! Units of measure and the classes within which they convert.

use vstd::prelude::*;
use crate::number::Number;
use crate::number::ratio_div;
use crate::number::ratio_mul;
use crate::number::ratio_new;

verus! {

/// The unit of a number.
#[derive(Debug, Clone, Copy, PartialEq, Eq, Structural)]
pub enum Unit {
    /// No unit at all.
    Unitless,
    /// `%`
    Percent,
    /// Pixels, `px`.
    Px,
    /// Inches, `in`.
    In,
    /// Centimetres, `cm`.
    Cm,
    /// Millimetres, `mm`.
    Mm,
    /// Quarter-millimetres, `q`.
    Q,
    /// Points, `pt`.
    Pt,
    /// Picas, `pc`.
    Pc,
    /// Degrees, `deg`.
    Deg,
    /// Gradians, `grad`.
    Grad,
    /// Turns, `turn`.
    Turn,
}

/// What a unit measures. Units of one class convert into each other.
#[derive(Debug, Clone, Copy, PartialEq, Eq, Structural)]
pub enum UnitClass {
    /// Plain numbers.
    Plain,
    /// Shares of something else: per cent.
    Relative,
    /// Lengths.
    Length,
    /// Angles.
    Angle,
}

impl Unit {
    /// The class of the unit.
    pub open spec fn class_of(self) -> UnitClass {
        match self {
            Unit::Unitless => UnitClass::Plain,
            Unit::Percent => UnitClass::Relative,
            Unit::Px | Unit::In | Unit::Cm | Unit::Mm | Unit::Q | Unit::Pt | Unit::Pc => {
                UnitClass::Length
            },
            Unit::Deg | Unit::Grad | Unit::Turn => UnitClass::Angle,
        }
    }

    /// Two units are comparable when they are of one class, or when one of
    /// them is no unit at all.
    pub open spec fn comparable_with(self, other: Unit) -> bool {
        self.class_of() == other.class_of() || self == Unit::Unitless || other == Unit::Unitless
    }

    /// The size of one of this unit, in pixels for a length and in degrees
    /// for an angle; 1 for the others.
    pub open spec fn scale(self) -> real {
        match self {
            Unit::Unitless | Unit::Percent | Unit::Px | Unit::Deg => 1 as real,
            Unit::In => 96 as real,
            Unit::Cm => (4800 as real) / (127 as real),
            Unit::Mm => (480 as real) / (127 as real),
            Unit::Q => (120 as real) / (127 as real),
            Unit::Pt => (4 as real) / (3 as real),
            Unit::Pc => 16 as real,
            Unit::Grad => (9 as real) / (10 as real),
            Unit::Turn => 360 as real,
        }
    }

    /// The letters a number of this unit is followed by.
    pub open spec fn suffix(self) -> Seq<char> {
        match self {
            Unit::Unitless => ""@,
            Unit::Percent => "%"@,
            Unit::Px => "px"@,
            Unit::In => "in"@,
            Unit::Cm => "cm"@,
            Unit::Mm => "mm"@,
            Unit::Q => "q"@,
            Unit::Pt => "pt"@,
            Unit::Pc => "pc"@,
            Unit::Deg => "deg"@,
            Unit::Grad => "grad"@,
            Unit::Turn => "turn"@,
        }
    }

    /// The class of the unit.
    pub fn class(&self) -> (c: UnitClass)
        ensures
            c == self.class_of(),
    {
        match self {
            Unit::Unitless => UnitClass::Plain,
            Unit::Percent => UnitClass::Relative,
            Unit::Px | Unit::In | Unit::Cm | Unit::Mm | Unit::Q | Unit::Pt | Unit::Pc => {
                UnitClass::Length
            },
            Unit::Deg | Unit::Grad | Unit::Turn => UnitClass::Angle,
        }
    }

    /// Whether numbers of the two units can be added and compared.
    pub fn comparable(&self, other: &Unit) -> (b: bool)
        ensures
            b == self.comparable_with(*other),
    {
        self.class() == other.class() || *self == Unit::Unitless || *other == Unit::Unitless
    }

    /// The letters a number of this unit is followed by.
    pub fn as_str(&self) -> (s: &'static str)
        ensures
            s@ == self.suffix(),
    {
        match self {
            Unit::Unitless => "",
            Unit::Percent => "%",
            Unit::Px => "px",
            Unit::In => "in",
            Unit::Cm => "cm",
            Unit::Mm => "mm",
            Unit::Q => "q",
            Unit::Pt => "pt",
            Unit::Pc => "pc",
            Unit::Deg => "deg",
            Unit::Grad => "grad",
            Unit::Turn => "turn",
        }
    }

    /// The size of one of this unit as a number.
    pub fn scale_number(&self) -> (n: Number)
        ensures
            n@ == self.scale(),
            n@ > 0 as real,
    {
        match self {
            Unit::Unitless | Unit::Percent | Unit::Px | Unit::Deg => ratio_new(1, 1),
            Unit::In => ratio_new(96, 1),
            Unit::Cm => ratio_new(4800, 127),
            Unit::Mm => ratio_new(480, 127),
            Unit::Q => ratio_new(120, 127),
            Unit::Pt => ratio_new(4, 3),
            Unit::Pc => ratio_new(16, 1),
            Unit::Grad => ratio_new(9, 10),
            Unit::Turn => ratio_new(360, 1),
        }
    }
}

/// Comparability does not depend on the order of the two units.
pub proof fn lemma_comparable_is_symmetric(a: Unit, b: Unit)
    ensures
        a.comparable_with(b) == b.comparable_with(a),
{
}

/// The amount `x` of unit `from`, measured in unit `to` of the same class.
pub open spec fn converted(x: real, from: Unit, to: Unit) -> real {
    if from == to {
        x
    } else {
        x * from.scale() / to.scale()
    }
}

/// Measures the amount `x` of unit `from` in unit `to`.
pub fn convert(x: &Number, from: Unit, to: Unit) -> (r: Number)
    ensures
        r@ == converted(x@, from, to),
{
    if from == to {
        x.clone()
    } else {
        let up = ratio_mul(x, &from.scale_number());
        ratio_div(&up, &to.scale_number())
    }
}

} // verus!
