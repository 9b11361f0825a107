//! Values as small integers, as the parts of a colour are given.

use vstd::prelude::*;
use crate::error::Failure;
use crate::error::SassError;
use crate::number::ratio_from_integer;
use crate::number::ratio_lt;
use crate::number::ratio_to_u16;
use crate::number::trunc_of;
use crate::unit::Unit;
use crate::value::Value;
use crate::value::ValueView;
use crate::value::evaluated;
use crate::value::text::css_text;

verus! {

/// The whole number from 0 to 255 that an evaluated value stands for: a
/// plain number without its fraction, and 255 for every number from 255 on.
/// A number with a unit and a value that is no number are failures that
/// quote the value.
pub open spec fn channel_of(w: ValueView) -> Result<int, Failure> {
    match w {
        ValueView::Dimension(n, u) => if u == Unit::Unitless {
            if n >= 255 as real {
                Ok(255)
            } else {
                Ok(trunc_of(n))
            }
        } else {
            match css_text(w) {
                Ok(t) => Err(Failure::NotUnitless { param: "val"@, found: t }),
                Err(f) => Err(f),
            }
        },
        _ => match css_text(w) {
            Ok(t) => Err(Failure::NotANumber { param: "val"@, found: t }),
            Err(f) => Err(f),
        },
    }
}

/// Whether `to_u16` can be asked for the evaluated value `w`: not for a
/// percentage, and not for a plain number of -1 or less.
pub open spec fn has_channel(w: ValueView) -> bool {
    match w {
        ValueView::Dimension(n, u) => u != Unit::Percent && !(u == Unit::Unitless && n <= (
        0 as real) - (1 as real)),
        _ => true,
    }
}

impl Value {
    /// The value as a whole number from 0 to 255, after evaluation.
    pub fn to_u16(&self) -> (r: Result<u16, SassError>)
        requires
            evaluated(self@) matches Ok(w) ==> has_channel(w),
        ensures
            match evaluated(self@) {
                Err(f) => r matches Err(e) && e@ == f,
                Ok(w) => match channel_of(w) {
                    Ok(k) => r matches Ok(x) && x == k && x <= 255,
                    Err(f) => r matches Err(e) && e@ == f,
                },
            },
    {
        let w = match self.eval() {
            Ok(w) => w,
            Err(e) => {
                return Err(e);
            },
        };
        match &w {
            Value::Dimension(n, Unit::Unitless) => {
                if ratio_lt(n, &ratio_from_integer(255)) {
                    Ok(ratio_to_u16(n))
                } else {
                    Ok(255)
                }
            },
            Value::Dimension(_, _) => match w.to_css_string() {
                Ok(found) => Err(SassError::NotUnitless { param: "val".to_owned(), found }),
                Err(e) => Err(e),
            },
            _ => match w.to_css_string() {
                Ok(found) => Err(SassError::NotANumber { param: "val".to_owned(), found }),
                Err(e) => Err(e),
            },
        }
    }
}

} // verus!
