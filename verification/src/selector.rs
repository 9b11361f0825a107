//! The selector in effect where a value is evaluated.

use vstd::prelude::*;

verus! {

/// The enclosing selector, as it is written. Nothing here looks into it:
/// it is handed on to where `&` stands for it.
#[derive(Debug, Clone, PartialEq, Eq)]
pub struct Selector {
    pub text: String,
}

impl Selector {
    /// No selector: the top of the style sheet.
    pub fn new() -> (s: Selector)
        ensures
            s.text@ == Seq::<char>::empty(),
    {
        Selector { text: String::new() }
    }
}

} // verus!
