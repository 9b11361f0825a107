//! The expression and argument core of a style-sheet preprocessor: exact,
//! unit-aware values and the binding of call-site arguments to declared
//! parameters. Statements, selectors and the printing of whole style sheets
//! are not part of this crate.

use vstd::prelude::*;
use crate::error::Failure;
use crate::error::SassError;
use crate::error::SyntaxError;
use crate::scope::Scope;
use crate::selector::Selector;
use crate::token::TokenCursor;
use crate::token::lex;
use crate::token::lexed;
use crate::utils::skip_whitespace;
use crate::utils::whitespace_end;
use crate::value::Value;
use crate::value::parse::comma_at;
use crate::value::text::css_text;

pub mod args;
pub mod bind;
pub mod builtin;
pub mod color;
pub mod common;
pub mod error;
pub mod number;
pub mod scope;
pub mod selector;
pub mod token;
pub mod unit;
pub mod utils;
pub mod value;

verus! {

/// The style-sheet text of the one value that `text` holds. Nothing but
/// blanks may stand before and behind the value; it is read without
/// variables and outside every selector.
pub open spec fn rendered(text: Seq<char>) -> Result<Seq<char>, Failure> {
    let s = lexed(text);
    match comma_at(s, whitespace_end(s, 0), Map::empty(), Seq::empty()) {
        Err(f) => Err(f),
        Ok(p) => if whitespace_end(s, p.end) >= s.len() {
            css_text(p.value)
        } else {
            Err(Failure::Syntax(SyntaxError::UnexpectedToken))
        },
    }
}

/// Reads the one value that `text` holds and writes it as it stands in a
/// style sheet, evaluated. Statements, rules and selectors are not read:
/// a text that holds more than a value is a failure.
pub fn render_value(text: &str) -> (r: Result<String, SassError>)
    ensures
        match rendered(text@) {
            Ok(t) => r matches Ok(s) && s@ == t,
            Err(f) => r matches Err(e) && e@ == f,
        },
{
    let mut toks = TokenCursor::new(lex(text));
    let value = match Value::from_tokens(&mut toks, &Scope::new(), &Selector::new()) {
        Ok(v) => v,
        Err(e) => {
            return Err(e);
        },
    };
    let end = toks.pos();
    if skip_whitespace(toks.as_vec(), end) < toks.as_vec().len() {
        return Err(SassError::Syntax(SyntaxError::UnexpectedToken));
    }
    value.to_css_string()
}

} // verus!
