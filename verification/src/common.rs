//! Small types shared by values and parsers.

use vstd::prelude::*;

verus! {

/// A binary operator of an expression.
#[derive(Debug, Clone, Copy, PartialEq, Eq, Structural)]
pub enum Op {
    Equal,
    NotEqual,
    GreaterThan,
    GreaterThanEqual,
    LessThan,
    LessThanEqual,
    Plus,
    Minus,
    Mul,
    Div,
    Rem,
}

impl Op {
    /// The operator as it is written.
    pub open spec fn text(self) -> Seq<char> {
        match self {
            Op::Equal => "=="@,
            Op::NotEqual => "!="@,
            Op::GreaterThan => ">"@,
            Op::GreaterThanEqual => ">="@,
            Op::LessThan => "<"@,
            Op::LessThanEqual => "<="@,
            Op::Plus => "+"@,
            Op::Minus => "-"@,
            Op::Mul => "*"@,
            Op::Div => "/"@,
            Op::Rem => "%"@,
        }
    }

    /// The operator as it is written.
    pub fn as_str(&self) -> (s: &'static str)
        ensures
            s@ == self.text(),
    {
        match self {
            Op::Equal => "==",
            Op::NotEqual => "!=",
            Op::GreaterThan => ">",
            Op::GreaterThanEqual => ">=",
            Op::LessThan => "<",
            Op::LessThanEqual => "<=",
            Op::Plus => "+",
            Op::Minus => "-",
            Op::Mul => "*",
            Op::Div => "/",
            Op::Rem => "%",
        }
    }
}

/// How a string was written.
#[derive(Debug, Clone, Copy, PartialEq, Eq, Structural)]
pub enum QuoteKind {
    /// Between `"`.
    Double,
    /// Between `'`.
    Single,
    /// Without quotes.
    Unquoted,
}

impl QuoteKind {
    /// The character the string is written between, if any.
    pub open spec fn mark(self) -> Seq<char> {
        match self {
            QuoteKind::Double => seq!['"'],
            QuoteKind::Single => seq!['\''],
            QuoteKind::Unquoted => Seq::empty(),
        }
    }
}

impl QuoteKind {
    /// The character the string is written between, if any.
    pub fn as_str(&self) -> (s: &'static str)
        ensures
            s@ == self.mark(),
    {
        match self {
            QuoteKind::Double => {
                proof {
                    reveal_strlit("\"");
                }
                assert("\""@ =~= seq!['"']);
                "\""
            },
            QuoteKind::Single => {
                proof {
                    reveal_strlit("'");
                }
                assert("'"@ =~= seq!['\'']);
                "'"
            },
            QuoteKind::Unquoted => {
                proof {
                    reveal_strlit("");
                }
                assert(""@ =~= Seq::<char>::empty());
                ""
            },
        }
    }
}

/// What stands between the members of a list.
#[derive(Debug, Clone, Copy, PartialEq, Eq, Structural)]
pub enum ListSeparator {
    Space,
    Comma,
}

impl ListSeparator {
    /// The text that is written between two members.
    pub open spec fn text(self) -> Seq<char> {
        match self {
            ListSeparator::Space => seq![' '],
            ListSeparator::Comma => seq![',', ' '],
        }
    }
}

impl ListSeparator {
    /// The text that is written between two members.
    pub fn as_str(&self) -> (s: &'static str)
        ensures
            s@ == self.text(),
    {
        match self {
            ListSeparator::Space => {
                proof {
                    reveal_strlit(" ");
                }
                assert(" "@ =~= seq![' ']);
                " "
            },
            ListSeparator::Comma => {
                proof {
                    reveal_strlit(", ");
                }
                assert(", "@ =~= seq![',', ' ']);
                ", "
            },
        }
    }
}

} // verus!
