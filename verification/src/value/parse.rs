//! Reading a value from tokens.
//!
//! A value is a list of items separated by commas; an item is a list of
//! expressions separated by blanks; an expression is a chain of operands
//! joined by operators, which groups to the right. A list of one member is
//! that member itself, unless a comma follows it.

use vstd::prelude::*;
use crate::common::ListSeparator;
use crate::common::Op;
use crate::common::QuoteKind;
use crate::error::Failure;
use crate::error::SassError;
use crate::error::SyntaxError;
use crate::number::Number;
use crate::number::ratio_add;
use crate::number::ratio_div;
use crate::number::ratio_from_integer;
use crate::number::ratio_mul;
use crate::number::ratio_sub;
use crate::scope::Scope;
use crate::selector::Selector;
use crate::token::Token;
use crate::token::TokenCursor;
use crate::token::kinds;
use crate::unit::Unit;
use crate::utils::char_is_name;
use crate::utils::char_is_whitespace;
use crate::utils::ident_end;
use crate::utils::is_name_char;
use crate::utils::is_quote;
use crate::utils::is_whitespace;
use crate::utils::lemma_whitespace_end;
use crate::utils::name_of;
use crate::utils::quote_len;
use crate::utils::read_name;
use crate::utils::skip_ident;
use crate::utils::skip_whitespace;
use crate::utils::string_from_chars;
use crate::utils::whitespace_end;
use crate::value::Value;
use crate::value::ValueView;
use crate::value::views;

verus! {

/// The decimal digits.
pub open spec fn is_digit(c: char) -> bool {
    '0' <= c && c <= '9'
}

/// The number a digit stands for.
pub open spec fn digit_value(c: char) -> real {
    (c as u32 - 48) as real
}

/// The index just past the digits that start at `i`.
pub open spec fn digits_end(s: Seq<Token>, i: int) -> int
    decreases s.len() - i,
{
    if 0 <= i < s.len() && is_digit(s[i].kind) {
        digits_end(s, i + 1)
    } else {
        i
    }
}

/// The whole number written by the digits from `from` up to `to`.
pub open spec fn whole_value(s: Seq<Token>, from: int, to: int) -> real
    decreases to - from,
{
    if to <= from {
        0 as real
    } else {
        whole_value(s, from, to - 1) * (10 as real) + digit_value(s[to - 1].kind)
    }
}

/// The fraction written by the digits from `from` up to `to`, which stand
/// behind a decimal point.
pub open spec fn fraction_value(s: Seq<Token>, from: int, to: int) -> real
    decreases to - from,
{
    if to <= from {
        0 as real
    } else {
        (digit_value(s[from].kind) + fraction_value(s, from + 1, to)) / (10 as real)
    }
}

/// Whether a number is written at `i`: digits, or a decimal point and
/// digits, with or without a `-` in front.
pub open spec fn starts_number(s: Seq<Token>, i: int) -> bool {
    let j = if 0 <= i < s.len() && s[i].kind == '-' {
        i + 1
    } else {
        i
    };
    0 <= j < s.len() && (is_digit(s[j].kind) || (s[j].kind == '.' && j + 1 < s.len() && is_digit(
        s[j + 1].kind,
    )))
}

/// A number read from tokens, with the index just past it.
pub struct NumberSpan {
    pub value: real,
    pub end: int,
}

/// The number written at `i`.
pub open spec fn number_at(s: Seq<Token>, i: int) -> NumberSpan {
    let negative = s[i].kind == '-';
    let a = if negative {
        i + 1
    } else {
        i
    };
    let b = digits_end(s, a);
    let has_fraction = b + 1 < s.len() && s[b].kind == '.' && is_digit(s[b + 1].kind);
    let c = if has_fraction {
        digits_end(s, b + 1)
    } else {
        b
    };
    let magnitude = if has_fraction {
        whole_value(s, a, b) + fraction_value(s, b + 1, c)
    } else {
        whole_value(s, a, b)
    };
    NumberSpan {
        value: if negative {
            (0 as real) - magnitude
        } else {
            magnitude
        },
        end: c,
    }
}

/// The letters of the alphabet, small and capital.
pub open spec fn is_letter(c: char) -> bool {
    ('a' <= c && c <= 'z') || ('A' <= c && c <= 'Z')
}

/// The index just past the letters that start at `i`.
pub open spec fn letters_end(s: Seq<Token>, i: int) -> int
    decreases s.len() - i,
{
    if 0 <= i < s.len() && is_letter(s[i].kind) {
        letters_end(s, i + 1)
    } else {
        i
    }
}

/// The unit that is written with the letters `text`.
pub open spec fn unit_named(text: Seq<char>) -> Option<Unit> {
    if text == Unit::Px.suffix() {
        Some(Unit::Px)
    } else if text == Unit::In.suffix() {
        Some(Unit::In)
    } else if text == Unit::Cm.suffix() {
        Some(Unit::Cm)
    } else if text == Unit::Mm.suffix() {
        Some(Unit::Mm)
    } else if text == Unit::Q.suffix() {
        Some(Unit::Q)
    } else if text == Unit::Pt.suffix() {
        Some(Unit::Pt)
    } else if text == Unit::Pc.suffix() {
        Some(Unit::Pc)
    } else if text == Unit::Deg.suffix() {
        Some(Unit::Deg)
    } else if text == Unit::Grad.suffix() {
        Some(Unit::Grad)
    } else if text == Unit::Turn.suffix() {
        Some(Unit::Turn)
    } else {
        None
    }
}

/// The unit written at `i`, just past a number, with the index just past
/// it: `%`, the letters of a unit, or nothing.
pub open spec fn unit_at(s: Seq<Token>, i: int) -> Result<(Unit, int), Failure> {
    let e = letters_end(s, i);
    if 0 <= i < s.len() && s[i].kind == '%' {
        Ok((Unit::Percent, i + 1))
    } else if e == i {
        Ok((Unit::Unitless, i))
    } else {
        match unit_named(kinds(s.subrange(i, e))) {
            Some(u) => Ok((u, e)),
            None => Err(Failure::Syntax(SyntaxError::UnknownUnit)),
        }
    }
}

/// Whether the quoted string whose opening quote `q` lies just before `i`
/// has its closing quote.
pub open spec fn quote_closed(s: Seq<Token>, i: int, q: char) -> bool
    decreases s.len() - i,
{
    if i < 0 || i >= s.len() {
        false
    } else if s[i].kind == q {
        true
    } else if s[i].kind == '\\' && i + 1 < s.len() {
        quote_closed(s, i + 2, q)
    } else {
        quote_closed(s, i + 1, q)
    }
}

/// The value that a bare word stands for.
pub open spec fn word_value(text: Seq<char>) -> ValueView {
    if text == "true"@ {
        ValueView::True
    } else if text == "false"@ {
        ValueView::False
    } else if text == "null"@ {
        ValueView::Null
    } else {
        ValueView::Ident(text, QuoteKind::Unquoted)
    }
}

/// Whether a value ends before the token `c`.
pub open spec fn is_terminator(c: char) -> bool {
    c == ',' || c == ')' || c == ']' || c == ';' || c == '{' || c == '}'
}

/// The operator written at `k`, with the number of tokens it takes.
/// `spaced` says whether blanks stand before `k`: then a `+` or `-` that
/// touches what follows it is the sign of the next list member, and no
/// operator.
pub open spec fn operator_at(s: Seq<Token>, k: int, spaced: bool) -> Option<(Op, int)> {
    if k < 0 || k >= s.len() {
        None
    } else {
        let c = s[k].kind;
        let followed_by_equals = k + 1 < s.len() && s[k + 1].kind == '=';
        if c == '+' || c == '-' {
            if spaced && k + 1 < s.len() && !is_whitespace(s[k + 1].kind) {
                None
            } else if c == '+' {
                Some((Op::Plus, 1))
            } else {
                Some((Op::Minus, 1))
            }
        } else if c == '*' {
            Some((Op::Mul, 1))
        } else if c == '/' {
            Some((Op::Div, 1))
        } else if c == '%' {
            Some((Op::Rem, 1))
        } else if c == '=' {
            if followed_by_equals {
                Some((Op::Equal, 2))
            } else {
                None
            }
        } else if c == '!' {
            if followed_by_equals {
                Some((Op::NotEqual, 2))
            } else {
                None
            }
        } else if c == '<' {
            if followed_by_equals {
                Some((Op::LessThanEqual, 2))
            } else {
                Some((Op::LessThan, 1))
            }
        } else if c == '>' {
            if followed_by_equals {
                Some((Op::GreaterThanEqual, 2))
            } else {
                Some((Op::GreaterThan, 1))
            }
        } else {
            None
        }
    }
}

/// A value read from tokens, with the index just past it.
pub struct Parsed {
    pub value: ValueView,
    pub end: int,
}

/// The members of a list read from tokens, the index just past the last,
/// and whether a comma was read.
pub struct ParsedItems {
    pub items: Seq<ValueView>,
    pub end: int,
    pub comma: bool,
}

/// The operand written at `i`: a number with its unit, a variable, a value
/// in parentheses, a quoted string, `!important`, `&`, or a bare word.
pub open spec fn single_at(
    s: Seq<Token>,
    i: int,
    scope: Map<Seq<char>, ValueView>,
    selector: Seq<char>,
) -> Result<Parsed, Failure>
    decreases s.len() - i, 0int,
{
    if i < 0 || i >= s.len() {
        Err(Failure::Syntax(SyntaxError::ExpectedExpression))
    } else if starts_number(s, i) {
        let n = number_at(s, i);
        match unit_at(s, n.end) {
            Ok((u, e)) => Ok(Parsed { value: ValueView::Dimension(n.value, u), end: e }),
            Err(f) => Err(f),
        }
    } else if s[i].kind == '$' {
        let e = ident_end(s, i + 1);
        let name = name_of(s, i + 1, e);
        if e == i + 1 {
            Err(Failure::Syntax(SyntaxError::ExpectedIdentifier))
        } else if scope.contains_key(name) {
            Ok(Parsed { value: scope[name], end: e })
        } else {
            Err(Failure::UndefinedVariable(name))
        }
    } else if s[i].kind == '(' {
        let a = whitespace_end(s, i + 1);
        proof {
            lemma_whitespace_end(s, i + 1);
        }
        match comma_at(s, a, scope, selector) {
            Err(f) => Err(f),
            Ok(p) => {
                let k = whitespace_end(s, p.end);
                if 0 <= k < s.len() && s[k].kind == ')' {
                    Ok(Parsed { value: ValueView::Paren(Box::new(p.value)), end: k + 1 })
                } else {
                    Err(Failure::Syntax(SyntaxError::ExpectedCloseParen))
                }
            },
        }
    } else if is_quote(s[i].kind) {
        let n = quote_len(s, i + 1, s[i].kind);
        if quote_closed(s, i + 1, s[i].kind) {
            Ok(
                Parsed {
                    value: ValueView::Ident(
                        kinds(s.subrange(i + 1, i + n)),
                        if s[i].kind == '"' {
                            QuoteKind::Double
                        } else {
                            QuoteKind::Single
                        },
                    ),
                    end: i + 1 + n,
                },
            )
        } else {
            Err(Failure::Syntax(SyntaxError::UnexpectedEof))
        }
    } else if s[i].kind == '!' {
        let e = ident_end(s, i + 1);
        if kinds(s.subrange(i + 1, e)) == "important"@ {
            Ok(Parsed { value: ValueView::Important, end: e })
        } else {
            Err(Failure::Syntax(SyntaxError::ExpectedExpression))
        }
    } else if s[i].kind == '&' {
        Ok(Parsed { value: ValueView::Ident(selector, QuoteKind::Unquoted), end: i + 1 })
    } else if is_name_char(s[i].kind) {
        let e = ident_end(s, i);
        Ok(Parsed { value: word_value(kinds(s.subrange(i, e))), end: e })
    } else {
        Err(Failure::Syntax(SyntaxError::ExpectedExpression))
    }
}

/// The expression written at `i`: an operand, or an operand, an operator
/// and the expression that follows it.
pub open spec fn expr_at(
    s: Seq<Token>,
    i: int,
    scope: Map<Seq<char>, ValueView>,
    selector: Seq<char>,
) -> Result<Parsed, Failure>
    decreases s.len() - i, 1int,
{
    match single_at(s, i, scope, selector) {
        Err(f) => Err(f),
        Ok(left) => {
            let k = whitespace_end(s, left.end);
            if !(0 <= i < left.end <= s.len()) {
                Err(Failure::Syntax(SyntaxError::ExpectedExpression))
            } else {
                match operator_at(s, k, k > left.end) {
                    None => Ok(left),
                    Some((op, n)) => {
                        proof {
                            lemma_whitespace_end(s, left.end);
                            lemma_whitespace_end(s, k + n);
                        }
                        match expr_at(s, whitespace_end(s, k + n), scope, selector) {
                            Err(f) => Err(f),
                            Ok(right) => Ok(
                                Parsed {
                                    value: ValueView::BinaryOp(
                                        Box::new(left.value),
                                        op,
                                        Box::new(right.value),
                                    ),
                                    end: right.end,
                                },
                            ),
                        }
                    },
                }
            }
        },
    }
}

/// The expressions written from `i` on, up to the end of the tokens or a
/// token that ends a value.
pub open spec fn space_items(
    s: Seq<Token>,
    i: int,
    scope: Map<Seq<char>, ValueView>,
    selector: Seq<char>,
) -> Result<ParsedItems, Failure>
    decreases s.len() - i, 2int,
{
    match expr_at(s, i, scope, selector) {
        Err(f) => Err(f),
        Ok(first) => {
            let k = whitespace_end(s, first.end);
            if !(0 <= i < first.end <= s.len()) {
                Err(Failure::Syntax(SyntaxError::ExpectedExpression))
            } else if k >= s.len() || is_terminator(s[k].kind) {
                Ok(ParsedItems { items: seq![first.value], end: first.end, comma: false })
            } else {
                proof {
                    lemma_whitespace_end(s, first.end);
                }
                match space_items(s, k, scope, selector) {
                    Err(f) => Err(f),
                    Ok(rest) => Ok(
                        ParsedItems {
                            items: seq![first.value] + rest.items,
                            end: rest.end,
                            comma: false,
                        },
                    ),
                }
            }
        },
    }
}

/// The item written at `i`: the one expression, or the list of the
/// expressions that blanks separate.
pub open spec fn space_at(
    s: Seq<Token>,
    i: int,
    scope: Map<Seq<char>, ValueView>,
    selector: Seq<char>,
) -> Result<Parsed, Failure>
    decreases s.len() - i, 3int,
{
    match space_items(s, i, scope, selector) {
        Err(f) => Err(f),
        Ok(p) => Ok(
            Parsed {
                value: if p.items.len() == 1 {
                    p.items[0]
                } else {
                    ValueView::List(p.items, ListSeparator::Space)
                },
                end: p.end,
            },
        ),
    }
}

/// The items written from `i` on with commas between them. A comma may
/// follow the last item.
pub open spec fn comma_items(
    s: Seq<Token>,
    i: int,
    scope: Map<Seq<char>, ValueView>,
    selector: Seq<char>,
) -> Result<ParsedItems, Failure>
    decreases s.len() - i, 4int,
{
    match space_at(s, i, scope, selector) {
        Err(f) => Err(f),
        Ok(first) => {
            let k = whitespace_end(s, first.end);
            let a = whitespace_end(s, k + 1);
            if !(0 <= i < first.end <= s.len()) {
                Err(Failure::Syntax(SyntaxError::ExpectedExpression))
            } else if !(k < s.len() && s[k].kind == ',') {
                Ok(ParsedItems { items: seq![first.value], end: first.end, comma: false })
            } else if a >= s.len() || is_terminator(s[a].kind) {
                Ok(ParsedItems { items: seq![first.value], end: a, comma: true })
            } else {
                proof {
                    lemma_whitespace_end(s, first.end);
                    lemma_whitespace_end(s, k + 1);
                }
                match comma_items(s, a, scope, selector) {
                    Err(f) => Err(f),
                    Ok(rest) => Ok(
                        ParsedItems {
                            items: seq![first.value] + rest.items,
                            end: rest.end,
                            comma: true,
                        },
                    ),
                }
            }
        },
    }
}

/// The value written at `i`: the one item, or the list of the items that
/// commas separate.
pub open spec fn comma_at(
    s: Seq<Token>,
    i: int,
    scope: Map<Seq<char>, ValueView>,
    selector: Seq<char>,
) -> Result<Parsed, Failure>
    decreases s.len() - i, 5int,
{
    match comma_items(s, i, scope, selector) {
        Err(f) => Err(f),
        Ok(p) => Ok(
            Parsed {
                value: if p.comma {
                    ValueView::List(p.items, ListSeparator::Comma)
                } else {
                    p.items[0]
                },
                end: p.end,
            },
        ),
    }
}

/// The value that the tokens `s` are read as, from their first token that
/// is not blank. What follows the value is not looked at.
pub open spec fn value_of(
    s: Seq<Token>,
    scope: Map<Seq<char>, ValueView>,
    selector: Seq<char>,
) -> Result<ValueView, Failure> {
    match comma_at(s, whitespace_end(s, 0), scope, selector) {
        Err(f) => Err(f),
        Ok(p) => Ok(p.value),
    }
}


/// A run of digits stays within the tokens and holds digits only.
pub proof fn lemma_digits_end(s: Seq<Token>, i: int)
    requires
        0 <= i <= s.len(),
    ensures
        i <= digits_end(s, i) <= s.len(),
        forall|k: int| i <= k < digits_end(s, i) ==> is_digit(#[trigger] s[k].kind),
    decreases s.len() - i,
{
    if i < s.len() && is_digit(s[i].kind) {
        lemma_digits_end(s, i + 1);
    }
}

fn char_is_digit(c: char) -> (b: bool)
    ensures
        b == is_digit(c),
{
    '0' <= c && c <= '9'
}

/// Whether the tokens from `from` up to `to` spell `text`.
fn span_is(toks: &Vec<Token>, from: usize, to: usize, text: &str) -> (b: bool)
    requires
        from <= to <= toks.len(),
    ensures
        b == (kinds(toks@.subrange(from as int, to as int)) == text@),
{
    let n = text.unicode_len();
    let ghost span = kinds(toks@.subrange(from as int, to as int));
    if to - from != n {
        assert(span.len() != text@.len());
        return false;
    }
    let mut k: usize = 0;
    while k < n
        invariant
            k <= n,
            n == text@.len(),
            n == to - from,
            from <= to <= toks.len(),
            span == kinds(toks@.subrange(from as int, to as int)),
            forall|j: int| 0 <= j < k ==> span[j] == text@[j],
        decreases n - k,
    {
        if toks[from + k].kind != text.get_char(k) {
            assert(span[k as int] != text@[k as int]);
            return false;
        }
        k = k + 1;
    }
    assert(span =~= text@);
    true
}

/// The characters of the tokens from `from` up to `to`.
fn span_text(toks: &Vec<Token>, from: usize, to: usize) -> (text: String)
    requires
        from <= to <= toks.len(),
    ensures
        text@ == kinds(toks@.subrange(from as int, to as int)),
{
    let mut chars: Vec<char> = Vec::new();
    let mut k = from;
    while k < to
        invariant
            from <= k <= to <= toks.len(),
            chars@ == kinds(toks@.subrange(from as int, k as int)),
        decreases to - k,
    {
        chars.push(toks[k].kind);
        k = k + 1;
        assert(chars@ =~= kinds(toks@.subrange(from as int, k as int)));
    }
    string_from_chars(&chars)
}

fn skip_digits(toks: &Vec<Token>, i: usize) -> (j: usize)
    requires
        i <= toks.len(),
    ensures
        j == digits_end(toks@, i as int),
        i <= j <= toks.len(),
        forall|k: int| i <= k < j ==> is_digit(#[trigger] toks[k].kind),
{
    proof {
        lemma_digits_end(toks@, i as int);
    }
    let mut j = i;
    while j < toks.len() && char_is_digit(toks[j].kind)
        invariant
            i <= j <= toks.len(),
            digits_end(toks@, i as int) == digits_end(toks@, j as int),
        decreases toks.len() - j,
    {
        j = j + 1;
    }
    j
}

fn skip_letters(toks: &Vec<Token>, i: usize) -> (j: usize)
    requires
        i <= toks.len(),
    ensures
        j == letters_end(toks@, i as int),
        i <= j <= toks.len(),
{
    let mut j = i;
    while j < toks.len() && (('a' <= toks[j].kind && toks[j].kind <= 'z') || ('A' <= toks[j].kind
        && toks[j].kind <= 'Z'))
        invariant
            i <= j <= toks.len(),
            letters_end(toks@, i as int) == letters_end(toks@, j as int),
        decreases toks.len() - j,
    {
        j = j + 1;
    }
    j
}

fn digit_number(c: char) -> (n: Number)
    requires
        is_digit(c),
    ensures
        n@ == digit_value(c),
{
    let d: u32 = c as u32 - 48;
    ratio_from_integer(d as i64)
}

fn read_whole(toks: &Vec<Token>, from: usize, to: usize) -> (n: Number)
    requires
        from <= to <= toks.len(),
        forall|k: int| from <= k < to ==> is_digit(#[trigger] toks[k].kind),
    ensures
        n@ == whole_value(toks@, from as int, to as int),
{
    let ten = ratio_from_integer(10);
    let mut acc = ratio_from_integer(0);
    let mut k = from;
    while k < to
        invariant
            from <= k <= to <= toks.len(),
            forall|j: int| from <= j < to ==> is_digit(#[trigger] toks[j].kind),
            ten@ == 10 as real,
            acc@ == whole_value(toks@, from as int, k as int),
        decreases to - k,
    {
        let shifted = ratio_mul(&acc, &ten);
        acc = ratio_add(&shifted, &digit_number(toks[k].kind));
        k = k + 1;
    }
    acc
}

fn read_fraction(toks: &Vec<Token>, from: usize, to: usize) -> (n: Number)
    requires
        from <= to <= toks.len(),
        forall|k: int| from <= k < to ==> is_digit(#[trigger] toks[k].kind),
    ensures
        n@ == fraction_value(toks@, from as int, to as int),
{
    let ten = ratio_from_integer(10);
    let mut acc = ratio_from_integer(0);
    let mut k = to;
    while k > from
        invariant
            from <= k <= to <= toks.len(),
            forall|j: int| from <= j < to ==> is_digit(#[trigger] toks[j].kind),
            ten@ == 10 as real,
            acc@ == fraction_value(toks@, k as int, to as int),
        decreases k - from,
    {
        k = k - 1;
        let sum = ratio_add(&digit_number(toks[k].kind), &acc);
        acc = ratio_div(&sum, &ten);
    }
    acc
}

fn is_number_start(toks: &Vec<Token>, i: usize) -> (b: bool)
    requires
        i < toks.len(),
    ensures
        b == starts_number(toks@, i as int),
{
    let j = if toks[i].kind == '-' {
        i + 1
    } else {
        i
    };
    j < toks.len() && (char_is_digit(toks[j].kind) || (toks[j].kind == '.' && toks.len() - j > 1
        && char_is_digit(toks[j + 1].kind)))
}

fn parse_number(toks: &Vec<Token>, i: usize) -> (r: (Number, usize))
    requires
        i < toks.len(),
        starts_number(toks@, i as int),
    ensures
        r.0@ == number_at(toks@, i as int).value,
        r.1 == number_at(toks@, i as int).end,
        i < r.1 <= toks.len(),
{
    let negative = toks[i].kind == '-';
    let a = if negative {
        i + 1
    } else {
        i
    };
    let b = skip_digits(toks, a);
    let has_fraction = toks.len() - b > 1 && toks[b].kind == '.' && char_is_digit(
        toks[b + 1].kind,
    );
    let whole = read_whole(toks, a, b);
    let (magnitude, end) = if has_fraction {
        let c = skip_digits(toks, b + 1);
        (ratio_add(&whole, &read_fraction(toks, b + 1, c)), c)
    } else {
        (whole, b)
    };
    proof {
        if has_fraction {
            assert(is_digit(toks@[b + 1].kind));
            lemma_digits_end(toks@, b + 2);
        } else {
            assert(is_digit(toks@[a as int].kind));
            lemma_digits_end(toks@, a + 1);
        }
    }
    if negative {
        (ratio_sub(&ratio_from_integer(0), &magnitude), end)
    } else {
        (magnitude, end)
    }
}

fn parse_unit(toks: &Vec<Token>, i: usize) -> (r: Result<(Unit, usize), SassError>)
    requires
        i <= toks.len(),
    ensures
        match unit_at(toks@, i as int) {
            Ok((u, e)) => r matches Ok((w, f)) && w == u && f == e && i <= f <= toks.len(),
            Err(f) => r matches Err(x) && x@ == f,
        },
{
    if i < toks.len() && toks[i].kind == '%' {
        return Ok((Unit::Percent, i + 1));
    }
    let e = skip_letters(toks, i);
    if e == i {
        return Ok((Unit::Unitless, i));
    }
    if span_is(toks, i, e, Unit::Px.as_str()) {
        Ok((Unit::Px, e))
    } else if span_is(toks, i, e, Unit::In.as_str()) {
        Ok((Unit::In, e))
    } else if span_is(toks, i, e, Unit::Cm.as_str()) {
        Ok((Unit::Cm, e))
    } else if span_is(toks, i, e, Unit::Mm.as_str()) {
        Ok((Unit::Mm, e))
    } else if span_is(toks, i, e, Unit::Q.as_str()) {
        Ok((Unit::Q, e))
    } else if span_is(toks, i, e, Unit::Pt.as_str()) {
        Ok((Unit::Pt, e))
    } else if span_is(toks, i, e, Unit::Pc.as_str()) {
        Ok((Unit::Pc, e))
    } else if span_is(toks, i, e, Unit::Deg.as_str()) {
        Ok((Unit::Deg, e))
    } else if span_is(toks, i, e, Unit::Grad.as_str()) {
        Ok((Unit::Grad, e))
    } else if span_is(toks, i, e, Unit::Turn.as_str()) {
        Ok((Unit::Turn, e))
    } else {
        Err(SassError::Syntax(SyntaxError::UnknownUnit))
    }
}

/// The index of the quote that closes the string whose opening quote `q`
/// lies just before `i`.
fn closing_quote(toks: &Vec<Token>, i: usize, q: char) -> (r: Option<usize>)
    requires
        i <= toks.len(),
    ensures
        match r {
            Some(j) => quote_closed(toks@, i as int, q) && j + 1 == i + quote_len(
                toks@,
                i as int,
                q,
            ) && i <= j < toks.len(),
            None => !quote_closed(toks@, i as int, q),
        },
{
    let mut j = i;
    loop
        invariant_except_break
            i <= j <= toks.len(),
            i + quote_len(toks@, i as int, q) == j + quote_len(toks@, j as int, q),
            quote_closed(toks@, i as int, q) == quote_closed(toks@, j as int, q),
        ensures
            i <= j <= toks.len(),
            j < toks.len() ==> quote_closed(toks@, i as int, q) && j + 1 == i + quote_len(
                toks@,
                i as int,
                q,
            ),
            j == toks.len() ==> !quote_closed(toks@, i as int, q),
        decreases toks.len() - j,
    {
        if j >= toks.len() {
            break ;
        }
        let c = toks[j].kind;
        if c == q {
            break ;
        } else if c == '\\' && toks.len() - j > 1 {
            j = j + 2;
        } else {
            j = j + 1;
        }
    }
    if j < toks.len() {
        Some(j)
    } else {
        None
    }
}

fn char_is_terminator(c: char) -> (b: bool)
    ensures
        b == is_terminator(c),
{
    c == ',' || c == ')' || c == ']' || c == ';' || c == '{' || c == '}'
}

fn parse_operator(toks: &Vec<Token>, k: usize, spaced: bool) -> (r: Option<(Op, usize)>)
    requires
        k <= toks.len(),
    ensures
        match operator_at(toks@, k as int, spaced) {
            Some((op, n)) => r == Some((op, n as usize)) && 1 <= n && k + n <= toks.len(),
            None => r is None,
        },
{
    if k >= toks.len() {
        return None;
    }
    let c = toks[k].kind;
    let followed_by_equals = toks.len() - k > 1 && toks[k + 1].kind == '=';
    if c == '+' || c == '-' {
        if spaced && toks.len() - k > 1 && !char_is_whitespace(toks[k + 1].kind) {
            None
        } else if c == '+' {
            Some((Op::Plus, 1))
        } else {
            Some((Op::Minus, 1))
        }
    } else if c == '*' {
        Some((Op::Mul, 1))
    } else if c == '/' {
        Some((Op::Div, 1))
    } else if c == '%' {
        Some((Op::Rem, 1))
    } else if c == '=' {
        if followed_by_equals {
            Some((Op::Equal, 2))
        } else {
            None
        }
    } else if c == '!' {
        if followed_by_equals {
            Some((Op::NotEqual, 2))
        } else {
            None
        }
    } else if c == '<' {
        if followed_by_equals {
            Some((Op::LessThanEqual, 2))
        } else {
            Some((Op::LessThan, 1))
        }
    } else if c == '>' {
        if followed_by_equals {
            Some((Op::GreaterThanEqual, 2))
        } else {
            Some((Op::GreaterThan, 1))
        }
    } else {
        None
    }
}

fn parse_word(toks: &Vec<Token>, from: usize, to: usize) -> (v: Value)
    requires
        from <= to <= toks.len(),
    ensures
        v@ == word_value(kinds(toks@.subrange(from as int, to as int))),
{
    if span_is(toks, from, to, "true") {
        Value::True
    } else if span_is(toks, from, to, "false") {
        Value::False
    } else if span_is(toks, from, to, "null") {
        Value::Null
    } else {
        Value::Ident(span_text(toks, from, to), QuoteKind::Unquoted)
    }
}

fn parse_single(toks: &Vec<Token>, i: usize, scope: &Scope, selector: &Selector) -> (r: Result<
    (Value, usize),
    SassError,
>)
    requires
        i <= toks.len(),
    ensures
        match single_at(toks@, i as int, scope@, selector.text@) {
            Ok(p) => r matches Ok((v, e)) && v@ == p.value && e == p.end && e <= toks.len(),
            Err(f) => r matches Err(x) && x@ == f,
        },
    decreases toks.len() - i, 0int,
{
    if i >= toks.len() {
        return Err(SassError::Syntax(SyntaxError::ExpectedExpression));
    }
    let c = toks[i].kind;
    if is_number_start(toks, i) {
        let (n, end) = parse_number(toks, i);
        match parse_unit(toks, end) {
            Ok((u, e)) => Ok((Value::Dimension(n, u), e)),
            Err(f) => Err(f),
        }
    } else if c == '$' {
        let e = skip_ident(toks, i + 1);
        if e == i + 1 {
            return Err(SassError::Syntax(SyntaxError::ExpectedIdentifier));
        }
        let name = read_name(toks, i + 1, e);
        match scope.get_var(&name) {
            Some(v) => Ok((v, e)),
            None => Err(SassError::UndefinedVariable(name)),
        }
    } else if c == '(' {
        let a = skip_whitespace(toks, i + 1);
        match parse_comma(toks, a, scope, selector) {
            Err(f) => Err(f),
            Ok((v, end)) => {
                let k = skip_whitespace(toks, end);
                if k < toks.len() && toks[k].kind == ')' {
                    Ok((Value::Paren(Box::new(v)), k + 1))
                } else {
                    Err(SassError::Syntax(SyntaxError::ExpectedCloseParen))
                }
            },
        }
    } else if c == '"' || c == '\'' {
        match closing_quote(toks, i + 1, c) {
            Some(j) => Ok(
                (
                    Value::Ident(
                        span_text(toks, i + 1, j),
                        if c == '"' {
                            QuoteKind::Double
                        } else {
                            QuoteKind::Single
                        },
                    ),
                    j + 1,
                ),
            ),
            None => Err(SassError::Syntax(SyntaxError::UnexpectedEof)),
        }
    } else if c == '!' {
        let e = skip_ident(toks, i + 1);
        if span_is(toks, i + 1, e, "important") {
            Ok((Value::Important, e))
        } else {
            Err(SassError::Syntax(SyntaxError::ExpectedExpression))
        }
    } else if c == '&' {
        Ok((Value::Ident(selector.text.clone(), QuoteKind::Unquoted), i + 1))
    } else if char_is_name(c) {
        let e = skip_ident(toks, i);
        Ok((parse_word(toks, i, e), e))
    } else {
        Err(SassError::Syntax(SyntaxError::ExpectedExpression))
    }
}

fn parse_expr(toks: &Vec<Token>, i: usize, scope: &Scope, selector: &Selector) -> (r: Result<
    (Value, usize),
    SassError,
>)
    requires
        i <= toks.len(),
    ensures
        match expr_at(toks@, i as int, scope@, selector.text@) {
            Ok(p) => r matches Ok((v, e)) && v@ == p.value && e == p.end && e <= toks.len(),
            Err(f) => r matches Err(x) && x@ == f,
        },
    decreases toks.len() - i, 1int,
{
    match parse_single(toks, i, scope, selector) {
        Err(f) => Err(f),
        Ok((left, end)) => {
            if !(i < end && end <= toks.len()) {
                return Err(SassError::Syntax(SyntaxError::ExpectedExpression));
            }
            let k = skip_whitespace(toks, end);
            match parse_operator(toks, k, k > end) {
                None => Ok((left, end)),
                Some((op, n)) => {
                    let start = skip_whitespace(toks, k + n);
                    match parse_expr(toks, start, scope, selector) {
                        Err(f) => Err(f),
                        Ok((right, last)) => Ok(
                            (Value::BinaryOp(Box::new(left), op, Box::new(right)), last),
                        ),
                    }
                },
            }
        },
    }
}

fn parse_space_items(toks: &Vec<Token>, i: usize, scope: &Scope, selector: &Selector) -> (r:
    Result<(Vec<Value>, usize), SassError>)
    requires
        i <= toks.len(),
    ensures
        match space_items(toks@, i as int, scope@, selector.text@) {
            Ok(p) => r matches Ok((v, e)) && views(v@) == p.items && e == p.end && v.len() >= 1
                && e <= toks.len(),
            Err(f) => r matches Err(x) && x@ == f,
        },
    decreases toks.len() - i, 2int,
{
    match parse_expr(toks, i, scope, selector) {
        Err(f) => Err(f),
        Ok((first, end)) => {
            if !(i < end && end <= toks.len()) {
                return Err(SassError::Syntax(SyntaxError::ExpectedExpression));
            }
            let k = skip_whitespace(toks, end);
            if k >= toks.len() || char_is_terminator(toks[k].kind) {
                let ghost fv = first@;
                let mut items: Vec<Value> = Vec::new();
                items.push(first);
                assert(views(items@) =~= seq![fv]);
                Ok((items, end))
            } else {
                match parse_space_items(toks, k, scope, selector) {
                    Err(f) => Err(f),
                    Ok((rest, last)) => {
                        let ghost fv = first@;
                        let ghost before = views(rest@);
                        let mut items = rest;
                        items.insert(0, first);
                        assert(views(items@) =~= seq![fv] + before);
                        Ok((items, last))
                    },
                }
            }
        },
    }
}

fn parse_space(toks: &Vec<Token>, i: usize, scope: &Scope, selector: &Selector) -> (r: Result<
    (Value, usize),
    SassError,
>)
    requires
        i <= toks.len(),
    ensures
        match space_at(toks@, i as int, scope@, selector.text@) {
            Ok(p) => r matches Ok((v, e)) && v@ == p.value && e == p.end && e <= toks.len(),
            Err(f) => r matches Err(x) && x@ == f,
        },
    decreases toks.len() - i, 3int,
{
    match parse_space_items(toks, i, scope, selector) {
        Err(f) => Err(f),
        Ok((items, end)) => {
            let mut items = items;
            if items.len() == 1 {
                let ghost only = items[0]@;
                assert(views(items@)[0] == only);
                match items.pop() {
                    Some(v) => Ok((v, end)),
                    None => Err(SassError::Syntax(SyntaxError::ExpectedExpression)),
                }
            } else {
                Ok((Value::List(items, ListSeparator::Space), end))
            }
        },
    }
}

fn parse_comma_items(toks: &Vec<Token>, i: usize, scope: &Scope, selector: &Selector) -> (r:
    Result<(Vec<Value>, usize, bool), SassError>)
    requires
        i <= toks.len(),
    ensures
        match comma_items(toks@, i as int, scope@, selector.text@) {
            Ok(p) => r matches Ok((v, e, c)) && views(v@) == p.items && e == p.end && c == p.comma
                && v.len() >= 1 && e <= toks.len(),
            Err(f) => r matches Err(x) && x@ == f,
        },
    decreases toks.len() - i, 4int,
{
    match parse_space(toks, i, scope, selector) {
        Err(f) => Err(f),
        Ok((first, end)) => {
            if !(i < end && end <= toks.len()) {
                return Err(SassError::Syntax(SyntaxError::ExpectedExpression));
            }
            let k = skip_whitespace(toks, end);
            if !(k < toks.len() && toks[k].kind == ',') {
                let ghost fv = first@;
                let mut items: Vec<Value> = Vec::new();
                items.push(first);
                assert(views(items@) =~= seq![fv]);
                return Ok((items, end, false));
            }
            let a = skip_whitespace(toks, k + 1);
            if a >= toks.len() || char_is_terminator(toks[a].kind) {
                let ghost fv = first@;
                let mut items: Vec<Value> = Vec::new();
                items.push(first);
                assert(views(items@) =~= seq![fv]);
                Ok((items, a, true))
            } else {
                match parse_comma_items(toks, a, scope, selector) {
                    Err(f) => Err(f),
                    Ok((rest, last, _)) => {
                        let ghost fv = first@;
                        let ghost before = views(rest@);
                        let mut items = rest;
                        items.insert(0, first);
                        assert(views(items@) =~= seq![fv] + before);
                        Ok((items, last, true))
                    },
                }
            }
        },
    }
}

fn parse_comma(toks: &Vec<Token>, i: usize, scope: &Scope, selector: &Selector) -> (r: Result<
    (Value, usize),
    SassError,
>)
    requires
        i <= toks.len(),
    ensures
        match comma_at(toks@, i as int, scope@, selector.text@) {
            Ok(p) => r matches Ok((v, e)) && v@ == p.value && e == p.end && e <= toks.len(),
            Err(f) => r matches Err(x) && x@ == f,
        },
    decreases toks.len() - i, 5int,
{
    match parse_comma_items(toks, i, scope, selector) {
        Err(f) => Err(f),
        Ok((items, end, comma)) => {
            let mut items = items;
            if comma {
                Ok((Value::List(items, ListSeparator::Comma), end))
            } else {
                let ghost n = items.len();
                let ghost last = items[n - 1]@;
                assert(views(items@)[n - 1] == last);
                match items.pop() {
                    Some(v) => Ok((v, end)),
                    None => Err(SassError::Syntax(SyntaxError::ExpectedExpression)),
                }
            }
        },
    }
}

impl Value {
    /// Reads one value from the cursor on, after the blanks in front of
    /// it. On success the cursor is left just past the value, on failure
    /// where it stood. A variable is replaced by its value in `scope`, and
    /// `&` by the text of `super_selector`.
    pub fn from_tokens(toks: &mut TokenCursor, scope: &Scope, super_selector: &Selector) -> (r:
        Result<Value, SassError>)
        ensures
            final(toks).tokens() == old(toks).tokens(),
            match comma_at(
                old(toks).tokens(),
                whitespace_end(old(toks).tokens(), old(toks).position()),
                scope@,
                super_selector.text@,
            ) {
                Ok(p) => r matches Ok(v) && v@ == p.value && final(toks).position() == p.end,
                Err(f) => r matches Err(x) && x@ == f && final(toks).position() == old(
                    toks,
                ).position(),
            },
    {
        let start = skip_whitespace(toks.as_vec(), toks.pos());
        match parse_comma(toks.as_vec(), start, scope, super_selector) {
            Err(f) => Err(f),
            Ok((v, end)) => {
                toks.seek(end);
                Ok(v)
            },
        }
    }
}

} // verus!
