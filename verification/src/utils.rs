//! Scanning helpers shared by the parsers: whitespace, identifiers and the
//! spans that are read in one piece (quoted strings, parentheses, brackets).

use vstd::prelude::*;
use crate::token::Token;

verus! {

/// The blank characters of a style sheet.
pub open spec fn is_whitespace(c: char) -> bool {
    c == ' ' || c == '\t' || c == '\n' || c == '\r' || c == '\x0C'
}

/// The characters an identifier is made of.
pub open spec fn is_name_char(c: char) -> bool {
    ('a' <= c && c <= 'z') || ('A' <= c && c <= 'Z') || ('0' <= c && c <= '9') || c == '-' || c
        == '_' || c >= '\u{80}'
}

/// The characters that open and close a quoted string.
pub open spec fn is_quote(c: char) -> bool {
    c == '"' || c == '\''
}

/// Whether `c` is a blank character.
pub fn char_is_whitespace(c: char) -> (b: bool)
    ensures
        b == is_whitespace(c),
{
    c == ' ' || c == '\t' || c == '\n' || c == '\r' || c == '\x0C'
}

/// Whether `c` can stand in an identifier.
pub fn char_is_name(c: char) -> (b: bool)
    ensures
        b == is_name_char(c),
{
    ('a' <= c && c <= 'z') || ('A' <= c && c <= 'Z') || ('0' <= c && c <= '9') || c == '-' || c
        == '_' || c >= '\u{80}'
}

/// The index of the first token at or after `i` that is not blank, or the
/// length of `s` where only blanks follow.
pub open spec fn whitespace_end(s: Seq<Token>, i: int) -> int
    decreases s.len() - i,
{
    if 0 <= i < s.len() && is_whitespace(s[i].kind) {
        whitespace_end(s, i + 1)
    } else {
        i
    }
}

/// The index just past the identifier characters that start at `i`.
pub open spec fn ident_end(s: Seq<Token>, i: int) -> int
    decreases s.len() - i,
{
    if 0 <= i < s.len() && is_name_char(s[i].kind) {
        ident_end(s, i + 1)
    } else {
        i
    }
}

/// How many tokens a quoted string takes from `i`, the index just past its
/// opening quote `q`, up to and including the closing quote. A backslash
/// takes the token after it along. Without a closing quote the string takes
/// all that is left.
pub open spec fn quote_len(s: Seq<Token>, i: int, q: char) -> nat
    decreases s.len() - i,
{
    if i < 0 || i >= s.len() {
        0
    } else if s[i].kind == q {
        1
    } else if s[i].kind == '\\' && i + 1 < s.len() {
        2 + quote_len(s, i + 2, q)
    } else {
        1 + quote_len(s, i + 1, q)
    }
}

/// How many tokens a bracketed group takes from `i`, which lies inside the
/// group at nesting `depth` (0 just past the opening bracket), up to and
/// including the `close` that ends it. Quoted strings inside count as one
/// piece. Without its `close` the group takes all that is left.
pub open spec fn group_len(s: Seq<Token>, i: int, open: char, close: char, depth: nat) -> nat
    decreases s.len() - i,
{
    if i < 0 || i >= s.len() {
        0
    } else if s[i].kind == close {
        if depth == 0 {
            1
        } else {
            1 + group_len(s, i + 1, open, close, (depth - 1) as nat)
        }
    } else if s[i].kind == open {
        1 + group_len(s, i + 1, open, close, depth + 1)
    } else if is_quote(s[i].kind) {
        let n = quote_len(s, i + 1, s[i].kind);
        proof {
            lemma_quote_len(s, i + 1, s[i].kind);
        }
        1 + n + group_len(s, i + 1 + n, open, close, depth)
    } else {
        1 + group_len(s, i + 1, open, close, depth)
    }
}

/// How many tokens the piece that starts at `i` takes: a quoted string, a
/// parenthesised or bracketed group, or else the one token.
pub open spec fn piece_len(s: Seq<Token>, i: int) -> nat {
    if i < 0 || i >= s.len() {
        0
    } else if is_quote(s[i].kind) {
        1 + quote_len(s, i + 1, s[i].kind)
    } else if s[i].kind == '(' {
        1 + group_len(s, i + 1, '(', ')', 0)
    } else if s[i].kind == '[' {
        1 + group_len(s, i + 1, '[', ']', 0)
    } else {
        1
    }
}

/// The index of the first `,` or `)` at or after `i` that lies outside
/// every quoted string and group, or the length of `s` where there is none.
pub open spec fn value_end(s: Seq<Token>, i: int) -> int
    decreases s.len() - i,
{
    if i < 0 || i >= s.len() {
        s.len() as int
    } else if s[i].kind == ',' || s[i].kind == ')' {
        i
    } else {
        proof {
            lemma_piece_len(s, i);
        }
        value_end(s, i + piece_len(s, i))
    }
}

/// Skipping blanks stays within the tokens and stops at a token that is
/// not blank.
pub proof fn lemma_whitespace_end(s: Seq<Token>, i: int)
    requires
        0 <= i <= s.len(),
    ensures
        i <= whitespace_end(s, i) <= s.len(),
        whitespace_end(s, i) < s.len() ==> !is_whitespace(s[whitespace_end(s, i)].kind),
    decreases s.len() - i,
{
    if i < s.len() && is_whitespace(s[i].kind) {
        lemma_whitespace_end(s, i + 1);
    }
}

/// An identifier stays within the tokens, holds name characters only and
/// stops at a token that is none.
pub proof fn lemma_ident_end(s: Seq<Token>, i: int)
    requires
        0 <= i <= s.len(),
    ensures
        i <= ident_end(s, i) <= s.len(),
        forall|k: int| i <= k < ident_end(s, i) ==> is_name_char(#[trigger] s[k].kind),
        ident_end(s, i) < s.len() ==> !is_name_char(s[ident_end(s, i)].kind),
    decreases s.len() - i,
{
    if i < s.len() && is_name_char(s[i].kind) {
        lemma_ident_end(s, i + 1);
    }
}

/// A quoted string stays within the tokens.
pub proof fn lemma_quote_len(s: Seq<Token>, i: int, q: char)
    requires
        0 <= i <= s.len(),
    ensures
        i + quote_len(s, i, q) <= s.len(),
    decreases s.len() - i,
{
    if i < s.len() && s[i].kind != q {
        if s[i].kind == '\\' && i + 1 < s.len() {
            lemma_quote_len(s, i + 2, q);
        } else {
            lemma_quote_len(s, i + 1, q);
        }
    }
}

/// A group stays within the tokens.
pub proof fn lemma_group_len(s: Seq<Token>, i: int, open: char, close: char, depth: nat)
    requires
        0 <= i <= s.len(),
    ensures
        i + group_len(s, i, open, close, depth) <= s.len(),
    decreases s.len() - i,
{
    if i < s.len() {
        if s[i].kind == close {
            if depth != 0 {
                lemma_group_len(s, i + 1, open, close, (depth - 1) as nat);
            }
        } else if s[i].kind == open {
            lemma_group_len(s, i + 1, open, close, depth + 1);
        } else if is_quote(s[i].kind) {
            let n = quote_len(s, i + 1, s[i].kind);
            lemma_quote_len(s, i + 1, s[i].kind);
            lemma_group_len(s, i + 1 + n, open, close, depth);
        } else {
            lemma_group_len(s, i + 1, open, close, depth);
        }
    }
}

/// A piece takes at least one token and stays within the tokens.
pub proof fn lemma_piece_len(s: Seq<Token>, i: int)
    requires
        0 <= i < s.len(),
    ensures
        1 <= piece_len(s, i),
        i + piece_len(s, i) <= s.len(),
{
    if is_quote(s[i].kind) {
        lemma_quote_len(s, i + 1, s[i].kind);
    } else if s[i].kind == '(' {
        lemma_group_len(s, i + 1, '(', ')', 0);
    } else if s[i].kind == '[' {
        lemma_group_len(s, i + 1, '[', ']', 0);
    }
}

/// A value stays within the tokens and ends at a `,` or `)` if it ends at
/// all.
pub proof fn lemma_value_end(s: Seq<Token>, i: int)
    requires
        0 <= i <= s.len(),
    ensures
        i <= value_end(s, i) <= s.len(),
        value_end(s, i) < s.len() ==> s[value_end(s, i)].kind == ',' || s[value_end(s, i)].kind
            == ')',
    decreases s.len() - i,
{
    if i < s.len() && !(s[i].kind == ',' || s[i].kind == ')') {
        lemma_piece_len(s, i);
        lemma_value_end(s, i + piece_len(s, i));
    }
}


/// Builds a `String` with `String::from_iter` from the characters of `v`:
/// the string holds exactly those characters, in their order.
#[verifier::external_body]
pub(crate) fn string_from_chars(v: &Vec<char>) -> (s: String)
    ensures
        s@ == v@,
{
    String::from_iter(v.iter())
}

/// Skips blanks from `i` on.
pub fn skip_whitespace(toks: &Vec<Token>, i: usize) -> (j: usize)
    requires
        i <= toks.len(),
    ensures
        j == whitespace_end(toks@, i as int),
        i <= j <= toks.len(),
{
    let mut j = i;
    while j < toks.len() && char_is_whitespace(toks[j].kind)
        invariant
            i <= j <= toks.len(),
            whitespace_end(toks@, i as int) == whitespace_end(toks@, j as int),
        decreases toks.len() - j,
    {
        j = j + 1;
    }
    j
}

/// Skips the characters of an identifier from `i` on.
pub fn skip_ident(toks: &Vec<Token>, i: usize) -> (j: usize)
    requires
        i <= toks.len(),
    ensures
        j == ident_end(toks@, i as int),
        i <= j <= toks.len(),
{
    let mut j = i;
    while j < toks.len() && char_is_name(toks[j].kind)
        invariant
            i <= j <= toks.len(),
            ident_end(toks@, i as int) == ident_end(toks@, j as int),
        decreases toks.len() - j,
    {
        j = j + 1;
    }
    j
}

/// Skips a quoted string whose opening quote `q` lies just before `i`.
pub fn skip_quote(toks: &Vec<Token>, i: usize, q: char) -> (j: usize)
    requires
        i <= toks.len(),
    ensures
        j == i + quote_len(toks@, i as int, q),
        i <= j <= toks.len(),
{
    let mut j = i;
    loop
        invariant_except_break
            i <= j <= toks.len(),
            i + quote_len(toks@, i as int, q) == j + quote_len(toks@, j as int, q),
        ensures
            i <= j <= toks.len(),
            j == i + quote_len(toks@, i as int, q),
        decreases toks.len() - j,
    {
        if j >= toks.len() {
            break ;
        }
        let c = toks[j].kind;
        if c == q {
            j = j + 1;
            break ;
        } else if c == '\\' && j + 1 < toks.len() {
            j = j + 2;
        } else {
            j = j + 1;
        }
    }
    j
}

/// Skips a group whose opening bracket lies just before `i`.
pub fn skip_group(toks: &Vec<Token>, i: usize, open: char, close: char) -> (j: usize)
    requires
        i <= toks.len(),
    ensures
        j == i + group_len(toks@, i as int, open, close, 0),
        i <= j <= toks.len(),
{
    let mut j = i;
    let mut depth: usize = 0;
    loop
        invariant_except_break
            i <= j <= toks.len(),
            depth <= j - i,
            i + group_len(toks@, i as int, open, close, 0) == j + group_len(
                toks@,
                j as int,
                open,
                close,
                depth as nat,
            ),
        ensures
            i <= j <= toks.len(),
            j == i + group_len(toks@, i as int, open, close, 0),
        decreases toks.len() - j,
    {
        if j >= toks.len() {
            break ;
        }
        let c = toks[j].kind;
        if c == close {
            j = j + 1;
            if depth == 0 {
                break ;
            }
            depth = depth - 1;
        } else if c == open {
            j = j + 1;
            depth = depth + 1;
        } else if c == '"' || c == '\'' {
            j = skip_quote(toks, j + 1, c);
        } else {
            j = j + 1;
        }
    }
    j
}

/// Skips the piece that starts at `i`.
pub fn skip_piece(toks: &Vec<Token>, i: usize) -> (j: usize)
    requires
        i < toks.len(),
    ensures
        j == i + piece_len(toks@, i as int),
        i < j <= toks.len(),
{
    let c = toks[i].kind;
    if c == '"' || c == '\'' {
        skip_quote(toks, i + 1, c)
    } else if c == '(' {
        skip_group(toks, i + 1, '(', ')')
    } else if c == '[' {
        skip_group(toks, i + 1, '[', ']')
    } else {
        i + 1
    }
}

/// Finds the `,` or `)` that ends the value starting at `i`.
pub fn skip_value(toks: &Vec<Token>, i: usize) -> (j: usize)
    requires
        i <= toks.len(),
    ensures
        j == value_end(toks@, i as int),
        i <= j <= toks.len(),
        j < toks.len() ==> toks[j as int].kind == ',' || toks[j as int].kind == ')',
{
    let mut j = i;
    while j < toks.len() && toks[j].kind != ',' && toks[j].kind != ')'
        invariant
            i <= j <= toks.len(),
            value_end(toks@, i as int) == value_end(toks@, j as int),
        decreases toks.len() - j,
    {
        j = skip_piece(toks, j);
    }
    j
}

/// Copies the tokens from `from` up to `to`.
pub fn copy_span(toks: &Vec<Token>, from: usize, to: usize) -> (v: Vec<Token>)
    requires
        from <= to <= toks.len(),
    ensures
        v@ == toks@.subrange(from as int, to as int),
{
    let mut v: Vec<Token> = Vec::new();
    let mut k = from;
    while k < to
        invariant
            from <= k <= to <= toks.len(),
            v@ == toks@.subrange(from as int, k as int),
        decreases to - k,
    {
        v.push(toks[k]);
        k = k + 1;
    }
    v
}

/// A name as it is stored: every `_` written as `-`, so that the two are
/// interchangeable in source text.
pub open spec fn canonical_name(name: Seq<char>) -> Seq<char> {
    name.map_values(|c: char| if c == '_' { '-' } else { c })
}

/// The canonical name spelled by the tokens of `s` from `from` up to `to`.
pub open spec fn name_of(s: Seq<Token>, from: int, to: int) -> Seq<char> {
    canonical_name(s.subrange(from, to).map_values(|t: Token| t.kind))
}

/// Spells the canonical name held by the tokens from `from` up to `to`.
pub fn read_name(toks: &Vec<Token>, from: usize, to: usize) -> (name: String)
    requires
        from <= to <= toks.len(),
    ensures
        name@ == name_of(toks@, from as int, to as int),
{
    let mut chars: Vec<char> = Vec::new();
    let mut k = from;
    while k < to
        invariant
            from <= k <= to <= toks.len(),
            chars@ == name_of(toks@, from as int, k as int),
        decreases to - k,
    {
        let c = toks[k].kind;
        chars.push(if c == '_' { '-' } else { c });
        k = k + 1;
        assert(chars@ =~= name_of(toks@, from as int, k as int));
    }
    string_from_chars(&chars)
}

/// Writes the characters of `text` behind what `out` holds.
pub fn push_str(out: &mut Vec<char>, text: &str)
    ensures
        final(out)@ == old(out)@ + text@,
{
    for c in it: text.chars()
        invariant
            it.seq() == text@,
            out@ == old(out)@ + it.seq().take(it.index() as int),
    {
        out.push(c);
        assert(out@ =~= old(out)@ + it.seq().take(it.index() + 1));
    }
    assert(text@.take(text@.len() as int) =~= text@);
}

/// The characters of `text`.
pub fn chars_of(text: &str) -> (v: Vec<char>)
    ensures
        v@ == text@,
{
    let mut v: Vec<char> = Vec::new();
    for c in it: text.chars()
        invariant
            it.seq() == text@,
            v@ == it.seq().take(it.index() as int),
    {
        v.push(c);
        assert(v@ =~= it.seq().take(it.index() + 1));
    }
    assert(text@.take(text@.len() as int) =~= text@);
    v
}

/// Whether the name `a` stands before the name `b` in a dictionary, or is
/// the same name: at the first place where they differ `a` has the lesser
/// character, or `a` ends there.
pub open spec fn name_le(a: Seq<char>, b: Seq<char>) -> bool
    decreases a.len(),
{
    if a.len() == 0 {
        true
    } else if b.len() == 0 {
        false
    } else if a[0] != b[0] {
        a[0] < b[0]
    } else {
        name_le(a.drop_first(), b.drop_first())
    }
}

/// Of two names one stands before the other, or they are the same.
pub proof fn lemma_name_le_total(a: Seq<char>, b: Seq<char>)
    ensures
        name_le(a, b) || name_le(b, a),
    decreases a.len(),
{
    if a.len() > 0 && b.len() > 0 && a[0] == b[0] {
        lemma_name_le_total(a.drop_first(), b.drop_first());
    }
}

/// Two names of which each stands before the other are the same name.
pub proof fn lemma_name_le_antisymmetric(a: Seq<char>, b: Seq<char>)
    requires
        name_le(a, b),
        name_le(b, a),
    ensures
        a == b,
    decreases a.len(),
{
    if a.len() == 0 || b.len() == 0 {
        assert(a =~= b);
    } else {
        lemma_name_le_antisymmetric(a.drop_first(), b.drop_first());
        assert(a =~= seq![a[0]] + a.drop_first());
        assert(b =~= seq![b[0]] + b.drop_first());
    }
}

/// What stands before a name stands before all that the name stands
/// before.
pub proof fn lemma_name_le_transitive(a: Seq<char>, b: Seq<char>, c: Seq<char>)
    requires
        name_le(a, b),
        name_le(b, c),
    ensures
        name_le(a, c),
    decreases a.len(),
{
    if a.len() > 0 && b.len() > 0 && c.len() > 0 && a[0] == b[0] && b[0] == c[0] {
        lemma_name_le_transitive(a.drop_first(), b.drop_first(), c.drop_first());
    }
}

/// Whether the name `a` stands before the name `b` in a dictionary, or is
/// the same name.
pub fn name_comes_first(a: &str, b: &str) -> (r: bool)
    ensures
        r == name_le(a@, b@),
{
    let x = chars_of(a);
    let y = chars_of(b);
    let mut i: usize = 0;
    assert(x@.skip(0) =~= x@ && y@.skip(0) =~= y@);
    loop
        invariant
            i <= x.len(),
            i <= y.len(),
            x@ == a@,
            y@ == b@,
            name_le(a@, b@) == name_le(x@.skip(i as int), y@.skip(i as int)),
        decreases x.len() - i,
    {
        if i >= x.len() {
            return true;
        }
        if i >= y.len() {
            return false;
        }
        assert(x@.skip(i as int)[0] == x[i as int] && y@.skip(i as int)[0] == y[i as int]);
        if x[i] != y[i] {
            return x[i] < y[i];
        }
        assert(x@.skip(i as int).drop_first() =~= x@.skip(i + 1));
        assert(y@.skip(i as int).drop_first() =~= y@.skip(i + 1));
        i = i + 1;
    }
}

} // verus!
