//! Lexical tokens and a cursor over them.

use vstd::prelude::*;

verus! {

/// A place in the source text.
#[derive(Debug, Clone, Copy, PartialEq, Eq, Structural)]
pub struct Pos {
    pub line: u32,
    pub column: u32,
}

impl Pos {
    /// The start of the text.
    pub fn new() -> (p: Pos)
        ensures
            p.line == 0,
            p.column == 0,
    {
        Pos { line: 0, column: 0 }
    }
}

/// One character of the source, with the place it was read at.
#[derive(Debug, Clone, Copy, PartialEq, Eq, Structural)]
pub struct Token {
    pub pos: Pos,
    pub kind: char,
}

impl Token {
    /// The character `kind`, read at `pos`.
    pub fn new(pos: Pos, kind: char) -> (t: Token)
        ensures
            t.pos == pos,
            t.kind == kind,
    {
        Token { pos, kind }
    }
}

/// The number after `n`, which is `n` itself where `u32` ends.
pub open spec fn after(n: u32) -> u32 {
    if n < u32::MAX {
        (n + 1) as u32
    } else {
        n
    }
}

/// The place of the character at index `i` of `text`: lines are counted
/// by the line feeds before it, columns by the characters since the last
/// one.
pub open spec fn place_of(text: Seq<char>, i: int) -> Pos
    decreases i,
{
    if i <= 0 {
        Pos { line: 0, column: 0 }
    } else if text[i - 1] == '\n' {
        Pos { line: after(place_of(text, i - 1).line), column: 0 }
    } else {
        Pos { line: place_of(text, i - 1).line, column: after(place_of(text, i - 1).column) }
    }
}

/// The tokens of the first `n` characters of `text`: one for each
/// character, with its place.
pub open spec fn lexed_to(text: Seq<char>, n: nat) -> Seq<Token>
    decreases n,
{
    if n == 0 {
        Seq::empty()
    } else {
        lexed_to(text, (n - 1) as nat).push(
            Token { pos: place_of(text, n - 1), kind: text[n - 1] },
        )
    }
}

/// The tokens of `text`.
pub open spec fn lexed(text: Seq<char>) -> Seq<Token> {
    lexed_to(text, text.len())
}

/// Turns a text into its tokens.
pub fn lex(text: &str) -> (toks: Vec<Token>)
    ensures
        toks@ == lexed(text@),
{
    let mut toks: Vec<Token> = Vec::new();
    let mut pos = Pos::new();
    for c in it: text.chars()
        invariant
            it.seq() == text@,
            pos == place_of(text@, it.index() as int),
            toks@ == lexed_to(text@, it.index() as nat),
    {
        assert(c == it.seq()[it.index() as int]);
        toks.push(Token { pos, kind: c });
        if c == '\n' {
            pos = Pos { line: if pos.line < u32::MAX {
                pos.line + 1
            } else {
                pos.line
            }, column: 0 };
        } else {
            pos = Pos { line: pos.line, column: if pos.column < u32::MAX {
                pos.column + 1
            } else {
                pos.column
            } };
        }
    }
    toks
}

/// The characters of a token sequence, without their places.
pub open spec fn kinds(s: Seq<Token>) -> Seq<char> {
    s.map_values(|t: Token| t.kind)
}

/// A finite token sequence with a read position in it.
pub struct TokenCursor {
    toks: Vec<Token>,
    pos: usize,
}

impl TokenCursor {
    #[verifier::type_invariant]
    spec fn in_bounds(self) -> bool {
        self.pos <= self.toks.len()
    }

    /// All tokens of the sequence, read or not.
    pub closed spec fn tokens(self) -> Seq<Token> {
        self.toks@
    }

    /// The index of the next token to be read.
    pub closed spec fn position(self) -> int {
        self.pos as int
    }

    /// The next token to be read, if any is left.
    pub open spec fn front(self) -> Option<Token> {
        if 0 <= self.position() < self.tokens().len() {
            Some(self.tokens()[self.position()])
        } else {
            None
        }
    }

    /// A cursor at the start of `toks`.
    pub fn new(toks: Vec<Token>) -> (c: TokenCursor)
        ensures
            c.tokens() == toks@,
            c.position() == 0,
    {
        TokenCursor { toks, pos: 0 }
    }

    /// The whole sequence.
    pub fn as_vec(&self) -> (v: &Vec<Token>)
        ensures
            v@ == self.tokens(),
    {
        &self.toks
    }

    /// The read position; it never lies beyond the end.
    pub fn pos(&self) -> (p: usize)
        ensures
            p == self.position(),
            p <= self.tokens().len(),
    {
        proof {
            use_type_invariant(self);
        }
        self.pos
    }

    /// Moves the read position to `p`.
    pub fn seek(&mut self, p: usize)
        requires
            p <= old(self).tokens().len(),
        ensures
            final(self).tokens() == old(self).tokens(),
            final(self).position() == p,
    {
        self.pos = p;
    }

    /// The next token, which stays unread.
    pub fn peek(&self) -> (t: Option<Token>)
        ensures
            t == self.front(),
    {
        proof {
            use_type_invariant(self);
        }
        if self.pos < self.toks.len() {
            Some(self.toks[self.pos])
        } else {
            None
        }
    }

    /// Reads the next token. At the end nothing is read and the cursor stays.
    pub fn next(&mut self) -> (t: Option<Token>)
        ensures
            t == old(self).front(),
            final(self).tokens() == old(self).tokens(),
            final(self).position() == if t is Some {
                old(self).position() + 1
            } else {
                old(self).position()
            },
    {
        proof {
            use_type_invariant(&*self);
        }
        if self.pos < self.toks.len() {
            let t = self.toks[self.pos];
            self.pos = self.pos + 1;
            Some(t)
        } else {
            None
        }
    }
}

} // verus!
