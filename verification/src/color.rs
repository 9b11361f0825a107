//! Colours, which this crate carries but does not compute with.

use vstd::prelude::*;

verus! {

/// A colour, by its red, green and blue parts.
#[derive(Debug, Clone, Copy, PartialEq, Eq, Structural)]
pub struct Color {
    pub red: u8,
    pub green: u8,
    pub blue: u8,
}

/// The digit of base 16 for a number below 16.
pub open spec fn hex_digit(n: int) -> char {
    if n == 0 {
        '0'
    } else if n == 1 {
        '1'
    } else if n == 2 {
        '2'
    } else if n == 3 {
        '3'
    } else if n == 4 {
        '4'
    } else if n == 5 {
        '5'
    } else if n == 6 {
        '6'
    } else if n == 7 {
        '7'
    } else if n == 8 {
        '8'
    } else if n == 9 {
        '9'
    } else if n == 10 {
        'a'
    } else if n == 11 {
        'b'
    } else if n == 12 {
        'c'
    } else if n == 13 {
        'd'
    } else if n == 14 {
        'e'
    } else {
        'f'
    }
}

fn hex_char(n: u8) -> (c: char)
    requires
        n < 16,
    ensures
        c == hex_digit(n as int),
{
    if n == 0 {
        '0'
    } else if n == 1 {
        '1'
    } else if n == 2 {
        '2'
    } else if n == 3 {
        '3'
    } else if n == 4 {
        '4'
    } else if n == 5 {
        '5'
    } else if n == 6 {
        '6'
    } else if n == 7 {
        '7'
    } else if n == 8 {
        '8'
    } else if n == 9 {
        '9'
    } else if n == 10 {
        'a'
    } else if n == 11 {
        'b'
    } else if n == 12 {
        'c'
    } else if n == 13 {
        'd'
    } else if n == 14 {
        'e'
    } else {
        'f'
    }
}

impl Color {
    /// The colour as it is written: `#` and two digits of base 16 for each
    /// of red, green and blue.
    pub open spec fn text(self) -> Seq<char> {
        seq![
            '#',
            hex_digit(self.red as int / 16),
            hex_digit(self.red as int % 16),
            hex_digit(self.green as int / 16),
            hex_digit(self.green as int % 16),
            hex_digit(self.blue as int / 16),
            hex_digit(self.blue as int % 16),
        ]
    }

    /// Writes the colour behind what `out` holds.
    pub fn write(&self, out: &mut Vec<char>)
        ensures
            final(out)@ == old(out)@ + self.text(),
    {
        out.push('#');
        out.push(hex_char(self.red / 16));
        out.push(hex_char(self.red % 16));
        out.push(hex_char(self.green / 16));
        out.push(hex_char(self.green % 16));
        out.push(hex_char(self.blue / 16));
        out.push(hex_char(self.blue % 16));
        assert(out@ =~= old(out)@ + self.text());
    }
}

} // verus!
