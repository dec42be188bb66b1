use vstd::prelude::*;

verus! {

/// The colors a cell can be drawn in.
#[derive(Debug, Clone, Copy, PartialEq, Eq, Structural)]
pub enum Color {
    Black,
    Red,
    Green,
    Yellow,
    Blue,
    Magenta,
    Cyan,
    White,
    Default,
}

/// The digit that selects a color in an SGR sequence `ESC [ 0 ; <d> m`
/// (`3<d>` for a foreground color, `0` for the terminal's default).
pub open spec fn sgr_tail(c: Color) -> Seq<char> {
    match c {
        Color::Default => seq!['0'],
        Color::Black => seq!['3', '0'],
        Color::Red => seq!['3', '1'],
        Color::Green => seq!['3', '2'],
        Color::Yellow => seq!['3', '3'],
        Color::Blue => seq!['3', '4'],
        Color::Magenta => seq!['3', '5'],
        Color::Cyan => seq!['3', '6'],
        Color::White => seq!['3', '7'],
    }
}

/// The escape sequence that switches the terminal to color `c`.
pub open spec fn ansi_of(c: Color) -> Seq<char> {
    seq!['\u{1b}', '[', '0', ';'] + sgr_tail(c) + seq!['m']
}

impl Color {
    /// The escape sequence that selects this color.
    pub fn to_ansi(&self) -> (r: String)
        ensures
            r@ == ansi_of(*self),
    {
        match self {
            Color::Default => {
                proof { reveal_strlit("\u{1b}[0;0m"); }
                let r = String::from_str("\u{1b}[0;0m");
                assert(r@ =~= ansi_of(*self));
                r
            },
            Color::Black => {
                proof { reveal_strlit("\u{1b}[0;30m"); }
                let r = String::from_str("\u{1b}[0;30m");
                assert(r@ =~= ansi_of(*self));
                r
            },
            Color::Red => {
                proof { reveal_strlit("\u{1b}[0;31m"); }
                let r = String::from_str("\u{1b}[0;31m");
                assert(r@ =~= ansi_of(*self));
                r
            },
            Color::Green => {
                proof { reveal_strlit("\u{1b}[0;32m"); }
                let r = String::from_str("\u{1b}[0;32m");
                assert(r@ =~= ansi_of(*self));
                r
            },
            Color::Yellow => {
                proof { reveal_strlit("\u{1b}[0;33m"); }
                let r = String::from_str("\u{1b}[0;33m");
                assert(r@ =~= ansi_of(*self));
                r
            },
            Color::Blue => {
                proof { reveal_strlit("\u{1b}[0;34m"); }
                let r = String::from_str("\u{1b}[0;34m");
                assert(r@ =~= ansi_of(*self));
                r
            },
            Color::Magenta => {
                proof { reveal_strlit("\u{1b}[0;35m"); }
                let r = String::from_str("\u{1b}[0;35m");
                assert(r@ =~= ansi_of(*self));
                r
            },
            Color::Cyan => {
                proof { reveal_strlit("\u{1b}[0;36m"); }
                let r = String::from_str("\u{1b}[0;36m");
                assert(r@ =~= ansi_of(*self));
                r
            },
            Color::White => {
                proof { reveal_strlit("\u{1b}[0;37m"); }
                let r = String::from_str("\u{1b}[0;37m");
                assert(r@ =~= ansi_of(*self));
                r
            },
        }
    }
}

} // verus!
