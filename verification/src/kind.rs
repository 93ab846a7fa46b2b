//! The rendering kinds a lazy wrapper can present.

use vstd::prelude::*;

verus! {

/// The rendering trait a lazy wrapper is bound to.
///
/// `Display` and `Debug` are the two general kinds; the other seven are the
/// exotic kinds, each selected by one specifier letter in a placeholder.
#[derive(Clone, Copy, PartialEq, Eq, Debug, Hash, Structural)]
pub enum Kind {
    Display,
    Debug,
    Binary,
    Octal,
    LowerHex,
    UpperHex,
    LowerExp,
    UpperExp,
    Pointer,
}

impl Kind {
    /// True for every kind other than `Display` and `Debug`.
    pub open spec fn is_exotic(self) -> bool {
        self != Kind::Display && self != Kind::Debug
    }

    /// The kind selected by the last character of a placeholder's
    /// specifier: `?` selects `Debug`, one of `b e x o p E X` selects an
    /// exotic kind, anything else selects `Display`.
    pub open spec fn of_letter(c: char) -> Kind {
        if c == '?' {
            Kind::Debug
        } else if c == 'b' {
            Kind::Binary
        } else if c == 'e' {
            Kind::LowerExp
        } else if c == 'x' {
            Kind::LowerHex
        } else if c == 'o' {
            Kind::Octal
        } else if c == 'p' {
            Kind::Pointer
        } else if c == 'E' {
            Kind::UpperExp
        } else if c == 'X' {
            Kind::UpperHex
        } else {
            Kind::Display
        }
    }

    /// The specifier letter that selects this kind; `Display` has none.
    pub open spec fn letter_spec(self) -> Option<char> {
        match self {
            Kind::Display => None,
            Kind::Debug => Some('?'),
            Kind::Binary => Some('b'),
            Kind::Octal => Some('o'),
            Kind::LowerHex => Some('x'),
            Kind::UpperHex => Some('X'),
            Kind::LowerExp => Some('e'),
            Kind::UpperExp => Some('E'),
            Kind::Pointer => Some('p'),
        }
    }

    /// The name written in front of the parenthesised value by a debug
    /// rendering.
    pub open spec fn name_spec(self) -> Seq<char> {
        match self {
            Kind::Display => "Display"@,
            Kind::Debug => "Debug"@,
            Kind::Binary => "Binary"@,
            Kind::Octal => "Octal"@,
            Kind::LowerHex => "LowerHex"@,
            Kind::UpperHex => "UpperHex"@,
            Kind::LowerExp => "LowerExp"@,
            Kind::UpperExp => "UpperExp"@,
            Kind::Pointer => "Pointer"@,
        }
    }

    /// Whether this kind is one of the seven exotic kinds.
    #[verifier::when_used_as_spec(is_exotic)]
    pub fn exotic(self) -> (r: bool)
        ensures
            r == self.is_exotic(),
    {
        match self {
            Kind::Display => false,
            Kind::Debug => false,
            _ => true,
        }
    }

    /// The kind selected by a specifier letter.
    pub fn from_letter(c: char) -> (k: Kind)
        ensures
            k == Kind::of_letter(c),
    {
        if c == '?' {
            Kind::Debug
        } else if c == 'b' {
            Kind::Binary
        } else if c == 'e' {
            Kind::LowerExp
        } else if c == 'x' {
            Kind::LowerHex
        } else if c == 'o' {
            Kind::Octal
        } else if c == 'p' {
            Kind::Pointer
        } else if c == 'E' {
            Kind::UpperExp
        } else if c == 'X' {
            Kind::UpperHex
        } else {
            Kind::Display
        }
    }

    /// The specifier letter that selects this kind, if it has one.
    pub fn letter(self) -> (r: Option<char>)
        ensures
            r == self.letter_spec(),
    {
        match self {
            Kind::Display => None,
            Kind::Debug => Some('?'),
            Kind::Binary => Some('b'),
            Kind::Octal => Some('o'),
            Kind::LowerHex => Some('x'),
            Kind::UpperHex => Some('X'),
            Kind::LowerExp => Some('e'),
            Kind::UpperExp => Some('E'),
            Kind::Pointer => Some('p'),
        }
    }

    /// The kind's name, as a debug rendering writes it.
    pub fn name(self) -> (r: &'static str)
        ensures
            r@ == self.name_spec(),
    {
        match self {
            Kind::Display => "Display",
            Kind::Debug => "Debug",
            Kind::Binary => "Binary",
            Kind::Octal => "Octal",
            Kind::LowerHex => "LowerHex",
            Kind::UpperHex => "UpperHex",
            Kind::LowerExp => "LowerExp",
            Kind::UpperExp => "UpperExp",
            Kind::Pointer => "Pointer",
        }
    }
}

/// A specifier letter and the kind it selects determine each other: the
/// letter of a kind selects that kind again, and only `Display` has no letter.
pub proof fn lemma_letter_round_trip(k: Kind)
    ensures
        k.letter_spec() is None <==> k == Kind::Display,
        k.letter_spec() is Some ==> Kind::of_letter(k.letter_spec()->0) == k,
{
}

} // verus!
