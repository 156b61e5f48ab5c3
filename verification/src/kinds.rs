//! The closed sets of choices of an experiment: how the walker moves, on
//! which lattice, and how the sweep of step counts grows.
//!
//! Each kind has an integer code, under which the simulation knows it, a
//! one-digit text form, which is that code in decimal, and a display name.

use vstd::prelude::*;

verus! {

/// The message that comes with a text that names no kind.
pub const COULD_NOT_PARSE: &'static str = "Could not parse";

/// The character that a text of exactly one character consists of.
pub open spec fn sole_char(s: Seq<char>) -> Option<char> {
    if s.len() == 1 {
        Some(s[0])
    } else {
        None
    }
}

/// Reads a text of exactly one character.
fn read_sole_char(s: &str) -> (c: Option<char>)
    ensures
        c == sole_char(s@),
{
    if s.unicode_len() == 1 {
        Some(s.get_char(0))
    } else {
        None
    }
}

/// How the walker chooses its next step.
#[derive(Clone, Copy, Debug, PartialEq, Eq, Structural)]
pub enum WalkType {
    /// Every neighbour is equally likely.
    Simple,
    /// The walker never steps straight back to where it came from.
    NoReturns,
}

impl WalkType {
    /// The code of this kind.
    pub open spec fn spec_code(self) -> int {
        match self {
            WalkType::Simple => 0,
            WalkType::NoReturns => 1,
        }
    }

    /// The kind that a one-digit text names, if any.
    pub open spec fn of_text(s: Seq<char>) -> Option<WalkType> {
        match sole_char(s) {
            Some('0') => Some(WalkType::Simple),
            Some('1') => Some(WalkType::NoReturns),
            _ => None,
        }
    }

    /// The display name of this kind.
    pub open spec fn label(self) -> Seq<char> {
        match self {
            WalkType::Simple => "Simple"@,
            WalkType::NoReturns => "No Immediate Returns"@,
        }
    }

    /// The code under which the simulation knows this kind.
    pub fn code(self) -> (c: i32)
        ensures
            c == self.spec_code(),
    {
        match self {
            WalkType::Simple => 0,
            WalkType::NoReturns => 1,
        }
    }

    /// Reads a kind from its one-digit text form; any other text is refused
    /// with [`COULD_NOT_PARSE`].
    pub fn from_str(s: &str) -> (r: Result<WalkType, &'static str>)
        ensures
            match WalkType::of_text(s@) {
                Some(kind) => r == Ok::<WalkType, &'static str>(kind),
                None => r is Err && r->Err_0@ == COULD_NOT_PARSE@,
            },
    {
        match read_sole_char(s) {
            Some('0') => Ok(WalkType::Simple),
            Some('1') => Ok(WalkType::NoReturns),
            _ => Err(COULD_NOT_PARSE),
        }
    }

    /// The display name of this kind.
    pub fn to_string(&self) -> (name: String)
        ensures
            name@ == self.label(),
    {
        match self {
            WalkType::Simple => "Simple".to_owned(),
            WalkType::NoReturns => "No Immediate Returns".to_owned(),
        }
    }

    /// A text names a kind only if it is the decimal digit of that kind's
    /// code.
    pub proof fn lemma_text_is_code(s: Seq<char>, kind: WalkType)
        requires
            WalkType::of_text(s) == Some(kind),
        ensures
            s.len() == 1,
            s[0] as int == '0' as int + kind.spec_code(),
    {
    }
}

/// The lattice on which the walker moves.
#[derive(Clone, Copy, Debug, PartialEq, Eq, Structural)]
pub enum GridType {
    /// Four neighbours to a site.
    Square,
    /// Six neighbours to a site.
    Triangular,
    /// Three neighbours to a site.
    Hexagonal,
}

impl GridType {
    /// The code of this kind.
    pub open spec fn spec_code(self) -> int {
        match self {
            GridType::Square => 0,
            GridType::Triangular => 1,
            GridType::Hexagonal => 2,
        }
    }

    /// The kind that a one-digit text names, if any.
    pub open spec fn of_text(s: Seq<char>) -> Option<GridType> {
        match sole_char(s) {
            Some('0') => Some(GridType::Square),
            Some('1') => Some(GridType::Triangular),
            Some('2') => Some(GridType::Hexagonal),
            _ => None,
        }
    }

    /// The display name of this kind.
    pub open spec fn label(self) -> Seq<char> {
        match self {
            GridType::Square => "Square"@,
            GridType::Triangular => "Triangular"@,
            GridType::Hexagonal => "Hexagonal"@,
        }
    }

    /// The code under which the simulation knows this kind.
    pub fn code(self) -> (c: i32)
        ensures
            c == self.spec_code(),
    {
        match self {
            GridType::Square => 0,
            GridType::Triangular => 1,
            GridType::Hexagonal => 2,
        }
    }

    /// Reads a kind from its one-digit text form; any other text is refused
    /// with [`COULD_NOT_PARSE`].
    pub fn from_str(s: &str) -> (r: Result<GridType, &'static str>)
        ensures
            match GridType::of_text(s@) {
                Some(kind) => r == Ok::<GridType, &'static str>(kind),
                None => r is Err && r->Err_0@ == COULD_NOT_PARSE@,
            },
    {
        match read_sole_char(s) {
            Some('0') => Ok(GridType::Square),
            Some('1') => Ok(GridType::Triangular),
            Some('2') => Ok(GridType::Hexagonal),
            _ => Err(COULD_NOT_PARSE),
        }
    }

    /// The display name of this kind.
    pub fn to_string(&self) -> (name: String)
        ensures
            name@ == self.label(),
    {
        match self {
            GridType::Square => "Square".to_owned(),
            GridType::Triangular => "Triangular".to_owned(),
            GridType::Hexagonal => "Hexagonal".to_owned(),
        }
    }

    /// A text names a kind only if it is the decimal digit of that kind's
    /// code.
    pub proof fn lemma_text_is_code(s: Seq<char>, kind: GridType)
        requires
            GridType::of_text(s) == Some(kind),
        ensures
            s.len() == 1,
            s[0] as int == '0' as int + kind.spec_code(),
    {
    }
}

/// How the sweep of step counts grows from one bucket to the next.
#[derive(Clone, Copy, Debug, PartialEq, Eq, Structural)]
pub enum SeqType {
    /// By a fixed difference.
    Arithmetic,
    /// By a fixed ratio.
    Geometric,
}

impl SeqType {
    /// The code of this kind.
    pub open spec fn spec_code(self) -> int {
        match self {
            SeqType::Arithmetic => 0,
            SeqType::Geometric => 1,
        }
    }

    /// The kind that a one-digit text names, if any.
    pub open spec fn of_text(s: Seq<char>) -> Option<SeqType> {
        match sole_char(s) {
            Some('0') => Some(SeqType::Arithmetic),
            Some('1') => Some(SeqType::Geometric),
            _ => None,
        }
    }

    /// The display name of this kind.
    pub open spec fn label(self) -> Seq<char> {
        match self {
            SeqType::Arithmetic => "Arithmetic"@,
            SeqType::Geometric => "Geometric"@,
        }
    }

    /// The code of this kind.
    pub fn code(self) -> (c: i32)
        ensures
            c == self.spec_code(),
    {
        match self {
            SeqType::Arithmetic => 0,
            SeqType::Geometric => 1,
        }
    }

    /// Reads a kind from its one-digit text form; any other text is refused
    /// with [`COULD_NOT_PARSE`].
    pub fn from_str(s: &str) -> (r: Result<SeqType, &'static str>)
        ensures
            match SeqType::of_text(s@) {
                Some(kind) => r == Ok::<SeqType, &'static str>(kind),
                None => r is Err && r->Err_0@ == COULD_NOT_PARSE@,
            },
    {
        match read_sole_char(s) {
            Some('0') => Ok(SeqType::Arithmetic),
            Some('1') => Ok(SeqType::Geometric),
            _ => Err(COULD_NOT_PARSE),
        }
    }

    /// The display name of this kind.
    pub fn to_string(&self) -> (name: String)
        ensures
            name@ == self.label(),
    {
        match self {
            SeqType::Arithmetic => "Arithmetic".to_owned(),
            SeqType::Geometric => "Geometric".to_owned(),
        }
    }

    /// A text names a kind only if it is the decimal digit of that kind's
    /// code.
    pub proof fn lemma_text_is_code(s: Seq<char>, kind: SeqType)
        requires
            SeqType::of_text(s) == Some(kind),
        ensures
            s.len() == 1,
            s[0] as int == '0' as int + kind.spec_code(),
    {
    }
}

} // verus!
