//! The quarter of the globe a tile falls in, used to shard the on-disk cache
//! into four top-level directories.

use vstd::prelude::*;

use crate::errors::Error;

verus! {

/// One of the four quadrants of the globe, derived from the signs of a tile
/// signature's components: northern latitudes are "top", western longitudes
/// are "left".
#[derive(Debug, PartialEq, Eq, Structural, Copy, Clone)]
pub enum Quarter {
    TopLeft,
    TopRight,
    BottomLeft,
    BottomRight,
}

impl Quarter {
    /// Parses a single-character directory name ("0" to "3") back into the
    /// quarter it stands for.
    pub fn from_str(value: &str) -> (r: Result<Quarter, Error>)
        ensures
            value@ =~= "0"@ ==> r == Ok::<Quarter, Error>(Quarter::TopLeft),
            value@ =~= "1"@ ==> r == Ok::<Quarter, Error>(Quarter::TopRight),
            value@ =~= "2"@ ==> r == Ok::<Quarter, Error>(Quarter::BottomLeft),
            value@ =~= "3"@ ==> r == Ok::<Quarter, Error>(Quarter::BottomRight),
            r matches Ok(q) ==> value@ =~= seq![quarter_digit_char(q)],
            r matches Err(e) ==> e == Error::InvalidQuarterDirectorySpecifier,
    {
        proof {
            reveal_strlit("0");
            reveal_strlit("1");
            reveal_strlit("2");
            reveal_strlit("3");
        }
        if value.unicode_len() != 1 {
            return Err(Error::InvalidQuarterDirectorySpecifier);
        }
        let c = value.get_char(0);
        if c == '0' {
            Ok(Quarter::TopLeft)
        } else if c == '1' {
            Ok(Quarter::TopRight)
        } else if c == '2' {
            Ok(Quarter::BottomLeft)
        } else if c == '3' {
            Ok(Quarter::BottomRight)
        } else {
            Err(Error::InvalidQuarterDirectorySpecifier)
        }
    }

    /// The signs of the latitudes and longitudes lying in this quarter.
    pub fn signs(&self) -> (r: (i8, i16))
        ensures
            self is TopLeft ==> r == (1i8, -1i16),
            self is TopRight ==> r == (1i8, 1i16),
            self is BottomLeft ==> r == (-1i8, -1i16),
            self is BottomRight ==> r == (-1i8, 1i16),
    {
        match self {
            Quarter::TopLeft => (1, -1),
            Quarter::TopRight => (1, 1),
            Quarter::BottomLeft => (-1, -1),
            Quarter::BottomRight => (-1, 1),
        }
    }

    /// The directory index of this quarter in the on-disk cache layout.
    pub fn to_u8(&self) -> (r: u8)
        ensures
            r == self.index(),
    {
        match self {
            Quarter::TopLeft => 0,
            Quarter::TopRight => 1,
            Quarter::BottomLeft => 2,
            Quarter::BottomRight => 3,
        }
    }

    /// The directory index of this quarter, as a mathematical value.
    pub open spec fn index(self) -> u8 {
        match self {
            Quarter::TopLeft => 0,
            Quarter::TopRight => 1,
            Quarter::BottomLeft => 2,
            Quarter::BottomRight => 3,
        }
    }
}

/// The single decimal digit naming a quarter's cache directory.
pub open spec fn quarter_digit_char(q: Quarter) -> char {
    match q {
        Quarter::TopLeft => '0',
        Quarter::TopRight => '1',
        Quarter::BottomLeft => '2',
        Quarter::BottomRight => '3',
    }
}

} // verus!
