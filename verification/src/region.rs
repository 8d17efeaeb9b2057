use vstd::prelude::*;

verus! {

#[verifier::external_type_specification]
#[verifier::external_body]
pub struct ExRegion(unic_langid::subtags::Region);

/// The canonical code a region identifier carries.
pub uninterp spec fn region_code(r: unic_langid::subtags::Region) -> Seq<char>;

pub open spec fn is_ascii_alpha(c: char) -> bool {
    (65 <= c as u32 && c as u32 <= 90) || (97 <= c as u32 && c as u32 <= 122)
}

pub open spec fn is_ascii_digit(c: char) -> bool {
    48 <= c as u32 && c as u32 <= 57
}

/// An ASCII letter folded to upper case; any other character unchanged.
pub open spec fn upper_char(c: char) -> char {
    if c == 'a' {
        'A'
    } else if c == 'b' {
        'B'
    } else if c == 'c' {
        'C'
    } else if c == 'd' {
        'D'
    } else if c == 'e' {
        'E'
    } else if c == 'f' {
        'F'
    } else if c == 'g' {
        'G'
    } else if c == 'h' {
        'H'
    } else if c == 'i' {
        'I'
    } else if c == 'j' {
        'J'
    } else if c == 'k' {
        'K'
    } else if c == 'l' {
        'L'
    } else if c == 'm' {
        'M'
    } else if c == 'n' {
        'N'
    } else if c == 'o' {
        'O'
    } else if c == 'p' {
        'P'
    } else if c == 'q' {
        'Q'
    } else if c == 'r' {
        'R'
    } else if c == 's' {
        'S'
    } else if c == 't' {
        'T'
    } else if c == 'u' {
        'U'
    } else if c == 'v' {
        'V'
    } else if c == 'w' {
        'W'
    } else if c == 'x' {
        'X'
    } else if c == 'y' {
        'Y'
    } else if c == 'z' {
        'Z'
    } else {
        c
    }
}

/// A label is a valid region code when it is two ASCII letters or three
/// ASCII digits.
pub open spec fn valid_region_label(s: Seq<char>) -> bool {
    ||| (s.len() == 2 && (forall|i: int| 0 <= i < 2 ==> is_ascii_alpha(#[trigger] s[i])))
    ||| (s.len() == 3 && (forall|i: int| 0 <= i < 3 ==> is_ascii_digit(#[trigger] s[i])))
}

/// The canonical form of a label: letters uppercased, digits unchanged.
pub open spec fn canonical_region(s: Seq<char>) -> Seq<char> {
    s.map_values(|c: char| upper_char(c))
}

/// Relies on unic_langid's Region::from_str: Ok exactly for two ASCII
/// letters or three ASCII digits; letters are stored folded to upper case,
/// digits as they are.
#[verifier::external_body]
fn parse_region(s: &str) -> (r: Option<unic_langid::subtags::Region>)
    ensures
        r is Some <==> valid_region_label(s@),
        r matches Some(reg) ==> region_code(reg) == canonical_region(s@),
{
    <unic_langid::subtags::Region as std::str::FromStr>::from_str(s).ok()
}

/// Relies on Region::as_str: the canonical code the value was parsed to.
#[verifier::external_body]
fn region_as_str(r: &unic_langid::subtags::Region) -> (s: &str)
    ensures
        s@ == region_code(*r),
{
    r.as_str()
}

/// Relies on Region's derived Clone: the copy is the same region.
pub assume_specification[ <unic_langid::subtags::Region as Clone>::clone ](
    r: &unic_langid::subtags::Region,
) -> (c: unic_langid::subtags::Region)
    ensures
        c == *r,
;

/// A validated locale identifier, usable as the key that tells one
/// translation table from another.
#[derive(Debug, PartialEq, Eq, Clone, Hash, PartialOrd, Ord, Copy)]
pub struct Key(pub unic_langid::subtags::Region);

impl Key {
    /// The canonical text of the identifier.
    pub open spec fn code(&self) -> Seq<char> {
        region_code(self.0)
    }

    /// Parse a label into a key: two ASCII letters (folded to upper case) or
    /// three ASCII digits; anything else is rejected.
    pub fn from_label(s: &str) -> (r: Option<Key>)
        ensures
            r is Some <==> valid_region_label(s@),
            r matches Some(k) ==> k.code() == canonical_region(s@),
    {
        match parse_region(s) {
            Some(reg) => Some(Key(reg)),
            None => None,
        }
    }

    /// The canonical text of the identifier.
    pub fn as_str(&self) -> (s: &str)
        ensures
            s@ == self.code(),
    {
        region_as_str(&self.0)
    }
}

} // verus!
