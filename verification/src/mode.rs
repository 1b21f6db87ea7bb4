use vstd::prelude::*;
use vstd::utf8::is_ascii_chars;

use crate::text::str_matches;

verus! {

/// Interface modes, as named in the Reticulum manual.
#[derive(Debug, Clone, Copy, PartialEq, Eq, Structural)]
pub enum InterfaceMode {
    /// Default discovery and meshing.
    Full,
    /// Full, plus path discovery on behalf of clients.
    Gateway,
    /// Quiet announces, helps resolve paths.
    AccessPoint,
    /// Faster path expiry for mobile nodes.
    Roaming,
    /// Interconnects significantly different segments.
    Boundary,
}

/// What `str::to_lowercase` returns for a string: its Unicode lower-case mapping.
pub uninterp spec fn lowercase(s: Seq<char>) -> Seq<char>;

/// ASCII lower-casing of one character: `A..=Z` become `a..=z`, all else stays.
pub open spec fn ascii_lower_char(c: char) -> char {
    if 65 <= (c as u32) <= 90 {
        ((c as u32) + 32) as char
    } else {
        c
    }
}

/// ASCII lower-casing of a character sequence.
pub open spec fn ascii_lowercase(s: Seq<char>) -> Seq<char> {
    s.map_values(|c: char| ascii_lower_char(c))
}

/// The mode that a lower-cased mode name stands for; every other name means `Full`.
pub open spec fn mode_for(s: Seq<char>) -> InterfaceMode {
    if s == seq!['g', 'w'] || s == seq!['g', 'a', 't', 'e', 'w', 'a', 'y'] {
        InterfaceMode::Gateway
    } else if s == seq!['a', 'p'] || s == seq![
        'a',
        'c',
        'c',
        'e',
        's',
        's',
        '_',
        'p',
        'o',
        'i',
        'n',
        't',
    ] {
        InterfaceMode::AccessPoint
    } else if s == seq!['r', 'o', 'a', 'm', 'i', 'n', 'g'] {
        InterfaceMode::Roaming
    } else if s == seq!['b', 'o', 'u', 'n', 'd', 'a', 'r', 'y'] {
        InterfaceMode::Boundary
    } else {
        InterfaceMode::Full
    }
}

/// Lower-cases a string with `str::to_lowercase`.
/// Claimed of it: the result is `lowercase` of the input, and on ASCII input it is the
/// ASCII lower-casing (Unicode maps `A..=Z` to `a..=z` and leaves other ASCII alone).
#[verifier::external_body]
fn to_lowercase(s: &str) -> (r: String)
    ensures
        r@ == lowercase(s@),
        is_ascii_chars(s@) ==> r@ == ascii_lowercase(s@),
{
    s.to_lowercase()
}

impl InterfaceMode {
    /// Parses a mode name without regard to case; unknown names give `Full`.
    pub fn from_str(s: &str) -> (m: InterfaceMode)
        ensures
            m == mode_for(lowercase(s@)),
            is_ascii_chars(s@) ==> m == mode_for(ascii_lowercase(s@)),
    {
        let lower = to_lowercase(s);
        Self::from_lowercase(lower.as_str())
    }

    /// The mode that an already lower-cased name stands for.
    pub fn from_lowercase(s: &str) -> (m: InterfaceMode)
        ensures
            m == mode_for(s@),
    {
        if str_matches(s, &['g', 'w']) || str_matches(s, &['g', 'a', 't', 'e', 'w', 'a', 'y']) {
            InterfaceMode::Gateway
        } else if str_matches(s, &['a', 'p']) || str_matches(
            s,
            &['a', 'c', 'c', 'e', 's', 's', '_', 'p', 'o', 'i', 'n', 't'],
        ) {
            InterfaceMode::AccessPoint
        } else if str_matches(s, &['r', 'o', 'a', 'm', 'i', 'n', 'g']) {
            InterfaceMode::Roaming
        } else if str_matches(s, &['b', 'o', 'u', 'n', 'd', 'a', 'r', 'y']) {
            InterfaceMode::Boundary
        } else {
            InterfaceMode::Full
        }
    }
}

} // verus!
