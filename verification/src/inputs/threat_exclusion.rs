//! Threat pair exclusion profiles, chosen at run time.
//!
//! | id | name | excluded pairs |
//! |----|------|----------------|
//! | 0 | `full` | none |
//! | 1 | `same-class` | attacker and attacked of the same class |
//! | 2 | `same-class-major-pawn` | same class, and bishop..dragon attacking a pawn |
//! | 10 | `cross-side` | same side, and same class |

use vstd::prelude::*;
use crate::text::str_eq;

verus! {

/// Threat pair exclusion profile.
#[derive(Clone, Copy, Debug, PartialEq, Eq, Structural)]
pub enum ThreatProfile {
    /// Every pair.
    Full,
    /// No pair of two pieces of the same class.
    SameClass,
    /// No same-class pair, and no major piece attacking a pawn.
    SameClassMajorPawn,
    /// Only pairs of opposite sides and different classes.
    CrossSide,
}

impl ThreatProfile {
    pub open spec fn spec_from_cli(s: Seq<char>) -> Option<ThreatProfile> {
        if s == "full"@ {
            Some(ThreatProfile::Full)
        } else if s == "same-class"@ {
            Some(ThreatProfile::SameClass)
        } else if s == "same-class-major-pawn"@ {
            Some(ThreatProfile::SameClassMajorPawn)
        } else if s == "cross-side"@ {
            Some(ThreatProfile::CrossSide)
        } else {
            None
        }
    }

    /// Profile named `s` on the command line; none for an unknown name.
    pub fn from_cli(s: &str) -> (r: Option<ThreatProfile>)
        ensures
            r == Self::spec_from_cli(s@),
    {
        if str_eq(s, "full") {
            Some(ThreatProfile::Full)
        } else if str_eq(s, "same-class") {
            Some(ThreatProfile::SameClass)
        } else if str_eq(s, "same-class-major-pawn") {
            Some(ThreatProfile::SameClassMajorPawn)
        } else if str_eq(s, "cross-side") {
            Some(ThreatProfile::CrossSide)
        } else {
            None
        }
    }

    pub open spec fn spec_profile_id(self) -> u32 {
        match self {
            ThreatProfile::Full => 0,
            ThreatProfile::SameClass => 1,
            ThreatProfile::SameClassMajorPawn => 2,
            ThreatProfile::CrossSide => 10,
        }
    }

    /// Identifier written into a quantised network.
    pub fn profile_id(self) -> (r: u32)
        ensures
            r == self.spec_profile_id(),
    {
        match self {
            ThreatProfile::Full => 0,
            ThreatProfile::SameClass => 1,
            ThreatProfile::SameClassMajorPawn => 2,
            ThreatProfile::CrossSide => 10,
        }
    }

    /// Whether the pair (attacker side `as_`, attacker class `ac`, attacked
    /// side `ds`, attacked class `dc`) is left out; sides are 0 for the
    /// perspective's own pieces and 1 for the other side's.
    pub open spec fn spec_is_excluded(self, as_: int, ac: int, ds: int, dc: int) -> bool {
        match self {
            ThreatProfile::Full => false,
            ThreatProfile::SameClass => ac == dc,
            ThreatProfile::SameClassMajorPawn => ac == dc || (ac >= 5 && dc == 0),
            ThreatProfile::CrossSide => as_ == ds || ac == dc,
        }
    }

    pub fn is_excluded(self, as_: usize, ac: usize, ds: usize, dc: usize) -> (r: bool)
        ensures
            r == self.spec_is_excluded(as_ as int, ac as int, ds as int, dc as int),
    {
        match self {
            ThreatProfile::Full => false,
            ThreatProfile::SameClass => ac == dc,
            ThreatProfile::SameClassMajorPawn => ac == dc || (ac >= 5 && dc == 0),
            ThreatProfile::CrossSide => as_ == ds || ac == dc,
        }
    }

    /// Names of the profiles, for help texts.
    pub fn available() -> (r: &'static str)
        ensures
            r@ == "full, same-class, same-class-major-pawn, cross-side"@,
    {
        "full, same-class, same-class-major-pawn, cross-side"
    }

    pub open spec fn spec_name(self) -> Seq<char> {
        match self {
            ThreatProfile::Full => "full"@,
            ThreatProfile::SameClass => "same-class"@,
            ThreatProfile::SameClassMajorPawn => "same-class-major-pawn"@,
            ThreatProfile::CrossSide => "cross-side"@,
        }
    }

    /// Command-line name of the profile.
    pub fn name(self) -> (r: &'static str)
        ensures
            r@ == self.spec_name(),
    {
        match self {
            ThreatProfile::Full => "full",
            ThreatProfile::SameClass => "same-class",
            ThreatProfile::SameClassMajorPawn => "same-class-major-pawn",
            ThreatProfile::CrossSide => "cross-side",
        }
    }
}

} // verus!
