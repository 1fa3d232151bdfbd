//! The encryption that a frame's elements point to.

use vstd::prelude::*;

verus! {

/// How a network is protected, from the weakest to the strongest. Within one
/// frame a later element may raise the level and never lowers it.
#[derive(Clone, Copy, Debug, PartialEq, Eq, PartialOrd, Ord, Hash, Structural)]
pub enum EncryptionLevel {
    Open,
    Wpa,
    Wpa2Wpa3,
}

impl EncryptionLevel {
    /// The place of the level in the order: 0 for `Open`, 1 for `Wpa`, 2 for
    /// `Wpa2Wpa3`.
    pub open spec fn rank(self) -> int {
        match self {
            EncryptionLevel::Open => 0,
            EncryptionLevel::Wpa => 1,
            EncryptionLevel::Wpa2Wpa3 => 2,
        }
    }

    /// The higher of two levels.
    pub open spec fn merged(self, other: EncryptionLevel) -> EncryptionLevel {
        if self.rank() >= other.rank() {
            self
        } else {
            other
        }
    }

    /// The name of the level as it is stored and shown.
    pub open spec fn label_text(self) -> Seq<char> {
        match self {
            EncryptionLevel::Open => "Open"@,
            EncryptionLevel::Wpa => "WPA"@,
            EncryptionLevel::Wpa2Wpa3 => "WPA2/WPA3"@,
        }
    }

    /// Merges what an element points to into the level so far: the result is
    /// the higher of the two.
    pub fn merge(self, observed: EncryptionLevel) -> (level: EncryptionLevel)
        ensures
            level == self.merged(observed),
    {
        match (self, observed) {
            (EncryptionLevel::Wpa2Wpa3, _) => EncryptionLevel::Wpa2Wpa3,
            (_, EncryptionLevel::Wpa2Wpa3) => EncryptionLevel::Wpa2Wpa3,
            (EncryptionLevel::Wpa, _) => EncryptionLevel::Wpa,
            (_, EncryptionLevel::Wpa) => EncryptionLevel::Wpa,
            (EncryptionLevel::Open, EncryptionLevel::Open) => EncryptionLevel::Open,
        }
    }

    /// The name of the level: `Open`, `WPA` or `WPA2/WPA3`.
    pub fn label(self) -> (text: &'static str)
        ensures
            text@ == self.label_text(),
    {
        match self {
            EncryptionLevel::Open => "Open",
            EncryptionLevel::Wpa => "WPA",
            EncryptionLevel::Wpa2Wpa3 => "WPA2/WPA3",
        }
    }
}

/// Merging is the maximum in the order of the levels: the result is one of the
/// two, and neither of them is higher. It does not depend on the order of the
/// two, and merging a level with itself changes nothing.
pub proof fn lemma_merge_is_maximum(a: EncryptionLevel, b: EncryptionLevel)
    ensures
        a.merged(b) == a || a.merged(b) == b,
        a.merged(b).rank() >= a.rank(),
        a.merged(b).rank() >= b.rank(),
        a.merged(b) == b.merged(a),
        a.merged(a) == a,
{
}

} // verus!
