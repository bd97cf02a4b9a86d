//! Power profile selection as exposed by the power-profiles daemon.

use vstd::prelude::*;
use crate::text::str_eq;

verus! {

/// A power profile offered by the power-profiles daemon.
#[derive(Debug, Clone, Copy, PartialEq, Eq, Structural)]
pub enum PowerProfile {
    PowerSaver,
    Balanced,
    Performance,
}

/// The profile a daemon profile name stands for; unknown names are balanced.
pub open spec fn profile_of(s: Seq<char>) -> PowerProfile {
    if s == "power-saver"@ {
        PowerProfile::PowerSaver
    } else if s == "performance"@ {
        PowerProfile::Performance
    } else {
        PowerProfile::Balanced
    }
}

impl PowerProfile {
    /// Parse a daemon profile name; unknown names are balanced.
    pub fn from_str(s: &str) -> (r: PowerProfile)
        ensures
            r == profile_of(s@),
    {
        if str_eq(s, "power-saver") {
            PowerProfile::PowerSaver
        } else if str_eq(s, "performance") {
            PowerProfile::Performance
        } else {
            PowerProfile::Balanced
        }
    }

    /// The daemon's name for the profile.
    pub fn as_str(&self) -> (r: &'static str)
        ensures
            r@ == match self {
                PowerProfile::PowerSaver => "power-saver"@,
                PowerProfile::Balanced => "balanced"@,
                PowerProfile::Performance => "performance"@,
            },
            profile_of(r@) == *self,
    {
        proof {
            reveal_strlit("power-saver");
            reveal_strlit("balanced");
            reveal_strlit("performance");
            assert("balanced"@.len() != "power-saver"@.len());
            assert("balanced"@.len() != "performance"@.len());
            assert("power-saver"@[1] != "performance"@[1]);
        }
        match self {
            PowerProfile::PowerSaver => "power-saver",
            PowerProfile::Balanced => "balanced",
            PowerProfile::Performance => "performance",
        }
    }

    /// The name shown to the user.
    pub fn display_name(&self) -> (r: &'static str)
        ensures
            r@ == match self {
                PowerProfile::PowerSaver => "Power Saver"@,
                PowerProfile::Balanced => "Balanced"@,
                PowerProfile::Performance => "Performance"@,
            },
    {
        match self {
            PowerProfile::PowerSaver => "Power Saver",
            PowerProfile::Balanced => "Balanced",
            PowerProfile::Performance => "Performance",
        }
    }

    /// The symbolic icon of the profile.
    pub fn icon_name(&self) -> (r: &'static str)
        ensures
            r@ == match self {
                PowerProfile::PowerSaver => "power-profile-power-saver-symbolic"@,
                PowerProfile::Balanced => "power-profile-balanced-symbolic"@,
                PowerProfile::Performance => "power-profile-performance-symbolic"@,
            },
    {
        match self {
            PowerProfile::PowerSaver => "power-profile-power-saver-symbolic",
            PowerProfile::Balanced => "power-profile-balanced-symbolic",
            PowerProfile::Performance => "power-profile-performance-symbolic",
        }
    }

    /// The profile that follows `self` in the cycle saver -> balanced -> performance -> saver.
    pub open spec fn spec_next(self) -> PowerProfile {
        match self {
            PowerProfile::PowerSaver => PowerProfile::Balanced,
            PowerProfile::Balanced => PowerProfile::Performance,
            PowerProfile::Performance => PowerProfile::PowerSaver,
        }
    }

    /// Get the next profile in the cycle order.
    pub fn next(&self) -> (r: PowerProfile)
        ensures
            r == self.spec_next(),
    {
        match self {
            PowerProfile::PowerSaver => PowerProfile::Balanced,
            PowerProfile::Balanced => PowerProfile::Performance,
            PowerProfile::Performance => PowerProfile::PowerSaver,
        }
    }
}

} // verus!
