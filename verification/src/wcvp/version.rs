//! The closed table of recognized dataset releases.

use vstd::prelude::*;
use crate::error::Error;

verus! {

#[derive(Debug, Clone, Copy, PartialEq, Eq, Structural)]
pub enum Version {
    V15,
}

impl Version {
    /// The recognized release for a declared number, if any.
    pub open spec fn spec_from_number(value: u32) -> Option<Version> {
        if value == 15 {
            Some(Version::V15)
        } else {
            None
        }
    }

    pub open spec fn spec_number(self) -> u32 {
        match self {
            Version::V15 => 15,
        }
    }

    /// Map a declared release number through the closed version table.
    pub fn from_number(value: u32) -> (r: Result<Version, Error>)
        ensures
            match r {
                Ok(v) => Version::spec_from_number(value) == Some(v),
                Err(e) => Version::spec_from_number(value) is None && (e matches
                    Error::InvalidVersion(n) && n == value),
            },
    {
        match value {
            15 => Ok(Version::V15),
            v => Err(Error::InvalidVersion(v)),
        }
    }

    pub fn number(self) -> (r: u32)
        ensures
            r == self.spec_number(),
    {
        match self {
            Version::V15 => 15,
        }
    }
}

} // verus!
