//! Licenses a package may be published under.
use vstd::prelude::*;

verus! {

#[derive(Clone, Copy, Debug, PartialEq, Eq, Structural)]
pub enum License {
    Apache2,
    BSD2,
    BSD3,
    GPL,
    LGPL,
    MIT,
    MPL2,
    CDDL,
    EPL2,
}

impl Default for License {
    fn default() -> (r: Self)
        ensures
            r == License::GPL,
    {
        License::GPL
    }
}

} // verus!
