//! Where a built package is deployed to.
use vstd::prelude::*;

verus! {

#[derive(Clone, Debug)]
pub enum Deployment {
    KOOMPI { api_key: String },
    KUMANDRA { api_key: String },
}

} // verus!
