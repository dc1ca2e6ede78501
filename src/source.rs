//! Where a build recipe takes its sources from.
use vstd::prelude::*;

verus! {

#[derive(Clone, Debug)]
pub struct Source {
    pub address: String,
    pub save_as: String,
    pub extract: bool,
    pub extract_to: Option<String>,
}

impl Default for Source {
    fn default() -> (r: Self)
        ensures
            r.address@.len() == 0,
            r.save_as@.len() == 0,
            !r.extract,
            r.extract_to is None,
    {
        Source { address: String::new(), save_as: String::new(), extract: false, extract_to: None }
    }
}

impl Source {
    /// An empty source descriptor.
    pub fn new() -> (r: Self)
        ensures
            r.address@.len() == 0,
            r.save_as@.len() == 0,
            !r.extract,
            r.extract_to is None,
    {
        Self::default()
    }
}

} // verus!
