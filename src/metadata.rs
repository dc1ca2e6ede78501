//! The identity and description of a package.
use vstd::prelude::*;
use crate::architecture::Architecture;
use crate::license::License;

verus! {

#[derive(Clone, Debug)]
pub struct Metadata {
    pub name: String,
    pub version: String,
    pub release: u32,
    pub description: Option<String>,
    pub architecture: Vec<Architecture>,
    pub licenses: Vec<License>,
    pub project_url: Vec<String>,
    pub project_ownder: Vec<String>,
}

impl Default for Metadata {
    fn default() -> (r: Self)
        ensures
            r.name@.len() == 0,
            r.version@.len() == 0,
            r.release == 0,
            r.description is None,
            r.architecture@.len() == 0,
            r.licenses@.len() == 0,
            r.project_url@.len() == 0,
            r.project_ownder@.len() == 0,
    {
        Metadata {
            name: String::new(),
            version: String::new(),
            release: 0,
            description: None,
            architecture: Vec::new(),
            licenses: Vec::new(),
            project_url: Vec::new(),
            project_ownder: Vec::new(),
        }
    }
}

/// The text of a string that may be absent.
pub open spec fn opt_view(o: Option<String>) -> Option<Seq<char>> {
    match o {
        Some(s) => Some(s@),
        None => None,
    }
}

/// Two metadata records hold the same values in every field.
pub open spec fn same_metadata(x: Metadata, y: Metadata) -> bool {
    &&& x.name@ == y.name@
    &&& x.version@ == y.version@
    &&& x.release == y.release
    &&& opt_view(x.description) == opt_view(y.description)
    &&& x.architecture@ == y.architecture@
    &&& x.licenses@ == y.licenses@
    &&& x.project_url@ == y.project_url@
    &&& x.project_ownder@ == y.project_ownder@
}

/// A copy of a list of plain values.
pub fn copy_values<T: Copy>(v: &Vec<T>) -> (r: Vec<T>)
    ensures
        r@ == v@,
{
    let mut r: Vec<T> = Vec::new();
    let mut i: usize = 0;
    while i < v.len()
        invariant
            i <= v@.len(),
            r@ == v@.subrange(0, i as int),
        decreases v@.len() - i,
    {
        r.push(v[i]);
        assert(r@ =~= v@.subrange(0, i as int + 1));
        i = i + 1;
    }
    assert(v@.subrange(0, v@.len() as int) =~= v@);
    r
}

/// A copy of a string that may be absent.
pub fn copy_opt(o: &Option<String>) -> (r: Option<String>)
    ensures
        opt_view(r) == opt_view(*o),
{
    match o {
        Some(s) => Some(s.clone()),
        None => None,
    }
}

impl Metadata {
    /// A copy holding the same values in every field.
    pub fn duplicate(&self) -> (r: Self)
        ensures
            same_metadata(r, *self),
    {
        Metadata {
            name: self.name.clone(),
            version: self.version.clone(),
            release: self.release,
            description: copy_opt(&self.description),
            architecture: copy_values(&self.architecture),
            licenses: copy_values(&self.licenses),
            project_url: crate::text::copy_strings(&self.project_url),
            project_ownder: crate::text::copy_strings(&self.project_ownder),
        }
    }
}

} // verus!
