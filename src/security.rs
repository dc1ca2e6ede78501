//! Maintainers, checksums and the signing key of a package.
use vstd::prelude::*;

verus! {

#[derive(Clone, Debug)]
pub struct Security {
    pub maintainer: Vec<String>,
    pub md5sum: String,
    pub sha256sum: String,
    pub gpg_public_key: String,
}

/// Two security blocks, each maybe absent, hold the same values.
pub open spec fn same_security(x: Option<Security>, y: Option<Security>) -> bool {
    match (x, y) {
        (Some(a), Some(b)) => a.maintainer@ == b.maintainer@ && a.md5sum@ == b.md5sum@
            && a.sha256sum@ == b.sha256sum@ && a.gpg_public_key@ == b.gpg_public_key@,
        (None, None) => true,
        _ => false,
    }
}

/// A copy of a security block that may be absent.
pub fn copy_security(o: &Option<Security>) -> (r: Option<Security>)
    ensures
        same_security(r, *o),
{
    match o {
        Some(s) => Some(Security {
            maintainer: crate::text::copy_strings(&s.maintainer),
            md5sum: s.md5sum.clone(),
            sha256sum: s.sha256sum.clone(),
            gpg_public_key: s.gpg_public_key.clone(),
        }),
        None => None,
    }
}

} // verus!
