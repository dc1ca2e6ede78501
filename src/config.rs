//! The configured repositories, in the order that decides resolution.
use vstd::prelude::*;

verus! {

#[derive(Clone, Debug)]
pub struct RepoMeta {
    pub name: String,
    pub static_address: String,
    pub update_address: String,
}

#[derive(Clone, Debug)]
pub struct Configuration {
    pub repos: Vec<RepoMeta>,
}

/// `i` is the first configured repository named `name`.
pub open spec fn is_first_repo(repos: Seq<RepoMeta>, name: Seq<char>, i: int) -> bool {
    &&& 0 <= i < repos.len()
    &&& repos[i].name@ == name
    &&& forall|j: int| 0 <= j < i ==> repos[j].name@ != name
}

/// No configured repository is named `name`.
pub open spec fn unconfigured(repos: Seq<RepoMeta>, name: Seq<char>) -> bool {
    forall|j: int| 0 <= j < repos.len() ==> repos[j].name@ != name
}

impl Default for RepoMeta {
    fn default() -> (r: Self)
        ensures
            r.name@ == "core"@,
            r.static_address@ == "http://localhost:3690/core/"@,
            r.update_address@ == "http://localhost:3690/version/core"@,
    {
        RepoMeta {
            name: String::from_str("core"),
            static_address: String::from_str("http://localhost:3690/core/"),
            update_address: String::from_str("http://localhost:3690/version/core"),
        }
    }
}

impl Default for Configuration {
    fn default() -> (r: Self)
        ensures
            r.repos@.len() == 1,
            r.repos@[0].name@ == "core"@,
            r.repos@[0].static_address@ == "http://localhost:3690/core/"@,
            r.repos@[0].update_address@ == "http://localhost:3690/version/core"@,
    {
        let mut repos: Vec<RepoMeta> = Vec::new();
        repos.push(RepoMeta::default());
        Configuration { repos }
    }
}

impl Configuration {
    /// The configuration written on first run: the one default repository.
    pub fn gen() -> (r: Self)
        ensures
            r.repos@.len() == 1,
            r.repos@[0].name@ == "core"@,
            r.repos@[0].static_address@ == "http://localhost:3690/core/"@,
            r.repos@[0].update_address@ == "http://localhost:3690/version/core"@,
    {
        Self::default()
    }

    /// The position of the first repository named `name`.
    pub fn position(&self, name: &str) -> (r: Option<usize>)
        ensures
            r matches Some(i) ==> is_first_repo(self.repos@, name@, i as int),
            r is None <==> unconfigured(self.repos@, name@),
    {
        let mut i: usize = 0;
        while i < self.repos.len()
            invariant
                i <= self.repos@.len(),
                forall|j: int| 0 <= j < i ==> self.repos@[j].name@ != name@,
            decreases self.repos@.len() - i,
        {
            if crate::text::same_text(self.repos[i].name.as_str(), name) {
                return Some(i);
            }
            i = i + 1;
        }
        None
    }

    /// The static address of the first repository named `name`.
    pub fn get_static_address(&self, name: &str) -> (r: Option<String>)
        ensures
            r is None <==> unconfigured(self.repos@, name@),
            r matches Some(a) ==> exists|i: int| is_first_repo(self.repos@, name@, i)
                && a@ == self.repos@[i].static_address@,
    {
        match self.position(name) {
            Some(i) => Some(self.repos[i].static_address.clone()),
            None => None,
        }
    }

    /// The update address of the first repository named `name`.
    pub fn get_update_address(&self, name: &str) -> (r: Option<String>)
        ensures
            r is None <==> unconfigured(self.repos@, name@),
            r matches Some(a) ==> exists|i: int| is_first_repo(self.repos@, name@, i)
                && a@ == self.repos@[i].update_address@,
    {
        match self.position(name) {
            Some(i) => Some(self.repos[i].update_address.clone()),
            None => None,
        }
    }
}

} // verus!
