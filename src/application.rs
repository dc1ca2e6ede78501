//! An installable package record: metadata, dependencies and the files it owns.
use vstd::prelude::*;
use crate::dependency::{DepKind, Dependency};
use crate::metadata::Metadata;
use crate::security::Security;
use crate::text::{decimal, decimal_string};

verus! {

#[derive(Clone, Debug)]
pub struct Application {
    pub metadata: Metadata,
    pub security: Option<Security>,
    pub dependencies: Option<Dependency>,
    pub files: Vec<String>,
}

/// `{name}-{version}-{release}-x86_64`.
pub open spec fn archive_name_of(name: Seq<char>, version: Seq<char>, release: u32) -> Seq<char> {
    name + seq!['-'] + version + seq!['-'] + decimal(release as nat) + seq!['-', 'x', '8', '6', '_', '6', '4']
}

/// Two records hold the same values in every field.
pub open spec fn same_package(x: Application, y: Application) -> bool {
    &&& crate::metadata::same_metadata(x.metadata, y.metadata)
    &&& crate::security::same_security(x.security, y.security)
    &&& crate::dependency::same_dependencies(x.dependencies, y.dependencies)
    &&& x.files@ == y.files@
}

/// The path of a file-list entry `"<path> <digest>"`: the text before the
/// first space, or the whole entry where it has none.
pub open spec fn entry_path(e: Seq<char>) -> Seq<char>
    decreases e.len(),
{
    if e.len() == 0 {
        e
    } else if e[0] == ' ' {
        Seq::empty()
    } else {
        seq![e[0]] + entry_path(e.drop_first())
    }
}

/// Builds the archive name of a package from its identity.
pub fn archive_name_for(name: &str, version: &str, release: u32) -> (r: String)
    ensures
        r@ == archive_name_of(name@, version@, release),
{
    proof {
        reveal_strlit("-");
        reveal_strlit("-x86_64");
    }
    let mut s = String::from_str(name);
    s.append("-");
    s.append(version);
    s.append("-");
    let rel = decimal_string(release as u64);
    s.append(rel.as_str());
    s.append("-x86_64");
    s
}

/// The path token of one file-list entry.
pub fn path_of_entry(e: &str) -> (r: String)
    ensures
        r@ == entry_path(e@),
{
    let n = e.unicode_len();
    let mut i: usize = 0;
    while i < n && e.get_char(i) != ' '
        invariant
            i <= n,
            n == e@.len(),
            forall|j: int| 0 <= j < i ==> e@[j] != ' ',
        decreases n - i,
    {
        i = i + 1;
    }
    proof {
        lemma_entry_path_prefix(e@, i as int);
    }
    String::from_str(e.substring_char(0, i))
}

proof fn lemma_entry_path_prefix(e: Seq<char>, i: int)
    requires
        0 <= i <= e.len(),
        forall|j: int| 0 <= j < i ==> e[j] != ' ',
        i == e.len() || e[i] == ' ',
    ensures
        entry_path(e) == e.subrange(0, i),
    decreases e.len(),
{
    if e.len() == 0 {
    } else if i == 0 {
    } else {
        lemma_entry_path_prefix(e.drop_first(), i - 1);
        assert(e.subrange(0, i) =~= seq![e[0]] + e.drop_first().subrange(0, i - 1));
    }
}

impl Application {
    /// The names this package depends on in the given kind; none where it
    /// declares no dependency block.
    pub open spec fn edges(&self, kind: DepKind) -> Seq<Seq<char>> {
        match self.dependencies {
            Some(d) => d.edges(kind),
            None => Seq::empty(),
        }
    }

    /// `{name}-{version}-{release}-x86_64`.
    pub fn archive_name(&self) -> (r: String)
        ensures
            r@ == archive_name_of(self.metadata.name@, self.metadata.version@, self.metadata.release),
    {
        archive_name_for(self.metadata.name.as_str(), self.metadata.version.as_str(), self.metadata.release)
    }

    /// A copy holding the same values in every field.
    pub fn duplicate(&self) -> (r: Self)
        ensures
            same_package(r, *self),
    {
        Application {
            metadata: self.metadata.duplicate(),
            security: crate::security::copy_security(&self.security),
            dependencies: crate::dependency::copy_dependencies(&self.dependencies),
            files: crate::text::copy_strings(&self.files),
        }
    }

    /// The paths, relative to the filesystem root, of the files this package
    /// owns, one for each entry of its file list; the digests are left out.
    pub fn owned_paths(&self) -> (r: Vec<String>)
        ensures
            r@.len() == self.files@.len(),
            forall|j: int| 0 <= j < r@.len() ==> #[trigger] r@[j]@ == entry_path(self.files@[j]@),
    {
        let mut r: Vec<String> = Vec::new();
        let mut i: usize = 0;
        while i < self.files.len()
            invariant
                i <= self.files@.len(),
                r@.len() == i,
                forall|j: int| 0 <= j < i ==> #[trigger] r@[j]@ == entry_path(self.files@[j]@),
            decreases self.files@.len() - i,
        {
            r.push(path_of_entry(self.files[i].as_str()));
            i = i + 1;
        }
        r
    }
}

} // verus!
