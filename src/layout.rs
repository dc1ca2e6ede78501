//! The directories the package manager works in, built once from the
//! filesystem root and the working directory and handed to each component.
use vstd::prelude::*;

verus! {

/// `base/part`, with one separator between them.
pub open spec fn joined(base: Seq<char>, part: Seq<char>) -> Seq<char> {
    if base.len() > 0 && base.last() == '/' {
        base + part
    } else {
        base + seq!['/'] + part
    }
}

/// Joins a relative part onto a directory.
pub fn join_path(base: &str, part: &str) -> (r: String)
    ensures
        r@ == joined(base@, part@),
{
    let n = base.unicode_len();
    let mut s = String::from_str(base);
    if !(n > 0 && base.get_char(n - 1) == '/') {
        proof { reveal_strlit("/"); }
        s.append("/");
    }
    s.append(part);
    s
}

#[derive(Clone, Debug)]
pub struct Layout {
    pub root_dir: String,
    pub lib_dir: String,
    pub local_dir: String,
    pub sync_dir: String,
    pub cache_dir: String,
    pub conf_dir: String,
    pub conf_file: String,
    pub cwd_dir: String,
    pub src_dir: String,
    pub pkg_dir: String,
    pub pkg_file: String,
    pub mani_file: String,
}

impl Layout {
    /// The directories under the filesystem root `root`, and those of a
    /// build in the working directory `cwd`.
    pub fn new(root: &str, cwd: &str) -> (r: Self)
        ensures
            r.root_dir@ == root@,
            r.lib_dir@ == joined(root@, "var/lib/store"@),
            r.local_dir@ == joined(r.lib_dir@, "local"@),
            r.sync_dir@ == joined(r.lib_dir@, "sync"@),
            r.cache_dir@ == joined(r.lib_dir@, "cache"@),
            r.conf_dir@ == joined(root@, "etc/store"@),
            r.conf_file@ == joined(r.conf_dir@, "store.conf"@),
            r.cwd_dir@ == cwd@,
            r.src_dir@ == joined(cwd@, "source"@),
            r.pkg_dir@ == joined(cwd@, "package"@),
            r.pkg_file@ == joined(cwd@, "pkgbuild.yml"@),
            r.mani_file@ == joined(r.pkg_dir@, "manifest.yml"@),
    {
        let lib_dir = join_path(root, "var/lib/store");
        let conf_dir = join_path(root, "etc/store");
        let pkg_dir = join_path(cwd, "package");
        Layout {
            root_dir: String::from_str(root),
            local_dir: join_path(lib_dir.as_str(), "local"),
            sync_dir: join_path(lib_dir.as_str(), "sync"),
            cache_dir: join_path(lib_dir.as_str(), "cache"),
            conf_file: join_path(conf_dir.as_str(), "store.conf"),
            cwd_dir: String::from_str(cwd),
            src_dir: join_path(cwd, "source"),
            pkg_file: join_path(cwd, "pkgbuild.yml"),
            mani_file: join_path(pkg_dir.as_str(), "manifest.yml"),
            lib_dir,
            conf_dir,
            pkg_dir,
        }
    }

    /// The directories every run needs, created before anything else.
    pub fn bases(&self) -> (r: Vec<String>)
        ensures
            r@.len() == 7,
            r@[0]@ == self.src_dir@,
            r@[1]@ == self.pkg_dir@,
            r@[2]@ == self.lib_dir@,
            r@[3]@ == self.local_dir@,
            r@[4]@ == self.sync_dir@,
            r@[5]@ == self.cache_dir@,
            r@[6]@ == self.conf_dir@,
    {
        let mut r: Vec<String> = Vec::new();
        r.push(self.src_dir.clone());
        r.push(self.pkg_dir.clone());
        r.push(self.lib_dir.clone());
        r.push(self.local_dir.clone());
        r.push(self.sync_dir.clone());
        r.push(self.cache_dir.clone());
        r.push(self.conf_dir.clone());
        r
    }

    /// The installed-state manifest of a package: `local/<name>/manifest.yml`.
    pub fn installed_manifest(&self, name: &str) -> (r: String)
        ensures
            r@ == joined(joined(self.local_dir@, name@), "manifest.yml"@),
    {
        let dir = join_path(self.local_dir.as_str(), name);
        join_path(dir.as_str(), "manifest.yml")
    }

    /// The cache file of an artifact: `cache/<archive-name>.app`.
    pub fn cached_artifact(&self, file: &str) -> (r: String)
        ensures
            r@ == joined(self.cache_dir@, file@),
    {
        join_path(self.cache_dir.as_str(), file)
    }

    /// The synchronised database file of a repository: `sync/<name>.db`.
    pub fn repo_db_file(&self, repo: &str) -> (r: String)
        ensures
            r@ == joined(self.sync_dir@, repo@ + ".db"@),
    {
        let mut f = String::from_str(repo);
        f.append(".db");
        join_path(self.sync_dir.as_str(), f.as_str())
    }
}

} // verus!
