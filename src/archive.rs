//! Package artifacts: which decoder an archive needs, whether an artifact
//! holds exactly one manifest, and the names of the files it passes through.
use vstd::prelude::*;
use crate::error::PkgError;
use crate::text::views;

verus! {

/// The compression envelope of an archive, by file extension.
#[derive(Clone, Copy, Debug, PartialEq, Eq, Structural)]
pub enum ArchiveFormat {
    Bz2,
    Gz,
    Xz,
    Zip,
    Zst,
    Unknown,
}

/// The position of the last `c` in `s`, or -1.
pub open spec fn last_index(s: Seq<char>, c: char) -> int
    decreases s.len(),
{
    if s.len() == 0 {
        -1
    } else if s.last() == c {
        s.len() - 1
    } else {
        last_index(s.drop_last(), c)
    }
}

/// The last component of a path.
pub open spec fn file_name_of(p: Seq<char>) -> Seq<char> {
    p.subrange(last_index(p, '/') + 1, p.len() as int)
}

/// The text after the last dot of the last component, where that dot is
/// not its first character.
pub open spec fn extension_of(p: Seq<char>) -> Option<Seq<char>> {
    let n = file_name_of(p);
    let i = last_index(n, '.');
    if i <= 0 { None } else { Some(n.subrange(i + 1, n.len() as int)) }
}

/// The format an extension names.
pub open spec fn format_of(ext: Option<Seq<char>>) -> ArchiveFormat {
    match ext {
        Some(e) => if e == "bz2"@ {
            ArchiveFormat::Bz2
        } else if e == "gz"@ {
            ArchiveFormat::Gz
        } else if e == "xz"@ {
            ArchiveFormat::Xz
        } else if e == "zip"@ {
            ArchiveFormat::Zip
        } else if e == "zst"@ {
            ArchiveFormat::Zst
        } else {
            ArchiveFormat::Unknown
        },
        None => ArchiveFormat::Unknown,
    }
}

/// `s` with every trailing occurrence of `p` removed.
pub open spec fn trim_end(s: Seq<char>, p: Seq<char>) -> Seq<char>
    decreases s.len(),
{
    if p.len() > 0 && p.len() <= s.len() && s.subrange(s.len() - p.len(), s.len() as int) == p {
        trim_end(s.subrange(0, s.len() - p.len()), p)
    } else {
        s
    }
}

/// How many entries are the manifest.
pub open spec fn manifest_count(paths: Seq<Seq<char>>) -> nat
    decreases paths.len(),
{
    if paths.len() == 0 {
        0
    } else {
        manifest_count(paths.drop_last()) + if paths.last() == "manifest.yml"@ { 1nat } else { 0nat }
    }
}

/// The position of the last `c` in `s`.
pub fn last_index_of(s: &str, c: char) -> (r: Option<usize>)
    ensures
        r is None <==> last_index(s@, c) == -1,
        r matches Some(i) ==> i as int == last_index(s@, c),
        last_index(s@, c) < s@.len(),
{
    let n = s.unicode_len();
    let mut k: usize = n;
    assert(s@.subrange(0, n as int) =~= s@);
    while k > 0
        invariant
            k <= n,
            n == s@.len(),
            last_index(s@, c) == last_index(s@.subrange(0, k as int), c),
        decreases k,
    {
        let ghost t = s@.subrange(0, k as int);
        assert(t.drop_last() =~= s@.subrange(0, k - 1));
        if s.get_char(k - 1) == c {
            proof { lemma_last_index_bound(s@, c); }
            return Some(k - 1);
        }
        k = k - 1;
    }
    proof { lemma_last_index_bound(s@, c); }
    None
}

proof fn lemma_last_index_bound(s: Seq<char>, c: char)
    ensures
        -1 <= last_index(s, c) < s.len(),
    decreases s.len(),
{
    if s.len() > 0 {
        lemma_last_index_bound(s.drop_last(), c);
    }
}

/// The format of an archive, by the extension of its path.
pub fn archive_format(path: &str) -> (r: ArchiveFormat)
    ensures
        r == format_of(extension_of(path@)),
{
    let n = path.unicode_len();
    let start: usize = match last_index_of(path, '/') {
        Some(i) => i + 1,
        None => 0,
    };
    let name = path.substring_char(start, n);
    match last_index_of(name, '.') {
        Some(i) => {
            if i == 0 {
                ArchiveFormat::Unknown
            } else {
                let ext = name.substring_char(i + 1, name.unicode_len());
                if crate::text::same_text(ext, "bz2") {
                    ArchiveFormat::Bz2
                } else if crate::text::same_text(ext, "gz") {
                    ArchiveFormat::Gz
                } else if crate::text::same_text(ext, "xz") {
                    ArchiveFormat::Xz
                } else if crate::text::same_text(ext, "zip") {
                    ArchiveFormat::Zip
                } else if crate::text::same_text(ext, "zst") {
                    ArchiveFormat::Zst
                } else {
                    ArchiveFormat::Unknown
                }
            }
        },
        None => ArchiveFormat::Unknown,
    }
}

/// Removes every trailing occurrence of `p`, as `trim_end_matches` does.
pub fn trim_end_all(s: &str, p: &str) -> (r: String)
    ensures
        r@ == trim_end(s@, p@),
{
    let m = p.unicode_len();
    if m == 0 {
        return String::from_str(s);
    }
    let mut k: usize = s.unicode_len();
    assert(s@.subrange(0, k as int) =~= s@);
    loop
        invariant
            k <= s@.len(),
            m == p@.len(),
            m > 0,
            trim_end(s@, p@) == trim_end(s@.subrange(0, k as int), p@),
        ensures
            k <= s@.len(),
            trim_end(s@, p@) == s@.subrange(0, k as int),
        decreases k,
    {
        if m > k {
            assert(trim_end(s@.subrange(0, k as int), p@) == s@.subrange(0, k as int));
            break;
        }
        let mut j: usize = 0;
        let mut same = true;
        while j < m
            invariant
                j <= m,
                m <= k,
                k <= s@.len(),
                m == p@.len(),
                same == forall|q: int| 0 <= q < j ==> s@[k - m + q] == p@[q],
            decreases m - j,
        {
            if s.get_char(k - m + j) != p.get_char(j) {
                same = false;
            }
            j = j + 1;
        }
        let ghost t = s@.subrange(0, k as int);
        if same {
            assert(t.subrange(t.len() - p@.len(), t.len() as int) =~= p@);
            assert(t.subrange(0, t.len() - p@.len()) =~= s@.subrange(0, k - m));
            k = k - m;
        } else {
            let ghost q = choose|q: int| 0 <= q < m && s@[k - m + q] != p@[q];
            assert(t.subrange(t.len() - p@.len(), t.len() as int)[q] != p@[q]);
            assert(trim_end(t, p@) == t);
            break;
        }
    }
    String::from_str(s.substring_char(0, k))
}

/// Checks the entry paths of an artifact before anything is extracted
/// from it: exactly one of them must be the manifest.
pub fn validate_entries(paths: &Vec<String>) -> (r: Result<(), PkgError>)
    ensures
        r is Ok <==> manifest_count(views(paths@)) == 1,
        r matches Err(e) ==> e is Archive,
{
    let mut count: usize = 0;
    let mut i: usize = 0;
    while i < paths.len()
        invariant
            i <= paths@.len(),
            count == manifest_count(views(paths@.subrange(0, i as int))),
            count <= i,
        decreases paths@.len() - i,
    {
        let ghost p = views(paths@.subrange(0, i as int + 1));
        assert(p.drop_last() =~= views(paths@.subrange(0, i as int)));
        assert(p.last() == paths@[i as int]@);
        if crate::text::same_text(paths[i].as_str(), "manifest.yml") {
            count = count + 1;
        }
        i = i + 1;
    }
    assert(paths@.subrange(0, paths@.len() as int) =~= paths@);
    if count == 1 {
        Ok(())
    } else {
        Err(PkgError::Archive(String::from_str("an artifact must hold exactly one manifest.yml")))
    }
}

} // verus!
