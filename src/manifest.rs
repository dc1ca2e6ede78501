//! The file list of a package: one `"<relative-path> <sha256-hex>"` entry
//! for each regular file of the staging directory.
use vstd::prelude::*;
use crate::text::{hex, hex_string};

verus! {

/// The SHA-256 digest of `data`.
pub uninterp spec fn sha256(data: Seq<u8>) -> Seq<u8>;

/// Relies on sha2's `Sha256` through `Digest::digest`: the digest of the
/// bytes, 32 of them.
#[verifier::external_body]
fn sha256_digest(data: &[u8]) -> (r: Vec<u8>)
    ensures
        r@ == sha256(data@),
        r@.len() == 32,
{
    <sha2::Sha256 as sha2::Digest>::digest(data).to_vec()
}

/// `s` with every leading occurrence of `p` removed.
pub open spec fn trim_start(s: Seq<char>, p: Seq<char>) -> Seq<char>
    decreases s.len(),
{
    if p.len() > 0 && p.len() <= s.len() && s.subrange(0, p.len() as int) == p {
        trim_start(s.subrange(p.len() as int, s.len() as int), p)
    } else {
        s
    }
}

/// The path of a staged file relative to the staging root: the root and
/// then any leading separators removed.
pub open spec fn relative_path(path: Seq<char>, root: Seq<char>) -> Seq<char> {
    trim_start(trim_start(path, root), seq!['/'])
}

/// The file-list entry of a file: its relative path, a space and the
/// hexadecimal digest of its content.
pub open spec fn file_entry(path: Seq<char>, root: Seq<char>, content: Seq<u8>) -> Seq<char> {
    relative_path(path, root) + seq![' '] + hex(sha256(content))
}

/// The manifest's own name, which a file list never holds.
pub open spec fn is_manifest_path(path: Seq<char>, root: Seq<char>) -> bool {
    relative_path(path, root) == "manifest.yml"@
}

/// The file list of staged files, in the order given, without the manifest.
pub open spec fn file_list(files: Seq<(String, Vec<u8>)>, root: Seq<char>) -> Seq<Seq<char>>
    decreases files.len(),
{
    if files.len() == 0 {
        Seq::empty()
    } else {
        let rest = file_list(files.drop_last(), root);
        let f = files.last();
        if is_manifest_path(f.0@, root) {
            rest
        } else {
            rest.push(file_entry(f.0@, root, f.1@))
        }
    }
}

/// Whether `s` starts with `p` at position `at`.
fn has_at(s: &str, p: &str, at: usize) -> (r: bool)
    requires
        at <= s@.len(),
    ensures
        r == (at + p@.len() <= s@.len() && s@.subrange(at as int, at + p@.len()) == p@),
{
    let n = s.unicode_len();
    let m = p.unicode_len();
    if m > n - at {
        return false;
    }
    let mut k: usize = 0;
    while k < m
        invariant
            k <= m,
            m == p@.len(),
            n == s@.len(),
            at + m <= n,
            forall|j: int| 0 <= j < k ==> s@[at + j] == p@[j],
        decreases m - k,
    {
        if s.get_char(at + k) != p.get_char(k) {
            assert(s@.subrange(at as int, at + p@.len())[k as int] != p@[k as int]);
            return false;
        }
        k = k + 1;
    }
    assert(s@.subrange(at as int, at + p@.len()) =~= p@);
    true
}

/// Removes every leading occurrence of `p`.
pub fn trim_start_all(s: &str, p: &str) -> (r: String)
    ensures
        r@ == trim_start(s@, p@),
{
    let n = s.unicode_len();
    let m = p.unicode_len();
    if m == 0 {
        return String::from_str(s);
    }
    let mut at: usize = 0;
    assert(s@.subrange(0, n as int) =~= s@);
    while has_at(s, p, at)
        invariant
            at <= n,
            n == s@.len(),
            m == p@.len(),
            m > 0,
            trim_start(s@, p@) == trim_start(s@.subrange(at as int, n as int), p@),
        decreases n - at,
    {
        proof {
            let t = s@.subrange(at as int, n as int);
            assert(t.subrange(0, m as int) =~= s@.subrange(at as int, at + m));
            assert(t.subrange(m as int, t.len() as int) =~= s@.subrange(at + m, n as int));
        }
        at = at + m;
    }
    proof {
        let t = s@.subrange(at as int, n as int);
        if p@.len() <= t.len() {
            assert(t.subrange(0, m as int) =~= s@.subrange(at as int, at + m));
        }
    }
    String::from_str(s.substring_char(at, n))
}

/// The relative path of a staged file.
pub fn relative_to(path: &str, root: &str) -> (r: String)
    ensures
        r@ == relative_path(path@, root@),
{
    let a = trim_start_all(path, root);
    proof {
        reveal_strlit("/");
        assert("/"@ =~= seq!['/']);
    }
    trim_start_all(a.as_str(), "/")
}

/// The file-list entry of one staged file and its content.
pub fn file_list_entry(path: &str, root: &str, content: &[u8]) -> (r: String)
    ensures
        r@ == file_entry(path@, root@, content@),
{
    let mut e = relative_to(path, root);
    proof { reveal_strlit(" "); }
    e.append(" ");
    let digest = sha256_digest(content);
    let h = hex_string(digest.as_slice());
    e.append(h.as_str());
    e
}

/// The file list of the staged files, each given with its content; the
/// manifest itself is left out.
pub fn gen_file_list(files: &Vec<(String, Vec<u8>)>, root: &str) -> (r: Vec<String>)
    ensures
        crate::text::views(r@) == file_list(files@, root@),
{
    let mut r: Vec<String> = Vec::new();
    let mut i: usize = 0;
    while i < files.len()
        invariant
            i <= files@.len(),
            crate::text::views(r@) == file_list(files@.subrange(0, i as int), root@),
        decreases files@.len() - i,
    {
        let ghost p = files@.subrange(0, i as int + 1);
        assert(p.drop_last() =~= files@.subrange(0, i as int));
        assert(p.last() == files@[i as int]);
        let rel = relative_to(files[i].0.as_str(), root);
        proof { reveal_strlit("manifest.yml"); }
        if !crate::text::same_text(rel.as_str(), "manifest.yml") {
            let e = file_list_entry(files[i].0.as_str(), root, files[i].1.as_slice());
            r.push(e);
            assert(crate::text::views(r@) =~= file_list(files@.subrange(0, i as int), root@).push(e@));
        }
        i = i + 1;
    }
    assert(files@.subrange(0, files@.len() as int) =~= files@);
    r
}

} // verus!
