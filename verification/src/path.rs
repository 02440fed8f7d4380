use vstd::prelude::*;
use vstd::string::StrSliceExecFns;
use vstd::string::StringExecFns;

use crate::error::ErrorV;
use crate::error::IncludeError;
use crate::error::missing_reference_error;
use crate::error::msg_missing_reference;

verus! {

// Paths are modelled as plain strings with `/` as the component separator,
// as they stand on a Unix file system. Canonicalization (symlink and `..`
// resolution) needs the file system and is left to the caller: resolution
// here produces the candidate path that the caller canonicalizes and opens.

/// Whether a path is absolute: it starts at the root.
pub open spec fn is_absolute_path(p: Seq<char>) -> bool {
    p.len() > 0 && p[0] == '/'
}

/// The index of the last separator in a path, or -1 if it has none.
pub open spec fn last_separator(p: Seq<char>) -> int
    decreases p.len(),
{
    if p.len() == 0 {
        -1
    } else if p[p.len() - 1] == '/' {
        p.len() - 1
    } else {
        last_separator(p.drop_last())
    }
}

/// The last separator is a separator, nothing follows it but non-separators,
/// and -1 means the path has no separator at all.
pub proof fn lemma_last_separator(p: Seq<char>)
    ensures
        -1 <= last_separator(p) < p.len(),
        last_separator(p) >= 0 ==> p[last_separator(p)] == '/',
        forall|j: int| last_separator(p) < j < p.len() ==> p[j] != '/',
    decreases p.len(),
{
    if p.len() > 0 && p[p.len() - 1] != '/' {
        lemma_last_separator(p.drop_last());
        assert(forall|j: int| 0 <= j < p.len() - 1 ==> p[j] == p.drop_last()[j]);
    }
}

/// The directory a file path lies in: the path cut at its last separator.
/// A name with no separator lies in the empty (current) directory; a file
/// directly under the root lies in the root.
pub open spec fn parent_dir(p: Seq<char>) -> Seq<char> {
    let i = last_separator(p);
    if i < 0 {
        Seq::empty()
    } else if i == 0 {
        "/"@
    } else {
        p.subrange(0, i)
    }
}

/// A relative path appended to a base directory, with a separator between
/// them where the base does not already end in one.
pub open spec fn join_path(base: Seq<char>, rel: Seq<char>) -> Seq<char> {
    if base.len() == 0 {
        rel
    } else if base[base.len() - 1] == '/' {
        base + rel
    } else {
        base + "/"@ + rel
    }
}

/// Spec-level image of a reference context.
#[verifier::ext_equal]
pub struct ReferenceV {
    pub path: Seq<char>,
    pub is_file: bool,
}

/// The reference context against which relative hrefs are resolved: a path,
/// and whether that path names an existing regular file (in which case its
/// parent directory is the base) or a directory (the base itself). The caller
/// supplies `is_file` from a file system check.
pub struct Reference {
    pub path: String,
    pub is_file: bool,
}

impl DeepView for Reference {
    type V = ReferenceV;

    open spec fn deep_view(&self) -> ReferenceV {
        ReferenceV { path: self.path@, is_file: self.is_file }
    }
}

/// The base directory a reference context stands for.
pub open spec fn reference_base(r: ReferenceV) -> Seq<char> {
    if r.is_file {
        parent_dir(r.path)
    } else {
        r.path
    }
}

/// What href resolution returns: an absolute href is returned as it is; a
/// relative one is appended to the reference base, and fails with a reference
/// error when no reference context is there.
pub open spec fn spec_resolve(href: Seq<char>, reference: Option<ReferenceV>) -> Result<
    Seq<char>,
    ErrorV,
> {
    if is_absolute_path(href) {
        Ok(href)
    } else {
        match reference {
            None => Err(ErrorV::XmlReference(msg_missing_reference())),
            Some(r) => Ok(join_path(reference_base(r), href)),
        }
    }
}

/// The index of the last separator, found by scanning from the end.
fn find_last_separator(p: &str) -> (r: Option<usize>)
    ensures
        match r {
            Some(i) => last_separator(p@) == i,
            None => last_separator(p@) == -1,
        },
{
    proof {
        lemma_last_separator(p@);
    }
    let n = p.unicode_len();
    let mut i: usize = n;
    while i > 0
        invariant
            0 <= i <= n,
            n == p@.len(),
            last_separator(p@) < p@.len(),
            forall|j: int| i <= j < n ==> p@[j] != '/',
        decreases i,
    {
        if p.get_char(i - 1) == '/' {
            proof {
                lemma_last_separator(p@);
                if last_separator(p@) > i - 1 {
                    assert(p@[last_separator(p@)] != '/');
                }
                if last_separator(p@) < i - 1 {
                    assert(p@[i - 1] != '/');
                }
            }
            return Some(i - 1);
        }
        i = i - 1;
    }
    proof {
        lemma_last_separator(p@);
        if last_separator(p@) >= 0 {
            assert(p@[last_separator(p@)] != '/');
        }
    }
    None
}

/// The directory a file path lies in.
fn parent_of(p: &str) -> (r: String)
    ensures
        r@ == parent_dir(p@),
{
    match find_last_separator(p) {
        None => String::new(),
        Some(i) => {
            if i == 0 {
                String::from_str("/")
            } else {
                proof {
                    lemma_last_separator(p@);
                }
                String::from_str(p.substring_char(0, i))
            }
        },
    }
}

/// A relative path appended to a base directory.
fn push_relative(base: String, rel: &str) -> (r: String)
    ensures
        r@ == join_path(base@, rel@),
{
    let n = base.unicode_len();
    if n == 0 {
        String::from_str(rel)
    } else if base.as_str().get_char(n - 1) == '/' {
        base.concat(rel)
    } else {
        let mut b = base;
        b.append("/");
        b.concat(rel)
    }
}

/// Whether a path string is absolute.
fn path_is_absolute(p: &str) -> (r: bool)
    ensures
        r == is_absolute_path(p@),
{
    p.unicode_len() > 0 && p.get_char(0) == '/'
}

/// Resolve an href to the candidate path of the file to read. An absolute
/// href stands as it is; a relative one needs a reference context and is
/// appended to its base directory. The caller canonicalizes the result
/// against the file system before opening it.
///
/// The reference context may name a file (its parent directory is the base)
/// or a directory (itself the base).
pub fn get_file_path_to_read(href: &str, reference_dir: Option<&Reference>) -> (r: Result<
    String,
    IncludeError,
>)
    ensures
        match (r, spec_resolve(href@, reference_dir.deep_view())) {
            (Ok(p), Ok(q)) => p@ == q,
            (Err(e), Err(f)) => e.deep_view() == f,
            _ => false,
        },
{
    if path_is_absolute(href) {
        Ok(String::from_str(href))
    } else {
        match reference_dir {
            None => Err(missing_reference_error()),
            Some(r) => {
                let base = if r.is_file {
                    parent_of(r.path.as_str())
                } else {
                    r.path.clone()
                };
                Ok(push_relative(base, href))
            },
        }
    }
}

/// Law: a reference that names a file and one that names the file's own
/// directory resolve every relative href to the same path.
pub proof fn lemma_file_and_directory_reference_agree(
    dir: Seq<char>,
    name: Seq<char>,
    href: Seq<char>,
)
    requires
        !is_absolute_path(href),
        name.len() > 0,
        forall|j: int| 0 <= j < name.len() ==> name[j] != '/',
        dir.len() > 0,
        dir[dir.len() - 1] != '/',
    ensures
        spec_resolve(href, Some(ReferenceV { path: join_path(dir, name), is_file: true }))
            == spec_resolve(href, Some(ReferenceV { path: dir, is_file: false })),
{
    reveal_strlit("/");
    let p = join_path(dir, name);
    assert(p =~= dir + "/"@ + name);
    assert(p[dir.len() as int] == '/');
    assert(forall|j: int| dir.len() < j < p.len() ==> p[j] == name[j - dir.len() - 1]);
    lemma_last_separator(p);
    if last_separator(p) > dir.len() {
        assert(p[last_separator(p)] != '/');
    }
    if last_separator(p) < dir.len() {
        assert(p[dir.len() as int] != '/');
    }
    assert(last_separator(p) == dir.len());
    assert(parent_dir(p) =~= dir);
}

} // verus!
