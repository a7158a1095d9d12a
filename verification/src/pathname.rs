//! Parts of a path, as `std::path::Path` takes it apart.

use vstd::prelude::*;

verus! {

/// What `Path::parent` gives for the path `p`, as text.
pub uninterp spec fn parent_of(p: Seq<char>) -> Option<Seq<char>>;

/// What `Path::extension` gives for the path `p`, as text.
pub uninterp spec fn extension_of(p: Seq<char>) -> Option<Seq<char>>;

/// `Path::new(p).parent()`, as text. `std` documents that the parent is
/// missing only where the path ends in a root or a prefix, or is empty, so
/// a non-empty path that does not start with `/` has one. The parent of a
/// UTF-8 path is a part of it, so its text is exact. What the parent is
/// beyond that is left to the name `parent_of`.
#[verifier::external_body]
pub fn path_parent(p: &str) -> (r: Option<String>)
    ensures
        match r {
            Some(q) => parent_of(p@) == Some(q@),
            None => parent_of(p@) is None,
        },
        p@.len() > 0 && p@[0] != '/' ==> r is Some,
{
    match std::path::Path::new(p).parent() {
        Some(q) => Some(q.to_string_lossy().into_owned()),
        None => None,
    }
}

/// `Path::new(p).extension()`, as text where it is valid UTF-8 (a part of a
/// UTF-8 path always is). The extension is taken from the file name, the
/// last component of the path, so it holds no `/`. Which part of the file
/// name it is, is left to the name `extension_of`.
#[verifier::external_body]
pub fn path_extension(p: &str) -> (r: Option<String>)
    ensures
        match r {
            Some(e) => extension_of(p@) == Some(e@),
            None => extension_of(p@) is None,
        },
        r matches Some(e) ==> !e@.contains('/'),
{
    match std::path::Path::new(p).extension() {
        Some(e) => match e.to_str() {
            Some(s) => Some(s.to_string()),
            None => None,
        },
        None => None,
    }
}

} // verus!

verus! {

/// The path `base` extended with `part`, as `PathBuf::push` (and
/// `Path::join`) extend it on Unix: an absolute `part` replaces `base`;
/// otherwise `part` is appended, after a `/` where `base` is not empty and
/// does not already end in one.
pub open spec fn pushed(base: Seq<char>, part: Seq<char>) -> Seq<char> {
    if part.len() > 0 && part[0] == '/' {
        part
    } else if base.len() == 0 || base.last() == '/' {
        base + part
    } else {
        base + "/"@ + part
    }
}

/// Extends the path `base` with `part`, as `PathBuf::push` does on Unix.
pub fn push_path(base: &mut String, part: &str)
    ensures
        final(base)@ == pushed(old(base)@, part@),
{
    proof {
        reveal_strlit("/");
    }
    let n: usize = part.unicode_len();
    if n > 0 && part.get_char(0) == '/' {
        *base = String::from_str(part);
        return;
    }
    let m: usize = base.as_str().unicode_len();
    if m == 0 || base.as_str().get_char(m - 1) == '/' {
        base.append(part);
    } else {
        base.append("/");
        base.append(part);
    }
}

} // verus!
