//! Where the service keeps the files of each user.

use vstd::prelude::*;
use crate::text::{concat2, concat3, concat4};

verus! {

/// The directory that holds the uploads of all users.
pub const UPLOAD_DIR: &'static str = "./uploads/";

/// The characters of `UPLOAD_DIR`.
pub open spec fn upload_dir() -> Seq<char> {
    "./uploads/"@
}

/// `format!("{}/{}", UPLOAD_DIR, name)`: an entry right under the upload directory.
pub open spec fn under_uploads(name: Seq<char>) -> Seq<char> {
    upload_dir() + "/"@ + name
}

/// `format!("{}/{}/{}", UPLOAD_DIR, user, name)`: an entry in the directory of `user`.
pub open spec fn in_user_dir(user: Seq<char>, name: Seq<char>) -> Seq<char> {
    under_uploads(user) + "/"@ + name
}

/// `format!("{}{}", UPLOAD_DIR, sub)`, or the upload directory itself.
pub open spec fn upload_subdir(sub: Option<Seq<char>>) -> Seq<char> {
    match sub {
        Some(s) => upload_dir() + s,
        None => upload_dir(),
    }
}

/// The directory that `init_upload_dir` makes sure of: the upload directory,
/// or the subdirectory named by `sub` written right after it.
pub fn upload_subdir_path(sub: Option<&str>) -> (r: String)
    ensures
        r@ == upload_subdir(
            match sub {
                Some(s) => Some(s@),
                None => None,
            },
        ),
{
    match sub {
        Some(s) => concat2(UPLOAD_DIR, s),
        None => String::from_str(UPLOAD_DIR),
    }
}

/// The path of `name` right under the upload directory.
pub fn under_uploads_path(name: &str) -> (r: String)
    ensures
        r@ == under_uploads(name@),
{
    concat3(UPLOAD_DIR, "/", name)
}

/// The path of `name` in the directory of `user`.
pub fn in_user_dir_path(user: &str, name: &str) -> (r: String)
    ensures
        r@ == in_user_dir(user@, name@),
{
    let root = under_uploads_path(user);
    concat3(root.as_str(), "/", name)
}

/// `path` with `name` appended after a separator.
pub fn child_path(path: &str, name: &str) -> (r: String)
    ensures
        r@ == path@ + "/"@ + name@,
{
    concat3(path, "/", name)
}

/// `format!("{}{}{}{}", a, b, c, d)` for paths.
pub fn path4(a: &str, b: &str, c: &str, d: &str) -> (r: String)
    ensures
        r@ == a@ + b@ + c@ + d@,
{
    concat4(a, b, c, d)
}

} // verus!
