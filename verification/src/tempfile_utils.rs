//! Where an archive is staged, and how to show that place.

use vstd::prelude::*;

verus! {

/// What `diff_paths` of `pathdiff` gives for `path` seen from the directory
/// `base`: a path that leads from `base` to `path`, or `None` where it finds
/// none. The two paths are read in the path syntax of the platform that the
/// library is built for.
pub uninterp spec fn relative_path(path: Seq<char>, base: Seq<char>) -> Option<Seq<char>>;

/// Asks `pathdiff::diff_paths` for the way from `base` to `path`. The
/// result is built from components of the two paths and `..`, so as text
/// it is exact. The contract only gives it its name.
#[verifier::external_body]
fn diff_paths(path: &str, base: &str) -> (res: Option<String>)
    ensures
        match res {
            Some(way) => relative_path(path@, base@) == Some(way@),
            None => relative_path(path@, base@) is None,
        },
{
    pathdiff::diff_paths(path, base).map(|way| way.to_string_lossy().into_owned())
}

/// The directory in which an archive is extracted before it is moved into
/// place, held by its path.
#[derive(Clone, Debug, PartialEq, Eq)]
pub struct StagingDir {
    pub path: String,
}

impl View for StagingDir {
    type V = Seq<char>;

    /// The path of the directory.
    open spec fn view(&self) -> Seq<char> {
        self.path@
    }
}

/// How to show a temporary directory to a user.
pub trait TempDirExt {
    /// The path of the directory as seen from the directory `from`, which
    /// is given in canonical form. `None` where there is no such path.
    fn relative_path_from(&self, from: &str) -> Option<String>;
}

impl TempDirExt for StagingDir {
    fn relative_path_from(&self, from: &str) -> (res: Option<String>)
        ensures
            match res {
                Some(way) => relative_path(self@, from@) == Some(way@),
                None => relative_path(self@, from@) is None,
            },
    {
        diff_paths(self.path.as_str(), from)
    }
}

} // verus!
