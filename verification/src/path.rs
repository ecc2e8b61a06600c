//! File paths reduced to what the service reads of them: a directory and a final name.

use vstd::prelude::*;

use crate::model::Duplicate;

verus! {

/// A path split into its final name and the directory that siblings of that name live in.
///
/// A path without a final name (a root, or one that ends in `..`) has no `file_name`, and its
/// `directory` is the path itself.
#[derive(Clone, Debug, PartialEq, Eq)]
pub struct FilePath {
    pub directory: String,
    pub file_name: Option<String>,
}

/// The deep view of a [`FilePath`].
#[verifier::ext_equal]
pub struct PathView {
    pub directory: Seq<char>,
    pub file_name: Option<Seq<char>>,
}

impl DeepView for FilePath {
    type V = PathView;

    open spec fn deep_view(&self) -> PathView {
        PathView { directory: self.directory@, file_name: self.file_name.deep_view() }
    }
}

impl Duplicate for FilePath {
    fn duplicate(&self) -> (copy: Self) {
        FilePath { directory: self.directory.clone(), file_name: self.file_name.duplicate() }
    }
}

/// The final name of a path, empty if it has none.
pub open spec fn name_or_empty(path: PathView) -> Seq<char> {
    match path.file_name {
        Some(name) => name,
        None => Seq::empty(),
    }
}

/// The path whose final name is that of `path` with `suffix` appended.
pub open spec fn with_suffix(path: PathView, suffix: Seq<char>) -> PathView {
    PathView { directory: path.directory, file_name: Some(name_or_empty(path) + suffix) }
}

/// Appends a suffix to the final name of a path.
pub fn append_suffix(path: &FilePath, suffix: &str) -> (result: FilePath)
    ensures
        result.deep_view() == with_suffix(path.deep_view(), suffix@),
{
    let mut name = match &path.file_name {
        Some(name) => name.clone(),
        None => String::new(),
    };
    name.append(suffix);
    FilePath { directory: path.directory.clone(), file_name: Some(name) }
}

/// The sibling of a path with another final name.
pub open spec fn sibling(path: PathView, name: Seq<char>) -> PathView {
    PathView { directory: path.directory, file_name: Some(name) }
}

/// A suffix goes behind the name, in the same directory, and suffixes add up; a sibling has its name
/// and the same directory.
pub proof fn suffixes_add_up(
    path: PathView,
    first: Seq<char>,
    second: Seq<char>,
    name: Seq<char>,
)
    ensures
        with_suffix(with_suffix(path, first), second) == with_suffix(path, first + second),
        with_suffix(path, first).directory == path.directory,
        with_suffix(path, first).file_name is Some,
        path.file_name is Some ==> with_suffix(path, first).file_name->0 == path.file_name->0
            + first,
        path.file_name is None ==> with_suffix(path, first).file_name->0 == first,
        sibling(path, name).directory == path.directory,
        sibling(path, name).file_name == Some(name),
{
    assert(name_or_empty(path) + first + second =~= name_or_empty(path) + (first + second));
    if path.file_name is None {
        assert(Seq::<char>::empty() + first =~= first);
    }
}

} // verus!
