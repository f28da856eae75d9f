//! Where a received file may be stored.
use crate::error::{DcError, DcErrorView};
use std::path::{Component, Path};
use vstd::prelude::*;

verus! {

/// The kinds of components that a path is made of.
#[derive(Clone, Copy, Debug, Eq, PartialEq, Structural)]
pub enum PathPart {
    Prefix,
    RootDir,
    CurDir,
    ParentDir,
    Normal,
}

/// Whether a component can lead out of the directory that a path is resolved in.
pub open spec fn leads_out(part: PathPart) -> bool {
    part is Prefix || part is RootDir || part is ParentDir
}

/// Whether some component leads out.
pub open spec fn some_part_leads_out(parts: Seq<PathPart>) -> bool {
    exists|i: int| 0 <= i < parts.len() && leads_out(#[trigger] parts[i])
}

/// Whether `..` stands between two slashes, or a slash and an end, at a position of a text.
pub open spec fn parent_at(text: Seq<char>, at: int) -> bool {
    &&& 0 <= at
    &&& at + 2 <= text.len()
    &&& text[at] == '.'
    &&& text[at + 1] == '.'
    &&& at == 0 || text[at - 1] == '/'
    &&& at + 2 == text.len() || text[at + 2] == '/'
}

/// Whether a path leads out of its directory on every platform: it starts with a slash, or one of
/// the names between its slashes is `..`.
pub open spec fn escapes(text: Seq<char>) -> bool {
    ||| text.len() > 0 && text[0] == '/'
    ||| exists|i: int| parent_at(text, i)
}

/// Whether a path means the same on every platform: it has no backslash and no colon.
pub open spec fn portable(text: Seq<char>) -> bool {
    forall|i: int| 0 <= i < text.len() ==> #[trigger] text[i] != '\\' && text[i] != ':'
}

/// Calls `Path::components` of the standard library. The contract claims of every platform that a
/// leading slash and a name `..` are found, and that a path without backslash and colon has no
/// other component that leads out. On paths with a backslash or a colon the platform decides, and
/// nothing more is claimed.
#[verifier::external_body]
fn path_parts(path: &str) -> (parts: Vec<PathPart>)
    ensures
        escapes(path@) ==> some_part_leads_out(parts@),
        portable(path@) && !escapes(path@) ==> !some_part_leads_out(parts@),
{
    Path::new(path).components().map(|component| match component {
        Component::Prefix(_) => PathPart::Prefix,
        Component::RootDir => PathPart::RootDir,
        Component::CurDir => PathPart::CurDir,
        Component::ParentDir => PathPart::ParentDir,
        Component::Normal(_) => PathPart::Normal,
    }).collect()
}

/// Accepts the components of a path that stays inside the directory it is resolved in.
pub fn check_parts(parts: &[PathPart]) -> (result: Result<(), DcError>)
    ensures
        match result {
            Ok(_) => !some_part_leads_out(parts@),
            Err(error) => some_part_leads_out(parts@) && error@ == DcErrorView::InvalidInput(
                "path escapes transfer root"@,
            ),
        },
{
    let mut index: usize = 0;
    while index < parts.len()
        invariant
            index <= parts@.len(),
            forall|i: int| 0 <= i < index ==> !leads_out(#[trigger] parts@[i]),
        decreases parts@.len() - index,
    {
        match parts[index] {
            PathPart::Normal => {},
            PathPart::CurDir => {},
            PathPart::ParentDir | PathPart::RootDir | PathPart::Prefix => {
                assert(leads_out(parts@[index as int]));
                return Err(DcError::invalid_input("path escapes transfer root"));
            },
        }
        index = index + 1;
    }
    Ok(())
}

/// What every outcome of checking a relative path has in common: an empty path is refused, and
/// so is one that escapes; a portable path that does not escape is accepted.
pub open spec fn checked_path<T>(relative: Seq<char>, result: Result<T, DcError>) -> bool {
    match result {
        Ok(_) => relative.len() > 0 && !escapes(relative),
        Err(error) => if relative.len() == 0 {
            error@ == DcErrorView::InvalidInput("relative path is empty"@)
        } else {
            &&& escapes(relative) || !portable(relative)
            &&& error@ == DcErrorView::InvalidInput("path escapes transfer root"@)
        },
    }
}

/// Accepts a relative path that stays inside the directory it is resolved in.
pub fn check_relative(relative: &str) -> (result: Result<(), DcError>)
    ensures
        checked_path(relative@, result),
{
    if relative.is_empty() {
        return Err(DcError::invalid_input("relative path is empty"));
    }
    let parts = path_parts(relative);
    check_parts(parts.as_slice())
}

/// What the platforms make of a path that is adjoined to another one.
pub uninterp spec fn joined_paths(root: Seq<char>, relative: Seq<char>) -> Set<Seq<char>>;

/// Whether a path lies inside a directory: it is made of the two texts, with a separator between
/// them where the directory does not end with a slash.
pub open spec fn lies_inside(root: Seq<char>, relative: Seq<char>, path: Seq<char>) -> bool {
    if root.len() == 0 || root.last() == '/' {
        path == root + relative
    } else {
        path == root.push('/') + relative || path == root.push('\\') + relative
    }
}

/// Calls `Path::join` of the standard library. The contract names what may come back, and claims
/// of texts without backslash and colon that a relative path is put behind the directory, with
/// the separator of the platform. On other texts the platform decides, and nothing more is
/// claimed.
#[verifier::external_body]
fn join_paths(root: &str, relative: &str) -> (path: String)
    ensures
        joined_paths(root@, relative@).contains(path@),
        portable(root@) && portable(relative@) && !escapes(relative@) ==> lies_inside(
            root@,
            relative@,
            path@,
        ),
{
    Path::new(root).join(relative).to_string_lossy().into_owned()
}

/// The path of a file inside a directory, unless the name leads out of it.
pub fn safe_join(root: &str, relative: &str) -> (result: Result<String, DcError>)
    ensures
        checked_path(relative@, result),
        result matches Ok(path) ==> {
            &&& joined_paths(root@, relative@).contains(path@)
            &&& portable(root@) && portable(relative@) ==> lies_inside(root@, relative@, path@)
        },
{
    check_relative(relative)?;
    Ok(join_paths(root, relative))
}

/// An accepted path stays below its directory: it starts with the directory, it ends with the
/// relative path, and no name of that is `..`.
pub proof fn law_joined_path_stays_inside(root: Seq<char>, relative: Seq<char>, path: Seq<char>)
    requires
        relative.len() > 0,
        !escapes(relative),
        lies_inside(root, relative, path),
    ensures
        path.take(root.len() as int) == root,
        path.skip(path.len() - relative.len()) == relative,
        forall|i: int| !parent_at(relative, i),
{
    assert(path.take(root.len() as int) =~= root);
    assert(path.skip(path.len() - relative.len()) =~= relative);
}

/// A path leaves the directory of a transfer exactly where it begins at the root or one of its parts
/// is the parent directory; such a path is refused, and so is an empty one.
pub proof fn law_paths_stay_in_the_directory<T>(
    parts: Seq<PathPart>,
    relative: Seq<char>,
    result: Result<T, DcError>,
)
    ensures
        some_part_leads_out(parts) <==> exists|i: int|
            0 <= i < parts.len() && (#[trigger] parts[i] is Prefix || parts[i] is RootDir || parts[i]
                is ParentDir),
        checked_path(relative, result) && result is Ok ==> {
            &&& relative.len() > 0
            &&& relative[0] != '/'
            &&& forall|at: int|
                0 <= at && at + 2 <= relative.len() && (#[trigger] relative[at]) == '.'
                    && relative[at + 1] == '.' && (at == 0 || relative[at - 1] == '/') ==> at + 2
                    < relative.len() && relative[at + 2] != '/'
        },
        checked_path(relative, result) && relative.len() > 0 && relative[0] != '/' && (forall|at: int|
            0 <= at < relative.len() ==> #[trigger] relative[at] != '.' && relative[at] != '\\'
                && relative[at] != ':') ==> result is Ok,
        checked_path(relative, result) && relative.len() == 0 ==> result is Err,
{
    if some_part_leads_out(parts) {
        let i = choose|i: int| 0 <= i < parts.len() && leads_out(#[trigger] parts[i]);
        assert(parts[i] is Prefix || parts[i] is RootDir || parts[i] is ParentDir);
    }
    if exists|i: int|
        0 <= i < parts.len() && (#[trigger] parts[i] is Prefix || parts[i] is RootDir || parts[i]
            is ParentDir) {
        let i = choose|i: int|
            0 <= i < parts.len() && (#[trigger] parts[i] is Prefix || parts[i] is RootDir || parts[i]
                is ParentDir);
        assert(leads_out(parts[i]));
    }
    if checked_path(relative, result) && result is Ok {
        assert forall|at: int|
            0 <= at && at + 2 <= relative.len() && (#[trigger] relative[at]) == '.' && relative[at
                + 1] == '.' && (at == 0 || relative[at - 1] == '/') implies at + 2 < relative.len()
            && relative[at + 2] != '/' by {
            assert(!parent_at(relative, at));
        }
    }
}

} // verus!
