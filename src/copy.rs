//! Copying a file into place so that its destination never holds part of it.
use crate::text::{directory, directory_of, extension, extension_of, file_name_of};
use vstd::prelude::*;

verus! {

/// The file the bytes are first written to: the destination's name with
/// `.tmp` after its extension (after an empty one when it has none), in the
/// same directory.
pub open spec fn temp_path_of(destination: Seq<char>) -> Option<Seq<char>> {
    match extension_of(destination) {
        Some(_) => Some(destination + ".tmp"@),
        None => match file_name_of(destination) {
            Some(_) => Some(destination + "..tmp"@),
            None => None,
        },
    }
}

/// What a copy does.
pub enum CopyPlan {
    /// A dry run: nothing is touched, and this line says what would be done.
    Report(String),
    /// Create `directory` (and its parents), copy the source to `temp`, then
    /// rename `temp` onto `destination`.
    Copy { directory: String, temp: String, destination: String },
}

/// The line a dry run reports.
pub open spec fn report_of(source: Seq<char>, destination: Seq<char>) -> Seq<char> {
    "Would copy "@ + source + " to "@ + destination
}

/// The plan for copying `source` to `destination`; `None` when the
/// destination names no file.
pub open spec fn copy_plan_ok(
    source: Seq<char>,
    destination: Seq<char>,
    dry_run: bool,
    r: Option<CopyPlan>,
) -> bool {
    if dry_run {
        r matches Some(CopyPlan::Report(line)) && line@ == report_of(source, destination)
    } else {
        match temp_path_of(destination) {
            Some(t) => r matches Some(CopyPlan::Copy { directory, temp, destination: d }) && temp@
                == t && d@ == destination && directory@ == directory_of(destination),
            None => r is None,
        }
    }
}

/// The temporary file beside `destination`.
pub fn temp_path(destination: &str) -> (r: Option<String>)
    ensures
        match r {
            Some(t) => temp_path_of(destination@) == Some(t@),
            None => temp_path_of(destination@) is None,
        },
{
    match extension(destination) {
        Some(_) => {
            let mut t = destination.to_owned();
            t.append(".tmp");
            Some(t)
        },
        None => match crate::text::file_name(destination) {
            Some(_) => {
                let mut t = destination.to_owned();
                t.append("..tmp");
                Some(t)
            },
            None => None,
        },
    }
}

/// Plans a copy of `source` to `destination`: a report on a dry run, else the
/// directory to create, and the temporary file that is renamed onto the
/// destination once it holds every byte.
pub fn plan_safe_copy(source: &str, destination: &str, dry_run: bool) -> (r: Option<CopyPlan>)
    ensures
        copy_plan_ok(source@, destination@, dry_run, r),
{
    if dry_run {
        let mut line = String::from_str("Would copy ");
        line.append(source);
        line.append(" to ");
        line.append(destination);
        return Some(CopyPlan::Report(line));
    }
    let temp = temp_path(destination)?;
    Some(
        CopyPlan::Copy {
            directory: directory(destination),
            temp,
            destination: destination.to_owned(),
        },
    )
}

/// The file system as a map from path to content: the first step of a copy
/// writes the content to the temporary file.
pub open spec fn write_temp(fs: Map<Seq<char>, Seq<u8>>, temp: Seq<char>, content: Seq<u8>) -> Map<
    Seq<char>,
    Seq<u8>,
> {
    fs.insert(temp, content)
}

/// The second step renames the temporary file onto the destination.
pub open spec fn rename(fs: Map<Seq<char>, Seq<u8>>, from: Seq<char>, to: Seq<char>) -> Map<
    Seq<char>,
    Seq<u8>,
> {
    fs.remove(from).insert(to, fs[from])
}

/// A copy stopped after its first step leaves the destination as it was (no
/// file there if there was none); once the rename is done, the destination
/// holds exactly the source's content and the temporary file is gone.
pub proof fn lemma_copy_atomic(
    fs: Map<Seq<char>, Seq<u8>>,
    destination: Seq<char>,
    content: Seq<u8>,
)
    requires
        temp_path_of(destination) is Some,
    ensures
        ({
            let temp = temp_path_of(destination)->0;
            let mid = write_temp(fs, temp, content);
            let done = rename(mid, temp, destination);
            &&& temp != destination
            &&& mid.contains_key(destination) == fs.contains_key(destination)
            &&& fs.contains_key(destination) ==> mid[destination] == fs[destination]
            &&& done.contains_key(destination)
            &&& done[destination] == content
            &&& !done.contains_key(temp)
        }),
{
    reveal_strlit(".tmp");
    reveal_strlit("..tmp");
    let temp = temp_path_of(destination)->0;
    assert(temp.len() > destination.len());
}

} // verus!
