//! The path dispatcher's decision logic: which files a run touches and where
//! each output goes.
//!
//! The caller resolves the target path against the filesystem and hands the
//! result over as a [`TargetInfo`]; this module turns it into the ordered
//! list of read/transform/write tasks, without doing any I/O itself.  A file
//! target yields one task; a directory target yields one task per immediate
//! entry that is a regular file with extension exactly `txt`, in enumeration
//! order; a missing target is rejected before anything could be touched.

use vstd::prelude::*;

use crate::cipher::CipherError;
use crate::cipher::Mode;
use crate::naming::derived_name;
use crate::naming::derived_name_spec;
use crate::naming::has_txt_extension;
use crate::naming::name_has_txt_extension;

verus! {

/// Where the output of a processed file goes: over the source file itself,
/// or into a new file under a name derived from the source's stem.
#[derive(Clone, Copy, Debug, PartialEq, Eq, Structural)]
pub enum Placement {
    InPlace,
    DerivedName,
}

/// One immediate directory entry, as the caller resolved it: its file name
/// and whether it is a regular file (a subdirectory is not).
#[derive(Clone)]
pub struct DirEntry {
    pub name: String,
    pub is_file: bool,
}

/// A resolved unit of work: read `source`, transform the bytes, and write
/// them all to `dest`.  Under in-place placement the two names are equal.
#[derive(Clone, Debug)]
pub struct FileTask {
    pub source: String,
    pub dest: String,
}

/// What the target path named, as the caller resolved it: an existing
/// regular file, an existing directory with its immediate entries, or
/// nothing at all.
pub enum TargetInfo {
    File { name: String },
    Directory { entries: Vec<DirEntry> },
    Missing,
}

/// The destination name for one source file under the given mode and
/// placement: the source itself, or the mode's derived name.
pub open spec fn dest_spec(name: Seq<char>, mode: Mode, placement: Placement) -> Seq<char> {
    match placement {
        Placement::InPlace => name,
        Placement::DerivedName => derived_name_spec(name, mode),
    }
}

/// Whether the directory scan selects an entry: it must be a regular file
/// whose extension is exactly `txt`.
pub open spec fn entry_selected(e: DirEntry) -> bool {
    e.is_file && has_txt_extension(e.name@)
}

/// The entries a directory scan acts on, in enumeration order.
pub open spec fn selected_entries(entries: Seq<DirEntry>) -> Seq<DirEntry> {
    entries.filter(|e: DirEntry| entry_selected(e))
}

/// Whether a task processes the file `name` under the given mode and
/// placement.
pub open spec fn task_for(t: FileTask, name: Seq<char>, mode: Mode, placement: Placement) -> bool {
    t.source@ == name && t.dest@ == dest_spec(name, mode, placement)
}

/// The destination name for one source file, as [`dest_spec`] states it.
pub fn make_dest(name: &str, mode: Mode, placement: Placement) -> (r: String)
    ensures
        r@ == dest_spec(name@, mode, placement),
{
    match placement {
        Placement::InPlace => name.to_owned(),
        Placement::DerivedName => derived_name(name, mode),
    }
}

/// Turns a resolved target into the ordered list of file tasks.
///
/// A missing target yields `NotFoundError` and no task.  A file target
/// yields exactly one task for that file.  A directory target yields one
/// task per selected entry — a regular file with extension exactly `txt` —
/// in enumeration order, and no task for any other entry.
pub fn plan_tasks(target: &TargetInfo, mode: Mode, placement: Placement) -> (r: Result<
    Vec<FileTask>,
    CipherError,
>)
    ensures
        r is Err <==> target is Missing,
        r matches Err(e) ==> e == CipherError::NotFoundError,
        target matches TargetInfo::File { name } ==> r matches Ok(tasks) && tasks@.len() == 1
            && task_for(tasks@[0], name@, mode, placement),
        target matches TargetInfo::Directory { entries } ==> r matches Ok(tasks) && {
            let sel = selected_entries(entries@);
            &&& tasks@.len() == sel.len()
            &&& forall|i: int|
                0 <= i < sel.len() ==> task_for(#[trigger] tasks@[i], sel[i].name@, mode, placement)
        },
{
    match target {
        TargetInfo::Missing => Err(CipherError::NotFoundError),
        TargetInfo::File { name } => {
            let dest = make_dest(name.as_str(), mode, placement);
            let mut tasks: Vec<FileTask> = Vec::new();
            tasks.push(FileTask { source: name.clone(), dest });
            Ok(tasks)
        },
        TargetInfo::Directory { entries } => {
            let n = entries.len();
            let mut tasks: Vec<FileTask> = Vec::new();
            let mut i: usize = 0;
            proof {
                reveal(Seq::filter);
                assert(entries@.take(0) =~= Seq::<DirEntry>::empty());
            }
            while i < n
                invariant
                    n == entries@.len(),
                    i <= n,
                    tasks@.len() == selected_entries(entries@.take(i as int)).len(),
                    forall|j: int|
                        0 <= j < tasks@.len() ==> task_for(
                            #[trigger] tasks@[j],
                            selected_entries(entries@.take(i as int))[j].name@,
                            mode,
                            placement,
                        ),
                decreases n - i,
            {
                let e = &entries[i];
                let selected = e.is_file && name_has_txt_extension(e.name.as_str());
                proof {
                    reveal(Seq::filter);
                    let before = entries@.take(i as int);
                    let after = entries@.take((i + 1) as int);
                    assert(after.drop_last() =~= before);
                    assert(after.last() == entries@[i as int]);
                    if selected {
                        assert(selected_entries(after) == selected_entries(before).push(
                            entries@[i as int],
                        ));
                    } else {
                        assert(selected_entries(after) == selected_entries(before));
                    }
                }
                if selected {
                    let dest = make_dest(e.name.as_str(), mode, placement);
                    tasks.push(FileTask { source: e.name.clone(), dest });
                }
                i += 1;
            }
            proof {
                assert(entries@.take(n as int) =~= entries@);
            }
            Ok(tasks)
        },
    }
}

} // verus!
