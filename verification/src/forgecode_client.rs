//! Requests to the code-execution service and its answers.
use vstd::prelude::*;

verus! {

/// A shell command to run, optionally in a given directory.
pub struct CommandRequest {
    pub command: String,
    pub working_dir: Option<String>,
}

/// What a command printed and how it ended.
pub struct CommandResponse {
    pub stdout: String,
    pub stderr: String,
    pub exit_code: Option<i32>,
    pub success: bool,
}

impl CommandRequest {
    /// The directory the command runs in: its own, or else the client's
    /// current directory `current`.
    pub fn working_dir_or(&self, current: &str) -> (dir: String)
        ensures
            dir@ == match self.working_dir {
                Some(d) => d@,
                None => current@,
            },
    {
        match &self.working_dir {
            Some(d) => d.clone(),
            None => current.to_string(),
        }
    }
}

/// A file the code-execution service knows of: its path and its name.
pub struct DiscoveredFile {
    pub path: String,
    pub name: String,
}

/// Whether the parent of `path` is the directory `dir`, as
/// `std::path::Path` compares paths (component by component).
pub uninterp spec fn parent_is(path: Seq<char>, dir: Seq<char>) -> bool;

/// `std::path::Path::parent` of `path`, compared with `dir`.
#[verifier::external_body]
fn path_parent_is(path: &str, dir: &str) -> (r: bool)
    ensures
        r == parent_is(path@, dir@),
{
    std::path::Path::new(path).parent() == Some(std::path::Path::new(dir))
}

/// The names of the files that `keep` marks, in the order given.
pub open spec fn selected_names(files: Seq<DiscoveredFile>, keep: Seq<bool>) -> Seq<Seq<char>>
    decreases files.len(),
{
    if files.len() == 0 {
        Seq::empty()
    } else {
        let earlier = selected_names(files.drop_last(), keep);
        if keep[files.len() - 1] {
            earlier.push(files.last().name@)
        } else {
            earlier
        }
    }
}

/// Which files lie directly in `dir`.
pub open spec fn in_directory(files: Seq<DiscoveredFile>, dir: Seq<char>) -> Seq<bool> {
    files.map_values(|f: DiscoveredFile| parent_is(f.path@, dir))
}

/// The names of the files that `keep` marks.
pub fn select_names(files: &Vec<DiscoveredFile>, keep: &Vec<bool>) -> (names: Vec<String>)
    requires
        keep@.len() == files@.len(),
    ensures
        names@.map_values(|n: String| n@) == selected_names(files@, keep@),
{
    let mut names: Vec<String> = Vec::new();
    let n = files.len();
    let mut i: usize = 0;
    while i < n
        invariant
            n == files@.len(),
            n == keep@.len(),
            i <= n,
            names@.map_values(|n: String| n@) == selected_names(files@.take(i as int), keep@),
        decreases n - i,
    {
        proof {
            assert(files@.take(i + 1).drop_last() =~= files@.take(i as int));
            assert(files@.take(i + 1).last() == files@[i as int]);
        }
        if keep[i] {
            let ghost before = names@;
            names.push(files[i].name.clone());
            proof {
                assert(names@.map_values(|n: String| n@) =~= before.map_values(|n: String| n@).push(
                    files@[i as int].name@,
                ));
            }
        }
        i = i + 1;
    }
    assert(files@.take(n as int) =~= files@);
    names
}

/// The names of the files directly in `dir`, in the order given.
pub fn files_in_directory(files: &Vec<DiscoveredFile>, dir: &str) -> (names: Vec<String>)
    ensures
        names@.map_values(|n: String| n@) == selected_names(files@, in_directory(files@, dir@)),
{
    let mut keep: Vec<bool> = Vec::new();
    let n = files.len();
    let mut i: usize = 0;
    while i < n
        invariant
            n == files@.len(),
            i <= n,
            keep@ == in_directory(files@.take(i as int), dir@),
        decreases n - i,
    {
        keep.push(path_parent_is(files[i].path.as_str(), dir));
        proof {
            assert(in_directory(files@.take(i + 1), dir@) =~= in_directory(
                files@.take(i as int),
                dir@,
            ).push(parent_is(files@[i as int].path@, dir@)));
        }
        i = i + 1;
    }
    assert(files@.take(n as int) =~= files@);
    select_names(files, &keep)
}

} // verus!
