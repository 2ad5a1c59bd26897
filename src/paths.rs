use vstd::prelude::*;

verus! {

/// Where the data files are looked for.
#[derive(Debug, Clone, Copy, PartialEq, Eq, Structural)]
pub enum DataDir {
    /// `data` beside the executable.
    BesideExe,
    /// `data` three levels above the executable's directory (a development layout).
    ProjectRoot,
    /// `data` in the current working directory.
    WorkingDir,
}

/// Picks the data directory from which candidates exist, in order of precedence: beside
/// the executable, then the project root; the working directory otherwise.
pub fn choose_data_dir(beside_exe_exists: bool, project_root_exists: bool) -> (r: DataDir)
    ensures
        beside_exe_exists ==> r == DataDir::BesideExe,
        !beside_exe_exists && project_root_exists ==> r == DataDir::ProjectRoot,
        !beside_exe_exists && !project_root_exists ==> r == DataDir::WorkingDir,
{
    if beside_exe_exists {
        DataDir::BesideExe
    } else if project_root_exists {
        DataDir::ProjectRoot
    } else {
        DataDir::WorkingDir
    }
}

} // verus!
