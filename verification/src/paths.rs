//! The install directory layout: where the manager's directory, its `bin`
//! subdirectory, the three artifacts and the version marker live, as
//! backslash-joined path strings.

use vstd::prelude::*;
use vstd::string::StringExecFns;

verus! {

/// `base` and `name` joined with a single backslash.
pub open spec fn joined(base: Seq<char>, name: Seq<char>) -> Seq<char> {
    base + seq!['\\'] + name
}

/// Joins one path component onto a base path.
pub fn join_path(base: &str, name: &str) -> (r: String)
    ensures
        r@ == joined(base@, name@),
{
    let mut out = String::from_str(base);
    out.append("\\");
    proof {
        reveal_strlit("\\");
        assert(out@ =~= base@ + seq!['\\']);
    }
    out.append(name);
    out
}

/// The manager's install directory under the machine's program-files
/// directory, whose location the caller reads from the environment.
pub fn get_download_path(program_files: &str) -> (r: String)
    ensures
        r@ == joined(program_files@, "FRS_Manager"@),
{
    join_path(program_files, "FRS_Manager")
}

/// The `bin` subdirectory holding the tool binary.
pub fn bin_dir_path(download_path: &str) -> (r: String)
    ensures
        r@ == joined(download_path@, "bin"@),
{
    join_path(download_path, "bin")
}

/// The tool binary inside the `bin` subdirectory.
pub fn frs_exe_path(bin_path: &str) -> (r: String)
    ensures
        r@ == joined(bin_path@, "frs.exe"@),
{
    join_path(bin_path, "frs.exe")
}

/// The installer executable inside the install directory.
pub fn installer_exe_path(download_path: &str) -> (r: String)
    ensures
        r@ == joined(download_path@, "installer.exe"@),
{
    join_path(download_path, "installer.exe")
}

/// The uninstaller executable inside the install directory.
pub fn uninstaller_exe_path(download_path: &str) -> (r: String)
    ensures
        r@ == joined(download_path@, "uninstaller.exe"@),
{
    join_path(download_path, "uninstaller.exe")
}

/// The version marker file inside the install directory.
pub fn version_file_path(download_path: &str) -> (r: String)
    ensures
        r@ == joined(download_path@, "version_id"@),
{
    join_path(download_path, "version_id")
}

} // verus!
