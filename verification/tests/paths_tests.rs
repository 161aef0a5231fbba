use frs_manager::paths::{
    bin_dir_path, frs_exe_path, get_download_path, installer_exe_path, join_path,
    uninstaller_exe_path, version_file_path,
};

#[test]
fn install_directory_sits_under_program_files() {
    assert_eq!(
        get_download_path("C:\\Program Files"),
        "C:\\Program Files\\FRS_Manager"
    );
}

#[test]
fn layout_matches_the_install_convention() {
    let dir = get_download_path("C:\\Program Files");
    let bin = bin_dir_path(&dir);
    assert_eq!(bin, "C:\\Program Files\\FRS_Manager\\bin");
    assert_eq!(
        frs_exe_path(&bin),
        "C:\\Program Files\\FRS_Manager\\bin\\frs.exe"
    );
    assert_eq!(
        installer_exe_path(&dir),
        "C:\\Program Files\\FRS_Manager\\installer.exe"
    );
    assert_eq!(
        uninstaller_exe_path(&dir),
        "C:\\Program Files\\FRS_Manager\\uninstaller.exe"
    );
    assert_eq!(
        version_file_path(&dir),
        "C:\\Program Files\\FRS_Manager\\version_id"
    );
}

#[test]
fn join_inserts_a_single_backslash() {
    assert_eq!(join_path("a", "b"), "a\\b");
    assert_eq!(join_path("", "b"), "\\b");
}
