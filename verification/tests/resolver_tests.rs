use frs_manager::models::{ReleaseAsset, ReleaseResponse};
use frs_manager::resolver::{get_download_data, ResolveError};

fn asset(name: &str, url: &str) -> ReleaseAsset {
    ReleaseAsset {
        browser_download_url: url.to_string(),
        name: name.to_string(),
    }
}

fn full_release(id: i32) -> ReleaseResponse {
    ReleaseResponse {
        url: "https://example.invalid/releases/latest".to_string(),
        assets: vec![
            asset("frs.exe", "https://example.invalid/frs.exe"),
            asset("installer.exe", "https://example.invalid/installer.exe"),
            asset("uninstaller.exe", "https://example.invalid/uninstaller.exe"),
        ],
        id,
    }
}

#[test]
fn resolves_all_three_roles() {
    let data = get_download_data(&full_release(5)).expect("all assets present");
    assert_eq!(data.frs_exe, "https://example.invalid/frs.exe");
    assert_eq!(data.installer_exe, "https://example.invalid/installer.exe");
    assert_eq!(data.uninstaller_exe, "https://example.invalid/uninstaller.exe");
    assert_eq!(data.version, 5);
}

#[test]
fn first_matching_asset_wins() {
    let mut release = full_release(3);
    release.assets.push(asset("frs.exe", "https://example.invalid/frs-second.exe"));
    let data = get_download_data(&release).expect("all assets present");
    assert_eq!(data.frs_exe, "https://example.invalid/frs.exe");
}

#[test]
fn extra_assets_are_ignored() {
    let mut release = full_release(9);
    release.assets.insert(0, asset("readme.txt", "https://example.invalid/readme.txt"));
    let data = get_download_data(&release).expect("all assets present");
    assert_eq!(data.version, 9);
    assert_eq!(data.frs_exe, "https://example.invalid/frs.exe");
}

#[test]
fn missing_frs_fails_naming_it() {
    let mut release = full_release(5);
    release.assets.retain(|a| a.name != "frs.exe");
    let err = get_download_data(&release).expect_err("frs.exe is missing");
    assert_eq!(err, ResolveError::MissingFrs);
    assert_eq!(err.message(), "Could not find frs in assets list");
}

#[test]
fn missing_installer_fails_naming_it() {
    let mut release = full_release(5);
    release.assets.retain(|a| a.name != "installer.exe");
    let err = get_download_data(&release).expect_err("installer.exe is missing");
    assert_eq!(err, ResolveError::MissingInstaller);
    assert_eq!(err.message(), "Could not find installer in assets list");
}

#[test]
fn missing_uninstaller_fails_naming_it() {
    let mut release = full_release(5);
    release.assets.retain(|a| a.name != "uninstaller.exe");
    let err = get_download_data(&release).expect_err("uninstaller.exe is missing");
    assert_eq!(err, ResolveError::MissingUninstaller);
    assert_eq!(err.message(), "Could not find uninstaller in assets list");
}

#[test]
fn empty_asset_list_reports_frs_first() {
    let release = ReleaseResponse {
        url: "https://example.invalid/releases/latest".to_string(),
        assets: vec![],
        id: 1,
    };
    let err = get_download_data(&release).expect_err("no assets at all");
    assert_eq!(err, ResolveError::MissingFrs);
}

#[test]
fn asset_names_match_exactly() {
    let release = ReleaseResponse {
        url: "https://example.invalid/releases/latest".to_string(),
        assets: vec![
            asset("FRS.EXE", "https://example.invalid/frs.exe"),
            asset("installer.exe", "https://example.invalid/installer.exe"),
            asset("uninstaller.exe", "https://example.invalid/uninstaller.exe"),
        ],
        id: 2,
    };
    let err = get_download_data(&release).expect_err("name differs in case");
    assert_eq!(err, ResolveError::MissingFrs);
}
