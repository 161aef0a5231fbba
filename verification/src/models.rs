//! Data carried between the release manifest and the sync logic.

use vstd::prelude::*;

verus! {

/// One downloadable asset of a release: a logical name and the location the
/// bytes can be fetched from.
pub struct ReleaseAsset {
    pub browser_download_url: String,
    pub name: String,
}

/// The remote description of the latest release: its version ordinal and the
/// named assets it publishes.
pub struct ReleaseResponse {
    pub url: String,
    pub assets: Vec<ReleaseAsset>,
    pub id: i32,
}

/// The three required download locations resolved from a release, plus the
/// release's version ordinal.
#[derive(Debug)]
pub struct DownloadData {
    pub frs_exe: String,
    pub installer_exe: String,
    pub uninstaller_exe: String,
    pub version: i32,
}

} // verus!
