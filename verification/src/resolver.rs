//! Manifest resolution: mapping the named assets of a release to the three
//! roles the installer needs (tool binary, installer, uninstaller).

use vstd::prelude::*;
use crate::models::{DownloadData, ReleaseAsset, ReleaseResponse};
use crate::strings::str_eq;

verus! {

/// Why a release could not be resolved: one of the three required assets is
/// absent from the release's asset list.
#[derive(Debug, PartialEq, Eq, Structural, Clone, Copy)]
pub enum ResolveError {
    MissingFrs,
    MissingInstaller,
    MissingUninstaller,
}

impl ResolveError {
    /// A short description of the failure, naming the missing asset.
    pub fn message(&self) -> (r: &'static str)
        ensures
            *self is MissingFrs ==> r@ == "Could not find frs in assets list"@,
            *self is MissingInstaller ==> r@ == "Could not find installer in assets list"@,
            *self is MissingUninstaller ==> r@ == "Could not find uninstaller in assets list"@,
    {
        match self {
            ResolveError::MissingFrs => "Could not find frs in assets list",
            ResolveError::MissingInstaller => "Could not find installer in assets list",
            ResolveError::MissingUninstaller => "Could not find uninstaller in assets list",
        }
    }
}

/// The first asset in the list bearing the given name, if any.
pub open spec fn find_asset(assets: Seq<ReleaseAsset>, name: Seq<char>) -> Option<ReleaseAsset>
    decreases assets.len(),
{
    if assets.len() == 0 {
        None
    } else if assets[0].name@ == name {
        Some(assets[0])
    } else {
        find_asset(assets.drop_first(), name)
    }
}

proof fn lemma_find_asset_skip_prefix(assets: Seq<ReleaseAsset>, name: Seq<char>, i: int)
    requires
        0 <= i <= assets.len(),
        forall|j: int| 0 <= j < i ==> assets[j].name@ != name,
    ensures
        find_asset(assets, name) == find_asset(assets.subrange(i, assets.len() as int), name),
    decreases i,
{
    if i > 0 {
        lemma_find_asset_skip_prefix(assets, name, i - 1);
        let tail = assets.subrange(i - 1, assets.len() as int);
        assert(tail[0] == assets[i - 1]);
        assert(tail.drop_first() =~= assets.subrange(i, assets.len() as int));
    } else {
        assert(assets.subrange(0, assets.len() as int) =~= assets);
    }
}

/// The download location of the first asset named `name`, or `None` when no
/// asset bears that name.
fn find_asset_url(assets: &Vec<ReleaseAsset>, name: &str) -> (r: Option<String>)
    ensures
        match (r, find_asset(assets@, name@)) {
            (Some(url), Some(a)) => url@ == a.browser_download_url@,
            (None, None) => true,
            _ => false,
        },
{
    let n = assets.len();
    let mut i: usize = 0;
    while i < n
        invariant
            i <= n,
            n == assets@.len(),
            forall|j: int| 0 <= j < i ==> assets@[j].name@ != name@,
        decreases n - i,
    {
        if str_eq(assets[i].name.as_str(), name) {
            proof {
                lemma_find_asset_skip_prefix(assets@, name@, i as int);
                let tail = assets@.subrange(i as int, assets@.len() as int);
                assert(tail[0] == assets@[i as int]);
            }
            return Some(assets[i].browser_download_url.clone());
        }
        i = i + 1;
    }
    proof {
        lemma_find_asset_skip_prefix(assets@, name@, n as int);
    }
    None
}

/// Resolves the three required roles from a release's asset list, by exact
/// name match, in the order `frs.exe`, `installer.exe`, `uninstaller.exe`.
///
/// Succeeds exactly when all three names are present; fails naming the first
/// missing one (in that order) otherwise. The resolved download locations
/// are those of the first asset bearing each name, and the version is the
/// release's ordinal.
pub fn get_download_data(response: &ReleaseResponse) -> (r: Result<DownloadData, ResolveError>)
    ensures
        ({
            let frs = find_asset(response.assets@, "frs.exe"@);
            let inst = find_asset(response.assets@, "installer.exe"@);
            let uninst = find_asset(response.assets@, "uninstaller.exe"@);
            &&& (r is Ok <==> frs is Some && inst is Some && uninst is Some)
            &&& match r {
                Ok(d) => {
                    &&& d.frs_exe@ == frs->0.browser_download_url@
                    &&& d.installer_exe@ == inst->0.browser_download_url@
                    &&& d.uninstaller_exe@ == uninst->0.browser_download_url@
                    &&& d.version == response.id
                },
                Err(e) => {
                    &&& (e is MissingFrs <==> frs is None)
                    &&& (e is MissingInstaller <==> frs is Some && inst is None)
                    &&& (e is MissingUninstaller <==> frs is Some && inst is Some
                        && uninst is None)
                },
            }
        }),
{
    let frs_url = find_asset_url(&response.assets, "frs.exe");
    match frs_url {
        Some(frs_exe) => {
            let installer_url = find_asset_url(&response.assets, "installer.exe");
            match installer_url {
                Some(installer_exe) => {
                    let uninstaller_url = find_asset_url(&response.assets, "uninstaller.exe");
                    match uninstaller_url {
                        Some(uninstaller_exe) => Ok(DownloadData {
                            frs_exe,
                            installer_exe,
                            uninstaller_exe,
                            version: response.id,
                        }),
                        None => Err(ResolveError::MissingUninstaller),
                    }
                },
                None => Err(ResolveError::MissingInstaller),
            }
        },
        None => Err(ResolveError::MissingFrs),
    }
}

} // verus!
