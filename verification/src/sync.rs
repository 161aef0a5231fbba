//! The sync engine's decision logic: given the local install state and the
//! resolved manifest version, which directories to create, which artifacts
//! to download, and whether to touch the version marker.
//!
//! The decisions are pure; carrying them out (creating directories,
//! fetching bytes, writing files) happens outside the library, step by
//! step and best-effort. [`apply_plan`] models the local state after every
//! step of a plan succeeded, which is what the laws below speak about.

use vstd::prelude::*;

verus! {

/// What is currently on disk: whether the install directory, its `bin`
/// subdirectory and the three artifacts exist, and the version marker's
/// value if a readable marker file exists.
///
/// An existing but unparsable marker is fatal for the whole run and is
/// rejected before a `LocalState` is formed, so it has no representation
/// here.
#[derive(PartialEq, Eq, Structural, Clone, Copy, Debug)]
pub struct LocalState {
    pub dir_exists: bool,
    pub bin_exists: bool,
    pub marker: Option<i32>,
    pub frs_exists: bool,
    pub installer_exists: bool,
    pub uninstaller_exists: bool,
}

/// The actions one sync run performs: create-if-absent for the two
/// directories, initialize the marker when none exists, download each
/// artifact or leave it alone, rewrite the marker when it disagrees with
/// the manifest, and ensure the PATH entry. A marker write always writes
/// the manifest's version.
#[derive(PartialEq, Eq, Structural, Clone, Copy, Debug)]
pub struct SyncPlan {
    pub create_dir: bool,
    pub create_bin: bool,
    pub init_marker: bool,
    pub download_frs: bool,
    pub download_installer: bool,
    pub download_uninstaller: bool,
    pub write_marker: bool,
    pub add_path_entry: bool,
}

/// The version the run compares the manifest against: the marker's value,
/// or the manifest's own version when no marker existed yet (the marker is
/// then initialized to it).
pub open spec fn local_version(state: LocalState, manifest_version: i32) -> i32 {
    match state.marker {
        Some(v) => v,
        None => manifest_version,
    }
}

/// The decisions of one sync run over `state` and the manifest's version:
/// each directory is created iff absent, the marker is initialized iff
/// absent, an artifact is downloaded iff its file is missing or the local
/// version differs from the manifest's, the marker is rewritten iff the
/// local version differs, and the PATH entry is always ensured.
pub open spec fn spec_sync_plan(state: LocalState, manifest_version: i32) -> SyncPlan {
    let local = local_version(state, manifest_version);
    SyncPlan {
        create_dir: !state.dir_exists,
        create_bin: !state.bin_exists,
        init_marker: state.marker is None,
        download_frs: !state.frs_exists || local != manifest_version,
        download_installer: !state.installer_exists || local != manifest_version,
        download_uninstaller: !state.uninstaller_exists || local != manifest_version,
        write_marker: local != manifest_version,
        add_path_entry: true,
    }
}

/// Computes the plan of one sync run. See [`spec_sync_plan`] for what each
/// decision is.
pub fn sync_plan(state: &LocalState, manifest_version: i32) -> (p: SyncPlan)
    ensures
        p == spec_sync_plan(*state, manifest_version),
{
    let local: i32 = match state.marker {
        Some(v) => v,
        None => manifest_version,
    };
    SyncPlan {
        create_dir: !state.dir_exists,
        create_bin: !state.bin_exists,
        init_marker: state.marker.is_none(),
        download_frs: !state.frs_exists || local != manifest_version,
        download_installer: !state.installer_exists || local != manifest_version,
        download_uninstaller: !state.uninstaller_exists || local != manifest_version,
        write_marker: local != manifest_version,
        add_path_entry: true,
    }
}

/// The local state after every step of `plan` succeeded: created
/// directories and downloaded artifacts exist, and a marker write (initial
/// or rewrite) leaves the marker at `manifest_version`.
pub open spec fn apply_plan(state: LocalState, plan: SyncPlan, manifest_version: i32) -> LocalState {
    LocalState {
        dir_exists: state.dir_exists || plan.create_dir,
        bin_exists: state.bin_exists || plan.create_bin,
        marker: if plan.init_marker || plan.write_marker {
            Some(manifest_version)
        } else {
            state.marker
        },
        frs_exists: state.frs_exists || plan.download_frs,
        installer_exists: state.installer_exists || plan.download_installer,
        uninstaller_exists: state.uninstaller_exists || plan.download_uninstaller,
    }
}

/// Law: an artifact is downloaded iff its file is missing or the local
/// version differs from the manifest's, never otherwise.
pub proof fn lemma_version_gated_download(state: LocalState, manifest_version: i32)
    ensures
        spec_sync_plan(state, manifest_version).download_frs <==> (!state.frs_exists
            || local_version(state, manifest_version) != manifest_version),
        spec_sync_plan(state, manifest_version).download_installer <==> (!state.installer_exists
            || local_version(state, manifest_version) != manifest_version),
        spec_sync_plan(state, manifest_version).download_uninstaller <==> (
        !state.uninstaller_exists || local_version(state, manifest_version) != manifest_version),
{
}

/// Law: after a sync whose steps all succeeded, the marker holds the
/// manifest's version and every artifact and directory exists.
pub proof fn lemma_marker_consistency(state: LocalState, manifest_version: i32)
    ensures
        apply_plan(state, spec_sync_plan(state, manifest_version), manifest_version)
            == (LocalState {
            dir_exists: true,
            bin_exists: true,
            marker: Some(manifest_version),
            frs_exists: true,
            installer_exists: true,
            uninstaller_exists: true,
        }),
{
}

/// Law: a second sync right after a fully successful one, against an
/// unchanged manifest, downloads nothing, writes no marker, and creates
/// nothing.
pub proof fn lemma_sync_idempotent(state: LocalState, manifest_version: i32)
    ensures
        ({
            let after = apply_plan(
                state,
                spec_sync_plan(state, manifest_version),
                manifest_version,
            );
            let second = spec_sync_plan(after, manifest_version);
            &&& !second.download_frs
            &&& !second.download_installer
            &&& !second.download_uninstaller
            &&& !second.write_marker
            &&& !second.init_marker
            &&& !second.create_dir
            &&& !second.create_bin
        }),
{
}

} // verus!
