use frs_manager::sync::{sync_plan, LocalState, SyncPlan};

fn fresh_state() -> LocalState {
    LocalState {
        dir_exists: false,
        bin_exists: false,
        marker: None,
        frs_exists: false,
        installer_exists: false,
        uninstaller_exists: false,
    }
}

fn installed_state(marker: i32) -> LocalState {
    LocalState {
        dir_exists: true,
        bin_exists: true,
        marker: Some(marker),
        frs_exists: true,
        installer_exists: true,
        uninstaller_exists: true,
    }
}

fn apply(state: LocalState, plan: SyncPlan, manifest_version: i32) -> LocalState {
    LocalState {
        dir_exists: state.dir_exists || plan.create_dir,
        bin_exists: state.bin_exists || plan.create_bin,
        marker: if plan.init_marker || plan.write_marker {
            Some(manifest_version)
        } else {
            state.marker
        },
        frs_exists: state.frs_exists || plan.download_frs,
        installer_exists: state.installer_exists || plan.download_installer,
        uninstaller_exists: state.uninstaller_exists || plan.download_uninstaller,
    }
}

#[test]
fn fresh_machine_installs_everything() {
    let state = fresh_state();
    let plan = sync_plan(&state, 5);
    assert!(plan.create_dir);
    assert!(plan.create_bin);
    assert!(plan.init_marker);
    assert!(plan.download_frs);
    assert!(plan.download_installer);
    assert!(plan.download_uninstaller);
    assert!(plan.add_path_entry);
    // the marker was just initialized to the manifest version, so no
    // second write is needed
    assert!(!plan.write_marker);
    let after = apply(state, plan, 5);
    assert_eq!(after.marker, Some(5));
    assert!(after.dir_exists && after.bin_exists);
    assert!(after.frs_exists && after.installer_exists && after.uninstaller_exists);
}

#[test]
fn up_to_date_install_does_nothing() {
    let state = installed_state(5);
    let plan = sync_plan(&state, 5);
    assert!(!plan.create_dir);
    assert!(!plan.create_bin);
    assert!(!plan.init_marker);
    assert!(!plan.download_frs);
    assert!(!plan.download_installer);
    assert!(!plan.download_uninstaller);
    assert!(!plan.write_marker);
    assert!(plan.add_path_entry);
}

#[test]
fn newer_manifest_redownloads_and_rewrites_marker() {
    let state = installed_state(5);
    let plan = sync_plan(&state, 6);
    assert!(plan.download_frs);
    assert!(plan.download_installer);
    assert!(plan.download_uninstaller);
    assert!(plan.write_marker);
    let after = apply(state, plan, 6);
    assert_eq!(after.marker, Some(6));
}

#[test]
fn second_sync_after_success_is_a_no_op() {
    for manifest_version in [0, 5, -3, i32::MAX] {
        let first = sync_plan(&fresh_state(), manifest_version);
        let after = apply(fresh_state(), first, manifest_version);
        let second = sync_plan(&after, manifest_version);
        assert!(!second.create_dir);
        assert!(!second.create_bin);
        assert!(!second.init_marker);
        assert!(!second.download_frs);
        assert!(!second.download_installer);
        assert!(!second.download_uninstaller);
        assert!(!second.write_marker);
    }
}

#[test]
fn missing_file_is_downloaded_even_when_versions_match() {
    let mut state = installed_state(7);
    state.frs_exists = false;
    let plan = sync_plan(&state, 7);
    assert!(plan.download_frs);
    assert!(!plan.download_installer);
    assert!(!plan.download_uninstaller);
    assert!(!plan.write_marker);
}

#[test]
fn version_mismatch_redownloads_present_files() {
    let state = installed_state(9);
    let plan = sync_plan(&state, 2);
    assert!(plan.download_frs && plan.download_installer && plan.download_uninstaller);
    assert!(plan.write_marker);
}

#[test]
fn marker_after_sync_equals_manifest_version() {
    let states = [
        fresh_state(),
        installed_state(1),
        installed_state(8),
        LocalState { marker: None, ..installed_state(0) },
    ];
    for state in states {
        let plan = sync_plan(&state, 8);
        let after = apply(state, plan, 8);
        assert_eq!(after.marker, Some(8));
    }
}
