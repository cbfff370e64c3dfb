use vagga::coordinator::{
    coordinator_step, is_valid_hash, tmp_name, uidmap_differs, version_name, BuildAction,
    BuildEvent, BuildPhase, BuildProbe, BuildSetup, DiskState,
};
use vagga::version::VersionOutcome;

fn hash64() -> String {
    "0123456789abcdef".repeat(4)
}

fn setup(force: bool) -> BuildSetup {
    BuildSetup { container: "app".to_string(), force }
}

fn probe(final_exists: bool, uidmap_differs: bool) -> BuildProbe {
    BuildProbe { final_exists, uidmap_differs }
}

#[test]
fn version_name_uses_hash_prefix() {
    let n = version_name(&"app".to_string(), &hash64());
    assert_eq!(n, "app.01234567");
    assert_eq!(tmp_name(&"app".to_string()), ".tmp.app");
}

#[test]
fn hash_shape_is_checked() {
    assert!(is_valid_hash(&hash64()));
    assert!(!is_valid_hash(&"zz".repeat(32)));
    assert!(!is_valid_hash(&"0123".to_string()));
}

#[test]
fn second_build_with_matching_hash_skips() {
    // an existing root with the same hash and an unchanged uid map:
    // the build ends at once, reporting the existing name
    let (phase, action) = coordinator_step(
        &setup(false),
        BuildPhase::Start,
        BuildEvent::PreVersion(VersionOutcome::Hashed(hash64())),
        &probe(true, false),
    );
    assert!(matches!(phase, BuildPhase::Done(n) if n == "app.01234567"));
    assert!(matches!(action, BuildAction::Report(n) if n == "app.01234567"));
}

#[test]
fn uidmap_drift_forces_rebuild() {
    let (phase, action) = coordinator_step(
        &setup(false),
        BuildPhase::Start,
        BuildEvent::PreVersion(VersionOutcome::Hashed(hash64())),
        &probe(true, true),
    );
    assert!(matches!(phase, BuildPhase::Versioned(Some(_))));
    assert!(matches!(action, BuildAction::AcquireLock));
}

#[test]
fn force_rebuilds_despite_existing_root() {
    let (phase, action) = coordinator_step(
        &setup(true),
        BuildPhase::Start,
        BuildEvent::PreVersion(VersionOutcome::Hashed(hash64())),
        &probe(true, false),
    );
    assert!(matches!(phase, BuildPhase::Versioned(Some(_))));
    assert!(matches!(action, BuildAction::AcquireLock));
}

#[test]
fn unversionable_recipe_builds_then_versions() {
    let s = setup(false);
    let (phase, action) =
        coordinator_step(&s, BuildPhase::Start, BuildEvent::PreVersion(VersionOutcome::New), &probe(false, false));
    assert!(matches!(phase, BuildPhase::Versioned(None)));
    assert!(matches!(action, BuildAction::AcquireLock));
    let (phase, action) = coordinator_step(&s, phase, BuildEvent::LockAcquired, &probe(false, false));
    assert!(matches!(&action, BuildAction::PrepareTmp(t) if t == ".tmp.app"));
    let (phase, action) = coordinator_step(&s, phase, BuildEvent::TmpPrepared, &probe(false, false));
    assert!(matches!(action, BuildAction::SpawnBuilder));
    let (phase, action) =
        coordinator_step(&s, phase, BuildEvent::BuilderFinished(true), &probe(false, false));
    assert!(matches!(phase, BuildPhase::NeedsVersion));
    assert!(matches!(action, BuildAction::RunPostVersioner));
    let (phase, action) = coordinator_step(
        &s,
        phase,
        BuildEvent::PostVersion(VersionOutcome::Hashed(hash64())),
        &probe(false, false),
    );
    assert!(matches!(phase, BuildPhase::PostVersioned(_)));
    assert!(
        matches!(&action, BuildAction::Commit { tmp, final_name }
            if tmp == ".tmp.app" && final_name == "app.01234567")
    );
    let (phase, action) = coordinator_step(&s, phase, BuildEvent::CommitDone, &probe(false, false));
    assert!(matches!(&action, BuildAction::UpdateSymlink(n) if n == "app.01234567"));
    let (phase, action) = coordinator_step(&s, phase, BuildEvent::SymlinkDone, &probe(false, false));
    assert!(matches!(phase, BuildPhase::Done(n) if n == "app.01234567"));
    assert!(matches!(action, BuildAction::Report(n) if n == "app.01234567"));
}

#[test]
fn killed_builder_leaves_the_old_version() {
    // a builder killed mid-way: the machine fails without ever asking
    // for a commit or a symlink update, and the scratch tree survives
    let s = setup(false);
    let mut disk = DiskState::new();
    disk.prepare_tmp(&".tmp.app".to_string());
    disk.commit_root(&".tmp.app".to_string(), &"app.00000000".to_string());
    disk.update_symlink(&"app.00000000".to_string());

    disk.prepare_tmp(&".tmp.app".to_string());
    let (phase, action) = coordinator_step(
        &s,
        BuildPhase::TmpReady(Some(hash64())),
        BuildEvent::BuilderFinished(false),
        &probe(false, false),
    );
    assert!(matches!(phase, BuildPhase::Failed(_)));
    assert!(matches!(action, BuildAction::Abort(_)));
    // the symlink still names the previous committed root
    assert_eq!(disk.symlink, Some("app.00000000".to_string()));
    assert!(disk.tmp_dirs.contains(&".tmp.app".to_string()));
    // the next build's preparation reclaims the scratch directory
    disk.prepare_tmp(&".tmp.app".to_string());
    assert!(disk.tmp_dirs.contains(&".tmp.app".to_string()));
}

#[test]
fn commit_removes_the_scratch_directory() {
    let mut disk = DiskState::new();
    disk.prepare_tmp(&".tmp.app".to_string());
    disk.commit_root(&".tmp.app".to_string(), &"app.01234567".to_string());
    assert!(!disk.tmp_dirs.contains(&".tmp.app".to_string()));
    assert!(disk.roots.contains(&"app.01234567".to_string()));
}

#[test]
fn force_commit_over_itself_preserves_the_symlink() {
    let name = "app.01234567".to_string();
    let mut disk = DiskState::new();
    disk.prepare_tmp(&".tmp.app".to_string());
    disk.commit_root(&".tmp.app".to_string(), &name);
    disk.update_symlink(&name);
    // the forced rebuild commits the same content-addressed name
    disk.prepare_tmp(&".tmp.app".to_string());
    disk.commit_root(&".tmp.app".to_string(), &name);
    assert_eq!(disk.symlink, Some(name.clone()));
    assert!(disk.roots.contains(&name));
    disk.update_symlink(&name);
    assert_eq!(disk.symlink, Some(name));
}

#[test]
fn auto_clean_spares_the_current_root() {
    let mut disk = DiskState::new();
    disk.prepare_tmp(&".tmp.app".to_string());
    disk.commit_root(&".tmp.app".to_string(), &"app.aaaaaaaa".to_string());
    disk.prepare_tmp(&".tmp.app".to_string());
    disk.commit_root(&".tmp.app".to_string(), &"app.bbbbbbbb".to_string());
    disk.update_symlink(&"app.bbbbbbbb".to_string());
    disk.remove_old_root(&"app.aaaaaaaa".to_string());
    assert!(!disk.roots.contains(&"app.aaaaaaaa".to_string()));
    assert!(disk.roots.contains(&"app.bbbbbbbb".to_string()));
    assert_eq!(disk.symlink, Some("app.bbbbbbbb".to_string()));
}

#[test]
fn uidmap_differs_detects_drift() {
    let cur = b"0 1000 1\n".to_vec();
    let same = Some(b"0 1000 1\n".to_vec());
    let other = Some(b"0 1001 1\n".to_vec());
    assert!(!uidmap_differs(&cur, &cur, &same, &same));
    assert!(uidmap_differs(&cur, &cur, &other, &same));
    assert!(uidmap_differs(&cur, &cur, &same, &None));
    assert!(uidmap_differs(&cur, &cur, &None, &None));
}
