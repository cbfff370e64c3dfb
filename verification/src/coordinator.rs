use vstd::prelude::*;
use vstd::string::{StrSliceExecFns, StringExecFns};

verus! {

// ------------------------------------------------------------------
// Version names
// ------------------------------------------------------------------
/// A definitive version hash: 64 ASCII hex characters.
pub open spec fn valid_hash(h: Seq<char>) -> bool {
    h.len() == 64 && forall|i: int|
        0 <= i < h.len() ==> crate::digest::is_lower_hex_char(#[trigger] h[i])
}

/// The on-disk tag of a container version: the container name, a dot,
/// and the first 8 hex characters of its hash.
pub open spec fn spec_version_name(container: Seq<char>, hash: Seq<char>) -> Seq<char> {
    container + "."@ + hash.take(8)
}

/// Build the committed directory name for a container and hash.
pub fn version_name(container: &String, hash: &String) -> (r: String)
    requires
        valid_hash(hash@),
    ensures
        r@ == spec_version_name(container@, hash@),
{
    proof {
        assert forall|i: int| 0 <= i < hash@.len() implies '\0' <= #[trigger] hash@[i]
            <= '\u{7f}' by {
            assert(crate::digest::is_lower_hex_char(hash@[i]));
        }
        assert(vstd::utf8::is_ascii_chars(hash@));
    }
    let prefix = hash.as_str().substring_ascii(0, 8);
    let r = container.clone().concat(".").concat(prefix);
    proof {
        assert(r@ =~= spec_version_name(container@, hash@));
    }
    r
}

/// The scratch directory name a build of this container uses.
pub open spec fn spec_tmp_name(container: Seq<char>) -> Seq<char> {
    ".tmp."@ + container
}

pub fn tmp_name(container: &String) -> (r: String)
    ensures
        r@ == spec_tmp_name(container@),
{
    let r = String::from_str(".tmp.").concat(container.as_str());
    r
}

// ------------------------------------------------------------------
// The uid-map drift check
// ------------------------------------------------------------------
/// Whether the current kernel maps differ from the snapshot saved when
/// the container was committed.  A missing snapshot counts as a
/// difference: the ownership inside the root cannot be trusted.
pub fn uidmap_differs(
    current_uid_map: &Vec<u8>,
    current_gid_map: &Vec<u8>,
    saved_uid_map: &Option<Vec<u8>>,
    saved_gid_map: &Option<Vec<u8>>,
) -> (r: bool)
    ensures
        r == !(saved_uid_map matches Some(u) && u@ == current_uid_map@ && (
        saved_gid_map matches Some(g) && g@ == current_gid_map@)),
{
    let uid_same = match saved_uid_map {
        Some(saved) => crate::textparse::bytes_eq(saved, current_uid_map),
        None => false,
    };
    let gid_same = match saved_gid_map {
        Some(saved) => crate::textparse::bytes_eq(saved, current_gid_map),
        None => false,
    };
    !(uid_same && gid_same)
}

// ------------------------------------------------------------------
// The on-disk model
// ------------------------------------------------------------------
/// Abstract state of a project's `.roots` tree and container symlink.
/// The shell around the library performs the real renames in the same
/// order; this model is what the laws below are proved against.
pub struct DiskState {
    /// Names of committed version directories, like `app.1a2b3c4d`.
    pub roots: Vec<String>,
    /// Names of scratch directories, like `.tmp.app`.
    pub tmp_dirs: Vec<String>,
    /// The committed name the container symlink points to, if present.
    pub symlink: Option<String>,
}

pub open spec fn seq_contains(s: Seq<Seq<char>>, x: Seq<char>) -> bool {
    exists|i: int| 0 <= i < s.len() && s[i] == x
}

/// The symlink law: `.vagga/<name>` is either absent or resolves to an
/// existing committed root.  Every operation below preserves this.
pub open spec fn wf_disk(d: DiskState) -> bool {
    match d.symlink {
        Some(target) => seq_contains(d.roots.deep_view(), target@),
        None => true,
    }
}

fn names_contain(v: &Vec<String>, x: &String) -> (r: bool)
    ensures
        r == seq_contains(v.deep_view(), x@),
{
    let mut i: usize = 0;
    while i < v.len()
        invariant
            i <= v@.len(),
            forall|j: int| 0 <= j < i ==> v.deep_view()[j] != x@,
        decreases v@.len() - i,
    {
        proof {
            assert(v.deep_view()[i as int] == v@[i as int]@);
        }
        if v[i].eq(x) {
            return true;
        }
        i += 1;
    }
    false
}

fn names_remove(v: &mut Vec<String>, x: &String)
    ensures
        !seq_contains(final (v).deep_view(), x@),
        forall|n: Seq<char>|
            n != x@ && #[trigger] seq_contains(old(v).deep_view(), n) ==> seq_contains(
                final (v).deep_view(),
                n,
            ),
{
    let mut r: Vec<String> = Vec::new();
    let mut i: usize = 0;
    while i < v.len()
        invariant
            i <= v@.len(),
            *v == *old(v),
            forall|j: int| 0 <= j < r.deep_view().len() ==> #[trigger] r.deep_view()[j] != x@,
            forall|n: Seq<char>|
                n != x@ && #[trigger] seq_contains(old(v).deep_view().take(i as int), n)
                    ==> seq_contains(r.deep_view(), n),
        decreases v@.len() - i,
    {
        let ghost r0 = r.deep_view();
        proof {
            assert(v.deep_view()[i as int] == v@[i as int]@);
        }
        if !v[i].eq(x) {
            r.push(v[i].clone());
            proof {
                assert(r.deep_view() =~~= r0.push(old(v).deep_view()[i as int]));
                assert forall|n: Seq<char>|
                    n != x@ && #[trigger] seq_contains(
                        old(v).deep_view().take(i + 1),
                        n,
                    ) implies seq_contains(r.deep_view(), n) by {
                    let k = choose|k: int|
                        0 <= k < i + 1 && (#[trigger] old(v).deep_view().take(i + 1)[k]) == n;
                    if k < i {
                        assert(seq_contains(old(v).deep_view().take(i as int), n));
                        let j = choose|j: int| 0 <= j < r0.len() && (#[trigger] r0[j]) == n;
                        assert(r.deep_view()[j] == n);
                    } else {
                        assert(r.deep_view()[r0.len() as int] == n);
                    }
                }
            }
        } else {
            proof {
                assert forall|n: Seq<char>|
                    n != x@ && #[trigger] seq_contains(
                        old(v).deep_view().take(i + 1),
                        n,
                    ) implies seq_contains(r.deep_view(), n) by {
                    let k = choose|k: int|
                        0 <= k < i + 1 && (#[trigger] old(v).deep_view().take(i + 1)[k]) == n;
                    assert(k < i);
                    assert(seq_contains(old(v).deep_view().take(i as int), n));
                }
            }
        }
        i += 1;
    }
    proof {
        assert(old(v).deep_view().take(v@.len() as int) =~= old(v).deep_view());
    }
    *v = r;
}

impl DiskState {
    /// A fresh project: nothing committed, no scratch, no symlink.
    pub fn new() -> (r: DiskState)
        ensures
            r.roots.deep_view() == Seq::<Seq<char>>::empty(),
            r.tmp_dirs.deep_view() == Seq::<Seq<char>>::empty(),
            r.symlink is None,
            wf_disk(r),
    {
        let r = DiskState { roots: Vec::new(), tmp_dirs: Vec::new(), symlink: None };
        proof {
            assert(r.roots.deep_view() =~= Seq::<Seq<char>>::empty());
            assert(r.tmp_dirs.deep_view() =~= Seq::<Seq<char>>::empty());
        }
        r
    }

    /// Prepare the scratch directory for a build: any leftover scratch
    /// of the same name is cleaned first, so one scratch directory of
    /// this name exists afterwards.
    pub fn prepare_tmp(&mut self, tmp: &String)
        requires
            wf_disk(*old(self)),
        ensures
            wf_disk(*final (self)),
            seq_contains(final (self).tmp_dirs.deep_view(), tmp@),
            final (self).roots == old(self).roots,
            final (self).symlink == old(self).symlink,
    {
        if !names_contain(&self.tmp_dirs, tmp) {
            let ghost t0 = self.tmp_dirs.deep_view();
            self.tmp_dirs.push(tmp.clone());
            proof {
                assert(self.tmp_dirs.deep_view() =~~= t0.push(tmp@));
                assert(self.tmp_dirs.deep_view()[t0.len() as int] == tmp@);
            }
        }
    }

    /// Commit a built scratch directory under its content-addressed
    /// name: the old directory of that name, if any, is removed, and
    /// the scratch directory is renamed into place.  The symlink is not
    /// touched here, so no observer ever sees it dangle.
    pub fn commit_root(&mut self, tmp: &String, final_name: &String)
        requires
            wf_disk(*old(self)),
            seq_contains(old(self).tmp_dirs.deep_view(), tmp@),
        ensures
            wf_disk(*final (self)),
            // the scratch directory is gone: no `.tmp.*` survives a commit
            !seq_contains(final (self).tmp_dirs.deep_view(), tmp@),
            // the committed name exists
            seq_contains(final (self).roots.deep_view(), final_name@),
            // other committed roots survive
            forall|n: Seq<char>|
                seq_contains(old(self).roots.deep_view(), n) ==> seq_contains(
                    final (self).roots.deep_view(),
                    n,
                ) || n == final_name@,
            final (self).symlink == old(self).symlink,
    {
        names_remove(&mut self.tmp_dirs, tmp);
        if !names_contain(&self.roots, final_name) {
            let ghost r0 = self.roots.deep_view();
            self.roots.push(final_name.clone());
            proof {
                assert(self.roots.deep_view() =~~= r0.push(final_name@));
                assert(self.roots.deep_view()[r0.len() as int] == final_name@);
                assert forall|n: Seq<char>| #[trigger]
                    seq_contains(r0, n) implies seq_contains(self.roots.deep_view(), n) by {
                    let i = choose|i: int| 0 <= i < r0.len() && (#[trigger] r0[i]) == n;
                    assert(self.roots.deep_view()[i] == n);
                }
            }
        }
        proof {
            if old(self).symlink is Some {
                let t = old(self).symlink.unwrap()@;
                assert(seq_contains(old(self).roots.deep_view(), t));
                if t != final_name@ {
                    assert(seq_contains(self.roots.deep_view(), t));
                }
            }
        }
    }

    /// Repoint the container symlink at a committed root, through a
    /// temporary link and an atomic rename.
    pub fn update_symlink(&mut self, name: &String)
        requires
            wf_disk(*old(self)),
            seq_contains(old(self).roots.deep_view(), name@),
        ensures
            wf_disk(*final (self)),
            final (self).symlink == Some(*name),
            final (self).roots == old(self).roots,
            final (self).tmp_dirs == old(self).tmp_dirs,
    {
        self.symlink = Some(name.clone());
        proof {
            assert(self.symlink.unwrap()@ == name@);
        }
    }

    /// Remove an obsolete committed root, as `auto_clean` does after the
    /// symlink moved elsewhere.
    pub fn remove_old_root(&mut self, name: &String)
        requires
            wf_disk(*old(self)),
            match old(self).symlink {
                Some(t) => t@ != name@,
                None => true,
            },
        ensures
            wf_disk(*final (self)),
            !seq_contains(final (self).roots.deep_view(), name@),
            final (self).symlink == old(self).symlink,
            final (self).tmp_dirs == old(self).tmp_dirs,
    {
        names_remove(&mut self.roots, name);
        proof {
            if old(self).symlink is Some {
                let t = old(self).symlink.unwrap()@;
                assert(seq_contains(old(self).roots.deep_view(), t));
                assert(seq_contains(self.roots.deep_view(), t));
            }
        }
    }
}


/// Law: the container symlink is never dangling.  In every well-formed
/// disk state — and every operation above takes one and returns one —
/// the symlink is either absent or names a committed root that exists.
pub proof fn lemma_symlink_never_dangling(d: DiskState)
    requires
        wf_disk(d),
    ensures
        match d.symlink {
            Some(target) => seq_contains(d.roots.deep_view(), target@),
            None => true,
        },
{
}

// ------------------------------------------------------------------
// The per-invocation build state machine
// ------------------------------------------------------------------
/// Fixed facts of one build invocation.
pub struct BuildSetup {
    pub container: String,
    /// Rebuild even when the hash matches an existing root.
    pub force: bool,
}

/// What the coordinator observed on disk before deciding to skip.
pub struct BuildProbe {
    /// The committed root for the pre-computed hash already exists.
    pub final_exists: bool,
    /// The saved uid-map snapshot differs from the current one.
    pub uidmap_differs: bool,
}

/// Where a build invocation stands.
pub enum BuildPhase {
    /// Nothing has happened yet; the pre-versioner should run.
    Start,
    /// Pre-versioning finished; the hash is known unless the recipe
    /// has unversionable steps.
    Versioned(Option<String>),
    /// The build lock is held.
    Locked(Option<String>),
    /// The scratch root is prepared and mounted.
    TmpReady(Option<String>),
    /// The builder succeeded but the hash is still unknown; the
    /// versioner must run again inside the fresh root.
    NeedsVersion,
    /// The definitive hash is known; the root can be committed.
    PostVersioned(String),
    /// The root is committed under this version name.
    Committed(String),
    /// The build is finished; the name is the committed version.
    Done(String),
    /// The build failed.
    Failed(String),
}

/// What the coordinator observed.
pub enum BuildEvent {
    /// The pre-build versioner finished.
    PreVersion(crate::version::VersionOutcome),
    LockAcquired,
    TmpPrepared,
    /// The builder child exited; true means success.
    BuilderFinished(bool),
    /// The post-build versioner finished.
    PostVersion(crate::version::VersionOutcome),
    CommitDone,
    SymlinkDone,
}

/// What the coordinator asks its caller to do next.
pub enum BuildAction {
    RunVersioner,
    AcquireLock,
    PrepareTmp(String),
    SpawnBuilder,
    RunPostVersioner,
    Commit { tmp: String, final_name: String },
    UpdateSymlink(String),
    Report(String),
    Abort(String),
}

/// Check that a hash has the definitive shape: 64 lowercase hex
/// characters.
pub fn is_valid_hash(h: &String) -> (r: bool)
    ensures
        r == valid_hash(h@),
{
    let n = h.as_str().unicode_len();
    if n != 64 {
        return false;
    }
    let mut i: usize = 0;
    while i < n
        invariant
            i <= n,
            n == h@.len(),
            forall|j: int| 0 <= j < i ==> crate::digest::is_lower_hex_char(#[trigger] h@[j]),
        decreases n - i,
    {
        let c = h.as_str().get_char(i);
        if !(('0' <= c && c <= '9') || ('a' <= c && c <= 'f')) {
            return false;
        }
        i += 1;
    }
    true
}

/// How one observed event advances a build, per the coordinator's
/// protocol: pre-version, maybe skip, lock, prepare scratch, build,
/// settle the hash, commit, repoint the symlink.
pub open spec fn coordinator_step_rel(
    setup: BuildSetup,
    phase: BuildPhase,
    event: BuildEvent,
    probe: BuildProbe,
    new_phase: BuildPhase,
    action: BuildAction,
) -> bool {
    match (phase, event) {
        (BuildPhase::Start, BuildEvent::PreVersion(out)) => match out {
            crate::version::VersionOutcome::Hashed(h) => {
                if valid_hash(h@) {
                    if probe.final_exists && !setup.force && !probe.uidmap_differs {
                        // the content-addressed root is already built: skip
                        &&& new_phase matches BuildPhase::Done(n) && n@ == spec_version_name(
                            setup.container@,
                            h@,
                        )
                        &&& action matches BuildAction::Report(n) && n@ == spec_version_name(
                            setup.container@,
                            h@,
                        )
                    } else {
                        &&& new_phase matches BuildPhase::Versioned(v) && (v matches Some(h2)
                            && h2@ == h@)
                        &&& action is AcquireLock
                    }
                } else {
                    // a malformed hash is treated as unknown
                    &&& new_phase matches BuildPhase::Versioned(v) && v is None
                    &&& action is AcquireLock
                }
            },
            crate::version::VersionOutcome::New => {
                &&& new_phase matches BuildPhase::Versioned(v) && v is None
                &&& action is AcquireLock
            },
            crate::version::VersionOutcome::Error(e) => {
                &&& new_phase matches BuildPhase::Failed(m) && m@ == e@
                &&& action matches BuildAction::Abort(m) && m@ == e@
            },
        },
        (BuildPhase::Versioned(v), BuildEvent::LockAcquired) => {
            &&& new_phase matches BuildPhase::Locked(v2) && opt_str_eq(v2, v)
            &&& action matches BuildAction::PrepareTmp(t) && t@ == spec_tmp_name(setup.container@)
        },
        (BuildPhase::Locked(v), BuildEvent::TmpPrepared) => {
            &&& new_phase matches BuildPhase::TmpReady(v2) && opt_str_eq(v2, v)
            &&& action is SpawnBuilder
        },
        (BuildPhase::TmpReady(v), BuildEvent::BuilderFinished(ok)) => {
            if !ok {
                // the scratch tree is left in place for inspection; the
                // old version, if any, stays current
                &&& new_phase matches BuildPhase::Failed(m) && m@ == "Builder failed"@
                &&& action matches BuildAction::Abort(m) && m@ == "Builder failed"@
            } else {
                match v {
                    Some(h) => {
                        if valid_hash(h@) {
                            &&& new_phase matches BuildPhase::PostVersioned(h2) && h2@ == h@
                            &&& action matches BuildAction::Commit { tmp, final_name } && tmp@
                                == spec_tmp_name(setup.container@) && final_name@
                                == spec_version_name(setup.container@, h@)
                        } else {
                            &&& new_phase matches BuildPhase::Failed(m) && m@
                                == "Wrong version hash"@
                            &&& action matches BuildAction::Abort(m) && m@
                                == "Wrong version hash"@
                        }
                    },
                    None => {
                        &&& new_phase is NeedsVersion
                        &&& action is RunPostVersioner
                    },
                }
            }
        },
        (BuildPhase::NeedsVersion, BuildEvent::PostVersion(out)) => match out {
            crate::version::VersionOutcome::Hashed(h) => {
                if valid_hash(h@) {
                    &&& new_phase matches BuildPhase::PostVersioned(h2) && h2@ == h@
                    &&& action matches BuildAction::Commit { tmp, final_name } && tmp@
                        == spec_tmp_name(setup.container@) && final_name@ == spec_version_name(
                        setup.container@,
                        h@,
                    )
                } else {
                    &&& new_phase matches BuildPhase::Failed(m) && m@
                        == "Wrong version hash"@
                    &&& action matches BuildAction::Abort(m) && m@ == "Wrong version hash"@
                }
            },
            crate::version::VersionOutcome::New => {
                &&& new_phase matches BuildPhase::Failed(m) && m@
                    == "Can't version even after build"@
                &&& action matches BuildAction::Abort(m) && m@
                    == "Can't version even after build"@
            },
            crate::version::VersionOutcome::Error(e) => {
                &&& new_phase matches BuildPhase::Failed(m) && m@ == e@
                &&& action matches BuildAction::Abort(m) && m@ == e@
            },
        },
        (BuildPhase::PostVersioned(h), BuildEvent::CommitDone) => {
            if valid_hash(h@) {
                &&& new_phase matches BuildPhase::Committed(n) && n@ == spec_version_name(
                    setup.container@,
                    h@,
                )
                &&& action matches BuildAction::UpdateSymlink(n) && n@ == spec_version_name(
                    setup.container@,
                    h@,
                )
            } else {
                &&& new_phase matches BuildPhase::Failed(m) && m@ == "Wrong version hash"@
                &&& action matches BuildAction::Abort(m) && m@ == "Wrong version hash"@
            }
        },
        (BuildPhase::Committed(n), BuildEvent::SymlinkDone) => {
            &&& new_phase matches BuildPhase::Done(n2) && n2@ == n@
            &&& action matches BuildAction::Report(n2) && n2@ == n@
        },
        _ => {
            &&& new_phase matches BuildPhase::Failed(m) && m@ == "Unexpected event"@
            &&& action matches BuildAction::Abort(m) && m@ == "Unexpected event"@
        },
    }
}

/// Equality of optional hashes by contents.
pub open spec fn opt_str_eq(a: Option<String>, b: Option<String>) -> bool {
    match (a, b) {
        (Some(x), Some(y)) => x@ == y@,
        (None, None) => true,
        _ => false,
    }
}

fn clone_opt_hash(v: &Option<String>) -> (r: Option<String>)
    ensures
        opt_str_eq(r, *v),
{
    match v {
        Some(h) => Some(h.clone()),
        None => None,
    }
}

/// Advance the build by one observed event, returning the new phase and
/// the next action to perform.
pub fn coordinator_step(
    setup: &BuildSetup,
    phase: BuildPhase,
    event: BuildEvent,
    probe: &BuildProbe,
) -> (r: (BuildPhase, BuildAction))
    ensures
        coordinator_step_rel(*setup, phase, event, *probe, r.0, r.1),
{
    match (phase, event) {
        (BuildPhase::Start, BuildEvent::PreVersion(out)) => match out {
            crate::version::VersionOutcome::Hashed(h) => {
                if is_valid_hash(&h) {
                    if probe.final_exists && !setup.force && !probe.uidmap_differs {
                        let name = version_name(&setup.container, &h);
                        (BuildPhase::Done(name.clone()), BuildAction::Report(name))
                    } else {
                        (BuildPhase::Versioned(Some(h)), BuildAction::AcquireLock)
                    }
                } else {
                    (BuildPhase::Versioned(None), BuildAction::AcquireLock)
                }
            },
            crate::version::VersionOutcome::New => (
                BuildPhase::Versioned(None),
                BuildAction::AcquireLock,
            ),
            crate::version::VersionOutcome::Error(e) => (
                BuildPhase::Failed(e.clone()),
                BuildAction::Abort(e),
            ),
        },
        (BuildPhase::Versioned(v), BuildEvent::LockAcquired) => {
            let t = tmp_name(&setup.container);
            (BuildPhase::Locked(clone_opt_hash(&v)), BuildAction::PrepareTmp(t))
        },
        (BuildPhase::Locked(v), BuildEvent::TmpPrepared) => (
            BuildPhase::TmpReady(clone_opt_hash(&v)),
            BuildAction::SpawnBuilder,
        ),
        (BuildPhase::TmpReady(v), BuildEvent::BuilderFinished(ok)) => {
            if !ok {
                let m = String::from_str("Builder failed");
                (BuildPhase::Failed(m.clone()), BuildAction::Abort(m))
            } else {
                match v {
                    Some(h) => {
                        if is_valid_hash(&h) {
                            let name = version_name(&setup.container, &h);
                            let t = tmp_name(&setup.container);
                            (
                                BuildPhase::PostVersioned(h),
                                BuildAction::Commit { tmp: t, final_name: name },
                            )
                        } else {
                            let m = String::from_str("Wrong version hash");
                            (BuildPhase::Failed(m.clone()), BuildAction::Abort(m))
                        }
                    },
                    None => (BuildPhase::NeedsVersion, BuildAction::RunPostVersioner),
                }
            }
        },
        (BuildPhase::NeedsVersion, BuildEvent::PostVersion(out)) => match out {
            crate::version::VersionOutcome::Hashed(h) => {
                if is_valid_hash(&h) {
                    let name = version_name(&setup.container, &h);
                    let t = tmp_name(&setup.container);
                    (BuildPhase::PostVersioned(h), BuildAction::Commit { tmp: t, final_name: name })
                } else {
                    let m = String::from_str("Wrong version hash");
                    (BuildPhase::Failed(m.clone()), BuildAction::Abort(m))
                }
            },
            crate::version::VersionOutcome::New => {
                let m = String::from_str("Can't version even after build");
                (BuildPhase::Failed(m.clone()), BuildAction::Abort(m))
            },
            crate::version::VersionOutcome::Error(e) => (
                BuildPhase::Failed(e.clone()),
                BuildAction::Abort(e),
            ),
        },
        (BuildPhase::PostVersioned(h), BuildEvent::CommitDone) => {
            if is_valid_hash(&h) {
                let name = version_name(&setup.container, &h);
                (BuildPhase::Committed(name.clone()), BuildAction::UpdateSymlink(name))
            } else {
                let m = String::from_str("Wrong version hash");
                (BuildPhase::Failed(m.clone()), BuildAction::Abort(m))
            }
        },
        (BuildPhase::Committed(n), BuildEvent::SymlinkDone) => (
            BuildPhase::Done(n.clone()),
            BuildAction::Report(n),
        ),
        _ => {
            let m = String::from_str("Unexpected event");
            (BuildPhase::Failed(m.clone()), BuildAction::Abort(m))
        },
    }
}

/// Law: building twice with no recipe change performs no work the
/// second time.  When the pre-computed hash names an existing root, no
/// rebuild is forced and the uid map still matches, the very first
/// event ends the build: the machine reports the existing name and
/// never asks for a lock, a scratch root or a builder.
pub proof fn lemma_skip_when_already_built(
    setup: BuildSetup,
    probe: BuildProbe,
    h: String,
    new_phase: BuildPhase,
    action: BuildAction,
)
    requires
        !setup.force,
        probe.final_exists,
        !probe.uidmap_differs,
        valid_hash(h@),
        coordinator_step_rel(
            setup,
            BuildPhase::Start,
            BuildEvent::PreVersion(crate::version::VersionOutcome::Hashed(h)),
            probe,
            new_phase,
            action,
        ),
    ensures
        new_phase matches BuildPhase::Done(n) && n@ == spec_version_name(setup.container@, h@),
        action matches BuildAction::Report(n) && n@ == spec_version_name(setup.container@, h@),
{
}

/// Law: a changed uid map forces a rebuild even when the hash matches
/// an existing root.
pub proof fn lemma_uidmap_drift_rebuilds(
    setup: BuildSetup,
    probe: BuildProbe,
    h: String,
    new_phase: BuildPhase,
    action: BuildAction,
)
    requires
        probe.uidmap_differs,
        valid_hash(h@),
        coordinator_step_rel(
            setup,
            BuildPhase::Start,
            BuildEvent::PreVersion(crate::version::VersionOutcome::Hashed(h)),
            probe,
            new_phase,
            action,
        ),
    ensures
        action is AcquireLock,
        new_phase matches BuildPhase::Versioned(v) && (v matches Some(h2) && h2@ == h@),
{
}

/// Law: `--force` rebuilds.  Even when the hash names an existing root,
/// a forced build takes the lock and proceeds; and when the hash is
/// unchanged, committing over the same name keeps the symlink's target
/// present throughout, so the pointer never dangles.
pub proof fn lemma_force_rebuilds_and_preserves_target(
    setup: BuildSetup,
    probe: BuildProbe,
    h: String,
    new_phase: BuildPhase,
    action: BuildAction,
    disk_before: DiskState,
    disk_after: DiskState,
    name: String,
)
    requires
        setup.force,
        valid_hash(h@),
        coordinator_step_rel(
            setup,
            BuildPhase::Start,
            BuildEvent::PreVersion(crate::version::VersionOutcome::Hashed(h)),
            probe,
            new_phase,
            action,
        ),
        // what `DiskState::commit_root` guarantees for the commit of
        // this rebuild over the same version name
        wf_disk(disk_before),
        disk_before.symlink == Some(name),
        seq_contains(disk_after.roots.deep_view(), name@),
        disk_after.symlink == disk_before.symlink,
    ensures
        action is AcquireLock,
        wf_disk(disk_after),
        disk_after.symlink == Some(name),
{
}

/// Law: a builder killed mid-way commits nothing.  The failure event
/// moves the machine to `Failed` with a plain abort: no commit and no
/// symlink update is ever requested, so the pointer still names the
/// previous committed root, and the scratch directory survives for the
/// next build to clean.
pub proof fn lemma_killed_builder_leaves_old_version(
    setup: BuildSetup,
    probe: BuildProbe,
    v: Option<String>,
    new_phase: BuildPhase,
    action: BuildAction,
)
    requires
        coordinator_step_rel(
            setup,
            BuildPhase::TmpReady(v),
            BuildEvent::BuilderFinished(false),
            probe,
            new_phase,
            action,
        ),
    ensures
        new_phase is Failed,
        action is Abort,
        !(action is Commit),
        !(action is UpdateSymlink),
{
}

} // verus!
