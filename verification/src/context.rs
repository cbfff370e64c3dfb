use vstd::prelude::*;
use vstd::string::{StrSliceExecFns, StringExecFns};

use crate::packages::Package;
use crate::spawn::spec_env_set;

verus! {

/// Distro-specific state of a build.
pub struct UbuntuInfo {
    pub codename: String,
    pub universe: bool,
}

pub struct AlpineInfo {
    pub version: String,
}

/// The distro identity a build context holds, made explicit as a
/// tagged variant and matched at each dispatch point.
pub enum Distribution {
    Unknown,
    Ubuntu(UbuntuInfo),
    Alpine(AlpineInfo),
}

/// How pip is invoked.
pub struct PipSettings {
    pub index_urls: Vec<String>,
    pub find_links: Vec<String>,
    pub dependencies: bool,
}

/// A filesystem or process side effect the engine wants performed.
/// The engine only plans; an unverified shell executes the plan in
/// order inside the build namespaces.
#[derive(Debug)]
pub enum Action {
    /// Install packages with the configured distro's package manager.
    InstallPkgs(Vec<String>),
    /// Fetch and unpack the configured distro's base image.
    Bootstrap,
    /// Add an APT source line.
    AddAptSource(String),
    /// Enable the universe repository.
    EnableUniverse,
    /// Run a command; a shell step plans `/bin/sh -exc <text>`.
    RunCmd(Vec<String>),
    /// Remove a directory's contents; `remove_itself` removes the
    /// directory too.
    CleanDir { path: String, remove_itself: bool },
    /// Create a directory (and parents) with the given mode.
    MakeDir { path: String, mode: u32 },
    /// Write a file and set its mode.
    WriteFile { path: String, body: String, mode: u32 },
    /// Create a named shared cache directory.
    MakeCacheDir { name: String, mode: u32 },
    /// Bind a shared cache directory into the rootfs.
    BindMountCache { cache_path: String, root_path: String },
    /// Unmount the filesystem at this path.
    Unmount(String),
    /// Record the frozen python package list.
    PipFreeze,
    /// Record the installed npm packages.
    NpmList,
    /// Flush the distro's package database and snapshot the installed
    /// package listings.
    DistroFinish,
    /// Clone a git repository, optionally running its installer.
    FetchGit { url: String, install: bool },
    /// Fetch a tar archive, optionally running its installer.
    FetchTar { url: String, install: bool },
    /// Run pip for the given python version.
    PipInstall { python_version: u8, packages: Vec<String> },
    /// Run pip against a requirements file.
    PipRequirements { python_version: u8, path: String },
    /// Run npm install.
    NpmInstall(Vec<String>),
    /// Copy the contents of an already-built container root into the
    /// scratch root.
    CopyContainer(String),
    /// Parse a nested configuration and configure from the named
    /// container inside it.
    ReadSubConfig { path: String, container: String },
}

/// Insert a name into a set kept as a duplicate-free list.
pub open spec fn spec_set_insert(s: Seq<Seq<char>>, x: Seq<char>) -> Seq<Seq<char>> {
    if crate::coordinator::seq_contains(s, x) {
        s
    } else {
        s.push(x)
    }
}

/// A path under the mounted scratch root.
pub open spec fn spec_root_path(abs: Seq<char>) -> Seq<char> {
    "/vagga/root"@ + abs
}

/// An absolute container path: nonempty and starting with `/`.
pub open spec fn abs_path(p: Seq<char>) -> bool {
    p.len() > 0 && p[0] == '/'
}

pub fn name_set_contains(v: &Vec<String>, x: &String) -> (r: bool)
    ensures
        r == crate::coordinator::seq_contains(v.deep_view(), x@),
{
    let mut i: usize = 0;
    while i < v.len()
        invariant
            i <= v@.len(),
            forall|j: int| 0 <= j < i ==> v.deep_view()[j] != x@,
        decreases v@.len() - i,
    {
        proof {
            assert(v.deep_view()[i as int] == v@[i as int]@);
        }
        if v[i].eq(x) {
            return true;
        }
        i += 1;
    }
    false
}

/// Insert a name into a set kept as a list, if it is not yet there.
pub fn name_set_insert(v: &mut Vec<String>, x: String)
    ensures
        final (v).deep_view() == spec_set_insert(old(v).deep_view(), x@),
{
    if !name_set_contains(v, &x) {
        let ghost v0 = v.deep_view();
        v.push(x);
        proof {
            assert(v.deep_view() =~~= v0.push(x@));
        }
    }
}

/// The mutable state of one build: distro identity, requested
/// packages and features, the directory bookkeeping that shapes the
/// final root, cache mounts, the environment, pip settings, and an
/// append-only timing log.
pub struct BuildContext {
    pub container_name: String,
    pub distribution: Distribution,
    pub packages: Vec<String>,
    pub build_deps: Vec<String>,
    pub featured_packages: Vec<Package>,
    /// Container-relative paths that must exist in the committed root.
    pub ensure_dirs: Vec<String>,
    /// Container-relative paths kept but emptied.
    pub empty_dirs: Vec<String>,
    /// Container-relative paths removed from the committed root.
    pub remove_dirs: Vec<String>,
    /// Container-relative path to shared cache name.
    pub cache_dirs: Vec<(String, String)>,
    pub environ: Vec<(String, String)>,
    pub pip_settings: PipSettings,
    /// Seconds-stamped step records.
    pub timelog: Vec<(u64, String)>,
}

impl BuildContext {
    /// A fresh context for one container: unknown distro, no packages,
    /// the seeded directory sets (`proc`, `sys`, `dev`, `work`, `tmp`
    /// ensured; `tmp` and `var/tmp` emptied) and the base environment.
    pub fn new(container_name: String) -> (r: BuildContext)
        ensures
            r.container_name == container_name,
            r.distribution is Unknown,
            r.packages.deep_view() == Seq::<Seq<char>>::empty(),
            r.build_deps.deep_view() == Seq::<Seq<char>>::empty(),
            r.featured_packages@ == Seq::<Package>::empty(),
            r.ensure_dirs.deep_view() == seq!["proc"@, "sys"@, "dev"@, "work"@, "tmp"@],
            r.empty_dirs.deep_view() == seq!["tmp"@, "var/tmp"@],
            r.remove_dirs.deep_view() == Seq::<Seq<char>>::empty(),
            r.cache_dirs.deep_view() == Seq::<(Seq<char>, Seq<char>)>::empty(),
            r.environ.deep_view() == seq![
                ("TERM"@, "dumb"@),
                ("HOME"@, "/tmp"@),
                ("PATH"@, "/usr/local/sbin:/usr/local/bin:/usr/sbin:/usr/bin:/sbin:/bin"@),
            ],
            r.pip_settings.index_urls.deep_view() == Seq::<Seq<char>>::empty(),
            r.pip_settings.find_links.deep_view() == Seq::<Seq<char>>::empty(),
            r.pip_settings.dependencies == true,
            r.timelog@.len() == 0,
    {
        let mut ensure_dirs: Vec<String> = Vec::new();
        ensure_dirs.push(String::from_str("proc"));
        ensure_dirs.push(String::from_str("sys"));
        ensure_dirs.push(String::from_str("dev"));
        ensure_dirs.push(String::from_str("work"));
        ensure_dirs.push(String::from_str("tmp"));
        let mut empty_dirs: Vec<String> = Vec::new();
        empty_dirs.push(String::from_str("tmp"));
        empty_dirs.push(String::from_str("var/tmp"));
        let mut environ: Vec<(String, String)> = Vec::new();
        environ.push((String::from_str("TERM"), String::from_str("dumb")));
        environ.push((String::from_str("HOME"), String::from_str("/tmp")));
        environ.push(
            (
                String::from_str("PATH"),
                String::from_str("/usr/local/sbin:/usr/local/bin:/usr/sbin:/usr/bin:/sbin:/bin"),
            ),
        );
        let r = BuildContext {
            container_name,
            distribution: Distribution::Unknown,
            packages: Vec::new(),
            build_deps: Vec::new(),
            featured_packages: Vec::new(),
            ensure_dirs,
            empty_dirs,
            remove_dirs: Vec::new(),
            cache_dirs: Vec::new(),
            environ,
            pip_settings: PipSettings {
                index_urls: Vec::new(),
                find_links: Vec::new(),
                dependencies: true,
            },
            timelog: Vec::new(),
        };
        proof {
            assert(r.ensure_dirs.deep_view() =~~= seq!["proc"@, "sys"@, "dev"@, "work"@, "tmp"@]);
            assert(r.empty_dirs.deep_view() =~~= seq!["tmp"@, "var/tmp"@]);
            assert(r.environ.deep_view() =~~= seq![
                ("TERM"@, "dumb"@),
                ("HOME"@, "/tmp"@),
                ("PATH"@, "/usr/local/sbin:/usr/local/bin:/usr/sbin:/usr/bin:/sbin:/bin"@),
            ]);
            assert(r.packages.deep_view() =~= Seq::<Seq<char>>::empty());
            assert(r.build_deps.deep_view() =~= Seq::<Seq<char>>::empty());
            assert(r.cache_dirs.deep_view() =~= Seq::<(Seq<char>, Seq<char>)>::empty());
            assert(r.pip_settings.index_urls.deep_view() =~= Seq::<Seq<char>>::empty());
            assert(r.pip_settings.find_links.deep_view() =~= Seq::<Seq<char>>::empty());
        }
        r
    }

    /// Register a directory to strip from the committed root.
    pub fn add_remove_dir(&mut self, path: &String)
        requires
            abs_path(path@),
        ensures
            final (self).remove_dirs.deep_view() == spec_set_insert(
                old(self).remove_dirs.deep_view(),
                path@.skip(1),
            ),
            *final (self) == (BuildContext { remove_dirs: final (self).remove_dirs, ..*old(self) }),
    {
        let rel = path.as_str().substring_char(1, path.as_str().unicode_len());
        name_set_insert(&mut self.remove_dirs, rel.to_owned());
    }

    /// Register a directory to keep but empty in the committed root.
    pub fn add_empty_dir(&mut self, path: &String)
        requires
            abs_path(path@),
        ensures
            final (self).empty_dirs.deep_view() == spec_set_insert(
                old(self).empty_dirs.deep_view(),
                path@.skip(1),
            ),
            *final (self) == (BuildContext { empty_dirs: final (self).empty_dirs, ..*old(self) }),
    {
        let rel = path.as_str().substring_char(1, path.as_str().unicode_len());
        name_set_insert(&mut self.empty_dirs, rel.to_owned());
    }

    /// Register a directory that must exist in the committed root.
    pub fn add_ensure_dir(&mut self, path: &String)
        requires
            abs_path(path@),
        ensures
            final (self).ensure_dirs.deep_view() == spec_set_insert(
                old(self).ensure_dirs.deep_view(),
                path@.skip(1),
            ),
            *final (self) == (BuildContext { ensure_dirs: final (self).ensure_dirs, ..*old(self) }),
    {
        let rel = path.as_str().substring_char(1, path.as_str().unicode_len());
        name_set_insert(&mut self.ensure_dirs, rel.to_owned());
    }

    /// Bind an environment variable for the container.
    pub fn set_environ(&mut self, key: String, value: String)
        ensures
            final (self).environ.deep_view() == spec_env_set(
                old(self).environ.deep_view(),
                key@,
                value@,
            ),
            *final (self) == (BuildContext { environ: final (self).environ, ..*old(self) }),
    {
        env_set(&mut self.environ, key, value);
    }

    /// Register a shared cache directory bound into the rootfs.  The
    /// first registration of a path plans the cache creation and bind
    /// mount; registering the same path again is a no-op.
    pub fn add_cache_dir(&mut self, path: &String, name: String) -> (r: Vec<Action>)
        requires
            abs_path(path@),
        ensures
            (if spec_cache_keys(old(self).cache_dirs.deep_view()).contains(path@.skip(1)) {
                final (self).cache_dirs == old(self).cache_dirs && r@.len() == 0
            } else {
                final (self).cache_dirs.deep_view() == old(self).cache_dirs.deep_view().push(
                    (path@.skip(1), name@),
                ) && r@.len() == 4 && (r@[0] matches Action::MakeCacheDir { name: n, mode }
                    && n@ == name@ && mode == 0o755) && (r@[1] matches Action::MakeDir {
                    path: p,
                    mode,
                } && p@ == spec_root_path(path@) && mode == 0o755) && (r@[2]
                    matches Action::CleanDir { path: p, remove_itself } && p@ == spec_root_path(
                    path@,
                ) && remove_itself == false) && (r@[3] matches Action::BindMountCache {
                    cache_path,
                    root_path,
                } && cache_path@ == "/vagga/cache/"@ + name@ && root_path@ == spec_root_path(
                    path@,
                ))
            }),
            *final (self) == (BuildContext { cache_dirs: final (self).cache_dirs, ..*old(self) }),
    {
        let rel = path.as_str().substring_char(1, path.as_str().unicode_len()).to_owned();
        let mut i: usize = 0;
        let ghost keys = spec_cache_keys(self.cache_dirs.deep_view());
        while i < self.cache_dirs.len()
            invariant
                i <= self.cache_dirs@.len(),
                *self == *old(self),
                keys == spec_cache_keys(self.cache_dirs.deep_view()),
                rel@ == path@.skip(1),
                forall|j: int| 0 <= j < i ==> #[trigger] keys[j] != rel@,
            decreases self.cache_dirs@.len() - i,
        {
            proof {
                assert(keys[i as int] == self.cache_dirs@[i as int].0@);
            }
            if self.cache_dirs[i].0.eq(&rel) {
                proof {
                    assert(keys.contains(rel@));
                }
                return Vec::new();
            }
            i += 1;
        }
        proof {
            assert(forall|j: int| 0 <= j < keys.len() ==> #[trigger] keys[j] != rel@);
            assert(!keys.contains(rel@));
        }
        let ghost c0 = self.cache_dirs.deep_view();
        self.cache_dirs.push((rel.clone(), name.clone()));
        proof {
            assert(self.cache_dirs.deep_view() =~~= c0.push((path@.skip(1), name@)));
        }
        let root_path = String::from_str("/vagga/root").concat(path.as_str());
        let mut actions: Vec<Action> = Vec::new();
        actions.push(Action::MakeCacheDir { name: name.clone(), mode: 0o755 });
        actions.push(Action::MakeDir { path: root_path.clone(), mode: 0o755 });
        actions.push(Action::CleanDir { path: root_path.clone(), remove_itself: false });
        actions.push(
            Action::BindMountCache {
                cache_path: String::from_str("/vagga/cache/").concat(name.as_str()),
                root_path,
            },
        );
        actions
    }

    /// Append one timing record.
    pub fn mark(&mut self, secs: u64, entry: String)
        ensures
            final (self).timelog@ == old(self).timelog@.push((secs, entry)),
            *final (self) == (BuildContext { timelog: final (self).timelog, ..*old(self) }),
    {
        self.timelog.push((secs, entry));
    }
}

/// Relies on `std::time::SystemTime::now`: seconds of the system
/// clock, for timing-log records.  Nothing is promised of the clock's
/// value.
#[verifier::external_body]
pub(crate) fn clock_secs() -> u64 {
    std::time::SystemTime::now().duration_since(std::time::UNIX_EPOCH).map(
        |d| d.as_secs(),
    ).unwrap_or(0)
}

/// The registered cache paths, in registration order.
pub open spec fn spec_cache_keys(cd: Seq<(Seq<char>, Seq<char>)>) -> Seq<Seq<char>> {
    Seq::new(cd.len(), |i: int| cd[i].0)
}

/// Bind a key in an association list kept as a vector.
pub fn env_set(env: &mut Vec<(String, String)>, key: String, value: String)
    ensures
        final (env).deep_view() == spec_env_set(old(env).deep_view(), key@, value@),
{
    let mut i: usize = 0;
    while i < env.len()
        invariant
            i <= env@.len(),
            *env == *old(env),
            forall|j: int| 0 <= j < i ==> env.deep_view()[j].0 != key@,
        decreases env@.len() - i,
    {
        proof {
            assert(env.deep_view()[i as int].0 == env@[i as int].0@);
        }
        if env[i].0.eq(&key) {
            let ghost e0 = env.deep_view();
            env.set(i, (key.clone(), value));
            proof {
                crate::spawn::lemma_env_set_found(e0, key@, value@, i as int);
                assert(env.deep_view() =~~= e0.take(i as int) + seq![(key@, value@)] + e0.skip(
                    i + 1,
                ));
            }
            return ;
        }
        i += 1;
    }
    let ghost e0 = env.deep_view();
    env.push((key, value));
    proof {
        crate::spawn::lemma_env_set_absent(e0, key@, value@);
        assert(env.deep_view() =~~= e0 + seq![(key@, value@)]);
    }
}

// ------------------------------------------------------------------
// The finish plan
// ------------------------------------------------------------------
/// The actions that open the finish phase: record the python and npm
/// package state when those features were used, then flush the
/// distro's package database and snapshot its installed listings.
pub open spec fn spec_finish_prologue(ctx: BuildContext) -> Seq<Action> {
    (if ctx.featured_packages@.contains(crate::packages::Package::PipPy2)
        || ctx.featured_packages@.contains(crate::packages::Package::PipPy3) {
        seq![Action::PipFreeze]
    } else {
        Seq::<Action>::empty()
    }) + (if ctx.featured_packages@.contains(crate::packages::Package::Npm) {
        seq![Action::NpmList]
    } else {
        Seq::<Action>::empty()
    }) + (match ctx.distribution {
        Distribution::Unknown => Seq::<Action>::empty(),
        _ => seq![Action::DistroFinish],
    })
}

fn has_feature(ctx: &BuildContext, p: crate::packages::Package) -> (r: bool)
    ensures
        r == ctx.featured_packages@.contains(p),
{
    let mut i: usize = 0;
    while i < ctx.featured_packages.len()
        invariant
            i <= ctx.featured_packages@.len(),
            forall|j: int| 0 <= j < i ==> ctx.featured_packages@[j] != p,
        decreases ctx.featured_packages@.len() - i,
    {
        if ctx.featured_packages[i] == p {
            return true;
        }
        i += 1;
    }
    false
}

/// Plan the opening of the finish phase.
pub fn finish_prologue(ctx: &BuildContext) -> (r: Vec<Action>)
    ensures
        r@ == spec_finish_prologue(*ctx),
{
    let mut r: Vec<Action> = Vec::new();
    if has_feature(ctx, crate::packages::Package::PipPy2) || has_feature(
        ctx,
        crate::packages::Package::PipPy3,
    ) {
        r.push(Action::PipFreeze);
    }
    if has_feature(ctx, crate::packages::Package::Npm) {
        r.push(Action::NpmList);
    }
    if !matches!(ctx.distribution, Distribution::Unknown) {
        r.push(Action::DistroFinish);
    }
    proof {
        assert(r@ =~= spec_finish_prologue(*ctx));
    }
    r
}

/// The ordered actions that close a build: the finish prologue, then
/// unmount the cache binds in reverse registration order, strip the
/// removed directories, empty the emptied ones, and create every
/// ensured directory with mode 0755.
pub fn finish_plan(ctx: &BuildContext) -> (r: Vec<Action>)
    ensures
        spec_finish_plan_ok(*ctx, r@),
{
    let mut r = finish_prologue(ctx);
    let mut rest = finish_dir_actions(ctx);
    let ghost pro = r@;
    let ghost tail = rest@;
    r.append(&mut rest);
    proof {
        assert(r@ =~= pro + tail);
        let b = spec_finish_prologue(*ctx).len() as int;
        assert(r@.take(b) =~= pro);
        assert forall|i: int| b <= i < r@.len() implies r@[i] == tail[i - b] by {}
    }
    r
}

/// Close a build: plan the finish phase and append the closing
/// `Finish` timing record.
pub fn finish_build(ctx: &mut BuildContext) -> (r: Vec<Action>)
    ensures
        spec_finish_plan_ok(*old(ctx), r@),
        *final (ctx) == (BuildContext { timelog: final (ctx).timelog, ..*old(ctx) }),
        final (ctx).timelog@.len() == old(ctx).timelog@.len() + 1,
        final (ctx).timelog@.last().1@ == "Finish"@,
        forall|i: int|
            0 <= i < old(ctx).timelog@.len() ==> final (ctx).timelog@[i] == old(ctx).timelog@[i],
{
    let r = finish_plan(ctx);
    ctx.mark(clock_secs(), String::from_str("Finish"));
    r
}

/// What a finish plan holds: the prologue first, then the four ordered
/// directory phases.
pub open spec fn spec_finish_plan_ok(ctx: BuildContext, r: Seq<Action>) -> bool {
    let b = spec_finish_prologue(ctx).len() as int;
    let nc = ctx.cache_dirs.deep_view().len();
    let nr = ctx.remove_dirs.deep_view().len();
    let ne = ctx.empty_dirs.deep_view().len();
    let nn = ctx.ensure_dirs.deep_view().len();
    &&& r.len() == b + nc + nr + ne + nn
    &&& r.take(b) == spec_finish_prologue(ctx)
    &&& forall|i: int|
        b <= i < b + nc ==> (#[trigger] r[i] matches Action::Unmount(p) && p@ == spec_root_path(
            "/"@ + ctx.cache_dirs.deep_view()[nc - 1 - (i - b)].0,
        ))
    &&& forall|i: int|
        b + nc <= i < b + nc + nr ==> (#[trigger] r[i] matches Action::CleanDir {
            path,
            remove_itself,
        } && path@ == spec_root_path("/"@ + ctx.remove_dirs.deep_view()[i - b - nc])
            && remove_itself == true)
    &&& forall|i: int|
        b + nc + nr <= i < b + nc + nr + ne ==> (#[trigger] r[i] matches Action::CleanDir {
            path,
            remove_itself,
        } && path@ == spec_root_path("/"@ + ctx.empty_dirs.deep_view()[i - b - nc - nr])
            && remove_itself == false)
    &&& forall|i: int|
        b + nc + nr + ne <= i < b + nc + nr + ne + nn ==> (#[trigger] r[i]
            matches Action::MakeDir { path, mode } && path@ == spec_root_path(
            "/"@ + ctx.ensure_dirs.deep_view()[i - b - nc - nr - ne],
        ) && mode == 0o755)
}

/// The four directory phases of the finish plan.
fn finish_dir_actions(ctx: &BuildContext) -> (r: Vec<Action>)
    ensures
        ({
            let nc = ctx.cache_dirs.deep_view().len();
            let nr = ctx.remove_dirs.deep_view().len();
            let ne = ctx.empty_dirs.deep_view().len();
            let nn = ctx.ensure_dirs.deep_view().len();
            &&& r@.len() == nc + nr + ne + nn
            &&& forall|i: int|
                0 <= i < nc ==> (#[trigger] r@[i] matches Action::Unmount(p) && p@
                    == spec_root_path("/"@ + ctx.cache_dirs.deep_view()[nc - 1 - i].0))
            &&& forall|i: int|
                nc <= i < nc + nr ==> (#[trigger] r@[i] matches Action::CleanDir {
                    path,
                    remove_itself,
                } && path@ == spec_root_path("/"@ + ctx.remove_dirs.deep_view()[i - nc])
                    && remove_itself == true)
            &&& forall|i: int|
                nc + nr <= i < nc + nr + ne ==> (#[trigger] r@[i] matches Action::CleanDir {
                    path,
                    remove_itself,
                } && path@ == spec_root_path("/"@ + ctx.empty_dirs.deep_view()[i - nc - nr])
                    && remove_itself == false)
            &&& forall|i: int|
                nc + nr + ne <= i < nc + nr + ne + nn ==> (#[trigger] r@[i]
                    matches Action::MakeDir { path, mode } && path@ == spec_root_path(
                    "/"@ + ctx.ensure_dirs.deep_view()[i - nc - nr - ne],
                ) && mode == 0o755)
        }),
{
    let mut r: Vec<Action> = Vec::new();
    let nc = ctx.cache_dirs.len();
    let mut i: usize = 0;
    while i < nc
        invariant
            i <= nc,
            nc == ctx.cache_dirs@.len(),
            r@.len() == i,
            forall|j: int|
                0 <= j < i ==> (#[trigger] r@[j] matches Action::Unmount(p) && p@ == spec_root_path(
                    "/"@ + ctx.cache_dirs.deep_view()[nc - 1 - j].0,
                )),
        decreases nc - i,
    {
        let rel = &ctx.cache_dirs[nc - 1 - i].0;
        proof {
            assert(ctx.cache_dirs.deep_view()[nc - 1 - i].0 == rel@);
        }
        r.push(Action::Unmount(root_path_of(rel)));
        i += 1;
    }
    let mut i: usize = 0;
    while i < ctx.remove_dirs.len()
        invariant
            i <= ctx.remove_dirs@.len(),
            nc == ctx.cache_dirs@.len(),
            r@.len() == nc + i,
            forall|j: int|
                0 <= j < nc ==> (#[trigger] r@[j] matches Action::Unmount(p) && p@
                    == spec_root_path("/"@ + ctx.cache_dirs.deep_view()[nc - 1 - j].0)),
            forall|j: int|
                nc <= j < nc + i ==> (#[trigger] r@[j] matches Action::CleanDir {
                    path,
                    remove_itself,
                } && path@ == spec_root_path("/"@ + ctx.remove_dirs.deep_view()[j - nc])
                    && remove_itself == true),
        decreases ctx.remove_dirs@.len() - i,
    {
        proof {
            assert(ctx.remove_dirs.deep_view()[i as int] == ctx.remove_dirs@[i as int]@);
        }
        r.push(
            Action::CleanDir { path: root_path_of(&ctx.remove_dirs[i]), remove_itself: true },
        );
        i += 1;
    }
    let nr = ctx.remove_dirs.len();
    let mut i: usize = 0;
    while i < ctx.empty_dirs.len()
        invariant
            i <= ctx.empty_dirs@.len(),
            nc == ctx.cache_dirs@.len(),
            nr == ctx.remove_dirs@.len(),
            r@.len() == nc + nr + i,
            forall|j: int|
                0 <= j < nc ==> (#[trigger] r@[j] matches Action::Unmount(p) && p@
                    == spec_root_path("/"@ + ctx.cache_dirs.deep_view()[nc - 1 - j].0)),
            forall|j: int|
                nc <= j < nc + nr ==> (#[trigger] r@[j] matches Action::CleanDir {
                    path,
                    remove_itself,
                } && path@ == spec_root_path("/"@ + ctx.remove_dirs.deep_view()[j - nc])
                    && remove_itself == true),
            forall|j: int|
                nc + nr <= j < nc + nr + i ==> (#[trigger] r@[j] matches Action::CleanDir {
                    path,
                    remove_itself,
                } && path@ == spec_root_path("/"@ + ctx.empty_dirs.deep_view()[j - nc - nr])
                    && remove_itself == false),
        decreases ctx.empty_dirs@.len() - i,
    {
        proof {
            assert(ctx.empty_dirs.deep_view()[i as int] == ctx.empty_dirs@[i as int]@);
        }
        r.push(
            Action::CleanDir { path: root_path_of(&ctx.empty_dirs[i]), remove_itself: false },
        );
        i += 1;
    }
    let ne = ctx.empty_dirs.len();
    let mut i: usize = 0;
    while i < ctx.ensure_dirs.len()
        invariant
            i <= ctx.ensure_dirs@.len(),
            nc == ctx.cache_dirs@.len(),
            nr == ctx.remove_dirs@.len(),
            ne == ctx.empty_dirs@.len(),
            r@.len() == nc + nr + ne + i,
            forall|j: int|
                0 <= j < nc ==> (#[trigger] r@[j] matches Action::Unmount(p) && p@
                    == spec_root_path("/"@ + ctx.cache_dirs.deep_view()[nc - 1 - j].0)),
            forall|j: int|
                nc <= j < nc + nr ==> (#[trigger] r@[j] matches Action::CleanDir {
                    path,
                    remove_itself,
                } && path@ == spec_root_path("/"@ + ctx.remove_dirs.deep_view()[j - nc])
                    && remove_itself == true),
            forall|j: int|
                nc + nr <= j < nc + nr + ne ==> (#[trigger] r@[j] matches Action::CleanDir {
                    path,
                    remove_itself,
                } && path@ == spec_root_path("/"@ + ctx.empty_dirs.deep_view()[j - nc - nr])
                    && remove_itself == false),
            forall|j: int|
                nc + nr + ne <= j < nc + nr + ne + i ==> (#[trigger] r@[j]
                    matches Action::MakeDir { path, mode } && path@ == spec_root_path(
                    "/"@ + ctx.ensure_dirs.deep_view()[j - nc - nr - ne],
                ) && mode == 0o755),
        decreases ctx.ensure_dirs@.len() - i,
    {
        proof {
            assert(ctx.ensure_dirs.deep_view()[i as int] == ctx.ensure_dirs@[i as int]@);
        }
        r.push(Action::MakeDir { path: root_path_of(&ctx.ensure_dirs[i]), mode: 0o755 });
        i += 1;
    }
    r
}

/// `/vagga/root/<rel>` for a container-relative path.
fn root_path_of(rel: &String) -> (r: String)
    ensures
        r@ == spec_root_path("/"@ + rel@),
{
    let r = String::from_str("/vagga/root/").concat(rel.as_str());
    proof {
        reveal_strlit("/vagga/root/");
        reveal_strlit("/vagga/root");
        reveal_strlit("/");
        assert(r@ =~= spec_root_path("/"@ + rel@));
    }
    r
}

// ------------------------------------------------------------------
// What the finish plan leaves in the committed root
// ------------------------------------------------------------------
/// Directories present after the removed ones are stripped.
pub open spec fn spec_rmdirs(dirs: Set<Seq<char>>, remove: Seq<Seq<char>>) -> Set<Seq<char>>
    decreases remove.len(),
{
    if remove.len() == 0 {
        dirs
    } else {
        spec_rmdirs(dirs.remove(remove.first()), remove.drop_first())
    }
}

/// Directories present after the ensured ones are created.
pub open spec fn spec_mkdirs(dirs: Set<Seq<char>>, ensure: Seq<Seq<char>>) -> Set<Seq<char>>
    decreases ensure.len(),
{
    if ensure.len() == 0 {
        dirs
    } else {
        spec_mkdirs(dirs.insert(ensure.first()), ensure.drop_first())
    }
}

proof fn lemma_rmdirs_removed(dirs: Set<Seq<char>>, remove: Seq<Seq<char>>, p: Seq<char>)
    requires
        remove.contains(p),
    ensures
        !spec_rmdirs(dirs, remove).contains(p),
    decreases remove.len(),
{
    if remove.len() > 0 {
        if remove.first() == p {
            lemma_rmdirs_keeps_absent(dirs.remove(p), remove.drop_first(), p);
        } else {
            assert(remove.drop_first().contains(p)) by {
                let i = choose|i: int| 0 <= i < remove.len() && remove[i] == p;
                assert(remove.drop_first()[i - 1] == p);
            }
            lemma_rmdirs_removed(dirs.remove(remove.first()), remove.drop_first(), p);
        }
    }
}

proof fn lemma_rmdirs_keeps_absent(dirs: Set<Seq<char>>, remove: Seq<Seq<char>>, p: Seq<char>)
    requires
        !dirs.contains(p),
    ensures
        !spec_rmdirs(dirs, remove).contains(p),
    decreases remove.len(),
{
    if remove.len() > 0 {
        lemma_rmdirs_keeps_absent(dirs.remove(remove.first()), remove.drop_first(), p);
    }
}

proof fn lemma_mkdirs_made(dirs: Set<Seq<char>>, ensure: Seq<Seq<char>>, p: Seq<char>)
    requires
        ensure.contains(p),
    ensures
        spec_mkdirs(dirs, ensure).contains(p),
    decreases ensure.len(),
{
    if ensure.len() > 0 {
        if ensure.first() == p {
            lemma_mkdirs_keeps(dirs.insert(p), ensure.drop_first(), p);
        } else {
            assert(ensure.drop_first().contains(p)) by {
                let i = choose|i: int| 0 <= i < ensure.len() && ensure[i] == p;
                assert(ensure.drop_first()[i - 1] == p);
            }
            lemma_mkdirs_made(dirs.insert(ensure.first()), ensure.drop_first(), p);
        }
    }
}

proof fn lemma_mkdirs_keeps(dirs: Set<Seq<char>>, ensure: Seq<Seq<char>>, p: Seq<char>)
    requires
        dirs.contains(p),
    ensures
        spec_mkdirs(dirs, ensure).contains(p),
    decreases ensure.len(),
{
    if ensure.len() > 0 {
        lemma_mkdirs_keeps(dirs.insert(ensure.first()), ensure.drop_first(), p);
    }
}

proof fn lemma_mkdirs_no_others(dirs: Set<Seq<char>>, ensure: Seq<Seq<char>>, p: Seq<char>)
    requires
        !dirs.contains(p),
        !ensure.contains(p),
    ensures
        !spec_mkdirs(dirs, ensure).contains(p),
    decreases ensure.len(),
{
    if ensure.len() > 0 {
        assert(ensure.first() != p);
        assert forall|i: int| 0 <= i < ensure.drop_first().len() implies ensure.drop_first()[i]
            != p by {
            assert(ensure.drop_first()[i] == ensure[i + 1]);
        }
        lemma_mkdirs_no_others(dirs.insert(ensure.first()), ensure.drop_first(), p);
    }
}

/// Law: a committed root contains every ensured directory and none of
/// the removed ones.  Whatever directories a build left behind, the
/// finish plan strips the removed set first and then creates the
/// ensured set, so in the resulting root every `ensure_dirs` entry is
/// present and — as long as a directory is not both removed and
/// ensured — every `remove_dirs` entry is absent.
pub proof fn lemma_committed_root_dirs(
    dirs: Set<Seq<char>>,
    remove: Seq<Seq<char>>,
    ensure: Seq<Seq<char>>,
)
    requires
        forall|i: int| 0 <= i < remove.len() ==> !ensure.contains(#[trigger] remove[i]),
    ensures
        forall|i: int|
            0 <= i < ensure.len() ==> spec_mkdirs(spec_rmdirs(dirs, remove), ensure).contains(
                #[trigger] ensure[i],
            ),
        forall|i: int|
            0 <= i < remove.len() ==> !spec_mkdirs(spec_rmdirs(dirs, remove), ensure).contains(
                #[trigger] remove[i],
            ),
{
    assert forall|i: int| 0 <= i < ensure.len() implies spec_mkdirs(
        spec_rmdirs(dirs, remove),
        ensure,
    ).contains(#[trigger] ensure[i]) by {
        assert(ensure.contains(ensure[i]));
        lemma_mkdirs_made(spec_rmdirs(dirs, remove), ensure, ensure[i]);
    }
    assert forall|i: int| 0 <= i < remove.len() implies !spec_mkdirs(
        spec_rmdirs(dirs, remove),
        ensure,
    ).contains(#[trigger] remove[i]) by {
        assert(remove.contains(remove[i]));
        lemma_rmdirs_removed(dirs, remove, remove[i]);
        lemma_mkdirs_no_others(spec_rmdirs(dirs, remove), ensure, remove[i]);
    }
}

} // verus!
