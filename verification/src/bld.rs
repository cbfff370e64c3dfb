use vstd::prelude::*;
use vstd::string::StringExecFns;

use crate::context::{
    abs_path, Action, AlpineInfo, BuildContext, Distribution, PipSettings, UbuntuInfo,
    spec_root_path, spec_set_insert,
};
use crate::config::Container;
use crate::coordinator::seq_contains;
use crate::packages::{spec_feature_union, Package};
use crate::pip::{scan_features, spec_scan_features};
use crate::spawn::spec_env_set;
use crate::steps::{Step, SubSource};

verus! {

/// Add every name of `items` to the set `s`, in order.
pub open spec fn spec_names_union(s: Seq<Seq<char>>, items: Seq<Seq<char>>) -> Seq<Seq<char>>
    decreases items.len(),
{
    if items.len() == 0 {
        s
    } else {
        spec_names_union(spec_set_insert(s, items.first()), items.drop_first())
    }
}

/// Remove every occurrence of `x` from `s`.
pub open spec fn spec_remove_name(s: Seq<Seq<char>>, x: Seq<char>) -> Seq<Seq<char>>
    decreases s.len(),
{
    if s.len() == 0 {
        Seq::<Seq<char>>::empty()
    } else if s.first() == x {
        spec_remove_name(s.drop_first(), x)
    } else {
        seq![s.first()] + spec_remove_name(s.drop_first(), x)
    }
}

/// Remove every name of `items` from `s`.
pub open spec fn spec_names_minus(s: Seq<Seq<char>>, items: Seq<Seq<char>>) -> Seq<Seq<char>>
    decreases items.len(),
{
    if items.len() == 0 {
        s
    } else {
        spec_names_minus(spec_remove_name(s, items.first()), items.drop_first())
    }
}

/// `build_deps` additions: each name not already an installed package.
pub open spec fn spec_add_deps(
    deps: Seq<Seq<char>>,
    items: Seq<Seq<char>>,
    pkgs: Seq<Seq<char>>,
) -> Seq<Seq<char>>
    decreases items.len(),
{
    if items.len() == 0 {
        deps
    } else {
        spec_add_deps(
            if seq_contains(pkgs, items.first()) {
                deps
            } else {
                spec_set_insert(deps, items.first())
            },
            items.drop_first(),
            pkgs,
        )
    }
}

/// Merge every pair into an environment.
pub open spec fn spec_env_merge(
    env: Seq<(Seq<char>, Seq<char>)>,
    pairs: Seq<(Seq<char>, Seq<char>)>,
) -> Seq<(Seq<char>, Seq<char>)>
    decreases pairs.len(),
{
    if pairs.len() == 0 {
        env
    } else {
        spec_env_merge(spec_env_set(env, pairs.first().0, pairs.first().1), pairs.drop_first())
    }
}

fn add_names(v: &mut Vec<String>, items: &Vec<String>)
    ensures
        final (v).deep_view() == spec_names_union(old(v).deep_view(), items.deep_view()),
{
    let mut i: usize = 0;
    proof {
        assert(items.deep_view().skip(0) =~= items.deep_view());
    }
    while i < items.len()
        invariant
            i <= items@.len(),
            spec_names_union(old(v).deep_view(), items.deep_view()) == spec_names_union(
                v.deep_view(),
                items.deep_view().skip(i as int),
            ),
        decreases items@.len() - i,
    {
        proof {
            assert(items.deep_view().skip(i as int).first() == items@[i as int]@);
            assert(items.deep_view().skip(i as int).drop_first() =~= items.deep_view().skip(
                i + 1,
            ));
        }
        crate::context::name_set_insert(v, items[i].clone());
        i += 1;
    }
    proof {
        assert(items.deep_view().skip(items@.len() as int).len() == 0);
    }
}

fn remove_name(v: &mut Vec<String>, x: &String)
    ensures
        final (v).deep_view() == spec_remove_name(old(v).deep_view(), x@),
{
    let mut r: Vec<String> = Vec::new();
    let mut i: usize = 0;
    proof {
        assert(old(v).deep_view().skip(0) =~= old(v).deep_view());
        assert(r.deep_view() =~= Seq::<Seq<char>>::empty());
        assert(spec_remove_name(old(v).deep_view(), x@) =~= r.deep_view() + spec_remove_name(
            old(v).deep_view().skip(0),
            x@,
        ));
    }
    while i < v.len()
        invariant
            i <= v@.len(),
            *v == *old(v),
            spec_remove_name(old(v).deep_view(), x@) == r.deep_view() + spec_remove_name(
                old(v).deep_view().skip(i as int),
                x@,
            ),
        decreases v@.len() - i,
    {
        proof {
            assert(old(v).deep_view().skip(i as int).first() == v@[i as int]@);
            assert(old(v).deep_view().skip(i as int).drop_first() =~= old(v).deep_view().skip(
                i + 1,
            ));
        }
        let ghost r0 = r.deep_view();
        if !v[i].eq(x) {
            r.push(v[i].clone());
            proof {
                assert(r.deep_view() =~~= r0.push(v@[i as int]@));
                assert(r.deep_view() + spec_remove_name(old(v).deep_view().skip(i + 1), x@)
                    =~= r0 + (seq![v@[i as int]@] + spec_remove_name(
                    old(v).deep_view().skip(i + 1),
                    x@,
                )));
            }
        }
        i += 1;
    }
    proof {
        assert(old(v).deep_view().skip(v@.len() as int).len() == 0);
        assert(r.deep_view() + spec_remove_name(old(v).deep_view().skip(v@.len() as int), x@)
            =~= r.deep_view());
    }
    *v = r;
}

fn remove_names(v: &mut Vec<String>, items: &Vec<String>)
    ensures
        final (v).deep_view() == spec_names_minus(old(v).deep_view(), items.deep_view()),
{
    let mut i: usize = 0;
    proof {
        assert(items.deep_view().skip(0) =~= items.deep_view());
    }
    while i < items.len()
        invariant
            i <= items@.len(),
            spec_names_minus(old(v).deep_view(), items.deep_view()) == spec_names_minus(
                v.deep_view(),
                items.deep_view().skip(i as int),
            ),
        decreases items@.len() - i,
    {
        proof {
            assert(items.deep_view().skip(i as int).first() == items@[i as int]@);
            assert(items.deep_view().skip(i as int).drop_first() =~= items.deep_view().skip(
                i + 1,
            ));
        }
        remove_name(v, &items[i]);
        i += 1;
    }
    proof {
        assert(items.deep_view().skip(items@.len() as int).len() == 0);
    }
}

fn add_deps(deps: &mut Vec<String>, items: &Vec<String>, pkgs: &Vec<String>)
    ensures
        final (deps).deep_view() == spec_add_deps(
            old(deps).deep_view(),
            items.deep_view(),
            pkgs.deep_view(),
        ),
{
    let mut i: usize = 0;
    proof {
        assert(items.deep_view().skip(0) =~= items.deep_view());
    }
    while i < items.len()
        invariant
            i <= items@.len(),
            spec_add_deps(old(deps).deep_view(), items.deep_view(), pkgs.deep_view())
                == spec_add_deps(
                deps.deep_view(),
                items.deep_view().skip(i as int),
                pkgs.deep_view(),
            ),
        decreases items@.len() - i,
    {
        proof {
            assert(items.deep_view().skip(i as int).first() == items@[i as int]@);
            assert(items.deep_view().skip(i as int).drop_first() =~= items.deep_view().skip(
                i + 1,
            ));
        }
        if !crate::context::name_set_contains(pkgs, &items[i]) {
            crate::context::name_set_insert(deps, items[i].clone());
        }
        i += 1;
    }
    proof {
        assert(items.deep_view().skip(items@.len() as int).len() == 0);
    }
}

fn merge_environ(env: &mut Vec<(String, String)>, pairs: &Vec<(String, String)>)
    ensures
        final (env).deep_view() == spec_env_merge(old(env).deep_view(), pairs.deep_view()),
{
    let mut i: usize = 0;
    proof {
        assert(pairs.deep_view().skip(0) =~= pairs.deep_view());
    }
    while i < pairs.len()
        invariant
            i <= pairs@.len(),
            spec_env_merge(old(env).deep_view(), pairs.deep_view()) == spec_env_merge(
                env.deep_view(),
                pairs.deep_view().skip(i as int),
            ),
        decreases pairs@.len() - i,
    {
        proof {
            assert(pairs.deep_view().skip(i as int).first() == (
                pairs@[i as int].0@,
                pairs@[i as int].1@,
            ));
            assert(pairs.deep_view().skip(i as int).drop_first() =~= pairs.deep_view().skip(
                i + 1,
            ));
        }
        crate::context::env_set(env, pairs[i].0.clone(), pairs[i].1.clone());
        i += 1;
    }
    proof {
        assert(pairs.deep_view().skip(pairs@.len() as int).len() == 0);
    }
}

/// Paths a step writes or registers must be absolute, as the
/// configuration validator guarantees.
pub open spec fn step_wf(step: Step) -> bool {
    match step {
        Step::Remove(p) => abs_path(p@),
        Step::EmptyDir(p) => abs_path(p@),
        Step::EnsureDir(p) => abs_path(p@),
        Step::CacheDirs(pairs) => forall|i: int|
            0 <= i < pairs@.len() ==> abs_path(#[trigger] pairs@[i].0@),
        Step::Text(files) => forall|i: int|
            0 <= i < files@.len() ==> abs_path(#[trigger] files@[i].0@),
        _ => true,
    }
}

/// One step's effect on the build: how it changes the context, and
/// which side-effecting actions it plans.  `build` distinguishes a real
/// build from a configure-only pass; directory registration steps act
/// immediately in both.
pub trait BuildCommand {
    /// Whether the element's paths are in the shape the configuration
    /// validator guarantees.
    spec fn wf(&self) -> bool;

    /// Exactly how `build` changes the context and what it plans.
    spec fn build_rel(
        &self,
        pre: BuildContext,
        post: BuildContext,
        build: bool,
        r: Result<Vec<Action>, String>,
    ) -> bool;

    fn build(&self, ctx: &mut BuildContext, build: bool) -> (r: Result<Vec<Action>, String>)
        requires
            self.wf(),
        ensures
            self.build_rel(*old(ctx), *final (ctx), build, r),
    ;
}

/// The context is unchanged and, on a real build, exactly one action
/// is planned; on a configure pass, none.
pub open spec fn one_action_rel(
    pre: BuildContext,
    post: BuildContext,
    build: bool,
    r: Result<Vec<Action>, String>,
    ok: spec_fn(Action) -> bool,
) -> bool {
    &&& post == pre
    &&& r matches Ok(a) && (if build {
        a@.len() == 1 && ok(a@[0])
    } else {
        a@.len() == 0
    })
}

/// The step dispatch relation: one case per step variant, giving the
/// exact context change and the exact plan.
pub open spec fn step_rel(
    pre: BuildContext,
    post: BuildContext,
    step: Step,
    build: bool,
    r: Result<Vec<Action>, String>,
) -> bool {
    match step {
        Step::Install(pkgs) => {
            &&& post == (BuildContext {
                packages: post.packages,
                build_deps: post.build_deps,
                ..pre
            })
            &&& post.packages.deep_view() == spec_names_union(
                pre.packages.deep_view(),
                pkgs.deep_view(),
            )
            &&& post.build_deps.deep_view() == spec_names_minus(
                pre.build_deps.deep_view(),
                pkgs.deep_view(),
            )
            &&& r matches Ok(a) && (if build {
                a@.len() == 1 && (a@[0] matches Action::InstallPkgs(p) && p.deep_view()
                    == pkgs.deep_view())
            } else {
                a@.len() == 0
            })
        },
        Step::BuildDeps(pkgs) => {
            &&& post == (BuildContext { build_deps: post.build_deps, ..pre })
            &&& post.build_deps.deep_view() == spec_add_deps(
                pre.build_deps.deep_view(),
                pkgs.deep_view(),
                pre.packages.deep_view(),
            )
            &&& r matches Ok(a) && (if build {
                a@.len() == 1 && (a@[0] matches Action::InstallPkgs(p) && p.deep_view()
                    == pkgs.deep_view())
            } else {
                a@.len() == 0
            })
        },
        Step::Ubuntu(code) => {
            if pre.distribution is Unknown {
                &&& post == (BuildContext { distribution: post.distribution, ..pre })
                &&& post.distribution matches Distribution::Ubuntu(info) && info.codename@
                    == code@ && info.universe == false
                &&& r matches Ok(a) && (if build {
                    a@.len() == 1 && a@[0] is Bootstrap
                } else {
                    a@.len() == 0
                })
            } else {
                &&& post == pre
                &&& r matches Err(e) && e@ == "Distribution is already set"@
            }
        },
        Step::UbuntuRelease(ver) => {
            if pre.distribution is Unknown {
                &&& post == (BuildContext { distribution: post.distribution, ..pre })
                &&& post.distribution matches Distribution::Ubuntu(info) && info.codename@
                    == ver@ && info.universe == false
                &&& r matches Ok(a) && (if build {
                    a@.len() == 1 && a@[0] is Bootstrap
                } else {
                    a@.len() == 0
                })
            } else {
                &&& post == pre
                &&& r matches Err(e) && e@ == "Distribution is already set"@
            }
        },
        Step::UbuntuRepo(url) => {
            if pre.distribution is Ubuntu {
                one_action_rel(
                    pre,
                    post,
                    build,
                    r,
                    |act: Action| act matches Action::AddAptSource(l) && l@ == url@,
                )
            } else {
                &&& post == pre
                &&& r matches Err(e) && e@ == "Incompatible distribution"@
            }
        },
        Step::UbuntuUniverse => match pre.distribution {
            Distribution::Ubuntu(info) => {
                &&& post == (BuildContext { distribution: post.distribution, ..pre })
                &&& post.distribution matches Distribution::Ubuntu(info2) && info2.codename@
                    == info.codename@ && info2.universe == true
                &&& r matches Ok(a) && (if build {
                    a@.len() == 1 && a@[0] is EnableUniverse
                } else {
                    a@.len() == 0
                })
            },
            _ => {
                &&& post == pre
                &&& r matches Err(e) && e@ == "Incompatible distribution"@
            },
        },
        Step::Alpine(ver) => {
            if pre.distribution is Unknown {
                &&& post == (BuildContext { distribution: post.distribution, ..pre })
                &&& post.distribution matches Distribution::Alpine(info) && info.version@ == ver@
                &&& r matches Ok(a) && (if build {
                    a@.len() == 1 && a@[0] is Bootstrap
                } else {
                    a@.len() == 0
                })
            } else {
                &&& post == pre
                &&& r matches Err(e) && e@ == "Distribution is already set"@
            }
        },
        Step::Sh(text) => one_action_rel(
            pre,
            post,
            build,
            r,
            |act: Action| act matches Action::RunCmd(v) && v.deep_view() == seq![
                "/bin/sh"@,
                "-exc"@,
                text@,
            ],
        ),
        Step::Cmd(argv) => one_action_rel(
            pre,
            post,
            build,
            r,
            |act: Action| act matches Action::RunCmd(v) && v.deep_view() == argv.deep_view(),
        ),
        Step::Env(pairs) => {
            &&& post == (BuildContext { environ: post.environ, ..pre })
            &&& post.environ.deep_view() == spec_env_merge(
                pre.environ.deep_view(),
                pairs.deep_view(),
            )
            &&& r matches Ok(a) && a@.len() == 0
        },
        Step::Remove(path) => {
            &&& post == (BuildContext { remove_dirs: post.remove_dirs, ..pre })
            &&& post.remove_dirs.deep_view() == spec_set_insert(
                pre.remove_dirs.deep_view(),
                path@.skip(1),
            )
            &&& r matches Ok(a) && a@.len() == 1 && (a@[0] matches Action::CleanDir {
                path: p,
                remove_itself,
            } && p@ == spec_root_path(path@) && remove_itself == true)
        },
        Step::EmptyDir(path) => {
            &&& post == (BuildContext { empty_dirs: post.empty_dirs, ..pre })
            &&& post.empty_dirs.deep_view() == spec_set_insert(
                pre.empty_dirs.deep_view(),
                path@.skip(1),
            )
            &&& r matches Ok(a) && a@.len() == 1 && (a@[0] matches Action::CleanDir {
                path: p,
                remove_itself,
            } && p@ == spec_root_path(path@) && remove_itself == false)
        },
        Step::EnsureDir(path) => {
            &&& post == (BuildContext { ensure_dirs: post.ensure_dirs, ..pre })
            &&& post.ensure_dirs.deep_view() == spec_set_insert(
                pre.ensure_dirs.deep_view(),
                path@.skip(1),
            )
            &&& r matches Ok(a) && a@.len() == 1 && (a@[0] matches Action::MakeDir {
                path: p,
                mode,
            } && p@ == spec_root_path(path@) && mode == 0o755)
        },
        Step::CacheDirs(pairs) => {
            &&& post == (BuildContext { cache_dirs: post.cache_dirs, ..pre })
            &&& r matches Ok(a) && cache_pairs_rel(
                pre.cache_dirs.deep_view(),
                post.cache_dirs.deep_view(),
                pairs.deep_view(),
                a@,
            )
        },
        Step::Depends(_) => {
            &&& post == pre
            &&& r matches Ok(a) && a@.len() == 0
        },
        Step::Text(files) => {
            &&& post == pre
            &&& r matches Ok(a) && (if build {
                a@.len() == files@.len() && forall|i: int|
                    0 <= i < a@.len() ==> (#[trigger] a@[i] matches Action::WriteFile {
                        path,
                        body,
                        mode,
                    } && path@ == spec_root_path(files.deep_view()[i].0) && body@
                        == files.deep_view()[i].1 && mode == 0o755)
            } else {
                a@.len() == 0
            })
        },
        Step::Git(url) => one_action_rel(
            pre,
            post,
            build,
            r,
            |act: Action| act matches Action::FetchGit { url: u, install } && u@ == url@
                && install == false,
        ),
        Step::GitInstall(url) => one_action_rel(
            pre,
            post,
            build,
            r,
            |act: Action| act matches Action::FetchGit { url: u, install } && u@ == url@
                && install == true,
        ),
        Step::Tar(url) => one_action_rel(
            pre,
            post,
            build,
            r,
            |act: Action| act matches Action::FetchTar { url: u, install } && u@ == url@
                && install == false,
        ),
        Step::TarInstall(url) => one_action_rel(
            pre,
            post,
            build,
            r,
            |act: Action| act matches Action::FetchTar { url: u, install } && u@ == url@
                && install == true,
        ),
        Step::PipConfig { index_urls, find_links, dependencies } => {
            &&& post == (BuildContext { pip_settings: post.pip_settings, ..pre })
            &&& post.pip_settings.index_urls.deep_view() == index_urls.deep_view()
            &&& post.pip_settings.find_links.deep_view() == find_links.deep_view()
            &&& post.pip_settings.dependencies == dependencies
            &&& r matches Ok(a) && a@.len() == 0
        },
        Step::Py2Install(pkgs) => pip_install_rel(pre, post, 2, pkgs.deep_view(), build, r),
        Step::Py3Install(pkgs) => pip_install_rel(pre, post, 3, pkgs.deep_view(), build, r),
        Step::Py2Requirements(path) => pip_requirements_rel(pre, post, 2, path@, build, r),
        Step::Py3Requirements(path) => pip_requirements_rel(pre, post, 3, path@, build, r),
        Step::NpmInstall(pkgs) => {
            &&& post == (BuildContext { featured_packages: post.featured_packages, ..pre })
            &&& post.featured_packages@ == spec_feature_union(
                pre.featured_packages@,
                seq![Package::NodeJs, Package::NodeJsDev, Package::Npm],
            )
            &&& r matches Ok(a) && (if build {
                a@.len() == 1 && (a@[0] matches Action::NpmInstall(p) && p.deep_view()
                    == pkgs.deep_view())
            } else {
                a@.len() == 0
            })
        },
        Step::Container(name) => one_action_rel(
            pre,
            post,
            build,
            r,
            |act: Action| act matches Action::CopyContainer(n) && n@ == name@,
        ),
        Step::SubConfig { source: _, path, container } => {
            &&& post == pre
            &&& r matches Ok(a) && a@.len() == 1 && (a@[0] matches Action::ReadSubConfig {
                path: p,
                container: c,
            } && p@ == path@ && c@ == container@)
        },
    }
}

/// Plan of a pip install step: the toolchain and VCS features are
/// requested, and on a real build pip runs once.
pub open spec fn pip_install_rel(
    pre: BuildContext,
    post: BuildContext,
    ver: u8,
    pkgs: Seq<Seq<char>>,
    build: bool,
    r: Result<Vec<Action>, String>,
) -> bool {
    &&& post == (BuildContext { featured_packages: post.featured_packages, ..pre })
    &&& post.featured_packages@ == spec_feature_union(
        pre.featured_packages@,
        spec_scan_features(ver, pkgs),
    )
    &&& r matches Ok(a) && (if build {
        a@.len() == 1 && (a@[0] matches Action::PipInstall { python_version, packages } && (
        python_version == ver && packages.deep_view() == pkgs))
    } else {
        a@.len() == 0
    })
}

/// Plan of a pip requirements step: only the toolchain features can be
/// requested up front, since the file is read inside the build.
pub open spec fn pip_requirements_rel(
    pre: BuildContext,
    post: BuildContext,
    ver: u8,
    path: Seq<char>,
    build: bool,
    r: Result<Vec<Action>, String>,
) -> bool {
    &&& post == (BuildContext { featured_packages: post.featured_packages, ..pre })
    &&& post.featured_packages@ == spec_feature_union(
        pre.featured_packages@,
        crate::pip::spec_base_features(ver),
    )
    &&& r matches Ok(a) && (if build {
        a@.len() == 1 && (a@[0] matches Action::PipRequirements { python_version, path: p } && (
        python_version == ver && p@ == path))
    } else {
        a@.len() == 0
    })
}

/// The relation between cache-dir registrations, the resulting cache
/// set, and the planned actions: already-registered paths plan
/// nothing, new paths plan their four setup actions in order.
pub open spec fn cache_pairs_rel(
    cd0: Seq<(Seq<char>, Seq<char>)>,
    cd1: Seq<(Seq<char>, Seq<char>)>,
    pairs: Seq<(Seq<char>, Seq<char>)>,
    acts: Seq<Action>,
) -> bool
    decreases pairs.len(),
{
    if pairs.len() == 0 {
        cd1 == cd0 && acts.len() == 0
    } else {
        let path = pairs.first().0;
        let name = pairs.first().1;
        if crate::context::spec_cache_keys(cd0).contains(path.skip(1)) {
            cache_pairs_rel(cd0, cd1, pairs.drop_first(), acts)
        } else {
            &&& acts.len() >= 4
            &&& acts[0] matches Action::MakeCacheDir { name: n, mode } && n@ == name && mode
                == 0o755
            &&& acts[1] matches Action::MakeDir { path: p, mode } && p@ == spec_root_path(path)
                && mode == 0o755
            &&& acts[2] matches Action::CleanDir { path: p, remove_itself } && p@
                == spec_root_path(path) && remove_itself == false
            &&& acts[3] matches Action::BindMountCache { cache_path, root_path } && cache_path@
                == "/vagga/cache/"@ + name && root_path@ == spec_root_path(path)
            &&& cache_pairs_rel(cd0.push((path.skip(1), name)), cd1, pairs.drop_first(), acts.skip(4))
        }
    }
}

/// Register a list of cache directories, collecting the setup actions
/// of the paths seen for the first time.
fn apply_cache_dirs(ctx: &mut BuildContext, pairs: &Vec<(String, String)>, idx: usize) -> (r: Vec<
    Action,
>)
    requires
        idx <= pairs@.len(),
        forall|i: int| 0 <= i < pairs@.len() ==> abs_path(#[trigger] pairs@[i].0@),
    ensures
        final (ctx).cache_dirs.deep_view().len() >= old(ctx).cache_dirs.deep_view().len(),
        *final (ctx) == (BuildContext { cache_dirs: final (ctx).cache_dirs, ..*old(ctx) }),
        cache_pairs_rel(
            old(ctx).cache_dirs.deep_view(),
            final (ctx).cache_dirs.deep_view(),
            pairs.deep_view().skip(idx as int),
            r@,
        ),
    decreases pairs@.len() - idx,
{
    if idx == pairs.len() {
        let r: Vec<Action> = Vec::new();
        proof {
            assert(pairs.deep_view().skip(idx as int).len() == 0);
        }
        return r;
    }
    proof {
        assert(pairs.deep_view().skip(idx as int).first() == (
            pairs@[idx as int].0@,
            pairs@[idx as int].1@,
        ));
        assert(pairs.deep_view().skip(idx as int).drop_first() =~= pairs.deep_view().skip(
            idx + 1,
        ));
    }
    let mut acts = ctx.add_cache_dir(&pairs[idx].0, pairs[idx].1.clone());
    let ghost first_len = acts@.len();
    let ghost cd_mid = ctx.cache_dirs.deep_view();
    let mut rest = apply_cache_dirs(ctx, pairs, idx + 1);
    let ghost rest0 = rest@;
    acts.append(&mut rest);
    proof {
        assert(acts@.skip(first_len as int) =~= rest0);
        if first_len == 4 {
            assert(acts@.len() >= 4);
            assert(acts@[0] == acts@.take(4)[0]);
        }
    }
    acts
}

impl BuildCommand for Step {
    open spec fn wf(&self) -> bool {
        step_wf(*self)
    }

    open spec fn build_rel(
        &self,
        pre: BuildContext,
        post: BuildContext,
        build: bool,
        r: Result<Vec<Action>, String>,
    ) -> bool {
        step_rel(pre, post, *self, build, r)
    }

    fn build(&self, ctx: &mut BuildContext, build: bool) -> (r: Result<Vec<Action>, String>) {
        match self {
            Step::Install(pkgs) => {
                add_names(&mut ctx.packages, pkgs);
                remove_names(&mut ctx.build_deps, pkgs);
                let mut a: Vec<Action> = Vec::new();
                if build {
                    a.push(Action::InstallPkgs(copy_names(pkgs)));
                }
                Ok(a)
            },
            Step::BuildDeps(pkgs) => {
                let installed = copy_names(&ctx.packages);
                proof {
                    assert(installed.deep_view() =~~= ctx.packages.deep_view());
                }
                add_deps(&mut ctx.build_deps, pkgs, &installed);
                let mut a: Vec<Action> = Vec::new();
                if build {
                    a.push(Action::InstallPkgs(copy_names(pkgs)));
                }
                Ok(a)
            },
            Step::Ubuntu(code) => {
                if matches!(ctx.distribution, Distribution::Unknown) {
                    ctx.distribution = Distribution::Ubuntu(
                        UbuntuInfo { codename: code.clone(), universe: false },
                    );
                    let mut a: Vec<Action> = Vec::new();
                    if build {
                        a.push(Action::Bootstrap);
                    }
                    Ok(a)
                } else {
                    Err(String::from_str("Distribution is already set"))
                }
            },
            Step::UbuntuRelease(ver) => {
                if matches!(ctx.distribution, Distribution::Unknown) {
                    ctx.distribution = Distribution::Ubuntu(
                        UbuntuInfo { codename: ver.clone(), universe: false },
                    );
                    let mut a: Vec<Action> = Vec::new();
                    if build {
                        a.push(Action::Bootstrap);
                    }
                    Ok(a)
                } else {
                    Err(String::from_str("Distribution is already set"))
                }
            },
            Step::UbuntuRepo(url) => {
                if matches!(ctx.distribution, Distribution::Ubuntu(_)) {
                    let mut a: Vec<Action> = Vec::new();
                    if build {
                        a.push(Action::AddAptSource(url.clone()));
                    }
                    Ok(a)
                } else {
                    Err(String::from_str("Incompatible distribution"))
                }
            },
            Step::UbuntuUniverse => {
                let codename = match &ctx.distribution {
                    Distribution::Ubuntu(info) => info.codename.clone(),
                    _ => {
                        return Err(String::from_str("Incompatible distribution"));
                    },
                };
                ctx.distribution = Distribution::Ubuntu(UbuntuInfo { codename, universe: true });
                let mut a: Vec<Action> = Vec::new();
                if build {
                    a.push(Action::EnableUniverse);
                }
                Ok(a)
            },
            Step::Alpine(ver) => {
                if matches!(ctx.distribution, Distribution::Unknown) {
                    ctx.distribution = Distribution::Alpine(AlpineInfo { version: ver.clone() });
                    let mut a: Vec<Action> = Vec::new();
                    if build {
                        a.push(Action::Bootstrap);
                    }
                    Ok(a)
                } else {
                    Err(String::from_str("Distribution is already set"))
                }
            },
            Step::Sh(text) => {
                let mut a: Vec<Action> = Vec::new();
                if build {
                    let mut argv: Vec<String> = Vec::new();
                    argv.push(String::from_str("/bin/sh"));
                    argv.push(String::from_str("-exc"));
                    argv.push(text.clone());
                    proof {
                        assert(argv.deep_view() =~~= seq!["/bin/sh"@, "-exc"@, text@]);
                    }
                    a.push(Action::RunCmd(argv));
                }
                Ok(a)
            },
            Step::Cmd(argv) => {
                let mut a: Vec<Action> = Vec::new();
                if build {
                    a.push(Action::RunCmd(copy_names(argv)));
                }
                Ok(a)
            },
            Step::Env(pairs) => {
                merge_environ(&mut ctx.environ, pairs);
                Ok(Vec::new())
            },
            Step::Remove(path) => {
                ctx.add_remove_dir(path);
                let mut a: Vec<Action> = Vec::new();
                a.push(
                    Action::CleanDir { path: root_path_join(path), remove_itself: true },
                );
                Ok(a)
            },
            Step::EmptyDir(path) => {
                ctx.add_empty_dir(path);
                let mut a: Vec<Action> = Vec::new();
                a.push(
                    Action::CleanDir { path: root_path_join(path), remove_itself: false },
                );
                Ok(a)
            },
            Step::EnsureDir(path) => {
                ctx.add_ensure_dir(path);
                let mut a: Vec<Action> = Vec::new();
                a.push(Action::MakeDir { path: root_path_join(path), mode: 0o755 });
                Ok(a)
            },
            Step::CacheDirs(pairs) => {
                let a = apply_cache_dirs(ctx, pairs, 0);
                proof {
                    assert(pairs.deep_view().skip(0) =~= pairs.deep_view());
                }
                Ok(a)
            },
            Step::Depends(_) => Ok(Vec::new()),
            Step::Text(files) => {
                let mut a: Vec<Action> = Vec::new();
                if build {
                    let mut i: usize = 0;
                    while i < files.len()
                        invariant
                            i <= files@.len(),
                            forall|k: int|
                                0 <= k < files@.len() ==> abs_path(#[trigger] files@[k].0@),
                            a@.len() == i,
                            forall|k: int|
                                0 <= k < i ==> (#[trigger] a@[k] matches Action::WriteFile {
                                    path,
                                    body,
                                    mode,
                                } && path@ == spec_root_path(files.deep_view()[k].0) && body@
                                    == files.deep_view()[k].1 && mode == 0o755),
                        decreases files@.len() - i,
                    {
                        proof {
                            assert(files.deep_view()[i as int] == (
                                files@[i as int].0@,
                                files@[i as int].1@,
                            ));
                        }
                        a.push(
                            Action::WriteFile {
                                path: root_path_join(&files[i].0),
                                body: files[i].1.clone(),
                                mode: 0o755,
                            },
                        );
                        i += 1;
                    }
                }
                Ok(a)
            },
            Step::Git(url) => {
                let mut a: Vec<Action> = Vec::new();
                if build {
                    a.push(Action::FetchGit { url: url.clone(), install: false });
                }
                Ok(a)
            },
            Step::GitInstall(url) => {
                let mut a: Vec<Action> = Vec::new();
                if build {
                    a.push(Action::FetchGit { url: url.clone(), install: true });
                }
                Ok(a)
            },
            Step::Tar(url) => {
                let mut a: Vec<Action> = Vec::new();
                if build {
                    a.push(Action::FetchTar { url: url.clone(), install: false });
                }
                Ok(a)
            },
            Step::TarInstall(url) => {
                let mut a: Vec<Action> = Vec::new();
                if build {
                    a.push(Action::FetchTar { url: url.clone(), install: true });
                }
                Ok(a)
            },
            Step::PipConfig { index_urls, find_links, dependencies } => {
                ctx.pip_settings = PipSettings {
                    index_urls: copy_names(index_urls),
                    find_links: copy_names(find_links),
                    dependencies: *dependencies,
                };
                Ok(Vec::new())
            },
            Step::Py2Install(pkgs) => {
                let features = scan_features(2, pkgs);
                crate::packages::add_features(&mut ctx.featured_packages, &features);
                let mut a: Vec<Action> = Vec::new();
                if build {
                    a.push(
                        Action::PipInstall { python_version: 2, packages: copy_names(pkgs) },
                    );
                }
                Ok(a)
            },
            Step::Py3Install(pkgs) => {
                let features = scan_features(3, pkgs);
                crate::packages::add_features(&mut ctx.featured_packages, &features);
                let mut a: Vec<Action> = Vec::new();
                if build {
                    a.push(
                        Action::PipInstall { python_version: 3, packages: copy_names(pkgs) },
                    );
                }
                Ok(a)
            },
            Step::Py2Requirements(path) => {
                let empty: Vec<String> = Vec::new();
                let features = scan_features(2, &empty);
                proof {
                    assert(empty.deep_view() =~= Seq::<Seq<char>>::empty());
                    assert(crate::pip::spec_vcs_features(Seq::<Seq<char>>::empty()) =~= Seq::<
                        Package,
                    >::empty());
                    assert(features@ =~= crate::pip::spec_base_features(2));
                }
                crate::packages::add_features(&mut ctx.featured_packages, &features);
                let mut a: Vec<Action> = Vec::new();
                if build {
                    a.push(Action::PipRequirements { python_version: 2, path: path.clone() });
                }
                Ok(a)
            },
            Step::Py3Requirements(path) => {
                let empty: Vec<String> = Vec::new();
                let features = scan_features(3, &empty);
                proof {
                    assert(empty.deep_view() =~= Seq::<Seq<char>>::empty());
                    assert(crate::pip::spec_vcs_features(Seq::<Seq<char>>::empty()) =~= Seq::<
                        Package,
                    >::empty());
                    assert(features@ =~= crate::pip::spec_base_features(3));
                }
                crate::packages::add_features(&mut ctx.featured_packages, &features);
                let mut a: Vec<Action> = Vec::new();
                if build {
                    a.push(Action::PipRequirements { python_version: 3, path: path.clone() });
                }
                Ok(a)
            },
            Step::NpmInstall(pkgs) => {
                let mut features: Vec<Package> = Vec::new();
                features.push(Package::NodeJs);
                features.push(Package::NodeJsDev);
                features.push(Package::Npm);
                proof {
                    assert(features@ =~= seq![Package::NodeJs, Package::NodeJsDev, Package::Npm]);
                }
                crate::packages::add_features(&mut ctx.featured_packages, &features);
                let mut a: Vec<Action> = Vec::new();
                if build {
                    a.push(Action::NpmInstall(copy_names(pkgs)));
                }
                Ok(a)
            },
            Step::Container(name) => {
                let mut a: Vec<Action> = Vec::new();
                if build {
                    a.push(Action::CopyContainer(name.clone()));
                }
                Ok(a)
            },
            Step::SubConfig { source: _, path, container } => {
                let mut a: Vec<Action> = Vec::new();
                a.push(
                    Action::ReadSubConfig { path: path.clone(), container: container.clone() },
                );
                Ok(a)
            },
        }
    }
}

/// Copy a list of names.
fn copy_names(v: &Vec<String>) -> (r: Vec<String>)
    ensures
        r.deep_view() == v.deep_view(),
{
    let mut r: Vec<String> = Vec::new();
    let mut i: usize = 0;
    proof {
        assert(r.deep_view() =~= v.deep_view().take(0));
    }
    while i < v.len()
        invariant
            i <= v@.len(),
            r.deep_view() == v.deep_view().take(i as int),
        decreases v@.len() - i,
    {
        let ghost r0 = r.deep_view();
        r.push(v[i].clone());
        proof {
            assert(r.deep_view() =~~= r0.push(v@[i as int]@));
            assert(r.deep_view() =~= v.deep_view().take(i + 1));
        }
        i += 1;
    }
    proof {
        assert(v.deep_view().take(v@.len() as int) =~= v.deep_view());
    }
    r
}

/// `/vagga/root` joined with an absolute container path.
fn root_path_join(path: &String) -> (r: String)
    ensures
        r@ == spec_root_path(path@),
{
    let r = String::from_str("/vagga/root").concat(path.as_str());
    r
}


/// One step applied and, on a real build, logged: the step's own
/// relation on everything but the timing log, plus exactly one new
/// record under the step's tag.
pub open spec fn applied_step_rel(
    pre: BuildContext,
    post: BuildContext,
    step: Step,
    build: bool,
    r: Result<Vec<Action>, String>,
) -> bool {
    &&& step_rel(pre, BuildContext { timelog: pre.timelog, ..post }, step, build, r)
    &&& (if build && r is Ok {
        &&& post.timelog@.len() == pre.timelog@.len() + 1
        &&& post.timelog@.last().1@ == "Step: "@ + crate::steps::spec_step_repr(step)
        &&& (forall|i: int|
            0 <= i < pre.timelog@.len() ==> post.timelog@[i] == pre.timelog@[i])
    } else {
        post.timelog == pre.timelog
    })
}

/// Apply one step and, when it ran as part of a real build, append its
/// timing record.
pub fn apply_step(ctx: &mut BuildContext, step: &Step, build: bool) -> (r: Result<
    Vec<Action>,
    String,
>)
    requires
        step_wf(*step),
    ensures
        applied_step_rel(*old(ctx), *final (ctx), *step, build, r),
{
    let r = step.build(ctx, build);
    if build && r.is_ok() {
        let ghost mid = *ctx;
        let entry = String::from_str("Step: ").concat(step.repr().as_str());
        proof {
            assert(entry@ =~= "Step: "@ + crate::steps::spec_step_repr(*step));
        }
        ctx.mark(crate::context::clock_secs(), entry);
        proof {
            assert(BuildContext { timelog: old(ctx).timelog, ..*ctx } == (BuildContext {
                timelog: old(ctx).timelog,
                ..mid
            }));
        }
    }
    r
}

/// Every step of a recipe is in the shape the configuration validator
/// guarantees.
pub open spec fn recipe_wf(steps: Seq<Step>) -> bool {
    forall|j: int| 0 <= j < steps.len() ==> step_wf(#[trigger] steps[j])
}

/// Every container's recipe in a configuration is well formed.
pub open spec fn config_recipes_wf(cs: Seq<(String, Container)>) -> bool {
    forall|i: int| 0 <= i < cs.len() ==> recipe_wf((#[trigger] cs[i]).1.setup@)
}

proof fn lemma_found_recipe_wf(cs: Seq<(String, Container)>, name: Seq<char>)
    requires
        config_recipes_wf(cs),
    ensures
        match crate::config::spec_find_container(cs, name) {
            Some(c) => recipe_wf(c.setup@),
            None => true,
        },
    decreases cs.len(),
{
    if cs.len() > 0 {
        if cs.first().0@ == name {
            assert(cs[0] == cs.first());
        } else {
            assert forall|i: int|
                0 <= i < cs.drop_first().len() implies recipe_wf(
                (#[trigger] cs.drop_first()[i]).1.setup@,
            ) by {
                assert(cs.drop_first()[i] == cs[i + 1]);
            }
            lemma_found_recipe_wf(cs.drop_first(), name);
        }
    }
}


/// The distro identity at the view level.
pub enum DistSnap {
    Unknown,
    Ubuntu(Seq<char>, bool),
    Alpine(Seq<char>),
}

/// A build context reduced to its mathematical views: what the
/// configure effects act on.
#[verifier::ext_equal]
pub struct CtxSnap {
    pub distro: DistSnap,
    pub packages: Seq<Seq<char>>,
    pub build_deps: Seq<Seq<char>>,
    pub featured: Seq<Package>,
    pub ensure_dirs: Seq<Seq<char>>,
    pub empty_dirs: Seq<Seq<char>>,
    pub remove_dirs: Seq<Seq<char>>,
    pub cache_dirs: Seq<(Seq<char>, Seq<char>)>,
    pub environ: Seq<(Seq<char>, Seq<char>)>,
    pub pip_index_urls: Seq<Seq<char>>,
    pub pip_find_links: Seq<Seq<char>>,
    pub pip_dependencies: bool,
    /// How many timing records have been written.
    pub nlog: nat,
}

/// The views of a concrete build context.
pub open spec fn snap(c: BuildContext) -> CtxSnap {
    CtxSnap {
        distro: match c.distribution {
            Distribution::Unknown => DistSnap::Unknown,
            Distribution::Ubuntu(i) => DistSnap::Ubuntu(i.codename@, i.universe),
            Distribution::Alpine(i) => DistSnap::Alpine(i.version@),
        },
        packages: c.packages.deep_view(),
        build_deps: c.build_deps.deep_view(),
        featured: c.featured_packages@,
        ensure_dirs: c.ensure_dirs.deep_view(),
        empty_dirs: c.empty_dirs.deep_view(),
        remove_dirs: c.remove_dirs.deep_view(),
        cache_dirs: c.cache_dirs.deep_view(),
        environ: c.environ.deep_view(),
        pip_index_urls: c.pip_settings.index_urls.deep_view(),
        pip_find_links: c.pip_settings.find_links.deep_view(),
        pip_dependencies: c.pip_settings.dependencies,
        nlog: c.timelog@.len(),
    }
}

/// The cache set after registering a list of path/name pairs.
pub open spec fn spec_cache_add(
    cd: Seq<(Seq<char>, Seq<char>)>,
    pairs: Seq<(Seq<char>, Seq<char>)>,
) -> Seq<(Seq<char>, Seq<char>)>
    decreases pairs.len(),
{
    if pairs.len() == 0 {
        cd
    } else {
        spec_cache_add(
            if crate::context::spec_cache_keys(cd).contains(pairs.first().0.skip(1)) {
                cd
            } else {
                cd.push((pairs.first().0.skip(1), pairs.first().1))
            },
            pairs.drop_first(),
        )
    }
}

proof fn lemma_cache_rel_functional(
    cd0: Seq<(Seq<char>, Seq<char>)>,
    cd1: Seq<(Seq<char>, Seq<char>)>,
    pairs: Seq<(Seq<char>, Seq<char>)>,
    acts: Seq<Action>,
)
    requires
        cache_pairs_rel(cd0, cd1, pairs, acts),
    ensures
        cd1 == spec_cache_add(cd0, pairs),
    decreases pairs.len(),
{
    if pairs.len() > 0 {
        if crate::context::spec_cache_keys(cd0).contains(pairs.first().0.skip(1)) {
            lemma_cache_rel_functional(cd0, cd1, pairs.drop_first(), acts);
        } else {
            lemma_cache_rel_functional(
                cd0.push((pairs.first().0.skip(1), pairs.first().1)),
                cd1,
                pairs.drop_first(),
                acts.skip(4),
            );
        }
    }
}

/// One record more when a built step succeeded.
pub open spec fn spec_logged(n: nat, build: bool) -> nat {
    if build {
        n + 1
    } else {
        n
    }
}

/// One step's configure effect at the view level.  Errors are exactly
/// the distro-dispatch errors of `step_rel`.
pub open spec fn step_conf(s: CtxSnap, step: Step, build: bool) -> Result<CtxSnap, Seq<char>> {
    match step {
        Step::Install(pkgs) => Ok(
            CtxSnap {
                packages: spec_names_union(s.packages, pkgs.deep_view()),
                build_deps: spec_names_minus(s.build_deps, pkgs.deep_view()),
                nlog: spec_logged(s.nlog, build),
                ..s
            },
        ),
        Step::BuildDeps(pkgs) => Ok(
            CtxSnap {
                build_deps: spec_add_deps(s.build_deps, pkgs.deep_view(), s.packages),
                nlog: spec_logged(s.nlog, build),
                ..s
            },
        ),
        Step::Ubuntu(code) => match s.distro {
            DistSnap::Unknown => Ok(
                CtxSnap {
                    distro: DistSnap::Ubuntu(code@, false),
                    nlog: spec_logged(s.nlog, build),
                    ..s
                },
            ),
            _ => Err("Distribution is already set"@),
        },
        Step::UbuntuRelease(ver) => match s.distro {
            DistSnap::Unknown => Ok(
                CtxSnap {
                    distro: DistSnap::Ubuntu(ver@, false),
                    nlog: spec_logged(s.nlog, build),
                    ..s
                },
            ),
            _ => Err("Distribution is already set"@),
        },
        Step::UbuntuRepo(_) => match s.distro {
            DistSnap::Ubuntu(_, _) => Ok(CtxSnap { nlog: spec_logged(s.nlog, build), ..s }),
            _ => Err("Incompatible distribution"@),
        },
        Step::UbuntuUniverse => match s.distro {
            DistSnap::Ubuntu(code, _) => Ok(
                CtxSnap {
                    distro: DistSnap::Ubuntu(code, true),
                    nlog: spec_logged(s.nlog, build),
                    ..s
                },
            ),
            _ => Err("Incompatible distribution"@),
        },
        Step::Alpine(ver) => match s.distro {
            DistSnap::Unknown => Ok(
                CtxSnap {
                    distro: DistSnap::Alpine(ver@),
                    nlog: spec_logged(s.nlog, build),
                    ..s
                },
            ),
            _ => Err("Distribution is already set"@),
        },
        Step::Env(pairs) => Ok(
            CtxSnap {
                environ: spec_env_merge(s.environ, pairs.deep_view()),
                nlog: spec_logged(s.nlog, build),
                ..s
            },
        ),
        Step::Remove(path) => Ok(
            CtxSnap {
                remove_dirs: spec_set_insert(s.remove_dirs, path@.skip(1)),
                nlog: spec_logged(s.nlog, build),
                ..s
            },
        ),
        Step::EmptyDir(path) => Ok(
            CtxSnap {
                empty_dirs: spec_set_insert(s.empty_dirs, path@.skip(1)),
                nlog: spec_logged(s.nlog, build),
                ..s
            },
        ),
        Step::EnsureDir(path) => Ok(
            CtxSnap {
                ensure_dirs: spec_set_insert(s.ensure_dirs, path@.skip(1)),
                nlog: spec_logged(s.nlog, build),
                ..s
            },
        ),
        Step::CacheDirs(pairs) => Ok(
            CtxSnap {
                cache_dirs: spec_cache_add(s.cache_dirs, pairs.deep_view()),
                nlog: spec_logged(s.nlog, build),
                ..s
            },
        ),
        Step::PipConfig { index_urls, find_links, dependencies } => Ok(
            CtxSnap {
                pip_index_urls: index_urls.deep_view(),
                pip_find_links: find_links.deep_view(),
                pip_dependencies: dependencies,
                nlog: spec_logged(s.nlog, build),
                ..s
            },
        ),
        Step::Py2Install(pkgs) => Ok(
            CtxSnap {
                featured: spec_feature_union(s.featured, spec_scan_features(2, pkgs.deep_view())),
                nlog: spec_logged(s.nlog, build),
                ..s
            },
        ),
        Step::Py3Install(pkgs) => Ok(
            CtxSnap {
                featured: spec_feature_union(s.featured, spec_scan_features(3, pkgs.deep_view())),
                nlog: spec_logged(s.nlog, build),
                ..s
            },
        ),
        Step::Py2Requirements(_) => Ok(
            CtxSnap {
                featured: spec_feature_union(s.featured, crate::pip::spec_base_features(2)),
                nlog: spec_logged(s.nlog, build),
                ..s
            },
        ),
        Step::Py3Requirements(_) => Ok(
            CtxSnap {
                featured: spec_feature_union(s.featured, crate::pip::spec_base_features(3)),
                nlog: spec_logged(s.nlog, build),
                ..s
            },
        ),
        Step::NpmInstall(_) => Ok(
            CtxSnap {
                featured: spec_feature_union(
                    s.featured,
                    seq![Package::NodeJs, Package::NodeJsDev, Package::Npm],
                ),
                nlog: spec_logged(s.nlog, build),
                ..s
            },
        ),
        _ => Ok(CtxSnap { nlog: spec_logged(s.nlog, build), ..s }),
    }
}

/// What one applied step does to the views.
proof fn lemma_step_conf_matches(
    pre: BuildContext,
    post: BuildContext,
    step: Step,
    build: bool,
    r: Result<Vec<Action>, String>,
)
    requires
        applied_step_rel(pre, post, step, build, r),
    ensures
        match r {
            Ok(_) => step_conf(snap(pre), step, build) == Ok::<CtxSnap, Seq<char>>(snap(post)),
            Err(e) => step_conf(snap(pre), step, build) == Err::<CtxSnap, Seq<char>>(e@) && snap(
                post,
            ) == snap(pre),
        },
{
    let mid = BuildContext { timelog: pre.timelog, ..post };
    match r {
        Ok(a) => {
            match step {
                Step::CacheDirs(pairs) => {
                    lemma_cache_rel_functional(
                        pre.cache_dirs.deep_view(),
                        mid.cache_dirs.deep_view(),
                        pairs.deep_view(),
                        a@,
                    );
                    assert(snap(post) =~= step_conf(snap(pre), step, build)->Ok_0);
                },
                _ => {
                    assert(snap(post) =~= step_conf(snap(pre), step, build)->Ok_0);
                },
            }
        },
        Err(_) => {
            assert(snap(post) =~= snap(pre));
        },
    }
}

/// Walk a recipe from `idx` on at the view level: every configure
/// effect applied in order, recursing configure-only into
/// subcontainer recipes, stopping at the first failure.
pub open spec fn recipe_conf(
    s: CtxSnap,
    cs: Seq<(String, Container)>,
    steps: Seq<Step>,
    build: bool,
    fuel: nat,
) -> Result<CtxSnap, Seq<char>>
    decreases fuel, steps.len(), 1int,
{
    if steps.len() == 0 {
        Ok(s)
    } else {
        match step_conf_full(s, cs, steps.first(), build, fuel) {
            Err(e) => Err(e),
            Ok(s2) => recipe_conf(s2, cs, steps.drop_first(), build, fuel),
        }
    }
}

/// One step at the view level, including the configure-only recursion
/// a `Container` step makes over the inner recipe.
pub open spec fn step_conf_full(
    s: CtxSnap,
    cs: Seq<(String, Container)>,
    step: Step,
    build: bool,
    fuel: nat,
) -> Result<CtxSnap, Seq<char>>
    decreases fuel, 0int, 0int,
{
    match step {
        Step::Container(inner) => match crate::config::spec_find_container(cs, inner@) {
            None => Err("Subcontainer not found"@),
            Some(c) => {
                if fuel == 0 {
                    Err("Subcontainer dependency cycle"@)
                } else {
                    match recipe_conf(s, cs, c.setup@, false, (fuel - 1) as nat) {
                        Err(e) => Err(e),
                        Ok(s2) => step_conf(s2, step, build),
                    }
                }
            },
        },
        _ => step_conf(s, step, build),
    }
}

/// Walk a recipe from `idx` on: apply every step's configure effect,
/// recurse configure-only into subcontainer recipes as the original
/// build dispatch does, log built steps, and collect the planned side
/// effects in step order.  `fuel` bounds the subcontainer nesting, as
/// the configure-time cycle check guarantees.  The context evolves
/// exactly as the view-level walk `recipe_conf` says; each collected
/// action is pinned by the per-step contract of `BuildCommand::build`.
pub fn build_recipe(
    ctx: &mut BuildContext,
    cs: &Vec<(String, Container)>,
    steps: &Vec<Step>,
    idx: usize,
    build: bool,
    fuel: usize,
) -> (r: Result<Vec<Action>, String>)
    requires
        idx <= steps@.len(),
        recipe_wf(steps@),
        config_recipes_wf(cs@),
    ensures
        match r {
            Ok(a) => {
                &&& recipe_conf(snap(*old(ctx)), cs@, steps@.skip(idx as int), build, fuel as nat)
                    == Ok::<CtxSnap, Seq<char>>(snap(*final (ctx)))
                &&& recipe_acts_ok(
                    snap(*old(ctx)),
                    cs@,
                    steps@.skip(idx as int),
                    build,
                    fuel as nat,
                    a@,
                )
                &&& a@.len() == recipe_acts_len(
                    snap(*old(ctx)),
                    cs@,
                    steps@.skip(idx as int),
                    build,
                    fuel as nat,
                )
            },
            Err(e) => recipe_conf(
                snap(*old(ctx)),
                cs@,
                steps@.skip(idx as int),
                build,
                fuel as nat,
            ) == Err::<CtxSnap, Seq<char>>(e@),
        },
    decreases fuel, steps@.len() - idx,
{
    if idx == steps.len() {
        let empty: Vec<Action> = Vec::new();
        proof {
            assert(steps@.skip(idx as int).len() == 0);
            assert(empty@.len() == 0);
        }
        return Ok(empty);
    }
    let ghost pre = *ctx;
    proof {
        assert(steps@.skip(idx as int).first() == steps@[idx as int]);
        assert(steps@.skip(idx as int).drop_first() =~= steps@.skip(idx + 1));
    }
    let step = &steps[idx];
    let res1: Result<Vec<Action>, String> = if let Step::Container(inner) = step {
        match crate::config::find_container(cs, inner) {
            None => Err(String::from_str("Subcontainer not found")),
            Some(c) => {
                if fuel == 0 {
                    Err(String::from_str("Subcontainer dependency cycle"))
                } else {
                    proof {
                        lemma_found_recipe_wf(cs@, inner@);
                    }
                    let rin = build_recipe(ctx, cs, &c.setup, 0, false, fuel - 1);
                    proof {
                        assert(c.setup@.skip(0) =~= c.setup@);
                    }
                    match rin {
                        Err(e) => Err(e),
                        Ok(mut ain) => {
                            let ghost gain = ain@;
                            let ghost gmid = *ctx;
                            let r2 = apply_step(ctx, step, build);
                            proof {
                                lemma_step_conf_matches(
                                    gmid,
                                    *ctx,
                                    steps@[idx as int],
                                    build,
                                    r2,
                                );
                            }
                            match r2 {
                                Err(e2) => Err(e2),
                                Ok(mut a2) => {
                                    let ghost ga2 = a2@;
                                    ain.append(&mut a2);
                                    proof {
                                        let s0 = snap(pre);
                                        let m = recipe_acts_len(
                                            s0,
                                            cs@,
                                            c.setup@,
                                            false,
                                            (fuel - 1) as nat,
                                        );
                                        let mid2 = BuildContext {
                                            timelog: gmid.timelog,
                                            ..*ctx
                                        };
                                        lemma_step_acts(
                                            gmid,
                                            mid2,
                                            steps@[idx as int],
                                            build,
                                            r2->Ok_0,
                                        );
                                        lemma_step_acts_len(
                                            gmid.cache_dirs.deep_view(),
                                            steps@[idx as int],
                                            build,
                                            ga2,
                                        );
                                        assert(gain.len() == m);
                                        assert(ain@ =~= gain + ga2);
                                        assert(ain@.take(m as int) =~= gain);
                                        assert(ain@.skip(m as int) =~= ga2);
                                        assert(snap(gmid).cache_dirs
                                            == gmid.cache_dirs.deep_view());
                                        assert(step_full_acts_ok(
                                            s0,
                                            cs@,
                                            steps@[idx as int],
                                            build,
                                            fuel as nat,
                                            ain@,
                                        ));
                                        assert(ain@.len() == nacts_full(
                                            s0,
                                            cs@,
                                            steps@[idx as int],
                                            build,
                                            fuel as nat,
                                        ));
                                    }
                                    Ok(ain)
                                },
                            }
                        },
                    }
                }
            },
        }
    } else {
        let r1 = apply_step(ctx, step, build);
        proof {
            lemma_step_conf_matches(pre, *ctx, steps@[idx as int], build, r1);
            if r1 is Ok {
                let mid1 = BuildContext { timelog: pre.timelog, ..*ctx };
                lemma_step_acts(pre, mid1, steps@[idx as int], build, r1->Ok_0);
                lemma_step_acts_len(
                    pre.cache_dirs.deep_view(),
                    steps@[idx as int],
                    build,
                    (r1->Ok_0)@,
                );
                assert(snap(pre).cache_dirs == pre.cache_dirs.deep_view());
                assert(step_full_acts_ok(
                    snap(pre),
                    cs@,
                    steps@[idx as int],
                    build,
                    fuel as nat,
                    (r1->Ok_0)@,
                ));
                assert((r1->Ok_0)@.len() == nacts_full(
                    snap(pre),
                    cs@,
                    steps@[idx as int],
                    build,
                    fuel as nat,
                ));
            }
        }
        r1
    };
    proof {
        assert(match res1 {
            Ok(a1) => step_conf_full(snap(pre), cs@, steps@[idx as int], build, fuel as nat)
                == Ok::<CtxSnap, Seq<char>>(snap(*ctx)) && step_full_acts_ok(
                snap(pre),
                cs@,
                steps@[idx as int],
                build,
                fuel as nat,
                a1@,
            ) && a1@.len() == nacts_full(snap(pre), cs@, steps@[idx as int], build, fuel as nat),
            Err(e) => step_conf_full(snap(pre), cs@, steps@[idx as int], build, fuel as nat)
                == Err::<CtxSnap, Seq<char>>(e@),
        });
    }
    match res1 {
        Err(e) => Err(e),
        Ok(mut a1) => {
            let ghost ga1 = a1@;
            let ghost gmid2 = *ctx;
            let rest = build_recipe(ctx, cs, steps, idx + 1, build, fuel);
            match rest {
                Err(e) => Err(e),
                Ok(mut a2) => {
                    let ghost garest = a2@;
                    a1.append(&mut a2);
                    proof {
                        let n = nacts_full(snap(pre), cs@, steps@[idx as int], build, fuel as nat);
                        assert(a1@ =~= ga1 + garest);
                        assert(a1@.take(n as int) =~= ga1);
                        assert(a1@.skip(n as int) =~= garest);
                        assert(recipe_acts_ok(
                            snap(pre),
                            cs@,
                            steps@.skip(idx as int),
                            build,
                            fuel as nat,
                            a1@,
                        ));
                        assert(a1@.len() == recipe_acts_len(
                            snap(pre),
                            cs@,
                            steps@.skip(idx as int),
                            build,
                            fuel as nat,
                        ));
                    }
                    Ok(a1)
                },
            }
        },
    }
}


/// The actions one step plans, as a predicate over the action segment:
/// exactly the clauses `step_rel` states, parameterized by the cache
/// set the step sees.
pub open spec fn step_acts_ok(
    cd0: Seq<(Seq<char>, Seq<char>)>,
    step: Step,
    build: bool,
    acts: Seq<Action>,
) -> bool {
    match step {
        Step::Install(pkgs) => if build {
            acts.len() == 1 && (acts[0] matches Action::InstallPkgs(p) && p.deep_view()
                == pkgs.deep_view())
        } else {
            acts.len() == 0
        },
        Step::BuildDeps(pkgs) => if build {
            acts.len() == 1 && (acts[0] matches Action::InstallPkgs(p) && p.deep_view()
                == pkgs.deep_view())
        } else {
            acts.len() == 0
        },
        Step::Ubuntu(_) => if build {
            acts.len() == 1 && acts[0] is Bootstrap
        } else {
            acts.len() == 0
        },
        Step::UbuntuRelease(_) => if build {
            acts.len() == 1 && acts[0] is Bootstrap
        } else {
            acts.len() == 0
        },
        Step::UbuntuRepo(url) => if build {
            acts.len() == 1 && (acts[0] matches Action::AddAptSource(l) && l@ == url@)
        } else {
            acts.len() == 0
        },
        Step::UbuntuUniverse => if build {
            acts.len() == 1 && acts[0] is EnableUniverse
        } else {
            acts.len() == 0
        },
        Step::Alpine(_) => if build {
            acts.len() == 1 && acts[0] is Bootstrap
        } else {
            acts.len() == 0
        },
        Step::Sh(text) => if build {
            acts.len() == 1 && (acts[0] matches Action::RunCmd(v) && v.deep_view() == seq![
                "/bin/sh"@,
                "-exc"@,
                text@,
            ])
        } else {
            acts.len() == 0
        },
        Step::Cmd(argv) => if build {
            acts.len() == 1 && (acts[0] matches Action::RunCmd(v) && v.deep_view()
                == argv.deep_view())
        } else {
            acts.len() == 0
        },
        Step::Env(_) => acts.len() == 0,
        Step::Remove(path) => acts.len() == 1 && (acts[0] matches Action::CleanDir {
            path: p,
            remove_itself,
        } && p@ == spec_root_path(path@) && remove_itself == true),
        Step::EmptyDir(path) => acts.len() == 1 && (acts[0] matches Action::CleanDir {
            path: p,
            remove_itself,
        } && p@ == spec_root_path(path@) && remove_itself == false),
        Step::EnsureDir(path) => acts.len() == 1 && (acts[0] matches Action::MakeDir {
            path: p,
            mode,
        } && p@ == spec_root_path(path@) && mode == 0o755),
        Step::CacheDirs(pairs) => cache_pairs_rel(
            cd0,
            spec_cache_add(cd0, pairs.deep_view()),
            pairs.deep_view(),
            acts,
        ),
        Step::Depends(_) => acts.len() == 0,
        Step::Text(files) => if build {
            acts.len() == files@.len() && forall|i: int|
                0 <= i < acts.len() ==> (#[trigger] acts[i] matches Action::WriteFile {
                    path,
                    body,
                    mode,
                } && path@ == spec_root_path(files.deep_view()[i].0) && body@
                    == files.deep_view()[i].1 && mode == 0o755)
        } else {
            acts.len() == 0
        },
        Step::Git(url) => if build {
            acts.len() == 1 && (acts[0] matches Action::FetchGit { url: u, install } && u@
                == url@ && install == false)
        } else {
            acts.len() == 0
        },
        Step::GitInstall(url) => if build {
            acts.len() == 1 && (acts[0] matches Action::FetchGit { url: u, install } && u@
                == url@ && install == true)
        } else {
            acts.len() == 0
        },
        Step::Tar(url) => if build {
            acts.len() == 1 && (acts[0] matches Action::FetchTar { url: u, install } && u@
                == url@ && install == false)
        } else {
            acts.len() == 0
        },
        Step::TarInstall(url) => if build {
            acts.len() == 1 && (acts[0] matches Action::FetchTar { url: u, install } && u@
                == url@ && install == true)
        } else {
            acts.len() == 0
        },
        Step::PipConfig { .. } => acts.len() == 0,
        Step::Py2Install(pkgs) => if build {
            acts.len() == 1 && (acts[0] matches Action::PipInstall { python_version, packages }
                && python_version == 2 && packages.deep_view() == pkgs.deep_view())
        } else {
            acts.len() == 0
        },
        Step::Py3Install(pkgs) => if build {
            acts.len() == 1 && (acts[0] matches Action::PipInstall { python_version, packages }
                && python_version == 3 && packages.deep_view() == pkgs.deep_view())
        } else {
            acts.len() == 0
        },
        Step::Py2Requirements(path) => if build {
            acts.len() == 1 && (acts[0] matches Action::PipRequirements {
                python_version,
                path: p,
            } && python_version == 2 && p@ == path@)
        } else {
            acts.len() == 0
        },
        Step::Py3Requirements(path) => if build {
            acts.len() == 1 && (acts[0] matches Action::PipRequirements {
                python_version,
                path: p,
            } && python_version == 3 && p@ == path@)
        } else {
            acts.len() == 0
        },
        Step::NpmInstall(pkgs) => if build {
            acts.len() == 1 && (acts[0] matches Action::NpmInstall(p) && p.deep_view()
                == pkgs.deep_view())
        } else {
            acts.len() == 0
        },
        Step::Container(name) => if build {
            acts.len() == 1 && (acts[0] matches Action::CopyContainer(n) && n@ == name@)
        } else {
            acts.len() == 0
        },
        Step::SubConfig { source: _, path, container } => acts.len() == 1 && (acts[0]
            matches Action::ReadSubConfig { path: p, container: c } && p@ == path@ && c@
            == container@),
    }
}

/// A step's planned actions are exactly what its relation states.
proof fn lemma_step_acts(
    pre: BuildContext,
    post: BuildContext,
    step: Step,
    build: bool,
    a: Vec<Action>,
)
    requires
        step_rel(pre, post, step, build, Ok(a)),
    ensures
        step_acts_ok(pre.cache_dirs.deep_view(), step, build, a@),
{
    match step {
        Step::CacheDirs(pairs) => {
            lemma_cache_rel_functional(
                pre.cache_dirs.deep_view(),
                post.cache_dirs.deep_view(),
                pairs.deep_view(),
                a@,
            );
        },
        _ => {},
    }
}

/// New cache registrations in a pair list.
pub open spec fn spec_cache_new_count(
    cd: Seq<(Seq<char>, Seq<char>)>,
    pairs: Seq<(Seq<char>, Seq<char>)>,
) -> nat
    decreases pairs.len(),
{
    if pairs.len() == 0 {
        0
    } else if crate::context::spec_cache_keys(cd).contains(pairs.first().0.skip(1)) {
        spec_cache_new_count(cd, pairs.drop_first())
    } else {
        4 + spec_cache_new_count(
            cd.push((pairs.first().0.skip(1), pairs.first().1)),
            pairs.drop_first(),
        )
    }
}

proof fn lemma_cache_rel_len(
    cd0: Seq<(Seq<char>, Seq<char>)>,
    cd1: Seq<(Seq<char>, Seq<char>)>,
    pairs: Seq<(Seq<char>, Seq<char>)>,
    acts: Seq<Action>,
)
    requires
        cache_pairs_rel(cd0, cd1, pairs, acts),
    ensures
        acts.len() == spec_cache_new_count(cd0, pairs),
    decreases pairs.len(),
{
    if pairs.len() > 0 {
        if crate::context::spec_cache_keys(cd0).contains(pairs.first().0.skip(1)) {
            lemma_cache_rel_len(cd0, cd1, pairs.drop_first(), acts);
        } else {
            lemma_cache_rel_len(
                cd0.push((pairs.first().0.skip(1), pairs.first().1)),
                cd1,
                pairs.drop_first(),
                acts.skip(4),
            );
        }
    }
}

/// How many actions one non-`Container` step plans.
pub open spec fn spec_step_nacts(
    cd0: Seq<(Seq<char>, Seq<char>)>,
    step: Step,
    build: bool,
) -> nat {
    match step {
        Step::Env(_) => 0,
        Step::Depends(_) => 0,
        Step::PipConfig { .. } => 0,
        Step::Remove(_) => 1,
        Step::EmptyDir(_) => 1,
        Step::EnsureDir(_) => 1,
        Step::SubConfig { .. } => 1,
        Step::CacheDirs(pairs) => spec_cache_new_count(cd0, pairs.deep_view()),
        Step::Text(files) => if build {
            files@.len()
        } else {
            0
        },
        _ => if build {
            1
        } else {
            0
        },
    }
}

proof fn lemma_step_acts_len(
    cd0: Seq<(Seq<char>, Seq<char>)>,
    step: Step,
    build: bool,
    acts: Seq<Action>,
)
    requires
        step_acts_ok(cd0, step, build, acts),
    ensures
        acts.len() == spec_step_nacts(cd0, step, build),
{
    match step {
        Step::CacheDirs(pairs) => {
            lemma_cache_rel_len(
                cd0,
                spec_cache_add(cd0, pairs.deep_view()),
                pairs.deep_view(),
                acts,
            );
        },
        _ => {},
    }
}


/// How many actions one step plans, counting a `Container` step's
/// configure recursion.
pub open spec fn nacts_full(
    s: CtxSnap,
    cs: Seq<(String, Container)>,
    step: Step,
    build: bool,
    fuel: nat,
) -> nat
    decreases fuel, 0int, 0int,
{
    match step {
        Step::Container(inner) => match crate::config::spec_find_container(cs, inner@) {
            None => 0,
            Some(c) => {
                if fuel == 0 {
                    0
                } else {
                    match recipe_conf(s, cs, c.setup@, false, (fuel - 1) as nat) {
                        Err(_) => 0,
                        Ok(s2) => recipe_acts_len(s, cs, c.setup@, false, (fuel - 1) as nat)
                            + spec_step_nacts(s2.cache_dirs, step, build),
                    }
                }
            },
        },
        _ => spec_step_nacts(s.cache_dirs, step, build),
    }
}

/// How many actions a whole walk plans, along the successful path.
pub open spec fn recipe_acts_len(
    s: CtxSnap,
    cs: Seq<(String, Container)>,
    steps: Seq<Step>,
    build: bool,
    fuel: nat,
) -> nat
    decreases fuel, steps.len(), 1int,
{
    if steps.len() == 0 {
        0
    } else {
        match step_conf_full(s, cs, steps.first(), build, fuel) {
            Err(_) => 0,
            Ok(s2) => nacts_full(s, cs, steps.first(), build, fuel) + recipe_acts_len(
                s2,
                cs,
                steps.drop_first(),
                build,
                fuel,
            ),
        }
    }
}

/// The action segment one step plans, including a `Container` step's
/// inner configure actions followed by its own copy.
pub open spec fn step_full_acts_ok(
    s: CtxSnap,
    cs: Seq<(String, Container)>,
    step: Step,
    build: bool,
    fuel: nat,
    seg: Seq<Action>,
) -> bool
    decreases fuel, 0int, 0int,
{
    match step {
        Step::Container(inner) => match crate::config::spec_find_container(cs, inner@) {
            None => true,
            Some(c) => {
                if fuel == 0 {
                    true
                } else {
                    match recipe_conf(s, cs, c.setup@, false, (fuel - 1) as nat) {
                        Err(_) => true,
                        Ok(s2) => {
                            let m = recipe_acts_len(s, cs, c.setup@, false, (fuel - 1) as nat);
                            &&& seg.len() >= m
                            &&& recipe_acts_ok(
                                s,
                                cs,
                                c.setup@,
                                false,
                                (fuel - 1) as nat,
                                seg.take(m as int),
                            )
                            &&& step_acts_ok(s2.cache_dirs, step, build, seg.skip(m as int))
                        },
                    }
                }
            },
        },
        _ => step_acts_ok(s.cache_dirs, step, build, seg),
    }
}

/// The whole plan of a walk: every step's segment in step order.
pub open spec fn recipe_acts_ok(
    s: CtxSnap,
    cs: Seq<(String, Container)>,
    steps: Seq<Step>,
    build: bool,
    fuel: nat,
    acts: Seq<Action>,
) -> bool
    decreases fuel, steps.len(), 1int,
{
    if steps.len() == 0 {
        acts.len() == 0
    } else {
        match step_conf_full(s, cs, steps.first(), build, fuel) {
            Err(_) => true,
            Ok(s2) => {
                let n = nacts_full(s, cs, steps.first(), build, fuel);
                &&& acts.len() >= n
                &&& step_full_acts_ok(s, cs, steps.first(), build, fuel, acts.take(n as int))
                &&& recipe_acts_ok(s2, cs, steps.drop_first(), build, fuel, acts.skip(n as int))
            },
        }
    }
}

} // verus!
