use vagga::bld::{build_recipe, BuildCommand};
use vagga::config::Container;
use vagga::context::{finish_build, finish_plan, Action, BuildContext, Distribution};
use vagga::packages::Package;
use vagga::steps::Step;

#[test]
fn fresh_context_has_seeded_dirs() {
    let ctx = BuildContext::new("app".to_string());
    assert_eq!(ctx.ensure_dirs, vec!["proc", "sys", "dev", "work", "tmp"]);
    assert_eq!(ctx.empty_dirs, vec!["tmp", "var/tmp"]);
    assert!(ctx.remove_dirs.is_empty());
    assert!(ctx.cache_dirs.is_empty());
    assert_eq!(ctx.environ[0], ("TERM".to_string(), "dumb".to_string()));
    assert_eq!(ctx.environ[1], ("HOME".to_string(), "/tmp".to_string()));
    assert!(matches!(ctx.distribution, Distribution::Unknown));
}

#[test]
fn empty_recipe_build_plans_only_seeded_dirs() {
    // an empty setup list: the context stays as seeded and the finish
    // plan creates exactly the seeded ensure directories
    let ctx = BuildContext::new("app".to_string());
    let plan = finish_plan(&ctx);
    // two emptied directories, five ensured ones, no caches or removals
    assert_eq!(plan.len(), 7);
    assert!(matches!(&plan[0], Action::CleanDir { path, remove_itself }
        if path == "/vagga/root/tmp" && !remove_itself));
    assert!(matches!(&plan[2], Action::MakeDir { path, mode }
        if path == "/vagga/root/proc" && *mode == 0o755));
    assert!(matches!(&plan[6], Action::MakeDir { path, mode }
        if path == "/vagga/root/tmp" && *mode == 0o755));
}

#[test]
fn install_registers_packages_and_plans_install() {
    let mut ctx = BuildContext::new("app".to_string());
    let step = Step::Install(vec!["curl".to_string(), "git".to_string()]);
    let actions = step.build(&mut ctx, true).unwrap();
    assert_eq!(ctx.packages, vec!["curl", "git"]);
    assert_eq!(actions.len(), 1);
    assert!(matches!(&actions[0], Action::InstallPkgs(p) if p == &vec!["curl".to_string(), "git".to_string()]));
    // a configure-only pass plans nothing
    let mut ctx2 = BuildContext::new("app".to_string());
    let actions = step.build(&mut ctx2, false).unwrap();
    assert!(actions.is_empty());
    assert_eq!(ctx2.packages, vec!["curl", "git"]);
}

#[test]
fn install_moves_packages_out_of_build_deps() {
    let mut ctx = BuildContext::new("app".to_string());
    Step::BuildDeps(vec!["gcc".to_string()]).build(&mut ctx, false).unwrap();
    assert_eq!(ctx.build_deps, vec!["gcc"]);
    Step::Install(vec!["gcc".to_string()]).build(&mut ctx, false).unwrap();
    assert!(ctx.build_deps.is_empty());
    assert_eq!(ctx.packages, vec!["gcc"]);
}

#[test]
fn distro_can_only_be_set_once() {
    let mut ctx = BuildContext::new("app".to_string());
    Step::Ubuntu("focal".to_string()).build(&mut ctx, false).unwrap();
    assert!(matches!(&ctx.distribution, Distribution::Ubuntu(i) if i.codename == "focal"));
    let err = Step::Alpine("v3.18".to_string()).build(&mut ctx, false).unwrap_err();
    assert_eq!(err, "Distribution is already set");
}

#[test]
fn text_and_ensure_dir_recipe() {
    // a recipe writing a literal file into an ensured directory: the
    // file is planned with mode 0755 and nothing lands in remove_dirs
    let mut ctx = BuildContext::new("app".to_string());
    Step::Alpine("v3.18".to_string()).build(&mut ctx, true).unwrap();
    let a = Step::EnsureDir("/etc/app".to_string()).build(&mut ctx, true).unwrap();
    assert!(matches!(&a[0], Action::MakeDir { path, mode }
        if path == "/vagga/root/etc/app" && *mode == 0o755));
    let a = Step::Text(vec![("/etc/app/a.conf".to_string(), "x=1".to_string())])
        .build(&mut ctx, true)
        .unwrap();
    assert_eq!(a.len(), 1);
    assert!(matches!(&a[0], Action::WriteFile { path, body, mode }
        if path == "/vagga/root/etc/app/a.conf" && body == "x=1" && *mode == 0o755));
    assert!(ctx.ensure_dirs.contains(&"etc/app".to_string()));
    assert!(ctx.remove_dirs.is_empty());
}

#[test]
fn shared_cache_name_gives_shared_host_path() {
    // two containers declaring the same cache name bind the same host
    // cache directory; a second registration in one build is a no-op
    let mut one = BuildContext::new("one".to_string());
    let mut two = BuildContext::new("two".to_string());
    let step = Step::CacheDirs(vec![("/root/.cache/pip".to_string(), "pip-cache".to_string())]);
    let a1 = step.build(&mut one, true).unwrap();
    let a2 = step.build(&mut two, true).unwrap();
    let cache_path_of = |acts: &Vec<Action>| -> String {
        for act in acts {
            if let Action::BindMountCache { cache_path, .. } = act {
                return cache_path.clone();
            }
        }
        panic!("no cache mount planned");
    };
    assert_eq!(cache_path_of(&a1), "/vagga/cache/pip-cache");
    assert_eq!(cache_path_of(&a1), cache_path_of(&a2));
    // registering the same path again plans nothing new
    let again = step.build(&mut one, true).unwrap();
    assert!(again.is_empty());
    assert_eq!(one.cache_dirs.len(), 1);
}

#[test]
fn remove_step_cleans_immediately() {
    let mut ctx = BuildContext::new("app".to_string());
    let a = Step::Remove("/var/cache".to_string()).build(&mut ctx, false).unwrap();
    assert!(matches!(&a[0], Action::CleanDir { path, remove_itself }
        if path == "/vagga/root/var/cache" && *remove_itself));
    assert_eq!(ctx.remove_dirs, vec!["var/cache"]);
}

#[test]
fn env_step_merges_variables() {
    let mut ctx = BuildContext::new("app".to_string());
    Step::Env(vec![("HOME".to_string(), "/root".to_string()), ("A".to_string(), "1".to_string())])
        .build(&mut ctx, false)
        .unwrap();
    assert!(ctx.environ.contains(&("HOME".to_string(), "/root".to_string())));
    assert!(ctx.environ.contains(&("A".to_string(), "1".to_string())));
    assert!(!ctx.environ.contains(&("HOME".to_string(), "/tmp".to_string())));
}

#[test]
fn pip_install_requests_toolchain_features() {
    let mut ctx = BuildContext::new("app".to_string());
    let a = Step::Py3Install(vec!["flask".to_string(), "git+https://example.org/x".to_string()])
        .build(&mut ctx, true)
        .unwrap();
    assert!(ctx.featured_packages.contains(&Package::Python3));
    assert!(ctx.featured_packages.contains(&Package::PipPy3));
    assert!(ctx.featured_packages.contains(&Package::Git));
    assert!(matches!(&a[0], Action::PipInstall { python_version, .. } if *python_version == 3));
}

#[test]
fn finish_plan_orders_removals_before_creations() {
    let mut ctx = BuildContext::new("app".to_string());
    Step::Remove("/var/cache".to_string()).build(&mut ctx, false).unwrap();
    Step::EnsureDir("/etc/app".to_string()).build(&mut ctx, false).unwrap();
    let plan = finish_plan(&ctx);
    let rm = plan.iter().position(|a| matches!(a, Action::CleanDir { path, remove_itself }
        if path == "/vagga/root/var/cache" && *remove_itself)).unwrap();
    let mk = plan.iter().position(|a| matches!(a, Action::MakeDir { path, .. }
        if path == "/vagga/root/etc/app")).unwrap();
    assert!(rm < mk);
}

#[test]
fn cache_mounts_unwind_in_reverse_order() {
    let mut ctx = BuildContext::new("app".to_string());
    Step::CacheDirs(vec![
        ("/a".to_string(), "one".to_string()),
        ("/b".to_string(), "two".to_string()),
    ])
    .build(&mut ctx, true)
    .unwrap();
    let plan = finish_plan(&ctx);
    assert!(matches!(&plan[0], Action::Unmount(p) if p == "/vagga/root/b"));
    assert!(matches!(&plan[1], Action::Unmount(p) if p == "/vagga/root/a"));
}

fn container_with(setup: Vec<Step>) -> Container {
    Container {
        setup,
        uids: Vec::new(),
        gids: Vec::new(),
        auto_clean: false,
        environ: Vec::new(),
        shell: None,
        default_command: None,
    }
}

#[test]
fn subcontainer_setup_is_configured_first() {
    // the inner recipe's configure effects reach the outer context,
    // and the copy of the inner root is planned after them
    let containers = vec![
        (
            "base".to_string(),
            container_with(vec![
                Step::EnsureDir("/etc/base".to_string()),
                Step::Env(vec![("LANG".to_string(), "C".to_string())]),
            ]),
        ),
        ("app".to_string(), container_with(vec![Step::Container("base".to_string())])),
    ];
    let setup = vec![Step::Container("base".to_string())];
    let mut ctx = BuildContext::new("app".to_string());
    let actions = build_recipe(&mut ctx, &containers, &setup, 0, true, 3).unwrap();
    assert!(ctx.ensure_dirs.contains(&"etc/base".to_string()));
    assert!(ctx.environ.contains(&("LANG".to_string(), "C".to_string())));
    assert!(actions.iter().any(|a| matches!(a, Action::CopyContainer(n) if n == "base")));
    // the copy comes after the inner recipe's immediate actions
    let mk = actions.iter().position(|a| matches!(a, Action::MakeDir { path, .. }
        if path == "/vagga/root/etc/base")).unwrap();
    let cp = actions.iter().position(|a| matches!(a, Action::CopyContainer(_))).unwrap();
    assert!(mk < cp);
}

#[test]
fn missing_subcontainer_fails_the_walk() {
    let containers: Vec<(String, Container)> = Vec::new();
    let setup = vec![Step::Container("ghost".to_string())];
    let mut ctx = BuildContext::new("app".to_string());
    let err = build_recipe(&mut ctx, &containers, &setup, 0, false, 3).unwrap_err();
    assert_eq!(err, "Subcontainer not found");
}

#[test]
fn nested_cycles_exhaust_the_fuel() {
    let containers = vec![
        ("a".to_string(), container_with(vec![Step::Container("b".to_string())])),
        ("b".to_string(), container_with(vec![Step::Container("a".to_string())])),
    ];
    let setup = vec![Step::Container("a".to_string())];
    let mut ctx = BuildContext::new("x".to_string());
    let err = build_recipe(&mut ctx, &containers, &setup, 0, false, 5).unwrap_err();
    assert_eq!(err, "Subcontainer dependency cycle");
}

#[test]
fn built_steps_are_logged() {
    let containers: Vec<(String, Container)> = Vec::new();
    let setup = vec![
        Step::Alpine("v3.18".to_string()),
        Step::EnsureDir("/etc/app".to_string()),
    ];
    let mut ctx = BuildContext::new("app".to_string());
    build_recipe(&mut ctx, &containers, &setup, 0, true, 2).unwrap();
    assert_eq!(ctx.timelog.len(), 2);
    assert_eq!(ctx.timelog[0].1, "Step: Alpine(\"v3.18\")");
    assert_eq!(ctx.timelog[1].1, "Step: EnsureDir(\"/etc/app\")");
    // a configure-only pass logs nothing
    let mut ctx2 = BuildContext::new("app".to_string());
    build_recipe(&mut ctx2, &containers, &setup, 0, false, 2).unwrap();
    assert!(ctx2.timelog.is_empty());
}

#[test]
fn finish_opens_with_the_distro_phase() {
    let containers: Vec<(String, Container)> = Vec::new();
    let setup = vec![
        Step::Alpine("v3.18".to_string()),
        Step::Py3Install(vec!["flask".to_string()]),
    ];
    let mut ctx = BuildContext::new("app".to_string());
    build_recipe(&mut ctx, &containers, &setup, 0, true, 2).unwrap();
    let n = ctx.timelog.len();
    let plan = finish_build(&mut ctx);
    assert!(matches!(plan[0], Action::PipFreeze));
    assert!(matches!(plan[1], Action::DistroFinish));
    assert!(matches!(&plan[2], Action::Unmount(_)) || matches!(&plan[2], Action::CleanDir { .. }));
    // the closing record is written
    assert_eq!(ctx.timelog.len(), n + 1);
    assert_eq!(ctx.timelog.last().unwrap().1, "Finish");
}

