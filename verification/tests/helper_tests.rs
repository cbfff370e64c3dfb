use vagga::clean::{clean_cmd_valid, clean_old_names, clean_temporary_names};
use vagga::config::{build_order, find_config_path, ranges_valid, volume_validator, Container, Dir, TmpfsInfo, Volume};
use vagga::file_util::read_visible_entries;
use vagga::netns::{get_nameservers, is_netns_set_up, join_gateway_namespaces, namespace_dir, PortForwardGuard};
use vagga::path_util::{rel, rel_to};
use vagga::pip::{parse_requirements, pip_args, scan_features};
use vagga::packages::Package;
use vagga::range::Range;
use vagga::runner::{assemble_argv, check_netns_ready, partition_children, run_simple_command, run_user_command, search_path, supervise_containers, ChildCommand, CommandInfo, MainCommand, mount_all, MountOp, RunTask, SuperviseInfo};
use vagga::settings::{set_variant, settings_files, MergedSettings, Settings};
use vagga::spawn::Namespace;
use vagga::bld::BuildCommand;
use vagga::steps::Step;
use vagga::context::BuildContext;
use vagga::wrapper::{
    create_storage_dir, make_cache_dir, make_mountpoint, safe_ensure_dir, vagga_base,
    wrapper_fs_plan, FsNode, LinkState, WrapperOp,
};

fn container_with(setup: Vec<Step>) -> Container {
    Container {
        setup,
        uids: Vec::new(),
        gids: Vec::new(),
        auto_clean: false,
        environ: Vec::new(),
        shell: None,
        default_command: None,
    }
}

#[test]
fn rel_strips_the_leading_slash() {
    assert_eq!(rel(&"/etc/app".to_string()), "etc/app");
    assert_eq!(rel_to(&"/work/src/x".to_string(), &"/work".to_string()), Some("src/x".to_string()));
    assert_eq!(rel_to(&"/work".to_string(), &"/work".to_string()), Some("".to_string()));
    assert_eq!(rel_to(&"/other/x".to_string(), &"/work".to_string()), None);
}

#[test]
fn visible_entries_drop_hidden_names() {
    let names = vec![".vagga".to_string(), "src".to_string(), ".git".to_string(), "a".to_string()];
    assert_eq!(read_visible_entries(&names), vec!["src".to_string(), "a".to_string()]);
}

#[test]
fn tmp_entries_select_scratch_dirs() {
    let entries = vec![
        "app.01234567".to_string(),
        ".tmp.app".to_string(),
        ".tmp.other".to_string(),
        "web.cafebabe".to_string(),
    ];
    assert_eq!(
        clean_temporary_names(&entries),
        vec![".tmp.app".to_string(), ".tmp.other".to_string()]
    );
    assert!(clean_cmd_valid(true, false).is_err());
    assert!(clean_cmd_valid(true, true).is_ok());
    assert!(clean_cmd_valid(false, false).is_ok());
}

#[test]
fn test_symlink_fail() {
    // a `.vagga` that is a symlink is refused with advice to unlink it
    let dir = "/work/.vagga".to_string();
    let err = safe_ensure_dir(&dir, FsNode::Symlink).unwrap_err();
    assert_eq!(
        err,
        format!("The `{0}` dir can't be a symlink. Please run `unlink {0}`", dir)
    );
    let err = safe_ensure_dir(&dir, FsNode::Other).unwrap_err();
    assert_eq!(
        err,
        format!("The `{0}` must be a directory. Please run `unlink {0}`", dir)
    );
    assert_eq!(safe_ensure_dir(&dir, FsNode::Directory), Ok(false));
    assert_eq!(safe_ensure_dir(&dir, FsNode::Missing), Ok(true));
}

#[test]
fn mountpoint_dirs_in_order() {
    assert_eq!(
        make_mountpoint(&"/home/u/proj".to_string()),
        vec!["/home/u/proj/.vagga".to_string(), "/home/u/proj/.vagga/.mnt".to_string()]
    );
}

#[test]
fn storage_dir_names_are_numbered() {
    let taken: Vec<String> = Vec::new();
    assert_eq!(create_storage_dir(&"proj".to_string(), &taken), Ok("proj".to_string()));
    let taken = vec!["proj".to_string(), "proj-1".to_string()];
    assert_eq!(create_storage_dir(&"proj".to_string(), &taken), Ok("proj-2".to_string()));
}

#[test]
fn vagga_base_resolution() {
    let plain = MergedSettings {
        storage_dir: None,
        cache_dir: None,
        shared_cache: false,
        build_lock_wait: false,
        uid_map: None,
    };
    assert_eq!(
        vagga_base(&"/home/u/proj".to_string(), &plain, &LinkState::Missing),
        Ok(Some("/home/u/proj/.vagga".to_string()))
    );
    let stored = MergedSettings { storage_dir: Some("/storage".to_string()), ..plain };
    assert_eq!(vagga_base(&"/home/u/proj".to_string(), &stored, &LinkState::Missing), Ok(None));
    assert_eq!(
        vagga_base(
            &"/home/u/proj".to_string(),
            &stored,
            &LinkState::Points("/storage/proj".to_string()),
        ),
        Ok(Some("/storage/proj".to_string()))
    );
    assert!(vagga_base(
        &"/home/u/proj".to_string(),
        &stored,
        &LinkState::Points("/elsewhere/proj".to_string()),
    )
    .is_err());
    let (cache, create) = make_cache_dir(&stored, &"/storage/proj".to_string());
    assert_eq!(cache, "/storage/proj/.cache");
    assert!(create);
}

#[test]
fn namespace_paths() {
    assert_eq!(
        namespace_dir(&Some("/run/user/1000".to_string()), 1000),
        "/run/user/1000/vagga"
    );
    assert_eq!(namespace_dir(&None, 1000), "/tmp/vagga-1000");
    assert!(is_netns_set_up(true, true));
    assert!(!is_netns_set_up(true, false));
    let joins = join_gateway_namespaces(&"/tmp/vagga-1000".to_string());
    assert_eq!(joins[0].0, "/tmp/vagga-1000/userns");
    assert_eq!(joins[0].1, Namespace::NewUser);
    assert_eq!(joins[1].0, "/tmp/vagga-1000/netns");
    assert_eq!(joins[1].1, Namespace::NewNet);
}

#[test]
fn nameservers_parse() {
    let lines = vec![
        "# comment".to_string(),
        "nameserver 10.0.0.1".to_string(),
        "search localdomain".to_string(),
        "nameserver 10.0.0.2".to_string(),
    ];
    assert_eq!(get_nameservers(&lines), vec!["10.0.0.1".to_string(), "10.0.0.2".to_string()]);
}

#[test]
fn port_forward_rules() {
    let guard = PortForwardGuard::new(
        "/tmp/vagga-1000/netns".to_string(),
        "172.18.255.2".to_string(),
        vec![8080],
    );
    let rules = guard.start_forwarding();
    assert_eq!(rules.len(), 1);
    assert_eq!(
        rules[0],
        vec![
            "-t", "nat", "-I", "PREROUTING", "-p", "tcp", "-m", "tcp", "--dport", "8080", "-j",
            "DNAT", "--to-destination", "172.18.255.2",
        ]
        .into_iter()
        .map(String::from)
        .collect::<Vec<_>>()
    );
    let down = guard.stop_forwarding();
    assert_eq!(down[0][2], "-D");
}

#[test]
fn scan_features_detects_vcs_requirements() {
    let features = scan_features(2, &vec!["flask".to_string(), "hg+https://example.org".to_string()]);
    assert_eq!(
        features,
        vec![
            Package::BuildEssential,
            Package::Python2,
            Package::Python2Dev,
            Package::PipPy2,
            Package::Mercurial,
        ]
    );
}

#[test]
fn requirements_skip_blank_and_comment_lines() {
    let data = b"flask\n\n# a comment\nrequests  \n".to_vec();
    let names = parse_requirements(&data);
    assert_eq!(names, vec![b"flask".to_vec(), b"requests".to_vec()]);
}

#[test]
fn pip_command_head_is_fixed() {
    let ctx = BuildContext::new("app".to_string());
    let args = pip_args(&ctx, 3);
    assert_eq!(&args[..5], &["python3", "-m", "pip", "install", "--ignore-installed"]);
}

#[test]
fn container_defaults_fill_id_ranges() {
    let mut c = container_with(Vec::new());
    c.apply_defaults();
    assert_eq!(c.uids, vec![Range { start: 0, end: 65535 }]);
    assert_eq!(c.gids, vec![Range { start: 0, end: 65535 }]);
    assert!(ranges_valid(&c.uids));
    let bad = vec![Range { start: 0, end: 10 }, Range { start: 5, end: 20 }];
    assert!(!ranges_valid(&bad));
}

#[test]
fn build_order_puts_dependencies_first() {
    let cs = vec![
        ("app".to_string(), container_with(vec![Step::Container("base".to_string())])),
        ("base".to_string(), container_with(Vec::new())),
    ];
    let mut order: Vec<String> = Vec::new();
    build_order(&cs, &"app".to_string(), 10, &mut order).unwrap();
    assert_eq!(order, vec!["base".to_string(), "app".to_string()]);
}

#[test]
fn dependency_cycles_are_rejected() {
    let cs = vec![
        ("a".to_string(), container_with(vec![Step::Container("b".to_string())])),
        ("b".to_string(), container_with(vec![Step::Container("a".to_string())])),
    ];
    let mut order: Vec<String> = Vec::new();
    let err = build_order(&cs, &"a".to_string(), 10, &mut order).unwrap_err();
    assert_eq!(err, "Subcontainer dependency cycle");
}

#[test]
fn volume_constraints() {
    assert!(volume_validator(&Volume::Empty));
    assert!(volume_validator(&Volume::BindRO("/etc".to_string())));
    assert!(!volume_validator(&Volume::BindRO("etc".to_string())));
    let tmpfs = Volume::Tmpfs(TmpfsInfo {
        size: 100,
        mode: 0o1777,
        subdirs: vec![("cache".to_string(), Dir { mode: 0o755 })],
    });
    assert!(volume_validator(&tmpfs));
    let bad = Volume::Tmpfs(TmpfsInfo { size: 100, mode: 0o7777, subdirs: Vec::new() });
    assert!(!volume_validator(&bad));
}

#[test]
fn command_search_path() {
    let existing = vec!["/usr/bin/curl".to_string()];
    assert_eq!(search_path(&"/bin/sh".to_string(), &existing), Some("/bin/sh".to_string()));
    assert_eq!(search_path(&"curl".to_string(), &existing), Some("/usr/bin/curl".to_string()));
    assert_eq!(search_path(&"missing".to_string(), &existing), None);
}

#[test]
fn simple_command_network_choice() {
    let with_ip = CommandInfo { container: "web".to_string(), network_ip: Some("172.18.0.2".to_string()) };
    let (join, userns, name, args) =
        run_simple_command(&with_ip, "run".to_string(), vec!["x".to_string()]);
    assert!(join && !userns);
    assert_eq!(name, "run");
    assert_eq!(args, vec!["x".to_string()]);
    let plain = CommandInfo { container: "web".to_string(), network_ip: None };
    let (join, userns, _, _) = run_simple_command(&plain, "run".to_string(), Vec::new());
    assert!(!join && userns);
}

#[test]
fn unknown_command_is_reported() {
    let commands = vec![(
        "run".to_string(),
        MainCommand::Command(CommandInfo { container: "web".to_string(), network_ip: None }),
    )];
    assert!(run_user_command(&commands, &"run".to_string()).is_ok());
    let err = run_user_command(&commands, &"deploy".to_string()).unwrap_err();
    assert_eq!(err, "Command deploy not found. Run vagga without arguments to see the list.");
}

#[test]
fn runner_mounts_in_order() {
    let task = RunTask {
        container: "web".to_string(),
        command: vec!["sh".to_string()],
        work_dir: "src".to_string(),
        project_root: "/home/u/proj".to_string(),
    };
    let plan = mount_all(
        &"/vagga/roots/web.01234567/root".to_string(),
        &"/vagga/mnt".to_string(),
        &task,
    );
    assert_eq!(plan.len(), 6);
    assert!(matches!(&plan[0], MountOp::BindRec { source, readonly, .. }
        if source == "/vagga/roots/web.01234567/root" && *readonly));
    assert!(matches!(&plan[3], MountOp::BindRec { source, readonly, .. }
        if source == "/home/u/proj" && !*readonly));
    assert!(matches!(&plan[5], MountOp::Tmpfs { options, .. } if options == "size=102400k,mode=1777"));
}

#[test]
fn settings_files_are_ordered() {
    let files = settings_files(
        &Some("/home/u".to_string()),
        &"/home/u/proj".to_string(),
        &"/home/u/proj/.vagga".to_string(),
    );
    assert_eq!(files[0], "/home/u/.config/vagga/settings.yaml");
    assert_eq!(files[4], "/home/u/proj/.vagga/settings.yaml");
    let s = Settings::new();
    assert!(s.variants.is_empty());
}

#[test]
fn set_variant_requires_a_declared_variable() {
    let defined = vec!["flavor".to_string()];
    assert_eq!(
        set_variant(&defined, &"flavor".to_string(), &"dev".to_string()),
        Ok("variants:\n  flavor: dev\n".to_string())
    );
    assert_eq!(
        set_variant(&defined, &"other".to_string(), &"x".to_string()),
        Err("No variable other defined".to_string())
    );
}

#[test]
fn config_search_walks_ancestors() {
    let existing = vec!["/home/u/proj/vagga.yaml".to_string()];
    let found = find_config_path(&"/home/u/proj/src/deep".to_string(), &existing);
    assert_eq!(
        found,
        Some(("/home/u/proj".to_string(), "/home/u/proj/vagga.yaml".to_string()))
    );
    let hidden = vec!["/home/u/proj/.vagga/vagga.yaml".to_string()];
    let found = find_config_path(&"/home/u/proj".to_string(), &hidden);
    assert_eq!(
        found,
        Some(("/home/u/proj".to_string(), "/home/u/proj/.vagga/vagga.yaml".to_string()))
    );
    assert_eq!(find_config_path(&"/home/u/proj".to_string(), &Vec::new()), None);
}

#[test]
fn unknown_dependency_is_rejected() {
    let cs = vec![(
        "app".to_string(),
        container_with(vec![Step::Container("missing".to_string())]),
    )];
    let mut order: Vec<String> = Vec::new();
    let err = build_order(&cs, &"app".to_string(), 10, &mut order).unwrap_err();
    assert_eq!(err, "Subcontainer not found");
}

#[test]
fn wrapper_filesystem_assembles_in_order() {
    let plan = wrapper_fs_plan(
        &"/home/u/proj".to_string(),
        &"/home/u/proj/.vagga/.roots".to_string(),
        &"/home/u/proj/.vagga/.cache".to_string(),
        &"/opt/tool/bin".to_string(),
    );
    assert_eq!(plan.len(), 20);
    assert!(matches!(&plan[0], WrapperOp::Tmpfs { target, options }
        if target == "/home/u/proj/.vagga/.mnt" && options == "size=10m"));
    assert!(matches!(&plan[7], WrapperOp::Bind { source, target, readonly }
        if source == "/opt/tool/bin" && target == "/home/u/proj/.vagga/.mnt/vagga/bin" && *readonly));
    assert!(matches!(&plan[16], WrapperOp::Bind { source, readonly, .. }
        if source == "/home/u/proj" && !*readonly));
    assert!(matches!(&plan[18], WrapperOp::Pivot { new_root, .. }
        if new_root == "/home/u/proj/.vagga/.mnt"));
    assert!(matches!(&plan[19], WrapperOp::Unmount(p) if p == "/vagga/old_root"));
}

#[test]
fn old_roots_spare_live_and_hidden_entries() {
    let entries = vec![
        "app.11111111".to_string(),
        "app.22222222".to_string(),
        ".tmp.app".to_string(),
        "web.33333333".to_string(),
    ];
    let live = vec!["app.22222222".to_string(), "web.33333333".to_string()];
    assert_eq!(clean_old_names(&entries, &live), vec!["app.11111111".to_string()]);
}

fn supervise_group() -> SuperviseInfo {
    SuperviseInfo {
        stop_on_failure: true,
        children: vec![
            (
                "web".to_string(),
                ChildCommand { container: "base".to_string(), network_ip: Some("172.18.0.2".to_string()) },
            ),
            (
                "worker".to_string(),
                ChildCommand { container: "base".to_string(), network_ip: None },
            ),
            (
                "db".to_string(),
                ChildCommand { container: "postgres".to_string(), network_ip: None },
            ),
        ],
    }
}

#[test]
fn supervise_builds_each_container_once() {
    let sup = supervise_group();
    assert_eq!(
        supervise_containers(&sup),
        vec!["base".to_string(), "postgres".to_string()]
    );
}

#[test]
fn supervise_partitions_children_by_network() {
    let sup = supervise_group();
    let (netns, host) = partition_children(&sup);
    assert_eq!(netns, vec!["web".to_string()]);
    assert_eq!(host, vec!["worker".to_string(), "db".to_string()]);
    assert!(check_netns_ready(true, true).is_ok());
    assert!(check_netns_ready(false, false).is_ok());
    let err = check_netns_ready(true, false).unwrap_err();
    assert_eq!(
        err,
        "Network namespace is not set up. You need to run vagga _create_netns first"
    );
}

#[test]
fn plain_command_argv_is_prefixed() {
    let argv = assemble_argv(
        &Some(vec!["doas".to_string()]),
        &vec!["svc".to_string(), "start".to_string()],
        &vec!["--verbose".to_string()],
    );
    assert_eq!(argv, vec!["doas", "svc", "start", "--verbose"]);
    let argv = assemble_argv(&None, &vec!["svc".to_string()], &Vec::new());
    assert_eq!(argv, vec!["svc"]);
}

#[test]
fn pip_args_carry_the_configured_settings() {
    let mut ctx = BuildContext::new("app".to_string());
    Step::PipConfig {
        index_urls: vec!["https://a.example".to_string(), "https://b.example".to_string()],
        find_links: vec!["https://l.example".to_string()],
        dependencies: false,
    }
    .build(&mut ctx, false)
    .unwrap();
    let args = pip_args(&ctx, 2);
    assert_eq!(
        args,
        vec![
            "python2",
            "-m",
            "pip",
            "install",
            "--ignore-installed",
            "--index-url=https://a.example",
            "--extra-index-url=https://b.example",
            "--no-deps",
            "--find-links=https://l.example",
        ]
    );
}

