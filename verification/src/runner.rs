use vstd::prelude::*;
use vstd::string::StringExecFns;

use crate::coordinator::seq_contains;

verus! {

/// One run of a user command inside a container.
pub struct RunTask {
    pub container: String,
    pub command: Vec<String>,
    pub work_dir: String,
    pub project_root: String,
}

/// A mount the runner performs while assembling the run-time
/// filesystem.
pub enum MountOp {
    /// Recursive bind mount, optionally read-only.
    BindRec { source: String, target: String, readonly: bool },
    /// A fresh proc filesystem.
    Proc { target: String },
    /// A tmpfs with the given options.
    Tmpfs { target: String, options: String },
}

/// The mounts that assemble a container's run-time filesystem, in
/// order: the committed root, the system directories, the project work
/// tree, a fresh proc and a writable tmp.
pub fn mount_all(root: &String, mount_dir: &String, task: &RunTask) -> (r: Vec<MountOp>)
    ensures
        r@.len() == 6,
        r@[0] matches MountOp::BindRec { source, target, readonly } && source@ == root@ && target@
            == mount_dir@ && readonly == true,
        r@[1] matches MountOp::BindRec { source, target, readonly } && source@ == "/sys"@
            && target@ == mount_dir@ + "/sys"@ && readonly == true,
        r@[2] matches MountOp::BindRec { source, target, readonly } && source@ == "/dev"@
            && target@ == mount_dir@ + "/dev"@ && readonly == true,
        r@[3] matches MountOp::BindRec { source, target, readonly } && source@
            == task.project_root@ && target@ == mount_dir@ + "/work"@ && readonly == false,
        r@[4] matches MountOp::Proc { target } && target@ == mount_dir@ + "/proc"@,
        r@[5] matches MountOp::Tmpfs { target, options } && target@ == mount_dir@ + "/tmp"@
            && options@ == "size=102400k,mode=1777"@,
{
    let mut r: Vec<MountOp> = Vec::new();
    r.push(
        MountOp::BindRec { source: root.clone(), target: mount_dir.clone(), readonly: true },
    );
    r.push(
        MountOp::BindRec {
            source: String::from_str("/sys"),
            target: mount_dir.clone().concat("/sys"),
            readonly: true,
        },
    );
    r.push(
        MountOp::BindRec {
            source: String::from_str("/dev"),
            target: mount_dir.clone().concat("/dev"),
            readonly: true,
        },
    );
    r.push(
        MountOp::BindRec {
            source: task.project_root.clone(),
            target: mount_dir.clone().concat("/work"),
            readonly: false,
        },
    );
    r.push(MountOp::Proc { target: mount_dir.clone().concat("/proc") });
    r.push(
        MountOp::Tmpfs {
            target: mount_dir.clone().concat("/tmp"),
            options: String::from_str("size=102400k,mode=1777"),
        },
    );
    r
}

/// The fixed search path for a command run inside a container.
pub open spec fn spec_search_dirs() -> Seq<Seq<char>> {
    seq!["/bin"@, "/usr/bin"@, "/usr/local/bin"@, "/sbin"@, "/usr/sbin"@, "/usr/local/sbin"@]
}

/// The first search-path candidate for `cmd` that exists, if any.
pub open spec fn spec_search_from(cmd: Seq<char>, existing: Seq<Seq<char>>, i: nat) -> Option<
    Seq<char>,
>
    decreases 6 - i,
{
    if i >= 6 {
        None
    } else if seq_contains(existing, spec_search_dirs()[i as int] + "/"@ + cmd) {
        Some(spec_search_dirs()[i as int] + "/"@ + cmd)
    } else {
        spec_search_from(cmd, existing, i + 1)
    }
}

/// Resolve a command name: an absolute path is taken as is, any other
/// name is searched along the fixed path against the files known to
/// exist in the root.
pub fn search_path(cmd: &String, existing: &Vec<String>) -> (r: Option<String>)
    ensures
        match r {
            Some(p) => (crate::context::abs_path(cmd@) && p@ == cmd@) || (!crate::context::abs_path(
                cmd@,
            ) && spec_search_from(cmd@, existing.deep_view(), 0) == Some(p@)),
            None => !crate::context::abs_path(cmd@) && spec_search_from(
                cmd@,
                existing.deep_view(),
                0,
            ) is None,
        },
{
    let absolute = if vstd::string::StrSliceExecFns::unicode_len(cmd.as_str()) > 0 {
        vstd::string::StrSliceExecFns::get_char(cmd.as_str(), 0) == '/'
    } else {
        false
    };
    if absolute {
        return Some(cmd.clone());
    }
    let mut dirs: Vec<String> = Vec::new();
    dirs.push(String::from_str("/bin"));
    dirs.push(String::from_str("/usr/bin"));
    dirs.push(String::from_str("/usr/local/bin"));
    dirs.push(String::from_str("/sbin"));
    dirs.push(String::from_str("/usr/sbin"));
    dirs.push(String::from_str("/usr/local/sbin"));
    proof {
        assert(dirs.deep_view() =~~= spec_search_dirs());
    }
    let mut i: usize = 0;
    while i < 6
        invariant
            !crate::context::abs_path(cmd@),
            i <= 6,
            dirs.deep_view() == spec_search_dirs(),
            dirs@.len() == 6,
            spec_search_from(cmd@, existing.deep_view(), 0) == spec_search_from(
                cmd@,
                existing.deep_view(),
                i as nat,
            ),
        decreases 6 - i,
    {
        let candidate = dirs[i].clone().concat("/").concat(cmd.as_str());
        proof {
            assert(dirs.deep_view()[i as int] == dirs@[i as int]@);
            assert(candidate@ == spec_search_dirs()[i as int] + "/"@ + cmd@);
        }
        if crate::context::name_set_contains(existing, &candidate) {
            proof {
                assert(seq_contains(
                    existing.deep_view(),
                    spec_search_dirs()[i as int] + "/"@ + cmd@,
                ));
                assert(spec_search_from(cmd@, existing.deep_view(), i as nat) == Some(
                    candidate@,
                ));
            }
            return Some(candidate);
        }
        i += 1;
    }
    None
}

/// One simple user command as configured.
#[derive(Debug)]
pub struct CommandInfo {
    pub container: String,
    /// An address inside the gateway network, when the command runs in
    /// the shared network namespace.
    pub network_ip: Option<String>,
}

/// One child of a supervise command.
#[derive(Debug)]
pub struct ChildCommand {
    pub container: String,
    pub network_ip: Option<String>,
}

/// A command that supervises several children.
#[derive(Debug)]
pub struct SuperviseInfo {
    /// Only stop-on-failure supervision exists.
    pub stop_on_failure: bool,
    pub children: Vec<(String, ChildCommand)>,
}

/// A configured command: either one process or a supervised group.
#[derive(Debug)]
pub enum MainCommand {
    Command(CommandInfo),
    Supervise(SuperviseInfo),
}

/// How a simple command is launched: joining the gateway network
/// namespace exactly when an ip is assigned, and mapping a fresh user
/// namespace otherwise.
pub fn run_simple_command(cfg: &CommandInfo, cmdname: String, args: Vec<String>) -> (r: (
    bool,
    bool,
    String,
    Vec<String>,
))
    ensures
        r.0 == cfg.network_ip is Some,
        r.1 == cfg.network_ip is None,
        r.2 == cmdname,
        r.3 == args,
{
    let join = matches!(cfg.network_ip, Some(_));
    (join, !join, cmdname, args)
}

/// Dispatch a user command by name: unknown names are rejected with
/// the advice the tool prints.
pub fn run_user_command<'a>(commands: &'a Vec<(String, MainCommand)>, cmd: &String) -> (r: Result<
    &'a MainCommand,
    String,
>)
    ensures
        match r {
            Ok(_) => exists|i: int|
                0 <= i < commands@.len() && (#[trigger] commands@[i].0)@ == cmd@,
            Err(e) => (forall|i: int|
                0 <= i < commands@.len() ==> (#[trigger] commands@[i].0)@ != cmd@) && e@
                == "Command "@ + cmd@ + " not found. Run vagga without arguments to see the list."@,
        },
{
    let mut i: usize = 0;
    while i < commands.len()
        invariant
            i <= commands@.len(),
            forall|j: int| 0 <= j < i ==> (#[trigger] commands@[j].0)@ != cmd@,
        decreases commands@.len() - i,
    {
        if commands[i].0.eq(cmd) {
            return Ok(&commands[i].1);
        }
        i += 1;
    }
    let e = String::from_str("Command ").concat(cmd.as_str()).concat(
        " not found. Run vagga without arguments to see the list.",
    );
    proof {
        assert(e@ =~= "Command "@ + cmd@
            + " not found. Run vagga without arguments to see the list."@);
    }
    Err(e)
}


/// The distinct containers a supervised group is bound to, in first
/// mention order: each is built before any child starts.
pub fn supervise_containers(sup: &SuperviseInfo) -> (r: Vec<String>)
    ensures
        r.deep_view() == crate::bld::spec_names_union(
            Seq::<Seq<char>>::empty(),
            spec_child_containers(sup.children.deep_view2()),
        ),
{
    let mut r: Vec<String> = Vec::new();
    let mut i: usize = 0;
    proof {
        assert(r.deep_view() =~= Seq::<Seq<char>>::empty());
        assert(spec_child_containers(sup.children.deep_view2()).skip(0) =~= spec_child_containers(
            sup.children.deep_view2(),
        ));
    }
    while i < sup.children.len()
        invariant
            i <= sup.children@.len(),
            crate::bld::spec_names_union(
                Seq::<Seq<char>>::empty(),
                spec_child_containers(sup.children.deep_view2()),
            ) == crate::bld::spec_names_union(
                r.deep_view(),
                spec_child_containers(sup.children.deep_view2()).skip(i as int),
            ),
        decreases sup.children@.len() - i,
    {
        proof {
            assert(spec_child_containers(sup.children.deep_view2()).skip(i as int).first()
                == sup.children@[i as int].1.container@);
            assert(spec_child_containers(sup.children.deep_view2()).skip(i as int).drop_first()
                =~= spec_child_containers(sup.children.deep_view2()).skip(i + 1));
        }
        crate::context::name_set_insert(&mut r, sup.children[i].1.container.clone());
        i += 1;
    }
    proof {
        assert(spec_child_containers(sup.children.deep_view2()).skip(
            sup.children@.len() as int,
        ).len() == 0);
    }
    r
}

/// The container each child is bound to, in order.
pub open spec fn spec_child_containers(children: Seq<(Seq<char>, ChildCommand)>) -> Seq<
    Seq<char>,
> {
    Seq::new(children.len(), |i: int| children[i].1.container@)
}

/// View of a supervise child list keeping the child records whole.
pub trait ChildrenView {
    spec fn deep_view2(&self) -> Seq<(Seq<char>, ChildCommand)>;
}

impl ChildrenView for Vec<(String, ChildCommand)> {
    open spec fn deep_view2(&self) -> Seq<(Seq<char>, ChildCommand)> {
        Seq::new(self@.len(), |i: int| (self@[i].0@, self@[i].1))
    }
}

/// Names of the children that run inside the gateway network
/// namespace, in order.
pub open spec fn spec_netns_children(
    children: Seq<(Seq<char>, ChildCommand)>,
    in_netns: bool,
) -> Seq<Seq<char>>
    decreases children.len(),
{
    if children.len() == 0 {
        Seq::<Seq<char>>::empty()
    } else {
        spec_netns_children(children.drop_last(), in_netns) + (if (children.last().1.network_ip
            is Some) == in_netns {
            seq![children.last().0]
        } else {
            Seq::<Seq<char>>::empty()
        })
    }
}

/// Partition a supervised group's children: those bound to the gateway
/// network namespace, and those on the host network, each in order.
pub fn partition_children(sup: &SuperviseInfo) -> (r: (Vec<String>, Vec<String>))
    ensures
        r.0.deep_view() == spec_netns_children(sup.children.deep_view2(), true),
        r.1.deep_view() == spec_netns_children(sup.children.deep_view2(), false),
{
    let mut netns: Vec<String> = Vec::new();
    let mut host: Vec<String> = Vec::new();
    let mut i: usize = 0;
    proof {
        assert(sup.children.deep_view2().take(0) =~= Seq::<(Seq<char>, ChildCommand)>::empty());
        assert(netns.deep_view() =~= spec_netns_children(sup.children.deep_view2().take(0), true));
        assert(host.deep_view() =~= spec_netns_children(sup.children.deep_view2().take(0), false));
    }
    while i < sup.children.len()
        invariant
            i <= sup.children@.len(),
            netns.deep_view() == spec_netns_children(
                sup.children.deep_view2().take(i as int),
                true,
            ),
            host.deep_view() == spec_netns_children(
                sup.children.deep_view2().take(i as int),
                false,
            ),
        decreases sup.children@.len() - i,
    {
        proof {
            assert(sup.children.deep_view2().take(i + 1).drop_last()
                =~= sup.children.deep_view2().take(i as int));
            assert(sup.children.deep_view2().take(i + 1).last() == (
                sup.children@[i as int].0@,
                sup.children@[i as int].1,
            ));
        }
        let ghost n0 = netns.deep_view();
        let ghost h0 = host.deep_view();
        if matches!(sup.children[i].1.network_ip, Some(_)) {
            netns.push(sup.children[i].0.clone());
            proof {
                assert(netns.deep_view() =~~= n0.push(sup.children@[i as int].0@));
            }
        } else {
            host.push(sup.children[i].0.clone());
            proof {
                assert(host.deep_view() =~~= h0.push(sup.children@[i as int].0@));
            }
        }
        proof {
            assert(netns.deep_view() =~= spec_netns_children(
                sup.children.deep_view2().take(i + 1),
                true,
            ));
            assert(host.deep_view() =~= spec_netns_children(
                sup.children.deep_view2().take(i + 1),
                false,
            ));
        }
        i += 1;
    }
    proof {
        assert(sup.children.deep_view2().take(sup.children@.len() as int)
            =~= sup.children.deep_view2());
    }
    (netns, host)
}

/// A group with namespaced children needs the pinned namespaces first.
pub fn check_netns_ready(any_in_netns: bool, netns_ready: bool) -> (r: Result<(), String>)
    ensures
        match r {
            Ok(_) => !any_in_netns || netns_ready,
            Err(e) => any_in_netns && !netns_ready && e@
                == "Network namespace is not set up. You need to run vagga _create_netns first"@,
        },
{
    if any_in_netns && !netns_ready {
        Err(
            String::from_str(
                "Network namespace is not set up. You need to run vagga _create_netns first",
            ),
        )
    } else {
        Ok(())
    }
}

/// The argv a plain command runs: the container's wrapper prefix, then
/// the configured command, then the caller's arguments.
pub fn assemble_argv(
    wrapper: &Option<Vec<String>>,
    execute: &Vec<String>,
    args: &Vec<String>,
) -> (r: Vec<String>)
    ensures
        r.deep_view() == (match wrapper {
            Some(w) => w.deep_view(),
            None => Seq::<Seq<char>>::empty(),
        }) + execute.deep_view() + args.deep_view(),
{
    let mut r: Vec<String> = Vec::new();
    if let Some(w) = wrapper {
        append_names(&mut r, w);
    }
    append_names(&mut r, execute);
    append_names(&mut r, args);
    proof {
        assert(r.deep_view() =~= (match wrapper {
            Some(w) => w.deep_view(),
            None => Seq::<Seq<char>>::empty(),
        }) + execute.deep_view() + args.deep_view());
    }
    r
}

fn append_names(r: &mut Vec<String>, items: &Vec<String>)
    ensures
        final (r).deep_view() == old(r).deep_view() + items.deep_view(),
{
    let mut i: usize = 0;
    proof {
        assert(old(r).deep_view() + items.deep_view().take(0) =~= old(r).deep_view());
    }
    while i < items.len()
        invariant
            i <= items@.len(),
            r.deep_view() == old(r).deep_view() + items.deep_view().take(i as int),
        decreases items@.len() - i,
    {
        let ghost r0 = r.deep_view();
        r.push(items[i].clone());
        proof {
            assert(r.deep_view() =~~= r0.push(items@[i as int]@));
            assert(r.deep_view() =~= old(r).deep_view() + items.deep_view().take(i + 1));
        }
        i += 1;
    }
    proof {
        assert(items.deep_view().take(items@.len() as int) =~= items.deep_view());
    }
}

} // verus!
