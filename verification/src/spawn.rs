use vstd::prelude::*;

use crate::uidmap::Uidmap;

verus! {

/// The kinds of namespaces a child can be started in.
#[derive(Clone, Copy, Debug, PartialEq, Eq, Structural)]
pub enum Namespace {
    NewMount,
    NewUts,
    NewIpc,
    NewUser,
    NewPid,
    NewNet,
}

impl Namespace {
    /// Index of the namespace in the flag set.
    pub fn to_usize(&self) -> (r: usize)
        ensures
            r == self.spec_index(),
    {
        match *self {
            Namespace::NewMount => 0,
            Namespace::NewUts => 1,
            Namespace::NewIpc => 2,
            Namespace::NewUser => 3,
            Namespace::NewPid => 4,
            Namespace::NewNet => 5,
        }
    }

    pub open spec fn spec_index(self) -> usize {
        match self {
            Namespace::NewMount => 0,
            Namespace::NewUts => 1,
            Namespace::NewIpc => 2,
            Namespace::NewUser => 3,
            Namespace::NewPid => 4,
            Namespace::NewNet => 5,
        }
    }

    /// The namespace with the given index.
    pub fn from_usize(val: usize) -> (r: Namespace)
        requires
            val < 6,
        ensures
            r.spec_index() == val,
    {
        match val {
            0 => Namespace::NewMount,
            1 => Namespace::NewUts,
            2 => Namespace::NewIpc,
            3 => Namespace::NewUser,
            4 => Namespace::NewPid,
            _ => Namespace::NewNet,
        }
    }
}

/// The kernel clone flag of one namespace kind.
pub fn convert_namespace(value: Namespace) -> (r: i32)
    ensures
        r == spec_clone_flag(value),
{
    match value {
        Namespace::NewMount => 0x00020000,
        Namespace::NewUts => 0x04000000,
        Namespace::NewIpc => 0x08000000,
        Namespace::NewUser => 0x10000000,
        Namespace::NewPid => 0x20000000,
        Namespace::NewNet => 0x40000000,
    }
}

pub open spec fn spec_clone_flag(ns: Namespace) -> i32 {
    match ns {
        Namespace::NewMount => 0x00020000,
        Namespace::NewUts => 0x04000000,
        Namespace::NewIpc => 0x08000000,
        Namespace::NewUser => 0x10000000,
        Namespace::NewPid => 0x20000000,
        Namespace::NewNet => 0x40000000,
    }
}

/// A set of namespaces, one flag per kind.
#[derive(Clone, Copy, Debug, PartialEq, Eq, Structural)]
pub struct NamespaceSet {
    pub mount: bool,
    pub uts: bool,
    pub ipc: bool,
    pub user: bool,
    pub pid: bool,
    pub net: bool,
}

impl NamespaceSet {
    pub fn empty() -> (r: NamespaceSet)
        ensures
            r == (NamespaceSet {
                mount: false,
                uts: false,
                ipc: false,
                user: false,
                pid: false,
                net: false,
            }),
    {
        NamespaceSet { mount: false, uts: false, ipc: false, user: false, pid: false, net: false }
    }
}

/// One step of the spawn protocol, in the order the parent performs it.
pub enum SpawnStep {
    /// Clone the child with the requested namespace flags; the child
    /// blocks on the synchronization pipe.
    Fork,
    /// Write the uid map, `setgroups=deny`, and the gid map for the
    /// child's new user namespace.
    ApplyUidmap(Uidmap),
    /// Write one byte to the pipe; the child resumes and execs.
    WakePipe,
}

/// A command to spawn in a container: executable, arguments,
/// environment, namespaces and the uid map to install.
pub struct Command {
    pub name: String,
    pub chroot_dir: String,
    pub workdir: String,
    pub executable: String,
    pub arguments: Vec<String>,
    pub environment: Vec<(String, String)>,
    pub namespaces: NamespaceSet,
    pub restore_sigmask: bool,
    pub user_id: u32,
    pub uidmap: Option<Uidmap>,
    pub stdin_fd: i32,
    pub stdout_fd: i32,
    pub stderr_fd: i32,
}

impl Command {
    /// A command that runs `cmd` with no extra namespaces, inheriting
    /// the standard descriptors, rooted at `/`.
    pub fn new(name: String, cmd: String, workdir: String) -> (r: Command)
        ensures
            r.name == name,
            r.executable == cmd,
            r.workdir == workdir,
            r.chroot_dir@ == "/"@,
            r.arguments.deep_view() == seq![cmd@],
            r.environment.deep_view() == Seq::<(Seq<char>, Seq<char>)>::empty(),
            r.namespaces == (NamespaceSet {
                mount: false,
                uts: false,
                ipc: false,
                user: false,
                pid: false,
                net: false,
            }),
            r.restore_sigmask == true,
            r.user_id == 0,
            r.uidmap is None,
            r.stdin_fd == 0 && r.stdout_fd == 1 && r.stderr_fd == 2,
    {
        let mut arguments: Vec<String> = Vec::new();
        arguments.push(cmd.clone());
        let environment: Vec<(String, String)> = Vec::new();
        proof {
            assert(arguments.deep_view() =~= seq![cmd@]);
            assert(environment.deep_view() =~= Seq::<(Seq<char>, Seq<char>)>::empty());
        }
        Command {
            name,
            chroot_dir: String::from_str("/"),
            workdir,
            executable: cmd,
            arguments,
            environment,
            namespaces: NamespaceSet::empty(),
            restore_sigmask: true,
            user_id: 0,
            uidmap: None,
            stdin_fd: 0,
            stdout_fd: 1,
            stderr_fd: 2,
        }
    }

    pub fn set_user_id(&mut self, uid: u32)
        ensures
            *final (self) == (Command { user_id: uid, ..*old(self) }),
    {
        self.user_id = uid;
    }

    pub fn set_stdout_fd(&mut self, fd: i32)
        ensures
            *final (self) == (Command { stdout_fd: fd, ..*old(self) }),
    {
        self.stdout_fd = fd;
    }

    pub fn set_stderr_fd(&mut self, fd: i32)
        ensures
            *final (self) == (Command { stderr_fd: fd, ..*old(self) }),
    {
        self.stderr_fd = fd;
    }

    pub fn set_stdin_fd(&mut self, fd: i32)
        ensures
            *final (self) == (Command { stdin_fd: fd, ..*old(self) }),
    {
        self.stdin_fd = fd;
    }

    pub fn chroot(&mut self, dir: String)
        ensures
            *final (self) == (Command { chroot_dir: dir, ..*old(self) }),
    {
        self.chroot_dir = dir;
    }

    pub fn set_workdir(&mut self, dir: String)
        ensures
            *final (self) == (Command { workdir: dir, ..*old(self) }),
    {
        self.workdir = dir;
    }

    pub fn keep_sigmask(&mut self)
        ensures
            *final (self) == (Command { restore_sigmask: false, ..*old(self) }),
    {
        self.restore_sigmask = false;
    }

    pub fn arg(&mut self, arg: String)
        ensures
            final (self).arguments@ == old(self).arguments@.push(arg),
            *final (self) == (Command { arguments: final (self).arguments, ..*old(self) }),
    {
        self.arguments.push(arg);
    }

    pub fn args(&mut self, args: &Vec<String>)
        ensures
            final (self).arguments.deep_view() == old(self).arguments.deep_view()
                + args.deep_view(),
            *final (self) == (Command { arguments: final (self).arguments, ..*old(self) }),
    {
        let mut i: usize = 0;
        proof {
            assert(old(self).arguments.deep_view() + args.deep_view().take(0)
                =~= old(self).arguments.deep_view());
        }
        while i < args.len()
            invariant
                i <= args@.len(),
                self.arguments.deep_view() == old(self).arguments.deep_view()
                    + args.deep_view().take(i as int),
                *self == (Command { arguments: self.arguments, ..*old(self) }),
            decreases args@.len() - i,
        {
            let ghost a0 = self.arguments.deep_view();
            self.arguments.push(args[i].clone());
            proof {
                assert(self.arguments.deep_view() =~~= a0.push(args.deep_view()[i as int]));
                assert(args.deep_view().take(i + 1) =~= args.deep_view().take(i as int).push(
                    args.deep_view()[i as int],
                ));
                assert(self.arguments.deep_view() =~= old(self).arguments.deep_view()
                    + args.deep_view().take(i + 1));
            }
            i += 1;
        }
        proof {
            assert(args.deep_view().take(args@.len() as int) =~= args.deep_view());
        }
    }

    /// Bind an environment variable, replacing any earlier binding.
    pub fn set_env(&mut self, key: String, value: String)
        ensures
            final (self).environment.deep_view() == spec_env_set(
                old(self).environment.deep_view(),
                key@,
                value@,
            ),
            *final (self) == (Command { environment: final (self).environment, ..*old(self) }),
    {
        let mut i: usize = 0;
        while i < self.environment.len()
            invariant
                i <= self.environment@.len(),
                *self == *old(self),
                forall|j: int| 0 <= j < i ==> self.environment.deep_view()[j].0 != key@,
            decreases self.environment@.len() - i,
        {
            proof {
                assert(self.environment.deep_view()[i as int].0 == self.environment@[i as int].0@);
            }
            if self.environment[i].0.eq(&key) {
                let ghost e0 = self.environment.deep_view();
                self.environment.set(i, (key.clone(), value));
                proof {
                    lemma_env_set_found(e0, key@, value@, i as int);
                    assert(self.environment.deep_view() =~~= e0.take(i as int) + seq![
                        (key@, value@),
                    ] + e0.skip(i + 1));
                }
                return ;
            }
            i += 1;
        }
        let ghost e0 = self.environment.deep_view();
        self.environment.push((key, value));
        proof {
            lemma_env_set_absent(e0, key@, value@);
            assert(self.environment.deep_view() =~~= e0 + seq![(key@, value@)]);
        }
    }

    /// Request a user namespace with the given map.
    pub fn set_uidmap(&mut self, uidmap: Uidmap)
        ensures
            final (self).namespaces == (NamespaceSet { user: true, ..old(self).namespaces }),
            final (self).uidmap == Some(uidmap),
            *final (self) == (Command {
                namespaces: final (self).namespaces,
                uidmap: final (self).uidmap,
                ..*old(self)
            }),
    {
        self.namespaces.user = true;
        self.uidmap = Some(uidmap);
    }

    /// Request a user namespace mapped with the widest map available,
    /// as `get_max_uidmap` resolved it.
    pub fn set_max_uidmap(&mut self, uidmap: Uidmap)
        ensures
            final (self).namespaces == (NamespaceSet { user: true, ..old(self).namespaces }),
            final (self).uidmap == Some(uidmap),
            *final (self) == (Command {
                namespaces: final (self).namespaces,
                uidmap: final (self).uidmap,
                ..*old(self)
            }),
    {
        self.set_uidmap(uidmap);
    }

    /// Request fresh network and hostname namespaces.
    pub fn network_ns(&mut self)
        ensures
            final (self).namespaces == (NamespaceSet {
                net: true,
                uts: true,
                ..old(self).namespaces
            }),
            *final (self) == (Command { namespaces: final (self).namespaces, ..*old(self) }),
    {
        self.namespaces.net = true;
        self.namespaces.uts = true;
    }

    /// Request the container namespaces: mount, ipc and pid.  User and
    /// network namespaces are set separately.
    pub fn container(&mut self)
        ensures
            final (self).namespaces == (NamespaceSet {
                mount: true,
                ipc: true,
                pid: true,
                ..old(self).namespaces
            }),
            *final (self) == (Command { namespaces: final (self).namespaces, ..*old(self) }),
    {
        self.namespaces.mount = true;
        self.namespaces.ipc = true;
        self.namespaces.pid = true;
    }

    /// The combined clone flags of the requested namespaces.
    pub fn clone_flags(&self) -> (r: i32)
        ensures
            r == spec_clone_flags(self.namespaces),
    {
        let m: i32 = if self.namespaces.mount {
            0x00020000
        } else {
            0
        };
        let ut: i32 = if self.namespaces.uts {
            0x04000000
        } else {
            0
        };
        let ic: i32 = if self.namespaces.ipc {
            0x08000000
        } else {
            0
        };
        let us: i32 = if self.namespaces.user {
            0x10000000
        } else {
            0
        };
        let pd: i32 = if self.namespaces.pid {
            0x20000000
        } else {
            0
        };
        let nt: i32 = if self.namespaces.net {
            0x40000000
        } else {
            0
        };
        m | ut | ic | us | pd | nt
    }

    /// The ordered protocol the parent follows to start this command:
    /// fork the child blocked on the pipe, install the uid map when one
    /// was requested, then wake the child.
    pub fn spawn_plan(&self) -> (r: Vec<SpawnStep>)
        ensures
            match self.uidmap {
                Some(m) => r@.len() == 3 && r@[0] is Fork && (r@[1] matches SpawnStep::ApplyUidmap(
                    m2,
                ) && spec_uidmap_eq(m2, m)) && r@[2] is WakePipe,
                None => r@.len() == 2 && r@[0] is Fork && r@[1] is WakePipe,
            },
    {
        let mut r: Vec<SpawnStep> = Vec::new();
        r.push(SpawnStep::Fork);
        if let Some(m) = &self.uidmap {
            r.push(SpawnStep::ApplyUidmap(clone_uidmap(m)));
        }
        r.push(SpawnStep::WakePipe);
        r
    }
}

/// Two maps with the same meaning: same variant and equal contents.
pub open spec fn spec_uidmap_eq(a: Uidmap, b: Uidmap) -> bool {
    match (a, b) {
        (Uidmap::Singleton(u1, g1), Uidmap::Singleton(u2, g2)) => u1 == u2 && g1 == g2,
        (Uidmap::Ranges(us1, gs1), Uidmap::Ranges(us2, gs2)) => us1@ == us2@ && gs1@ == gs2@,
        _ => false,
    }
}

/// Copy a map, contents and all.
pub fn clone_uidmap(m: &Uidmap) -> (r: Uidmap)
    ensures
        spec_uidmap_eq(r, *m),
{
    match m {
        Uidmap::Singleton(u, g) => Uidmap::Singleton(*u, *g),
        Uidmap::Ranges(us, gs) => Uidmap::Ranges(copy_triple_vec(us), copy_triple_vec(gs)),
    }
}

fn copy_triple_vec(ts: &Vec<(u32, u32, u32)>) -> (r: Vec<(u32, u32, u32)>)
    ensures
        r@ == ts@,
{
    let mut r: Vec<(u32, u32, u32)> = Vec::new();
    let mut i: usize = 0;
    while i < ts.len()
        invariant
            i <= ts@.len(),
            r@ == ts@.take(i as int),
        decreases ts@.len() - i,
    {
        r.push(ts[i]);
        proof {
            assert(r@ =~= ts@.take(i + 1));
        }
        i += 1;
    }
    proof {
        assert(ts@.take(ts@.len() as int) =~= ts@);
    }
    r
}

pub proof fn lemma_env_set_found(
    env: Seq<(Seq<char>, Seq<char>)>,
    key: Seq<char>,
    value: Seq<char>,
    i: int,
)
    requires
        0 <= i < env.len(),
        forall|j: int| 0 <= j < i ==> env[j].0 != key,
        env[i].0 == key,
    ensures
        spec_env_set(env, key, value) == env.take(i) + seq![(key, value)] + env.skip(i + 1),
    decreases i,
{
    if i == 0 {
        assert(spec_env_set(env, key, value) =~= env.take(0) + seq![(key, value)] + env.skip(1));
    } else {
        lemma_env_set_found(env.drop_first(), key, value, i - 1);
        assert(env.drop_first().take(i - 1) =~= env.skip(1).take(i - 1));
        assert(env.drop_first().skip(i) =~= env.skip(i + 1));
        assert(spec_env_set(env, key, value) =~= env.take(i) + seq![(key, value)] + env.skip(
            i + 1,
        ));
    }
}

pub proof fn lemma_env_set_absent(env: Seq<(Seq<char>, Seq<char>)>, key: Seq<char>, value: Seq<char>)
    requires
        forall|j: int| 0 <= j < env.len() ==> env[j].0 != key,
    ensures
        spec_env_set(env, key, value) == env + seq![(key, value)],
    decreases env.len(),
{
    if env.len() == 0 {
        assert(spec_env_set(env, key, value) =~= env + seq![(key, value)]);
    } else {
        lemma_env_set_absent(env.drop_first(), key, value);
        assert(spec_env_set(env, key, value) =~= env + seq![(key, value)]);
    }
}

/// Bind a key in an association list, replacing the first earlier
/// binding or appending a new one.
pub open spec fn spec_env_set(
    env: Seq<(Seq<char>, Seq<char>)>,
    key: Seq<char>,
    value: Seq<char>,
) -> Seq<(Seq<char>, Seq<char>)>
    decreases env.len(),
{
    if env.len() == 0 {
        seq![(key, value)]
    } else if env.first().0 == key {
        seq![(key, value)] + env.drop_first()
    } else {
        seq![env.first()] + spec_env_set(env.drop_first(), key, value)
    }
}

pub open spec fn spec_clone_flags(ns: NamespaceSet) -> i32 {
    (if ns.mount {
        0x00020000i32
    } else {
        0
    }) | (if ns.uts {
        0x04000000i32
    } else {
        0
    }) | (if ns.ipc {
        0x08000000i32
    } else {
        0
    }) | (if ns.user {
        0x10000000i32
    } else {
        0
    }) | (if ns.pid {
        0x20000000i32
    } else {
        0
    }) | (if ns.net {
        0x40000000i32
    } else {
        0
    })
}

/// Law: the uid map is applied exactly once per spawned user namespace,
/// and always before the child is woken from the synchronization pipe.
/// A command whose user namespace was requested through `set_uidmap` or
/// `set_max_uidmap` carries a map, its plan applies that map at exactly
/// one step, and that step comes before the single wake step.
pub proof fn lemma_uidmap_applied_once_before_wake(cmd: Command, plan: Seq<SpawnStep>)
    requires
        cmd.uidmap is Some,
        match cmd.uidmap {
            Some(m) => plan.len() == 3 && plan[0] is Fork && (plan[1]
                matches SpawnStep::ApplyUidmap(m2) && spec_uidmap_eq(m2, m)) && plan[2]
                is WakePipe,
            None => plan.len() == 2 && plan[0] is Fork && plan[1] is WakePipe,
        },
    ensures
        exists|i: int|
            0 <= i < plan.len() && (#[trigger] plan[i]) is ApplyUidmap && (forall|j: int|
                0 <= j < plan.len() && i != j ==> !((#[trigger] plan[j]) is ApplyUidmap))
                && (forall|k: int|
                0 <= k < plan.len() && (#[trigger] plan[k]) is WakePipe ==> i < k),
{
    assert(plan[1] is ApplyUidmap && (forall|j: int|
        0 <= j < plan.len() && 1 != j ==> !((#[trigger] plan[j]) is ApplyUidmap)) && (forall|
        k: int,
    |
        0 <= k < plan.len() && (#[trigger] plan[k]) is WakePipe ==> 1 < k));
}

} // verus!
