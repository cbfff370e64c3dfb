use vstd::prelude::*;

verus! {

/// How a supervised process group ended.
#[derive(Clone, Copy, Debug, PartialEq, Eq, Structural)]
pub enum MonitorResult {
    /// Every child was reaped; the code is the first failure, or 0.
    Exit(i32),
    /// The group was taken down by a signal.
    Killed,
}

/// What the monitor knows about one child.
#[derive(Clone, Copy, Debug, PartialEq, Eq, Structural)]
pub enum ChildState {
    Running,
    Exited(i32),
    Signaled,
}

/// One supervised child.
pub struct MonitorChild {
    pub name: String,
    pub state: ChildState,
}

/// What the monitor asks its caller to do after an event: the caller
/// performs signals and timers, the monitor only decides.
#[derive(Clone, Copy, Debug, PartialEq, Eq, Structural)]
pub enum MonitorAction {
    /// Send the signal to every live child.
    SignalAll(i32),
    /// Arm the grace timer; on expiry the caller reports `GraceExpired`.
    ScheduleKill,
}

/// What the caller observed.
#[derive(Clone, Copy, Debug, PartialEq, Eq, Structural)]
pub enum MonitorEvent {
    /// `waitpid` reaped the child at this index with this exit code.
    ChildExited(usize, i32),
    /// The child at this index was killed by a signal.
    ChildKilled(usize),
    /// The host delivered a terminating signal to the monitor itself.
    HostSignal(i32),
    /// The grace period after a shutdown request ran out.
    GraceExpired,
}

/// Supervisor for a named set of children under the stop-on-failure
/// policy: as soon as one child fails, the rest are told to stop,
/// first gently and, after a grace period, by force.
pub struct Monitor {
    pub children: Vec<MonitorChild>,
    /// A shutdown is under way.
    pub stopping: bool,
    /// Exit code of the first child that exited nonzero.
    pub first_failure: Option<i32>,
    /// The group was taken down by a signal from outside or by a
    /// signaled child.
    pub killed: bool,
}

pub const SIGTERM: i32 = 15;

pub const SIGKILL: i32 = 9;

impl Monitor {
    /// A monitor with no children yet.
    pub fn new() -> (r: Monitor)
        ensures
            r.children@.len() == 0,
            !r.stopping,
            r.first_failure is None,
            !r.killed,
    {
        Monitor { children: Vec::new(), stopping: false, first_failure: None, killed: false }
    }

    /// Register a child; it starts in the running state.
    pub fn add(&mut self, name: String)
        ensures
            final (self).children@.len() == old(self).children@.len() + 1,
            final (self).children@.last().name == name,
            final (self).children@.last().state is Running,
            forall|i: int|
                0 <= i < old(self).children@.len() ==> final (self).children@[i] == old(
                    self,
                ).children@[i],
            final (self).stopping == old(self).stopping,
            final (self).first_failure == old(self).first_failure,
            final (self).killed == old(self).killed,
    {
        self.children.push(MonitorChild { name, state: ChildState::Running });
    }

    /// Whether any child is still running.
    pub fn has_running(&self) -> (r: bool)
        ensures
            r == exists|i: int|
                0 <= i < self.children@.len() && (#[trigger] self.children@[i].state) is Running,
    {
        let mut i: usize = 0;
        while i < self.children.len()
            invariant
                i <= self.children@.len(),
                forall|j: int| 0 <= j < i ==> !((#[trigger] self.children@[j].state) is Running),
            decreases self.children@.len() - i,
        {
            if matches!(self.children[i].state, ChildState::Running) {
                return true;
            }
            i += 1;
        }
        false
    }

    /// Feed one observed event through the stop-on-failure policy and
    /// collect the signals to send.
    ///
    /// The first nonzero exit turns the monitor to stopping: every
    /// remaining child is signalled `SIGTERM` at once and `SIGKILL`
    /// after the grace period.  A child killed by a signal, or a
    /// terminating host signal, takes the group down the same way and
    /// marks the result as killed.
    pub fn step(&mut self, event: MonitorEvent) -> (actions: Vec<MonitorAction>)
        requires
            match event {
                MonitorEvent::ChildExited(i, _) => i < old(self).children@.len(),
                MonitorEvent::ChildKilled(i) => i < old(self).children@.len(),
                _ => true,
            },
        ensures
            match event {
                MonitorEvent::ChildExited(i, code) => {
                    &&& final (self).children@ == old(self).children@.update(
                        i as int,
                        MonitorChild {
                            name: old(self).children@[i as int].name,
                            state: ChildState::Exited(code),
                        },
                    )
                    &&& final (self).killed == old(self).killed
                    &&& (if code != 0 && !old(self).stopping {
                        &&& final (self).stopping
                        &&& final (self).first_failure == (if old(self).first_failure is None {
                            Some(code)
                        } else {
                            old(self).first_failure
                        })
                        &&& actions@ == seq![
                            MonitorAction::SignalAll(SIGTERM),
                            MonitorAction::ScheduleKill,
                        ]
                    } else {
                        &&& final (self).stopping == old(self).stopping
                        &&& final (self).first_failure == (if code != 0 && old(
                            self,
                        ).first_failure is None {
                            Some(code)
                        } else {
                            old(self).first_failure
                        })
                        &&& actions@.len() == 0
                    })
                },
                MonitorEvent::ChildKilled(i) => {
                    &&& final (self).children@ == old(self).children@.update(
                        i as int,
                        MonitorChild {
                            name: old(self).children@[i as int].name,
                            state: ChildState::Signaled,
                        },
                    )
                    // a child dying to the monitor's own shutdown signals
                    // is expected; only an unprovoked kill takes the
                    // group down
                    &&& final (self).killed == (old(self).killed || !old(self).stopping)
                    &&& final (self).first_failure == old(self).first_failure
                    &&& (if !old(self).stopping {
                        final (self).stopping && actions@ == seq![
                            MonitorAction::SignalAll(SIGTERM),
                            MonitorAction::ScheduleKill,
                        ]
                    } else {
                        final (self).stopping && actions@.len() == 0
                    })
                },
                MonitorEvent::HostSignal(sig) => {
                    &&& final (self).children@ == old(self).children@
                    &&& final (self).stopping
                    &&& final (self).killed
                    &&& final (self).first_failure == old(self).first_failure
                    &&& actions@ == seq![
                        MonitorAction::SignalAll(sig),
                        MonitorAction::ScheduleKill,
                    ]
                },
                MonitorEvent::GraceExpired => {
                    &&& final (self).children@ == old(self).children@
                    &&& final (self).stopping == old(self).stopping
                    &&& final (self).killed == old(self).killed
                    &&& final (self).first_failure == old(self).first_failure
                    &&& (if old(self).stopping {
                        actions@ == seq![MonitorAction::SignalAll(SIGKILL)]
                    } else {
                        actions@.len() == 0
                    })
                },
            },
    {
        let mut actions: Vec<MonitorAction> = Vec::new();
        match event {
            MonitorEvent::ChildExited(i, code) => {
                let name = self.children[i].name.clone();
                self.children.set(i, MonitorChild { name, state: ChildState::Exited(code) });
                if code != 0 {
                    if self.first_failure.is_none() {
                        self.first_failure = Some(code);
                    }
                    if !self.stopping {
                        self.stopping = true;
                        actions.push(MonitorAction::SignalAll(SIGTERM));
                        actions.push(MonitorAction::ScheduleKill);
                        proof {
                            assert(actions@ =~= seq![
                                MonitorAction::SignalAll(SIGTERM),
                                MonitorAction::ScheduleKill,
                            ]);
                        }
                    }
                }
            },
            MonitorEvent::ChildKilled(i) => {
                let name = self.children[i].name.clone();
                self.children.set(i, MonitorChild { name, state: ChildState::Signaled });
                if !self.stopping {
                    self.killed = true;
                    self.stopping = true;
                    actions.push(MonitorAction::SignalAll(SIGTERM));
                    actions.push(MonitorAction::ScheduleKill);
                    proof {
                        assert(actions@ =~= seq![
                            MonitorAction::SignalAll(SIGTERM),
                            MonitorAction::ScheduleKill,
                        ]);
                    }
                }
            },
            MonitorEvent::HostSignal(sig) => {
                self.stopping = true;
                self.killed = true;
                actions.push(MonitorAction::SignalAll(sig));
                actions.push(MonitorAction::ScheduleKill);
                proof {
                    assert(actions@ =~= seq![
                        MonitorAction::SignalAll(sig),
                        MonitorAction::ScheduleKill,
                    ]);
                }
            },
            MonitorEvent::GraceExpired => {
                if self.stopping {
                    actions.push(MonitorAction::SignalAll(SIGKILL));
                    proof {
                        assert(actions@ =~= seq![MonitorAction::SignalAll(SIGKILL)]);
                    }
                }
            },
        }
        actions
    }

    /// The group's result, once every child has been reaped: `Killed`
    /// when a signal took the group down, otherwise the first failing
    /// child's code, or 0.
    pub fn result(&self) -> (r: Option<MonitorResult>)
        ensures
            match r {
                None => exists|i: int|
                    0 <= i < self.children@.len() && (#[trigger] self.children@[i].state)
                        is Running,
                Some(res) => (forall|i: int|
                    0 <= i < self.children@.len() ==> !((#[trigger] self.children@[i].state)
                        is Running)) && res == (if self.killed {
                    MonitorResult::Killed
                } else {
                    match self.first_failure {
                        Some(code) => MonitorResult::Exit(code),
                        None => MonitorResult::Exit(0),
                    }
                }),
            },
    {
        if self.has_running() {
            return None;
        }
        if self.killed {
            return Some(MonitorResult::Killed);
        }
        match self.first_failure {
            Some(code) => Some(MonitorResult::Exit(code)),
            None => Some(MonitorResult::Exit(0)),
        }
    }
}

/// The process exit code a monitor result maps to: the child's own code
/// on a plain exit, 143 when the group was killed.
pub fn monitor_exit_code(r: &MonitorResult) -> (code: i32)
    ensures
        match r {
            MonitorResult::Exit(c) => code == c,
            MonitorResult::Killed => code == 143,
        },
{
    match r {
        MonitorResult::Exit(c) => *c,
        MonitorResult::Killed => 143,
    }
}

/// Law: stop on failure.  From a monitor that is not yet shutting down,
/// a nonzero child exit makes the policy signal every remaining child
/// `SIGTERM` immediately, arm the forced kill, and record that child's
/// code as the group's exit code.
pub proof fn lemma_stop_on_failure(
    pre: Monitor,
    post: Monitor,
    actions: Seq<MonitorAction>,
    i: usize,
    code: i32,
)
    requires
        !pre.stopping,
        pre.first_failure is None,
        code != 0,
        i < pre.children@.len(),
        // the relation `Monitor::step` establishes for this event
        post.children@ == pre.children@.update(
            i as int,
            MonitorChild { name: pre.children@[i as int].name, state: ChildState::Exited(code) },
        ),
        post.stopping,
        post.first_failure == Some(code),
        actions == seq![MonitorAction::SignalAll(SIGTERM), MonitorAction::ScheduleKill],
    ensures
        actions[0] == MonitorAction::SignalAll(SIGTERM),
        actions[1] == MonitorAction::ScheduleKill,
        !post.killed ==> (forall|r: MonitorResult|
            post.spec_result() == Some(r) ==> r == MonitorResult::Exit(code)),
{
}

/// Law: the first failure's code survives the shutdown.  A child that
/// dies to the `SIGTERM`/`SIGKILL` the stop-on-failure policy itself
/// sent does not turn the group's result to `Killed`: once a failure
/// started the shutdown, the group still reports that failure's code.
pub proof fn lemma_first_failure_code_survives(pre: Monitor, post: Monitor, i: usize, code: i32)
    requires
        pre.stopping,
        !pre.killed,
        pre.first_failure == Some(code),
        i < pre.children@.len(),
        // the relation `Monitor::step` establishes for a child killed
        // during the shutdown
        post.children@ == pre.children@.update(
            i as int,
            MonitorChild { name: pre.children@[i as int].name, state: ChildState::Signaled },
        ),
        post.killed == (pre.killed || !pre.stopping),
        post.first_failure == pre.first_failure,
    ensures
        !post.killed,
        forall|r: MonitorResult|
            post.spec_result() == Some(r) ==> r == MonitorResult::Exit(code),
{
}

impl Monitor {
    /// The result `Monitor::result` returns, as a predicate usable in
    /// laws.
    pub open spec fn spec_result(&self) -> Option<MonitorResult> {
        if exists|i: int|
            0 <= i < self.children@.len() && (#[trigger] self.children@[i].state) is Running {
            None
        } else if self.killed {
            Some(MonitorResult::Killed)
        } else {
            match self.first_failure {
                Some(code) => Some(MonitorResult::Exit(code)),
                None => Some(MonitorResult::Exit(0)),
            }
        }
    }
}

} // verus!
