//! A round-robin scheduler over tasks, with a ready queue of task positions.
//!
//! Choosing the next task is decided here; switching the CPU from one saved
//! context to the other is done by the caller, as `schedule` says.
use vstd::prelude::*;
use std::collections::VecDeque;
use crate::kernel::task::process::{Process, ProcessId, ProcessState};

verus! {

/// What a scheduling decision asks for.
#[derive(Debug, Clone, Copy, PartialEq, Eq, Structural)]
pub enum Switch {
    /// No task is ready: nothing changes.
    Idle,
    /// The current task goes on running.
    Same,
    /// Task `to` becomes current; when there was a current task `from`, the
    /// CPU switches from its context to `to`'s.
    To { from: Option<usize>, to: usize },
}

impl Switch {
    /// Whether a context switch occurred: another task became current and
    /// there was a current task to switch from.
    pub fn switched(&self) -> (r: bool)
        ensures
            r == (*self matches Switch::To { from: Some(_), .. }),
    {
        match self {
            Switch::To { from: Some(_), .. } => true,
            _ => false,
        }
    }
}

/// `t` with state `s`.
pub open spec fn with_state(t: Process, s: ProcessState) -> Process {
    Process { state: s, ..t }
}

/// One round-robin decision from tasks `t0`, queue `q0` and current task
/// `cur` to `t1`, `q1`, `cur1`, answering `r`: a running current task
/// becomes ready and goes to the end of the queue; then the first queued task
/// leaves the queue and becomes the running, current one (`Same` when it was
/// already current). With the queue empty nothing else changes (`Idle`).
pub open spec fn schedule_step(
    t0: Seq<Process>,
    q0: Seq<usize>,
    cur: Option<usize>,
    t1: Seq<Process>,
    q1: Seq<usize>,
    cur1: Option<usize>,
    r: Switch,
) -> bool {
    let requeue = cur matches Some(c) && t0[c as int].state == ProcessState::Running;
    let ta = if requeue {
        t0.update(cur.unwrap() as int, with_state(t0[cur.unwrap() as int], ProcessState::Ready))
    } else {
        t0
    };
    let qa = if requeue {
        q0.push(cur.unwrap())
    } else {
        q0
    };
    if qa.len() == 0 {
        r == Switch::Idle && t1 == ta && q1 == qa && cur1 == cur
    } else {
        let next = qa[0];
        &&& q1 == qa.drop_first()
        &&& t1 == ta.update(next as int, with_state(ta[next as int], ProcessState::Running))
        &&& cur1 == Some(next)
        &&& r == if cur == Some(next) {
            Switch::Same
        } else {
            Switch::To { from: cur, to: next }
        }
    }
}

/// A simple round-robin scheduler.
pub struct Scheduler {
    /// All tasks in the system
    processes: Vec<Process>,
    /// Positions of ready tasks
    ready_queue: VecDeque<usize>,
    /// Position of the running task
    current: Option<usize>,
}

impl Scheduler {
    /// The tasks, in the order they were added.
    pub closed spec fn tasks(&self) -> Seq<Process> {
        self.processes@
    }

    /// Positions of ready tasks, the next one first.
    pub closed spec fn queue(&self) -> Seq<usize> {
        self.ready_queue@
    }

    /// Position of the running task.
    pub closed spec fn current_index(&self) -> Option<usize> {
        self.current
    }

    /// Every position held designates a task.
    pub closed spec fn wf(&self) -> bool {
        &&& self.current matches Some(c) ==> c < self.processes@.len()
        &&& forall|k: int| 0 <= k < self.ready_queue@.len() ==> #[trigger] self.ready_queue@[k] < self.processes@.len()
    }

    /// No tasks.
    pub fn new() -> (r: Scheduler)
        ensures
            r.wf(),
            r.tasks() == Seq::<Process>::empty(),
            r.queue() == Seq::<usize>::empty(),
            r.current_index() is None,
    {
        Scheduler { processes: Vec::new(), ready_queue: VecDeque::new(), current: None }
    }

    /// Adds a task, ready, at the end of the ready queue; gives its ID.
    pub fn add_process(&mut self, process: Process) -> (r: ProcessId)
        requires
            old(self).wf(),
            old(self).tasks().len() < usize::MAX,
        ensures
            final(self).wf(),
            r == process.pid,
            final(self).tasks() == old(self).tasks().push(process),
            final(self).queue() == old(self).queue().push(old(self).tasks().len() as usize),
            final(self).current_index() == old(self).current_index(),
    {
        let pid = process.pid;
        let idx = self.processes.len();
        self.processes.push(process);
        self.ready_queue.push_back(idx);
        pid
    }

    /// The running task.
    pub fn current_process(&self) -> (r: Option<&Process>)
        requires
            self.wf(),
        ensures
            match self.current_index() {
                Some(c) => r == Some(&self.tasks()[c as int]),
                None => r is None,
            },
    {
        match self.current {
            Some(idx) => Some(&self.processes[idx]),
            None => None,
        }
    }

    /// Position of the first task with ID `pid`.
    fn position(&self, pid: ProcessId) -> (r: Option<usize>)
        ensures
            match r {
                Some(i) => i < self.tasks().len() && self.tasks()[i as int].pid == pid && forall|j: int|
                    0 <= j < i ==> (#[trigger] self.tasks()[j]).pid != pid,
                None => forall|j: int| 0 <= j < self.tasks().len() ==> (#[trigger] self.tasks()[j]).pid != pid,
            },
    {
        let mut i: usize = 0;
        while i < self.processes.len()
            invariant
                i <= self.tasks().len(),
                forall|j: int| 0 <= j < i ==> (#[trigger] self.tasks()[j]).pid != pid,
            decreases self.tasks().len() - i,
        {
            if self.processes[i].pid == pid {
                return Some(i);
            }
            i = i + 1;
        }
        None
    }

    /// The first task with ID `pid`.
    pub fn get_process(&self, pid: ProcessId) -> (r: Option<&Process>)
        ensures
            match r {
                Some(p) => exists|i: int|
                    0 <= i < self.tasks().len() && self.tasks()[i] == *p && p.pid == pid && forall|j: int|
                        0 <= j < i ==> (#[trigger] self.tasks()[j]).pid != pid,
                None => forall|j: int| 0 <= j < self.tasks().len() ==> (#[trigger] self.tasks()[j]).pid != pid,
            },
    {
        match self.position(pid) {
            Some(i) => Some(&self.processes[i]),
            None => None,
        }
    }

    /// Sets the state of the task at `i`.
    fn set_state(&mut self, i: usize, s: ProcessState)
        requires
            i < old(self).tasks().len(),
        ensures
            final(self).tasks() == old(self).tasks().update(i as int, with_state(old(self).tasks()[i as int], s)),
            final(self).queue() == old(self).queue(),
            final(self).current_index() == old(self).current_index(),
    {
        let mut t = self.processes.remove(i);
        t.state = s;
        self.processes.insert(i, t);
        assert(self.tasks() =~= old(self).tasks().update(i as int, with_state(old(self).tasks()[i as int], s)));
    }

    /// Schedules the next task (round robin): a running current task becomes
    /// ready and goes to the end of the queue; the first queued task becomes
    /// the running one.
    pub fn schedule(&mut self) -> (r: Switch)
        requires
            old(self).wf(),
        ensures
            final(self).wf(),
            schedule_step(
                old(self).tasks(),
                old(self).queue(),
                old(self).current_index(),
                final(self).tasks(),
                final(self).queue(),
                final(self).current_index(),
                r,
            ),
    {
        if let Some(current_idx) = self.current {
            if self.processes[current_idx].state == ProcessState::Running {
                self.set_state(current_idx, ProcessState::Ready);
                self.ready_queue.push_back(current_idx);
            }
        }
        let next_idx = match self.ready_queue.pop_front() {
            Some(idx) => idx,
            None => return Switch::Idle,
        };
        if self.current == Some(next_idx) {
            self.set_state(next_idx, ProcessState::Running);
            return Switch::Same;
        }
        let old_idx = self.current;
        self.current = Some(next_idx);
        self.set_state(next_idx, ProcessState::Running);
        Switch::To { from: old_idx, to: next_idx }
    }

    /// Yields the current task and schedules another.
    pub fn yield_current(&mut self) -> (r: Switch)
        requires
            old(self).wf(),
        ensures
            final(self).wf(),
            schedule_step(
                old(self).tasks(),
                old(self).queue(),
                old(self).current_index(),
                final(self).tasks(),
                final(self).queue(),
                final(self).current_index(),
                r,
            ),
    {
        self.schedule()
    }

    /// Blocks the current task, if any, and schedules another.
    pub fn block_current(&mut self) -> (r: Switch)
        requires
            old(self).wf(),
        ensures
            final(self).wf(),
            old(self).current_index() is None ==> r == Switch::Idle && final(self).tasks() == old(self).tasks()
                && final(self).queue() == old(self).queue() && final(self).current_index() is None,
            old(self).current_index() matches Some(c) ==> schedule_step(
                old(self).tasks().update(c as int, with_state(old(self).tasks()[c as int], ProcessState::Blocked)),
                old(self).queue(),
                old(self).current_index(),
                final(self).tasks(),
                final(self).queue(),
                final(self).current_index(),
                r,
            ),
    {
        match self.current {
            Some(current_idx) => {
                self.set_state(current_idx, ProcessState::Blocked);
                self.schedule()
            },
            None => Switch::Idle,
        }
    }

    /// Unblocks the first task with ID `pid`, if it is blocked: it becomes
    /// ready and joins the end of the queue.
    pub fn unblock(&mut self, pid: ProcessId)
        requires
            old(self).wf(),
        ensures
            final(self).wf(),
            final(self).current_index() == old(self).current_index(),
            ({
                let t0 = old(self).tasks();
                if exists|i: int|
                    0 <= i < t0.len() && t0[i].pid == pid && t0[i].state == ProcessState::Blocked && forall|j: int|
                        0 <= j < i ==> (#[trigger] t0[j]).pid != pid {
                    let i = choose|i: int|
                        0 <= i < t0.len() && t0[i].pid == pid && t0[i].state == ProcessState::Blocked && forall|j: int|
                            0 <= j < i ==> (#[trigger] t0[j]).pid != pid;
                    final(self).tasks() == t0.update(i, with_state(t0[i], ProcessState::Ready)) && final(self).queue()
                        == old(self).queue().push(i as usize)
                } else {
                    final(self).tasks() == t0 && final(self).queue() == old(self).queue()
                }
            }),
    {
        if let Some(idx) = self.position(pid) {
            if self.processes[idx].state == ProcessState::Blocked {
                self.set_state(idx, ProcessState::Ready);
                self.ready_queue.push_back(idx);
                proof {
                    let t0 = old(self).tasks();
                    let w = choose|i: int|
                        0 <= i < t0.len() && t0[i].pid == pid && t0[i].state == ProcessState::Blocked && forall|j: int|
                            0 <= j < i ==> (#[trigger] t0[j]).pid != pid;
                    if w < idx {
                        assert(t0[w].pid != pid);
                    } else if w > idx {
                        assert(t0[idx as int].pid != pid);
                    }
                }
                return;
            }
            proof {
                let t0 = old(self).tasks();
                assert forall|i: int|
                    !(0 <= i < t0.len() && t0[i].pid == pid && t0[i].state == ProcessState::Blocked && forall|j: int|
                        0 <= j < i ==> (#[trigger] t0[j]).pid != pid) by {
                    if 0 <= i < t0.len() && t0[i].pid == pid && i != idx {
                        if i < idx {
                            assert(t0[i].pid != pid);
                        } else {
                            assert(t0[idx as int].pid == pid);
                        }
                    }
                }
            }
        }
    }

    /// Terminates the current task, if any, and schedules another.
    pub fn terminate_current(&mut self) -> (r: Switch)
        requires
            old(self).wf(),
        ensures
            final(self).wf(),
            old(self).current_index() is None ==> r == Switch::Idle && final(self).tasks() == old(self).tasks()
                && final(self).queue() == old(self).queue(),
            old(self).current_index() matches Some(c) ==> schedule_step(
                old(self).tasks().update(c as int, with_state(old(self).tasks()[c as int], ProcessState::Terminated)),
                old(self).queue(),
                None,
                final(self).tasks(),
                final(self).queue(),
                final(self).current_index(),
                r,
            ),
    {
        match self.current {
            Some(current_idx) => {
                self.set_state(current_idx, ProcessState::Terminated);
                self.current = None;
                self.schedule()
            },
            None => Switch::Idle,
        }
    }

    /// Number of tasks.
    pub fn process_count(&self) -> (r: usize)
        ensures
            r == self.tasks().len(),
    {
        self.processes.len()
    }

    /// Number of ready tasks.
    pub fn ready_count(&self) -> (r: usize)
        ensures
            r == self.queue().len(),
    {
        self.ready_queue.len()
    }
}

/// A fresh scheduler for the system.
pub fn init() -> (r: Option<Scheduler>)
    ensures
        r matches Some(s) && s.wf() && s.tasks().len() == 0 && s.queue().len() == 0 && s.current_index() is None,
{
    Some(Scheduler::new())
}

/// Adds a task to the system's scheduler (which must exist).
pub fn spawn(scheduler: &mut Option<Scheduler>, process: Process) -> (r: ProcessId)
    requires
        *old(scheduler) matches Some(s) && s.wf() && s.tasks().len() < usize::MAX,
    ensures
        r == process.pid,
        *final(scheduler) matches Some(s) && s.wf(),
{
    match scheduler {
        Some(s) => s.add_process(process),
        None => process.pid,
    }
}

/// Yields the current task of the system's scheduler (which must exist):
/// one round-robin step (see `schedule_step`), whose decision is answered.
pub fn yield_now(scheduler: &mut Option<Scheduler>) -> (r: Switch)
    requires
        *old(scheduler) matches Some(s) && s.wf(),
    ensures
        *final(scheduler) matches Some(s) && s.wf(),
        schedule_step(
            old(scheduler)->Some_0.tasks(),
            old(scheduler)->Some_0.queue(),
            old(scheduler)->Some_0.current_index(),
            final(scheduler)->Some_0.tasks(),
            final(scheduler)->Some_0.queue(),
            final(scheduler)->Some_0.current_index(),
            r,
        ),
{
    match scheduler {
        Some(s) => s.yield_current(),
        None => Switch::Idle,
    }
}

/// A timer tick: when the system has a scheduler, one round-robin step
/// (see `schedule_step`), whose decision is answered; otherwise `Idle`.
pub fn tick(scheduler: &mut Option<Scheduler>) -> (r: Switch)
    requires
        *old(scheduler) matches Some(s) ==> s.wf(),
    ensures
        *old(scheduler) is None ==> r == Switch::Idle && *final(scheduler) is None,
        *final(scheduler) matches Some(s) ==> s.wf(),
        *old(scheduler) is Some ==> *final(scheduler) is Some && schedule_step(
            old(scheduler)->Some_0.tasks(),
            old(scheduler)->Some_0.queue(),
            old(scheduler)->Some_0.current_index(),
            final(scheduler)->Some_0.tasks(),
            final(scheduler)->Some_0.queue(),
            final(scheduler)->Some_0.current_index(),
            r,
        ),
{
    match scheduler {
        Some(s) => s.schedule(),
        None => Switch::Idle,
    }
}

} // verus!
