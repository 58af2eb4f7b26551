//! Scheduler: the policy of CPU multiplexing (who runs next).
//!
//! The timer interrupt provides the mechanism (preemption); this module
//! decides. The policy is round-robin over a ready queue.
use vstd::prelude::*;
use std::collections::VecDeque;
use crate::kernel::process::{
    made_current, pid_index, runnable, ProcessId, ProcessState, ProcessTable, Process,
};

verus! {

/// Default time slice in timer ticks.
pub const DEFAULT_TIME_SLICE: u32 = 10;

/// The scheduler's state: the ready queue and the ticks left in the current slice.
pub struct SchedulerState {
    ready_queue: VecDeque<ProcessId>,
    ticks_remaining: u32,
}

impl SchedulerState {
    /// Processes waiting to run, the next one first.
    pub closed spec fn queue(&self) -> Seq<ProcessId> {
        self.ready_queue@
    }

    /// Timer ticks left in the current time slice.
    pub closed spec fn ticks(&self) -> u32 {
        self.ticks_remaining
    }

    /// An empty ready queue and no time slice running.
    pub fn new() -> (r: SchedulerState)
        ensures
            r.queue() == Seq::<ProcessId>::empty(),
            r.ticks() == 0,
    {
        SchedulerState { ready_queue: VecDeque::new(), ticks_remaining: 0 }
    }
}

/// The process with ID `pid` (the first with it) exists and can run.
pub open spec fn pid_runnable(procs: Seq<Process>, pid: ProcessId) -> bool {
    pid_index(procs, pid) matches Some(i) && runnable(procs[i])
}

/// `j` is the first position of `q` whose process can run.
pub open spec fn is_first_runnable(procs: Seq<Process>, q: Seq<ProcessId>, j: int) -> bool {
    &&& 0 <= j < q.len()
    &&& pid_runnable(procs, q[j])
    &&& forall|k: int| 0 <= k < j ==> !pid_runnable(procs, #[trigger] q[k])
}

/// The ready queue after the current process (index `cur` of `procs`), if
/// runnable and not the kernel, has gone back to its end.
pub open spec fn requeued(procs: Seq<Process>, cur: Option<usize>, q: Seq<ProcessId>) -> Seq<ProcessId> {
    match cur {
        Some(c) => if runnable(procs[c as int]) && procs[c as int].pid.0 != 0 {
            q.push(procs[c as int].pid)
        } else {
            q
        },
        None => q,
    }
}

/// One scheduling decision, from the processes `procs0` (current `cur0`), the
/// ready queue `q0` and `ticks0` ticks left, to `procs1`, `cur1`, `q1`,
/// `ticks1`, choosing `r`: the current process, if it can still run and is not
/// the kernel, goes back to the end of the queue; the first process of the
/// queue that can run becomes the current, running one with a fresh time
/// slice, and those before it leave the queue. When none can, the queue
/// empties and nothing else changes.
pub open spec fn schedule_step(
    procs0: Seq<Process>,
    cur0: Option<usize>,
    q0: Seq<ProcessId>,
    ticks0: u32,
    procs1: Seq<Process>,
    cur1: Option<usize>,
    q1: Seq<ProcessId>,
    ticks1: u32,
    r: Option<ProcessId>,
) -> bool {
    let q = requeued(procs0, cur0, q0);
    match r {
        Some(pid) => exists|j: int|
            #[trigger] is_first_runnable(procs0, q, j) && q[j] == pid && q1 == q.skip(j + 1)
                && ticks1 == DEFAULT_TIME_SLICE && cur1 == Some(pid_index(procs0, pid).unwrap() as usize)
                && procs1 == made_current(procs0, cur0, pid_index(procs0, pid).unwrap()),
        None => (forall|k: int| 0 <= k < q.len() ==> !pid_runnable(procs0, #[trigger] q[k])) && q1
            == Seq::<ProcessId>::empty() && ticks1 == ticks0 && procs1 == procs0 && cur1 == cur0,
    }
}

/// `procs` after the process at `cur`, if any, takes `state`.
pub open spec fn with_current_state(procs: Seq<Process>, cur: Option<usize>, state: ProcessState) -> Seq<Process> {
    match cur {
        Some(c) => procs.update(c as int, Process { state, ..procs[c as int] }),
        None => procs,
    }
}

/// Adds a process to the end of the ready queue.
pub fn enqueue(s: &mut SchedulerState, pid: ProcessId)
    ensures
        final(s).queue() == old(s).queue().push(pid),
        final(s).ticks() == old(s).ticks(),
{
    s.ready_queue.push_back(pid);
}

/// Takes the next process from the ready queue.
pub fn dequeue(s: &mut SchedulerState) -> (r: Option<ProcessId>)
    ensures
        old(s).queue().len() == 0 ==> r is None && final(s).queue() == old(s).queue(),
        old(s).queue().len() > 0 ==> r == Some(old(s).queue()[0]) && final(s).queue()
            == old(s).queue().drop_first(),
        final(s).ticks() == old(s).ticks(),
{
    s.ready_queue.pop_front()
}

/// Schedules the next process (round-robin). The current process, if it can
/// still run and is not the kernel, goes back to the end of the queue; then
/// processes are taken off the front until one can run, which becomes the
/// current process with a fresh time slice. Gives `None` (with the queue
/// emptied) when none can.
pub fn schedule(s: &mut SchedulerState, t: &mut ProcessTable) -> (r: Option<ProcessId>)
    requires
        old(t).wf(),
    ensures
        final(t).wf(),
        final(t).next_id() == old(t).next_id(),
        schedule_step(
            old(t).procs(),
            old(t).current_index(),
            old(s).queue(),
            old(s).ticks(),
            final(t).procs(),
            final(t).current_index(),
            final(s).queue(),
            final(s).ticks(),
            r,
        ),
{
    let requeue = match t.current() {
        Some(current) => if current.is_runnable() && current.pid.0 != ProcessId::KERNEL_RAW {
            Some(current.pid)
        } else {
            None
        },
        None => None,
    };
    if let Some(pid) = requeue {
        enqueue(s, pid);
    }
    let ghost q = s.queue();
    assert(q == requeued(old(t).procs(), old(t).current_index(), old(s).queue()));
    let ghost mut k: int = 0;
    loop
        invariant
            t.wf(),
            *t == *old(t),
            q == requeued(old(t).procs(), old(t).current_index(), old(s).queue()),
            0 <= k <= q.len(),
            s.queue() == q.skip(k),
            s.ticks() == old(s).ticks(),
            forall|m: int| 0 <= m < k ==> !pid_runnable(old(t).procs(), #[trigger] q[m]),
        decreases q.len() - k,
    {
        let next = dequeue(s);
        match next {
            None => {
                assert(k == q.len());
                assert(s.queue() =~= Seq::<ProcessId>::empty());
                return None;
            },
            Some(next_pid) => {
                assert(q.skip(k)[0] == q[k]);
                assert(q.skip(k).drop_first() =~= q.skip(k + 1));
                let is_runnable = match t.get(next_pid) {
                    Some(p) => p.is_runnable(),
                    None => false,
                };
                if is_runnable {
                    t.set_current(next_pid);
                    s.ticks_remaining = DEFAULT_TIME_SLICE;
                    assert(is_first_runnable(old(t).procs(), q, k));
                    return Some(next_pid);
                }
                proof {
                    k = k + 1;
                }
            },
        }
    }
}

/// Starts scheduling a new process: it joins the ready queue and a fresh
/// time slice starts.
pub fn start_process(s: &mut SchedulerState, pid: ProcessId)
    ensures
        final(s).queue() == old(s).queue().push(pid),
        final(s).ticks() == DEFAULT_TIME_SLICE,
{
    enqueue(s, pid);
    s.ticks_remaining = DEFAULT_TIME_SLICE;
}

/// Yields the current process: schedules the next one.
pub fn yield_now(s: &mut SchedulerState, t: &mut ProcessTable)
    requires
        old(t).wf(),
    ensures
        final(t).wf(),
        final(t).next_id() == old(t).next_id(),
        exists|r: Option<ProcessId>|
            schedule_step(
                old(t).procs(),
                old(t).current_index(),
                old(s).queue(),
                old(s).ticks(),
                final(t).procs(),
                final(t).current_index(),
                final(s).queue(),
                final(s).ticks(),
                r,
            ),
{
    let r = schedule(s, t);
    assert(schedule_step(
        old(t).procs(), old(t).current_index(), old(s).queue(), old(s).ticks(),
        t.procs(), t.current_index(), s.queue(), s.ticks(), r,
    ));
}

/// A timer tick (the policy decision point): the time slice shrinks by one,
/// and when it runs out the scheduler runs. With no slice running (0 ticks)
/// nothing happens. Gives whether the scheduler ran.
pub fn timer_tick(s: &mut SchedulerState, t: &mut ProcessTable) -> (rescheduled: bool)
    requires
        old(t).wf(),
    ensures
        final(t).wf(),
        final(t).next_id() == old(t).next_id(),
        rescheduled == (old(s).ticks() == 1),
        rescheduled ==> exists|r: Option<ProcessId>|
            schedule_step(
                old(t).procs(),
                old(t).current_index(),
                old(s).queue(),
                0,
                final(t).procs(),
                final(t).current_index(),
                final(s).queue(),
                final(s).ticks(),
                r,
            ),
        old(s).ticks() == 0 ==> final(s).queue() == old(s).queue() && final(s).ticks() == 0 && *final(t)
            == *old(t),
        old(s).ticks() > 1 ==> final(s).queue() == old(s).queue() && final(s).ticks() == old(s).ticks()
            - 1 && *final(t) == *old(t),
{
    if s.ticks_remaining > 0 {
        s.ticks_remaining = s.ticks_remaining - 1;
        if s.ticks_remaining == 0 {
            let r = schedule(s, t);
            assert(schedule_step(
                old(t).procs(), old(t).current_index(), old(s).queue(), 0,
                t.procs(), t.current_index(), s.queue(), s.ticks(), r,
            ));
            return true;
        }
    }
    false
}

/// Blocks the current process (it takes `state`) and schedules another.
pub fn block_current(s: &mut SchedulerState, t: &mut ProcessTable, state: ProcessState)
    requires
        old(t).wf(),
    ensures
        final(t).wf(),
        final(t).next_id() == old(t).next_id(),
        exists|r: Option<ProcessId>|
            schedule_step(
                with_current_state(old(t).procs(), old(t).current_index(), state),
                old(t).current_index(),
                old(s).queue(),
                old(s).ticks(),
                final(t).procs(),
                final(t).current_index(),
                final(s).queue(),
                final(s).ticks(),
                r,
            ),
{
    t.set_current_state(state);
    assert(t.procs() == with_current_state(old(t).procs(), old(t).current_index(), state));
    let r = schedule(s, t);
    assert(schedule_step(
        with_current_state(old(t).procs(), old(t).current_index(), state),
        old(t).current_index(), old(s).queue(), old(s).ticks(),
        t.procs(), t.current_index(), s.queue(), s.ticks(), r,
    ));
}

/// `pid`'s process was blocked on IPC (sending or receiving).
pub open spec fn blocked_on_ipc(procs: Seq<Process>, pid: ProcessId) -> bool {
    pid_index(procs, pid) matches Some(i) && (procs[i].state == ProcessState::BlockedRecv
        || procs[i].state == ProcessState::BlockedSend)
}

/// Unblocking `pid` takes `procs0` and queue `q0` to `procs1` and `q1`: a
/// process blocked on IPC becomes ready and joins the end of the queue;
/// otherwise nothing changes.
pub open spec fn unblock_step(
    procs0: Seq<Process>,
    q0: Seq<ProcessId>,
    pid: ProcessId,
    procs1: Seq<Process>,
    q1: Seq<ProcessId>,
) -> bool {
    if blocked_on_ipc(procs0, pid) {
        let i = pid_index(procs0, pid).unwrap();
        q1 == q0.push(pid) && procs1 == procs0.update(i, Process { state: ProcessState::Ready, ..procs0[i] })
    } else {
        q1 == q0 && procs1 == procs0
    }
}

/// A process blocked on IPC becomes ready and joins the ready queue; other
/// processes are left as they are.
pub fn unblock(s: &mut SchedulerState, t: &mut ProcessTable, pid: ProcessId)
    requires
        old(t).wf(),
    ensures
        final(t).wf(),
        final(t).current_index() == old(t).current_index(),
        final(t).next_id() == old(t).next_id(),
        final(s).ticks() == old(s).ticks(),
        unblock_step(old(t).procs(), old(s).queue(), pid, final(t).procs(), final(s).queue()),
{
    let should_enqueue = t.unblock_pid(pid);
    if should_enqueue {
        enqueue(s, pid);
    }
}

} // verus!
