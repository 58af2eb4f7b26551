//! Process management.
//!
//! Processes in the exokernel are minimal: an address space, a capability
//! table and CPU state. All abstractions are in user space.
pub mod context;
pub mod scheduler;

use vstd::prelude::*;
use crate::kernel::caps::table::{count_live, CapabilityTable};
use crate::shared::caps::CapabilityHandle;
use crate::kernel::process::context::{Context, fresh_context};

verus! {

/// Process ID.
#[derive(Debug, Clone, Copy, PartialEq, Eq, Structural, Hash)]
pub struct ProcessId(pub u64);

/// The value that follows `n` on a counter that wraps at `u64::MAX`.
pub open spec fn wrapping_next(n: u64) -> u64 {
    if n == u64::MAX {
        0
    } else {
        (n + 1) as u64
    }
}

/// The counter after `k` IDs were taken from it, starting at `start`.
pub open spec fn counter_after(start: u64, k: nat) -> u64
    decreases k,
{
    if k == 0 {
        start
    } else {
        wrapping_next(counter_after(start, (k - 1) as nat))
    }
}

/// While it has not passed `u64::MAX`, the counter after `k` IDs is `start + k`.
proof fn lemma_counter_value(start: u64, k: nat)
    requires
        start + k <= u64::MAX,
    ensures
        counter_after(start, k) == start + k,
    decreases k,
{
    if k > 0 {
        lemma_counter_value(start, (k - 1) as nat);
    }
}

/// IDs taken one after another from a counter that starts at 1 or above (as
/// the process table's does) are never the kernel's, never repeat and
/// strictly increase, for as long as the counter has not passed `u64::MAX`:
/// the `i`-th ID taken is `start + i`.
pub proof fn lemma_ids_increase(start: u64, i: nat, j: nat)
    requires
        1 <= start,
        i < j,
        start + j <= u64::MAX,
    ensures
        counter_after(start, i) == start + i,
        counter_after(start, j) == start + j,
        counter_after(start, i) != 0,
        counter_after(start, i) < counter_after(start, j),
{
    lemma_counter_value(start, i);
    lemma_counter_value(start, j);
}

impl ProcessId {
    /// Raw value of the kernel's process ID.
    pub const KERNEL_RAW: u64 = 0;

    /// The kernel's process ID.
    pub fn kernel() -> (r: ProcessId)
        ensures
            r.0 == 0,
    {
        ProcessId(0)
    }

    /// Takes the next process ID from `next_pid` and advances it.
    pub fn new(next_pid: &mut u64) -> (r: ProcessId)
        ensures
            r.0 == *old(next_pid),
            *final(next_pid) == wrapping_next(*old(next_pid)),
    {
        let id = *next_pid;
        *next_pid = id.wrapping_add(1);
        ProcessId(id)
    }

    pub fn as_u64(&self) -> (r: u64)
        ensures
            r == self.0,
    {
        self.0
    }
}

/// Process state.
#[derive(Debug, Clone, Copy, PartialEq, Eq, Structural)]
pub enum ProcessState {
    /// Ready to run
    Ready,
    /// Currently running
    Running,
    /// Blocked on IPC receive
    BlockedRecv,
    /// Blocked on IPC send
    BlockedSend,
    /// Terminated
    Terminated,
}

/// Size of each process's kernel stack (16 KiB).
pub const KERNEL_STACK_SIZE: usize = 16384;

/// A kernel stack owned by a process.
pub struct KernelStack {
    bytes: Vec<u8>,
}

impl KernelStack {
    /// Its size in bytes.
    pub closed spec fn len(&self) -> nat {
        self.bytes@.len()
    }

    /// No stack (the kernel process needs none of its own).
    pub fn empty() -> (r: KernelStack)
        ensures
            r.len() == 0,
    {
        KernelStack { bytes: Vec::new() }
    }

    /// A zeroed stack of `KERNEL_STACK_SIZE` bytes.
    pub fn allocate() -> (r: KernelStack)
        ensures
            r.len() == KERNEL_STACK_SIZE,
    {
        KernelStack { bytes: vec![0u8; KERNEL_STACK_SIZE] }
    }
}

/// A process in the exokernel.
pub struct Process {
    /// Process ID
    pub pid: ProcessId,
    /// Process state
    pub state: ProcessState,
    /// CPU context
    pub context: Context,
    /// Kernel stack (for system-call handling)
    pub kernel_stack: KernelStack,
    /// Per-process capability table
    pub cap_table: CapabilityTable,
    /// Page table root (CR3)
    pub page_table_root: u64,
    /// Upcall handler address (for async events such as IRQs)
    pub upcall_handler: Option<u64>,
    /// Upcall stack address
    pub upcall_stack: Option<u64>,
    /// Address of the handler that unknown system calls are forwarded to
    pub syscall_handler: Option<u64>,
    /// Stack of that handler
    pub syscall_handler_stack: Option<u64>,
    /// Exit code (set on termination)
    pub exit_code: Option<i32>,
    /// Process name (for debugging)
    pub name: &'static str,
}

/// A process that can be scheduled.
pub open spec fn runnable(p: Process) -> bool {
    p.state == ProcessState::Ready || p.state == ProcessState::Running
}

impl Process {
    /// The kernel "process" (PID 0): running, no kernel stack of its own.
    pub fn kernel() -> (r: Process)
        ensures
            r.pid.0 == 0,
            r.state == ProcessState::Running,
            r.context == fresh_context(0, 0, 0x08, 0x10),
            r.kernel_stack.len() == 0,
            r.cap_table.owner_pid() == 0,
            r.cap_table.wf(),
            r.cap_table.entries() == seq![CapabilityHandle(0)],
            r.page_table_root == 0,
            r.upcall_handler is None,
            r.upcall_stack is None,
            r.syscall_handler is None,
            r.syscall_handler_stack is None,
            r.exit_code is None,
            r.name@ == "kernel"@,
    {
        Process {
            pid: ProcessId::kernel(),
            state: ProcessState::Running,
            context: Context::new(),
            kernel_stack: KernelStack::empty(),
            cap_table: CapabilityTable::new(0),
            page_table_root: 0,
            upcall_handler: None,
            upcall_stack: None,
            syscall_handler: None,
            syscall_handler_stack: None,
            exit_code: None,
            name: "kernel",
        }
    }

    /// A ready user process with a fresh ID from `next_pid` and a zeroed kernel stack.
    pub fn new_user(
        name: &'static str,
        entry_point: u64,
        user_stack: u64,
        page_table_root: u64,
        next_pid: &mut u64,
    ) -> (r: Process)
        ensures
            r.pid.0 == *old(next_pid),
            *final(next_pid) == wrapping_next(*old(next_pid)),
            r.state == ProcessState::Ready,
            r.context == fresh_context(entry_point, user_stack, 0x23, 0x1b),
            r.kernel_stack.len() == KERNEL_STACK_SIZE,
            r.cap_table.owner_pid() == r.pid.0,
            r.cap_table.wf(),
            r.cap_table.entries() == seq![CapabilityHandle(0)],
            r.page_table_root == page_table_root,
            r.upcall_handler is None,
            r.upcall_stack is None,
            r.syscall_handler is None,
            r.syscall_handler_stack is None,
            r.exit_code is None,
            r.name == name,
    {
        let pid = ProcessId::new(next_pid);
        let kernel_stack = KernelStack::allocate();
        let context = Context::new_user(entry_point, user_stack);
        Process {
            pid,
            state: ProcessState::Ready,
            context,
            kernel_stack,
            cap_table: CapabilityTable::new(pid.0),
            page_table_root,
            upcall_handler: None,
            upcall_stack: None,
            syscall_handler: None,
            syscall_handler_stack: None,
            exit_code: None,
            name,
        }
    }

    /// Terminates the process with an exit code.
    pub fn terminate(&mut self, exit_code: i32)
        ensures
            *final(self) == (Process {
                state: ProcessState::Terminated,
                exit_code: Some(exit_code),
                ..*old(self)
            }),
    {
        self.state = ProcessState::Terminated;
        self.exit_code = Some(exit_code);
    }

    /// Whether the process can run.
    pub fn is_runnable(&self) -> (r: bool)
        ensures
            r == runnable(*self),
    {
        match self.state {
            ProcessState::Ready | ProcessState::Running => true,
            _ => false,
        }
    }
}

/// `procs` after the current process, if running, becomes ready.
pub open spec fn demoted_current(procs: Seq<Process>, current: Option<usize>) -> Seq<Process> {
    match current {
        Some(c) => if procs[c as int].state == ProcessState::Running {
            procs.update(c as int, Process { state: ProcessState::Ready, ..procs[c as int] })
        } else {
            procs
        },
        None => procs,
    }
}

/// `procs` after process `i` becomes the running, current one.
pub open spec fn made_current(procs: Seq<Process>, current: Option<usize>, i: int) -> Seq<Process> {
    let demoted = demoted_current(procs, current);
    demoted.update(i, Process { state: ProcessState::Running, ..demoted[i] })
}

/// No process but the current one, if any, is running.
pub open spec fn running_only_current(procs: Seq<Process>, current: Option<usize>) -> bool {
    forall|i: int|
        0 <= i < procs.len() && (#[trigger] procs[i]).state == ProcessState::Running ==> (current
            matches Some(c) && c == i)
}

/// Keeps the processes that have not terminated.
pub open spec fn not_terminated() -> spec_fn(Process) -> bool {
    |p: Process| p.state != ProcessState::Terminated
}

/// `i` is the first index of `procs` whose process has ID `pid`.
pub open spec fn is_first_with_pid(procs: Seq<Process>, pid: ProcessId, i: int) -> bool {
    &&& 0 <= i < procs.len()
    &&& procs[i].pid == pid
    &&& forall|j: int| 0 <= j < i ==> (#[trigger] procs[j]).pid != pid
}

/// The first index of `procs` whose process has ID `pid`, if any.
pub open spec fn pid_index(procs: Seq<Process>, pid: ProcessId) -> Option<int> {
    if exists|i: int| is_first_with_pid(procs, pid, i) {
        Some(choose|i: int| is_first_with_pid(procs, pid, i))
    } else {
        None
    }
}

proof fn lemma_first_unique(procs: Seq<Process>, pid: ProcessId, i: int)
    requires
        is_first_with_pid(procs, pid, i),
    ensures
        pid_index(procs, pid) == Some(i),
{
    let k = choose|k: int| is_first_with_pid(procs, pid, k);
    if k < i {
        assert(procs[k].pid != pid);
    } else if i < k {
        assert(procs[i].pid != pid);
    }
}

proof fn lemma_no_pid(procs: Seq<Process>, pid: ProcessId)
    requires
        forall|j: int| 0 <= j < procs.len() ==> (#[trigger] procs[j]).pid != pid,
    ensures
        pid_index(procs, pid) is None,
{
}

/// `after` is `before` with a new empty process appended: ID `pid`, ready,
/// empty context, zeroed kernel stack, its own capability table holding no capability,
/// the kernel page table, no handlers, named `name`.
pub open spec fn created(before: Seq<Process>, after: Seq<Process>, pid: u64, name: &'static str) -> bool {
    &&& after.len() == before.len() + 1
    &&& after.take(before.len() as int) == before
    &&& after.last().pid.0 == pid
    &&& after.last().state == ProcessState::Ready
    &&& after.last().context == fresh_context(0, 0, 0x08, 0x10)
    &&& after.last().kernel_stack.len() == KERNEL_STACK_SIZE
    &&& after.last().cap_table.owner_pid() == pid
    &&& after.last().cap_table.wf()
    &&& after.last().cap_table.entries() == seq![CapabilityHandle(0)]
    &&& count_live(after.last().cap_table.entries()) == 0
    &&& after.last().page_table_root == 0
    &&& after.last().upcall_handler is None
    &&& after.last().upcall_stack is None
    &&& after.last().syscall_handler is None
    &&& after.last().syscall_handler_stack is None
    &&& after.last().exit_code is None
    &&& after.last().name == name
}

/// `procs` after the first process with ID `pid`, if any, gets entry point
/// `entry_point` and stack `stack_top`, each only where nonzero.
pub open spec fn initial_context_set(procs: Seq<Process>, pid: ProcessId, entry_point: u64, stack_top: u64) -> Seq<Process> {
    match pid_index(procs, pid) {
        Some(i) => {
            let p = procs[i];
            let ctx = Context {
                rip: if entry_point != 0 { entry_point } else { p.context.rip },
                rsp: if stack_top != 0 { stack_top } else { p.context.rsp },
                ..p.context
            };
            procs.update(i, Process { context: ctx, ..p })
        },
        None => procs,
    }
}

/// The process table.
pub struct ProcessTable {
    processes: Vec<Process>,
    current: Option<usize>,
    /// The ID that the next process created gets
    next_pid: u64,
}

impl ProcessTable {
    /// The processes, in the order they were added.
    pub closed spec fn procs(&self) -> Seq<Process> {
        self.processes@
    }

    /// Index of the current process, if any.
    pub closed spec fn current_index(&self) -> Option<usize> {
        self.current
    }

    /// The ID the next created process gets.
    pub closed spec fn next_id(&self) -> u64 {
        self.next_pid
    }

    /// The current index, if any, designates a process.
    pub closed spec fn wf(&self) -> bool {
        self.current matches Some(i) ==> i < self.processes@.len()
    }

    /// Every process in the table has an ID below the next one handed out,
    /// which is not the kernel's: the next process created gets an ID that
    /// no process in the table has.
    pub open spec fn ids_fresh(&self) -> bool {
        &&& 1 <= self.next_id()
        &&& forall|i: int| 0 <= i < self.procs().len() ==> (#[trigger] self.procs()[i]).pid.0 < self.next_id()
    }

    /// What a well-formed table guarantees: the current index, if any,
    /// designates a process.
    pub proof fn lemma_wf_current(&self)
        requires
            self.wf(),
        ensures
            self.current_index() matches Some(i) ==> (i as int) < self.procs().len(),
    {
    }

    /// The current process, if any.
    pub open spec fn current_proc(&self) -> Option<Process> {
        match self.current_index() {
            Some(i) => Some(self.procs()[i as int]),
            None => None,
        }
    }

    /// An empty table; process IDs start at 1.
    pub fn new() -> (r: ProcessTable)
        ensures
            r.wf(),
            r.procs() == Seq::<Process>::empty(),
            r.current_index() is None,
            r.next_id() == 1,
            r.ids_fresh(),
    {
        ProcessTable { processes: Vec::new(), current: None, next_pid: 1 }
    }

    /// Adds a process and gives its ID.
    pub fn add(&mut self, process: Process) -> (r: ProcessId)
        requires
            old(self).wf(),
        ensures
            final(self).wf(),
            r == process.pid,
            final(self).procs() == old(self).procs().push(process),
            final(self).current_index() == old(self).current_index(),
            final(self).next_id() == old(self).next_id(),
            old(self).ids_fresh() && process.pid.0 < old(self).next_id() ==> final(self).ids_fresh(),
    {
        let pid = process.pid;
        self.processes.push(process);
        pid
    }

    /// The current process.
    pub fn current(&self) -> (r: Option<&Process>)
        requires
            self.wf(),
        ensures
            match r {
                Some(p) => self.current_proc() == Some(*p),
                None => self.current_proc() is None,
            },
    {
        match self.current {
            Some(idx) => Some(&self.processes[idx]),
            None => None,
        }
    }

    /// The index of the first process with ID `pid`.
    pub fn position(&self, pid: ProcessId) -> (r: Option<usize>)
        ensures
            match r {
                Some(i) => pid_index(self.procs(), pid) == Some(i as int),
                None => pid_index(self.procs(), pid) is None,
            },
    {
        let mut i: usize = 0;
        while i < self.processes.len()
            invariant
                i <= self.procs().len(),
                forall|j: int| 0 <= j < i ==> (#[trigger] self.procs()[j]).pid != pid,
            decreases self.procs().len() - i,
        {
            if self.processes[i].pid == pid {
                proof {
                    lemma_first_unique(self.procs(), pid, i as int);
                }
                return Some(i);
            }
            i = i + 1;
        }
        proof {
            lemma_no_pid(self.procs(), pid);
        }
        None
    }

    /// The first process with ID `pid`.
    pub fn get(&self, pid: ProcessId) -> (r: Option<&Process>)
        ensures
            match r {
                Some(p) => pid_index(self.procs(), pid) is Some && *p == self.procs()[pid_index(
                    self.procs(),
                    pid,
                ).unwrap()],
                None => pid_index(self.procs(), pid) is None,
            },
    {
        match self.position(pid) {
            Some(i) => Some(&self.processes[i]),
            None => None,
        }
    }

    /// Replaces the process at `idx` by applying `f` to it.
    fn take_at(&mut self, idx: usize) -> (r: Process)
        requires
            idx < old(self).procs().len(),
        ensures
            r == old(self).procs()[idx as int],
            final(self).procs() == old(self).procs().remove(idx as int),
            final(self).current == old(self).current,
            final(self).next_pid == old(self).next_pid,
    {
        self.processes.remove(idx)
    }

    fn put_at(&mut self, idx: usize, p: Process)
        requires
            idx <= old(self).procs().len(),
        ensures
            final(self).procs() == old(self).procs().insert(idx as int, p),
            final(self).current == old(self).current,
            final(self).next_pid == old(self).next_pid,
    {
        self.processes.insert(idx, p);
    }

    /// Makes the first process with ID `pid` current (running); the previous
    /// current process, if it was running, becomes ready.
    pub fn set_current(&mut self, pid: ProcessId) -> (r: bool)
        requires
            old(self).wf(),
        ensures
            final(self).wf(),
            final(self).next_id() == old(self).next_id(),
            old(self).ids_fresh() ==> final(self).ids_fresh(),
            r == pid_index(old(self).procs(), pid) is Some,
            !r ==> final(self).procs() == old(self).procs() && final(self).current_index() == old(self).current_index(),
            r ==> final(self).current_index() == Some(pid_index(old(self).procs(), pid).unwrap() as usize)
                && final(self).procs() == made_current(
                old(self).procs(),
                old(self).current_index(),
                pid_index(old(self).procs(), pid).unwrap(),
            ),
            r && running_only_current(old(self).procs(), old(self).current_index()) ==> running_only_current(
                final(self).procs(),
                final(self).current_index(),
            ),
    {
        let idx = match self.position(pid) {
            Some(i) => i,
            None => return false,
        };
        let ghost demoted = demoted_current(old(self).procs(), old(self).current_index());
        if let Some(old_idx) = self.current {
            if self.processes[old_idx].state == ProcessState::Running {
                let mut p = self.take_at(old_idx);
                p.state = ProcessState::Ready;
                self.put_at(old_idx, p);
                assert(self.procs() =~= demoted);
            } else {
                assert(self.procs() =~= demoted);
            }
        } else {
            assert(self.procs() =~= demoted);
        }
        let mut p = self.take_at(idx);
        p.state = ProcessState::Running;
        self.put_at(idx, p);
        self.current = Some(idx);
        assert(self.procs() =~= demoted.update(idx as int, Process { state: ProcessState::Running, ..demoted[idx as int] }));
        proof {
            let before = old(self).procs();
            let after = self.procs();
            if running_only_current(before, old(self).current_index()) {
                assert forall|j: int|
                    0 <= j < after.len() && (#[trigger] after[j]).state == ProcessState::Running implies (self.current
                    matches Some(c) && c == j) by {
                    if j != idx as int {
                        assert(after[j] == demoted[j]);
                        match old(self).current_index() {
                            Some(c) => {
                                if before[c as int].state == ProcessState::Running {
                                    assert(demoted == before.update(c as int, Process { state: ProcessState::Ready, ..before[c as int] }));
                                } else {
                                    assert(demoted == before);
                                }
                                if j != c {
                                    assert(demoted[j] == before[j]);
                                }
                            },
                            None => {
                                assert(demoted == before);
                            },
                        }
                    }
                }
            }
        }
        true
    }

    /// The current process's ID.
    pub fn current_pid(&self) -> (r: Option<ProcessId>)
        requires
            self.wf(),
        ensures
            r == match self.current_proc() {
                Some(p) => Some(p.pid),
                None => None::<ProcessId>,
            },
    {
        match self.current() {
            Some(p) => Some(p.pid),
            None => None,
        }
    }

    /// Removes terminated processes (keeping the others in order) and clears
    /// the current process.
    pub fn cleanup(&mut self)
        requires
            old(self).wf(),
        ensures
            final(self).wf(),
            final(self).procs() == old(self).procs().filter(not_terminated()),
            final(self).current_index() is None,
            final(self).next_id() == old(self).next_id(),
            old(self).ids_fresh() ==> final(self).ids_fresh(),
    {
        let mut rest: Vec<Process> = Vec::new();
        core::mem::swap(&mut rest, &mut self.processes);
        let n0 = rest.len();
        let ghost all = rest@;
        let mut kept: Vec<Process> = Vec::new();
        let mut i: usize = 0;
        while rest.len() > 0
            invariant
                i + rest@.len() == all.len(),
                all.len() <= usize::MAX,
                rest@ == all.skip(i as int),
                kept@ == all.take(i as int).filter(not_terminated()),
            decreases rest@.len(),
        {
            let ghost prev = kept@;
            let p = rest.remove(0);
            proof {
                assert(p == all[i as int]);
                assert(all.take(i + 1).drop_last() =~= all.take(i as int));
                assert(all.take(i + 1).last() == p);
            }
            if p.state != ProcessState::Terminated {
                kept.push(p);
            }
            proof {
                assert(rest@ =~= all.skip(i + 1));
                let f = not_terminated();
                reveal_with_fuel(Seq::<_>::filter, 2);
                assert(all.take(i + 1).filter(f) == if f(p) { all.take(i as int).filter(f).push(p) } else { all.take(i as int).filter(f) });
            }
            i = i + 1;
        }
        proof {
            assert(all.take(i as int) =~= all);
            let kept_all = all.filter(not_terminated());
            assert forall|k: int| 0 <= k < kept_all.len() implies (#[trigger] kept_all[k]).pid.0
                < old(self).next_id() || !old(self).ids_fresh() by {
                if old(self).ids_fresh() {
                    assert(kept_all.contains(kept_all[k]));
                    all.lemma_filter_contains_rev(not_terminated(), kept_all[k]);
                    let m = choose|m: int| 0 <= m < all.len() && all[m] == kept_all[k];
                    assert(old(self).procs()[m] == all[m]);
                }
            }
        }
        self.processes = kept;
        self.current = None;
    }

    /// Creates an empty process (ready, empty context, zeroed kernel stack,
    /// kernel page table) with the next process ID.
    pub fn create_process(&mut self, name: &'static str) -> (r: Option<ProcessId>)
        requires
            old(self).wf(),
        ensures
            final(self).wf(),
            r == Some(ProcessId(old(self).next_id())),
            final(self).next_id() == wrapping_next(old(self).next_id()),
            final(self).current_index() == old(self).current_index(),
            final(self).procs().len() == old(self).procs().len() + 1,
            final(self).procs().take(old(self).procs().len() as int) == old(self).procs(),
            created(old(self).procs(), final(self).procs(), old(self).next_id(), name),
            old(self).ids_fresh() ==> old(self).next_id() != 0 && forall|i: int|
                0 <= i < old(self).procs().len() ==> (#[trigger] old(self).procs()[i]).pid.0 != old(self).next_id(),
            old(self).ids_fresh() && old(self).next_id() < u64::MAX ==> final(self).ids_fresh(),
    {
        let page_table_root: u64 = 0;
        let pid = ProcessId::new(&mut self.next_pid);
        let kernel_stack = KernelStack::allocate();
        let process = Process {
            pid,
            state: ProcessState::Ready,
            context: Context::new(),
            kernel_stack,
            cap_table: CapabilityTable::new(pid.0),
            page_table_root,
            upcall_handler: None,
            upcall_stack: None,
            syscall_handler: None,
            syscall_handler_stack: None,
            exit_code: None,
            name,
        };
        self.processes.push(process);
        assert(self.procs().take(old(self).procs().len() as int) =~= old(self).procs());
        assert(count_live(seq![CapabilityHandle(0)]) == 0) by {
            let one = seq![CapabilityHandle(0)];
            assert(one.drop_last() =~= Seq::<CapabilityHandle>::empty());
            assert(count_live(Seq::<CapabilityHandle>::empty()) == 0);
            assert(one.last().0 == 0);
            reveal_with_fuel(count_live, 2);
        }
        Some(pid)
    }

    /// The current process's state becomes `state`.
    pub fn set_current_state(&mut self, state: ProcessState)
        requires
            old(self).wf(),
        ensures
            final(self).wf(),
            final(self).current_index() == old(self).current_index(),
            final(self).next_id() == old(self).next_id(),
            old(self).ids_fresh() ==> final(self).ids_fresh(),
            final(self).procs() == match old(self).current_index() {
                Some(c) => old(self).procs().update(c as int, Process { state, ..old(self).procs()[c as int] }),
                None => old(self).procs(),
            },
    {
        if let Some(c) = self.current {
            let mut p = self.take_at(c);
            p.state = state;
            self.put_at(c, p);
            assert(self.procs() =~= old(self).procs().update(c as int, Process { state, ..old(self).procs()[c as int] }));
        }
    }

    /// A process blocked on IPC becomes ready; gives whether it was blocked.
    pub fn unblock_pid(&mut self, pid: ProcessId) -> (r: bool)
        requires
            old(self).wf(),
        ensures
            final(self).wf(),
            final(self).current_index() == old(self).current_index(),
            final(self).next_id() == old(self).next_id(),
            old(self).ids_fresh() ==> final(self).ids_fresh(),
            r == (pid_index(old(self).procs(), pid) matches Some(i) && (old(self).procs()[i].state
                == ProcessState::BlockedRecv || old(self).procs()[i].state == ProcessState::BlockedSend)),
            r ==> final(self).procs() == old(self).procs().update(
                pid_index(old(self).procs(), pid).unwrap(),
                Process { state: ProcessState::Ready, ..old(self).procs()[pid_index(old(self).procs(), pid).unwrap()] },
            ),
            !r ==> final(self).procs() == old(self).procs(),
    {
        let i = match self.position(pid) {
            Some(i) => i,
            None => return false,
        };
        match self.processes[i].state {
            ProcessState::BlockedRecv | ProcessState::BlockedSend => {},
            _ => return false,
        }
        let mut p = self.take_at(i);
        p.state = ProcessState::Ready;
        self.put_at(i, p);
        assert(self.procs() =~= old(self).procs().update(i as int, Process { state: ProcessState::Ready, ..old(self).procs()[i as int] }));
        true
    }

    /// Sets the entry point and stack of a created process, each only where
    /// nonzero; nothing happens when no process has ID `pid`.
    pub fn set_initial_context(&mut self, pid: ProcessId, entry_point: u64, stack_top: u64)
        requires
            old(self).wf(),
        ensures
            final(self).wf(),
            final(self).current_index() == old(self).current_index(),
            final(self).next_id() == old(self).next_id(),
            old(self).ids_fresh() ==> final(self).ids_fresh(),
            final(self).procs() == initial_context_set(old(self).procs(), pid, entry_point, stack_top),
    {
        let i = match self.position(pid) {
            Some(i) => i,
            None => return,
        };
        let mut p = self.take_at(i);
        if entry_point != 0 {
            p.context.rip = entry_point;
        }
        if stack_top != 0 {
            p.context.rsp = stack_top;
        }
        self.put_at(i, p);
        assert(self.procs() =~= old(self).procs().update(i as int, self.procs()[i as int]));
    }

    /// Prepares a process to start in user mode at `entry_point` with stack
    /// `stack_top` and marks it ready; gives whether the process exists.
    pub fn prepare_start(&mut self, pid: ProcessId, entry_point: u64, stack_top: u64) -> (r: bool)
        requires
            old(self).wf(),
        ensures
            final(self).wf(),
            final(self).current_index() == old(self).current_index(),
            final(self).next_id() == old(self).next_id(),
            old(self).ids_fresh() ==> final(self).ids_fresh(),
            !r ==> *final(self) == *old(self),
            r == pid_index(old(self).procs(), pid) is Some,
            final(self).procs() == match pid_index(old(self).procs(), pid) {
                Some(i) => {
                    let p = old(self).procs()[i];
                    let ctx = Context { rip: entry_point, rsp: stack_top, rflags: 0x202, cs: 0x23, ss: 0x1b, ..p.context };
                    old(self).procs().update(i, Process { context: ctx, state: ProcessState::Ready, ..p })
                },
                None => old(self).procs(),
            },
    {
        let i = match self.position(pid) {
            Some(i) => i,
            None => return false,
        };
        let mut p = self.take_at(i);
        p.context.rip = entry_point;
        p.context.rsp = stack_top;
        p.context.rflags = 0x202;
        p.context.cs = 0x23;
        p.context.ss = 0x1b;
        p.state = ProcessState::Ready;
        self.put_at(i, p);
        assert(self.procs() =~= old(self).procs().update(i as int, self.procs()[i as int]));
        true
    }

    /// Terminates the first process with ID `pid`, if any.
    pub fn terminate_pid(&mut self, pid: ProcessId, exit_code: i32)
        requires
            old(self).wf(),
        ensures
            final(self).wf(),
            final(self).current_index() == old(self).current_index(),
            final(self).next_id() == old(self).next_id(),
            old(self).ids_fresh() ==> final(self).ids_fresh(),
            final(self).procs() == match pid_index(old(self).procs(), pid) {
                Some(i) => old(self).procs().update(i, Process {
                    state: ProcessState::Terminated,
                    exit_code: Some(exit_code),
                    ..old(self).procs()[i]
                }),
                None => old(self).procs(),
            },
    {
        let i = match self.position(pid) {
            Some(i) => i,
            None => return,
        };
        let mut p = self.take_at(i);
        p.terminate(exit_code);
        self.put_at(i, p);
        assert(self.procs() =~= old(self).procs().update(i as int, self.procs()[i as int]));
    }

    /// Records the upcall handler and its stack for `pid`; gives whether the process exists.
    pub fn set_upcall(&mut self, pid: ProcessId, handler: u64, stack: u64) -> (r: bool)
        requires
            old(self).wf(),
        ensures
            final(self).wf(),
            final(self).current_index() == old(self).current_index(),
            final(self).next_id() == old(self).next_id(),
            old(self).ids_fresh() ==> final(self).ids_fresh(),
            r == pid_index(old(self).procs(), pid) is Some,
            final(self).procs() == match pid_index(old(self).procs(), pid) {
                Some(i) => old(self).procs().update(i, Process {
                    upcall_handler: Some(handler),
                    upcall_stack: Some(stack),
                    ..old(self).procs()[i]
                }),
                None => old(self).procs(),
            },
    {
        let i = match self.position(pid) {
            Some(i) => i,
            None => return false,
        };
        let mut p = self.take_at(i);
        p.upcall_handler = Some(handler);
        p.upcall_stack = Some(stack);
        self.put_at(i, p);
        assert(self.procs() =~= old(self).procs().update(i as int, self.procs()[i as int]));
        true
    }

    /// Records the handler that unknown system calls of `pid` are forwarded
    /// to, and its stack; gives whether the process exists.
    pub fn set_syscall_handler(&mut self, pid: ProcessId, handler: u64, stack: u64) -> (r: bool)
        requires
            old(self).wf(),
        ensures
            final(self).wf(),
            final(self).current_index() == old(self).current_index(),
            final(self).next_id() == old(self).next_id(),
            old(self).ids_fresh() ==> final(self).ids_fresh(),
            r == pid_index(old(self).procs(), pid) is Some,
            final(self).procs() == match pid_index(old(self).procs(), pid) {
                Some(i) => old(self).procs().update(i, Process {
                    syscall_handler: Some(handler),
                    syscall_handler_stack: Some(stack),
                    ..old(self).procs()[i]
                }),
                None => old(self).procs(),
            },
    {
        let i = match self.position(pid) {
            Some(i) => i,
            None => return false,
        };
        let mut p = self.take_at(i);
        p.syscall_handler = Some(handler);
        p.syscall_handler_stack = Some(stack);
        self.put_at(i, p);
        assert(self.procs() =~= old(self).procs().update(i as int, self.procs()[i as int]));
        true
    }
}

/// The process table at boot: the kernel process (PID 0), current and running.
pub fn init() -> (r: ProcessTable)
    ensures
        r.wf(),
        r.procs().len() == 1,
        r.procs()[0].pid.0 == 0,
        r.procs()[0].state == ProcessState::Running,
        r.current_index() == Some(0usize),
        r.next_id() == 1,
        r.ids_fresh(),
        running_only_current(r.procs(), r.current_index()),
{
    let mut table = ProcessTable::new();
    table.add(Process::kernel());
    let ok = table.set_current(ProcessId::kernel());
    proof {
        lemma_first_unique(table.procs(), ProcessId(0), 0);
    }
    table
}

/// The current process's ID; the kernel's when there is no current process.
pub fn current_pid(table: &ProcessTable) -> (r: ProcessId)
    requires
        table.wf(),
    ensures
        r == match table.current_proc() {
            Some(p) => p.pid,
            None => ProcessId(0),
        },
{
    match table.current_pid() {
        Some(p) => p,
        None => ProcessId::kernel(),
    }
}

/// Adds a new ready user process to the table, with the next ID of the
/// table's own counter, and gives its ID.
pub fn spawn(
    table: &mut ProcessTable,
    name: &'static str,
    entry_point: u64,
    user_stack: u64,
    page_table_root: u64,
) -> (r: ProcessId)
    requires
        old(table).wf(),
    ensures
        final(table).wf(),
        r.0 == old(table).next_id(),
        final(table).next_id() == wrapping_next(old(table).next_id()),
        final(table).procs().len() == old(table).procs().len() + 1,
        final(table).procs().take(old(table).procs().len() as int) == old(table).procs(),
        final(table).procs().last().pid == r,
        final(table).procs().last().state == ProcessState::Ready,
        final(table).procs().last().context == fresh_context(entry_point, user_stack, 0x23, 0x1b),
        final(table).procs().last().page_table_root == page_table_root,
        final(table).procs().last().name == name,
        final(table).procs().last().cap_table.entries() == seq![CapabilityHandle(0)],
        final(table).current_index() == old(table).current_index(),
        old(table).ids_fresh() ==> r.0 != 0 && forall|i: int|
            0 <= i < old(table).procs().len() ==> (#[trigger] old(table).procs()[i]).pid != r,
        old(table).ids_fresh() && old(table).next_id() < u64::MAX ==> final(table).ids_fresh(),
{
    let process = Process::new_user(name, entry_point, user_stack, page_table_root, &mut table.next_pid);
    let pid = process.pid;
    table.processes.push(process);
    assert(table.procs().take(old(table).procs().len() as int) =~= old(table).procs());
    pid
}

} // verus!
