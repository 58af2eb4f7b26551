//! IPC system calls: endpoints that queue messages and wake receivers.
//!
//! Copying between user memory and the kernel is left to the caller: a send
//! is checked first (`sys_ipc_send_check`), then the copied message is
//! delivered (`sys_ipc_send`); a receive is checked (`sys_ipc_recv_check`),
//! then each attempt (`sys_ipc_recv_step`) either hands back a message to copy
//! out or blocks the receiver.
use vstd::prelude::*;
use std::collections::VecDeque;
use crate::kernel::caps::{create_root_cap, validate, GlobalCapTable};
use crate::kernel::process::scheduler::{block_current, unblock, unblock_step, schedule_step, with_current_state, SchedulerState};
use crate::kernel::process::{current_pid, ProcessId, ProcessState, ProcessTable};
use crate::kernel::syscall::{caller, USER_SPACE_END};
use crate::shared::caps::{CapabilityHandle, ResourceDescriptor, ResourceType, Rights};
use crate::shared::error::SysError;
use crate::shared::ipc::{EndpointId, MAX_CAPS_PER_MESSAGE, MAX_MESSAGE_SIZE};

verus! {

/// An IPC message in the kernel.
pub struct Message {
    pub data: Vec<u8>,
    pub caps: Vec<CapabilityHandle>,
    pub sender_pid: u64,
    pub tag: u64,
}

/// An IPC endpoint.
pub struct Endpoint {
    id: EndpointId,
    owner: u64,
    messages: VecDeque<Message>,
    /// PIDs waiting to receive
    waiting_receivers: VecDeque<u64>,
    /// PIDs waiting to send, with their messages
    waiting_senders: VecDeque<(u64, Message)>,
}

/// What an endpoint holds.
pub struct EndpointView {
    pub id: EndpointId,
    pub owner: u64,
    pub messages: Seq<Message>,
    pub receivers: Seq<u64>,
    pub senders: Seq<(u64, Message)>,
}

impl Endpoint {
    pub closed spec fn view(&self) -> EndpointView {
        EndpointView {
            id: self.id,
            owner: self.owner,
            messages: self.messages@,
            receivers: self.waiting_receivers@,
            senders: self.waiting_senders@,
        }
    }

    /// A new endpoint with no messages and nobody waiting.
    pub fn new(id: EndpointId, owner: u64) -> (r: Endpoint)
        ensures
            r.view() == (EndpointView {
                id,
                owner,
                messages: Seq::empty(),
                receivers: Seq::empty(),
                senders: Seq::empty(),
            }),
    {
        Endpoint {
            id,
            owner,
            messages: VecDeque::new(),
            waiting_receivers: VecDeque::new(),
            waiting_senders: VecDeque::new(),
        }
    }
}

/// `i` is the first position of `eps` whose endpoint has ID `id`.
pub open spec fn is_first_endpoint(eps: Seq<EndpointView>, id: EndpointId, i: int) -> bool {
    &&& 0 <= i < eps.len()
    &&& eps[i].id == id
    &&& forall|j: int| 0 <= j < i ==> (#[trigger] eps[j]).id != id
}

/// The first position of `eps` whose endpoint has ID `id`, if any.
pub open spec fn endpoint_index(eps: Seq<EndpointView>, id: EndpointId) -> Option<int> {
    if exists|i: int| is_first_endpoint(eps, id, i) {
        Some(choose|i: int| is_first_endpoint(eps, id, i))
    } else {
        None
    }
}

proof fn lemma_first_endpoint(eps: Seq<EndpointView>, id: EndpointId, i: int)
    requires
        is_first_endpoint(eps, id, i),
    ensures
        endpoint_index(eps, id) == Some(i),
{
    let k = choose|k: int| is_first_endpoint(eps, id, k);
    if k < i {
        assert(eps[k].id != id);
    } else if i < k {
        assert(eps[i].id != id);
    }
}

/// The kernel's endpoints and the next endpoint ID.
pub struct IpcState {
    endpoints: Vec<Endpoint>,
    next_endpoint_id: u64,
}

impl IpcState {
    /// The endpoints, in creation order.
    pub closed spec fn endpoints(&self) -> Seq<EndpointView> {
        self.endpoints@.map_values(|e: Endpoint| e.view())
    }

    /// The ID the next endpoint gets.
    pub closed spec fn next_id(&self) -> u64 {
        self.next_endpoint_id
    }

    /// No endpoints; IDs start at 1.
    pub fn new() -> (r: IpcState)
        ensures
            r.endpoints() == Seq::<EndpointView>::empty(),
            r.next_id() == 1,
    {
        let r = IpcState { endpoints: Vec::new(), next_endpoint_id: 1 };
        assert(r.endpoints() =~= Seq::<EndpointView>::empty());
        r
    }

    /// The ID the next endpoint gets.
    pub fn next_endpoint_id(&self) -> (r: u64)
        ensures
            r == self.next_id(),
    {
        self.next_endpoint_id
    }

    /// Position of the first endpoint with ID `id`.
    fn find(&self, id: EndpointId) -> (r: Option<usize>)
        ensures
            match r {
                Some(i) => endpoint_index(self.endpoints(), id) == Some(i as int),
                None => endpoint_index(self.endpoints(), id) is None,
            },
    {
        let mut i: usize = 0;
        while i < self.endpoints.len()
            invariant
                i <= self.endpoints@.len(),
                forall|j: int| 0 <= j < i ==> (#[trigger] self.endpoints()[j]).id != id,
            decreases self.endpoints@.len() - i,
        {
            if self.endpoints[i].id == id {
                proof {
                    lemma_first_endpoint(self.endpoints(), id, i as int);
                }
                return Some(i);
            }
            i = i + 1;
        }
        None
    }
}

/// Creates an IPC endpoint owned by the caller and gives a capability to it
/// (send, receive, grant, delegate). The endpoint exists even when no
/// capability slot is left.
pub fn sys_ipc_create_endpoint(
    ipc: &mut IpcState,
    caps: &mut GlobalCapTable,
    procs: &ProcessTable,
    flags: u64,
) -> (r: Result<i64, SysError>)
    requires
        old(caps).wf(),
        procs.wf(),
        old(ipc).next_id() < u64::MAX,
    ensures
        final(caps).wf(),
        final(ipc).next_id() == old(ipc).next_id() + 1,
        final(ipc).endpoints() == old(ipc).endpoints().push(
            EndpointView {
                id: EndpointId(old(ipc).next_id()),
                owner: caller(procs),
                messages: Seq::empty(),
                receivers: Seq::empty(),
                senders: Seq::empty(),
            },
        ),
        old(caps).free_list().len() == 0 ==> r == Err::<i64, SysError>(SysError::CapabilityTableFull)
            && GlobalCapTable::same(old(caps), final(caps)),
        old(caps).free_list().len() > 0 ==> r == Ok::<i64, SysError>(old(caps).free_list().last() as i64)
            && GlobalCapTable::placed(
            old(caps),
            final(caps),
            old(caps).new_cap(
                ResourceDescriptor {
                    resource_type: ResourceType::IpcEndpoint,
                    base: old(ipc).next_id(),
                    size: 1,
                },
                Rights(Rights::SEND | Rights::RECEIVE | Rights::GRANT | Rights::DELEGATE),
                CapabilityHandle(0),
                caller(procs),
            ),
            CapabilityHandle(old(caps).free_list().last() as u64),
        ),
{
    let pid = current_pid(procs).as_u64();
    let id = ipc.next_endpoint_id;
    ipc.next_endpoint_id = id + 1;
    let endpoint_id = EndpointId::new(id);
    ipc.endpoints.push(Endpoint::new(endpoint_id, pid));
    proof {
        assert(ipc.endpoints() =~= old(ipc).endpoints().push(ipc.endpoints@.last().view()));
    }
    let resource = ResourceDescriptor::ipc_endpoint(endpoint_id.0);
    let rights = Rights(Rights::SEND | Rights::RECEIVE | Rights::GRANT | Rights::DELEGATE);
    match create_root_cap(caps, resource, rights, pid) {
        Ok(handle) => Ok(handle.as_raw() as i64),
        Err(e) => Err(e),
    }
}

/// What checking a send gives: the endpoint that the capability names, or
/// why the send is refused before any memory is read.
pub open spec fn send_check_result(
    caps: &GlobalCapTable,
    pid: u64,
    endpoint_cap: u64,
    msg_ptr: u64,
    msg_len: u64,
    caps_ptr: u64,
    caps_count: u64,
) -> Result<EndpointId, SysError> {
    match caps.validate_result(CapabilityHandle(endpoint_cap), pid, Rights(Rights::SEND)) {
        Err(e) => Err(e),
        Ok(cap) => if cap.resource.resource_type != ResourceType::IpcEndpoint {
            Err(SysError::InvalidArgument)
        } else if msg_len > MAX_MESSAGE_SIZE {
            Err(SysError::MessageTooLarge)
        } else if caps_count > MAX_CAPS_PER_MESSAGE {
            Err(SysError::MessageTooLarge)
        } else if msg_len > 0 && msg_ptr >= USER_SPACE_END {
            Err(SysError::BadAddress)
        } else if caps_count > 0 && caps_ptr >= USER_SPACE_END {
            Err(SysError::BadAddress)
        } else {
            Ok(EndpointId(cap.resource.base))
        },
    }
}

/// Checks a send (args: endpoint capability, message address and length,
/// capability-list address and count): the caller needs SEND on an endpoint
/// capability, the message and list must fit, and the buffers to read must
/// lie in user space. Gives the endpoint to deliver to.
pub fn sys_ipc_send_check(
    caps: &GlobalCapTable,
    procs: &ProcessTable,
    endpoint_cap: u64,
    msg_ptr: u64,
    msg_len: u64,
    caps_ptr: u64,
    caps_count: u64,
) -> (r: Result<EndpointId, SysError>)
    requires
        caps.wf(),
        procs.wf(),
    ensures
        r == send_check_result(caps, caller(procs), endpoint_cap, msg_ptr, msg_len, caps_ptr, caps_count),
{
    let pid = current_pid(procs).as_u64();
    let cap_handle = CapabilityHandle::from_raw(endpoint_cap);
    let cap = match validate(caps, cap_handle, pid, Rights(Rights::SEND)) {
        Ok(c) => c,
        Err(e) => return Err(e),
    };
    match cap.resource.resource_type {
        ResourceType::IpcEndpoint => {},
        _ => return Err(SysError::InvalidArgument),
    }
    let endpoint_id = EndpointId::new(cap.resource.base);
    if msg_len > MAX_MESSAGE_SIZE as u64 {
        return Err(SysError::MessageTooLarge);
    }
    if caps_count > MAX_CAPS_PER_MESSAGE as u64 {
        return Err(SysError::MessageTooLarge);
    }
    if msg_len > 0 && msg_ptr >= USER_SPACE_END {
        return Err(SysError::BadAddress);
    }
    if caps_count > 0 && caps_ptr >= USER_SPACE_END {
        return Err(SysError::BadAddress);
    }
    Ok(endpoint_id)
}

/// `e1` is endpoint `e0` with a message (`data`, capabilities `caps`, from
/// `sender`, tag 0) added at the end of its queue; the wait lists other than
/// the receivers' stay.
pub open spec fn message_queued(e0: EndpointView, e1: EndpointView, data: Seq<u8>, caps: Seq<CapabilityHandle>, sender: u64) -> bool {
    &&& e1.id == e0.id
    &&& e1.owner == e0.owner
    &&& e1.senders == e0.senders
    &&& e1.messages.len() == e0.messages.len() + 1
    &&& e1.messages.take(e0.messages.len() as int) == e0.messages
    &&& e1.messages.last().data@ == data
    &&& e1.messages.last().caps@ == caps
    &&& e1.messages.last().sender_pid == sender
    &&& e1.messages.last().tag == 0
}

/// Messages are received in the order they were sent: after a message is
/// queued, the next one received is the one at the head of the queue before,
/// or, when the queue was empty, the message just sent, with its data,
/// capabilities and sender.
pub proof fn lemma_send_then_receive(
    e0: EndpointView,
    e1: EndpointView,
    data: Seq<u8>,
    caps: Seq<CapabilityHandle>,
    sender: u64,
)
    requires
        message_queued(e0, e1, data, caps, sender),
    ensures
        e1.messages.len() > 0,
        e0.messages.len() > 0 ==> e1.messages[0] == e0.messages[0],
        e0.messages.len() == 0 ==> e1.messages[0].data@ == data && e1.messages[0].caps@ == caps
            && e1.messages[0].sender_pid == sender,
{
    if e0.messages.len() > 0 {
        assert(e1.messages.take(e0.messages.len() as int)[0] == e1.messages[0]);
    }
}

/// Delivers a message from `sender` (its bytes and capabilities copied in)
/// to endpoint `endpoint_id`: the message joins the end of the endpoint's
/// queue, and the first waiting receiver, if any, leaves the wait list and is
/// unblocked.
pub fn sys_ipc_send(
    ipc: &mut IpcState,
    procs: &mut ProcessTable,
    sched: &mut SchedulerState,
    endpoint_id: EndpointId,
    sender: u64,
    data: Vec<u8>,
    cap_handles: Vec<CapabilityHandle>,
) -> (r: Result<i64, SysError>)
    requires
        old(procs).wf(),
    ensures
        final(procs).wf(),
        final(procs).current_index() == old(procs).current_index(),
        final(procs).next_id() == old(procs).next_id(),
        final(sched).ticks() == old(sched).ticks(),
        final(ipc).next_id() == old(ipc).next_id(),
        match endpoint_index(old(ipc).endpoints(), endpoint_id) {
            None => r == Err::<i64, SysError>(SysError::EndpointNotFound) && final(ipc).endpoints()
                == old(ipc).endpoints() && *final(procs) == *old(procs) && *final(sched) == *old(sched),
            Some(i) => {
                let ep = old(ipc).endpoints()[i];
                &&& r == Ok::<i64, SysError>(0)
                &&& final(ipc).endpoints().len() == old(ipc).endpoints().len()
                &&& forall|j: int|
                    0 <= j < old(ipc).endpoints().len() && j != i ==> #[trigger] final(ipc).endpoints()[j]
                        == old(ipc).endpoints()[j]
                &&& message_queued(ep, final(ipc).endpoints()[i], data@, cap_handles@, sender)
                &&& if ep.receivers.len() > 0 {
                    final(ipc).endpoints()[i].receivers == ep.receivers.drop_first() && unblock_step(
                        old(procs).procs(),
                        old(sched).queue(),
                        ProcessId(ep.receivers[0]),
                        final(procs).procs(),
                        final(sched).queue(),
                    )
                } else {
                    final(ipc).endpoints()[i].receivers == ep.receivers && *final(procs) == *old(procs)
                        && *final(sched) == *old(sched)
                }
            },
        },
{
    let message = Message { data, caps: cap_handles, sender_pid: sender, tag: 0 };
    let i = match ipc.find(endpoint_id) {
        Some(i) => i,
        None => return Err(SysError::EndpointNotFound),
    };
    let ghost eps0 = ipc.endpoints();
    let ghost data_view = message.data@;
    let ghost caps_view = message.caps@;
    let mut ep = ipc.endpoints.remove(i);
    let receiver = ep.waiting_receivers.pop_front();
    ep.messages.push_back(message);
    ipc.endpoints.insert(i, ep);
    proof {
        assert(ipc.endpoints() =~= eps0.update(i as int, ipc.endpoints()[i as int]));
        assert(ipc.endpoints()[i as int].messages.take(eps0[i as int].messages.len() as int)
            =~= eps0[i as int].messages);
    }
    if let Some(receiver_pid) = receiver {
        unblock(sched, procs, ProcessId(receiver_pid));
    }
    Ok(0)
}

/// Why a receive by `pid` through `endpoint_cap` is refused, or the
/// endpoint it names.
pub open spec fn recv_check_of(caps: &GlobalCapTable, pid: u64, endpoint_cap: u64) -> Result<EndpointId, SysError> {
    match caps.validate_result(CapabilityHandle(endpoint_cap), pid, Rights(Rights::RECEIVE)) {
        Err(e) => Err(e),
        Ok(cap) => if cap.resource.resource_type != ResourceType::IpcEndpoint {
            Err(SysError::InvalidArgument)
        } else {
            Ok(EndpointId(cap.resource.base))
        },
    }
}

/// Checks a receive (arg: endpoint capability): the caller needs RECEIVE on
/// an endpoint capability. Gives the endpoint to receive from.
pub fn sys_ipc_recv_check(caps: &GlobalCapTable, procs: &ProcessTable, endpoint_cap: u64) -> (r: Result<
    EndpointId,
    SysError,
>)
    requires
        caps.wf(),
        procs.wf(),
    ensures
        r == recv_check_of(caps, caller(procs), endpoint_cap),
{
    let pid = current_pid(procs).as_u64();
    let cap_handle = CapabilityHandle::from_raw(endpoint_cap);
    let cap = match validate(caps, cap_handle, pid, Rights(Rights::RECEIVE)) {
        Ok(c) => c,
        Err(e) => return Err(e),
    };
    match cap.resource.resource_type {
        ResourceType::IpcEndpoint => Ok(EndpointId::new(cap.resource.base)),
        _ => Err(SysError::InvalidArgument),
    }
}

/// The outcome of one receive attempt.
pub enum RecvStep {
    /// A message was taken off the queue: copy the first `copy_len` bytes of
    /// its data and `caps_copy_len` of its capabilities to the caller's
    /// buffers (each only when its buffer address is nonzero), and answer
    /// `copy_len`.
    Received { message: Message, copy_len: usize, caps_copy_len: usize },
    /// A message was taken off the queue and its data can be delivered, but
    /// its capabilities would be written outside user space: copy the first
    /// `copy_len` bytes of its data to the caller's buffer (when its address
    /// is nonzero), then answer `BadAddress`.
    DataOnly { message: Message, copy_len: usize },
    /// No message was queued: the receiver joined the wait list and was
    /// blocked; try again once it runs.
    Blocked,
}

/// The smaller of two lengths.
pub open spec fn min_len(a: int, b: int) -> int {
    if a < b {
        a
    } else {
        b
    }
}

/// What one receive attempt of `receiver` on `endpoint_id` does, from the
/// state `(ipc0, procs0, sched0)` to `(ipc1, procs1, sched1)` with answer
/// `r`. With a message queued, the first one leaves the queue; a data buffer
/// that would be written (nonzero address, something to copy) outside user
/// space answers `BadAddress`, the message being lost; when only the
/// capability buffer would be, the data is still delivered (`DataOnly`)
/// before `BadAddress` is answered. With none, the
/// receiver joins the wait list and is blocked, and the scheduler picks
/// another process.
pub open spec fn recv_attempt(
    ipc0: &IpcState,
    ipc1: &IpcState,
    procs0: &ProcessTable,
    procs1: &ProcessTable,
    sched0: &SchedulerState,
    sched1: &SchedulerState,
    endpoint_id: EndpointId,
    receiver: u64,
    buf_ptr: u64,
    buf_len: u64,
    caps_buf_ptr: u64,
    caps_buf_len: u64,
    r: Result<RecvStep, SysError>,
) -> bool {
    match endpoint_index(ipc0.endpoints(), endpoint_id) {
        None => r is Err && r->Err_0 == SysError::EndpointNotFound && ipc1.endpoints()
            == ipc0.endpoints() && *procs1 == *procs0 && *sched1 == *sched0,
        Some(i) => {
            let ep = ipc0.endpoints()[i];
            &&& ipc1.endpoints().len() == ipc0.endpoints().len()
            &&& forall|j: int|
                0 <= j < ipc0.endpoints().len() && j != i ==> #[trigger] ipc1.endpoints()[j]
                    == ipc0.endpoints()[j]
            &&& if ep.messages.len() > 0 {
                let m = ep.messages[0];
                let copy_len = min_len(m.data@.len() as int, buf_len as int);
                let caps_copy_len = min_len(m.caps@.len() as int, caps_buf_len as int);
                &&& ipc1.endpoints()[i] == EndpointView { messages: ep.messages.drop_first(), ..ep }
                &&& *procs1 == *procs0
                &&& *sched1 == *sched0
                &&& if buf_ptr != 0 && copy_len > 0 && buf_ptr >= USER_SPACE_END {
                    r is Err && r->Err_0 == SysError::BadAddress
                } else if caps_buf_ptr != 0 && caps_copy_len > 0 && caps_buf_ptr >= USER_SPACE_END {
                    r matches Ok(RecvStep::DataOnly { message, copy_len: c }) && message == m && c == copy_len
                } else {
                    r matches Ok(RecvStep::Received { message, copy_len: c, caps_copy_len: cc })
                        && message == m && c == copy_len && cc == caps_copy_len
                }
            } else {
                &&& r matches Ok(RecvStep::Blocked)
                &&& ipc1.endpoints()[i] == EndpointView { receivers: ep.receivers.push(receiver), ..ep }
                &&& exists|next: Option<ProcessId>|
                    schedule_step(
                        with_current_state(
                            procs0.procs(),
                            procs0.current_index(),
                            ProcessState::BlockedRecv,
                        ),
                        procs0.current_index(),
                        sched0.queue(),
                        sched0.ticks(),
                        procs1.procs(),
                        procs1.current_index(),
                        sched1.queue(),
                        sched1.ticks(),
                        next,
                    )
            }
        },
    }
}

/// One attempt of `receiver` to receive from `endpoint_id` into a buffer at
/// `buf_ptr` of `buf_len` bytes and a capability buffer at `caps_buf_ptr` of
/// `caps_buf_len` entries (see `recv_attempt`).
pub fn sys_ipc_recv_step(
    ipc: &mut IpcState,
    procs: &mut ProcessTable,
    sched: &mut SchedulerState,
    endpoint_id: EndpointId,
    receiver: u64,
    buf_ptr: u64,
    buf_len: u64,
    caps_buf_ptr: u64,
    caps_buf_len: u64,
) -> (r: Result<RecvStep, SysError>)
    requires
        old(procs).wf(),
    ensures
        final(procs).wf(),
        final(procs).next_id() == old(procs).next_id(),
        final(ipc).next_id() == old(ipc).next_id(),
        recv_attempt(
            old(ipc),
            final(ipc),
            old(procs),
            final(procs),
            old(sched),
            final(sched),
            endpoint_id,
            receiver,
            buf_ptr,
            buf_len,
            caps_buf_ptr,
            caps_buf_len,
            r,
        ),
{
    let i = match ipc.find(endpoint_id) {
        Some(i) => i,
        None => return Err(SysError::EndpointNotFound),
    };
    let ghost eps0 = ipc.endpoints();
    let mut ep = ipc.endpoints.remove(i);
    match ep.messages.pop_front() {
        Some(message) => {
            ipc.endpoints.insert(i, ep);
            proof {
                assert(ipc.endpoints() =~= eps0.update(i as int, ipc.endpoints()[i as int]));
            }
            let data_len = message.data.len();
            let copy_len: usize = if (data_len as u64) < buf_len {
                data_len
            } else {
                buf_len as usize
            };
            if buf_ptr != 0 && copy_len > 0 && buf_ptr >= USER_SPACE_END {
                return Err(SysError::BadAddress);
            }
            let cap_len = message.caps.len();
            let caps_copy_len: usize = if (cap_len as u64) < caps_buf_len {
                cap_len
            } else {
                caps_buf_len as usize
            };
            if caps_buf_ptr != 0 && caps_copy_len > 0 && caps_buf_ptr >= USER_SPACE_END {
                return Ok(RecvStep::DataOnly { message, copy_len });
            }
            Ok(RecvStep::Received { message, copy_len, caps_copy_len })
        },
        None => {
            ep.waiting_receivers.push_back(receiver);
            ipc.endpoints.insert(i, ep);
            proof {
                assert(ipc.endpoints() =~= eps0.update(i as int, ipc.endpoints()[i as int]));
            }
            block_current(sched, procs, ProcessState::BlockedRecv);
            Ok(RecvStep::Blocked)
        },
    }
}

/// Receives (args: endpoint capability, buffer address and length,
/// capability-buffer address and length): the capability is checked, then
/// one attempt is made (see `recv_attempt`); a caller that was blocked
/// tries again with `sys_ipc_recv_step` once it runs.
pub fn sys_ipc_recv(
    ipc: &mut IpcState,
    procs: &mut ProcessTable,
    sched: &mut SchedulerState,
    caps: &GlobalCapTable,
    endpoint_cap: u64,
    buf_ptr: u64,
    buf_len: u64,
    caps_buf_ptr: u64,
    caps_buf_len: u64,
) -> (r: Result<RecvStep, SysError>)
    requires
        old(procs).wf(),
        caps.wf(),
    ensures
        final(procs).wf(),
        final(procs).next_id() == old(procs).next_id(),
        final(ipc).next_id() == old(ipc).next_id(),
        match recv_check_of(caps, caller(old(procs)), endpoint_cap) {
            Err(e) => r == Err::<RecvStep, SysError>(e) && final(ipc).endpoints() == old(ipc).endpoints()
                && *final(procs) == *old(procs) && *final(sched) == *old(sched),
            Ok(id) => recv_attempt(
                old(ipc),
                final(ipc),
                old(procs),
                final(procs),
                old(sched),
                final(sched),
                id,
                caller(old(procs)),
                buf_ptr,
                buf_len,
                caps_buf_ptr,
                caps_buf_len,
                r,
            ),
        },
{
    let endpoint_id = match sys_ipc_recv_check(caps, procs, endpoint_cap) {
        Ok(id) => id,
        Err(e) => return Err(e),
    };
    let receiver = current_pid(procs).as_u64();
    sys_ipc_recv_step(ipc, procs, sched, endpoint_id, receiver, buf_ptr, buf_len, caps_buf_ptr, caps_buf_len)
}

/// Synchronous call (send, then wait for the reply): not provided.
pub fn sys_ipc_call(
    endpoint_cap: u64,
    msg_ptr: u64,
    msg_len: u64,
    reply_ptr: u64,
    reply_len: u64,
) -> (r: Result<i64, SysError>)
    ensures
        r == Err::<i64, SysError>(SysError::NotPermitted),
{
    Err(SysError::NotPermitted)
}

/// Reply to a call: not provided.
pub fn sys_ipc_reply(reply_ptr: u64, reply_len: u64) -> (r: Result<i64, SysError>)
    ensures
        r == Err::<i64, SysError>(SysError::NotPermitted),
{
    Err(SysError::NotPermitted)
}

} // verus!
