//! IPC types and constants.
use vstd::prelude::*;
use crate::shared::caps::CapabilityHandle;

verus! {

/// Maximum message size for IPC.
pub const MAX_MESSAGE_SIZE: usize = 4096;

/// Maximum number of capabilities transferred in one message.
pub const MAX_CAPS_PER_MESSAGE: usize = 8;

/// IPC endpoint identifier.
#[derive(Debug, Clone, Copy, PartialEq, Eq, Structural, Hash)]
pub struct EndpointId(pub u64);

impl EndpointId {
    pub fn new(id: u64) -> (r: EndpointId)
        ensures
            r.0 == id,
    {
        EndpointId(id)
    }
}

/// IPC message buffer for sending and receiving.
#[derive(Clone)]
pub struct MessageBuffer {
    /// Message data
    pub data: [u8; 4096],
    /// Actual length of data
    pub data_len: usize,
    /// Capabilities being transferred
    pub caps: [CapabilityHandle; 8],
    /// Number of capabilities
    pub cap_count: usize,
    /// Message tag (application-defined)
    pub tag: u64,
    /// Sender PID (filled in by the kernel on receive)
    pub sender_pid: u64,
}

impl MessageBuffer {
    /// The message that the buffer holds.
    pub open spec fn message(&self) -> Seq<u8> {
        self.data@.take(self.data_len as int)
    }

    /// The capabilities that the buffer holds.
    pub open spec fn cap_list(&self) -> Seq<CapabilityHandle> {
        self.caps@.take(self.cap_count as int)
    }

    /// Lengths within the buffers.
    pub open spec fn wf(&self) -> bool {
        &&& self.data_len <= MAX_MESSAGE_SIZE
        &&& self.cap_count <= MAX_CAPS_PER_MESSAGE
    }

    pub fn new() -> (r: MessageBuffer)
        ensures
            r.wf(),
            r.data@ == Seq::new(4096, |i: int| 0u8),
            r.data_len == 0,
            r.caps@ == Seq::new(8, |i: int| CapabilityHandle(0)),
            r.cap_count == 0,
            r.tag == 0,
            r.sender_pid == 0,
    {
        let r = MessageBuffer {
            data: [0u8; 4096],
            data_len: 0,
            caps: [CapabilityHandle(0); 8],
            cap_count: 0,
            tag: 0,
            sender_pid: 0,
        };
        assert(r.data@ =~= Seq::new(4096, |i: int| 0u8));
        assert(r.caps@ =~= Seq::new(8, |i: int| CapabilityHandle(0)));
        r
    }

    /// Copies `data` into the buffer; refuses data longer than the buffer.
    pub fn set_data(&mut self, data: &[u8]) -> (r: bool)
        ensures
            r == (data@.len() <= MAX_MESSAGE_SIZE),
            r ==> final(self).data_len == data@.len(),
            r ==> final(self).data@ == data@ + old(self).data@.skip(data@.len() as int),
            r ==> final(self).message() == data@,
            !r ==> *final(self) == *old(self),
            final(self).caps == old(self).caps,
            final(self).cap_count == old(self).cap_count,
            final(self).tag == old(self).tag,
            final(self).sender_pid == old(self).sender_pid,
    {
        if data.len() > MAX_MESSAGE_SIZE {
            return false;
        }
        let n = data.len();
        let mut i: usize = 0;
        while i < n
            invariant
                n == data@.len(),
                n <= 4096,
                i <= n,
                self.data@.len() == 4096,
                self.data@.take(i as int) == data@.take(i as int),
                self.data@.skip(i as int) == old(self).data@.skip(i as int),
                self.data_len == old(self).data_len,
                self.caps == old(self).caps,
                self.cap_count == old(self).cap_count,
                self.tag == old(self).tag,
                self.sender_pid == old(self).sender_pid,
            decreases n - i,
        {
            let ghost before = self.data@;
            self.data[i] = data[i];
            assert(self.data@ == before.update(i as int, data@[i as int]));
            assert(self.data@.take(i + 1) =~= data@.take(i + 1));
            assert forall|k: int| 0 <= k < 4096 - (i + 1) implies #[trigger] self.data@.skip(i + 1)[k]
                == old(self).data@.skip(i + 1)[k] by {
                assert(before.skip(i as int)[k + 1] == old(self).data@.skip(i as int)[k + 1]);
            }
            assert(self.data@.skip(i + 1) =~= old(self).data@.skip(i + 1));
            i = i + 1;
        }
        self.data_len = n;
        assert(data@.take(n as int) =~= data@);
        assert(self.data@ =~= self.data@.take(n as int) + self.data@.skip(n as int));
        true
    }

    /// The message held in the buffer.
    pub fn get_data(&self) -> (r: &[u8])
        requires
            self.wf(),
        ensures
            r@ == self.message(),
    {
        let s = self.data.as_slice();
        &s[0..self.data_len]
    }

    /// Appends a capability; refuses when the buffer already holds the maximum.
    pub fn add_cap(&mut self, cap: CapabilityHandle) -> (r: bool)
        requires
            old(self).wf(),
        ensures
            final(self).wf(),
            r == (old(self).cap_count < MAX_CAPS_PER_MESSAGE),
            r ==> final(self).cap_count == old(self).cap_count + 1,
            r ==> final(self).caps@ == old(self).caps@.update(old(self).cap_count as int, cap),
            r ==> final(self).cap_list() == old(self).cap_list().push(cap),
            !r ==> *final(self) == *old(self),
            final(self).data == old(self).data,
            final(self).data_len == old(self).data_len,
            final(self).tag == old(self).tag,
            final(self).sender_pid == old(self).sender_pid,
    {
        if self.cap_count >= MAX_CAPS_PER_MESSAGE {
            return false;
        }
        let i = self.cap_count;
        self.caps[i] = cap;
        self.cap_count = i + 1;
        assert(self.cap_list() =~= old(self).cap_list().push(cap));
        true
    }
}

} // verus!
