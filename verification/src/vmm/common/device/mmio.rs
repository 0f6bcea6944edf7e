//! VirtIO-MMIO transport and virtqueue walker.

use vstd::prelude::*;

use crate::codec::{
    eight_bytes, four_bytes, law_little_endian_within, le_value, read_le, two_bytes, GuestObj,
};
use crate::text::{append_decimal, decimal};
use crate::vmm::common::ram::{law_load_spells, load, GuestRam, RamError};

verus! {

// Register offsets of the VirtIO-MMIO transport, version 2.
pub const MAGIC_VALUE: u64 = 0x000;  // "virt"

pub const VERSION: u64 = 0x004;

pub const DEVICE_ID: u64 = 0x008;

pub const VENDOR_ID: u64 = 0x00c;

pub const DEVICE_FEATURES: u64 = 0x010;

pub const DEVICE_FEATURES_SEL: u64 = 0x014;

pub const DRIVER_FEATURES: u64 = 0x020;

pub const DRIVER_FEATURES_SEL: u64 = 0x024;

pub const QUEUE_SEL: u64 = 0x030;

pub const QUEUE_NUM_MAX: u64 = 0x034;

pub const QUEUE_NUM: u64 = 0x038;

pub const QUEUE_READY: u64 = 0x044;

pub const QUEUE_NOTIFY: u64 = 0x050;

pub const INTERRUPT_STATUS: u64 = 0x060;

pub const INTERRUPT_ACK: u64 = 0x064;

pub const STATUS: u64 = 0x070;

pub const QUEUE_DESC_LOW: u64 = 0x080;

pub const QUEUE_DESC_HIGH: u64 = 0x084;

pub const QUEUE_AVAIL_LOW: u64 = 0x090;

pub const QUEUE_AVAIL_HIGH: u64 = 0x094;

pub const QUEUE_USED_LOW: u64 = 0x0a0;

pub const QUEUE_USED_HIGH: u64 = 0x0a4;

pub const CONFIG_GENERATION: u64 = 0x0fc;

pub const CONFIG_SPACE: u64 = 0x100;

pub const MAGIC: u32 = 0x7472_6976;

pub const VERSION_2: u32 = 2;

/// The low 32 bits of `v`.
pub open spec fn low_half(v: u64) -> u32 {
    (v as int % 0x1_0000_0000) as u32
}

/// The high 32 bits of `v`.
pub open spec fn high_half(v: u64) -> u32 {
    (v as int / 0x1_0000_0000) as u32
}

/// The 64-bit number with the given halves.
pub open spec fn join_halves(high: u32, low: u32) -> u64 {
    (high * 0x1_0000_0000 + low) as u64
}

fn with_low_half(v: u64, low: u32) -> (r: u64)
    ensures
        r == join_halves(high_half(v), low),
{
    (v / 0x1_0000_0000) * 0x1_0000_0000 + low as u64
}

fn with_high_half(v: u64, high: u32) -> (r: u64)
    ensures
        r == join_halves(high, low_half(v)),
{
    high as u64 * 0x1_0000_0000 + v % 0x1_0000_0000
}

/// What the guest has selected, negotiated and acknowledged.
#[derive(Debug, Clone, Copy, PartialEq, Eq, Structural)]
pub struct MmioState {
    pub device_features_sel: u32,
    pub driver_features_sel: u32,
    pub driver_features: u64,
    pub queue_sel: u32,
    pub status: u32,
    pub interrupt_status: u32,
    pub config_generation: u32,
}

/// One virtqueue as the guest configured it.
#[derive(Debug, Clone, Copy, PartialEq, Eq, Structural)]
pub struct VirtQueue {
    pub size_max: u32,
    pub size: u32,
    pub ready: bool,
    pub desc_addr: u64,
    pub avail_addr: u64,
    pub used_addr: u64,
    pub last_avail_idx: u16,
}

impl VirtQueue {
    /// A queue that the guest has not configured yet.
    pub open spec fn unconfigured(size_max: u32) -> Self {
        VirtQueue {
            size_max,
            size: 0,
            ready: false,
            desc_addr: 0,
            avail_addr: 0,
            used_addr: 0,
            last_avail_idx: 0,
        }
    }
}

impl Default for VirtQueue {
    fn default() -> (q: Self)
        ensures
            q == VirtQueue::unconfigured(0),
    {
        VirtQueue {
            size_max: 0,
            size: 0,
            ready: false,
            desc_addr: 0,
            avail_addr: 0,
            used_addr: 0,
            last_avail_idx: 0,
        }
    }
}

/// MMIO transport state for a single VirtIO device.
pub struct VirtioMmio {
    pub device_id: u32,
    pub vendor_id: u32,
    pub device_features: u64,
    pub config: Vec<u8>,
    pub state: MmioState,
    pub queues: Vec<VirtQueue>,
}

/// A transport as a mathematical value.
#[verifier::ext_equal]
pub struct Transport {
    pub device_id: u32,
    pub vendor_id: u32,
    pub device_features: u64,
    pub config: Seq<u8>,
    pub state: MmioState,
    pub queues: Seq<VirtQueue>,
}

impl View for VirtioMmio {
    type V = Transport;

    open spec fn view(&self) -> Transport {
        Transport {
            device_id: self.device_id,
            vendor_id: self.vendor_id,
            device_features: self.device_features,
            config: self.config@,
            state: self.state,
            queues: self.queues@,
        }
    }
}

impl Transport {
    /// The queue that `QueueSel` names, if the device has it.
    pub open spec fn selected(self) -> Option<VirtQueue> {
        if self.state.queue_sel < self.queues.len() {
            Some(self.queues[self.state.queue_sel as int])
        } else {
            None
        }
    }

    /// The transport with the selected queue changed by `f`; nothing changes where
    /// the device has no such queue.
    pub open spec fn map_selected(self, f: spec_fn(VirtQueue) -> VirtQueue) -> Self {
        match self.selected() {
            Some(q) => Transport {
                queues: self.queues.update(self.state.queue_sel as int, f(q)),
                ..self
            },
            None => self,
        }
    }

    /// The 32-bit number at `off` in the device's configuration space, or zero where
    /// that runs past its end.
    pub open spec fn config_word(self, off: int) -> u32 {
        if 0 <= off && off + 4 <= self.config.len() {
            le_value(self.config.subrange(off, off + 4)) as u32
        } else {
            0
        }
    }

    /// What the guest reads from the register at `offset`.
    pub open spec fn read(self, offset: u64) -> u32 {
        if offset == MAGIC_VALUE {
            MAGIC
        } else if offset == VERSION {
            VERSION_2
        } else if offset == DEVICE_ID {
            self.device_id
        } else if offset == VENDOR_ID {
            self.vendor_id
        } else if offset == DEVICE_FEATURES {
            if self.state.device_features_sel == 0 {
                low_half(self.device_features)
            } else if self.state.device_features_sel == 1 {
                high_half(self.device_features)
            } else {
                0
            }
        } else if offset == QUEUE_NUM_MAX {
            match self.selected() {
                Some(q) => q.size_max,
                None => 0,
            }
        } else if offset == QUEUE_READY {
            match self.selected() {
                Some(q) => if q.ready {
                    1
                } else {
                    0
                },
                None => 0,
            }
        } else if offset == INTERRUPT_STATUS {
            self.state.interrupt_status
        } else if offset == STATUS {
            self.state.status
        } else if offset == CONFIG_GENERATION {
            self.state.config_generation
        } else if offset >= CONFIG_SPACE {
            self.config_word(offset - CONFIG_SPACE)
        } else {
            0
        }
    }

    /// The transport after the guest wrote `val` to the register at `offset`.
    pub open spec fn write(self, offset: u64, val: u32) -> Self {
        let s = self.state;
        if offset == DEVICE_FEATURES_SEL {
            Transport { state: MmioState { device_features_sel: val, ..s }, ..self }
        } else if offset == DRIVER_FEATURES_SEL {
            Transport { state: MmioState { driver_features_sel: val, ..s }, ..self }
        } else if offset == DRIVER_FEATURES {
            let features = if s.driver_features_sel == 0 {
                join_halves(high_half(s.driver_features), val)
            } else {
                join_halves(val, low_half(s.driver_features))
            };
            Transport { state: MmioState { driver_features: features, ..s }, ..self }
        } else if offset == QUEUE_SEL {
            Transport { state: MmioState { queue_sel: val, ..s }, ..self }
        } else if offset == QUEUE_NUM {
            self.map_selected(|q: VirtQueue| VirtQueue { size: val, ..q })
        } else if offset == QUEUE_READY {
            self.map_selected(|q: VirtQueue| VirtQueue { ready: val != 0, ..q })
        } else if offset == INTERRUPT_ACK {
            Transport {
                state: MmioState { interrupt_status: s.interrupt_status & !val, ..s },
                ..self
            }
        } else if offset == STATUS {
            Transport { state: MmioState { status: val, ..s }, ..self }
        } else if offset == QUEUE_DESC_LOW {
            self.map_selected(
                |q: VirtQueue|
                    VirtQueue { desc_addr: join_halves(high_half(q.desc_addr), val), ..q },
            )
        } else if offset == QUEUE_DESC_HIGH {
            self.map_selected(
                |q: VirtQueue|
                    VirtQueue { desc_addr: join_halves(val, low_half(q.desc_addr)), ..q },
            )
        } else if offset == QUEUE_AVAIL_LOW {
            self.map_selected(
                |q: VirtQueue|
                    VirtQueue { avail_addr: join_halves(high_half(q.avail_addr), val), ..q },
            )
        } else if offset == QUEUE_AVAIL_HIGH {
            self.map_selected(
                |q: VirtQueue|
                    VirtQueue { avail_addr: join_halves(val, low_half(q.avail_addr)), ..q },
            )
        } else if offset == QUEUE_USED_LOW {
            self.map_selected(
                |q: VirtQueue|
                    VirtQueue { used_addr: join_halves(high_half(q.used_addr), val), ..q },
            )
        } else if offset == QUEUE_USED_HIGH {
            self.map_selected(
                |q: VirtQueue|
                    VirtQueue { used_addr: join_halves(val, low_half(q.used_addr)), ..q },
            )
        } else {
            self
        }
    }
}

impl VirtioMmio {
    /// A device with one queue for each entry of `queue_sizes`, and no
    /// configuration space.
    pub fn new(device_id: u32, vendor_id: u32, device_features: u64, queue_sizes: &[u32]) -> (m:
        Self)
        ensures
            m@ == (Transport {
                device_id,
                vendor_id,
                device_features,
                config: Seq::<u8>::empty(),
                state: MmioState {
                    device_features_sel: 0,
                    driver_features_sel: 0,
                    driver_features: 0,
                    queue_sel: 0,
                    status: 0,
                    interrupt_status: 0,
                    config_generation: 0,
                },
                queues: queue_sizes@.map_values(|n: u32| VirtQueue::unconfigured(n)),
            }),
    {
        let mut queues: Vec<VirtQueue> = Vec::new();
        let mut i: usize = 0;
        while i < queue_sizes.len()
            invariant
                i <= queue_sizes.len(),
                queues@.len() == i,
                forall|j: int|
                    0 <= j < i ==> queues@[j] == VirtQueue::unconfigured(queue_sizes@[j]),
            decreases queue_sizes.len() - i,
        {
            queues.push(VirtQueue { size_max: queue_sizes[i], ..VirtQueue::default() });
            i = i + 1;
        }
        assert(queues@ =~= queue_sizes@.map_values(|n: u32| VirtQueue::unconfigured(n)));
        VirtioMmio {
            device_id,
            vendor_id,
            device_features,
            config: Vec::new(),
            state: MmioState {
                device_features_sel: 0,
                driver_features_sel: 0,
                driver_features: 0,
                queue_sel: 0,
                status: 0,
                interrupt_status: 0,
                config_generation: 0,
            },
            queues,
        }
    }

    /// The device status that the guest last wrote.
    pub fn status(&self) -> (v: u32)
        ensures
            v == self@.state.status,
    {
        self.state.status
    }

    /// Handles a 32-bit MMIO read: the value to give the guest.
    pub fn read32(&self, offset: u64) -> (v: u32)
        ensures
            v == self@.read(offset),
    {
        if offset == MAGIC_VALUE {
            MAGIC
        } else if offset == VERSION {
            VERSION_2
        } else if offset == DEVICE_ID {
            self.device_id
        } else if offset == VENDOR_ID {
            self.vendor_id
        } else if offset == DEVICE_FEATURES {
            if self.state.device_features_sel == 0 {
                (self.device_features % 0x1_0000_0000) as u32
            } else if self.state.device_features_sel == 1 {
                (self.device_features / 0x1_0000_0000) as u32
            } else {
                0
            }
        } else if offset == QUEUE_NUM_MAX {
            match self.selected_queue() {
                Some(q) => q.size_max,
                None => 0,
            }
        } else if offset == QUEUE_READY {
            match self.selected_queue() {
                Some(q) => if q.ready {
                    1
                } else {
                    0
                },
                None => 0,
            }
        } else if offset == INTERRUPT_STATUS {
            self.state.interrupt_status
        } else if offset == STATUS {
            self.state.status
        } else if offset == CONFIG_GENERATION {
            self.state.config_generation
        } else if offset >= CONFIG_SPACE {
            self.read_config(offset - CONFIG_SPACE)
        } else {
            0
        }
    }

    /// Handles a 32-bit MMIO write. The result is the queue index if the write was
    /// a `QueueNotify`, by which the guest asks the device to process that queue.
    pub fn write32(&mut self, offset: u64, val: u32) -> (notify: Option<u32>)
        ensures
            final(self)@ == old(self)@.write(offset, val),
            notify == if offset == QUEUE_NOTIFY {
                Some(val)
            } else {
                None
            },
    {
        if offset == DEVICE_FEATURES_SEL {
            self.state.device_features_sel = val;
        } else if offset == DRIVER_FEATURES_SEL {
            self.state.driver_features_sel = val;
        } else if offset == DRIVER_FEATURES {
            self.state.driver_features =
            if self.state.driver_features_sel == 0 {
                with_low_half(self.state.driver_features, val)
            } else {
                with_high_half(self.state.driver_features, val)
            };
        } else if offset == QUEUE_SEL {
            self.state.queue_sel = val;
        } else if offset == QUEUE_NOTIFY {
            return Some(val);
        } else if offset == INTERRUPT_ACK {
            self.state.interrupt_status = self.state.interrupt_status & !val;
        } else if offset == STATUS {
            self.state.status = val;
        } else {
            self.mutate_selected_queue(offset, val);
        }
        None
    }

    fn selected_queue(&self) -> (q: Option<VirtQueue>)
        ensures
            q == self@.selected(),
    {
        let sel: usize = self.state.queue_sel as usize;
        if sel < self.queues.len() {
            Some(self.queues[sel])
        } else {
            None
        }
    }

    /// Applies a write to one of the selected queue's registers.
    fn mutate_selected_queue(&mut self, offset: u64, val: u32)
        requires
            offset != DEVICE_FEATURES_SEL,
            offset != DRIVER_FEATURES_SEL,
            offset != DRIVER_FEATURES,
            offset != QUEUE_SEL,
            offset != INTERRUPT_ACK,
            offset != STATUS,
        ensures
            final(self)@ == old(self)@.write(offset, val),
    {
        let mut q = match self.selected_queue() {
            Some(q) => q,
            None => return ,
        };
        if offset == QUEUE_NUM {
            q.size = val;
        } else if offset == QUEUE_READY {
            q.ready = val != 0;
        } else if offset == QUEUE_DESC_LOW {
            q.desc_addr = with_low_half(q.desc_addr, val);
        } else if offset == QUEUE_DESC_HIGH {
            q.desc_addr = with_high_half(q.desc_addr, val);
        } else if offset == QUEUE_AVAIL_LOW {
            q.avail_addr = with_low_half(q.avail_addr, val);
        } else if offset == QUEUE_AVAIL_HIGH {
            q.avail_addr = with_high_half(q.avail_addr, val);
        } else if offset == QUEUE_USED_LOW {
            q.used_addr = with_low_half(q.used_addr, val);
        } else if offset == QUEUE_USED_HIGH {
            q.used_addr = with_high_half(q.used_addr, val);
        } else {
            return ;
        }
        let sel: usize = self.state.queue_sel as usize;
        self.queues.set(sel, q);
        assert(self@ =~= old(self)@.write(offset, val));
    }

    fn read_config(&self, off: u64) -> (v: u32)
        ensures
            v == self@.config_word(off as int),
    {
        let len: usize = self.config.len();
        if len < 4 || off > (len - 4) as u64 {
            return 0;
        }
        let v = read_le(self.config.as_slice(), off as usize, 4);
        proof {
            crate::codec::lemma_pow256_values();
        }
        v as u32
    }
}

/// A walked descriptor chain from the available ring.
#[derive(Debug)]
pub struct DescriptorChain {
    pub head_index: u16,
    pub descriptors: Vec<Descriptor>,
}

/// One entry of a descriptor table: a buffer in guest memory.
#[derive(Debug, Clone, Copy, PartialEq, Eq, Structural)]
pub struct Descriptor {
    pub addr: u64,
    pub len: u32,
    pub flags: u16,
    pub next: u16,
}

/// The descriptor continues in the one that `next` names.
pub const VRING_DESC_F_NEXT: u16 = 1;

/// The device may write to the buffer.
pub const VRING_DESC_F_WRITE: u16 = 2;

/// Bytes in a descriptor.
pub const DESC_SIZE: u64 = 16;

/// Bytes of the available ring in front of its entries.
pub const AVAIL_RING_HDR: u64 = 4;

/// Why a descriptor chain could not be walked.
#[derive(Debug, Clone, Copy, PartialEq, Eq, Structural)]
pub enum QueueError {
    /// A ring or a descriptor is not in guest memory.
    Ram(RamError),
    /// The guest placed a ring so high that its entries have no 64-bit address.
    AddressOverflow,
    /// A descriptor index is not below the queue's size.
    IndexOutOfRange { index: u16, size: u32 },
    /// The chain has more descriptors than the queue.
    ChainTooLong { size: u32 },
}

impl QueueError {
    /// The text that reports the error.
    pub open spec fn text(self) -> Seq<char> {
        match self {
            QueueError::Ram(e) => e.text(),
            QueueError::AddressOverflow => "virtqueue address overflow"@,
            QueueError::IndexOutOfRange { index, size } => "descriptor index "@ + decimal(
                index as nat,
            ) + " out of range "@ + decimal(size as nat),
            QueueError::ChainTooLong { size } => "descriptor chain longer than queue size "@
                + decimal(size as nat),
        }
    }

    /// Reports the error in words.
    pub fn message(&self) -> (s: String)
        ensures
            s@ == self.text(),
    {
        match *self {
            QueueError::Ram(e) => e.message(),
            QueueError::AddressOverflow => String::from_str("virtqueue address overflow"),
            QueueError::IndexOutOfRange { index, size } => {
                let mut s = String::from_str("descriptor index ");
                append_decimal(&mut s, index as u64);
                s.append(" out of range ");
                append_decimal(&mut s, size as u64);
                s
            },
            QueueError::ChainTooLong { size } => {
                let mut s = String::from_str("descriptor chain longer than queue size ");
                append_decimal(&mut s, size as u64);
                s
            },
        }
    }
}

/// What loading the `width`-byte integer `off` bytes after `base` gives.
pub open spec fn ring_load(mem: Seq<u8>, base: u64, off: int, width: nat) -> Result<
    nat,
    QueueError,
> {
    if base + off > u64::MAX {
        Err(QueueError::AddressOverflow)
    } else {
        match load(mem, (base + off) as u64, width) {
            Ok(v) => Ok(v),
            Err(e) => Err(QueueError::Ram(e)),
        }
    }
}

/// Descriptor `idx` of the table at `table`.
pub open spec fn descriptor_at(mem: Seq<u8>, table: u64, idx: u16) -> Result<
    Descriptor,
    QueueError,
> {
    let at = idx * DESC_SIZE;
    match (
        ring_load(mem, table, at, 8),
        ring_load(mem, table, at + 8, 4),
        ring_load(mem, table, at + 12, 2),
        ring_load(mem, table, at + 14, 2),
    ) {
        (Err(e), _, _, _) => Err(e),
        (_, Err(e), _, _) => Err(e),
        (_, _, Err(e), _) => Err(e),
        (_, _, _, Err(e)) => Err(e),
        (Ok(addr), Ok(len), Ok(flags), Ok(next)) => Ok(
            Descriptor {
                addr: addr as u64,
                len: len as u32,
                flags: flags as u16,
                next: next as u16,
            },
        ),
    }
}

/// The chain that starts at descriptor `idx` of `queue`, if it ends within `budget`
/// descriptors.
pub open spec fn chain_from(mem: Seq<u8>, queue: VirtQueue, idx: u16, budget: nat) -> Result<
    Seq<Descriptor>,
    QueueError,
>
    decreases budget,
{
    if budget == 0 {
        Err(QueueError::ChainTooLong { size: queue.size })
    } else if idx >= queue.size {
        Err(QueueError::IndexOutOfRange { index: idx, size: queue.size })
    } else {
        match descriptor_at(mem, queue.desc_addr, idx) {
            Err(e) => Err(e),
            Ok(d) => if d.flags & VRING_DESC_F_NEXT == 0 {
                Ok(seq![d])
            } else {
                match chain_from(mem, queue, d.next, (budget - 1) as nat) {
                    Ok(rest) => Ok(seq![d] + rest),
                    Err(e) => Err(e),
                }
            },
        }
    }
}

/// The head of the next request in the available ring: `None` if the guest has
/// posted none since the last one taken, or the queue is not in use.
pub open spec fn next_head(mem: Seq<u8>, queue: VirtQueue) -> Result<Option<u16>, QueueError> {
    if !queue.ready || queue.size == 0 {
        Ok(None)
    } else {
        match ring_load(mem, queue.avail_addr, 2, 2) {
            Err(e) => Err(e),
            Ok(avail_idx) => if avail_idx == queue.last_avail_idx {
                Ok(None)
            } else {
                let slot = queue.last_avail_idx as int % queue.size as int;
                match ring_load(mem, queue.avail_addr, AVAIL_RING_HDR + slot * 2, 2) {
                    Err(e) => Err(e),
                    Ok(head) => Ok(Some(head as u16)),
                }
            },
        }
    }
}

/// Loads the integer `off` bytes after `base`.
fn ring_load_obj<T: GuestObj>(ram: &GuestRam, base: u64, off: u64) -> (r: Result<T, QueueError>)
    ensures
        match ring_load(ram@, base, off as int, T::width()) {
            Ok(n) => r matches Ok(v) && v.value() == n,
            Err(e) => r == Err::<T, QueueError>(e),
        },
{
    if off > u64::MAX - base {
        return Err(QueueError::AddressOverflow);
    }
    match ram.read_obj::<T>(base + off) {
        Ok(v) => Ok(v),
        Err(e) => Err(QueueError::Ram(e)),
    }
}

fn load_descriptor(ram: &GuestRam, table: u64, idx: u16) -> (r: Result<Descriptor, QueueError>)
    ensures
        r == descriptor_at(ram@, table, idx),
{
    let at: u64 = idx as u64 * DESC_SIZE;
    let addr = match ring_load_obj::<u64>(ram, table, at) {
        Ok(v) => v,
        Err(e) => return Err(e),
    };
    let len = match ring_load_obj::<u32>(ram, table, at + 8) {
        Ok(v) => v,
        Err(e) => return Err(e),
    };
    let flags = match ring_load_obj::<u16>(ram, table, at + 12) {
        Ok(v) => v,
        Err(e) => return Err(e),
    };
    let next = match ring_load_obj::<u16>(ram, table, at + 14) {
        Ok(v) => v,
        Err(e) => return Err(e),
    };
    Ok(Descriptor { addr, len, flags, next })
}

fn load_next_head(queue: &VirtQueue, ram: &GuestRam) -> (r: Result<Option<u16>, QueueError>)
    ensures
        r == next_head(ram@, *queue),
{
    if !queue.ready || queue.size == 0 {
        return Ok(None);
    }
    let avail_idx = match ring_load_obj::<u16>(ram, queue.avail_addr, 2) {
        Ok(v) => v,
        Err(e) => return Err(e),
    };
    if avail_idx == queue.last_avail_idx {
        return Ok(None);
    }
    let slot: u64 = queue.last_avail_idx as u64 % queue.size as u64;
    match ring_load_obj::<u16>(ram, queue.avail_addr, AVAIL_RING_HDR + slot * 2) {
        Ok(v) => Ok(Some(v)),
        Err(e) => Err(e),
    }
}

impl DescriptorChain {
    /// Walks the next descriptor chain from the available ring, advancing the
    /// queue's `last_avail_idx` past it. `Ok(None)` if no new requests are pending.
    /// A request whose chain is broken is passed over with the error.
    pub fn pop(queue: &mut VirtQueue, ram: &GuestRam) -> (r: Result<
        Option<DescriptorChain>,
        QueueError,
    >)
        ensures
            match next_head(ram@, *old(queue)) {
                Err(e) => {
                    &&& r == Err::<Option<DescriptorChain>, QueueError>(e)
                    &&& *final(queue) == *old(queue)
                },
                Ok(None) => {
                    &&& r == Ok::<Option<DescriptorChain>, QueueError>(None)
                    &&& *final(queue) == *old(queue)
                },
                Ok(Some(head)) => {
                    &&& *final(queue) == (VirtQueue {
                        last_avail_idx: ((old(queue).last_avail_idx + 1) % 0x1_0000) as u16,
                        ..*old(queue)
                    })
                    &&& match chain_from(ram@, *old(queue), head, old(queue).size as nat) {
                        Err(e) => r == Err::<Option<DescriptorChain>, QueueError>(e),
                        Ok(descriptors) => {
                            &&& r matches Ok(Some(chain))
                            &&& chain.head_index == head
                            &&& chain.descriptors@ == descriptors
                        },
                    }
                },
            },
    {
        let head_index: u16 = match load_next_head(queue, ram) {
            Ok(Some(head)) => head,
            Ok(None) => return Ok(None),
            Err(e) => return Err(e),
        };
        let ghost q0 = *queue;
        queue.last_avail_idx = queue.last_avail_idx.wrapping_add(1);

        let size: u32 = queue.size;
        let table: u64 = queue.desc_addr;
        let mut descriptors: Vec<Descriptor> = Vec::new();
        let mut idx: u16 = head_index;
        let mut left: u32 = size;
        let ghost whole = chain_from(ram@, q0, head_index, size as nat);
        assert(chain_from(ram@, q0, idx, left as nat) matches Ok(rest) ==> descriptors@ + rest
            =~= rest);
        while left > 0
            invariant
                left <= size,
                size == q0.size,
                table == q0.desc_addr,
                *queue == (VirtQueue {
                    last_avail_idx: ((q0.last_avail_idx + 1) % 0x1_0000) as u16,
                    ..q0
                }),
                q0 == *old(queue),
                next_head(ram@, q0) == Ok::<Option<u16>, QueueError>(Some(head_index)),
                whole == chain_from(ram@, q0, head_index, size as nat),
                match chain_from(ram@, q0, idx, left as nat) {
                    Ok(rest) => whole == Ok::<Seq<Descriptor>, QueueError>(descriptors@ + rest),
                    Err(e) => whole == Err::<Seq<Descriptor>, QueueError>(e),
                },
            decreases left,
        {
            if idx as u32 >= size {
                return Err(QueueError::IndexOutOfRange { index: idx, size });
            }
            let d = match load_descriptor(ram, table, idx) {
                Ok(d) => d,
                Err(e) => return Err(e),
            };
            let ghost before = descriptors@;
            descriptors.push(d);
            if d.flags & VRING_DESC_F_NEXT == 0 {
                assert(before + seq![d] =~= descriptors@);
                return Ok(Some(DescriptorChain { head_index, descriptors }));
            }
            idx = d.next;
            left = left - 1;
            proof {
                if let Ok(rest) = chain_from(ram@, q0, idx, left as nat) {
                    assert(before + (seq![d] + rest) =~= descriptors@ + rest);
                }
            }
        }
        Err(QueueError::ChainTooLong { size })
    }

    /// Whether the device may write to every buffer of the chain.
    pub fn is_write_only(&self) -> (r: bool)
        ensures
            r == forall|i: int|
                0 <= i < self.descriptors@.len() ==> (#[trigger] self.descriptors@[i]).flags
                    & VRING_DESC_F_WRITE != 0,
    {
        let mut i: usize = 0;
        while i < self.descriptors.len()
            invariant
                i <= self.descriptors.len(),
                forall|j: int|
                    0 <= j < i ==> (#[trigger] self.descriptors@[j]).flags & VRING_DESC_F_WRITE
                        != 0,
            decreases self.descriptors.len() - i,
        {
            if self.descriptors[i].flags & VRING_DESC_F_WRITE == 0 {
                return false;
            }
            i = i + 1;
        }
        true
    }
}

/// The two halves of a register pair, as in `QueueDescLow` and `QueueDescHigh`.
pub open spec fn is_address_pair(low: u64, high: u64) -> bool {
    ||| low == QUEUE_DESC_LOW && high == QUEUE_DESC_HIGH
    ||| low == QUEUE_AVAIL_LOW && high == QUEUE_AVAIL_HIGH
    ||| low == QUEUE_USED_LOW && high == QUEUE_USED_HIGH
}

/// The address of `q` that the register pair starting at `low` sets.
pub open spec fn paired_address(q: VirtQueue, low: u64) -> u64 {
    if low == QUEUE_DESC_LOW {
        q.desc_addr
    } else if low == QUEUE_AVAIL_LOW {
        q.avail_addr
    } else {
        q.used_addr
    }
}

/// Writing both halves of a queue address, in either order, sets the address to
/// those halves, whatever it was before.
pub proof fn law_split_address_writes(t: Transport, low: u64, high: u64, lo: u32, hi: u32)
    requires
        is_address_pair(low, high),
        t.selected() is Some,
    ensures
        t.write(low, lo).write(high, hi).selected() matches Some(q) && paired_address(q, low)
            == join_halves(hi, lo),
        t.write(high, hi).write(low, lo) == t.write(low, lo).write(high, hi),
{
    let a = t.write(low, lo).write(high, hi);
    let b = t.write(high, hi).write(low, lo);
    let sel = t.state.queue_sel as int;
    assert(a.queues[sel] == b.queues[sel]);
    assert(a.queues =~= b.queues);
    assert(a =~= b);
}

/// What was written to `Status` and to `QueueReady` is what these registers read.
pub proof fn law_registers_read_back(t: Transport, val: u32)
    ensures
        t.write(STATUS, val).read(STATUS) == val,
        t.selected() is Some ==> t.write(QUEUE_READY, val).read(QUEUE_READY) == if val != 0 {
            1u32
        } else {
            0u32
        },
        t.selected() is None ==> t.write(QUEUE_READY, val).read(QUEUE_READY) == 0,
{
}

/// No write changes what identifies the device: its magic, version, identifiers,
/// features and configuration space, and how many queues of what maximum size it
/// has.
pub proof fn law_identity_is_constant(t: Transport, offset: u64, val: u32)
    ensures
        t.write(offset, val).read(MAGIC_VALUE) == MAGIC,
        t.write(offset, val).read(VERSION) == VERSION_2,
        t.write(offset, val).read(DEVICE_ID) == t.read(DEVICE_ID),
        t.write(offset, val).read(VENDOR_ID) == t.read(VENDOR_ID),
        t.write(offset, val).device_features == t.device_features,
        t.write(offset, val).config == t.config,
        t.write(offset, val).queues.len() == t.queues.len(),
        forall|i: int|
            0 <= i < t.queues.len() ==> (#[trigger] t.write(offset, val).queues[i]).size_max
                == t.queues[i].size_max,
{
}

/// A write touches no queue but the selected one, and none at all where the device
/// has no such queue.
pub proof fn law_other_queues_untouched(t: Transport, offset: u64, val: u32, i: int)
    requires
        0 <= i < t.queues.len(),
        i != t.state.queue_sel,
    ensures
        t.write(offset, val).queues[i] == t.queues[i],
        t.selected() is None ==> t.write(offset, val).queues == t.queues,
{
}

/// The guest learns all 64 feature bits through the two selected halves, and the
/// two halves that it accepts make up the negotiated features.
pub proof fn law_feature_negotiation(t: Transport, lo: u32, hi: u32)
    ensures
        join_halves(
            t.write(DEVICE_FEATURES_SEL, 1).read(DEVICE_FEATURES),
            t.write(DEVICE_FEATURES_SEL, 0).read(DEVICE_FEATURES),
        ) == t.device_features,
        t.write(DRIVER_FEATURES_SEL, 0).write(DRIVER_FEATURES, lo).write(
            DRIVER_FEATURES_SEL,
            1,
        ).write(DRIVER_FEATURES, hi).state.driver_features == join_halves(hi, lo),
{
}

/// Acknowledging interrupts clears the acknowledged bits and keeps the others.
pub proof fn law_interrupt_ack(t: Transport, val: u32)
    ensures
        t.write(INTERRUPT_ACK, val).state.interrupt_status & val == 0,
        t.write(INTERRUPT_ACK, val).state.interrupt_status & !val == t.state.interrupt_status & !val,
{
    let s = t.state.interrupt_status;
    assert((s & !val) & val == 0 && (s & !val) & !val == s & !val) by (bit_vector);
}

/// The registers in which a write is kept.
pub open spec fn keeps_writes(offset: u64) -> bool {
    ||| offset == DEVICE_FEATURES_SEL
    ||| offset == DRIVER_FEATURES_SEL
    ||| offset == DRIVER_FEATURES
    ||| offset == QUEUE_SEL
    ||| offset == QUEUE_NUM
    ||| offset == QUEUE_READY
    ||| offset == INTERRUPT_ACK
    ||| offset == STATUS
    ||| offset == QUEUE_DESC_LOW
    ||| offset == QUEUE_DESC_HIGH
    ||| offset == QUEUE_AVAIL_LOW
    ||| offset == QUEUE_AVAIL_HIGH
    ||| offset == QUEUE_USED_LOW
    ||| offset == QUEUE_USED_HIGH
}

/// A notification, like a write to any register that does not keep it, leaves the
/// transport as it was.
pub proof fn law_notify_changes_nothing(t: Transport, val: u32)
    ensures
        t.write(QUEUE_NOTIFY, val) == t,
        forall|offset: u64| !keeps_writes(offset) ==> #[trigger] t.write(offset, val) == t,
{
}

/// A chain that was walked has at least one descriptor and no more than its budget;
/// each descriptor but the last points on to the next one, and the last to none.
pub proof fn law_chain_shape(mem: Seq<u8>, queue: VirtQueue, idx: u16, budget: nat)
    requires
        chain_from(mem, queue, idx, budget) is Ok,
    ensures
        ({
            let chain = chain_from(mem, queue, idx, budget)->Ok_0;
            &&& 1 <= chain.len() <= budget
            &&& idx < queue.size
            &&& descriptor_at(mem, queue.desc_addr, idx) == Ok::<Descriptor, QueueError>(chain[0])
            &&& chain.last().flags & VRING_DESC_F_NEXT == 0
            &&& forall|i: int|
                0 <= i < chain.len() - 1 ==> {
                    &&& (#[trigger] chain[i]).flags & VRING_DESC_F_NEXT != 0
                    &&& chain[i].next < queue.size
                    &&& descriptor_at(mem, queue.desc_addr, chain[i].next) == Ok::<
                        Descriptor,
                        QueueError,
                    >(chain[i + 1])
                }
        }),
    decreases budget,
{
    let chain = chain_from(mem, queue, idx, budget)->Ok_0;
    let d = descriptor_at(mem, queue.desc_addr, idx)->Ok_0;
    if d.flags & VRING_DESC_F_NEXT != 0 {
        law_chain_shape(mem, queue, d.next, (budget - 1) as nat);
        let rest = chain_from(mem, queue, d.next, (budget - 1) as nat)->Ok_0;
        assert(chain == seq![d] + rest);
        assert(chain.last() == rest.last());
        assert forall|i: int| 0 <= i < chain.len() - 1 implies {
            &&& (#[trigger] chain[i]).flags & VRING_DESC_F_NEXT != 0
            &&& chain[i].next < queue.size
            &&& descriptor_at(mem, queue.desc_addr, chain[i].next) == Ok::<Descriptor, QueueError>(
                chain[i + 1],
            )
        } by {
            if i > 0 {
                assert(chain[i] == rest[i - 1]);
                assert(chain[i + 1] == rest[i]);
            } else {
                assert(chain[1] == rest[0]);
            }
        }
    }
}

/// A chain that never ends is refused rather than followed for ever: if from every
/// descriptor in `nodes` the guest points on to another one in `nodes`, a walk that
/// starts there ends in an error, whatever its budget.
pub proof fn law_endless_chain_is_refused(
    mem: Seq<u8>,
    queue: VirtQueue,
    nodes: Set<u16>,
    idx: u16,
    budget: nat,
)
    requires
        nodes.contains(idx),
        forall|i: u16|
            nodes.contains(i) ==> {
                &&& (#[trigger] descriptor_at(mem, queue.desc_addr, i)) matches Ok(d)
                &&& d.flags & VRING_DESC_F_NEXT != 0
                &&& nodes.contains(d.next)
            },
    ensures
        chain_from(mem, queue, idx, budget) is Err,
    decreases budget,
{
    if budget > 0 {
        let d = descriptor_at(mem, queue.desc_addr, idx)->Ok_0;
        law_endless_chain_is_refused(mem, queue, nodes, d.next, (budget - 1) as nat);
    }
}

/// How many requests the guest has posted that were not taken yet, if the ring can
/// be read.
pub open spec fn pending(mem: Seq<u8>, queue: VirtQueue) -> int {
    (ring_load(mem, queue.avail_addr, 2, 2)->Ok_0 - queue.last_avail_idx) % 0x1_0000
}

/// Taking requests makes progress: one is there to take exactly while some are
/// pending, and each one taken leaves one fewer.
pub proof fn law_requests_drain(mem: Seq<u8>, queue: VirtQueue)
    requires
        queue.ready,
        queue.size > 0,
        next_head(mem, queue) is Ok,
    ensures
        next_head(mem, queue)->Ok_0 is Some <==> pending(mem, queue) > 0,
        next_head(mem, queue)->Ok_0 is Some ==> pending(
            mem,
            VirtQueue {
                last_avail_idx: ((queue.last_avail_idx + 1) % 0x1_0000) as u16,
                ..queue
            },
        ) == pending(mem, queue) - 1,
{
    let gpa = (queue.avail_addr + 2) as u64;
    crate::codec::lemma_le_value_bound(mem.subrange(gpa as int, gpa + 2));
    crate::codec::lemma_pow256_values();
}

/// What the guest reads, register by register: who the device is, the half of its features
/// and the queue that are selected, its state, the bytes of its configuration space, and
/// zero everywhere else.
pub proof fn law_reads(t: Transport, offset: u64)
    ensures
        t.read(0x000) == 0x7472_6976,
        t.read(0x004) == 2,
        t.read(0x008) == t.device_id,
        t.read(0x00c) == t.vendor_id,
        t.state.device_features_sel == 0 ==> t.read(0x010) == t.device_features as int
            % 0x1_0000_0000,
        t.state.device_features_sel == 1 ==> t.read(0x010) == t.device_features as int
            / 0x1_0000_0000,
        t.state.device_features_sel > 1 ==> t.read(0x010) == 0,
        t.state.queue_sel < t.queues.len() ==> {
            let q = t.queues[t.state.queue_sel as int];
            &&& t.read(0x034) == q.size_max
            &&& t.read(0x044) == if q.ready {
                1int
            } else {
                0
            }
        },
        t.state.queue_sel >= t.queues.len() ==> t.read(0x034) == 0 && t.read(0x044) == 0,
        t.read(0x060) == t.state.interrupt_status,
        t.read(0x070) == t.state.status,
        t.read(0x0fc) == t.state.config_generation,
        0x100 <= offset && offset - 0x100 + 4 <= t.config.len() ==> t.read(offset) == four_bytes(
            t.config,
            offset - 0x100,
        ),
        0x100 <= offset && offset - 0x100 + 4 > t.config.len() ==> t.read(offset) == 0,
        offset < 0x100 && offset != 0x000 && offset != 0x004 && offset != 0x008 && offset != 0x00c
            && offset != 0x010 && offset != 0x034 && offset != 0x044 && offset != 0x060 && offset
            != 0x070 && offset != 0x0fc ==> t.read(offset) == 0,
{
    if offset >= 0x100 && offset - 0x100 + 4 <= t.config.len() {
        law_little_endian_within(t.config, offset - 0x100);
    }
}

/// What a write changes of the transport's state: the register that was written, and
/// nothing else. The features that the guest accepts are written half by half.
pub proof fn law_writes_change_state(t: Transport, offset: u64, val: u32)
    ensures
        ({
            let u = t.write(offset, val);
            let before = t.state.driver_features as int;
            let after = u.state.driver_features as int;
            &&& u.device_id == t.device_id && u.vendor_id == t.vendor_id
            &&& u.device_features == t.device_features && u.config == t.config
            &&& u.state.device_features_sel == if offset == 0x014 {
                val
            } else {
                t.state.device_features_sel
            }
            &&& u.state.driver_features_sel == if offset == 0x024 {
                val
            } else {
                t.state.driver_features_sel
            }
            &&& u.state.queue_sel == if offset == 0x030 {
                val
            } else {
                t.state.queue_sel
            }
            &&& u.state.status == if offset == 0x070 {
                val
            } else {
                t.state.status
            }
            &&& u.state.interrupt_status == if offset == 0x064 {
                t.state.interrupt_status & !val
            } else {
                t.state.interrupt_status
            }
            &&& u.state.config_generation == t.state.config_generation
            &&& offset != 0x020 ==> after == before
            &&& offset == 0x020 && t.state.driver_features_sel == 0 ==> after % 0x1_0000_0000 == val
                && after / 0x1_0000_0000 == before / 0x1_0000_0000
            &&& offset == 0x020 && t.state.driver_features_sel != 0 ==> after / 0x1_0000_0000 == val
                && after % 0x1_0000_0000 == before % 0x1_0000_0000
        }),
{
}

/// One half of an address was written, and the other one is as it was.
pub open spec fn address_half_written(
    before: u64,
    after: u64,
    offset: u64,
    low: int,
    high: int,
    val: u32,
) -> bool {
    if offset == low {
        after as int % 0x1_0000_0000 == val && after as int / 0x1_0000_0000 == before as int
            / 0x1_0000_0000
    } else if offset == high {
        after as int / 0x1_0000_0000 == val && after as int % 0x1_0000_0000 == before as int
            % 0x1_0000_0000
    } else {
        after == before
    }
}

/// What a write changes of the queues: the field of the selected queue that the register
/// stands for, and nothing else.
pub proof fn law_writes_change_queues(t: Transport, offset: u64, val: u32, i: int)
    requires
        0 <= i < t.queues.len(),
    ensures
        ({
            let q = t.queues[i];
            let r = t.write(offset, val).queues[i];
            &&& t.write(offset, val).queues.len() == t.queues.len()
            &&& i != t.state.queue_sel ==> r == q
            &&& r.size_max == q.size_max && r.last_avail_idx == q.last_avail_idx
            &&& i == t.state.queue_sel ==> {
                &&& r.size == if offset == 0x038 {
                    val
                } else {
                    q.size
                }
                &&& r.ready == if offset == 0x044 {
                    val != 0
                } else {
                    q.ready
                }
                &&& address_half_written(q.desc_addr, r.desc_addr, offset, 0x080, 0x084, val)
                &&& address_half_written(q.avail_addr, r.avail_addr, offset, 0x090, 0x094, val)
                &&& address_half_written(q.used_addr, r.used_addr, offset, 0x0a0, 0x0a4, val)
            }
        }),
{
}

/// A queue that the guest has not configured has the size that the device offers, and is
/// empty otherwise.
pub proof fn law_unconfigured_queue(n: u32)
    ensures
        ({
            let q = VirtQueue::unconfigured(n);
            &&& q.size_max == n
            &&& q.size == 0 && !q.ready && q.last_avail_idx == 0
            &&& q.desc_addr == 0 && q.avail_addr == 0 && q.used_addr == 0
        }),
{
}

/// The transport after the guest has made the writes in `writes`, each an offset and a
/// value.
pub open spec fn after_writes(t: Transport, writes: Seq<(u64, u32)>) -> Transport
    decreases writes.len(),
{
    if writes.len() == 0 {
        t
    } else {
        let (offset, val) = writes.last();
        after_writes(t, writes.drop_last()).write(offset, val)
    }
}

proof fn lemma_sizes_survive(t: Transport, writes: Seq<(u64, u32)>)
    ensures
        after_writes(t, writes).queues.len() == t.queues.len(),
        forall|i: int|
            0 <= i < t.queues.len() ==> (#[trigger] after_writes(t, writes).queues[i]).size_max
                == t.queues[i].size_max,
    decreases writes.len(),
{
    if writes.len() > 0 {
        let before = writes.drop_last();
        lemma_sizes_survive(t, before);
        let (offset, val) = writes.last();
        let u = after_writes(t, before);
        law_identity_is_constant(u, offset, val);
        assert forall|i: int| 0 <= i < t.queues.len() implies (#[trigger] after_writes(
            t,
            writes,
        ).queues[i]).size_max == t.queues[i].size_max by {
            assert(u.queues[i].size_max == t.queues[i].size_max);
        }
    }
}

/// Whatever the guest has written to a device that was made with the queues `sizes`, and
/// whichever queue it then selects, `QueueNumMax` reads as that queue's size, and as zero
/// where there is no such queue.
pub proof fn law_queue_sizes_are_told(
    t: Transport,
    sizes: Seq<u32>,
    writes: Seq<(u64, u32)>,
    sel: u32,
)
    requires
        t.queues == sizes.map_values(|n: u32| VirtQueue::unconfigured(n)),
    ensures
        after_writes(t, writes).write(0x030, sel).read(0x034) == if sel < sizes.len() {
            sizes[sel as int]
        } else {
            0
        },
        ({
            let u = after_writes(t, writes);
            u.read(0x034) == if u.state.queue_sel < sizes.len() {
                sizes[u.state.queue_sel as int]
            } else {
                0
            }
        }),
{
    lemma_sizes_survive(t, writes);
    if sel < sizes.len() {
        assert(t.queues[sel as int].size_max == sizes[sel as int]);
        assert(after_writes(t, writes).queues[sel as int].size_max == sizes[sel as int]);
    }
    let i = after_writes(t, writes).state.queue_sel;
    if i < sizes.len() {
        assert(t.queues[i as int].size_max == sizes[i as int]);
        assert(after_writes(t, writes).queues[i as int].size_max == sizes[i as int]);
    }
}

/// A queue in use whose available ring lies in memory: the guest's counter is the
/// two-byte number behind the flags, and nothing is to be taken exactly where it is the
/// number of requests taken so far. Otherwise the next request is the one in the slot
/// that its number, counted round the ring, stands for.
pub proof fn law_next_request(mem: Seq<u8>, queue: VirtQueue)
    requires
        mem.len() <= usize::MAX,
        queue.ready,
        queue.size > 0,
        queue.avail_addr + 4 + 2 * queue.size <= mem.len(),
    ensures
        ({
            let counter = two_bytes(mem, queue.avail_addr + 2);
            let at = queue.avail_addr + 4 + 2 * (queue.last_avail_idx as int % queue.size as int);
            &&& counter == queue.last_avail_idx ==> next_head(mem, queue) == Ok::<
                Option<u16>,
                QueueError,
            >(None)
            &&& counter != queue.last_avail_idx ==> (next_head(mem, queue) matches Ok(Some(head))
                && head == two_bytes(mem, at))
        }),
{
    let slot = queue.last_avail_idx as int % queue.size as int;
    law_load_spells(mem, (queue.avail_addr + 2) as u64);
    law_load_spells(mem, (queue.avail_addr + 4 + 2 * slot) as u64);
}

/// The guest's requests are taken in the order in which it has posted them: where the
/// ring's entries are `heads`, the request that is taken after `k` others is entry `k`,
/// counted round the ring.
pub proof fn law_requests_come_in_order(mem: Seq<u8>, queue: VirtQueue, heads: Seq<u16>)
    requires
        mem.len() <= usize::MAX,
        queue.ready,
        queue.size > 0,
        queue.avail_addr + 4 + 2 * queue.size <= mem.len(),
        heads.len() == queue.size,
        forall|j: int|
            0 <= j < heads.len() ==> mem[queue.avail_addr + 4 + 2 * j] == (#[trigger] heads[j]) as int
                % 0x100 && mem[queue.avail_addr + 4 + 2 * j + 1] == heads[j] as int / 0x100,
        two_bytes(mem, queue.avail_addr + 2) != queue.last_avail_idx,
    ensures
        next_head(mem, queue) == Ok::<Option<u16>, QueueError>(
            Some(heads[queue.last_avail_idx as int % queue.size as int]),
        ),
{
    law_next_request(mem, queue);
    let slot = queue.last_avail_idx as int % queue.size as int;
    let head = heads[slot];
    assert(mem[queue.avail_addr + 4 + 2 * slot] == head as int % 0x100);
}

/// A queue that is not in use has no requests.
pub proof fn law_idle_queue(mem: Seq<u8>, queue: VirtQueue)
    requires
        !queue.ready || queue.size == 0,
    ensures
        next_head(mem, queue) == Ok::<Option<u16>, QueueError>(None),
{
}

/// A descriptor in memory is sixteen bytes: the address, the length, the flags and the
/// next descriptor's index, each low byte first.
pub proof fn law_descriptor_bytes(mem: Seq<u8>, table: u64, idx: u16)
    requires
        mem.len() <= usize::MAX,
        table + 16 * idx + 16 <= mem.len(),
    ensures
        ({
            let at = table + 16 * idx;
            &&& descriptor_at(mem, table, idx) matches Ok(d)
            &&& d.addr == eight_bytes(mem, at)
            &&& d.len == four_bytes(mem, at + 8)
            &&& d.flags == two_bytes(mem, at + 12)
            &&& d.next == two_bytes(mem, at + 14)
        }),
{
    let at = table + 16 * idx;
    law_load_spells(mem, at as u64);
    law_load_spells(mem, (at + 8) as u64);
    law_load_spells(mem, (at + 12) as u64);
    law_load_spells(mem, (at + 14) as u64);
}

/// The table's descriptor `idx` is not all in memory, so it cannot be had.
pub proof fn law_descriptor_outside_memory(mem: Seq<u8>, table: u64, idx: u16)
    requires
        mem.len() <= usize::MAX,
        table + 16 * idx + 16 > mem.len(),
    ensures
        descriptor_at(mem, table, idx) is Err,
{
}

/// A chain that is laid out in memory is walked to its end: descriptors of which each but
/// the last has the next-flag and names the one behind it, and of which there are no more
/// than the walk may take.
pub proof fn law_chain_is_followed(
    mem: Seq<u8>,
    queue: VirtQueue,
    idx: u16,
    budget: nat,
    descriptors: Seq<Descriptor>,
)
    requires
        1 <= descriptors.len() <= budget,
        idx < queue.size,
        descriptor_at(mem, queue.desc_addr, idx) == Ok::<Descriptor, QueueError>(descriptors[0]),
        descriptors.last().flags & 1 == 0,
        forall|i: int|
            0 <= i < descriptors.len() - 1 ==> {
                &&& (#[trigger] descriptors[i]).flags & 1 != 0
                &&& descriptors[i].next < queue.size
                &&& descriptor_at(mem, queue.desc_addr, descriptors[i].next) == Ok::<
                    Descriptor,
                    QueueError,
                >(descriptors[i + 1])
            },
    ensures
        chain_from(mem, queue, idx, budget) == Ok::<Seq<Descriptor>, QueueError>(descriptors),
    decreases budget,
{
    if descriptors.len() == 1 {
        assert(seq![descriptors[0]] =~= descriptors);
    } else {
        let rest = descriptors.drop_first();
        assert(descriptors[0].flags & 1 != 0);
        assert forall|i: int| 0 <= i < rest.len() - 1 implies {
            &&& (#[trigger] rest[i]).flags & 1 != 0
            &&& rest[i].next < queue.size
            &&& descriptor_at(mem, queue.desc_addr, rest[i].next) == Ok::<Descriptor, QueueError>(
                rest[i + 1],
            )
        } by {
            assert(rest[i] == descriptors[i + 1]);
        }
        law_chain_is_followed(mem, queue, descriptors[0].next, (budget - 1) as nat, rest);
        assert(seq![descriptors[0]] + rest =~= descriptors);
    }
}

/// A walk that comes to an index beyond the queue, or to a descriptor that is not in
/// memory, fails with that.
pub proof fn law_broken_chain_is_refused(mem: Seq<u8>, queue: VirtQueue, idx: u16, budget: nat)
    requires
        budget > 0,
    ensures
        idx >= queue.size ==> chain_from(mem, queue, idx, budget) == Err::<
            Seq<Descriptor>,
            QueueError,
        >(QueueError::IndexOutOfRange { index: idx, size: queue.size }),
        idx < queue.size ==> (descriptor_at(mem, queue.desc_addr, idx) matches Err(e)
            ==> chain_from(mem, queue, idx, budget) == Err::<Seq<Descriptor>, QueueError>(e)),
        idx < queue.size ==> (descriptor_at(mem, queue.desc_addr, idx) matches Ok(d) ==> d.flags & 1
            != 0 ==> (chain_from(mem, queue, d.next, (budget - 1) as nat) matches Err(e)
            ==> chain_from(mem, queue, idx, budget) == Err::<Seq<Descriptor>, QueueError>(e))),
        chain_from(mem, queue, idx, 0) == Err::<Seq<Descriptor>, QueueError>(
            QueueError::ChainTooLong { size: queue.size },
        ),
{
}

/// A request whose counter or whose place in the ring is not in memory cannot be taken.
pub proof fn law_ring_outside_memory(mem: Seq<u8>, queue: VirtQueue)
    requires
        mem.len() <= usize::MAX,
        queue.ready,
        queue.size > 0,
    ensures
        queue.avail_addr + 4 > mem.len() ==> next_head(mem, queue) is Err,
        queue.avail_addr + 4 <= mem.len() && two_bytes(mem, queue.avail_addr + 2)
            != queue.last_avail_idx && queue.avail_addr + 6 + 2 * (queue.last_avail_idx as int
            % queue.size as int) > mem.len() ==> next_head(mem, queue) is Err,
{
    if queue.avail_addr + 4 <= mem.len() {
        law_load_spells(mem, (queue.avail_addr + 2) as u64);
    }
}

/// A message about a queue tells the descriptor's number and the queue's size, in decimal.
pub proof fn law_messages(index: u16, size: u32, e: RamError)
    ensures
        (QueueError::IndexOutOfRange { index, size }).text() == "descriptor index "@ + decimal(
            index as nat,
        ) + " out of range "@ + decimal(size as nat),
        (QueueError::ChainTooLong { size }).text() == "descriptor chain longer than queue size "@
            + decimal(size as nat),
        QueueError::Ram(e).text() == e.text(),
{
}

} // verus!
