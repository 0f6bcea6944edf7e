use hyperpod::vmm::common::device::mmio::{
    Descriptor, DescriptorChain, QueueError, VirtQueue, VirtioMmio, AVAIL_RING_HDR, CONFIG_SPACE,
    DEVICE_FEATURES, DEVICE_FEATURES_SEL, DEVICE_ID, DRIVER_FEATURES, DRIVER_FEATURES_SEL,
    INTERRUPT_ACK, INTERRUPT_STATUS, MAGIC, MAGIC_VALUE, QUEUE_AVAIL_HIGH, QUEUE_AVAIL_LOW,
    QUEUE_DESC_HIGH, QUEUE_DESC_LOW, QUEUE_NOTIFY, QUEUE_NUM, QUEUE_NUM_MAX, QUEUE_READY,
    QUEUE_SEL, QUEUE_USED_HIGH, QUEUE_USED_LOW, STATUS, VENDOR_ID, VERSION, VERSION_2,
    VRING_DESC_F_NEXT, VRING_DESC_F_WRITE,
};
use hyperpod::vmm::common::ram::{Access, GuestRam, RamError};

#[test]
fn magic_and_version_are_constant() {
    let m = VirtioMmio::new(2, 0x1af4, 0, &[256]);
    assert_eq!(m.read32(MAGIC_VALUE), MAGIC);
    assert_eq!(m.read32(VERSION), VERSION_2);
    assert_eq!(m.read32(DEVICE_ID), 2);
}

#[test]
fn queue_addr_split_writes_roundtrip() {
    let mut m = VirtioMmio::new(2, 0x1af4, 0, &[256]);
    m.write32(QUEUE_SEL, 0);
    m.write32(QUEUE_NUM, 64);
    m.write32(QUEUE_DESC_LOW, 0x1000);
    m.write32(QUEUE_DESC_HIGH, 0x0000_0001);
    m.write32(QUEUE_READY, 1);
    assert_eq!(m.read32(QUEUE_READY), 1);
    let q = m.queues[0];
    assert_eq!(q.size, 64);
    assert_eq!(q.desc_addr, 0x0000_0001_0000_1000);
    assert!(q.ready);
}

#[test]
fn queue_notify_returns_index() {
    let mut m = VirtioMmio::new(2, 0x1af4, 0, &[256]);
    assert_eq!(m.write32(QUEUE_NOTIFY, 0), Some(0));
    assert_eq!(m.write32(QUEUE_NOTIFY, 7), Some(7));
    assert_eq!(m.write32(QUEUE_SEL, 0), None);
}

fn queue() -> VirtQueue {
    VirtQueue {
        size_max: 8,
        size: 8,
        ready: true,
        desc_addr: 0x1000,
        avail_addr: 0x2000,
        used_addr: 0x3000,
        last_avail_idx: 0,
    }
}

fn put_descriptor(ram: &mut GuestRam, q: &VirtQueue, i: u16, d: Descriptor) {
    let at = q.desc_addr + 16 * i as u64;
    ram.write_obj::<u64>(at, d.addr).unwrap();
    ram.write_obj::<u32>(at + 8, d.len).unwrap();
    ram.write_obj::<u16>(at + 12, d.flags).unwrap();
    ram.write_obj::<u16>(at + 14, d.next).unwrap();
}

#[test]
fn descriptor_chain_pops_from_avail_ring() {
    let mut ram = GuestRam::new(1).unwrap();
    let mut queue = VirtQueue {
        size_max: 8,
        size: 8,
        ready: true,
        desc_addr: 0x1000,
        avail_addr: 0x2000,
        used_addr: 0x3000,
        last_avail_idx: 0,
    };
    // Single descriptor at index 0: addr=0x4000, len=512, no next.
    ram.write_obj::<u64>(queue.desc_addr, 0x4000).unwrap();
    ram.write_obj::<u32>(queue.desc_addr + 8, 512).unwrap();
    ram.write_obj::<u16>(queue.desc_addr + 12, 0).unwrap();
    ram.write_obj::<u16>(queue.desc_addr + 14, 0).unwrap();
    // Available ring: idx=1, ring[0]=0 (head descriptor).
    ram.write_obj::<u16>(queue.avail_addr + 2, 1).unwrap();
    ram.write_obj::<u16>(queue.avail_addr + AVAIL_RING_HDR, 0).unwrap();

    let chain = DescriptorChain::pop(&mut queue, &ram).unwrap().unwrap();
    assert_eq!(chain.head_index, 0);
    assert_eq!(chain.descriptors.len(), 1);
    assert_eq!(chain.descriptors[0].addr, 0x4000);
    assert_eq!(chain.descriptors[0].len, 512);
    assert_eq!(queue.last_avail_idx, 1);

    // No further requests.
    assert!(DescriptorChain::pop(&mut queue, &ram).unwrap().is_none());
}

#[test]
fn chain_follows_next_in_order() {
    let mut ram = GuestRam::new(1).unwrap();
    let mut q = queue();
    put_descriptor(&mut ram, &q, 3, Descriptor { addr: 0x4000, len: 16, flags: VRING_DESC_F_NEXT, next: 5 });
    put_descriptor(
        &mut ram,
        &q,
        5,
        Descriptor { addr: 0x5000, len: 512, flags: VRING_DESC_F_NEXT | VRING_DESC_F_WRITE, next: 1 },
    );
    put_descriptor(&mut ram, &q, 1, Descriptor { addr: 0x6000, len: 1, flags: VRING_DESC_F_WRITE, next: 9 });
    ram.write_obj::<u16>(q.avail_addr + 2, 1).unwrap();
    ram.write_obj::<u16>(q.avail_addr + AVAIL_RING_HDR, 3).unwrap();
    let chain = DescriptorChain::pop(&mut q, &ram).unwrap().unwrap();
    assert_eq!(chain.head_index, 3);
    let addrs: Vec<u64> = chain.descriptors.iter().map(|d| d.addr).collect();
    assert_eq!(addrs, vec![0x4000, 0x5000, 0x6000]);
    assert!(!chain.is_write_only());
    let tail = DescriptorChain { head_index: 5, descriptors: chain.descriptors[1..].to_vec() };
    assert!(tail.is_write_only());
}

#[test]
fn endless_chain_is_refused() {
    let mut ram = GuestRam::new(1).unwrap();
    let mut q = queue();
    put_descriptor(&mut ram, &q, 0, Descriptor { addr: 0, len: 0, flags: VRING_DESC_F_NEXT, next: 0 });
    ram.write_obj::<u16>(q.avail_addr + 2, 1).unwrap();
    match DescriptorChain::pop(&mut q, &ram) {
        Err(e) => {
            assert_eq!(e, QueueError::ChainTooLong { size: 8 });
            assert_eq!(e.message(), "descriptor chain longer than queue size 8");
        }
        Ok(_) => panic!("expected an error"),
    }
    assert_eq!(q.last_avail_idx, 1);
}

#[test]
fn descriptor_index_out_of_range_is_refused() {
    let mut ram = GuestRam::new(1).unwrap();
    let mut q = queue();
    ram.write_obj::<u16>(q.avail_addr + 2, 1).unwrap();
    ram.write_obj::<u16>(q.avail_addr + AVAIL_RING_HDR, 8).unwrap();
    match DescriptorChain::pop(&mut q, &ram) {
        Err(e) => {
            assert_eq!(e, QueueError::IndexOutOfRange { index: 8, size: 8 });
            assert_eq!(e.message(), "descriptor index 8 out of range 8");
        }
        Ok(_) => panic!("expected an error"),
    }
}

#[test]
fn rings_outside_memory_are_refused() {
    let ram = GuestRam::new(1).unwrap();
    let mut q = queue();
    q.avail_addr = 0x10_0000;
    match DescriptorChain::pop(&mut q, &ram) {
        Err(e) => assert_eq!(
            e,
            QueueError::Ram(RamError::OutOfBounds {
                access: Access::Read,
                start: 0x10_0002,
                end: 0x10_0004,
                size: 0x10_0000
            })
        ),
        Ok(_) => panic!("expected an error"),
    }
    q.avail_addr = u64::MAX;
    match DescriptorChain::pop(&mut q, &ram) {
        Err(e) => assert_eq!(e, QueueError::AddressOverflow),
        Ok(_) => panic!("expected an error"),
    }
}

#[test]
fn queue_that_is_not_ready_has_no_requests() {
    let mut ram = GuestRam::new(1).unwrap();
    let mut q = queue();
    ram.write_obj::<u16>(q.avail_addr + 2, 1).unwrap();
    q.ready = false;
    assert!(DescriptorChain::pop(&mut q, &ram).unwrap().is_none());
    q.ready = true;
    q.size = 0;
    assert!(DescriptorChain::pop(&mut q, &ram).unwrap().is_none());
}

#[test]
fn requests_wrap_around_the_ring() {
    let mut ram = GuestRam::new(1).unwrap();
    let mut q = queue();
    q.last_avail_idx = 0xffff;
    ram.write_obj::<u16>(q.avail_addr + 2, 0).unwrap();
    ram.write_obj::<u16>(q.avail_addr + AVAIL_RING_HDR + 2 * 7, 2).unwrap();
    let chain = DescriptorChain::pop(&mut q, &ram).unwrap().unwrap();
    assert_eq!(chain.head_index, 2);
    assert_eq!(q.last_avail_idx, 0);
}

#[test]
fn registers_read_back() {
    let mut m = VirtioMmio::new(2, 0x1af4, 0x0000_0005_0000_0003, &[256, 16]);
    assert_eq!(m.read32(VENDOR_ID), 0x1af4);
    assert_eq!(m.read32(DEVICE_FEATURES), 3);
    m.write32(DEVICE_FEATURES_SEL, 1);
    assert_eq!(m.read32(DEVICE_FEATURES), 5);
    m.write32(DEVICE_FEATURES_SEL, 2);
    assert_eq!(m.read32(DEVICE_FEATURES), 0);
    m.write32(QUEUE_SEL, 1);
    assert_eq!(m.read32(QUEUE_NUM_MAX), 16);
    m.write32(QUEUE_AVAIL_LOW, 0x2000);
    m.write32(QUEUE_AVAIL_HIGH, 2);
    m.write32(QUEUE_USED_HIGH, 3);
    m.write32(QUEUE_USED_LOW, 0x3000);
    assert_eq!(m.queues[1].avail_addr, 0x0000_0002_0000_2000);
    assert_eq!(m.queues[1].used_addr, 0x0000_0003_0000_3000);
    assert_eq!(m.queues[0].avail_addr, 0);
    m.write32(QUEUE_SEL, 2);
    assert_eq!(m.read32(QUEUE_NUM_MAX), 0);
    m.write32(QUEUE_READY, 1);
    assert!(!m.queues[0].ready && !m.queues[1].ready);
    m.write32(STATUS, 0xf);
    assert_eq!(m.read32(STATUS), 0xf);
    assert_eq!(m.status(), 0xf);
    m.write32(DRIVER_FEATURES, 7);
    m.write32(DRIVER_FEATURES_SEL, 1);
    m.write32(DRIVER_FEATURES, 9);
    assert_eq!(m.state.driver_features, 0x0000_0009_0000_0007);
    assert_eq!(m.read32(0x7c), 0);
}

#[test]
fn interrupts_are_acknowledged_bit_by_bit() {
    let mut m = VirtioMmio::new(2, 0, 0, &[]);
    m.state.interrupt_status = 3;
    m.write32(INTERRUPT_ACK, 1);
    assert_eq!(m.read32(INTERRUPT_STATUS), 2);
}

#[test]
fn config_space_reads_little_endian() {
    let mut m = VirtioMmio::new(2, 0, 0, &[]);
    m.config = vec![1, 2, 3, 4, 5, 6];
    assert_eq!(m.read32(CONFIG_SPACE), 0x0403_0201);
    assert_eq!(m.read32(CONFIG_SPACE + 2), 0x0605_0403);
}

#[test]
fn default_queue_is_unconfigured() {
    let q = VirtQueue::default();
    assert_eq!((q.size_max, q.size, q.ready, q.last_avail_idx), (0, 0, false, 0));
    assert_eq!((q.desc_addr, q.avail_addr, q.used_addr), (0, 0, 0));
}

#[test]
fn writes_to_other_registers_change_nothing() {
    let mut m = VirtioMmio::new(2, 0x1af4, 3, &[256]);
    let (state, queue) = (m.state, m.queues[0]);
    for offset in [MAGIC_VALUE, VERSION, QUEUE_NOTIFY, QUEUE_NUM_MAX, INTERRUPT_STATUS, CONFIG_SPACE, u64::MAX] {
        m.write32(offset, 0xffff_ffff);
    }
    assert_eq!((m.state, m.queues[0]), (state, queue));
}
