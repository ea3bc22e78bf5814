//! Scenario tests for the sub-allocator: construction, routing, first-fit
//! reuse, dedicated arenas, and the free-list disjointness they rely on.

use erupt::vk;

use vk_suballoc::allocator::{
    AllocError, Allocation, MemoryRequirements, MemoryType, VkAllocator, MIN_DEVICE_VK_MEM_SIZE,
    MIN_HOST_VK_MEM_SIZE,
};

const DEVICE_FLAGS: u32 = 0x1;
const HOST_FLAGS: u32 = 0xe;

fn new_allocator() -> VkAllocator {
    VkAllocator::new(&vec![DEVICE_FLAGS, HOST_FLAGS]).expect("table has exact matches")
}

fn req(size: u64, alignment: u64) -> MemoryRequirements {
    MemoryRequirements { size, alignment, memory_type_bits: 0xffff_ffff }
}

fn handle(n: u64) -> vk::DeviceMemory {
    vk::DeviceMemory(n)
}

/// Allocate, creating a backing allocation whenever the pools ask for one.
fn grab(
    a: &mut VkAllocator,
    r: &MemoryRequirements,
    mem_type: MemoryType,
) -> vk_suballoc::allocator::MemoryBlock {
    match a.allocate(r, mem_type).expect("compatible request") {
        Allocation::Block(b) => b,
        Allocation::NeedsArena(ar) => {
            let base = if ar.should_map { Some(0x10_0000) } else { None };
            a.allocate_with_arena(r, mem_type, handle(ar.mem_type_idx as u64 + 1), base)
                .expect("compatible request")
        }
    }
}

/// Every pair of free regions of the arena must be disjoint and sorted.
fn assert_free_list_sorted_disjoint(a: &VkAllocator, mem_type: MemoryType, arena_idx: usize) {
    let count = a.free_region_count(mem_type, arena_idx).expect("arena exists");
    for i in 1..count {
        let prev = a.free_region_at(mem_type, arena_idx, i - 1).unwrap();
        let cur = a.free_region_at(mem_type, arena_idx, i).unwrap();
        assert!(prev.offset + prev.size <= cur.offset, "free regions overlap or are unsorted");
    }
}

#[test]
fn construction_picks_first_exact_match() {
    let flags = vec![0xe, 0x1, 0xe, 0x1];
    let a = VkAllocator::new(&flags).expect("both kinds match");
    // first exact matches: device at 1, host at 0
    let r = req(100, 0);
    let mut a = a;
    let out = a.allocate(&r, MemoryType::Device).unwrap();
    match out {
        Allocation::NeedsArena(ar) => assert_eq!(ar.mem_type_idx, 1),
        _ => panic!("fresh allocator has no arenas"),
    }
    let out = a.allocate(&r, MemoryType::Host).unwrap();
    match out {
        Allocation::NeedsArena(ar) => {
            assert_eq!(ar.mem_type_idx, 0);
            assert!(ar.should_map);
            assert_eq!(ar.size, MIN_HOST_VK_MEM_SIZE);
        }
        _ => panic!("fresh allocator has no arenas"),
    }
}

#[test]
fn construction_rejects_superset_flags() {
    // a type with more than the wanted device flags, and one with more than
    // the wanted host flags: no exact match for either kind
    let flags = vec![0x1 | 0x2, 0xe | 0x1];
    match VkAllocator::new(&flags) {
        Err(AllocError::NoSuitableMemoryType) => {}
        _ => panic!("superset flags must not match"),
    }
    // device matches exactly but host has only a superset: still rejected
    let flags = vec![0x1, 0xe | 0x10];
    match VkAllocator::new(&flags) {
        Err(AllocError::NoSuitableMemoryType) => {}
        _ => panic!("one missing kind fails the whole construction"),
    }
}

#[test]
fn incompatible_bitmask_is_rejected_without_state_change() {
    let mut a = new_allocator();
    // bit 0 (the device pool's index) cleared
    let r = MemoryRequirements { size: 100, alignment: 4, memory_type_bits: 0b10 };
    match a.allocate(&r, MemoryType::Device) {
        Err(AllocError::IncompatibleMemoryType) => {}
        _ => panic!("excluded index must be rejected"),
    }
    assert_eq!(a.arena_count(MemoryType::Device), 0);
    assert_eq!(a.arena_count(MemoryType::Host), 0);
    // the same request is fine for the host pool (bit 1 set)
    match a.allocate(&r, MemoryType::Host) {
        Ok(Allocation::NeedsArena(_)) => {}
        _ => panic!("host pool index is admitted by the mask"),
    }
}

#[test]
fn first_allocation_grows_pool_and_is_served_at_offset_zero() {
    let mut a = new_allocator();
    let r = req(300, 16);
    match a.allocate(&r, MemoryType::Device).unwrap() {
        Allocation::NeedsArena(ar) => {
            assert_eq!(ar.size, MIN_DEVICE_VK_MEM_SIZE);
            assert_eq!(ar.mem_type_idx, 0);
            assert!(!ar.should_map);
            let b = a
                .allocate_with_arena(&r, MemoryType::Device, handle(7), None)
                .unwrap();
            assert_eq!(b.offset(), 0);
            assert_eq!(b.mem(), handle(7));
            assert_eq!(b.ptr(), None);
        }
        _ => panic!("fresh allocator has no arenas"),
    }
    assert_eq!(a.arena_count(MemoryType::Device), 1);
    // the remainder of the arena is one free region
    assert_eq!(a.free_region_count(MemoryType::Device, 0), Some(1));
    let rest = a.free_region_at(MemoryType::Device, 0, 0).unwrap();
    assert_eq!(rest.offset, 300);
    assert_eq!(rest.size, MIN_DEVICE_VK_MEM_SIZE - 300);
}

#[test]
fn alignment_is_respected() {
    let mut a = new_allocator();
    let b1 = grab(&mut a, &req(10, 1), MemoryType::Device);
    assert_eq!(b1.offset(), 0);
    // the next free offset is 10; sixteen-byte alignment pads to 16
    let b2 = grab(&mut a, &req(300, 16), MemoryType::Device);
    assert_eq!(b2.offset(), 16);
    assert_eq!(b2.offset() % 16, 0);
    // containment: the span ends within the arena
    assert!(b2.offset() + 300 <= MIN_DEVICE_VK_MEM_SIZE);
    assert_free_list_sorted_disjoint(&a, MemoryType::Device, 0);
}

#[test]
fn freed_block_is_reused_without_new_arena() {
    let mut a = new_allocator();
    let r = req(300, 16);
    let b = grab(&mut a, &r, MemoryType::Device);
    assert_eq!(a.arena_count(MemoryType::Device), 1);
    a.free(b);
    // the same request is served from the reclaimed region
    match a.allocate(&r, MemoryType::Device).unwrap() {
        Allocation::Block(b2) => {
            assert_eq!(b2.offset(), 0);
            a.free(b2);
        }
        Allocation::NeedsArena(_) => panic!("freed region must be reused"),
    }
    assert_eq!(a.arena_count(MemoryType::Device), 1);
}

#[test]
fn request_at_or_above_minimum_gets_dedicated_arena() {
    let mut a = new_allocator();
    let r = req(MIN_DEVICE_VK_MEM_SIZE, 0);
    match a.allocate(&r, MemoryType::Device).unwrap() {
        Allocation::NeedsArena(ar) => {
            assert_eq!(ar.size, MIN_DEVICE_VK_MEM_SIZE);
            let b = a
                .allocate_with_arena(&r, MemoryType::Device, handle(9), None)
                .unwrap();
            assert_eq!(b.offset(), 0);
        }
        _ => panic!("fresh allocator has no arenas"),
    }
    // dedicated: the whole arena belongs to the one block
    assert_eq!(a.free_region_count(MemoryType::Device, 0), Some(0));

    // a request above the minimum also gets a dedicated, larger arena
    let big = req(MIN_DEVICE_VK_MEM_SIZE + 4096, 0);
    match a.allocate(&big, MemoryType::Device).unwrap() {
        Allocation::NeedsArena(ar) => {
            assert_eq!(ar.size, MIN_DEVICE_VK_MEM_SIZE + 4096);
            a.allocate_with_arena(&big, MemoryType::Device, handle(10), None)
                .unwrap();
        }
        _ => panic!("a dedicated arena has no free space to serve this"),
    }
    assert_eq!(a.arena_count(MemoryType::Device), 2);
    assert_eq!(a.free_region_count(MemoryType::Device, 1), Some(0));
}

#[test]
fn second_arena_created_when_first_cannot_fit() {
    let mut a = new_allocator();
    // fill the first arena completely
    let whole = req(MIN_DEVICE_VK_MEM_SIZE, 0);
    let _b1 = grab(&mut a, &whole, MemoryType::Device);
    assert_eq!(a.arena_count(MemoryType::Device), 1);
    // the next request cannot fit there
    match a.allocate(&req(100, 0), MemoryType::Device).unwrap() {
        Allocation::NeedsArena(ar) => assert_eq!(ar.size, MIN_DEVICE_VK_MEM_SIZE),
        Allocation::Block(_) => panic!("full arena cannot serve"),
    }
}

#[test]
fn host_blocks_carry_mapped_addresses() {
    let mut a = new_allocator();
    let r = req(100, 0);
    match a.allocate(&r, MemoryType::Host).unwrap() {
        Allocation::NeedsArena(ar) => {
            assert!(ar.should_map);
            assert_eq!(ar.size, MIN_HOST_VK_MEM_SIZE);
            let b = a
                .allocate_with_arena(&r, MemoryType::Host, handle(3), Some(0x4000))
                .unwrap();
            assert_eq!(b.ptr(), Some(0x4000));
            a.free(b);
        }
        _ => panic!("fresh allocator has no arenas"),
    }
    // a second host block derives its address from the base
    let b1 = grab(&mut a, &req(100, 0), MemoryType::Host);
    let b2 = grab(&mut a, &req(50, 64), MemoryType::Host);
    assert_eq!(b1.ptr(), Some(0x4000));
    // 100 padded up to 128 for the 64-byte alignment
    assert_eq!(b2.offset(), 128);
    assert_eq!(b2.ptr(), Some(0x4000 + 128));
}

#[test]
fn destroy_returns_every_backing_handle_in_order() {
    let mut a = new_allocator();
    let _d = grab(&mut a, &req(100, 0), MemoryType::Device);
    let _h = grab(&mut a, &req(100, 0), MemoryType::Host);
    let _d2 = grab(&mut a, &req(MIN_DEVICE_VK_MEM_SIZE, 0), MemoryType::Device);
    let mems = a.destroy();
    // device arenas first, then host arenas, each in creation order
    assert_eq!(mems.len(), 3);
    assert_eq!(mems[0], handle(1));
    assert_eq!(mems[1], handle(1));
    assert_eq!(mems[2], handle(2));
}

#[test]
fn error_messages_name_each_failure() {
    assert!(AllocError::NoSuitableMemoryType.message().contains("memory type"));
    assert!(AllocError::IncompatibleMemoryType.message().contains("incompatible"));
    assert!(AllocError::AllocationFailed.message().contains("failed"));
}
