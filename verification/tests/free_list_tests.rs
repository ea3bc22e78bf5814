//! Free-list coalescing behavior: merging is forward-only, and the padding
//! utility is exact.

use erupt::vk;

use vk_suballoc::allocator::{Allocation, MemoryRequirements, MemoryType, VkAllocator};
use vk_suballoc::padding;

fn new_allocator() -> VkAllocator {
    VkAllocator::new(&vec![0x1, 0xe]).expect("table has exact matches")
}

fn req(size: u64) -> MemoryRequirements {
    MemoryRequirements { size, alignment: 0, memory_type_bits: 0xffff_ffff }
}

fn grab(a: &mut VkAllocator, size: u64) -> vk_suballoc::allocator::MemoryBlock {
    let r = req(size);
    match a.allocate(&r, MemoryType::Device).expect("compatible") {
        Allocation::Block(b) => b,
        Allocation::NeedsArena(ar) => a
            .allocate_with_arena(&r, MemoryType::Device, vk::DeviceMemory(1), {
                assert!(!ar.should_map);
                None
            })
            .expect("compatible"),
    }
}

#[test]
fn padding_is_exact() {
    assert_eq!(padding(0, 16), 0);
    assert_eq!(padding(8, 16), 8);
    assert_eq!(padding(16, 16), 0);
    assert_eq!(padding(17, 16), 15);
    assert_eq!(padding(1, 3), 2);
    // zero alignment means unconstrained: no padding
    assert_eq!(padding(5, 0), 0);
}

#[test]
fn freeing_before_a_contiguous_region_merges_forward() {
    let mut a = new_allocator();
    // carve [0,50), [50,100), [100,150) and keep the rest allocated-free
    let b1 = grab(&mut a, 50);
    let b2 = grab(&mut a, 50);
    let b3 = grab(&mut a, 50);
    // consume the rest of the arena so only freed spans are free
    let _rest = grab(&mut a, vk_suballoc::allocator::MIN_DEVICE_VK_MEM_SIZE - 150);
    assert_eq!(b1.offset(), 0);
    assert_eq!(b2.offset(), 50);
    assert_eq!(b3.offset(), 100);

    // free [100,150): becomes the free region at offset 100, size 50
    a.free(b3);
    assert_eq!(a.free_region_count(MemoryType::Device, 0), Some(1));
    let r = a.free_region_at(MemoryType::Device, 0, 0).unwrap();
    assert_eq!((r.offset, r.size), (100, 50));

    // free [50,100): contiguous with the following region, merged forward
    // into a single free region at offset 50, size 100
    a.free(b2);
    assert_eq!(a.free_region_count(MemoryType::Device, 0), Some(1));
    let r = a.free_region_at(MemoryType::Device, 0, 0).unwrap();
    assert_eq!((r.offset, r.size), (50, 100));
    assert_eq!(b1.offset(), 0);
}

#[test]
fn freeing_after_a_contiguous_region_does_not_merge_backward() {
    let mut a = new_allocator();
    let b1 = grab(&mut a, 50);
    let b2 = grab(&mut a, 50);
    let b3 = grab(&mut a, 50);
    // consume the rest of the arena so only freed spans are free
    let _rest = grab(&mut a, vk_suballoc::allocator::MIN_DEVICE_VK_MEM_SIZE - 150);

    // free [0,50) and [100,150): two standalone regions
    a.free(b1);
    a.free(b3);
    assert_eq!(a.free_region_count(MemoryType::Device, 0), Some(2));

    // free [50,100): its end touches [100,150), which absorbs it forward;
    // the preceding region [0,50), though contiguous at 50, stays separate
    a.free(b2);
    assert_eq!(a.free_region_count(MemoryType::Device, 0), Some(2));
    let first = a.free_region_at(MemoryType::Device, 0, 0).unwrap();
    let second = a.free_region_at(MemoryType::Device, 0, 1).unwrap();
    assert_eq!((first.offset, first.size), (0, 50));
    assert_eq!((second.offset, second.size), (50, 100));
}

#[test]
fn freeing_with_no_following_region_appends() {
    let mut a = new_allocator();
    let whole = MemoryRequirements {
        size: vk_suballoc::allocator::MIN_DEVICE_VK_MEM_SIZE,
        alignment: 0,
        memory_type_bits: 0xffff_ffff,
    };
    // a dedicated arena: no free regions at all
    let b = match a.allocate(&whole, MemoryType::Device).unwrap() {
        Allocation::NeedsArena(_) => a
            .allocate_with_arena(&whole, MemoryType::Device, vk::DeviceMemory(1), None)
            .unwrap(),
        Allocation::Block(_) => panic!("fresh allocator has no arenas"),
    };
    assert_eq!(a.free_region_count(MemoryType::Device, 0), Some(0));
    a.free(b);
    assert_eq!(a.free_region_count(MemoryType::Device, 0), Some(1));
    let r = a.free_region_at(MemoryType::Device, 0, 0).unwrap();
    assert_eq!((r.offset, r.size), (0, vk_suballoc::allocator::MIN_DEVICE_VK_MEM_SIZE));
}

#[test]
fn first_fit_prefers_the_earlier_region() {
    let mut a = new_allocator();
    let b1 = grab(&mut a, 100);
    let b2 = grab(&mut a, 10);
    let b3 = grab(&mut a, 100);
    // consume the rest of the arena so only freed spans are free
    let _rest = grab(&mut a, vk_suballoc::allocator::MIN_DEVICE_VK_MEM_SIZE - 210);
    assert_eq!(b2.offset(), 100);
    // free the two 100-byte spans: [0,100) and [110,210)
    a.free(b1);
    a.free(b3);
    // a 10-byte request fits both; first fit takes the earlier one even
    // though the later one is no snugger here, and shrinks it from the front
    let b = grab(&mut a, 10);
    assert_eq!(b.offset(), 0);
    let first = a.free_region_at(MemoryType::Device, 0, 0).unwrap();
    assert_eq!((first.offset, first.size), (10, 90));
}
