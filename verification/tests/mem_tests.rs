use kcore::fifo::Fifo;
use kcore::gdt::SegmentDescriptor;
use kcore::idt::GateDescriptor;
use kcore::phys_mem::{MemoryBlockInfo, MemoryRegion, MemoryRegionKind, PhysicalMemoryManager};
use kcore::util::{
    convert_bytes_to_any, convert_bytes_to_gb, convert_bytes_to_kb, convert_bytes_to_mb,
    convert_bytes_to_tb,
};
use kcore::virt_mem::VirtualAddress;
use kcore::MemError;

fn region(start: u64, length: u64, kind: MemoryRegionKind) -> MemoryRegion {
    MemoryRegion { start_address: start, length, kind }
}

fn boot_map_a() -> Vec<MemoryRegion> {
    vec![
        region(0x0, 0x9FC00, MemoryRegionKind::Available),
        region(0x9FC00, 0x400, MemoryRegionKind::Reserved),
        region(0x100000, 0xF00000, MemoryRegionKind::Available),
    ]
}

fn init_scenario_a() -> PhysicalMemoryManager {
    let mut pmm = PhysicalMemoryManager::new();
    // kernel image at [0x100000, 0x108000), boot payload inside the
    // reserved hole so the bitmap lands on already-reserved blocks
    pmm.init(&boot_map_a(), 0x100000, 0x108000, 0x9FC00, 0x9FFBF);
    pmm
}

#[test]
fn boot_map_free_block_count() {
    let pmm = init_scenario_a();
    let expected = 0x9FC00 / 4096 + (0xF00000 - 0x8000) / 4096;
    assert_eq!(pmm.get_free_blocks(), expected);
    assert_eq!(pmm.get_total_mem_size(), 0x1000000);
    assert_eq!(pmm.get_mem_blocks(), 0x1000000 / 4096);
}

#[test]
fn boot_map_allocates_exactly_the_free_blocks() {
    let mut pmm = init_scenario_a();
    let free = pmm.get_free_blocks();
    for _ in 0..free {
        assert!(pmm.alloc_single_mem_block().is_ok());
    }
    assert_eq!(pmm.alloc_single_mem_block(), Err(MemError::OutOfMemory));
}

#[test]
fn counters_balance_in_every_state() {
    let mut pmm = init_scenario_a();
    assert_eq!(
        pmm.get_allocated_blocks() + pmm.get_free_blocks(),
        pmm.get_mem_blocks()
    );
    let b = pmm.alloc_single_mem_block().unwrap();
    assert_eq!(
        pmm.get_allocated_blocks() + pmm.get_free_blocks(),
        pmm.get_mem_blocks()
    );
    pmm.dealloc_single_mem_block(b);
    assert_eq!(
        pmm.get_allocated_blocks() + pmm.get_free_blocks(),
        pmm.get_mem_blocks()
    );
}

#[test]
fn exhaustion_is_idempotent() {
    let mut pmm = PhysicalMemoryManager::new();
    pmm.init(
        &vec![region(0x0, 0x2000, MemoryRegionKind::Available)],
        0x0,
        0x0,
        0x0,
        0x0,
    );
    assert_eq!(pmm.get_free_blocks(), 2);
    assert!(pmm.alloc_single_mem_block().is_ok());
    assert!(pmm.alloc_single_mem_block().is_ok());
    let allocated = pmm.get_allocated_blocks();
    for _ in 0..3 {
        assert_eq!(pmm.alloc_single_mem_block(), Err(MemError::OutOfMemory));
        assert_eq!(pmm.get_allocated_blocks(), allocated);
        assert_eq!(pmm.get_free_blocks(), 0);
    }
}

#[test]
fn reserved_region_is_never_returned() {
    let mut pmm = init_scenario_a();
    // the kernel image occupies [0x100000, 0x180000) in this map
    let mut pmm2 = PhysicalMemoryManager::new();
    pmm2.init(&boot_map_a(), 0x100000, 0x180000, 0x9FC00, 0x9FFBF);
    let free = pmm2.get_free_blocks();
    for _ in 0..free {
        let b = pmm2.alloc_single_mem_block().unwrap();
        let start = b.mem_block_start_addr as u64;
        let end = start + b.mem_block_size as u64;
        assert!(end <= 0x100000 || start >= 0x180000);
    }
    // the plain scenario-A manager also never hands out kernel blocks
    let free = pmm.get_free_blocks();
    for _ in 0..free {
        let b = pmm.alloc_single_mem_block().unwrap();
        let start = b.mem_block_start_addr as u64;
        let end = start + b.mem_block_size as u64;
        assert!(end <= 0x100000 || start >= 0x108000);
    }
}

#[test]
fn alloc_is_first_fit_lowest_address() {
    let mut pmm = init_scenario_a();
    let a = pmm.alloc_single_mem_block().unwrap();
    let b = pmm.alloc_single_mem_block().unwrap();
    assert_eq!(a.mem_block_index, 0);
    assert_eq!(b.mem_block_index, 1);
    assert_eq!(a.mem_block_start_addr, 0);
    assert_eq!(b.mem_block_start_addr, 4096);
    assert_eq!(a.mem_block_size, 4096);
    assert!(!a.is_available);
    // freeing the lower block makes it the next one handed out
    pmm.dealloc_single_mem_block(a);
    let c = pmm.alloc_single_mem_block().unwrap();
    assert_eq!(c.mem_block_index, 0);
}

#[test]
fn dealloc_already_free_is_a_no_op() {
    let mut pmm = init_scenario_a();
    let b = pmm.alloc_single_mem_block().unwrap();
    let free_before = pmm.get_free_blocks();
    pmm.dealloc_single_mem_block(b);
    assert_eq!(pmm.get_free_blocks(), free_before + 1);
    // freeing the same block again changes nothing
    pmm.dealloc_single_mem_block(b);
    assert_eq!(pmm.get_free_blocks(), free_before + 1);
    assert_eq!(
        pmm.get_allocated_blocks() + pmm.get_free_blocks(),
        pmm.get_mem_blocks()
    );
}

#[test]
fn mem_block_descriptor_fields() {
    let pmm = init_scenario_a();
    let info = pmm.get_mem_block(3);
    assert_eq!(info.mem_block_index, 3);
    assert_eq!(info.mem_block_start_addr, 3 * 4096);
    assert_eq!(info.mem_block_size, 4096);
    assert!(info.is_available);
    assert_eq!(info.memmap_addr, pmm.get_memmap_start_addr());
    let blank = MemoryBlockInfo::new();
    assert_eq!(blank.mem_block_start_addr, 0);
    assert!(!blank.is_available);
}

#[test]
fn memmap_is_placed_after_the_payload() {
    let pmm = init_scenario_a();
    assert_eq!(pmm.get_memmap_start_addr(), 0x9FFC0);
    let mem_blocks = 0x1000000u32 / 4096;
    assert_eq!(
        pmm.get_memmap_end_addr(),
        0x9FFC0 + mem_blocks / 32 * 4
    );
    assert_eq!(pmm.get_mem_block_index_from_phys_addr(0x9FFC0), 0x9F);
}

#[test]
fn used_and_free_sizes() {
    let mut pmm = init_scenario_a();
    let used = pmm.get_used_mem_size();
    assert_eq!(used, pmm.get_allocated_blocks() * 4096);
    assert_eq!(
        pmm.get_free_mem_size(),
        pmm.get_total_mem_size() - used
    );
    let _ = pmm.alloc_single_mem_block().unwrap();
    assert_eq!(pmm.get_used_mem_size(), used + 4096);
}

#[test]
fn va_round_trip_for_aligned_addresses() {
    let a: u32 = 0x200000;
    let va = VirtualAddress::new(a);
    let d = va.get_page_directory_index() as u32;
    let t = va.get_page_table_index() as u32;
    let o = va.get_page_offset() as u32;
    let rebuilt = VirtualAddress::set(d, t, o).unwrap();
    assert_eq!(rebuilt.get_addr(), a);
    // and for an unaligned address as well
    let a2: u32 = 0xFEDCBA98;
    let va2 = VirtualAddress::new(a2);
    let rebuilt2 = VirtualAddress::set(
        va2.get_page_directory_index() as u32,
        va2.get_page_table_index() as u32,
        va2.get_page_offset() as u32,
    )
    .unwrap();
    assert_eq!(rebuilt2.get_addr(), a2);
}

#[test]
fn va_components() {
    let va = VirtualAddress::set(1, 2, 3).unwrap();
    assert_eq!(va.get_addr(), (1 << 22) | (2 << 12) | 3);
    assert_eq!(va.get_page_directory_index(), 1);
    assert_eq!(va.get_page_table_index(), 2);
    assert_eq!(va.get_page_offset(), 3);
}

#[test]
fn va_out_of_range_components_are_rejected() {
    assert_eq!(VirtualAddress::set(1024, 0, 0), Err(MemError::OutOfRange));
    assert_eq!(VirtualAddress::set(0, 1024, 0), Err(MemError::OutOfRange));
    assert_eq!(VirtualAddress::set(0, 0, 4096), Err(MemError::OutOfRange));
    assert!(VirtualAddress::set(1023, 1023, 4095).is_ok());
}

#[test]
fn fifo_keeps_order() {
    let mut f = Fifo::new(4);
    assert_eq!(f.status(), 0);
    f.put(10).unwrap();
    f.put(20).unwrap();
    f.put(30).unwrap();
    assert_eq!(f.status(), 3);
    assert_eq!(f.get(), Ok(10));
    assert_eq!(f.get(), Ok(20));
    f.put(40).unwrap();
    f.put(50).unwrap();
    f.put(60).unwrap();
    assert_eq!(f.get(), Ok(30));
    assert_eq!(f.get(), Ok(40));
    assert_eq!(f.get(), Ok(50));
    assert_eq!(f.get(), Ok(60));
    assert_eq!(f.status(), 0);
}

#[test]
fn fifo_overrun_and_underrun() {
    let mut f = Fifo::new(2);
    assert_eq!(f.get(), Err("No data"));
    f.put(1).unwrap();
    f.put(2).unwrap();
    assert_eq!(f.put(3), Err("Flags overrun"));
    assert_eq!(f.flags, 1);
    // the overrun attempt stored nothing
    assert_eq!(f.get(), Ok(1));
    assert_eq!(f.get(), Ok(2));
    assert_eq!(f.get(), Err("No data"));
}

#[test]
fn byte_conversions() {
    assert_eq!(convert_bytes_to_kb(4096), 4);
    assert_eq!(convert_bytes_to_mb(3 * 1024 * 1024), 3);
    assert_eq!(convert_bytes_to_gb(5 * 1024 * 1024 * 1024), 5);
    assert_eq!(convert_bytes_to_tb(2 * 1024 * 1024 * 1024 * 1024), 2);
    assert_eq!(convert_bytes_to_any(512), (512, "B"));
    assert_eq!(convert_bytes_to_any(2048), (2, "KiB"));
    assert_eq!(convert_bytes_to_any(3 * 1024 * 1024), (3, "MiB"));
    assert_eq!(convert_bytes_to_any(7 * 1024 * 1024 * 1024), (7, "GiB"));
    assert_eq!(
        convert_bytes_to_any(9 * 1024 * 1024 * 1024 * 1024),
        (9, "TiB")
    );
}

#[test]
fn segment_descriptor_packing() {
    // byte granularity: a small limit is stored as-is
    let d = SegmentDescriptor::new(0xffff, 0x00270000, 0x0092);
    assert_eq!(d.limit_low, 0xffff);
    assert_eq!(d.base_low, 0x0000);
    assert_eq!(d.base_mid, 0x27);
    assert_eq!(d.base_high, 0x00);
    assert_eq!(d.access_right, 0x92);
    assert_eq!(d.limit_high, 0x00);
    // page granularity: a 32-bit limit is scaled and flagged
    let d = SegmentDescriptor::new(0xffffffff, 0, 0x009a);
    assert_eq!(d.limit_low, 0xffff);
    assert_eq!(d.access_right, 0x9a);
    assert_eq!(d.limit_high, 0x0f | 0x80);
}

#[test]
fn gate_descriptor_packing() {
    let g = GateDescriptor::new(0xdeadbeef, 2 * 8, 0x008e);
    assert_eq!(g.offset_low, 0xbeef);
    assert_eq!(g.offset_high, 0xdead);
    assert_eq!(g.selector, 16);
    assert_eq!(g.dw_count, 0x00);
    assert_eq!(g.access_right, 0x8e);
}

#[test]
fn bitmap_inside_available_region_is_re_reserved() {
    // the boot payload ends inside an available region, so the blocks
    // holding the bitmap itself are first freed together with the
    // region and must then be re-reserved by the final pass
    let mut pmm = PhysicalMemoryManager::new();
    pmm.init(
        &vec![region(0x0, 0x1000000, MemoryRegionKind::Available)],
        0x100000,
        0x108000,
        0x9000,
        0x9FFF,
    );
    // the bitmap starts at 0xA000 and occupies block 10
    assert_eq!(pmm.get_memmap_start_addr(), 0xA000);
    assert!(!pmm.get_mem_block(10).is_available);
    // no allocation ever returns a bitmap, payload or kernel block
    let free = pmm.get_free_blocks();
    for _ in 0..free {
        let b = pmm.alloc_single_mem_block().unwrap();
        let i = b.mem_block_index;
        assert_ne!(i, 10);
        assert_ne!(i, 9);
        assert!(!(0x100 <= i && i < 0x108));
    }
}
