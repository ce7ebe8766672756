use kcore::machine::MachineState;
use kcore::mem_view::PhysMemView;
use kcore::paging::{PageDirectoryEntry, PageTableEntry, Paging};
use kcore::phys_mem::{MemoryRegion, MemoryRegionKind, PhysicalMemoryManager};
use kcore::virt_mem::VirtualAddress;
use kcore::MemError;

const MEM_SIZE: u64 = 0x1000000; // 16 MiB

fn boot_map() -> Vec<MemoryRegion> {
    vec![MemoryRegion { start_address: 0, length: MEM_SIZE, kind: MemoryRegionKind::Available }]
}

fn setup() -> (PhysicalMemoryManager, Paging, MachineState, PhysMemView) {
    let mut pmm = PhysicalMemoryManager::new();
    pmm.init(&boot_map(), 0x100000, 0x108000, 0x9000, 0x9FFF);
    let paging = Paging::new();
    let machine = MachineState::new();
    let view = PhysMemView::new(MEM_SIZE as usize);
    (pmm, paging, machine, view)
}

fn setup_enabled() -> (PhysicalMemoryManager, Paging, MachineState, PhysMemView) {
    let (mut pmm, mut paging, mut machine, view) = setup();
    paging.init(&mut pmm, &machine).unwrap();
    paging.enable(&mut machine).unwrap();
    (pmm, paging, machine, view)
}

#[test]
fn identity_map_round_trip() {
    let (_pmm, paging, _machine, mut view) = setup_enabled();
    let pattern: [u8; 4] = [0xde, 0xad, 0xbe, 0xef];
    for (i, byte) in pattern.iter().enumerate() {
        view.write_byte(0x200000 + i as u32, *byte);
    }
    for (i, byte) in pattern.iter().enumerate() {
        let linear = 0x200000 + i as u32;
        let phys = paging.translate_addr(linear).unwrap();
        assert_eq!(phys, linear);
        assert_eq!(view.read_byte(phys), *byte);
    }
}

#[test]
fn page_alloc_sets_and_dealloc_clears_present() {
    let (mut pmm, mut paging, mut machine, mut view) = setup_enabled();
    let b = paging.alloc_single_page(&mut pmm, &mut view).unwrap();
    // the PTE of the returned block has its Present flag set
    let d = b.mem_block_index / 1024;
    let t = b.mem_block_index % 1024;
    let pte = PageTableEntry::new(paging.tables[d][t]);
    assert!(pte.get_flag_present());
    assert_eq!(pte.get_page_frame_addr(), b.mem_block_start_addr);
    assert_eq!(
        paging.translate_addr(b.mem_block_start_addr),
        Some(b.mem_block_start_addr)
    );
    let free_before = pmm.get_free_blocks();
    paging
        .dealloc_single_page(&mut pmm, &mut view, &mut machine, b)
        .unwrap();
    // immediately afterwards the Present flag is clear and the block is
    // free again at the physical level
    let pte = PageTableEntry::new(paging.tables[d][t]);
    assert!(!pte.get_flag_present());
    assert_eq!(paging.translate_addr(b.mem_block_start_addr), None);
    assert_eq!(pmm.get_free_blocks(), free_before + 1);
    assert!(pmm.get_mem_block(b.mem_block_index).is_available);
}

#[test]
fn page_alloc_before_enable_fails() {
    let (mut pmm, mut paging, machine, mut view) = setup();
    // before init
    let free = pmm.get_free_blocks();
    assert_eq!(
        paging.alloc_single_page(&mut pmm, &mut view),
        Err(MemError::NotInitialized)
    );
    assert_eq!(pmm.get_free_blocks(), free);
    // after init but before enable
    paging.init(&mut pmm, &machine).unwrap();
    let free = pmm.get_free_blocks();
    assert_eq!(
        paging.alloc_single_page(&mut pmm, &mut view),
        Err(MemError::NotInitialized)
    );
    assert_eq!(pmm.get_free_blocks(), free);
}

#[test]
fn init_takes_1025_blocks() {
    let (mut pmm, mut paging, machine, _view) = setup();
    let free_before = pmm.get_free_blocks();
    assert!(!paging.is_init());
    paging.init(&mut pmm, &machine).unwrap();
    assert!(paging.is_init());
    assert!(!paging.is_enabled());
    assert_eq!(pmm.get_free_blocks(), free_before - 1025);
}

#[test]
fn init_without_enough_memory_fails() {
    let mut pmm = PhysicalMemoryManager::new();
    // a map with far fewer than 1025 free blocks
    pmm.init(
        &vec![MemoryRegion {
            start_address: 0,
            length: 0x100000,
            kind: MemoryRegionKind::Available,
        }],
        0x0,
        0x0,
        0x0,
        0x0,
    );
    let mut paging = Paging::new();
    let machine = MachineState::new();
    assert_eq!(paging.init(&mut pmm, &machine), Err(MemError::OutOfMemory));
    assert!(!paging.is_init());
}

#[test]
fn enable_before_init_fails() {
    let (_pmm, mut paging, mut machine, _view) = setup();
    assert_eq!(paging.enable(&mut machine), Err(MemError::NotInitialized));
    assert!(!machine.paging_enabled);
}

#[test]
fn enable_loads_the_directory_base() {
    let (mut pmm, mut paging, mut machine, _view) = setup();
    paging.init(&mut pmm, &machine).unwrap();
    paging.enable(&mut machine).unwrap();
    assert!(paging.is_enabled());
    assert!(machine.paging_enabled);
    assert!(machine.interrupts_enabled);
    assert_eq!(machine.page_dir_base, paging.pd_block.mem_block_start_addr);
    assert!(machine.tlb.is_empty());
}

#[test]
fn directory_entries_cover_managed_memory() {
    let (_pmm, paging, _machine, _view) = setup_enabled();
    // 16 MiB = 4 chunks of 4 MiB; their directory entries are present
    for d in 0..4 {
        let pde = PageDirectoryEntry::new(paging.directory[d]);
        assert!(pde.get_flag_present());
        assert!(pde.get_flag_writable());
        assert_eq!(
            pde.get_page_table_addr(),
            paging.pt_blocks[d].mem_block_start_addr
        );
    }
    let pde = PageDirectoryEntry::new(paging.directory[4]);
    assert!(!pde.get_flag_present());
}

#[test]
fn sizes_come_from_the_physical_manager() {
    let (pmm, paging, _machine, _view) = setup_enabled();
    assert_eq!(paging.get_total_mem_size(&pmm), pmm.get_total_mem_size());
    assert_eq!(
        paging.get_used_mem_size(&pmm),
        pmm.get_allocated_blocks() * 4096
    );
    assert_eq!(
        paging.get_free_mem_size(&pmm),
        pmm.get_total_mem_size() - paging.get_used_mem_size(&pmm)
    );
}

#[test]
fn dealloc_invalidates_the_cached_translation() {
    let (mut pmm, mut paging, mut machine, mut view) = setup_enabled();
    let b = paging.alloc_single_page(&mut pmm, &mut view).unwrap();
    machine.tlb.push(b.mem_block_start_addr);
    machine.tlb.push(0x300000);
    paging
        .dealloc_single_page(&mut pmm, &mut view, &mut machine, b)
        .unwrap();
    assert!(!machine.tlb.contains(&b.mem_block_start_addr));
    assert!(machine.tlb.contains(&0x300000));
}

#[test]
fn flash_tlb_drops_only_the_given_page() {
    let mut machine = MachineState::new();
    machine.tlb.push(0x200000);
    machine.tlb.push(0x201000);
    let va = VirtualAddress::new(0x200123);
    va.flash_tlb(&mut machine);
    assert!(!machine.tlb.contains(&0x200000));
    assert!(machine.tlb.contains(&0x201000));
}

#[test]
fn page_entry_bit_accessors() {
    let mut pte = PageTableEntry::new(0);
    pte.set(0x12345678, 0x3);
    assert_eq!(pte.inner, (0x12345678 & 0xfffff000) | 0x3);
    assert!(pte.get_flag_present());
    assert!(pte.get_flag_writable());
    assert_eq!(pte.get_page_frame_addr(), 0x12345000);
    assert_eq!(pte.get_flags(), 0x3);
    pte.clear_flag(0x1);
    assert!(!pte.get_flag_present());
    pte.set_flag(0x1);
    assert!(pte.get_flag_present());
    let mut pte2 = PageTableEntry::new(0x1);
    pte2.set_page_frame_addr(0xABCDE000);
    assert_eq!(pte2.inner, 0xABCDE001);
    assert_eq!(PageTableEntry::get_size(), 32);

    let mut pde = PageDirectoryEntry::new(0);
    pde.set(0xABCDEFFF, 0x2);
    assert_eq!(pde.inner, 0xABCDE002);
    assert!(!pde.get_flag_present());
    assert!(pde.get_flag_writable());
    assert_eq!(pde.get_page_table_addr(), 0xABCDE000);
    pde.set_flag(0x1);
    assert!(pde.get_flag_present());
    pde.clear_flag(0x2);
    assert!(!pde.get_flag_writable());
    assert_eq!(pde.get_flags(), 0x1);
    let mut pde2 = PageDirectoryEntry::new(0x2);
    pde2.set_page_table_addr(0x7777000);
    assert_eq!(pde2.inner, 0x7777002);
    assert_eq!(PageDirectoryEntry::get_size(), 32);
}

#[test]
fn translation_fails_outside_the_managed_range() {
    let (_pmm, paging, _machine, _view) = setup_enabled();
    // the top directory slot maps nothing on a 16 MiB machine
    assert_eq!(paging.translate_addr(0xFFC00000), None);
    // the last managed page is mapped, the first unmanaged one is not
    assert_eq!(
        paging.translate_addr(MEM_SIZE as u32 - 0x1000),
        Some(MEM_SIZE as u32 - 0x1000)
    );
    assert_eq!(paging.translate_addr(MEM_SIZE as u32), None);
}
