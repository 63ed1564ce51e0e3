use kernel_vm::vga::{vga_entry, vga_entry_color, VGAChar, VGAColor};
use kernel_vm::entry::{
    Entry, EntryFlags, HUGE_PAGE, NO_EXECUTE, PRESENT, WRITABLE,
};
use kernel_vm::error::MemoryError;
use kernel_vm::frame::Frame;
use kernel_vm::frame_allocator::{AreaFrameAllocator, MemoryArea};
use kernel_vm::memory::PhysicalMemory;
use kernel_vm::page::Page;
use kernel_vm::paging::{ActivePageTable, InactivePageTable};
use kernel_vm::remap::{remap_the_kernel, KernelSection, SCRATCH_PAGE};
use kernel_vm::temporary_page::{TemporaryPage, TinyAllocator};
use kernel_vm::frame_allocator::FrameAllocator;

fn drain(allocator: &mut AreaFrameAllocator) -> Vec<u64> {
    let mut out = Vec::new();
    while let Some(f) = allocator.allocate_frame() {
        out.push(f.number);
    }
    out
}

fn scenario_areas() -> Vec<MemoryArea> {
    vec![
        MemoryArea { start: 0x0, size: 0x100000 },
        MemoryArea { start: 0x200000, size: 0x100000 },
    ]
}

fn flags(bits: u64) -> EntryFlags {
    EntryFlags { bits }
}

/// Memory of `frames` frames whose table in `p4` points at itself.
fn booted(frames: u64, p4: u64) -> ActivePageTable {
    let mut memory = PhysicalMemory::new(frames);
    let mut e = Entry(0);
    e.set(Frame { number: p4 }, flags(PRESENT | WRITABLE));
    memory.write_entry(Frame { number: p4 }, 511, e);
    ActivePageTable::new(memory, Frame { number: p4 }).unwrap()
}

#[test]
fn allocator_scenario() {
    let mut a = AreaFrameAllocator::new(0x10000, 0x20000, 0x90000, 0x91000, scenario_areas());
    let frames = drain(&mut a);
    assert_eq!(frames[0], 0x0);
    assert!(frames.iter().all(|&f| !(0x10..0x20).contains(&f) && f != 0x90));
    let pos = frames.iter().position(|&f| f == 0xff).unwrap();
    assert_eq!(frames[pos + 1], 0x200);
    assert_eq!(*frames.last().unwrap(), 0x2ff);
    assert_eq!(frames.len(), 512 - 16 - 1);
    assert!(frames.windows(2).all(|w| w[0] < w[1]));
    assert_eq!(a.allocate_frame(), None);
}

#[test]
fn allocator_unsorted_areas() {
    let mut areas = scenario_areas();
    areas.reverse();
    let mut a = AreaFrameAllocator::new(0x10000, 0x20000, 0x90000, 0x91000, areas);
    let mut b = AreaFrameAllocator::new(0x10000, 0x20000, 0x90000, 0x91000, scenario_areas());
    assert_eq!(drain(&mut a), drain(&mut b));
}

#[test]
fn allocator_exclusion_straddles_areas() {
    let areas = vec![
        MemoryArea { start: 0x0, size: 0x3000 },
        MemoryArea { start: 0x3000, size: 0x3000 },
    ];
    let mut a = AreaFrameAllocator::new(0x2000, 0x4800, 0x0, 0x0, areas);
    assert_eq!(drain(&mut a), vec![0, 1, 5]);
}

#[test]
fn allocator_empty() {
    let mut a = AreaFrameAllocator::new(0, 0, 0, 0, Vec::new());
    assert_eq!(a.allocate_frame(), None);
}

#[test]
fn deallocate_is_refused() {
    let mut a = AreaFrameAllocator::new(0, 0, 0, 0, scenario_areas());
    let f = a.allocate_frame().unwrap();
    assert_eq!(a.deallocate(f), Err(MemoryError::DeallocationUnsupported));
    assert_eq!(a.allocate_frame(), Some(Frame { number: 1 }));
}

#[test]
fn entry_round_trip() {
    let mut e = Entry(0);
    assert!(e.is_unused());
    let fl = flags(PRESENT | WRITABLE | NO_EXECUTE);
    e.set(Frame { number: 0x12345 }, fl);
    assert!(!e.is_unused());
    assert_eq!(e.0, 0x8000_0000_1234_5003);
    assert_eq!(e.pointed_frame(), Some(Frame { number: 0x12345 }));
    assert_eq!(e.flags(), fl);
    e.set_unused();
    assert!(e.is_unused());
    assert_eq!(e.pointed_frame(), None);
}

#[test]
fn entry_not_present_has_no_frame() {
    let mut e = Entry(0);
    e.set(Frame { number: 7 }, flags(WRITABLE));
    assert_eq!(e.pointed_frame(), None);
    assert_eq!(e.flags(), flags(WRITABLE));
    assert_eq!(EntryFlags::from_bits_truncate(0x0ff0_0000_0000_f1ff).bits, 0x1ff);
}

#[test]
fn permissions_from_section() {
    let section = |loaded, writable, executable| KernelSection { start: 0, size: 0x1000, loaded, writable, executable };
    let f = EntryFlags::from_elf_section_flags(&section(true, true, false));
    assert_eq!(f.bits, PRESENT | WRITABLE | NO_EXECUTE);
    let g = EntryFlags::from_elf_section_flags(&section(false, false, true));
    assert!(!g.contains(PRESENT));
    assert_eq!(g.bits, 0);
    let h = EntryFlags::from_elf_section_flags(&section(true, false, true));
    assert_eq!(h.bits, PRESENT);
}

#[test]
fn page_indices() {
    let p = Page::containing_address(0x0000_7f12_3456_7abc);
    assert_eq!(p.number, 0x7f12_3456_7);
    assert_eq!(p.start_address(), 0x0000_7f12_3456_7000);
    assert_eq!(p.p4_index(), 0xfe);
    assert_eq!(p.p3_index(), 0x48);
    assert_eq!(p.p2_index(), 0x1a2);
    assert_eq!(p.p1_index(), 0x167);
    let h = Page::containing_address(0xffff_ffff_ffff_f000);
    assert_eq!(h.p4_index(), 511);
    assert_eq!(h.p1_index(), 511);
}

#[test]
fn identity_map_then_translate() {
    let mut t = booted(0x400, 1);
    let mut a = AreaFrameAllocator::new(0, 0, 0, 0, vec![MemoryArea { start: 0x100000, size: 0x100000 }]);
    assert_eq!(t.translate(0x300000), None);
    assert_eq!(t.identity_map(Frame { number: 0x300 }, flags(WRITABLE), &mut a), Ok(()));
    assert_eq!(t.translate(0x300000), Some(0x300000));
    assert_eq!(t.translate(0x300fff), Some(0x300fff));
    assert_eq!(t.translate(0x301000), None);
    assert_eq!(t.translate_page(Page { number: 0x300 }), Some(Frame { number: 0x300 }));
    // three fresh tables were taken from the allocator
    assert_eq!(a.allocate_frame(), Some(Frame { number: 0x103 }));
}

#[test]
fn unmap_removes_translation() {
    let mut t = booted(0x400, 1);
    let mut a = AreaFrameAllocator::new(0, 0, 0, 0, vec![MemoryArea { start: 0x100000, size: 0x100000 }]);
    t.identity_map(Frame { number: 0x300 }, flags(PRESENT), &mut a).unwrap();
    t.identity_map(Frame { number: 0x301 }, flags(PRESENT), &mut a).unwrap();
    assert_eq!(t.unmap(Page { number: 0x300 }), Ok(()));
    assert_eq!(t.translate(0x300010), None);
    assert_eq!(t.translate(0x301010), Some(0x301010));
}

#[test]
fn map_fails_when_frames_run_out() {
    let mut t = booted(0x400, 1);
    let mut a = AreaFrameAllocator::new(0, 0, 0, 0, vec![MemoryArea { start: 0x100000, size: 0x2000 }]);
    assert_eq!(
        t.identity_map(Frame { number: 0x300 }, flags(PRESENT), &mut a),
        Err(MemoryError::AllocatorExhausted)
    );
}

#[test]
fn huge_page_translation() {
    let mut t = booted(0x400, 1);
    let mut e = Entry(0);
    e.set(Frame { number: 2 }, flags(PRESENT | WRITABLE));
    t.memory.write_entry(Frame { number: 1 }, 0, e);
    e.set(Frame { number: 3 }, flags(PRESENT | WRITABLE));
    t.memory.write_entry(Frame { number: 2 }, 0, e);
    e.set(Frame { number: 0x200 }, flags(PRESENT | WRITABLE | HUGE_PAGE));
    t.memory.write_entry(Frame { number: 3 }, 1, e);
    assert_eq!(t.translate(0x205123), Some(0x205123));
    assert_eq!(t.translate(0x3ff000), Some(0x3ff000));
    assert_eq!(t.translate(0x400000), None);
}

fn ram() -> AreaFrameAllocator {
    AreaFrameAllocator::new(0, 0, 0, 0, vec![MemoryArea { start: 0x100000, size: 0x100000 }])
}

#[test]
fn inactive_table_points_at_itself() {
    let mut t = booted(0x400, 1);
    let mut a = ram();
    let mut tp = TemporaryPage::new(Page { number: SCRATCH_PAGE }, &mut a).unwrap();
    let n = InactivePageTable::new(Frame { number: 5 }, &mut t, &mut tp).unwrap();
    assert_eq!(n.p4_frame, Frame { number: 5 });
    let e = t.memory.read_entry(Frame { number: 5 }, 511);
    assert_eq!(e.pointed_frame(), Some(Frame { number: 5 }));
    assert!(t.memory.read_entry(Frame { number: 5 }, 0).is_unused());
    assert_eq!(t.translate_page(Page { number: SCRATCH_PAGE }), None);
}

#[test]
fn temporary_page_reaches_frame() {
    let mut t = booted(0x400, 1);
    let mut a = ram();
    let mut tp = TemporaryPage::new(Page { number: SCRATCH_PAGE }, &mut a).unwrap();
    assert_eq!(a.allocate_frame(), Some(Frame { number: 0x103 }));
    assert_eq!(tp.map_table_frame(Frame { number: 0x3f0 }, &mut t), Ok(Frame { number: 0x3f0 }));
    assert_eq!(t.translate(SCRATCH_PAGE * 4096 + 8), Some(0x3f0008));
    assert_eq!(tp.unmap(&mut t), Ok(()));
    assert_eq!(t.translate(SCRATCH_PAGE * 4096), None);
}

#[test]
fn tiny_allocator_holds_three() {
    let mut a = ram();
    let mut tiny = TinyAllocator::new(&mut a).unwrap();
    assert_eq!(tiny.frames.len(), 3);
    assert_eq!(tiny.deallocate(Frame { number: 9 }), Err(MemoryError::DeallocationUnsupported));
    let f = tiny.allocate_frame().unwrap();
    assert_eq!(tiny.deallocate(f), Ok(()));
    assert!(tiny.allocate_frame().is_some());
    assert!(tiny.allocate_frame().is_some());
    assert!(tiny.allocate_frame().is_some());
    assert_eq!(tiny.allocate_frame(), None);
}

#[test]
fn redirect_maps_into_other_table() {
    let mut t = booted(0x400, 1);
    let mut a = AreaFrameAllocator::new(0, 0, 0, 0, vec![MemoryArea { start: 0x100000, size: 0x100000 }]);
    let mut tp = TemporaryPage::new(Page { number: SCRATCH_PAGE }, &mut a).unwrap();
    let n = InactivePageTable::new(Frame { number: 5 }, &mut t, &mut tp).unwrap();
    let backup = t.redirect_to(&n);
    t.identity_map(Frame { number: 0x300 }, flags(PRESENT), &mut a).unwrap();
    t.restore_recursive_slot(backup);
    assert_eq!(t.translate(0x300000), None);
    let old = t.switch(n);
    assert_eq!(old.p4_frame, Frame { number: 1 });
    assert_eq!(t.translate(0x300000), Some(0x300000));
}

fn kernel_sections() -> Vec<KernelSection> {
    vec![
        KernelSection { start: 0x10000, size: 0x3000, loaded: true, writable: false, executable: true },
        KernelSection { start: 0x13000, size: 0x1800, loaded: true, writable: true, executable: false },
        KernelSection { start: 0x0, size: 0x500, loaded: false, writable: false, executable: false },
    ]
}

#[test]
fn remap_makes_guard_page() {
    let mut t = booted(0x400, 2);
    let mut a = AreaFrameAllocator::new(0, 0, 0, 0, vec![MemoryArea { start: 0x100000, size: 0x100000 }]);
    let guard = remap_the_kernel(&mut t, &mut a, &kernel_sections(), 0x20000, 0x20100).unwrap();
    assert_eq!(guard, Page { number: 2 });
    assert_ne!(t.p4_frame, Frame { number: 2 });
    assert_eq!(t.translate(0x2000), None);
    assert_eq!(t.translate(0x10000), Some(0x10000));
    assert_eq!(t.translate(0x14fff), Some(0x14fff));
    assert_eq!(t.translate(0x15000), None);
    assert_eq!(t.translate(0xb8000), Some(0xb8000));
    assert_eq!(t.translate(0x20000), Some(0x20000));
    assert_eq!(t.translate(0x0), None);
}

#[test]
fn remap_without_frames() {
    let mut t = booted(0x400, 2);
    let mut a = AreaFrameAllocator::new(0, 0, 0, 0, Vec::new());
    assert_eq!(
        remap_the_kernel(&mut t, &mut a, &kernel_sections(), 0, 0),
        Err(MemoryError::AllocatorExhausted)
    );
}

#[test]
fn display_cells() {
    assert_eq!(vga_entry_color(VGAColor::LightGrey, VGAColor::Black), 0x07);
    assert_eq!(vga_entry_color(VGAColor::White, VGAColor::Blue), 0x1f);
    assert_eq!(vga_entry(b'A', 0x1f), 0x1f41);
    let c = VGAChar::new(b'x', 0x07);
    assert_eq!((c.ascii, c.color), (b'x', 0x07));
}

#[test]
fn empty_exclusion_range_excludes_nothing() {
    let areas = vec![MemoryArea { start: 0x0, size: 0x3000 }];
    let mut a = AreaFrameAllocator::new(0x1800, 0x1800, 0x2800, 0x2000, areas);
    assert_eq!(drain(&mut a), vec![0, 1, 2]);
}

#[test]
fn exclusion_by_bytes() {
    let areas = vec![MemoryArea { start: 0x0, size: 0x5000 }];
    let mut a = AreaFrameAllocator::new(0x1800, 0x1801, 0x3000, 0x4000, areas);
    assert_eq!(drain(&mut a), vec![0, 2, 4]);
}

#[test]
fn mapping_on_existing_tables_needs_no_frames() {
    let mut t = booted(0x400, 1);
    let mut a = AreaFrameAllocator::new(0, 0, 0, 0, vec![MemoryArea { start: 0x100000, size: 0x3000 }]);
    assert_eq!(t.identity_map(Frame { number: 0x300 }, flags(PRESENT), &mut a), Ok(()));
    assert_eq!(a.allocate_frame(), None);
    assert_eq!(t.identity_map(Frame { number: 0x301 }, flags(WRITABLE), &mut a), Ok(()));
    assert_eq!(t.translate(0x301abc), Some(0x301abc));
    assert_eq!(t.leaf(Page { number: 0x301 }), Some(Entry(0x301000 | WRITABLE | PRESENT)));
}

#[test]
fn remap_rejects_unreachable_section() {
    let mut t = booted(0x400, 2);
    let mut a = ram();
    let sections = vec![KernelSection { start: 0x8000_0000_0000, size: 0x1000, loaded: true, writable: false, executable: true }];
    assert_eq!(remap_the_kernel(&mut t, &mut a, &sections, 0, 0), Err(MemoryError::InvalidVirtualAddress));
    assert_eq!(a.allocate_frame(), Some(Frame { number: 0x100 }));
}

#[test]
fn remap_sets_section_flags() {
    let mut t = booted(0x400, 2);
    let mut a = ram();
    remap_the_kernel(&mut t, &mut a, &kernel_sections(), 0x20000, 0x20100).unwrap();
    assert_eq!(t.leaf(Page { number: 0x10 }), Some(Entry(0x10000 | PRESENT)));
    assert_eq!(t.leaf(Page { number: 0x13 }), Some(Entry(0x13000 | PRESENT | WRITABLE | NO_EXECUTE)));
    assert_eq!(t.leaf(Page { number: 0xb8 }), Some(Entry(0xb8000 | PRESENT | WRITABLE)));
    assert_eq!(t.leaf(Page { number: 0x20 }), Some(Entry(0x20000 | PRESENT)));
}

#[test]
fn remap_guard_inside_kernel_section() {
    let mut t = booted(0x400, 0x11);
    let mut a = ram();
    let guard = remap_the_kernel(&mut t, &mut a, &kernel_sections(), 0x20000, 0x20100).unwrap();
    assert_eq!(guard, Page { number: 0x11 });
    assert_eq!(t.p4_frame, Frame { number: 0x100 });
    assert_eq!(t.translate(0x11000), None);
    assert_eq!(t.translate(0x11fff), None);
    assert_eq!(t.translate(0x10000), Some(0x10000));
    assert_eq!(t.translate(0x12000), Some(0x12000));
    assert_eq!(t.translate(0x14fff), Some(0x14fff));
    assert_eq!(t.translate(0xb8000), Some(0xb8000));
}

#[test]
fn install_table_refuses_loaded_table() {
    let mut t = booted(0x20, 1);
    assert_eq!(t.install_table(Frame { number: 1 }, 3, Frame { number: 1 }), Err(MemoryError::TableConflict));
    assert_eq!(t.install_table(Frame { number: 1 }, 3, Frame { number: 0x20 }), Err(MemoryError::TableConflict));
    assert_eq!(t.install_table(Frame { number: 1 }, 3, Frame { number: 4 }), Ok(Frame { number: 4 }));
    assert_eq!(t.memory.read_entry(Frame { number: 1 }, 3).pointed_frame(), Some(Frame { number: 4 }));
}

#[test]
fn kernel_bounds_of_loaded_sections() {
    assert_eq!(kernel_vm::remap::kernel_bounds(&kernel_sections()), (0x10000, 0x14800));
    assert_eq!(kernel_vm::remap::kernel_bounds(&Vec::new()), (0, 0));
}
