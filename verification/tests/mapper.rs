use rite::memory::area_alloc::Region;
use rite::memory::paging::entry::{HUGE_PAGE, NO_EXECUTE, PRESENT, WRITABLE};
use rite::memory::paging::table::LEVEL4_TABLE;
use rite::memory::paging::{
    Entry, EntryFlags, Flush, Level1, Level4, Machine, Mapper, Page, SimulatedMachine, Table,
};
use rite::memory::{AreaFrameAllocator, Frame, FrameAllocator};

const ROOT: Frame = Frame { index: 1 };

fn machine() -> SimulatedMachine {
    let mut machine = SimulatedMachine::new(ROOT);
    machine.write_physical(ROOT, 511, ROOT.get_start_address() | PRESENT | WRITABLE);
    machine
}

fn allocator() -> AreaFrameAllocator {
    let areas = vec![Region { base_addr: 0x100000, length: 0x100000 }];
    AreaFrameAllocator::new(0, 0xfff, 0x1000, 0x1fff, areas)
}

fn writable() -> EntryFlags {
    EntryFlags::from_bits_truncate(WRITABLE)
}

#[test]
fn map_to_then_translate() {
    let mut mapper = Mapper::new(machine());
    let mut allocator = allocator();
    let page = Page::get_page_at_address(0x4000_0000);
    let frame = Frame { index: 0x55 };
    mapper.map_to(page, frame, writable(), &mut allocator);
    assert_eq!(mapper.translate(0x4000_0000), Some(0x55000));
    assert_eq!(mapper.translate(0x4000_0fff), Some(0x55fff));
    assert_eq!(mapper.translate(0x4000_0123), Some(0x55123));
    assert_eq!(mapper.translate(0x4000_1000), None);
    assert_eq!(mapper.translate(0x3fff_ffff), None);
    assert_eq!(mapper.translate_page(page), Some(frame));
    assert_eq!(mapper.machine().root_frame(), ROOT);
    assert!(mapper.machine().flushes().is_empty());
}

#[test]
fn map_to_makes_the_three_tables_from_the_allocator() {
    let mut mapper = Mapper::new(machine());
    let mut allocator = allocator();
    let page = Page::get_page_at_address((2 << 39) | (3 << 30) | (4 << 21) | (5 << 12));
    assert_eq!(mapper.count_missing_tables(page), 3);
    mapper.map_to(page, Frame { index: 0x55 }, writable(), &mut allocator);
    assert_eq!(mapper.count_missing_tables(page), 0);
    assert_eq!(allocator.alloc_frame(), Some(Frame { index: 0x103 }));
    let machine = mapper.into_machine();
    let link = PRESENT | WRITABLE;
    assert_eq!(machine.read_physical(ROOT, 2), 0x100000 | link);
    assert_eq!(machine.read_physical(Frame { index: 0x100 }, 3), 0x101000 | link);
    assert_eq!(machine.read_physical(Frame { index: 0x101 }, 4), 0x102000 | link);
    assert_eq!(machine.read_physical(Frame { index: 0x102 }, 5), 0x55000 | link);
    assert_eq!(machine.read_physical(Frame { index: 0x102 }, 4), 0);
    assert_eq!(machine.read_physical(ROOT, 511), 0x1000 | link);
}

#[test]
fn new_tables_are_emptied() {
    let mut machine = machine();
    for slot in 0..512 {
        machine.write_physical(Frame { index: 0x100 }, slot, 0xdead_0000 | PRESENT);
        machine.write_physical(Frame { index: 0x102 }, slot, u64::MAX);
    }
    let mut mapper = Mapper::new(machine);
    let mut allocator = allocator();
    let page = Page::get_page_at_address((2 << 39) | (3 << 30) | (4 << 21) | (5 << 12));
    mapper.map_to(page, Frame { index: 0x55 }, writable(), &mut allocator);
    let machine = mapper.into_machine();
    for slot in 0..512 {
        if slot != 3 {
            assert_eq!(machine.read_physical(Frame { index: 0x100 }, slot), 0);
        }
        if slot != 5 {
            assert_eq!(machine.read_physical(Frame { index: 0x102 }, slot), 0);
        }
    }
}

#[test]
fn second_page_of_a_table_takes_no_frame() {
    let mut mapper = Mapper::new(machine());
    let mut allocator = allocator();
    let first = Page::get_page_at_address(0x4000_0000);
    let second = Page::get_page_at_address(0x4000_1000);
    mapper.map_to(first, Frame { index: 0x55 }, writable(), &mut allocator);
    assert_eq!(mapper.count_missing_tables(second), 0);
    mapper.map_to(second, Frame { index: 0x77 }, writable(), &mut allocator);
    assert_eq!(allocator.alloc_frame(), Some(Frame { index: 0x103 }));
    assert_eq!(mapper.translate(0x4000_0010), Some(0x55010));
    assert_eq!(mapper.translate(0x4000_1010), Some(0x77010));
}

#[test]
fn page_in_another_level_2_table_takes_one_frame() {
    let mut mapper = Mapper::new(machine());
    let mut allocator = allocator();
    let first = Page::get_page_at_address(0x4000_0000);
    let second = Page::get_page_at_address(0x4020_0000);
    mapper.map_to(first, Frame { index: 0x55 }, writable(), &mut allocator);
    assert_eq!(mapper.count_missing_tables(second), 1);
    mapper.map_to(second, Frame { index: 0x77 }, writable(), &mut allocator);
    assert_eq!(allocator.alloc_frame(), Some(Frame { index: 0x104 }));
    assert_eq!(mapper.translate(0x4020_0fff), Some(0x77fff));
    assert_eq!(mapper.translate(0x4000_0000), Some(0x55000));
}

#[test]
fn flags_of_a_mapping() {
    let mut mapper = Mapper::new(machine());
    let mut allocator = allocator();
    let page = Page::get_page_at_address(0x1000);
    mapper.map_to(
        page,
        Frame { index: 0x55 },
        EntryFlags::from_bits_truncate(NO_EXECUTE),
        &mut allocator,
    );
    let machine = mapper.into_machine();
    assert_eq!(machine.read_physical(Frame { index: 0x102 }, 1), 0x55000 | NO_EXECUTE | PRESENT);
}

#[test]
fn mapped_page_cannot_be_mapped_again() {
    let mut mapper = Mapper::new(machine());
    let mut allocator = allocator();
    let page = Page::get_page_at_address(0x4000_0000);
    assert!(mapper.is_mappable(page));
    mapper.map_to(page, Frame { index: 0x55 }, writable(), &mut allocator);
    assert!(!mapper.is_mappable(page));
    assert!(mapper.is_mappable(Page::get_page_at_address(0x4000_1000)));
    assert_eq!(mapper.translate(0x4000_0000), Some(0x55000));
}

#[test]
fn page_of_the_recursive_slot_cannot_be_mapped() {
    let mapper = Mapper::new(machine());
    assert!(!mapper.is_mappable(Page::get_page_at_address(LEVEL4_TABLE)));
    assert_eq!(mapper.translate(LEVEL4_TABLE), Some(0x1000));
    assert_eq!(mapper.translate(LEVEL4_TABLE + 0xff8), Some(0x1ff8));
}

#[test]
fn page_behind_a_huge_page_cannot_be_mapped() {
    let mut machine = machine();
    machine.write_physical(ROOT, 1, 0x4000_0000 | PRESENT | HUGE_PAGE);
    machine.write_physical(ROOT, 2, 0x8000 | PRESENT | WRITABLE);
    machine.write_physical(Frame { index: 8 }, 0, HUGE_PAGE);
    let mapper = Mapper::new(machine);
    assert!(!mapper.is_mappable(Page::get_page_at_address(1 << 39)));
    assert!(!mapper.is_mappable(Page::get_page_at_address(2 << 39)));
    assert!(mapper.is_mappable(Page::get_page_at_address((2 << 39) | (1 << 30))));
    assert_eq!(mapper.translate(1 << 39), None);
    assert_eq!(mapper.count_missing_tables(Page::get_page_at_address(1 << 39)), 3);
    assert_eq!(mapper.count_missing_tables(Page::get_page_at_address(2 << 39)), 2);
}

#[test]
fn unmap_then_translate() {
    let mut mapper = Mapper::new(machine());
    let mut allocator = allocator();
    let mut pool = rite::memory::paging::TinyAllocator::new(&mut AreaFrameAllocator::new(
        0,
        0,
        0,
        0,
        Vec::new(),
    ));
    let page = Page::get_page_at_address(0x4000_0000);
    let other = Page::get_page_at_address(0x4000_1000);
    mapper.map_to(page, Frame { index: 0x55 }, writable(), &mut allocator);
    mapper.map_to(other, Frame { index: 0x56 }, writable(), &mut allocator);
    mapper.unmap(page, &mut pool);
    assert_eq!(mapper.translate(0x4000_0000), None);
    assert_eq!(mapper.translate(0x4000_0fff), None);
    assert_eq!(mapper.translate_page(page), None);
    assert_eq!(mapper.translate(0x4000_1000), Some(0x56000));
    assert!(mapper.is_mappable(page));
    assert_eq!(mapper.machine().flushes(), &vec![Flush::Page(0x4000_0000)]);
    assert_eq!(pool.alloc_frame(), Some(Frame { index: 0x55 }));
    assert_eq!(pool.alloc_frame(), None);
    assert_eq!(mapper.machine().read_physical(Frame { index: 0x102 }, 0), 0);
    assert_eq!(mapper.count_missing_tables(page), 0);
}

#[test]
fn map_takes_the_frame_from_the_allocator() {
    let mut mapper = Mapper::new(machine());
    let mut allocator = allocator();
    let page = Page::get_page_at_address(0x4000_0000);
    mapper.map(page, writable(), &mut allocator);
    assert_eq!(mapper.translate(0x4000_0008), Some(0x100008));
    assert_eq!(allocator.alloc_frame(), Some(Frame { index: 0x104 }));
    let machine = mapper.into_machine();
    assert_eq!(machine.read_physical(ROOT, 0), 0x101000 | PRESENT | WRITABLE);
}

#[test]
fn identity_map_maps_a_frame_to_its_own_address() {
    let mut mapper = Mapper::new(machine());
    let mut allocator = allocator();
    mapper.identitiy_map(Frame { index: 0xb8 }, writable(), &mut allocator);
    assert_eq!(mapper.translate(0xb8000), Some(0xb8000));
    assert_eq!(mapper.translate(0xb8fff), Some(0xb8fff));
    assert_eq!(mapper.translate(0xb9000), None);
}

#[test]
fn walk_of_the_machine() {
    let mut mapper = Mapper::new(machine());
    let mut allocator = allocator();
    let page = Page::get_page_at_address(0x4000_0000);
    mapper.map_to(page, Frame { index: 0x55 }, writable(), &mut allocator);
    let machine = mapper.into_machine();
    assert_eq!(machine.resolve(0x4000_0000), Some(Frame { index: 0x55 }));
    assert_eq!(machine.resolve(0x4000_0ff8), Some(Frame { index: 0x55 }));
    assert_eq!(machine.resolve(0x4000_1000), None);
    assert_eq!(machine.resolve(LEVEL4_TABLE), Some(ROOT));
    assert_eq!(machine.resolve(0xffff_ffff_ffe0_0000), Some(Frame { index: 0x100 }));
    assert_eq!(SimulatedMachine::new(ROOT).resolve(LEVEL4_TABLE), None);
}

#[test]
fn tables_through_the_recursive_mapping() {
    let mut mapper = Mapper::new(machine());
    let mut allocator = allocator();
    let page = Page::get_page_at_address((2 << 39) | (3 << 30) | (4 << 21) | (5 << 12));
    mapper.map_to(page, Frame { index: 0x55 }, writable(), &mut allocator);
    let p4 = mapper.p4();
    assert_eq!(p4.addr(), 0xffff_ffff_ffff_f000);
    let machine = mapper.machine();
    assert_eq!(p4.next_table_addr(machine, 2), Some(0xffff_ffff_ffe0_2000));
    assert_eq!(p4.next_table_addr(machine, 3), None);
    assert_eq!(p4.next_table_addr(machine, 511), Some(0xffff_ffff_ffff_f000));
    let p3 = p4.next_table(machine, 2).unwrap();
    assert_eq!(p3.addr(), 0xffff_ffff_ffe0_2000);
    let p2 = p3.next_table(machine, 3).unwrap();
    assert_eq!(p2.addr(), 0xffff_ffff_c040_3000);
    let p1 = p2.next_table(machine, 4).unwrap();
    assert_eq!(p1.addr(), 0xffff_ff80_8060_4000);
    assert_eq!(p1.entry(machine, 5).frame(), Some(Frame { index: 0x55 }));
    assert!(p1.entry(machine, 6).is_unused());
    assert!(p3.next_table(machine, 4).is_none());
    assert_eq!(p4.entry(machine, 2).raw(), 0x100000 | PRESENT | WRITABLE);
}

#[test]
fn huge_page_leads_to_no_table() {
    let mut machine = machine();
    machine.write_physical(ROOT, 7, 0x4000_0000 | PRESENT | HUGE_PAGE);
    machine.write_physical(ROOT, 8, 0x4000_0000 | WRITABLE);
    let p4: Table<Level4> = Table::at(LEVEL4_TABLE);
    assert_eq!(p4.next_table_addr(&machine, 7), None);
    assert_eq!(p4.next_table_addr(&machine, 8), None);
    assert!(p4.next_table(&machine, 7).is_none());
}

#[test]
fn create_next_table_keeps_a_table_that_is_there() {
    let mut machine = machine();
    let mut allocator = allocator();
    let p4: Table<Level4> = Table::at(LEVEL4_TABLE);
    let made = p4.create_next_table(&mut machine, 9, &mut allocator);
    assert_eq!(made.addr(), 0xffff_ffff_ffe0_9000);
    assert_eq!(machine.read_physical(ROOT, 9), 0x100000 | PRESENT | WRITABLE);
    machine.write_physical(Frame { index: 0x100 }, 17, 0x33000 | PRESENT);
    let kept = p4.create_next_table(&mut machine, 9, &mut allocator);
    assert_eq!(kept.addr(), 0xffff_ffff_ffe0_9000);
    assert_eq!(machine.read_physical(Frame { index: 0x100 }, 17), 0x33000 | PRESENT);
    assert_eq!(allocator.alloc_frame(), Some(Frame { index: 0x101 }));
}

#[test]
fn zero_fill_empties_a_table() {
    let mut machine = machine();
    machine.write_physical(ROOT, 0, 0x2000 | PRESENT | WRITABLE);
    machine.write_physical(Frame { index: 2 }, 0, 0x3000 | PRESENT | WRITABLE);
    machine.write_physical(Frame { index: 3 }, 0, 0x4000 | PRESENT | WRITABLE);
    machine.write_physical(Frame { index: 4 }, 0, 0x5000 | PRESENT | WRITABLE);
    for slot in 0..512 {
        machine.write_physical(Frame { index: 5 }, slot, 0x1111 + slot as u64);
    }
    let table: Table<Level1> = Table::at(0);
    assert_eq!(table.entry(&machine, 3).raw(), 0x1114);
    table.zero_fill(&mut machine);
    for slot in 0..512 {
        assert_eq!(machine.read_physical(Frame { index: 5 }, slot), 0);
    }
    assert_eq!(machine.read_physical(Frame { index: 4 }, 0), 0x5000 | PRESENT | WRITABLE);
    table.set_entry(&mut machine, 511, Entry::from_raw(0x77));
    assert_eq!(machine.read_physical(Frame { index: 5 }, 511), 0x77);
}

#[test]
fn simulated_memory_reads_what_was_written() {
    let mut machine = SimulatedMachine::new(ROOT);
    assert_eq!(machine.read_physical(Frame { index: 9 }, 0), 0);
    machine.write_physical(Frame { index: 9 }, 0, 5);
    machine.write_physical(Frame { index: 9 }, 511, 6);
    machine.write_physical(Frame { index: 10 }, 0, 7);
    machine.write_physical(Frame { index: 9 }, 0, 8);
    assert_eq!(machine.read_physical(Frame { index: 9 }, 0), 8);
    assert_eq!(machine.read_physical(Frame { index: 9 }, 511), 6);
    assert_eq!(machine.read_physical(Frame { index: 10 }, 0), 7);
    assert_eq!(machine.read_physical(Frame { index: 9 }, 1), 0);
    assert_eq!(machine.read_physical(Frame { index: u64::MAX }, 1), 0);
    machine.flush_all();
    machine.flush_page(0x5000);
    assert_eq!(machine.flushes(), &vec![Flush::All, Flush::Page(0x5000)]);
    assert_eq!(machine.root_frame(), ROOT);
}
