use rite::memory::paging::entry::{
    frame_fits, ACCESSED, ADDRESS_MASK, DIRTY, ENTRY_FRAME_COUNT, GLOBAL, HUGE_PAGE, NO_CACHE,
    NO_EXECUTE, PRESENT, USER_ACCESSIBLE, WRITABLE, WRITE_THROUGH,
};
use rite::memory::paging::{Entry, EntryFlags, Page};
use rite::memory::Frame;

#[test]
fn flag_bits() {
    assert_eq!(PRESENT, 1 << 0);
    assert_eq!(WRITABLE, 1 << 1);
    assert_eq!(USER_ACCESSIBLE, 1 << 2);
    assert_eq!(WRITE_THROUGH, 1 << 3);
    assert_eq!(NO_CACHE, 1 << 4);
    assert_eq!(ACCESSED, 1 << 5);
    assert_eq!(DIRTY, 1 << 6);
    assert_eq!(HUGE_PAGE, 1 << 7);
    assert_eq!(GLOBAL, 1 << 8);
    assert_eq!(NO_EXECUTE, 1 << 63);
    assert_eq!(ADDRESS_MASK, 0x000f_ffff_ffff_f000);
}

#[test]
fn flags_drop_what_is_no_flag() {
    assert_eq!(EntryFlags::from_bits_truncate(u64::MAX).bits(), 0x8000_0000_0000_01ff);
    assert_eq!(EntryFlags::from_bits_truncate(0x1234_5003).bits(), 0x3);
    assert_eq!(EntryFlags::empty().bits(), 0);
}

#[test]
fn flags_contain_and_unite() {
    let both = EntryFlags::from_bits_truncate(PRESENT).union(EntryFlags::from_bits_truncate(WRITABLE));
    assert_eq!(both.bits(), 3);
    assert!(both.contains(EntryFlags::from_bits_truncate(PRESENT)));
    assert!(both.contains(EntryFlags::from_bits_truncate(PRESENT | WRITABLE)));
    assert!(!both.contains(EntryFlags::from_bits_truncate(HUGE_PAGE)));
    assert!(!both.contains(EntryFlags::from_bits_truncate(PRESENT | HUGE_PAGE)));
    assert!(both.contains(EntryFlags::empty()));
}

#[test]
fn entry_holds_frame_and_flags() {
    let mut entry = Entry::from_raw(0);
    assert!(entry.is_unused());
    assert_eq!(entry.frame(), None);
    entry.set_flags(Frame { index: 0x1234 }, EntryFlags::from_bits_truncate(PRESENT | NO_EXECUTE));
    assert_eq!(entry.raw(), 0x8000_0000_0123_4001);
    assert!(!entry.is_unused());
    assert_eq!(entry.frame(), Some(Frame { index: 0x1234 }));
    assert_eq!(entry.flags().bits(), PRESENT | NO_EXECUTE);
    entry.mark_unused();
    assert!(entry.is_unused());
    assert_eq!(entry.raw(), 0);
}

#[test]
fn entry_that_is_not_present_has_no_frame() {
    let mut entry = Entry::from_raw(0);
    entry.set_flags(Frame { index: 7 }, EntryFlags::from_bits_truncate(WRITABLE));
    assert_eq!(entry.raw(), 0x7002);
    assert_eq!(entry.frame(), None);
    assert!(!entry.is_unused());
}

#[test]
fn set_flags_replaces_the_entry() {
    let mut entry = Entry::from_raw(u64::MAX);
    entry.set_flags(Frame { index: 1 }, EntryFlags::from_bits_truncate(PRESENT));
    assert_eq!(entry.raw(), 0x1001);
}

#[test]
fn frame_of_a_raw_entry_leaves_out_the_flags() {
    let entry = Entry::from_raw(0xffff_ffff_ffff_ffff);
    assert_eq!(entry.frame(), Some(Frame { index: 0xff_ffff_ffff }));
    assert_eq!(entry.flags().bits(), 0x8000_0000_0000_01ff);
}

#[test]
fn frames_that_fit_in_an_entry() {
    assert!(frame_fits(Frame { index: 0 }));
    assert!(frame_fits(Frame { index: ENTRY_FRAME_COUNT - 1 }));
    assert!(!frame_fits(Frame { index: ENTRY_FRAME_COUNT }));
    assert!(!frame_fits(Frame { index: 0x10_0000_0000_0000 }));
    assert!(!frame_fits(Frame { index: u64::MAX }));
    let mut entry = Entry::from_raw(0);
    entry.set_flags(Frame { index: ENTRY_FRAME_COUNT - 1 }, EntryFlags::from_bits_truncate(PRESENT));
    assert_eq!(entry.raw(), 0x000f_ffff_ffff_f001);
}

#[test]
fn page_of_an_address() {
    let page = Page::get_page_at_address(0x7f80_4020_1abc);
    assert_eq!(page.address(), 0x7f80_4020_1000);
    assert_eq!(page.p4_index(), 255);
    assert_eq!(page.p3_index(), 1);
    assert_eq!(page.p2_index(), 1);
    assert_eq!(page.p1_index(), 1);
}

#[test]
fn page_of_the_level_4_table() {
    let page = Page::get_page_at_address(0xffff_ffff_ffff_f000);
    assert_eq!(page.address(), 0xffff_ffff_ffff_f000);
    assert_eq!(page.p4_index(), 511);
    assert_eq!(page.p3_index(), 511);
    assert_eq!(page.p2_index(), 511);
    assert_eq!(page.p1_index(), 511);
}

#[test]
fn page_indices_are_nine_bits_each() {
    let page = Page::get_page_at_address((3 << 39) | (509 << 30) | (7 << 21) | (300 << 12) | 0x123);
    assert_eq!(page.p4_index(), 3);
    assert_eq!(page.p3_index(), 509);
    assert_eq!(page.p2_index(), 7);
    assert_eq!(page.p1_index(), 300);
    assert_eq!(Page::get_page_at_address(0).address(), 0);
    assert_eq!(Page::get_page_at_address(0xfff).address(), 0);
}

#[test]
fn entry_that_leads_to_a_table() {
    let entry = Entry::to_table(Frame { index: 0x100 });
    assert_eq!(entry.raw(), 0x100003);
    assert_eq!(entry.frame(), Some(Frame { index: 0x100 }));
    assert_eq!(entry.flags().bits(), PRESENT | WRITABLE);
}

#[test]
fn page_indices_make_up_the_page() {
    for addr in [0u64, 0x1000, 0x7f80_4020_1000, 0xffff_8000_0000_0000, 0xffff_ffff_ffff_f000] {
        let page = Page::get_page_at_address(addr);
        let parts = (((page.p4_index() * 512 + page.p3_index()) * 512 + page.p2_index()) * 512
            + page.p1_index()) as u64;
        assert_eq!(parts, (addr / 4096) % (1 << 36));
        assert_eq!(parts << 12, addr & 0x0000_ffff_ffff_f000);
    }
}
