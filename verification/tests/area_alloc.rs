use rite::memory::area_alloc::{pick_area, Region};
use rite::memory::{AreaFrameAllocator, Frame, FrameAllocator};

fn frames(allocator: &mut AreaFrameAllocator, count: usize) -> Vec<Option<u64>> {
    let mut out = Vec::new();
    for _ in 0..count {
        out.push(allocator.alloc_frame().map(|frame| frame.index));
    }
    out
}

#[test]
fn first_frame_behind_kernel_and_boot_info() {
    let areas = vec![Region { base_addr: 0x0, length: 0x100000 }];
    let mut allocator = AreaFrameAllocator::new(0x10000, 0x20000 - 1, 0x20000, 0x21000 - 1, areas);
    for index in 0..16u64 {
        assert_eq!(allocator.alloc_frame(), Some(Frame { index }));
    }
    let next = allocator.alloc_frame().unwrap();
    assert_eq!(next.get_start_address(), 0x21000);
    assert_eq!(allocator.alloc_frame(), Some(Frame { index: 0x22 }));
}

#[test]
fn region_that_starts_at_the_kernel_gives_the_frame_behind_boot_info_first() {
    let areas = vec![Region { base_addr: 0x10000, length: 0xf0000 }];
    let mut allocator = AreaFrameAllocator::new(0x10000, 0x20000 - 1, 0x20000, 0x21000 - 1, areas);
    assert_eq!(allocator.alloc_frame().unwrap().get_start_address(), 0x21000);
}

#[test]
fn end_addresses_count_as_part_of_the_extent() {
    let areas = vec![Region { base_addr: 0x10000, length: 0xf0000 }];
    let mut allocator = AreaFrameAllocator::new(0x10000, 0x20000, 0x20000, 0x21000, areas);
    assert_eq!(allocator.alloc_frame().unwrap().get_start_address(), 0x22000);
}

#[test]
fn no_region_no_frame() {
    let mut allocator = AreaFrameAllocator::new(0x10000, 0x1ffff, 0x20000, 0x20fff, Vec::new());
    assert_eq!(frames(&mut allocator, 3), vec![None, None, None]);
}

#[test]
fn region_inside_the_kernel_gives_no_frame() {
    let areas = vec![Region { base_addr: 0x11000, length: 0x4000 }];
    let mut allocator = AreaFrameAllocator::new(0x10000, 0x1ffff, 0x20000, 0x20fff, areas);
    assert_eq!(frames(&mut allocator, 4), vec![None, None, None, None]);
}

#[test]
fn region_inside_the_boot_info_gives_no_frame() {
    let areas = vec![Region { base_addr: 0x20000, length: 0x1000 }];
    let mut allocator = AreaFrameAllocator::new(0x10000, 0x1ffff, 0x20000, 0x20fff, areas);
    assert_eq!(frames(&mut allocator, 2), vec![None, None]);
}

#[test]
fn exhaustion_is_permanent() {
    let areas = vec![Region { base_addr: 0x5000, length: 0x2000 }];
    let mut allocator = AreaFrameAllocator::new(0, 0xfff, 0x1000, 0x1fff, areas);
    assert_eq!(frames(&mut allocator, 5), vec![Some(5), Some(6), None, None, None]);
}

#[test]
fn regions_are_taken_by_rising_base_address() {
    let areas = vec![
        Region { base_addr: 0x200000, length: 0x2000 },
        Region { base_addr: 0x100000, length: 0x2000 },
    ];
    let mut allocator = AreaFrameAllocator::new(0, 0xfff, 0x1000, 0x1fff, areas);
    assert_eq!(
        frames(&mut allocator, 5),
        vec![Some(0x100), Some(0x101), Some(0x200), Some(0x201), None]
    );
}

#[test]
fn overlapping_regions_give_each_frame_once() {
    let areas = vec![
        Region { base_addr: 0x2000, length: 0x3000 },
        Region { base_addr: 0x3000, length: 0x4000 },
    ];
    let mut allocator = AreaFrameAllocator::new(0, 0xfff, 0x1000, 0x1fff, areas);
    assert_eq!(
        frames(&mut allocator, 6),
        vec![Some(2), Some(3), Some(4), Some(5), Some(6), None]
    );
}

#[test]
fn region_of_no_bytes_gives_no_frame() {
    let areas = vec![Region { base_addr: 0x3000, length: 0 }];
    let mut allocator = AreaFrameAllocator::new(0, 0xfff, 0x1000, 0x1fff, areas);
    assert_eq!(frames(&mut allocator, 2), vec![None, None]);
}

#[test]
fn frames_that_a_region_covers_in_part_are_given() {
    let areas = vec![Region { base_addr: 0x5800, length: 0x1000 }];
    let mut allocator = AreaFrameAllocator::new(0, 0xfff, 0x1000, 0x1fff, areas);
    assert_eq!(frames(&mut allocator, 3), vec![Some(5), Some(6), None]);
}

#[test]
fn kernel_and_boot_info_are_left_out() {
    let areas = vec![Region { base_addr: 0, length: 0x8000 }];
    let mut allocator = AreaFrameAllocator::new(0x2000, 0x3fff, 0x4000, 0x4fff, areas);
    assert_eq!(
        frames(&mut allocator, 6),
        vec![Some(0), Some(1), Some(5), Some(6), Some(7), None]
    );
}

#[test]
fn boot_info_before_the_kernel_is_left_out_too() {
    let areas = vec![Region { base_addr: 0, length: 0x8000 }];
    let mut allocator = AreaFrameAllocator::new(0x5000, 0x5fff, 0x1000, 0x2fff, areas);
    assert_eq!(
        frames(&mut allocator, 6),
        vec![Some(0), Some(3), Some(4), Some(6), Some(7), None]
    );
}

#[test]
fn kernel_that_ends_behind_the_region_ends_the_region() {
    let areas = vec![
        Region { base_addr: 0, length: 0x4000 },
        Region { base_addr: 0x10000, length: 0x2000 },
    ];
    let mut allocator = AreaFrameAllocator::new(0x2000, 0x8fff, 0x20000, 0x20fff, areas);
    assert_eq!(
        frames(&mut allocator, 5),
        vec![Some(0), Some(1), Some(0x10), Some(0x11), None]
    );
}

#[test]
fn frames_rise_and_stay_clear_of_reserved_frames() {
    let areas = vec![
        Region { base_addr: 0x9000, length: 0x20000 },
        Region { base_addr: 0x0, length: 0x6000 },
    ];
    let mut allocator = AreaFrameAllocator::new(0x3000, 0xafff, 0x10000, 0x12fff, areas);
    let mut last: Option<u64> = None;
    let mut count = 0;
    while let Some(frame) = allocator.alloc_frame() {
        assert!(frame.index < 3 || frame.index > 0xa);
        assert!(frame.index < 0x10 || frame.index > 0x12);
        if let Some(before) = last {
            assert!(before < frame.index);
        }
        last = Some(frame.index);
        count += 1;
    }
    assert_eq!(count, 3 + (0x28 - 0xb + 1) - 3);
    assert_eq!(last, Some(0x28));
}

#[test]
fn first_of_two_regions_with_one_base_address_is_picked() {
    let areas = vec![
        Region { base_addr: 0x4000, length: 0x1000 },
        Region { base_addr: 0x2000, length: 0x1000 },
        Region { base_addr: 0x2000, length: 0x3000 },
    ];
    assert_eq!(pick_area(&areas, Frame { index: 0 }), Some(areas[1]));
    assert_eq!(pick_area(&areas, Frame { index: 3 }), Some(areas[2]));
    assert_eq!(pick_area(&areas, Frame { index: 5 }), None);
}

#[test]
fn frames_of_a_region() {
    let area = Region { base_addr: 0x1800, length: 0x2801 };
    assert_eq!(area.start_frame(), Frame { index: 1 });
    assert_eq!(area.end_frame(), Frame { index: 4 });
}

#[test]
fn frame_of_an_address() {
    assert_eq!(Frame::get_frame_for_address(0), Frame { index: 0 });
    assert_eq!(Frame::get_frame_for_address(0xfff), Frame { index: 0 });
    assert_eq!(Frame::get_frame_for_address(0x1000), Frame { index: 1 });
    assert_eq!(Frame::get_frame_for_address(u64::MAX), Frame { index: 0xf_ffff_ffff_ffff });
    assert_eq!(Frame { index: 0x21 }.get_start_address(), 0x21000);
    assert!(Frame { index: 2 } < Frame { index: 3 });
}
