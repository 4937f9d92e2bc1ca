//! A bump allocator over the memory regions reported at boot.

use super::{Frame, FrameAllocator, FRAME_COUNT, PAGE_SIZE};
use vstd::multiset::Multiset;
use vstd::prelude::*;

verus! {

/// One region of usable physical memory: `length` bytes from `base_addr` on.
#[derive(Clone, Copy, Debug, PartialEq, Eq, Structural)]
pub struct Region {
    /// The address of the first byte.
    pub base_addr: u64,
    /// The number of bytes.
    pub length: u64,
}

impl Region {
    /// The address of the last byte can be computed in 64 bits.
    pub open spec fn bounded(self) -> bool {
        1 <= self.base_addr + self.length <= u64::MAX
    }

    /// The index of the frame that holds the first byte.
    pub open spec fn first_frame(self) -> int {
        self.base_addr as int / PAGE_SIZE as int
    }

    /// The index of the frame that holds the last byte.
    pub open spec fn last_frame(self) -> int {
        (self.base_addr + self.length - 1) / PAGE_SIZE as int
    }

    /// Whether the frame with index `frame` lies in the region.
    pub open spec fn holds(self, frame: int) -> bool {
        self.first_frame() <= frame <= self.last_frame()
    }

    /// The frame that holds the first byte.
    pub fn start_frame(&self) -> (frame: Frame)
        ensures
            frame.index == self.first_frame(),
            frame.index < FRAME_COUNT,
    {
        Frame::get_frame_for_address(self.base_addr)
    }

    /// The frame that holds the last byte.
    pub fn end_frame(&self) -> (frame: Frame)
        requires
            self.bounded(),
        ensures
            frame.index == self.last_frame(),
            frame.index < FRAME_COUNT,
    {
        Frame::get_frame_for_address(self.base_addr + self.length - 1)
    }
}

/// Whether every region of `areas` is bounded.
pub open spec fn all_bounded(areas: Seq<Region>) -> bool {
    forall|i: int| 0 <= i < areas.len() ==> (#[trigger] areas[i]).bounded()
}

/// Whether some region of `areas` holds the frame with index `frame`.
pub open spec fn in_some_area(areas: Seq<Region>, frame: int) -> bool {
    exists|i: int| 0 <= i < areas.len() && (#[trigger] areas[i]).holds(frame)
}

/// Hands out the frames of the usable regions in rising order and leaves out
/// those of the kernel image and of the boot information.
pub struct AreaFrameAllocator {
    /// The next candidate.
    next_frame: Frame,
    /// The region that is being consumed.
    area: Option<Region>,
    /// All regions.
    areas: Vec<Region>,
    /// The first frame of the kernel image.
    kernel_start: Frame,
    /// The last frame of the kernel image.
    kernel_end: Frame,
    /// The first frame of the boot information.
    mb2_start: Frame,
    /// The last frame of the boot information.
    mb2_end: Frame,
}

impl AreaFrameAllocator {
    /// The usable regions.
    pub closed spec fn regions(&self) -> Seq<Region> {
        self.areas@
    }

    /// The index of the next candidate: no frame below it is handed out.
    pub closed spec fn cursor(&self) -> int {
        self.next_frame.index as int
    }

    /// The region that is being consumed, if there is one.
    pub closed spec fn current(&self) -> Option<Region> {
        self.area
    }

    /// The first and the last frame of the kernel image.
    pub closed spec fn kernel(&self) -> (int, int) {
        (self.kernel_start.index as int, self.kernel_end.index as int)
    }

    /// The first and the last frame of the boot information.
    pub closed spec fn boot_info(&self) -> (int, int) {
        (self.mb2_start.index as int, self.mb2_end.index as int)
    }

    /// Whether the frame with index `frame` belongs to the kernel image or to
    /// the boot information.
    pub open spec fn reserved(&self, frame: int) -> bool {
        ||| self.kernel().0 <= frame <= self.kernel().1
        ||| self.boot_info().0 <= frame <= self.boot_info().1
    }

    /// Whether the frame with index `frame` is still to be handed out: it is
    /// not below the cursor, lies in a usable region and is not reserved.
    pub open spec fn is_free(&self, frame: int) -> bool {
        &&& self.cursor() <= frame
        &&& in_some_area(self.regions(), frame)
        &&& !self.reserved(frame)
    }

    /// The indices of the frames that are still to be handed out.
    pub open spec fn free_frames(&self) -> Set<int> {
        Set::new(|frame: int| self.is_free(frame))
    }

    /// Whether the region that is being consumed is one of the regions and
    /// holds the frame with the index `frame`.
    pub open spec fn consumes(&self, frame: int) -> bool {
        match self.current() {
            Some(area) => self.regions().contains(area) && area.holds(frame),
            None => false,
        }
    }

    /// Whether `other` allocates from the same regions around the same
    /// reserved frames.
    pub open spec fn same_layout(&self, other: &Self) -> bool {
        &&& self.regions() == other.regions()
        &&& self.kernel() == other.kernel()
        &&& self.boot_info() == other.boot_info()
    }

    #[verifier::type_invariant]
    spec fn wf(&self) -> bool {
        &&& all_bounded(self.areas@)
        &&& self.next_frame.index <= FRAME_COUNT
        &&& self.kernel_end.index < FRAME_COUNT
        &&& self.mb2_end.index < FRAME_COUNT
        &&& match self.area {
            Some(area) => area.bounded() && area.first_frame() <= self.next_frame.index
                && self.areas@.contains(area),
            None => forall|i: int|
                0 <= i < self.areas@.len() ==> (#[trigger] self.areas@[i]).last_frame()
                    < self.next_frame.index,
        }
    }

    /// The free frames are finitely many.
    pub proof fn lemma_free_frames_finite(&self)
        ensures
            self.free_frames().finite(),
    {
        let bound = vstd::set_lib::set_int_range(0, 2 * FRAME_COUNT as int);
        assert forall|frame: int| self.is_free(frame) implies 0 <= frame < 2 * FRAME_COUNT by {
            let i = choose|i: int|
                0 <= i < self.regions().len() && (#[trigger] self.regions()[i]).holds(frame);
            assert(self.regions()[i].last_frame() < 2 * FRAME_COUNT);
        }
        assert(self.free_frames().subset_of(bound));
        vstd::set_lib::lemma_int_range(0, 2 * FRAME_COUNT as int);
        vstd::set_lib::lemma_len_subset(self.free_frames(), bound);
    }

    /// Makes an allocator over `areas` that leaves out the frames of the
    /// kernel image, from `kernel_start` to `kernel_end`, and those of the boot
    /// information, from `mb2_start` to `mb2_end`.
    pub fn new(
        kernel_start: u64,
        kernel_end: u64,
        mb2_start: u64,
        mb2_end: u64,
        areas: Vec<Region>,
    ) -> (allocator: AreaFrameAllocator)
        requires
            all_bounded(areas@),
        ensures
            allocator.regions() == areas@,
            allocator.kernel() == (kernel_start as int / 4096, kernel_end as int / 4096),
            allocator.boot_info() == (mb2_start as int / 4096, mb2_end as int / 4096),
            match allocator.current() {
                Some(area) => is_next_area(areas@, 0, area) && allocator.cursor()
                    == area.first_frame(),
                None => areas@.len() == 0 && allocator.cursor() == 0,
            },
            forall|frame: int|
                allocator.is_free(frame) <==> in_some_area(areas@, frame) && !allocator.reserved(
                    frame,
                ),
    {
        let first = Frame::get_frame_for_address(0);
        let picked = pick_area(&areas, first);
        let next_frame = match picked {
            Some(area) => area.start_frame(),
            None => first,
        };
        let allocator = AreaFrameAllocator {
            next_frame,
            area: picked,
            areas,
            kernel_start: Frame::get_frame_for_address(kernel_start),
            kernel_end: Frame::get_frame_for_address(kernel_end),
            mb2_start: Frame::get_frame_for_address(mb2_start),
            mb2_end: Frame::get_frame_for_address(mb2_end),
        };
        proof {
            if picked is None && allocator.areas@.len() > 0 {
                assert(allocator.areas@[0].bounded());
            }
            assert forall|frame: int| in_some_area(allocator.areas@, frame) implies next_frame.index
                <= frame by {
                let i = choose|i: int|
                    0 <= i < allocator.areas@.len() && (#[trigger] allocator.areas@[i]).holds(frame);
                assert(allocator.areas@[i].bounded());
            }
        }
        allocator
    }

    /// Picks the region to consume next: among the regions that end at or
    /// after the cursor, the first with the lowest base address. The cursor
    /// moves up to the first frame of that region if it was below it. Where
    /// every region ends below the cursor, no region is consumed any more and
    /// the cursor stays.
    fn find_free_area(&mut self)
        ensures
            final(self).same_layout(old(self)),
            final(self).cursor() >= old(self).cursor(),
            forall|frame: int| old(self).is_free(frame) ==> final(self).is_free(frame),
            match final(self).current() {
                Some(area) => {
                    &&& is_next_area(old(self).regions(), old(self).cursor(), area)
                    &&& final(self).cursor() == if old(self).cursor() < area.first_frame() {
                        area.first_frame()
                    } else {
                        old(self).cursor()
                    }
                },
                None => {
                    &&& forall|i: int|
                        0 <= i < old(self).regions().len() ==> (#[trigger] old(self).regions()[i]).last_frame() < old(self).cursor()
                    &&& final(self).cursor() == old(self).cursor()
                },
            },
    {
        proof {
            use_type_invariant(&*self);
        }
        let picked = pick_area(&self.areas, self.next_frame);
        match picked {
            Some(area) => {
                let start_frame = area.start_frame();
                proof {
                    assert forall|frame: int| old(self).is_free(frame) implies start_frame.index
                        <= frame by {
                        let i = choose|i: int|
                            0 <= i < self.areas@.len() && (#[trigger] self.areas@[i]).holds(frame);
                        assert(self.areas@[i].last_frame() >= self.next_frame.index);
                    }
                }
                if self.next_frame.index < start_frame.index {
                    self.next_frame = start_frame;
                }
                self.area = Some(area);
            },
            None => {
                self.area = None;
            },
        }
    }
}

/// A frame that is handed out belongs neither to the kernel image nor to the
/// boot information, and lies in a usable region.
pub proof fn lemma_allocated_frame_is_not_reserved(
    before: AreaFrameAllocator,
    after: AreaFrameAllocator,
    frame: Frame,
)
    requires
        before.hands_out(&after, Some(frame)),
    ensures
        !(before.kernel().0 <= frame.index <= before.kernel().1),
        !(before.boot_info().0 <= frame.index <= before.boot_info().1),
        in_some_area(before.regions(), frame.index as int),
{
}

/// Of two frames that one allocator hands out, the later has the higher
/// index.
pub proof fn lemma_allocation_order_rises(
    first: AreaFrameAllocator,
    second: AreaFrameAllocator,
    third: AreaFrameAllocator,
    earlier: Frame,
    later: Frame,
)
    requires
        first.hands_out(&second, Some(earlier)),
        second.hands_out(&third, Some(later)),
    ensures
        earlier.index < later.index,
{
}

/// Once an allocator has given nothing, it gives nothing again.
pub proof fn lemma_exhaustion_is_permanent(
    first: AreaFrameAllocator,
    second: AreaFrameAllocator,
    third: AreaFrameAllocator,
    frame: Option<Frame>,
)
    requires
        first.hands_out(&second, None),
        second.hands_out(&third, frame),
    ensures
        frame is None,
{
    if let Some(f) = frame {
        assert(first.is_free(f.index as int));
    }
}

/// An allocator whose every region lies within the kernel image or within
/// the boot information has no free frame; so has one without regions.
pub proof fn lemma_consumed_regions_leave_nothing(allocator: AreaFrameAllocator)
    requires
        forall|i: int|
            0 <= i < allocator.regions().len() ==> {
                let area = #[trigger] allocator.regions()[i];
                ||| allocator.kernel().0 <= area.first_frame() && area.last_frame()
                    <= allocator.kernel().1
                ||| allocator.boot_info().0 <= area.first_frame() && area.last_frame()
                    <= allocator.boot_info().1
            },
    ensures
        forall|frame: int| !allocator.is_free(frame),
        forall|after: AreaFrameAllocator, frame: Option<Frame>|
            allocator.hands_out(&after, frame) ==> frame is None,
{
    assert forall|frame: int| !allocator.is_free(frame) by {
        if allocator.is_free(frame) {
            let i = choose|i: int|
                0 <= i < allocator.regions().len() && (#[trigger] allocator.regions()[i]).holds(
                    frame,
                );
            assert(allocator.reserved(frame));
        }
    }
    assert forall|after: AreaFrameAllocator, frame: Option<Frame>|
        allocator.hands_out(&after, frame) implies frame is None by {
        if let Some(f) = frame {
            assert(allocator.is_free(f.index as int));
        }
    }
}

/// A finite set, taken as a multiset, holds each of its elements once.
pub proof fn lemma_count_from_set(frames: Set<int>)
    requires
        frames.finite(),
    ensures
        forall|frame: int|
            #[trigger] Multiset::from_set(frames).count(frame) == if frames.contains(frame) {
                1nat
            } else {
                0nat
            },
{
    let counts = Map::new(|frame: int| frames.contains(frame), |frame: int| 1nat);
    assert(counts.dom() =~= frames);
    assert forall|frame: int|
        #[trigger] Multiset::from_set(frames).count(frame) == if frames.contains(frame) {
            1nat
        } else {
            0nat
        } by {
        if frames.contains(frame) {
            vstd::multiset::axiom_multiset_contained(counts, frame);
        } else {
            vstd::multiset::axiom_multiset_new_not_contained(counts, frame);
        }
    }
}

/// Whether the region with the index `index` is the one that is consumed next
/// when the cursor stands at `cursor`: it ends at or after the cursor, no
/// region that does so has a lower base address, and none before it has the
/// same.
pub open spec fn is_next_index(areas: Seq<Region>, cursor: int, index: int) -> bool {
    &&& 0 <= index < areas.len()
    &&& areas[index].last_frame() >= cursor
    &&& forall|i: int|
        0 <= i < areas.len() && (#[trigger] areas[i]).last_frame() >= cursor
            ==> areas[index].base_addr <= areas[i].base_addr
    &&& forall|i: int|
        0 <= i < index && (#[trigger] areas[i]).last_frame() >= cursor ==> areas[index].base_addr
            < areas[i].base_addr
}

/// Whether `area` is the region that is consumed next when the cursor stands
/// at `cursor`: among the regions that end at or after the cursor, the first
/// with the lowest base address.
pub open spec fn is_next_area(areas: Seq<Region>, cursor: int, area: Region) -> bool {
    exists|index: int| #[trigger] is_next_index(areas, cursor, index) && areas[index] == area
}

/// The region to consume next from `areas` when the cursor stands at `from`,
/// or nothing when every region ends below the cursor.
pub fn pick_area(areas: &Vec<Region>, from: Frame) -> (picked: Option<Region>)
    requires
        all_bounded(areas@),
    ensures
        match picked {
            Some(area) => is_next_area(areas@, from.index as int, area),
            None => forall|i: int|
                0 <= i < areas@.len() ==> (#[trigger] areas@[i]).last_frame() < from.index,
        },
{
    let mut best: Option<Region> = None;
    let ghost mut at: int = 0;
    let mut i: usize = 0;
    while i < areas.len()
        invariant
            0 <= i <= areas@.len(),
            all_bounded(areas@),
            match best {
                Some(area) => {
                    &&& 0 <= at < i
                    &&& areas@[at] == area
                    &&& area.last_frame() >= from.index
                    &&& forall|j: int|
                        0 <= j < i && (#[trigger] areas@[j]).last_frame() >= from.index
                            ==> area.base_addr <= areas@[j].base_addr
                    &&& forall|j: int|
                        0 <= j < at && (#[trigger] areas@[j]).last_frame() >= from.index
                            ==> area.base_addr < areas@[j].base_addr
                },
                None => forall|j: int|
                    0 <= j < i ==> (#[trigger] areas@[j]).last_frame() < from.index,
            },
        decreases areas@.len() - i,
    {
        let area = areas[i];
        if area.end_frame().index >= from.index {
            match best {
                Some(lowest) => {
                    if area.base_addr < lowest.base_addr {
                        best = Some(area);
                        proof {
                            at = i as int;
                        }
                    }
                },
                None => {
                    best = Some(area);
                    proof {
                        at = i as int;
                    }
                },
            }
        }
        i += 1;
    }
    proof {
        if best is Some {
            assert(is_next_index(areas@, from.index as int, at));
        }
    }
    best
}

impl FrameAllocator for AreaFrameAllocator {
    open spec fn available(&self) -> Multiset<int> {
        Multiset::from_set(self.free_frames())
    }

    /// No frame is taken back: this allocator keeps no record of freed frames.
    open spec fn accepts(&self, frame: Frame) -> bool {
        false
    }

    /// What one allocation does: the frame is the free frame with the lowest
    /// index, the cursor then stands behind it, and the region that is
    /// consumed holds the frame; where no frame is free, nothing is given,
    /// the cursor does not fall and no region is consumed any more.
    open spec fn hands_out(&self, next: &Self, frame: Option<Frame>) -> bool {
        &&& next.same_layout(self)
        &&& match frame {
            Some(f) => {
                &&& self.is_free(f.index as int)
                &&& forall|other: int| self.is_free(other) ==> f.index <= other
                &&& next.cursor() == f.index + 1
                &&& next.consumes(f.index as int)
            },
            None => {
                &&& forall|other: int| !self.is_free(other)
                &&& next.cursor() >= self.cursor()
                &&& next.current() is None
            },
        }
    }

    /// Hands out the free frame with the lowest index and moves the cursor
    /// past it; nothing when no frame is free.
    fn alloc_frame(&mut self) -> (frame: Option<Frame>) {
        proof {
            use_type_invariant(&*self);
        }
        let mut found: Option<Frame> = None;
        let mut searching = true;
        while searching
            invariant
                self.same_layout(old(self)),
                self.cursor() >= old(self).cursor(),
                self.wf(),
                searching ==> found is None,
                searching ==> forall|other: int|
                    old(self).is_free(other) ==> self.is_free(other),
                !searching ==> match found {
                    Some(f) => {
                        &&& old(self).is_free(f.index as int)
                        &&& forall|other: int| old(self).is_free(other) ==> f.index <= other
                        &&& self.cursor() == f.index + 1
                        &&& self.consumes(f.index as int)
                    },
                    None => self.area is None && forall|other: int| !old(self).is_free(other),
                },
            decreases
                    FRAME_COUNT + 1 - self.next_frame.index,
                    (if searching { 1int } else { 0int }) + (match self.area {
                        Some(area) => if self.next_frame.index > area.last_frame() {
                            1int
                        } else {
                            0int
                        },
                        None => 0int,
                    }),
        {
            match self.area {
                None => {
                    proof {
                        assert forall|other: int| !self.is_free(other) by {
                            if self.is_free(other) {
                                let i = choose|i: int|
                                    0 <= i < self.areas@.len() && (#[trigger] self.areas@[i]).holds(
                                        other,
                                    );
                                assert(self.areas@[i].last_frame() < self.next_frame.index);
                            }
                        }
                    }
                    searching = false;
                },
                Some(area) => {
                    let frame = Frame { index: self.next_frame.index };
                    let last_frame = area.end_frame();
                    if frame.index > last_frame.index {
                        self.find_free_area();
                        proof {
                            use_type_invariant(&*self);
                        }
                    } else if frame.index >= self.kernel_start.index && frame.index
                        <= self.kernel_end.index {
                        self.next_frame = Frame { index: self.kernel_end.index + 1 };
                    } else if frame.index >= self.mb2_start.index && frame.index
                        <= self.mb2_end.index {
                        self.next_frame = Frame { index: self.mb2_end.index + 1 };
                    } else {
                        proof {
                            let i = self.areas@.index_of(area);
                            assert(self.areas@[i].holds(frame.index as int));
                        }
                        self.next_frame = Frame { index: frame.index + 1 };
                        found = Some(frame);
                        searching = false;
                    }
                },
            }
        }
        proof {
            old(self).lemma_free_frames_finite();
            self.lemma_free_frames_finite();
            lemma_count_from_set(old(self).free_frames());
            lemma_count_from_set(self.free_frames());
            match found {
                Some(f) => {
                    assert(self.available() =~= old(self).available().remove(f.index as int));
                },
                None => {
                    assert(old(self).available() =~= Multiset::empty());
                    assert(self.available() =~= old(self).available());
                },
            }
        }
        found
    }

    /// No frame is taken back.
    open spec fn takes_back(&self, next: &Self, frame: Frame) -> bool {
        false
    }

    /// Never to be called: this allocator takes no frame back.
    fn dealloc_frame(&mut self, frame: Frame) {
    }
}

} // verus!
