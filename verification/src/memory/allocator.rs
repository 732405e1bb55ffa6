//! The kernel heap allocator: power-of-two block free lists in front of a
//! page allocator that hands out whole pages, reusing freed single pages and
//! otherwise bumping a watermark through the heap.
//!
//! Addresses are plain integers; each free list is a stack whose top is the
//! last element of its sequence.

use vstd::prelude::*;

verus! {

/// Virtual address where the kernel heap starts (a canonical x86_64 address).
pub const HEAP_START: u64 = 0x4242_0000_0000;

/// Size of the kernel heap in bytes (128 KiB).
pub const HEAP_SIZE: usize = 131072;

/// Size of a page in bytes.
pub const PAGE_SIZE: usize = 4096;

/// Number of block size classes.
pub const BLOCK_CLASSES: usize = 9;

/// The block size classes in bytes, smallest first.
pub const BLOCK_SIZES: [usize; 9] = [8, 16, 32, 64, 128, 256, 512, 1024, 2048];

/// The block size classes as a sequence.
pub open spec fn block_sizes() -> Seq<usize> {
    seq![8usize, 16, 32, 64, 128, 256, 512, 1024, 2048]
}

/// Size and alignment of a requested allocation.
#[derive(Clone, Copy)]
pub struct Layout {
    pub size: usize,
    pub align: usize,
}

/// The bytes a block must span to serve `layout`: its size or its alignment,
/// whichever is larger.
pub open spec fn block_need(layout: Layout) -> usize {
    if layout.size >= layout.align { layout.size } else { layout.align }
}

/// The size class serving `layout`: the first class at least as large as
/// `block_need(layout)`, or `None` when every class is too small.
pub open spec fn class_of(layout: Layout) -> Option<int> {
    if exists|i: int| 0 <= i < BLOCK_CLASSES && block_sizes()[i] >= block_need(layout) {
        Some(
            choose|i: int|
                0 <= i < BLOCK_CLASSES && block_sizes()[i] >= block_need(layout) && forall|j: int|
                    0 <= j < i ==> block_sizes()[j] < block_need(layout),
        )
    } else {
        None
    }
}

/// Number of pages that hold `size` bytes: `size / PAGE_SIZE` rounded up.
pub open spec fn page_count(size: int) -> int {
    if size % (PAGE_SIZE as int) == 0 {
        size / (PAGE_SIZE as int)
    } else {
        size / (PAGE_SIZE as int) + 1
    }
}

/// Bytes of the whole pages that hold `size` bytes.
pub open spec fn page_bytes(size: int) -> int {
    PAGE_SIZE * page_count(size)
}

/// The abstract state of a page allocator.
pub struct PageModel {
    /// Freed pages. Only the last one is ever handed out, and taking it
    /// empties the list: the pages freed before it are not handed out again.
    pub free: Seq<usize>,
    /// The next address that has never been handed out.
    pub watermark: usize,
}

impl PageModel {
    /// Whether a request takes a freed page rather than bumping the watermark:
    /// only a request of exactly one page does, and only while one is free.
    pub open spec fn reuses_page(self, layout: Layout) -> bool {
        page_bytes(layout.size as int) == PAGE_SIZE && self.free.len() > 0
    }

    /// Whether the page allocator can serve `layout` without overflowing.
    pub open spec fn can_allocate(self, layout: Layout) -> bool {
        &&& page_bytes(layout.size as int) <= usize::MAX
        &&& !self.reuses_page(layout) ==> self.watermark + page_bytes(layout.size as int)
            <= usize::MAX
    }

    /// The address handed out for `layout`.
    pub open spec fn allocated(self, layout: Layout) -> usize {
        if self.reuses_page(layout) {
            self.free.last()
        } else {
            self.watermark
        }
    }

    /// The state after serving `layout`.
    pub open spec fn after_allocate(self, layout: Layout) -> PageModel {
        if self.reuses_page(layout) {
            PageModel { free: Seq::empty(), watermark: self.watermark }
        } else {
            PageModel {
                free: self.free,
                watermark: (self.watermark + page_bytes(layout.size as int)) as usize,
            }
        }
    }

    /// The pages that make up `layout.size` bytes starting at `ptr`.
    pub open spec fn pages_of(ptr: usize, layout: Layout) -> Seq<usize> {
        Seq::new(
            page_count(layout.size as int) as nat,
            |i: int| (ptr + i * PAGE_SIZE) as usize,
        )
    }

    /// Whether every page of the range at `ptr` has an address that fits.
    pub open spec fn can_deallocate(ptr: usize, layout: Layout) -> bool {
        page_count(layout.size as int) == 0 || ptr + (page_count(layout.size as int) - 1)
            * PAGE_SIZE <= usize::MAX
    }

    /// The state after freeing the pages at `ptr`: each page, lowest first, is
    /// pushed onto the free stack.
    pub open spec fn after_deallocate(self, ptr: usize, layout: Layout) -> PageModel {
        PageModel { free: self.free + Self::pages_of(ptr, layout), watermark: self.watermark }
    }
}

/// Hands out whole pages of the heap.
pub struct PageAllocator {
    pages: Vec<usize>,
    watermark: usize,
}

impl View for PageAllocator {
    type V = PageModel;

    closed spec fn view(&self) -> PageModel {
        PageModel { free: self.pages@, watermark: self.watermark }
    }
}

/// Number of whole pages that hold `size` bytes.
pub fn pages_for(size: usize) -> (r: usize)
    ensures
        r == page_count(size as int),
{
    if size % PAGE_SIZE == 0 {
        size / PAGE_SIZE
    } else {
        size / PAGE_SIZE + 1
    }
}

impl PageAllocator {
    /// An allocator with no free pages and its watermark at address 0.
    pub fn new() -> (r: Self)
        ensures
            r@.free == Seq::<usize>::empty(),
            r@.watermark == 0,
    {
        PageAllocator { pages: Vec::new(), watermark: 0 }
    }

    /// Starts handing out fresh pages at `heap_start`; the heap's size is not
    /// recorded.
    pub fn init(&mut self, heap_start: usize, heap_size: usize)
        ensures
            final(self)@.free == old(self)@.free,
            final(self)@.watermark == heap_start,
    {
        self.watermark = heap_start;
    }

    /// Whether `allocate` can serve `layout` without overflowing an address.
    pub fn can_allocate(&self, layout: Layout) -> (r: bool)
        ensures
            r == self@.can_allocate(layout),
    {
        let count = pages_for(layout.size);
        if count > usize::MAX / PAGE_SIZE {
            return false;
        }
        let size = PAGE_SIZE * count;
        if size == PAGE_SIZE && self.pages.len() > 0 {
            true
        } else {
            size <= usize::MAX - self.watermark
        }
    }

    /// Whether every page of the `layout.size` bytes at `ptr` has an address
    /// that fits, so that `deallocate` can free them.
    pub fn can_deallocate(ptr: usize, layout: Layout) -> (r: bool)
        ensures
            r == PageModel::can_deallocate(ptr, layout),
    {
        let count = pages_for(layout.size);
        if count == 0 {
            true
        } else if count - 1 > usize::MAX / PAGE_SIZE {
            false
        } else {
            (count - 1) * PAGE_SIZE <= usize::MAX - ptr
        }
    }

    /// Hands out `layout.size` bytes rounded up to whole pages: the last freed
    /// page when exactly one page is asked for and one is free (emptying the
    /// free list), otherwise fresh pages at the watermark.
    pub fn allocate(&mut self, layout: Layout) -> (r: usize)
        requires
            old(self)@.can_allocate(layout),
        ensures
            r == old(self)@.allocated(layout),
            final(self)@ == old(self)@.after_allocate(layout),
    {
        let count = pages_for(layout.size);
        let size = PAGE_SIZE * count;
        if size == PAGE_SIZE && self.pages.len() > 0 {
            let page = match self.pages.pop() {
                Some(page) => page,
                None => self.watermark,
            };
            self.pages = Vec::new();
            page
        } else {
            let old = self.watermark;
            self.watermark = self.watermark + size;
            old
        }
    }

    /// Frees the pages spanned by `layout.size` bytes at `ptr`.
    pub fn deallocate(&mut self, ptr: usize, layout: Layout)
        requires
            PageModel::can_deallocate(ptr, layout),
        ensures
            final(self)@ == old(self)@.after_deallocate(ptr, layout),
    {
        let count = pages_for(layout.size);
        let ghost start = self.pages@;
        let mut i: usize = 0;
        while i < count
            invariant
                i <= count,
                count == page_count(layout.size as int),
                PageModel::can_deallocate(ptr, layout),
                self.watermark == old(self).watermark,
                self.pages@ == start + PageModel::pages_of(ptr, layout).take(i as int),
                start == old(self).pages@,
            decreases count - i,
        {
            let page = ptr + i * PAGE_SIZE;
            self.pages.push(page);
            i = i + 1;
            assert(self.pages@ == start + PageModel::pages_of(ptr, layout).take(i as int));
        }
        assert(PageModel::pages_of(ptr, layout).take(count as int) == PageModel::pages_of(
            ptr,
            layout,
        ));
    }
}

/// The layout of one block of size class `i`: its size and alignment are both
/// the class size.
pub open spec fn class_layout(i: int) -> Layout {
    Layout { size: block_sizes()[i], align: block_sizes()[i] }
}

/// The abstract state of the block allocator.
pub struct BlockModel {
    /// One free stack per size class; the last block is handed out first.
    pub lists: Seq<Seq<usize>>,
    /// The page allocator behind the blocks.
    pub pages: PageModel,
}

impl BlockModel {
    /// One free list per size class.
    pub open spec fn wf(self) -> bool {
        self.lists.len() == BLOCK_CLASSES
    }

    /// Whether `layout` can be served without overflowing an address.
    pub open spec fn can_alloc(self, layout: Layout) -> bool {
        match class_of(layout) {
            Some(i) => self.lists[i].len() > 0 || self.pages.can_allocate(class_layout(i)),
            None => self.pages.can_allocate(layout),
        }
    }

    /// The address handed out for `layout`: the most recently freed block of
    /// its class; failing that, a page from the page allocator; and for a
    /// request larger than every class, its pages from the page allocator.
    pub open spec fn allocated(self, layout: Layout) -> usize {
        match class_of(layout) {
            Some(i) => if self.lists[i].len() > 0 {
                self.lists[i].last()
            } else {
                self.pages.allocated(class_layout(i))
            },
            None => self.pages.allocated(layout),
        }
    }

    /// The state after serving `layout`.
    pub open spec fn after_alloc(self, layout: Layout) -> BlockModel {
        match class_of(layout) {
            Some(i) => if self.lists[i].len() > 0 {
                BlockModel { lists: self.lists.update(i, self.lists[i].drop_last()), pages: self.pages }
            } else {
                BlockModel { lists: self.lists, pages: self.pages.after_allocate(class_layout(i)) }
            },
            None => BlockModel { lists: self.lists, pages: self.pages.after_allocate(layout) },
        }
    }

    /// Whether the block at `ptr` can be given back without overflowing.
    pub open spec fn can_dealloc(self, ptr: usize, layout: Layout) -> bool {
        class_of(layout) is None ==> PageModel::can_deallocate(ptr, layout)
    }

    /// The state after freeing `ptr`: pushed onto the free list of its class,
    /// or, for a request larger than every class, given to the page allocator.
    pub open spec fn after_dealloc(self, ptr: usize, layout: Layout) -> BlockModel {
        match class_of(layout) {
            Some(i) => BlockModel { lists: self.lists.update(i, self.lists[i].push(ptr)), pages: self.pages },
            None => BlockModel { lists: self.lists, pages: self.pages.after_deallocate(ptr, layout) },
        }
    }
}

/// Serves small requests from per-size free lists and large ones from pages.
pub struct BlockAllocator {
    blocks: Vec<Vec<usize>>,
    page_allocator: PageAllocator,
}

impl View for BlockAllocator {
    type V = BlockModel;

    closed spec fn view(&self) -> BlockModel {
        BlockModel {
            lists: self.blocks@.map_values(|v: Vec<usize>| v@),
            pages: self.page_allocator@,
        }
    }
}

impl BlockAllocator {
    /// An allocator with empty free lists and a fresh page allocator.
    pub fn new() -> (r: Self)
        ensures
            r@.wf(),
            forall|i: int| 0 <= i < BLOCK_CLASSES ==> r@.lists[i] == Seq::<usize>::empty(),
            r@.pages == PageAllocator::new_model(),
    {
        let mut blocks: Vec<Vec<usize>> = Vec::new();
        let mut i: usize = 0;
        while i < BLOCK_CLASSES
            invariant
                i <= BLOCK_CLASSES,
                blocks@.len() == i,
                forall|j: int| 0 <= j < i ==> blocks@[j]@ == Seq::<usize>::empty(),
            decreases BLOCK_CLASSES - i,
        {
            blocks.push(Vec::new());
            i = i + 1;
        }
        BlockAllocator { blocks, page_allocator: PageAllocator::new() }
    }

    /// Starts the page allocator at `heap_start`.
    pub fn init(&mut self, heap_start: usize, heap_size: usize)
        ensures
            final(self)@.lists == old(self)@.lists,
            final(self)@.pages.free == old(self)@.pages.free,
            final(self)@.pages.watermark == heap_start,
    {
        self.page_allocator.init(heap_start, heap_size);
    }

    /// The size class serving `layout`: the first one whose size is at least
    /// both the size and the alignment asked for.
    pub fn list_index(layout: &Layout) -> (r: Option<usize>)
        ensures
            match r {
                Some(i) => class_of(*layout) == Some(i as int),
                None => class_of(*layout) is None,
            },
    {
        let block_size = if layout.size >= layout.align { layout.size } else { layout.align };
        assert(BLOCK_SIZES@ == block_sizes());
        let mut i: usize = 0;
        while i < BLOCK_CLASSES
            invariant
                i <= BLOCK_CLASSES,
                block_size == block_need(*layout),
                BLOCK_SIZES@ == block_sizes(),
                forall|j: int| 0 <= j < i ==> block_sizes()[j] < block_size,
            decreases BLOCK_CLASSES - i,
        {
            if BLOCK_SIZES[i] >= block_size {
                proof {
                    lemma_class_of_first(*layout, i as int);
                }
                return Some(i);
            }
            i = i + 1;
        }
        None
    }
}

impl BlockAllocator {
    /// Whether `allocate` can serve `layout` without overflowing an address.
    pub fn can_allocate(&self, layout: Layout) -> (r: bool)
        requires
            self@.wf(),
        ensures
            r == self@.can_alloc(layout),
    {
        match Self::list_index(&layout) {
            Some(index) => {
                if self.blocks[index].len() > 0 {
                    true
                } else {
                    assert(BLOCK_SIZES@ == block_sizes());
                    let size = BLOCK_SIZES[index];
                    self.page_allocator.can_allocate(Layout { size, align: size })
                }
            },
            None => self.page_allocator.can_allocate(layout),
        }
    }

    /// Whether `deallocate` can take back the block at `ptr` without
    /// overflowing an address.
    pub fn can_deallocate(ptr: usize, layout: Layout) -> (r: bool)
        ensures
            r == (class_of(layout) is None ==> PageModel::can_deallocate(ptr, layout)),
    {
        match Self::list_index(&layout) {
            Some(_) => true,
            None => PageAllocator::can_deallocate(ptr, layout),
        }
    }

    /// Hands out an address for `layout`: the most recently freed block of its
    /// size class, else one fresh page-backed block of that class, else (for a
    /// request larger than every class) whole pages.
    pub fn allocate(&mut self, layout: Layout) -> (r: usize)
        requires
            old(self)@.wf(),
            old(self)@.can_alloc(layout),
        ensures
            final(self)@.wf(),
            r == old(self)@.allocated(layout),
            final(self)@ == old(self)@.after_alloc(layout),
    {
        let ghost before = self@;
        match Self::list_index(&layout) {
            Some(index) => {
                let popped = self.blocks[index].pop();
                match popped {
                    Some(node) => {
                        proof {
                            assert(self@.lists =~= before.lists.update(
                                index as int,
                                before.lists[index as int].drop_last(),
                            ));
                        }
                        node
                    },
                    None => {
                        assert(BLOCK_SIZES@ == block_sizes());
                        let size = BLOCK_SIZES[index];
                        proof {
                            assert(self@.lists =~= before.lists);
                        }
                        self.page_allocator.allocate(Layout { size, align: size })
                    },
                }
            },
            None => self.page_allocator.allocate(layout),
        }
    }

    /// Gives back the block at `ptr` that was handed out for `layout`.
    pub fn deallocate(&mut self, ptr: usize, layout: Layout)
        requires
            old(self)@.wf(),
            old(self)@.can_dealloc(ptr, layout),
        ensures
            final(self)@.wf(),
            final(self)@ == old(self)@.after_dealloc(ptr, layout),
    {
        let ghost before = self@;
        match Self::list_index(&layout) {
            Some(index) => {
                self.blocks[index].push(ptr);
                proof {
                    assert(self@.lists =~= before.lists.update(
                        index as int,
                        before.lists[index as int].push(ptr),
                    ));
                }
            },
            None => self.page_allocator.deallocate(ptr, layout),
        }
    }
}

/// A class that fits and is preceded only by classes too small is the class
/// that serves the layout.
proof fn lemma_class_of_first(layout: Layout, i: int)
    requires
        0 <= i < BLOCK_CLASSES,
        block_sizes()[i] >= block_need(layout),
        forall|j: int| 0 <= j < i ==> block_sizes()[j] < block_need(layout),
    ensures
        class_of(layout) == Some(i),
{
    let k = choose|k: int|
        0 <= k < BLOCK_CLASSES && block_sizes()[k] >= block_need(layout) && forall|j: int|
            0 <= j < k ==> block_sizes()[j] < block_need(layout);
    assert(0 <= k < BLOCK_CLASSES && block_sizes()[k] >= block_need(layout));
    if k < i {
        assert(block_sizes()[k] < block_need(layout));
    }
    if k > i {
        assert(block_sizes()[i] < block_need(layout));
    }
}

impl PageAllocator {
    /// The state of a new page allocator.
    pub open spec fn new_model() -> PageModel {
        PageModel { free: Seq::empty(), watermark: 0 }
    }
}

/// A request takes the fewest whole pages that hold it: its pages hold all
/// of its bytes, and one page fewer would not; a request of no bytes takes
/// no page.
pub proof fn lemma_page_count_fewest(n: int)
    requires
        n >= 0,
    ensures
        page_count(n) >= 0,
        page_count(n) * 4096 >= n,
        n > 0 ==> (page_count(n) - 1) * 4096 < n,
        page_count(0) == 0,
        page_bytes(n) < n + 4096,
{
    vstd::arithmetic::div_mod::lemma_fundamental_div_mod(n, 4096);
}

/// The size classes are the powers of two from 8 to 2048 bytes, smallest
/// first, each twice the one before; each divides a page.
pub proof fn lemma_block_sizes()
    ensures
        block_sizes().len() == BLOCK_CLASSES,
        BLOCK_CLASSES == 9,
        block_sizes()[0] == 8,
        forall|i: int| 0 < i < BLOCK_CLASSES ==> #[trigger] block_sizes()[i] == 2 * block_sizes()[i - 1],
        forall|i: int| 0 <= i < BLOCK_CLASSES ==> 4096int % (block_sizes()[i] as int) == 0,
{
    assert forall|i: int| 0 <= i < BLOCK_CLASSES implies 4096int % (block_sizes()[i] as int)
        == 0 by {
        assert(page_power_of_two(block_sizes()[i] as int));
        lemma_page_powers_divide(block_sizes()[i] as int, 4096);
    }
}

/// Freeing one page and then asking for one page gives that page back, with
/// the watermark where it was and no freed page left.
pub proof fn lemma_page_free_then_allocate(m: PageModel, ptr: usize, layout: Layout)
    requires
        page_count(layout.size as int) == 1,
    ensures
        PageModel::can_deallocate(ptr, layout),
        m.after_deallocate(ptr, layout).can_allocate(layout),
        m.after_deallocate(ptr, layout).allocated(layout) == ptr,
        m.after_deallocate(ptr, layout).after_allocate(layout) == (PageModel {
            free: Seq::empty(),
            watermark: m.watermark,
        }),
{
    let m2 = m.after_deallocate(ptr, layout);
    assert(PageModel::pages_of(ptr, layout) =~= seq![ptr]);
}

/// Freeing a block and then asking for a block of the same layout gives that
/// block back, for every layout served by a size class and for every layout
/// that takes exactly one page. A block of a size class leaves the allocator
/// as it was; a page leaves it with the watermark where it was and no freed
/// page left.
pub proof fn lemma_free_then_allocate(m: BlockModel, ptr: usize, layout: Layout)
    requires
        m.wf(),
        class_of(layout) is Some || page_count(layout.size as int) == 1,
    ensures
        m.can_dealloc(ptr, layout),
        m.after_dealloc(ptr, layout).wf(),
        m.after_dealloc(ptr, layout).can_alloc(layout),
        m.after_dealloc(ptr, layout).allocated(layout) == ptr,
        class_of(layout) is Some ==> m.after_dealloc(ptr, layout).after_alloc(layout) == m,
        class_of(layout) is None ==> m.after_dealloc(ptr, layout).after_alloc(layout) == (
        BlockModel {
            lists: m.lists,
            pages: PageModel { free: Seq::empty(), watermark: m.pages.watermark },
        }),
{
    let m2 = m.after_dealloc(ptr, layout);
    match class_of(layout) {
        Some(i) => {
            lemma_class_of_in_range(layout);
            assert(m2.lists[i] == m.lists[i].push(ptr));
            assert(m2.lists[i].drop_last() =~= m.lists[i]);
            assert(m2.lists.update(i, m2.lists[i].drop_last()) =~= m.lists);
        },
        None => {
            lemma_page_free_then_allocate(m.pages, ptr, layout);
        },
    }
}

/// The class that serves a layout is a valid class that fits it, and every
/// smaller class is too small.
pub proof fn lemma_class_of_in_range(layout: Layout)
    ensures
        class_of(layout) matches Some(i) ==> {
            &&& 0 <= i < BLOCK_CLASSES
            &&& block_sizes()[i] >= block_need(layout)
            &&& forall|j: int| 0 <= j < i ==> block_sizes()[j] < block_need(layout)
        },
        class_of(layout) is None <==> block_need(layout) > 2048,
{
    let need = block_need(layout);
    if need <= 2048 {
        let i: int = if need <= 8 {
            0
        } else if need <= 16 {
            1
        } else if need <= 32 {
            2
        } else if need <= 64 {
            3
        } else if need <= 128 {
            4
        } else if need <= 256 {
            5
        } else if need <= 512 {
            6
        } else if need <= 1024 {
            7
        } else {
            8
        };
        lemma_class_of_first(layout, i);
    } else {
        assert forall|i: int| 0 <= i < BLOCK_CLASSES implies block_sizes()[i] < need by {}
    }
}

/// The watermark never moves down: serving a request leaves it in place or
/// raises it by the bytes handed out, and freeing never moves it.
pub proof fn lemma_watermark_monotone(m: BlockModel, layout: Layout, ptr: usize)
    requires
        m.wf(),
        m.can_alloc(layout),
    ensures
        m.after_alloc(layout).pages.watermark >= m.pages.watermark,
        m.after_dealloc(ptr, layout).pages.watermark == m.pages.watermark,
{
}

/// Fresh memory comes in whole pages: a page-aligned watermark stays page
/// aligned through every request and every free.
pub proof fn lemma_watermark_page_aligned(m: BlockModel, layout: Layout, ptr: usize)
    requires
        m.wf(),
        m.can_alloc(layout),
        m.pages.watermark % PAGE_SIZE == 0,
    ensures
        m.after_alloc(layout).pages.watermark % PAGE_SIZE == 0,
        m.after_dealloc(ptr, layout).pages.watermark % PAGE_SIZE == 0,
{
    let req = page_request(layout);
    let w = m.pages.watermark as int;
    let c = page_count(req.size as int);
    assert((w + PAGE_SIZE * c) % (PAGE_SIZE as int) == 0) by {
        vstd::arithmetic::div_mod::lemma_mod_multiples_vanish(c, w, PAGE_SIZE as int);
    }
}

/// The layout the page allocator is asked for when `layout` is served from
/// pages: one block of its class, or `layout` itself when no class fits.
pub open spec fn page_request(layout: Layout) -> Layout {
    match class_of(layout) {
        Some(i) => class_layout(i),
        None => layout,
    }
}

/// Every address handed out is a block freed earlier into the same class, a
/// page freed earlier, or the watermark; when it is the watermark, the
/// watermark moves up by exactly the whole pages handed out, so no later
/// fresh address falls inside them.
pub proof fn lemma_allocation_source(m: BlockModel, layout: Layout)
    requires
        m.wf(),
        m.can_alloc(layout),
    ensures
        ({
            let r = m.allocated(layout);
            let m2 = m.after_alloc(layout);
            ||| (class_of(layout) matches Some(i) && m.lists[i].contains(r))
            ||| m.pages.free.contains(r)
            ||| (r == m.pages.watermark && m2.pages.watermark == r + page_bytes(
                page_request(layout).size as int,
            ))
        }),
{
    let r = m.allocated(layout);
    match class_of(layout) {
        Some(i) => {
            if m.lists[i].len() > 0 {
                assert(m.lists[i][m.lists[i].len() - 1] == r);
            } else {
                lemma_class_of_in_range(layout);
                if m.pages.reuses_page(class_layout(i)) {
                    assert(m.pages.free[m.pages.free.len() - 1] == r);
                }
            }
        },
        None => {
            if m.pages.reuses_page(layout) {
                assert(m.pages.free[m.pages.free.len() - 1] == r);
            }
        },
    }
}

/// The free slots of the allocator: `c` below `BLOCK_CLASSES` names the free
/// list of size class `c`, and `c == BLOCK_CLASSES` the list of free pages;
/// `k` is a position in that list.
pub open spec fn is_slot(m: BlockModel, c: int, k: int) -> bool {
    &&& 0 <= c <= BLOCK_CLASSES
    &&& 0 <= k < (if c == BLOCK_CLASSES { m.pages.free.len() as int } else { m.lists[c].len() as int })
}

/// The address held in a free slot.
pub open spec fn slot_addr(m: BlockModel, c: int, k: int) -> int {
    if c == BLOCK_CLASSES {
        m.pages.free[k] as int
    } else {
        m.lists[c][k] as int
    }
}

/// The bytes a free slot of list `c` stands for: a whole page, or a block of
/// its size class.
pub open spec fn slot_size(c: int) -> int {
    if c == BLOCK_CLASSES {
        PAGE_SIZE as int
    } else {
        block_sizes()[c] as int
    }
}

/// Two byte ranges share no byte.
pub open spec fn apart(a: int, la: int, b: int, lb: int) -> bool {
    la == 0 || lb == 0 || a + la <= b || b + lb <= a
}

/// The bytes a block handed out for `layout` owns: its whole size class, or
/// its whole pages.
pub open spec fn extent(layout: Layout) -> int {
    match class_of(layout) {
        Some(i) => block_sizes()[i] as int,
        None => page_bytes(layout.size as int),
    }
}

/// The alignment of every block handed out for `layout`: its class size, or
/// a page.
pub open spec fn extent_align(layout: Layout) -> int {
    match class_of(layout) {
        Some(i) => block_sizes()[i] as int,
        None => PAGE_SIZE as int,
    }
}

/// Every free slot lies below the watermark and is aligned to its size.
pub open spec fn slots_below(m: BlockModel) -> bool {
    forall|c: int, k: int|
        #[trigger] is_slot(m, c, k) ==> slot_addr(m, c, k) + slot_size(c) <= m.pages.watermark
            && slot_addr(m, c, k) % slot_size(c) == 0
}

/// No two free slots share a byte.
pub open spec fn slots_apart(m: BlockModel) -> bool {
    forall|c1: int, k1: int, c2: int, k2: int|
        #[trigger] is_slot(m, c1, k1) && #[trigger] is_slot(m, c2, k2) && (c1 != c2 || k1 != k2)
            ==> apart(slot_addr(m, c1, k1), slot_size(c1), slot_addr(m, c2, k2), slot_size(c2))
}

/// Every block in use lies below the watermark and is aligned as its layout
/// makes every block of it.
pub open spec fn live_below(m: BlockModel, live: Seq<(usize, Layout)>) -> bool {
    forall|j: int|
        0 <= j < live.len() ==> #[trigger] live[j].0 + extent(live[j].1) <= m.pages.watermark
            && (live[j].0 as int) % extent_align(live[j].1) == 0
}

/// No block in use shares a byte with a free slot.
pub open spec fn live_apart_from_slots(m: BlockModel, live: Seq<(usize, Layout)>) -> bool {
    forall|j: int, c: int, k: int|
        #![trigger live[j], is_slot(m, c, k)]
        0 <= j < live.len() && is_slot(m, c, k) ==> apart(
            live[j].0 as int,
            extent(live[j].1),
            slot_addr(m, c, k),
            slot_size(c),
        )
}

/// No two blocks in use share a byte.
pub open spec fn live_apart(live: Seq<(usize, Layout)>) -> bool {
    forall|j1: int, j2: int|
        #![trigger live[j1], live[j2]]
        0 <= j1 < live.len() && 0 <= j2 < live.len() && j1 != j2 ==> apart(
            live[j1].0 as int,
            extent(live[j1].1),
            live[j2].0 as int,
            extent(live[j2].1),
        )
}

/// The allocator's state `m` with the blocks `live` in use (each with the
/// layout it was asked for): the watermark is page aligned; every free slot
/// and every block in use lies below it and is aligned; and no two of them,
/// free or in use, share a byte.
pub open spec fn heap_inv(m: BlockModel, live: Seq<(usize, Layout)>) -> bool {
    &&& m.wf()
    &&& (m.pages.watermark as int) % (PAGE_SIZE as int) == 0
    &&& slots_below(m)
    &&& slots_apart(m)
    &&& live_below(m, live)
    &&& live_apart_from_slots(m, live)
    &&& live_apart(live)
}

/// An alignment that is a power of two no larger than a page.
pub open spec fn page_power_of_two(a: int) -> bool {
    a == 1 || a == 2 || a == 4 || a == 8 || a == 16 || a == 32 || a == 64 || a == 128 || a
        == 256 || a == 512 || a == 1024 || a == 2048 || a == 4096
}

/// A block handed out owns at least the bytes asked for.
proof fn lemma_size_within_extent(layout: Layout)
    ensures
        layout.size <= extent(layout),
        extent(layout) >= 0,
        page_power_of_two(extent_align(layout)),
{
    lemma_class_of_in_range(layout);
}

/// If `b` is a multiple of `a` and `r` of `b`, then `r` is a multiple of `a`.
proof fn lemma_divides_trans(r: int, b: int, a: int)
    requires
        a > 0,
        b > 0,
        r >= 0,
        r % b == 0,
        b % a == 0,
    ensures
        r % a == 0,
{
    vstd::arithmetic::div_mod::lemma_fundamental_div_mod(r, b);
    vstd::arithmetic::div_mod::lemma_fundamental_div_mod(b, a);
    let q = r / b;
    let t = b / a;
    assert(r == a * (t * q)) by (nonlinear_arith)
        requires
            r == b * q,
            b == a * t,
    ;
    vstd::arithmetic::div_mod::lemma_mod_multiples_basic(t * q, a);
    assert(a * (t * q) == (t * q) * a) by (nonlinear_arith);
}

/// Of two powers of two no larger than a page, the larger is a multiple of
/// the smaller.
proof fn lemma_page_powers_divide(a: int, b: int)
    requires
        page_power_of_two(a),
        page_power_of_two(b),
        a <= b,
    ensures
        b % a == 0,
{
    if a == 1 {
        assert(b % 1 == 0);
    } else if a == 2 {
        assert(b % 2 == 0);
    } else if a == 4 {
        assert(b % 4 == 0);
    } else if a == 8 {
        assert(b % 8 == 0);
    } else if a == 16 {
        assert(b % 16 == 0);
    } else if a == 32 {
        assert(b % 32 == 0);
    } else if a == 64 {
        assert(b % 64 == 0);
    } else if a == 128 {
        assert(b % 128 == 0);
    } else if a == 256 {
        assert(b % 256 == 0);
    } else if a == 512 {
        assert(b % 512 == 0);
    } else if a == 1024 {
        assert(b % 1024 == 0);
    } else if a == 2048 {
        assert(b % 2048 == 0);
    } else if a == 4096 {
        assert(b % 4096 == 0);
    }
}

/// A sub-range of a range apart from another is apart from it too.
proof fn lemma_apart_within(a: int, la: int, a2: int, la2: int, b: int, lb: int)
    requires
        apart(a, la, b, lb),
        la2 >= 0,
        a <= a2,
        a2 + la2 <= a + la,
    ensures
        apart(a2, la2, b, lb),
{
}

/// Handing out the block in free slot `(c0, k0)` for `layout` keeps the
/// invariant, when the slots left are slots of before other than that one.
proof fn lemma_take_slot(
    m: BlockModel,
    m2: BlockModel,
    live: Seq<(usize, Layout)>,
    c0: int,
    k0: int,
    layout: Layout,
)
    requires
        heap_inv(m, live),
        m2.wf(),
        m2.pages.watermark == m.pages.watermark,
        is_slot(m, c0, k0),
        extent(layout) <= slot_size(c0),
        slot_addr(m, c0, k0) % extent_align(layout) == 0,
        forall|c: int, k: int|
            #[trigger] is_slot(m2, c, k) ==> is_slot(m, c, k) && slot_addr(m2, c, k) == slot_addr(
                m,
                c,
                k,
            ) && (c != c0 || k != k0),
    ensures
        heap_inv(m2, live.push((slot_addr(m, c0, k0) as usize, layout))),
{
    let r = slot_addr(m, c0, k0);
    let live2 = live.push((r as usize, layout));
    assert(r >= 0);
    lemma_size_within_extent(layout);
    assert(live2[live.len() as int] == (r as usize, layout));
    assert forall|j: int| 0 <= j < live.len() implies live2[j] == live[j] by {}
    assert(slots_below(m2)) by {
        assert forall|c: int, k: int| #[trigger] is_slot(m2, c, k) implies slot_addr(m2, c, k)
            + slot_size(c) <= m2.pages.watermark && slot_addr(m2, c, k) % slot_size(c) == 0 by {
            assert(is_slot(m, c, k));
        }
    }
    assert(slots_apart(m2)) by {
        assert forall|c1: int, k1: int, c2: int, k2: int|
            #[trigger] is_slot(m2, c1, k1) && #[trigger] is_slot(m2, c2, k2) && (c1 != c2 || k1
                != k2) implies apart(
            slot_addr(m2, c1, k1),
            slot_size(c1),
            slot_addr(m2, c2, k2),
            slot_size(c2),
        ) by {
            assert(is_slot(m, c1, k1));
            assert(is_slot(m, c2, k2));
        }
    }
    assert(live_below(m2, live2)) by {
        assert forall|j: int| 0 <= j < live2.len() implies #[trigger] live2[j].0 + extent(
            live2[j].1,
        ) <= m2.pages.watermark && (live2[j].0 as int) % extent_align(live2[j].1) == 0 by {
            if j < live.len() {
                assert(live2[j] == live[j]);
            } else {
                assert(is_slot(m, c0, k0));
            }
        }
    }
    assert(live_apart_from_slots(m2, live2)) by {
        assert forall|j: int, c: int, k: int|
            0 <= j < live2.len() && #[trigger] is_slot(m2, c, k) implies apart(
            #[trigger] live2[j].0 as int,
            extent(live2[j].1),
            slot_addr(m2, c, k),
            slot_size(c),
        ) by {
            assert(is_slot(m, c, k));
            if j < live.len() {
                assert(live2[j] == live[j]);
                assert(apart(live[j].0 as int, extent(live[j].1), slot_addr(m, c, k), slot_size(c)));
            } else {
                assert(apart(r, slot_size(c0), slot_addr(m, c, k), slot_size(c)));
                lemma_apart_within(r, slot_size(c0), r, extent(layout), slot_addr(m, c, k), slot_size(c));
            }
        }
    }
    assert(live_apart(live2)) by {
        assert forall|j1: int, j2: int|
            0 <= j1 < live2.len() && 0 <= j2 < live2.len() && j1 != j2 implies apart(
            #[trigger] live2[j1].0 as int,
            extent(live2[j1].1),
            #[trigger] live2[j2].0 as int,
            extent(live2[j2].1),
        ) by {
            if j1 < live.len() && j2 < live.len() {
                assert(live2[j1] == live[j1]);
                assert(live2[j2] == live[j2]);
                assert(apart(live[j1].0 as int, extent(live[j1].1), live[j2].0 as int, extent(live[j2].1)));
            } else if j1 < live.len() {
                assert(live2[j1] == live[j1]);
                lemma_size_within_extent(live[j1].1);
                assert(apart(live[j1].0 as int, extent(live[j1].1), r, slot_size(c0)));
                lemma_apart_within(r, slot_size(c0), r, extent(layout), live[j1].0 as int, extent(live[j1].1));
            } else {
                assert(live2[j2] == live[j2]);
                lemma_size_within_extent(live[j2].1);
                assert(apart(live[j2].0 as int, extent(live[j2].1), r, slot_size(c0)));
                lemma_apart_within(r, slot_size(c0), r, extent(layout), live[j2].0 as int, extent(live[j2].1));
            }
        }
    }
}

/// Handing out fresh memory at the watermark for `layout`, and raising the
/// watermark by `bytes`, keeps the invariant.
proof fn lemma_take_fresh(
    m: BlockModel,
    m2: BlockModel,
    live: Seq<(usize, Layout)>,
    layout: Layout,
    bytes: int,
)
    requires
        heap_inv(m, live),
        m2.lists == m.lists,
        m2.pages.free == m.pages.free,
        m2.pages.watermark == m.pages.watermark + bytes,
        bytes >= extent(layout),
        bytes % (PAGE_SIZE as int) == 0,
        (m.pages.watermark as int) % extent_align(layout) == 0,
    ensures
        heap_inv(m2, live.push((m.pages.watermark, layout))),
{
    let w = m.pages.watermark as int;
    let live2 = live.push((m.pages.watermark, layout));
    lemma_size_within_extent(layout);
    assert(live2[live.len() as int] == (m.pages.watermark, layout));
    assert forall|c: int, k: int| is_slot(m2, c, k) == is_slot(m, c, k) && slot_addr(m2, c, k)
        == slot_addr(m, c, k) by {}
    assert((w + bytes) % (PAGE_SIZE as int) == 0) by {
        vstd::arithmetic::div_mod::lemma_add_mod_noop(w, bytes, PAGE_SIZE as int);
    }
    assert(slots_below(m2)) by {
        assert forall|c: int, k: int| #[trigger] is_slot(m2, c, k) implies slot_addr(m2, c, k)
            + slot_size(c) <= m2.pages.watermark && slot_addr(m2, c, k) % slot_size(c) == 0 by {
            assert(is_slot(m, c, k));
        }
    }
    assert(slots_apart(m2)) by {
        assert forall|c1: int, k1: int, c2: int, k2: int|
            #[trigger] is_slot(m2, c1, k1) && #[trigger] is_slot(m2, c2, k2) && (c1 != c2 || k1
                != k2) implies apart(
            slot_addr(m2, c1, k1),
            slot_size(c1),
            slot_addr(m2, c2, k2),
            slot_size(c2),
        ) by {
            assert(is_slot(m, c1, k1));
            assert(is_slot(m, c2, k2));
        }
    }
    assert(live_below(m2, live2)) by {
        assert forall|j: int| 0 <= j < live2.len() implies #[trigger] live2[j].0 + extent(
            live2[j].1,
        ) <= m2.pages.watermark && (live2[j].0 as int) % extent_align(live2[j].1) == 0 by {
            if j < live.len() {
                assert(live2[j] == live[j]);
            }
        }
    }
    assert(live_apart_from_slots(m2, live2)) by {
        assert forall|j: int, c: int, k: int|
            0 <= j < live2.len() && #[trigger] is_slot(m2, c, k) implies apart(
            #[trigger] live2[j].0 as int,
            extent(live2[j].1),
            slot_addr(m2, c, k),
            slot_size(c),
        ) by {
            assert(is_slot(m, c, k));
            if j < live.len() {
                assert(live2[j] == live[j]);
                assert(apart(live[j].0 as int, extent(live[j].1), slot_addr(m, c, k), slot_size(c)));
            }
        }
    }
    assert(live_apart(live2)) by {
        assert forall|j1: int, j2: int|
            0 <= j1 < live2.len() && 0 <= j2 < live2.len() && j1 != j2 implies apart(
            #[trigger] live2[j1].0 as int,
            extent(live2[j1].1),
            #[trigger] live2[j2].0 as int,
            extent(live2[j2].1),
        ) by {
            if j1 < live.len() && j2 < live.len() {
                assert(live2[j1] == live[j1]);
                assert(live2[j2] == live[j2]);
                assert(apart(live[j1].0 as int, extent(live[j1].1), live[j2].0 as int, extent(live[j2].1)));
            } else if j1 < live.len() {
                assert(live2[j1] == live[j1]);
            } else {
                assert(live2[j2] == live[j2]);
            }
        }
    }
}

/// Serving a request keeps the allocator's invariant with the new block
/// added to the blocks in use. The block shares no byte with any block still
/// in use, so a block is never handed out twice while in use; and it is
/// aligned as asked whenever the alignment asked is a power of two no larger
/// than a page.
pub proof fn lemma_allocate_keeps_heap(m: BlockModel, live: Seq<(usize, Layout)>, layout: Layout)
    requires
        heap_inv(m, live),
        m.can_alloc(layout),
    ensures
        heap_inv(m.after_alloc(layout), live.push((m.allocated(layout), layout))),
        forall|j: int|
            0 <= j < live.len() ==> apart(
                m.allocated(layout) as int,
                layout.size as int,
                #[trigger] live[j].0 as int,
                live[j].1.size as int,
            ),
        page_power_of_two(layout.align as int) ==> (m.allocated(layout) as int) % (
        layout.align as int) == 0,
{
    let r = m.allocated(layout);
    let m2 = m.after_alloc(layout);
    lemma_class_of_in_range(layout);
    lemma_size_within_extent(layout);
    match class_of(layout) {
        Some(i) => {
            let n = m.lists[i].len() as int;
            if n > 0 {
                assert(is_slot(m, i, n - 1));
                assert forall|c: int, k: int| #[trigger] is_slot(m2, c, k) implies is_slot(m, c, k)
                    && slot_addr(m2, c, k) == slot_addr(m, c, k) && (c != i || k != n - 1) by {
                    if c == i {
                        assert(m2.lists[i] == m.lists[i].drop_last());
                    }
                }
                lemma_take_slot(m, m2, live, i, n - 1, layout);
            } else if m.pages.reuses_page(class_layout(i)) {
                let np = m.pages.free.len() as int;
                assert(is_slot(m, BLOCK_CLASSES as int, np - 1));
                assert(slot_addr(m, BLOCK_CLASSES as int, np - 1) % 4096 == 0);
                lemma_page_powers_divide(block_sizes()[i] as int, 4096);
                lemma_divides_trans(slot_addr(m, BLOCK_CLASSES as int, np - 1), 4096, block_sizes()[i] as int);
                assert forall|c: int, k: int| #[trigger] is_slot(m2, c, k) implies is_slot(m, c, k)
                    && slot_addr(m2, c, k) == slot_addr(m, c, k) && (c != BLOCK_CLASSES || k != np
                    - 1) by {}
                lemma_take_slot(m, m2, live, BLOCK_CLASSES as int, np - 1, layout);
            } else {
                lemma_page_powers_divide(block_sizes()[i] as int, 4096);
                lemma_divides_trans(m.pages.watermark as int, 4096, block_sizes()[i] as int);
                lemma_take_fresh(m, m2, live, layout, PAGE_SIZE as int);
            }
        },
        None => {
            if m.pages.reuses_page(layout) {
                let np = m.pages.free.len() as int;
                assert(is_slot(m, BLOCK_CLASSES as int, np - 1));
                assert forall|c: int, k: int| #[trigger] is_slot(m2, c, k) implies is_slot(m, c, k)
                    && slot_addr(m2, c, k) == slot_addr(m, c, k) && (c != BLOCK_CLASSES || k != np
                    - 1) by {}
                lemma_take_slot(m, m2, live, BLOCK_CLASSES as int, np - 1, layout);
            } else {
                lemma_take_fresh(m, m2, live, layout, page_bytes(layout.size as int));
            }
        },
    }
    let live2 = live.push((r, layout));
    assert(live2[live.len() as int] == (r, layout));
    assert forall|j: int| 0 <= j < live.len() implies apart(
        r as int,
        layout.size as int,
        #[trigger] live[j].0 as int,
        live[j].1.size as int,
    ) by {
        assert(live2[j] == live[j]);
        assert(apart(live2[live.len() as int].0 as int, extent(layout), live2[j].0 as int, extent(live[j].1)));
        lemma_size_within_extent(live[j].1);
        lemma_apart_within(r as int, extent(layout), r as int, layout.size as int, live[j].0 as int, extent(live[j].1));
        lemma_apart_within(live[j].0 as int, extent(live[j].1), live[j].0 as int, live[j].1.size as int, r as int, layout.size as int);
    }
    if page_power_of_two(layout.align as int) {
        assert((r as int) % extent_align(layout) == 0);
        lemma_page_powers_divide(layout.align as int, extent_align(layout));
        lemma_divides_trans(r as int, extent_align(layout), layout.align as int);
    }
}

/// Freeing block `k` of the blocks in use, with the layout it was handed out
/// for, keeps the invariant with that block no longer in use.
pub proof fn lemma_deallocate_keeps_heap(m: BlockModel, live: Seq<(usize, Layout)>, k: int)
    requires
        heap_inv(m, live),
        0 <= k < live.len(),
    ensures
        m.can_dealloc(live[k].0, live[k].1),
        heap_inv(m.after_dealloc(live[k].0, live[k].1), live.remove(k)),
{
    let p = live[k].0;
    let layout = live[k].1;
    let m2 = m.after_dealloc(p, layout);
    let live2 = live.remove(k);
    lemma_class_of_in_range(layout);
    lemma_size_within_extent(layout);
    assert(p + extent(layout) <= m.pages.watermark);
    assert forall|j: int| 0 <= j < live2.len() implies #[trigger] live2[j] == live[if j < k {
        j
    } else {
        j + 1
    }] by {}
    match class_of(layout) {
        Some(i) => {
            let n = m.lists[i].len() as int;
            assert forall|c: int, q: int| #[trigger] is_slot(m2, c, q) implies (is_slot(m, c, q)
                && slot_addr(m2, c, q) == slot_addr(m, c, q)) || (c == i && q == n && slot_addr(
                m2,
                c,
                q,
            ) == p && slot_size(c) == extent(layout)) by {
                if c == i {
                    assert(m2.lists[i] == m.lists[i].push(p));
                }
            }
            assert(slots_below(m2)) by {
                assert forall|c: int, q: int| #[trigger] is_slot(m2, c, q) implies slot_addr(m2, c, q)
                    + slot_size(c) <= m2.pages.watermark && slot_addr(m2, c, q) % slot_size(c)
                    == 0 by {
                    if c != i || q != n {
                        assert(is_slot(m, c, q));
                    }
                }
            }
            assert(slots_apart(m2)) by {
                assert forall|c1: int, k1: int, c2: int, k2: int|
                    #[trigger] is_slot(m2, c1, k1) && #[trigger] is_slot(m2, c2, k2) && (c1 != c2
                        || k1 != k2) implies apart(
                    slot_addr(m2, c1, k1),
                    slot_size(c1),
                    slot_addr(m2, c2, k2),
                    slot_size(c2),
                ) by {
                    if (c1 != i || k1 != n) && (c2 != i || k2 != n) {
                        assert(is_slot(m, c1, k1));
                        assert(is_slot(m, c2, k2));
                    } else if c1 != i || k1 != n {
                        assert(is_slot(m, c1, k1));
                        assert(apart(p as int, extent(layout), slot_addr(m, c1, k1), slot_size(c1)));
                    } else {
                        assert(is_slot(m, c2, k2));
                        assert(apart(p as int, extent(layout), slot_addr(m, c2, k2), slot_size(c2)));
                    }
                }
            }
            assert(live_below(m2, live2)) by {
                assert forall|j: int| 0 <= j < live2.len() implies #[trigger] live2[j].0 + extent(
                    live2[j].1,
                ) <= m2.pages.watermark && (live2[j].0 as int) % extent_align(live2[j].1) == 0 by {
                    let jj = if j < k { j } else { j + 1 };
                    assert(live2[j] == live[jj]);
                }
            }
            assert(live_apart_from_slots(m2, live2)) by {
                assert forall|j: int, c: int, q: int|
                    0 <= j < live2.len() && #[trigger] is_slot(m2, c, q) implies apart(
                    #[trigger] live2[j].0 as int,
                    extent(live2[j].1),
                    slot_addr(m2, c, q),
                    slot_size(c),
                ) by {
                    let jj = if j < k { j } else { j + 1 };
                    assert(live2[j] == live[jj]);
                    if c != i || q != n {
                        assert(is_slot(m, c, q));
                        assert(apart(live[jj].0 as int, extent(live[jj].1), slot_addr(m, c, q), slot_size(c)));
                    } else {
                        assert(apart(live[jj].0 as int, extent(live[jj].1), live[k].0 as int, extent(live[k].1)));
                    }
                }
            }
            assert(live_apart(live2)) by {
                assert forall|j1: int, j2: int|
                    0 <= j1 < live2.len() && 0 <= j2 < live2.len() && j1 != j2 implies apart(
                    #[trigger] live2[j1].0 as int,
                    extent(live2[j1].1),
                    #[trigger] live2[j2].0 as int,
                    extent(live2[j2].1),
                ) by {
                    let a = if j1 < k { j1 } else { j1 + 1 };
                    let b = if j2 < k { j2 } else { j2 + 1 };
                    assert(live2[j1] == live[a]);
                    assert(live2[j2] == live[b]);
                    assert(apart(live[a].0 as int, extent(live[a].1), live[b].0 as int, extent(live[b].1)));
                }
            }
        },
        None => {
            lemma_give_back_pages(m, live, k);
        },
    }
}

/// Page `j` of a freed block of whole pages at `p` lands in the free-page
/// slot just after the pages that were free before, page aligned and inside
/// the block.
proof fn lemma_pushed_page(m: BlockModel, p: usize, layout: Layout, j: int)
    requires
        (p as int) % 4096 == 0,
        p + page_bytes(layout.size as int) <= m.pages.watermark,
        0 <= j < page_count(layout.size as int),
    ensures
        ({
            let m2 = m.after_dealloc(p, layout);
            let np = m.pages.free.len() as int;
            &&& class_of(layout) is None ==> is_slot(m2, BLOCK_CLASSES as int, np + j)
                && slot_addr(m2, BLOCK_CLASSES as int, np + j) == p + j * PAGE_SIZE
            &&& (p + j * PAGE_SIZE) % 4096 == 0
            &&& p <= p + j * PAGE_SIZE
            &&& p + j * PAGE_SIZE + PAGE_SIZE <= p + page_bytes(layout.size as int)
        }),
{
    let m2 = m.after_dealloc(p, layout);
    let np = m.pages.free.len() as int;
    let cnt = page_count(layout.size as int);
    assert(j * PAGE_SIZE + PAGE_SIZE <= cnt * PAGE_SIZE) by (nonlinear_arith)
        requires
            j < cnt,
    ;
    vstd::arithmetic::div_mod::lemma_mod_multiples_vanish(j, p as int, 4096);
    if class_of(layout) is None {
        assert(m2.pages.free == m.pages.free + PageModel::pages_of(p, layout));
        assert(m2.pages.free[np + j] == PageModel::pages_of(p, layout)[j]);
    }
}

/// Freeing block `k`, a block of whole pages, pushes each of its pages onto
/// the free pages and keeps the invariant.
proof fn lemma_give_back_pages(m: BlockModel, live: Seq<(usize, Layout)>, k: int)
    requires
        heap_inv(m, live),
        0 <= k < live.len(),
        class_of(live[k].1) is None,
    ensures
        m.can_dealloc(live[k].0, live[k].1),
        heap_inv(m.after_dealloc(live[k].0, live[k].1), live.remove(k)),
{
    let p = live[k].0;
    let layout = live[k].1;
    let m2 = m.after_dealloc(p, layout);
    let live2 = live.remove(k);
    let np = m.pages.free.len() as int;
    let cnt = page_count(layout.size as int);
    let pc = BLOCK_CLASSES as int;
    lemma_size_within_extent(layout);
    assert(extent(layout) == PAGE_SIZE * cnt);
    assert(p + PAGE_SIZE * cnt <= m.pages.watermark);
    assert((p as int) % 4096 == 0);
    assert(cnt >= 0);
    assert(m2.pages.free == m.pages.free + PageModel::pages_of(p, layout));
    assert forall|j: int| 0 <= j < live2.len() implies #[trigger] live2[j] == live[if j < k {
        j
    } else {
        j + 1
    }] by {}
    assert forall|c: int, q: int| #[trigger] is_slot(m2, c, q) implies (is_slot(m, c, q)
        && slot_addr(m2, c, q) == slot_addr(m, c, q)) || (c == pc && np <= q < np + cnt) by {
        if c == pc && q < np {
            assert(m2.pages.free[q] == m.pages.free[q]);
        }
    }
    assert(slots_below(m2)) by {
        assert forall|c: int, q: int| #[trigger] is_slot(m2, c, q) implies slot_addr(m2, c, q)
            + slot_size(c) <= m2.pages.watermark && slot_addr(m2, c, q) % slot_size(c) == 0 by {
            if c == pc && q >= np {
                let j = q - np;
                lemma_pushed_page(m, p, layout, j);
            } else {
                assert(is_slot(m, c, q));
            }
        }
    }
    assert(slots_apart(m2)) by {
        assert forall|c1: int, k1: int, c2: int, k2: int|
            #[trigger] is_slot(m2, c1, k1) && #[trigger] is_slot(m2, c2, k2) && (c1 != c2 || k1
                != k2) implies apart(
            slot_addr(m2, c1, k1),
            slot_size(c1),
            slot_addr(m2, c2, k2),
            slot_size(c2),
        ) by {
            let new1 = c1 == pc && k1 >= np;
            let new2 = c2 == pc && k2 >= np;
            if !new1 && !new2 {
                assert(is_slot(m, c1, k1));
                assert(is_slot(m, c2, k2));
            } else if new1 && new2 {
                let j1 = k1 - np;
                let j2 = k2 - np;
                lemma_pushed_page(m, p, layout, j1);
                lemma_pushed_page(m, p, layout, j2);
                assert(j1 * PAGE_SIZE + PAGE_SIZE <= j2 * PAGE_SIZE || j2 * PAGE_SIZE + PAGE_SIZE
                    <= j1 * PAGE_SIZE) by (nonlinear_arith)
                    requires
                        j1 != j2,
                ;
            } else if new1 {
                let j1 = k1 - np;
                lemma_pushed_page(m, p, layout, j1);
                assert(is_slot(m, c2, k2));
                assert(apart(p as int, extent(layout), slot_addr(m, c2, k2), slot_size(c2)));
                lemma_apart_within(p as int, extent(layout), p + j1 * PAGE_SIZE, PAGE_SIZE as int, slot_addr(m, c2, k2), slot_size(c2));
            } else {
                let j2 = k2 - np;
                lemma_pushed_page(m, p, layout, j2);
                assert(is_slot(m, c1, k1));
                assert(apart(p as int, extent(layout), slot_addr(m, c1, k1), slot_size(c1)));
                lemma_apart_within(p as int, extent(layout), p + j2 * PAGE_SIZE, PAGE_SIZE as int, slot_addr(m, c1, k1), slot_size(c1));
            }
        }
    }
    assert(live_below(m2, live2)) by {
        assert forall|j: int| 0 <= j < live2.len() implies #[trigger] live2[j].0 + extent(
            live2[j].1,
        ) <= m2.pages.watermark && (live2[j].0 as int) % extent_align(live2[j].1) == 0 by {
            let jj = if j < k { j } else { j + 1 };
            assert(live2[j] == live[jj]);
        }
    }
    assert(live_apart_from_slots(m2, live2)) by {
        assert forall|j: int, c: int, q: int|
            0 <= j < live2.len() && #[trigger] is_slot(m2, c, q) implies apart(
            #[trigger] live2[j].0 as int,
            extent(live2[j].1),
            slot_addr(m2, c, q),
            slot_size(c),
        ) by {
            let jj = if j < k { j } else { j + 1 };
            assert(live2[j] == live[jj]);
            if c == pc && q >= np {
                let jp = q - np;
                lemma_pushed_page(m, p, layout, jp);
                assert(apart(live[k].0 as int, extent(live[k].1), live[jj].0 as int, extent(live[jj].1)));
                lemma_apart_within(p as int, extent(layout), p + jp * PAGE_SIZE, PAGE_SIZE as int, live[jj].0 as int, extent(live[jj].1));
            } else {
                assert(is_slot(m, c, q));
                assert(apart(live[jj].0 as int, extent(live[jj].1), slot_addr(m, c, q), slot_size(c)));
            }
        }
    }
    assert(live_apart(live2)) by {
        assert forall|j1: int, j2: int|
            0 <= j1 < live2.len() && 0 <= j2 < live2.len() && j1 != j2 implies apart(
            #[trigger] live2[j1].0 as int,
            extent(live2[j1].1),
            #[trigger] live2[j2].0 as int,
            extent(live2[j2].1),
        ) by {
            let a = if j1 < k { j1 } else { j1 + 1 };
            let b = if j2 < k { j2 } else { j2 + 1 };
            assert(live2[j1] == live[a]);
            assert(live2[j2] == live[b]);
            assert(apart(live[a].0 as int, extent(live[a].1), live[b].0 as int, extent(live[b].1)));
        }
    }
}

/// A fresh allocator, with every free list empty and its watermark at a
/// page-aligned heap start, meets the invariant with no block in use.
pub proof fn lemma_heap_inv_start(m: BlockModel)
    requires
        m.wf(),
        forall|i: int| 0 <= i < BLOCK_CLASSES ==> m.lists[i] == Seq::<usize>::empty(),
        m.pages.free == Seq::<usize>::empty(),
        (m.pages.watermark as int) % (PAGE_SIZE as int) == 0,
    ensures
        heap_inv(m, Seq::empty()),
{
    assert forall|c: int, k: int| !is_slot(m, c, k) by {
        if 0 <= c < BLOCK_CLASSES {
            assert(m.lists[c] == Seq::<usize>::empty());
        }
    }
}

/// An x86_64 virtual address is canonical when bits 48 to 64 all copy bit 47.
pub open spec fn is_canonical(addr: u64) -> bool {
    addr < 0x0000_8000_0000_0000 || addr >= 0xFFFF_8000_0000_0000
}

/// Start of the 4 KiB page that holds `addr`.
pub open spec fn page_start(addr: u64) -> u64 {
    (addr - addr % (PAGE_SIZE as u64)) as u64
}

/// A page start is page aligned and at most one page below the address.
proof fn lemma_page_start(addr: u64)
    ensures
        page_start(addr) % (PAGE_SIZE as u64) == 0,
        page_start(addr) <= addr < page_start(addr) + PAGE_SIZE,
{
    let q = addr as int / PAGE_SIZE as int;
    vstd::arithmetic::div_mod::lemma_fundamental_div_mod(addr as int, PAGE_SIZE as int);
    vstd::arithmetic::div_mod::lemma_mod_multiples_basic(q, PAGE_SIZE as int);
    assert(page_start(addr) == q * PAGE_SIZE);
}

/// `x86_64::VirtAddr::new`, read back with `as_u64`: keeps a canonical
/// address unchanged (it panics on any other, which `requires` rules out).
#[verifier::external_body]
fn virt_addr_new(addr: u64) -> (r: u64)
    requires
        is_canonical(addr),
    ensures
        r == addr,
{
    x86_64::VirtAddr::new(addr).as_u64()
}

/// `VirtAddr + u64` on a canonical address: plain addition; it panics on
/// overflow or a non-canonical sum, which `requires` rules out.
#[verifier::external_body]
fn virt_addr_add(addr: u64, rhs: u64) -> (r: u64)
    requires
        is_canonical(addr),
        addr + rhs <= u64::MAX,
        is_canonical((addr + rhs) as u64),
    ensures
        r == addr + rhs,
{
    (x86_64::VirtAddr::new(addr) + rhs).as_u64()
}

/// `VirtAddr - u64` on a canonical address: plain subtraction; it panics on
/// underflow or a non-canonical difference, which `requires` rules out.
#[verifier::external_body]
fn virt_addr_sub(addr: u64, rhs: u64) -> (r: u64)
    requires
        is_canonical(addr),
        addr >= rhs,
        is_canonical((addr - rhs) as u64),
    ensures
        r == addr - rhs,
{
    (x86_64::VirtAddr::new(addr) - rhs).as_u64()
}

/// `Page::<Size4KiB>::containing_address`, read back with `start_address`:
/// the address with its low 12 bits cleared.
#[verifier::external_body]
fn page_containing(addr: u64) -> (r: u64)
    requires
        is_canonical(addr),
    ensures
        r == page_start(addr),
{
    let page = x86_64::structures::paging::Page::<x86_64::structures::paging::Size4KiB>::containing_address(
        x86_64::VirtAddr::new(addr),
    );
    page.start_address().as_u64()
}

/// The start addresses of the 4 KiB pages from `first` to `last`, both
/// included, lowest first.
pub fn pages_between(first: u64, last: u64) -> (r: Vec<u64>)
    requires
        first % (PAGE_SIZE as u64) == 0,
        last % (PAGE_SIZE as u64) == 0,
        first <= last,
    ensures
        r@ == Seq::new(
            ((last - first) / (PAGE_SIZE as int) + 1) as nat,
            |i: int| (first + i * PAGE_SIZE) as u64,
        ),
{
    let count: u64 = (last - first) / (PAGE_SIZE as u64) + 1;
    let ghost target = Seq::new(count as nat, |i: int| (first + i * PAGE_SIZE) as u64);
    let mut pages: Vec<u64> = Vec::new();
    let mut i: u64 = 0;
    while i < count
        invariant
            i <= count,
            count == (last - first) / (PAGE_SIZE as int) + 1,
            first <= last,
            target == Seq::new(count as nat, |i: int| (first + i * PAGE_SIZE) as u64),
            pages@ == target.take(i as int),
        decreases count - i,
    {
        assert(first + i * PAGE_SIZE <= last);
        pages.push(first + i * (PAGE_SIZE as u64));
        i = i + 1;
        assert(pages@ == target.take(i as int));
    }
    assert(target.take(count as int) == target);
    pages
}

/// The start addresses of the 4 KiB pages that hold any byte from `start`
/// to `start + size - 1`, lowest first.
pub fn pages_spanning(start: u64, size: u64) -> (r: Vec<u64>)
    requires
        size > 0,
        start + size <= u64::MAX,
        is_canonical(start),
        is_canonical((start + size) as u64),
        is_canonical((start + size - 1) as u64),
    ensures
        r@ == Seq::new(
            ((page_start((start + size - 1) as u64) - page_start(start)) / (PAGE_SIZE as int)
                + 1) as nat,
            |i: int| (page_start(start) + i * PAGE_SIZE) as u64,
        ),
{
    let first = virt_addr_new(start);
    let last = virt_addr_sub(virt_addr_add(first, size), 1);
    let first_page = page_containing(first);
    let last_page = page_containing(last);
    proof {
        lemma_page_start(first);
        lemma_page_start(last);
    }
    pages_between(first_page, last_page)
}

/// The pages that back the kernel heap: those holding any byte from
/// `HEAP_START` to `HEAP_START + HEAP_SIZE - 1`, lowest first.
pub fn heap_pages() -> (r: Vec<u64>)
    ensures
        r@.len() == HEAP_SIZE / PAGE_SIZE,
        forall|i: int| 0 <= i < r@.len() ==> r@[i] == HEAP_START + i * PAGE_SIZE,
{
    let pages = pages_spanning(HEAP_START, HEAP_SIZE as u64);
    assert(HEAP_START % 4096 == 0 && (HEAP_START + 131071) % 4096 == 4095) by (bit_vector)
        requires
            HEAP_START == 0x4242_0000_0000u64,
    ;
    pages
}

} // verus!
