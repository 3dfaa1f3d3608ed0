//! The bookkeeping of one memory region whose length follows the heartbeat.
//!
//! The controller owns no memory. It records how long the region is and works
//! out, for every change of length, which pages the change adds. Whoever holds
//! the mapping resizes it and writes one byte at each offset that the plan hands
//! out, so that the added pages become resident.

use vstd::prelude::*;
use vstd::arithmetic::div_mod::lemma_fundamental_div_mod;
use vstd::arithmetic::div_mod::lemma_mod_bound;

verus! {

/// The length that a request stands for: a region never shrinks to nothing.
pub open spec fn clamp_length(requested: nat) -> nat {
    if requested == 0 {
        1
    } else {
        requested
    }
}

/// Number of pages that hold at least one byte of a region of this length.
pub open spec fn pages_begun(length: nat, page_size: nat) -> nat {
    if length % page_size == 0 {
        length / page_size
    } else {
        length / page_size + 1
    }
}

/// Number of pages that lie wholly within a region of this length.
pub open spec fn pages_filled(length: nat, page_size: nat) -> nat {
    length / page_size
}

/// The page lies wholly within a region of `new_length` bytes and held no byte
/// of it while the region was `old_length` bytes long.
pub open spec fn newly_added(page_size: nat, old_length: nat, new_length: nat, page: nat) -> bool {
    old_length <= page * page_size && (page + 1) * page_size <= new_length
}

/// What a controller knows: the size of a page and the length of its region.
pub struct ControllerView {
    pub page_size: nat,
    pub region_length: nat,
}

/// What is left to do of one change of length.
pub struct ResizeView {
    /// Length of the region before the change.
    pub old_length: nat,
    /// Length of the region after the change.
    pub new_length: nat,
    pub page_size: nat,
    /// The next page to write to.
    pub next_page: nat,
    /// The page at which writing stops; it is not written to.
    pub end_page: nat,
}

impl ResizeView {
    /// The page is still to be written to.
    pub open spec fn touches(self, page: nat) -> bool {
        self.next_page <= page < self.end_page
    }

    /// The plan with its next page done.
    pub open spec fn step(self) -> ResizeView {
        ResizeView { next_page: self.next_page + 1, ..self }
    }
}

impl ControllerView {
    /// The plan for changing the region to the requested length.
    pub open spec fn plan(self, requested: nat) -> ResizeView {
        let new_length = clamp_length(requested);
        let begun = pages_begun(self.region_length, self.page_size);
        let end_page = pages_filled(new_length, self.page_size);
        ResizeView {
            old_length: self.region_length,
            new_length,
            page_size: self.page_size,
            next_page: if begun < end_page {
                begun
            } else {
                end_page
            },
            end_page,
        }
    }

    /// The controller after the region was changed to the requested length.
    pub open spec fn resized(self, requested: nat) -> ControllerView {
        ControllerView { page_size: self.page_size, region_length: clamp_length(requested) }
    }

    /// A page has a size and the region is not empty.
    pub open spec fn wf(self) -> bool {
        self.page_size > 0 && self.region_length >= 1
    }

    /// How often the page is written to while the region is taken through the
    /// requested lengths, one change after the other.
    pub open spec fn touch_count(self, requests: Seq<nat>, page: nat) -> nat
        decreases requests.len(),
    {
        if requests.len() == 0 {
            0
        } else {
            let here: nat = if self.plan(requests[0]).touches(page) {
                1
            } else {
                0
            };
            here + self.resized(requests[0]).touch_count(requests.drop_first(), page)
        }
    }
}

/// Every length is smaller than those before it, the first smaller than `start`.
pub open spec fn strictly_decreasing(start: nat, lengths: Seq<nat>) -> bool {
    &&& lengths.len() > 0 ==> lengths[0] < start
    &&& forall|i: int, j: int| 0 <= i < j < lengths.len() ==> lengths[j] < lengths[i]
}

/// Every length is larger than those before it, the first larger than `start`.
pub open spec fn strictly_increasing(start: nat, lengths: Seq<nat>) -> bool {
    &&& lengths.len() > 0 ==> lengths[0] > start
    &&& forall|i: int, j: int| 0 <= i < j < lengths.len() ==> lengths[j] > lengths[i]
}

/// A region of this length ends inside the page: the page holds a byte of the
/// region and does not lie wholly within it.
pub open spec fn ends_inside(page_size: nat, length: nat, page: nat) -> bool {
    page * page_size < length < (page + 1) * page_size
}

/// One of the lengths before the last ends inside the page.
pub open spec fn straddled(page_size: nat, lengths: Seq<nat>, page: nat) -> bool {
    exists|i: int| 0 <= i < lengths.len() - 1 && ends_inside(page_size, #[trigger] lengths[i], page)
}

/// The pages that one change of length adds, handed out one offset at a time.
pub struct Resize {
    old_length: usize,
    new_length: usize,
    page_size: usize,
    next_page: usize,
    end_page: usize,
}

impl View for Resize {
    type V = ResizeView;

    closed spec fn view(&self) -> ResizeView {
        ResizeView {
            old_length: self.old_length as nat,
            new_length: self.new_length as nat,
            page_size: self.page_size as nat,
            next_page: self.next_page as nat,
            end_page: self.end_page as nat,
        }
    }
}

impl Resize {
    #[verifier::type_invariant]
    spec fn within_region(self) -> bool {
        &&& self.page_size > 0
        &&& self.next_page <= self.end_page
        &&& self.end_page * self.page_size <= self.new_length
    }

    /// Length of the region before the change.
    pub fn old_length(&self) -> (length: usize)
        ensures
            length == self@.old_length,
    {
        self.old_length
    }

    /// Length that the region is to have.
    pub fn new_length(&self) -> (length: usize)
        ensures
            length == self@.new_length,
    {
        self.new_length
    }

    /// Size of a page.
    pub fn page_size(&self) -> (size: usize)
        ensures
            size == self@.page_size,
            size > 0,
    {
        proof {
            use_type_invariant(self);
        }
        self.page_size
    }

    /// The next page that is to be written to, if any is left.
    pub fn next_page(&self) -> (page: usize)
        ensures
            page == self@.next_page,
            page <= self@.end_page,
    {
        proof {
            use_type_invariant(self);
        }
        self.next_page
    }

    /// The first page that is not written to.
    pub fn end_page(&self) -> (page: usize)
        ensures
            page == self@.end_page,
    {
        self.end_page
    }

    /// Hands out the offset of the next page to write to and counts the page
    /// as done, or `None` when no page is left. The page at that offset lies
    /// wholly within the new length of the region.
    pub fn next_offset(&mut self) -> (offset: Option<usize>)
        ensures
            offset is Some <==> old(self)@.next_page < old(self)@.end_page,
            offset matches Some(o) ==> {
                &&& o == old(self)@.next_page * old(self)@.page_size
                &&& o + old(self)@.page_size <= old(self)@.new_length
                &&& final(self)@ == old(self)@.step()
            },
            offset is None ==> final(self)@ == old(self)@,
    {
        proof {
            use_type_invariant(&*self);
        }
        if self.next_page < self.end_page {
            proof {
                lemma_page_within(
                    self.next_page as nat,
                    self.end_page as nat,
                    self.page_size as nat,
                );
            }
            let offset = self.next_page * self.page_size;
            self.next_page = self.next_page + 1;
            Some(offset)
        } else {
            None
        }
    }
}

/// Keeps the length of one region and plans every change of it.
pub struct Controller {
    page_size: usize,
    region_length: usize,
}

impl View for Controller {
    type V = ControllerView;

    closed spec fn view(&self) -> ControllerView {
        ControllerView {
            page_size: self.page_size as nat,
            region_length: self.region_length as nat,
        }
    }
}

impl Controller {
    #[verifier::type_invariant]
    spec fn never_empty(self) -> bool {
        &&& self.page_size > 0
        &&& self.region_length >= 1
    }

    /// The controller of a region that was just mapped with a length of one
    /// byte and had that byte written, so that its first page is resident.
    pub fn new(page_size: usize) -> (c: Controller)
        requires
            page_size > 0,
        ensures
            c@ == (ControllerView { page_size: page_size as nat, region_length: 1 }),
    {
        Controller { page_size, region_length: 1 }
    }

    /// Size of a page.
    pub fn page_size(&self) -> (size: usize)
        ensures
            size == self@.page_size,
            size > 0,
    {
        proof {
            use_type_invariant(self);
        }
        self.page_size
    }

    /// Current length of the region.
    pub fn region_length(&self) -> (length: usize)
        ensures
            length == self@.region_length,
            length >= 1,
    {
        proof {
            use_type_invariant(self);
        }
        self.region_length
    }

    /// Records that the region gets the length `new_length`, or 1 where 0 is
    /// asked for, and returns the plan of that change. The plan holds exactly
    /// the pages that the change adds: those that lie wholly within the new
    /// length and held no byte of the old one.
    pub fn adjust(&mut self, new_length: usize) -> (plan: Resize)
        ensures
            final(self)@ == old(self)@.resized(new_length as nat),
            plan@ == old(self)@.plan(new_length as nat),
            forall|page: nat|
                plan@.touches(page) <==> newly_added(
                    plan@.page_size,
                    plan@.old_length,
                    plan@.new_length,
                    page,
                ),
    {
        proof {
            use_type_invariant(&*self);
        }
        let new_length = if new_length == 0 {
            1
        } else {
            new_length
        };
        let old_length = self.region_length;
        let page_size = self.page_size;
        proof {
            lemma_division(old_length as nat, page_size as nat);
            lemma_division(new_length as nat, page_size as nat);
        }
        let begun = if old_length % page_size == 0 {
            old_length / page_size
        } else {
            old_length / page_size + 1
        };
        let end_page = new_length / page_size;
        let next_page = if begun < end_page {
            begun
        } else {
            end_page
        };
        proof {
            let before = self@;
            assert forall|page: nat|
                before.plan(new_length as nat).touches(page) <==> newly_added(
                    page_size as nat,
                    old_length as nat,
                    new_length as nat,
                    page,
                ) by {
                lemma_plan_touches_newly_added(before, new_length as nat, page);
            }
        }
        self.region_length = new_length;
        Resize { old_length, new_length, page_size, next_page, end_page }
    }
}

/// What division by the page size leaves: the quotient times the page size,
/// and less than one page on top.
pub proof fn lemma_division(length: nat, page_size: nat)
    requires
        page_size > 0,
    ensures
        length == (length / page_size) * page_size + length % page_size,
        length % page_size < page_size,
        (length / page_size) * page_size <= length,
        length % page_size != 0 ==> length / page_size < length,
{
    lemma_fundamental_div_mod(length as int, page_size as int);
    lemma_mod_bound(length as int, page_size as int);
    let q = length / page_size;
    assert(q * page_size == page_size * q) by (nonlinear_arith);
    if length % page_size != 0 {
        assert(q < length) by (nonlinear_arith)
            requires
                length == q * page_size + length % page_size,
                0 < length % page_size < page_size,
        ;
    }
}

/// A page before the end of a run of whole pages lies wholly within the run.
pub proof fn lemma_page_within(page: nat, end_page: nat, page_size: nat)
    requires
        page < end_page,
    ensures
        page * page_size + page_size <= end_page * page_size,
{
    assert(page * page_size + page_size <= end_page * page_size) by (nonlinear_arith)
        requires
            page + 1 <= end_page,
    ;
}

/// Rounding down counts the pages that fit: a page lies wholly within a region
/// exactly if its index is below the number of pages filled.
pub proof fn lemma_pages_filled(length: nat, page_size: nat, page: nat)
    requires
        page_size > 0,
    ensures
        page < pages_filled(length, page_size) <==> (page + 1) * page_size <= length,
{
    lemma_division(length, page_size);
    let q = length / page_size;
    let r = length % page_size;
    assert(page < q <==> (page + 1) * page_size <= length) by (nonlinear_arith)
        requires
            length == q * page_size + r,
            r < page_size,
    ;
}

/// Rounding up counts the pages in use: a page holds no byte of a region
/// exactly if its index is at or above the number of pages begun.
pub proof fn lemma_pages_begun(length: nat, page_size: nat, page: nat)
    requires
        page_size > 0,
    ensures
        pages_begun(length, page_size) <= page <==> length <= page * page_size,
{
    lemma_division(length, page_size);
    let q = length / page_size;
    let r = length % page_size;
    if r == 0 {
        assert(q <= page <==> length <= page * page_size) by (nonlinear_arith)
            requires
                length == q * page_size,
                page_size > 0,
        ;
    } else {
        assert(q + 1 <= page <==> length <= page * page_size) by (nonlinear_arith)
            requires
                length == q * page_size + r,
                0 < r < page_size,
        ;
    }
}

/// A plan names the pages that its change of length adds, and no others:
/// no page that reaches past the new length, no page that held a byte of the
/// old length, and every page between.
pub proof fn lemma_plan_touches_newly_added(c: ControllerView, requested: nat, page: nat)
    requires
        c.page_size > 0,
    ensures
        c.plan(requested).touches(page) <==> newly_added(
            c.page_size,
            c.region_length,
            clamp_length(requested),
            page,
        ),
{
    lemma_pages_begun(c.region_length, c.page_size, page);
    lemma_pages_filled(clamp_length(requested), c.page_size, page);
}

/// To ask for a length of 0 is to ask for a length of 1.
pub proof fn lemma_zero_means_one(c: ControllerView)
    ensures
        c.plan(0) == c.plan(1),
        c.resized(0) == c.resized(1),
{
}

/// A change that does not make the region longer adds no page.
pub proof fn lemma_shrink_touches_nothing(c: ControllerView, requested: nat, page: nat)
    requires
        c.page_size > 0,
        clamp_length(requested) <= c.region_length,
    ensures
        !c.plan(requested).touches(page),
{
    lemma_plan_touches_newly_added(c, requested, page);
    assert(page * c.page_size < (page + 1) * c.page_size) by (nonlinear_arith)
        requires
            c.page_size > 0,
    ;
}

/// While the region is taken through lengths of which each is smaller than the
/// one before, no page is written to.
pub proof fn lemma_shrinking_touches_nothing(c: ControllerView, requests: Seq<nat>, page: nat)
    requires
        c.wf(),
        strictly_decreasing(c.region_length, requests),
    ensures
        c.touch_count(requests, page) == 0,
    decreases requests.len(),
{
    if requests.len() > 0 {
        let rest = requests.drop_first();
        let next = c.resized(requests[0]);
        lemma_shrink_touches_nothing(c, requests[0], page);
        assert(strictly_decreasing(next.region_length, rest)) by {
            if rest.len() > 0 {
                assert(rest[0] == requests[1]);
            }
            assert forall|i: int, j: int| 0 <= i < j < rest.len() implies rest[j] < rest[i] by {
                assert(rest[i] == requests[i + 1]);
                assert(rest[j] == requests[j + 1]);
            }
        }
        lemma_shrinking_touches_nothing(next, rest, page);
    }
}

/// In a run of growing lengths every length is larger than the start.
pub proof fn lemma_increasing_exceeds_start(start: nat, lengths: Seq<nat>, i: int)
    requires
        strictly_increasing(start, lengths),
        0 <= i < lengths.len(),
    ensures
        lengths[i] > start,
{
    if i > 0 {
        assert(lengths[i] > lengths[0]);
    }
}

/// While the region is taken through lengths of which each is larger than the
/// one before, a page is written to once if it is added between the first
/// length and the last and none of the lengths between ends inside it, and not
/// at all otherwise. So no page is written to twice.
pub proof fn lemma_growing_touch_count(c: ControllerView, requests: Seq<nat>, page: nat)
    requires
        c.wf(),
        requests.len() > 0,
        strictly_increasing(c.region_length, requests),
    ensures
        c.touch_count(requests, page) == (if newly_added(
            c.page_size,
            c.region_length,
            requests.last(),
            page,
        ) && !straddled(c.page_size, requests, page) {
            1nat
        } else {
            0nat
        }),
    decreases requests.len(),
{
    let size = c.page_size;
    let first = requests[0];
    let rest = requests.drop_first();
    let next = c.resized(first);
    lemma_plan_touches_newly_added(c, first, page);
    assert(page * size < (page + 1) * size) by (nonlinear_arith)
        requires
            size > 0,
    ;
    if rest.len() == 0 {
        assert(next.touch_count(rest, page) == 0);
    } else {
        assert(rest[0] == requests[1]);
        assert(strictly_increasing(next.region_length, rest)) by {
            assert forall|i: int, j: int| 0 <= i < j < rest.len() implies rest[j] > rest[i] by {
                assert(rest[i] == requests[i + 1]);
                assert(rest[j] == requests[j + 1]);
            }
        }
        lemma_growing_touch_count(next, rest, page);
        assert(rest.last() == requests.last());
        lemma_increasing_exceeds_start(first, rest, rest.len() - 1);
        // A length between the first and the last is a length of `rest`, or the first.
        if straddled(size, rest, page) {
            let i = choose|i: int|
                0 <= i < rest.len() - 1 && ends_inside(size, #[trigger] rest[i], page);
            assert(rest[i] == requests[i + 1]);
            assert(ends_inside(size, requests[i + 1], page));
            assert(straddled(size, requests, page));
        }
        if ends_inside(size, first, page) {
            assert(ends_inside(size, requests[0], page));
            assert(straddled(size, requests, page));
        }
        if straddled(size, requests, page) {
            let i = choose|i: int|
                0 <= i < requests.len() - 1 && ends_inside(size, #[trigger] requests[i], page);
            if i > 0 {
                assert(rest[i - 1] == requests[i]);
                assert(ends_inside(size, rest[i - 1], page));
                assert(straddled(size, rest, page));
                lemma_increasing_exceeds_start(first, rest, i - 1);
            }
        }
    }
}

/// While the region is taken through growing lengths of which none but the
/// last ends inside the page, the page is written to exactly once if the
/// growth from the first length to the last adds it, and not at all if not.
pub proof fn lemma_growing_touches_added_page_once(
    c: ControllerView,
    requests: Seq<nat>,
    page: nat,
)
    requires
        c.wf(),
        requests.len() > 0,
        strictly_increasing(c.region_length, requests),
        !straddled(c.page_size, requests, page),
    ensures
        newly_added(c.page_size, c.region_length, requests.last(), page) ==> c.touch_count(
            requests,
            page,
        ) == 1,
        !newly_added(c.page_size, c.region_length, requests.last(), page) ==> c.touch_count(
            requests,
            page,
        ) == 0,
{
    lemma_growing_touch_count(c, requests, page);
}

} // verus!
