//! Layout of a guarded allocation, and its recovery from the user pointer.
//!
//! A block of `3 * page_size + unprotected_size` bytes, page aligned:
//!
//! ```text
//! base                 header page (read-only once set up)
//! base + ps            front guard page (no access)
//! base + 2 ps          lockable region of unprotected_size bytes:
//!                        padding, front canary, payload, padding,
//!                        back canary
//! base + 2 ps + us     back guard page (no access)
//! ```
//!
//! The back canary ends exactly at the top of the lockable region. The
//! payload starts at a multiple of the requested alignment, as close below
//! the back canary as that allows, and the front canary sits right before
//! it. So the front canary lies less than a page above the region's start,
//! and that start is recovered by rounding the front canary's address down
//! to a page boundary.

use vstd::prelude::*;
use crate::page::{
    AllocContext, CANARY_SIZE, align_down, align_up, lemma_align_down, lemma_align_down_within,
    lemma_align_up, lemma_mask, lemma_multiple_of_divisor, lemma_sub_multiples,
    page_size_supported, round_up,
};

verus! {

/// A payload alignment the allocator can honour with pages of `ps` bytes:
/// positive, and dividing the page size.
pub open spec fn alignment_ok(ps: int, align: int) -> bool {
    0 < align && ps % align == 0
}

/// Room reserved for the payload: its size rounded up to the alignment.
pub open spec fn payload_span(size: int, align: int) -> int {
    align_up(size, align)
}

/// Room between the payload's reserved span and the region's top: the back
/// canary, rounded up to the alignment.
pub open spec fn tail_span(align: int) -> int {
    align_up(CANARY_SIZE as int, align)
}

/// Length of the lockable region for a payload of `size` bytes aligned to
/// `align`: front canary, payload span and tail span, rounded up to whole
/// pages.
pub open spec fn unprotected_size_for(ps: int, size: int, align: int) -> int {
    align_up(CANARY_SIZE + payload_span(size, align) + tail_span(align), ps)
}

/// Length of the whole block: header page, front guard page, lockable
/// region, back guard page.
pub open spec fn total_size_for(ps: int, size: int, align: int) -> int {
    3 * ps + unprotected_size_for(ps, size, align)
}

/// The allocator accepts a payload of `size` bytes aligned to `align`: the
/// alignment can be honoured, the size is below `usize::MAX - 4 * ps`, and
/// the whole block's length fits in a `usize`.
pub open spec fn size_accepted(ps: int, size: int, align: int) -> bool {
    &&& alignment_ok(ps, align)
    &&& size < usize::MAX - 4 * ps
    &&& total_size_for(ps, size, align) <= usize::MAX
}

/// The lockable region's start recovered from a user pointer: the front
/// canary's address rounded down to a page, if that lies past the first two
/// pages of the address space.
pub open spec fn recovered_region(ps: int, user: int) -> Option<int> {
    if user >= CANARY_SIZE && align_down(user - CANARY_SIZE, ps) > 2 * ps {
        Some(align_down(user - CANARY_SIZE, ps))
    } else {
        None
    }
}

proof fn lemma_align_within_page(ps: int, align: int)
    requires
        0 < ps,
        alignment_ok(ps, align),
    ensures
        align <= ps,
{
    if align > ps {
        vstd::arithmetic::div_mod::lemma_small_mod(ps as nat, align as nat);
    }
}

proof fn lemma_sizes(ps: int, size: int, align: int)
    requires
        CANARY_SIZE <= ps,
        0 <= size,
        0 < align,
    ensures
        size <= payload_span(size, align) < size + align,
        payload_span(size, align) % align == 0,
        CANARY_SIZE <= tail_span(align) < CANARY_SIZE + align,
        tail_span(align) % align == 0,
        unprotected_size_for(ps, size, align) % ps == 0,
        CANARY_SIZE + payload_span(size, align) + tail_span(align) <= unprotected_size_for(
            ps,
            size,
            align,
        ) < CANARY_SIZE + payload_span(size, align) + tail_span(align) + ps,
{
    lemma_align_up(size, align);
    lemma_align_up(CANARY_SIZE as int, align);
    lemma_align_up(CANARY_SIZE + payload_span(size, align) + tail_span(align), ps);
}

/// Total length of the block for a payload of `size` bytes aligned to
/// `align`, or `None` where the allocator refuses the request.
pub fn malloc_total_size(ctx: &AllocContext, size: usize, align: usize) -> (r: Option<usize>)
    requires
        ctx.wf(),
    ensures
        r is Some <==> size_accepted(ctx.page_size as int, size as int, align as int),
        r matches Some(t) ==> t == total_size_for(ctx.page_size as int, size as int, align as int),
{
    let ps: usize = ctx.page_size;
    if align == 0 || ps % align != 0 || size >= usize::MAX - ps * 4 {
        return None;
    }
    proof {
        lemma_sizes(ps as int, size as int, align as int);
        lemma_align_within_page(ps as int, align as int);
    }
    let span: usize = round_up(size, align);
    let tail: usize = round_up(CANARY_SIZE, align);
    let need: usize = CANARY_SIZE + span + tail;
    if need > usize::MAX - ps * 3 {
        return None;
    }
    let us: usize = ctx.page_round(need);
    if us > usize::MAX - ps * 3 {
        return None;
    }
    Some(ps * 3 + us)
}

/// Start of the lockable region that holds the payload at `user`; `None`
/// where the recovered address does not lie past the first two pages, which
/// no pointer handed out by the allocator can give.
pub fn unprotected_ptr_from_user_ptr(ctx: &AllocContext, user: usize) -> (r: Option<usize>)
    requires
        ctx.wf(),
    ensures
        r is Some <==> recovered_region(ctx.page_size as int, user as int) is Some,
        r matches Some(u) ==> recovered_region(ctx.page_size as int, user as int) == Some(u as int),
{
    if user < CANARY_SIZE {
        return None;
    }
    let canary_ptr: usize = user - CANARY_SIZE;
    proof {
        lemma_mask(canary_ptr, ctx.page_size);
        lemma_align_down(canary_ptr as int, ctx.page_size as int);
    }
    let unprotected: usize = canary_ptr & !ctx.page_mask;
    if unprotected <= ctx.page_size * 2 {
        return None;
    }
    Some(unprotected)
}

/// Where each part of one guarded allocation lies.
#[derive(Clone, Copy, Debug, PartialEq, Eq, Structural)]
pub struct GuardedLayout {
    pub base: usize,
    pub page_size: usize,
    pub size: usize,
    pub align: usize,
    pub unprotected_size: usize,
}

impl GuardedLayout {
    pub open spec fn wf(&self) -> bool {
        &&& page_size_supported(self.page_size)
        &&& size_accepted(self.page_size as int, self.size as int, self.align as int)
        &&& self.unprotected_size == unprotected_size_for(
            self.page_size as int,
            self.size as int,
            self.align as int,
        )
        &&& self.base > 0
        &&& self.base as int % self.page_size as int == 0
        &&& self.base + self.total_size() <= usize::MAX
    }

    pub open spec fn total_size(&self) -> int {
        total_size_for(self.page_size as int, self.size as int, self.align as int)
    }

    pub open spec fn front_guard_addr(&self) -> int {
        self.base + self.page_size
    }

    pub open spec fn unprotected_addr(&self) -> int {
        self.base + 2 * self.page_size
    }

    pub open spec fn back_guard_addr(&self) -> int {
        self.unprotected_addr() + self.unprotected_size
    }

    pub open spec fn back_canary_addr(&self) -> int {
        self.back_guard_addr() - CANARY_SIZE
    }

    pub open spec fn user_addr(&self) -> int {
        self.back_guard_addr() - tail_span(self.align as int) - payload_span(
            self.size as int,
            self.align as int,
        )
    }

    pub open spec fn front_canary_addr(&self) -> int {
        self.user_addr() - CANARY_SIZE
    }

    /// The layout of a block at `base` for a payload of `size` bytes aligned
    /// to `align`; `None` where the request is refused, or `base` is null,
    /// not page aligned, or too close to the top of the address space to
    /// hold the block.
    pub fn new(ctx: &AllocContext, size: usize, align: usize, base: usize) -> (r: Option<
        GuardedLayout,
    >)
        requires
            ctx.wf(),
        ensures
            r is Some <==> {
                &&& size_accepted(ctx.page_size as int, size as int, align as int)
                &&& base > 0
                &&& base as int % ctx.page_size as int == 0
                &&& base + total_size_for(ctx.page_size as int, size as int, align as int)
                    <= usize::MAX
            },
            r matches Some(l) ==> {
                &&& l.wf()
                &&& l.base == base
                &&& l.page_size == ctx.page_size
                &&& l.size == size
                &&& l.align == align
            },
    {
        let total: usize = match malloc_total_size(ctx, size, align) {
            Some(t) => t,
            None => return None,
        };
        proof {
            lemma_mask(base, ctx.page_size);
        }
        if base == 0 || (base & ctx.page_mask) != 0 || base > usize::MAX - total {
            return None;
        }
        let us: usize = total - ctx.page_size * 3;
        Some(GuardedLayout { base, page_size: ctx.page_size, size, align, unprotected_size: us })
    }

    pub fn total(&self) -> (r: usize)
        requires
            self.wf(),
        ensures
            r == self.total_size(),
    {
        self.page_size * 3 + self.unprotected_size
    }

    pub fn front_guard(&self) -> (r: usize)
        requires
            self.wf(),
        ensures
            r == self.front_guard_addr(),
    {
        self.base + self.page_size
    }

    pub fn unprotected(&self) -> (r: usize)
        requires
            self.wf(),
        ensures
            r == self.unprotected_addr(),
    {
        self.base + self.page_size * 2
    }

    pub fn back_guard(&self) -> (r: usize)
        requires
            self.wf(),
        ensures
            r == self.back_guard_addr(),
    {
        self.base + self.page_size * 2 + self.unprotected_size
    }

    pub fn back_canary(&self) -> (r: usize)
        requires
            self.wf(),
        ensures
            r == self.back_canary_addr(),
    {
        proof {
            lemma_sizes(self.page_size as int, self.size as int, self.align as int);
        }
        self.back_guard() - CANARY_SIZE
    }

    /// The pointer handed out: a multiple of the layout's alignment.
    pub fn user(&self) -> (r: usize)
        requires
            self.wf(),
        ensures
            r == self.user_addr(),
            r as int % self.align as int == 0,
    {
        proof {
            lemma_user_aligned(*self);
            lemma_sizes(self.page_size as int, self.size as int, self.align as int);
            lemma_align_within_page(self.page_size as int, self.align as int);
        }
        let tail: usize = round_up(CANARY_SIZE, self.align);
        let span: usize = round_up(self.size, self.align);
        self.back_guard() - tail - span
    }

    pub fn front_canary(&self) -> (r: usize)
        requires
            self.wf(),
        ensures
            r == self.front_canary_addr(),
    {
        proof {
            lemma_sizes(self.page_size as int, self.size as int, self.align as int);
        }
        self.user() - CANARY_SIZE
    }
}

/// The parts of a well-formed layout follow each other in address order
/// without overlap, the lockable region starts and ends on page boundaries,
/// and the front canary lies within the region's first page.
pub proof fn lemma_layout_order(l: GuardedLayout)
    requires
        l.wf(),
    ensures
        l.base < l.front_guard_addr() < l.unprotected_addr(),
        l.unprotected_addr() <= l.front_canary_addr() < l.unprotected_addr() + l.page_size,
        l.front_canary_addr() + CANARY_SIZE == l.user_addr(),
        l.user_addr() + l.size <= l.back_canary_addr(),
        l.back_canary_addr() + CANARY_SIZE == l.back_guard_addr(),
        l.back_guard_addr() + l.page_size == l.base + l.total_size(),
        l.unprotected_addr() % l.page_size as int == 0,
        l.back_guard_addr() % l.page_size as int == 0,
{
    let ps = l.page_size as int;
    lemma_sizes(ps, l.size as int, l.align as int);
    assert(l.unprotected_addr() % ps == 0) by {
        vstd::arithmetic::div_mod::lemma_mod_multiples_vanish(2, l.base as int, ps);
    }
    assert(l.back_guard_addr() % ps == 0) by {
        vstd::arithmetic::div_mod::lemma_fundamental_div_mod(l.unprotected_size as int, ps);
        vstd::arithmetic::div_mod::lemma_mod_multiples_vanish(
            l.unprotected_size as int / ps,
            l.unprotected_addr(),
            ps,
        );
    }
}

/// The payload of every well-formed layout starts at a multiple of its
/// alignment, so a value of a type with that alignment can live there.
pub proof fn lemma_user_aligned(l: GuardedLayout)
    requires
        l.wf(),
    ensures
        l.user_addr() % l.align as int == 0,
{
    let a = l.align as int;
    lemma_layout_order(l);
    lemma_sizes(l.page_size as int, l.size as int, a);
    assert(0 < a);
    assert(l.back_guard_addr() % a == 0) by {
        lemma_multiple_of_divisor(l.back_guard_addr(), l.page_size as int, a);
    }
    lemma_sub_multiples(l.back_guard_addr(), tail_span(a), a);
    lemma_sub_multiples(l.back_guard_addr() - tail_span(a), payload_span(l.size as int, a), a);
}

/// The user pointer of every well-formed layout leads back to its lockable
/// region: the recovery that free and reprotect rely on never fails on a
/// pointer the allocator handed out.
pub proof fn lemma_recover_user(l: GuardedLayout)
    requires
        l.wf(),
    ensures
        recovered_region(l.page_size as int, l.user_addr()) == Some(l.unprotected_addr()),
{
    lemma_layout_order(l);
    lemma_align_down_within(
        l.unprotected_addr(),
        l.front_canary_addr() - l.unprotected_addr(),
        l.page_size as int,
    );
}

} // verus!
