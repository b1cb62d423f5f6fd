//! Page ranges for locking and unlocking memory.
//!
//! The operating system locks whole pages, so a range is widened to the
//! pages it overlaps before it is locked or unlocked: its start rounded down
//! and its end rounded up to page boundaries.

use vstd::prelude::*;
use crate::page::{
    AllocContext, align_down, align_up, get_page_aligned_addrs, lemma_align_down, lemma_align_up,
};

verus! {

/// The pages that locking the `len` bytes at `addr` acts on, as a start and
/// a length; `None` where the range's end, rounded up, passes the top of the
/// address space.
pub fn lock_range(ctx: &AllocContext, addr: usize, len: usize) -> (r: Option<(usize, usize)>)
    requires
        ctx.wf(),
    ensures
        r is Some <==> addr + len + ctx.page_size - 1 <= usize::MAX,
        r matches Some((start, n)) ==> {
            &&& start == align_down(addr as int, ctx.page_size as int)
            &&& start + n == align_up(addr + len, ctx.page_size as int)
        },
{
    if addr > usize::MAX - len || addr + len > usize::MAX - ctx.page_mask {
        return None;
    }
    let (start_addr, end_addr) = get_page_aligned_addrs(addr, len, ctx.page_size);
    proof {
        lemma_align_down(addr as int, ctx.page_size as int);
        lemma_align_up(addr + len, ctx.page_size as int);
    }
    Some((start_addr, end_addr - start_addr))
}

/// Locking never reaches an unrelated page: the widened range starts and
/// ends on page boundaries, covers the requested bytes, and its first and
/// last pages each hold at least one requested byte.
pub proof fn lemma_lock_range_tight(addr: int, len: int, ps: int, start: int, end: int)
    requires
        0 <= addr,
        0 < len,
        0 < ps,
        start == align_down(addr, ps),
        end == align_up(addr + len, ps),
    ensures
        start % ps == 0,
        end % ps == 0,
        start <= addr,
        addr + len <= end,
        addr < start + ps,
        end - ps < addr + len,
{
    lemma_align_down(addr, ps);
    lemma_align_up(addr + len, ps);
}

} // verus!
