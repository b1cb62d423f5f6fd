//! Page arithmetic and the process-wide allocator context.

use vstd::prelude::*;
use vstd::arithmetic::div_mod::{lemma_fundamental_div_mod, lemma_mod_multiples_vanish, lemma_small_mod, lemma_mod_multiples_basic};
use vstd::arithmetic::power2::{pow2, lemma_pow2_strictly_increases, lemma_pow2_pos};
use vstd::bits::{lemma_usize_low_bits_mask_is_mod, lemma_usize_pow2_no_overflow, lemma_usize_shl_is_mul};

verus! {

/// Bytes in a canary.
pub const CANARY_SIZE: usize = 16;

/// Byte that fresh allocations are filled with, so that reads of
/// uninitialised memory never look like zeroes.
pub const GARBAGE_VALUE: u8 = 0xd0;

/// Largest page size the guard arithmetic accepts: the lengths it adds up
/// (four pages and a rounded payload) must fit in a `usize`.
pub const MAX_PAGE_SIZE: usize = usize::MAX / 8;

pub open spec fn is_pow2(p: usize) -> bool {
    exists|k: nat| k < usize::BITS && p == #[trigger] pow2(k)
}

/// Whether `p` is a power of two.
fn is_power_of_two(p: usize) -> (r: bool)
    ensures
        r == is_pow2(p),
{
    let top: usize = (usize::BITS - 1) as usize;
    let mut k: usize = 0;
    while k < top && (1usize << k) < p
        invariant
            top == usize::BITS - 1,
            k <= top,
            forall|j: nat| j < k ==> #[trigger] pow2(j) < p,
        decreases top - k,
    {
        proof {
            lemma_usize_pow2_no_overflow(k as nat);
            lemma_usize_shl_is_mul(1, k);
        }
        k = k + 1;
    }
    proof {
        lemma_usize_pow2_no_overflow(k as nat);
        lemma_usize_shl_is_mul(1, k);
    }
    let r: bool = (1usize << k) == p;
    proof {
        if !r {
            assert forall|j: nat| j < usize::BITS implies #[trigger] pow2(j) != p by {
                if j > k {
                    lemma_pow2_strictly_increases(k as nat, j);
                }
            }
        }
    }
    r
}

/// `x` rounded down to a multiple of `p`.
pub open spec fn align_down(x: int, p: int) -> int {
    x - x % p
}

/// `x` rounded up to a multiple of `p`.
pub open spec fn align_up(x: int, p: int) -> int {
    align_down(x + p - 1, p)
}

/// A page size on which the allocator's layout arithmetic is sound.
pub open spec fn page_size_supported(p: usize) -> bool {
    &&& is_pow2(p)
    &&& CANARY_SIZE <= p
    &&& vstd::layout::size_of::<usize>() <= p
    &&& p <= MAX_PAGE_SIZE
}

pub proof fn lemma_mask(x: usize, p: usize)
    requires
        is_pow2(p),
    ensures
        p > 0,
        x & ((p - 1) as usize) == x % p,
        x & !((p - 1) as usize) == align_down(x as int, p as int),
{
    let k = choose|k: nat| k < usize::BITS && p == #[trigger] pow2(k);
    lemma_pow2_pos(k);
    lemma_usize_low_bits_mask_is_mod(x, k);
    assert(x & !((p - 1) as usize) == x - (x & ((p - 1) as usize))) by (bit_vector);
}

pub proof fn lemma_align_down(x: int, p: int)
    requires
        0 <= x,
        0 < p,
    ensures
        align_down(x, p) % p == 0,
        align_down(x, p) <= x < align_down(x, p) + p,
        0 <= align_down(x, p),
{
    lemma_fundamental_div_mod(x, p);
    assert(align_down(x, p) == p * (x / p));
    lemma_mod_multiples_vanish(x / p, 0, p);
    lemma_small_mod(0, p as nat);
}

pub proof fn lemma_align_up(x: int, p: int)
    requires
        0 <= x,
        0 < p,
    ensures
        align_up(x, p) % p == 0,
        x <= align_up(x, p) < x + p,
{
    lemma_align_down(x + p - 1, p);
}

/// Rounding down an address that lies less than a page above a page
/// boundary gives that boundary.
pub proof fn lemma_align_down_within(a: int, d: int, p: int)
    requires
        0 <= a,
        a % p == 0,
        0 <= d < p,
    ensures
        align_down(a + d, p) == a,
        (a + d) % p == d,
{
    lemma_fundamental_div_mod(a, p);
    lemma_mod_multiples_vanish(a / p, d, p);
    lemma_small_mod(d as nat, p as nat);
}

/// A multiple of `m` minus a smaller multiple of `m` is a multiple of `m`.
pub proof fn lemma_sub_multiples(x: int, y: int, m: int)
    requires
        0 < m,
        x % m == 0,
        y % m == 0,
    ensures
        (x - y) % m == 0,
{
    lemma_fundamental_div_mod(x, m);
    lemma_fundamental_div_mod(y, m);
    assert(x - y == (x / m - y / m) * m) by (nonlinear_arith)
        requires
            x == m * (x / m),
            y == m * (y / m),
    ;
    lemma_mod_multiples_basic(x / m - y / m, m);
}

/// A multiple of a multiple of `a` is a multiple of `a`.
pub proof fn lemma_multiple_of_divisor(x: int, p: int, a: int)
    requires
        0 < a,
        0 < p,
        x % p == 0,
        p % a == 0,
    ensures
        x % a == 0,
{
    lemma_fundamental_div_mod(x, p);
    lemma_fundamental_div_mod(p, a);
    assert(x == ((p / a) * (x / p)) * a) by (nonlinear_arith)
        requires
            x == p * (x / p),
            p == a * (p / a),
    ;
    lemma_mod_multiples_basic((p / a) * (x / p), a);
}

/// `x` rounded up to a multiple of `a`.
pub fn round_up(x: usize, a: usize) -> (r: usize)
    requires
        0 < a,
        x + a - 1 <= usize::MAX,
    ensures
        r == align_up(x as int, a as int),
{
    let y: usize = x + (a - 1);
    y - y % a
}

/// Page-aligned bounds of the range `addr..addr + len`: the start rounded
/// down and the end rounded up to whole pages of size `ps`.
pub fn get_page_aligned_addrs(addr: usize, len: usize, ps: usize) -> (r: (usize, usize))
    requires
        is_pow2(ps),
        addr + len + ps - 1 <= usize::MAX,
    ensures
        r.0 == align_down(addr as int, ps as int),
        r.1 == align_up(addr + len, ps as int),
{
    proof {
        lemma_mask(addr, ps);
        lemma_mask((addr + len + ps - 1) as usize, ps);
    }
    let mask: usize = ps - 1;
    let start_addr: usize = addr & !mask;
    let end_addr: usize = (addr + len + mask) & !mask;
    (start_addr, end_addr)
}

fn page_size_ok(p: usize) -> (r: bool)
    ensures
        r == page_size_supported(p),
{
    CANARY_SIZE <= p && core::mem::size_of::<usize>() <= p && p <= MAX_PAGE_SIZE
        && is_power_of_two(p)
}

/// Process-wide allocator state: the page size, its mask, and the canary
/// written beside every allocation.
pub struct AllocContext {
    pub page_size: usize,
    pub page_mask: usize,
    pub canary: [u8; CANARY_SIZE],
}

/// Relies on rand's `OsRng` (rand_core's `try_fill_bytes` over `getrandom`):
/// fills the buffer from the operating system's random source, or fails.
#[verifier::external_body]
fn os_random_canary() -> (r: Option<[u8; CANARY_SIZE]>) {
    let mut c = [0u8; CANARY_SIZE];
    match rand::RngCore::try_fill_bytes(&mut rand::rngs::OsRng, &mut c) {
        Ok(()) => Some(c),
        Err(_) => None,
    }
}

impl AllocContext {
    pub open spec fn wf(&self) -> bool {
        &&& page_size_supported(self.page_size)
        &&& self.page_mask == self.page_size - 1
    }

    /// A context for pages of `page_size` bytes guarded by `canary`; `None`
    /// where the page size is unusable (too small to hold a canary or a
    /// pointer, not a power of two, or over `MAX_PAGE_SIZE`, an eighth of the
    /// address space).
    pub fn new(page_size: usize, canary: [u8; CANARY_SIZE]) -> (r: Option<AllocContext>)
        ensures
            r is Some <==> page_size_supported(page_size),
            r matches Some(c) ==> c.wf() && c.page_size == page_size && c.canary@ == canary@,
    {
        if !page_size_ok(page_size) {
            None
        } else {
            Some(AllocContext { page_size, page_mask: page_size - 1, canary })
        }
    }

    /// A context for pages of `page_size` bytes with a fresh random canary;
    /// `None` where the page size is unusable or the random source failed.
    pub fn init(page_size: usize) -> (r: Option<AllocContext>)
        ensures
            !page_size_supported(page_size) ==> r is None,
            r matches Some(c) ==> c.wf() && c.page_size == page_size,
    {
        if !page_size_ok(page_size) {
            return None;
        }
        match os_random_canary() {
            Some(canary) => AllocContext::new(page_size, canary),
            None => None,
        }
    }

    /// `size` rounded up to a whole number of pages.
    pub fn page_round(&self, size: usize) -> (r: usize)
        requires
            self.wf(),
            size + self.page_size - 1 <= usize::MAX,
        ensures
            r == align_up(size as int, self.page_size as int),
    {
        proof {
            lemma_mask((size + self.page_mask) as usize, self.page_size);
        }
        (size + self.page_mask) & !self.page_mask
    }
}

} // verus!
