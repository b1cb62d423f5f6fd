//! The guarded allocator's protocol, as ordered page operations.
//!
//! The library decides what is done to which pages and in which order; a
//! platform layer performs each operation on real memory. Allocation runs
//! `malloc_total_size`, obtains a page-aligned block of that length, builds
//! its `GuardedLayout` and performs `malloc_setup`. Release locates the
//! header with `locate_header`, rebuilds the block with `BlockRecord::recover`
//! from the length stored there, performs `free_open`, checks the canaries
//! with `canaries_intact` (a mismatch is fatal) and performs `free_close`.

use vstd::prelude::*;
use crate::ct::{bytes_equal, memeq};
use crate::layout::{GuardedLayout, lemma_layout_order, lemma_recover_user, recovered_region};
use crate::page::{AllocContext, CANARY_SIZE, GARBAGE_VALUE};

verus! {

/// Page protection, mapped by the platform layer to the host's flags.
#[derive(Clone, Copy, Debug, PartialEq, Eq, Structural)]
pub enum Prot {
    NoAccess,
    ReadOnly,
    WriteOnly,
    ReadWrite,
    Execute,
    ReadExec,
    WriteExec,
    ReadWriteExec,
}

/// One operation on memory, performed by the platform layer.
#[derive(Clone, Copy, Debug, PartialEq, Eq, Structural)]
pub enum PageOp {
    /// Set the protection of the `len` bytes at `addr`.
    Protect { addr: usize, len: usize, prot: Prot },
    /// Keep the `len` bytes at `addr` out of swap and core dumps.
    Lock { addr: usize, len: usize },
    /// Wipe the `len` bytes at `addr`, readmit them to core dumps and unlock them.
    Unlock { addr: usize, len: usize },
    /// Wipe the `len` bytes at `addr`.
    Wipe { addr: usize, len: usize },
    /// Copy the context's canary to `addr`.
    WriteCanary { addr: usize },
    /// Store a `usize` at `addr`.
    WriteSize { addr: usize, value: usize },
    /// Store a file descriptor at `addr`.
    WriteDescriptor { addr: usize, fd: i32 },
    /// Fill the `len` bytes at `addr` with `byte`.
    Fill { addr: usize, len: usize, byte: u8 },
    /// Give back a block of `len` bytes at `addr` from the aligned allocation.
    Release { addr: usize, len: usize },
    /// Remove every mapping in the `len` bytes at `addr`.
    Unmap { addr: usize, len: usize },
    /// Close a file descriptor.
    Close { fd: i32 },
}

/// What turns a fresh block into a guarded allocation, in order: both guard
/// pages made inaccessible, the lockable region locked, a canary on each side
/// of the payload, the region's length stored in the header, the header made
/// read-only, and the payload filled with garbage.
pub open spec fn malloc_setup_steps(l: GuardedLayout) -> Seq<PageOp> {
    seq![
        PageOp::Protect { addr: l.front_guard_addr() as usize, len: l.page_size, prot: Prot::NoAccess },
        PageOp::Protect { addr: l.back_guard_addr() as usize, len: l.page_size, prot: Prot::NoAccess },
        PageOp::Lock { addr: l.unprotected_addr() as usize, len: l.unprotected_size },
        PageOp::WriteCanary { addr: l.front_canary_addr() as usize },
        PageOp::WriteCanary { addr: l.back_canary_addr() as usize },
        PageOp::WriteSize { addr: l.base, value: l.unprotected_size },
        PageOp::Protect { addr: l.base, len: l.page_size, prot: Prot::ReadOnly },
        PageOp::Fill { addr: l.user_addr() as usize, len: l.size, byte: GARBAGE_VALUE },
    ]
}

/// The operations that set up the guarded allocation laid out by `l`; the
/// pointer to hand out is `l.user()`.
pub fn malloc_setup(l: &GuardedLayout) -> (r: Vec<PageOp>)
    requires
        l.wf(),
    ensures
        r@ == malloc_setup_steps(*l),
{
    proof {
        lemma_layout_order(*l);
    }
    let ops: Vec<PageOp> = vec![
        PageOp::Protect { addr: l.front_guard(), len: l.page_size, prot: Prot::NoAccess },
        PageOp::Protect { addr: l.back_guard(), len: l.page_size, prot: Prot::NoAccess },
        PageOp::Lock { addr: l.unprotected(), len: l.unprotected_size },
        PageOp::WriteCanary { addr: l.front_canary() },
        PageOp::WriteCanary { addr: l.back_canary() },
        PageOp::WriteSize { addr: l.base, value: l.unprotected_size },
        PageOp::Protect { addr: l.base, len: l.page_size, prot: Prot::ReadOnly },
        PageOp::Fill { addr: l.user(), len: l.size, byte: GARBAGE_VALUE },
    ];
    assert(ops@ =~= malloc_setup_steps(*l));
    ops
}

/// Where a user pointer's header lies.
#[derive(Clone, Copy, Debug, PartialEq, Eq, Structural)]
pub enum HeaderLocation {
    /// The null pointer: there is nothing to release.
    Null,
    /// No allocation can have handed out this pointer: a fatal error.
    Forged,
    /// The header page starts at `base`.
    At { base: usize },
}

/// The header page of the allocation whose payload starts at `user`.
pub fn locate_header(ctx: &AllocContext, user: usize) -> (r: HeaderLocation)
    requires
        ctx.wf(),
    ensures
        user == 0 ==> r == HeaderLocation::Null,
        user != 0 && recovered_region(ctx.page_size as int, user as int) is None
            ==> r == HeaderLocation::Forged,
        user != 0 && recovered_region(ctx.page_size as int, user as int) is Some ==> r
            == (HeaderLocation::At {
            base: (recovered_region(ctx.page_size as int, user as int)->0 - 2
                * ctx.page_size) as usize,
        }),
{
    if user == 0 {
        return HeaderLocation::Null;
    }
    match crate::layout::unprotected_ptr_from_user_ptr(ctx, user) {
        None => HeaderLocation::Forged,
        Some(u) => HeaderLocation::At { base: u - ctx.page_size * 2 },
    }
}

/// A live allocation as free and reprotect see it: rebuilt from the user
/// pointer and the lockable region's length read from its header.
#[derive(Clone, Copy, Debug, PartialEq, Eq, Structural)]
pub struct BlockRecord {
    pub base: usize,
    pub page_size: usize,
    pub unprotected_size: usize,
    pub user: usize,
}

impl BlockRecord {
    pub open spec fn wf(&self) -> bool {
        &&& CANARY_SIZE <= self.unprotected_size
        &&& self.base + self.total_size() <= usize::MAX
        &&& CANARY_SIZE <= self.user
    }

    pub open spec fn unprotected_addr(&self) -> int {
        self.base + 2 * self.page_size
    }

    pub open spec fn total_size(&self) -> int {
        3 * self.page_size + self.unprotected_size
    }

    pub open spec fn front_canary_addr(&self) -> int {
        self.user - CANARY_SIZE
    }

    pub open spec fn back_canary_addr(&self) -> int {
        self.unprotected_addr() + self.unprotected_size - CANARY_SIZE
    }

    /// The record of the allocation at `user` whose header holds
    /// `unprotected_size`; `None` where the pointer is forged or the stored
    /// length cannot describe a block (both fatal).
    pub fn recover(ctx: &AllocContext, user: usize, unprotected_size: usize) -> (r: Option<
        BlockRecord,
    >)
        requires
            ctx.wf(),
        ensures
            r is Some <==> {
                &&& recovered_region(ctx.page_size as int, user as int) is Some
                &&& CANARY_SIZE <= unprotected_size
                &&& recovered_region(ctx.page_size as int, user as int)->0 + unprotected_size
                    + ctx.page_size <= usize::MAX
            },
            r matches Some(b) ==> {
                &&& b.wf()
                &&& b.unprotected_addr() == recovered_region(
                    ctx.page_size as int,
                    user as int,
                )->0
                &&& b.page_size == ctx.page_size
                &&& b.unprotected_size == unprotected_size
                &&& b.user == user
            },
    {
        let u: usize = match crate::layout::unprotected_ptr_from_user_ptr(ctx, user) {
            Some(u) => u,
            None => return None,
        };
        if unprotected_size < CANARY_SIZE || unprotected_size > usize::MAX - ctx.page_size
            || u > usize::MAX - ctx.page_size - unprotected_size {
            return None;
        }
        Some(
            BlockRecord {
                base: u - ctx.page_size * 2,
                page_size: ctx.page_size,
                unprotected_size,
                user,
            },
        )
    }

    pub fn total(&self) -> (r: usize)
        requires
            self.wf(),
        ensures
            r == self.total_size(),
    {
        self.page_size * 3 + self.unprotected_size
    }

    pub fn unprotected(&self) -> (r: usize)
        requires
            self.wf(),
        ensures
            r == self.unprotected_addr(),
    {
        self.base + self.page_size * 2
    }

    pub fn front_canary(&self) -> (r: usize)
        requires
            self.wf(),
        ensures
            r == self.front_canary_addr(),
    {
        self.user - CANARY_SIZE
    }

    pub fn back_canary(&self) -> (r: usize)
        requires
            self.wf(),
        ensures
            r == self.back_canary_addr(),
    {
        self.base + self.page_size * 2 + self.unprotected_size - CANARY_SIZE
    }

    /// First step of a release: the whole block made readable and writable,
    /// so that the canaries can be checked and the region wiped.
    pub fn free_open(&self) -> (r: PageOp)
        requires
            self.wf(),
        ensures
            r == (PageOp::Protect {
                addr: self.base,
                len: self.total_size() as usize,
                prot: Prot::ReadWrite,
            }),
    {
        PageOp::Protect { addr: self.base, len: self.total(), prot: Prot::ReadWrite }
    }

    /// Last steps of a release, once the canaries are found intact: the
    /// lockable region wiped and unlocked, and the block given back.
    pub fn free_close(&self) -> (r: Vec<PageOp>)
        requires
            self.wf(),
        ensures
            r@ == seq![
                PageOp::Unlock { addr: self.unprotected_addr() as usize, len: self.unprotected_size },
                PageOp::Release { addr: self.base, len: self.total_size() as usize },
            ],
    {
        let ops: Vec<PageOp> = vec![
            PageOp::Unlock { addr: self.unprotected(), len: self.unprotected_size },
            PageOp::Release { addr: self.base, len: self.total() },
        ];
        assert(ops@ =~= seq![
            PageOp::Unlock { addr: self.unprotected_addr() as usize, len: self.unprotected_size },
            PageOp::Release { addr: self.base, len: self.total_size() as usize },
        ]);
        ops
    }

    /// The whole lockable region, and nothing else, given protection `prot`.
    pub fn reprotect(&self, prot: Prot) -> (r: PageOp)
        requires
            self.wf(),
        ensures
            r == (PageOp::Protect {
                addr: self.unprotected_addr() as usize,
                len: self.unprotected_size,
                prot,
            }),
    {
        PageOp::Protect { addr: self.unprotected(), len: self.unprotected_size, prot }
    }
}

/// Whether both canary copies read back from an allocation equal the
/// context's canary; compared in constant time.
pub fn canaries_intact(ctx: &AllocContext, front: &[u8], back: &[u8]) -> (r: bool)
    requires
        front@.len() == CANARY_SIZE,
        back@.len() == CANARY_SIZE,
    ensures
        r == (front@ == ctx.canary@ && back@ == ctx.canary@),
{
    let canary: &[u8] = ctx.canary.as_slice();
    let f: bool = memeq(front, canary, CANARY_SIZE);
    let b: bool = memeq(back, canary, CANARY_SIZE);
    assert(f == (front@ == ctx.canary@)) by {
        if f {
            assert(front@ =~= ctx.canary@);
        }
    }
    assert(b == (back@ == ctx.canary@)) by {
        if b {
            assert(back@ =~= ctx.canary@);
        }
    }
    f && b
}

/// Release finds what allocation set up: for every block laid out by the
/// allocator, the user pointer leads to the header at the block's base, and
/// the record rebuilt from it and the stored length names the same block,
/// the same lockable region and the same two canaries.
pub proof fn lemma_free_finds_allocation(ctx: AllocContext, l: GuardedLayout)
    requires
        ctx.wf(),
        l.wf(),
        l.page_size == ctx.page_size,
    ensures
        recovered_region(ctx.page_size as int, l.user_addr()) == Some(l.unprotected_addr()),
        ({
            let b = BlockRecord {
                base: l.base,
                page_size: l.page_size,
                unprotected_size: l.unprotected_size,
                user: l.user_addr() as usize,
            };
            &&& b.wf()
            &&& b.unprotected_addr() == l.unprotected_addr()
            &&& b.total_size() == l.total_size()
            &&& b.front_canary_addr() == l.front_canary_addr()
            &&& b.back_canary_addr() == l.back_canary_addr()
        }),
{
    lemma_recover_user(l);
    lemma_layout_order(l);
}

} // verus!
