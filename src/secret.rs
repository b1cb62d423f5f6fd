//! Allocation backed by a secret-memory file descriptor (Linux).
//!
//! Same layout as the guarded allocator, but the lockable region is a
//! mapping of a fresh secret-memory descriptor placed at a fixed address
//! inside a reserved, inaccessible range. Allocation is a state machine:
//! `secret_begin` gives the first request, the platform layer performs each
//! request and hands its reply to `secret_step`, until the machine finishes
//! with the operations that complete the allocation, or fails with the
//! operations that undo everything obtained so far, so that no mapping and no
//! descriptor outlives a failed attempt.

use vstd::prelude::*;
use crate::guarded::{BlockRecord, PageOp, Prot};
use crate::layout::{GuardedLayout, lemma_layout_order, malloc_total_size, size_accepted, total_size_for, unprotected_size_for};
use crate::page::{AllocContext, GARBAGE_VALUE, page_size_supported};

verus! {

/// A request whose reply drives the machine.
#[derive(Clone, Copy, Debug, PartialEq, Eq, Structural)]
pub enum SecretRequest {
    /// Reserve `len` bytes of inaccessible address space; reply `Mapped`.
    Reserve { len: usize },
    /// Map `len` bytes of anonymous read-write memory at exactly `addr`;
    /// reply `Mapped`.
    MapAnonymousAt { addr: usize, len: usize },
    /// Create a secret-memory descriptor of `len` bytes; reply `Opened`.
    OpenSecret { len: usize },
    /// Map the `len` bytes of descriptor `fd` at exactly `addr`, read-write
    /// and locked; reply `Mapped`.
    MapSecretAt { addr: usize, len: usize, fd: i32 },
}

/// The reply to a request.
#[derive(Clone, Copy, Debug, PartialEq, Eq, Structural)]
pub enum SecretEvent {
    /// Where the mapping landed, or `None` if it failed.
    Mapped(Option<usize>),
    /// The new descriptor, or `None` if it could not be created.
    Opened(Option<i32>),
}

#[derive(Clone, Copy, Debug, PartialEq, Eq, Structural)]
pub enum SecretState {
    Reserving { size: usize, align: usize },
    MappingHeader { layout: GuardedLayout },
    Opening { layout: GuardedLayout },
    MappingSecret { layout: GuardedLayout, fd: i32 },
    Finished,
}

/// What the platform layer does next.
#[derive(Debug, PartialEq, Eq)]
pub enum SecretAction {
    /// Perform the request and hand its reply to `secret_step`.
    Request(SecretRequest),
    /// Perform these operations, whatever each returns, and report failure.
    Fail(Vec<PageOp>),
    /// Perform these operations and hand out `user`.
    Finish { ops: Vec<PageOp>, user: usize },
}

/// `SecretAction` with its operations as a sequence.
pub ghost enum SecretOutcome {
    Request(SecretRequest),
    Fail(Seq<PageOp>),
    Finish(Seq<PageOp>, usize),
}

impl SecretAction {
    pub open spec fn view(&self) -> SecretOutcome {
        match self {
            SecretAction::Request(q) => SecretOutcome::Request(*q),
            SecretAction::Fail(ops) => SecretOutcome::Fail(ops@),
            SecretAction::Finish { ops, user } => SecretOutcome::Finish(ops@, *user),
        }
    }
}

impl SecretState {
    pub open spec fn wf(&self, ctx: AllocContext) -> bool {
        match *self {
            SecretState::Reserving { size, align } => size_accepted(
                ctx.page_size as int,
                size as int,
                align as int,
            ),
            SecretState::MappingHeader { layout } => layout.wf() && layout.page_size
                == ctx.page_size,
            SecretState::Opening { layout } => layout.wf() && layout.page_size == ctx.page_size,
            SecretState::MappingSecret { layout, fd } => layout.wf() && layout.page_size
                == ctx.page_size,
            SecretState::Finished => true,
        }
    }
}

/// The layout of a secret-backed block at `base` for `size` bytes aligned
/// to `align`.
pub open spec fn layout_at(ctx: AllocContext, size: usize, align: usize, base: usize) -> GuardedLayout {
    GuardedLayout {
        base,
        page_size: ctx.page_size,
        size,
        align,
        unprotected_size: unprotected_size_for(ctx.page_size as int, size as int, align as int)
            as usize,
    }
}

/// Where the descriptor is stored in the header page: just after the
/// lockable region's length.
pub open spec fn descriptor_addr(base: int) -> int {
    base + vstd::layout::size_of::<usize>()
}

/// The operations that complete a secret-backed allocation: a canary on each
/// side of the payload, the region's length and the descriptor stored in the
/// header, the header made read-only, and the payload filled with garbage.
pub open spec fn secret_finish_steps(l: GuardedLayout, fd: i32) -> Seq<PageOp> {
    seq![
        PageOp::WriteCanary { addr: l.front_canary_addr() as usize },
        PageOp::WriteCanary { addr: l.back_canary_addr() as usize },
        PageOp::WriteSize { addr: l.base, value: l.unprotected_size },
        PageOp::WriteDescriptor { addr: descriptor_addr(l.base as int) as usize, fd },
        PageOp::Protect { addr: l.base, len: l.page_size, prot: Prot::ReadOnly },
        PageOp::Fill { addr: l.user_addr() as usize, len: l.size, byte: GARBAGE_VALUE },
    ]
}

/// The whole reserved range, unmapped.
pub open spec fn unmap_block(l: GuardedLayout) -> PageOp {
    PageOp::Unmap { addr: l.base, len: l.total_size() as usize }
}

/// The next state and action after `event` in state `s`. A reply of the
/// wrong kind counts as a failure of the request.
pub open spec fn secret_transition(ctx: AllocContext, s: SecretState, event: SecretEvent) -> (
    SecretState,
    SecretOutcome,
) {
    match s {
        SecretState::Reserving { size, align } => match event {
            SecretEvent::Mapped(Some(base)) => {
                let l = layout_at(ctx, size, align, base);
                if l.wf() {
                    (
                        SecretState::MappingHeader { layout: l },
                        SecretOutcome::Request(
                            SecretRequest::MapAnonymousAt { addr: base, len: ctx.page_size },
                        ),
                    )
                } else {
                    (
                        SecretState::Finished,
                        SecretOutcome::Fail(
                            seq![
                                PageOp::Unmap {
                                    addr: base,
                                    len: total_size_for(
                                        ctx.page_size as int,
                                        size as int,
                                        align as int,
                                    ) as usize,
                                },
                            ],
                        ),
                    )
                }
            },
            _ => (SecretState::Finished, SecretOutcome::Fail(seq![])),
        },
        SecretState::MappingHeader { layout } => match event {
            SecretEvent::Mapped(Some(a)) => if a == layout.base {
                (
                    SecretState::Opening { layout },
                    SecretOutcome::Request(
                        SecretRequest::OpenSecret { len: layout.unprotected_size },
                    ),
                )
            } else {
                (
                    SecretState::Finished,
                    SecretOutcome::Fail(
                        seq![
                            PageOp::Unmap { addr: a, len: layout.page_size },
                            unmap_block(layout),
                        ],
                    ),
                )
            },
            _ => (SecretState::Finished, SecretOutcome::Fail(seq![unmap_block(layout)])),
        },
        SecretState::Opening { layout } => match event {
            SecretEvent::Opened(Some(fd)) => (
                SecretState::MappingSecret { layout, fd },
                SecretOutcome::Request(
                    SecretRequest::MapSecretAt {
                        addr: layout.unprotected_addr() as usize,
                        len: layout.unprotected_size,
                        fd,
                    },
                ),
            ),
            _ => (SecretState::Finished, SecretOutcome::Fail(seq![unmap_block(layout)])),
        },
        SecretState::MappingSecret { layout, fd } => match event {
            SecretEvent::Mapped(Some(a)) => if a == layout.unprotected_addr() {
                (
                    SecretState::Finished,
                    SecretOutcome::Finish(
                        secret_finish_steps(layout, fd),
                        layout.user_addr() as usize,
                    ),
                )
            } else {
                (
                    SecretState::Finished,
                    SecretOutcome::Fail(
                        seq![
                            PageOp::Unmap { addr: a, len: layout.unprotected_size },
                            PageOp::Close { fd },
                            unmap_block(layout),
                        ],
                    ),
                )
            },
            _ => (
                SecretState::Finished,
                SecretOutcome::Fail(seq![PageOp::Close { fd }, unmap_block(layout)]),
            ),
        },
        SecretState::Finished => (SecretState::Finished, SecretOutcome::Fail(seq![])),
    }
}

/// First state and action of a secret-backed allocation of `size` bytes
/// aligned to `align`: the whole block's address range reserved, or an
/// immediate failure where the request is refused.
pub fn secret_begin(ctx: &AllocContext, size: usize, align: usize) -> (r: (SecretState, SecretAction))
    requires
        ctx.wf(),
    ensures
        r.0.wf(*ctx),
        size_accepted(ctx.page_size as int, size as int, align as int) ==> r.0
            == (SecretState::Reserving { size, align }) && r.1@ == SecretOutcome::Request(
            SecretRequest::Reserve {
                len: total_size_for(ctx.page_size as int, size as int, align as int) as usize,
            },
        ),
        !size_accepted(ctx.page_size as int, size as int, align as int) ==> r.0
            == SecretState::Finished && r.1@ == SecretOutcome::Fail(seq![]),
{
    match malloc_total_size(ctx, size, align) {
        Some(total) => (
            SecretState::Reserving { size, align },
            SecretAction::Request(SecretRequest::Reserve { len: total }),
        ),
        None => {
            let ops: Vec<PageOp> = Vec::new();
            assert(ops@ =~= seq![]);
            (SecretState::Finished, SecretAction::Fail(ops))
        },
    }
}

fn unmap_whole(l: &GuardedLayout) -> (r: PageOp)
    requires
        l.wf(),
    ensures
        r == unmap_block(*l),
{
    PageOp::Unmap { addr: l.base, len: l.total() }
}

/// The state and action that follow `event` in state `s`.
pub fn secret_step(ctx: &AllocContext, s: SecretState, event: SecretEvent) -> (r: (
    SecretState,
    SecretAction,
))
    requires
        ctx.wf(),
        s.wf(*ctx),
    ensures
        r.0.wf(*ctx),
        (r.0, r.1@) == secret_transition(*ctx, s, event),
{
    match s {
        SecretState::Reserving { size, align } => match event {
            SecretEvent::Mapped(Some(base)) => match GuardedLayout::new(ctx, size, align, base) {
                Some(l) => {
                    assert(l == layout_at(*ctx, size, align, base));
                    (
                        SecretState::MappingHeader { layout: l },
                        SecretAction::Request(
                            SecretRequest::MapAnonymousAt { addr: base, len: ctx.page_size },
                        ),
                    )
                },
                None => {
                    let total: usize = malloc_total_size(ctx, size, align).unwrap();
                    let ops: Vec<PageOp> = vec![PageOp::Unmap { addr: base, len: total }];
                    assert(ops@ =~= seq![
                        PageOp::Unmap {
                            addr: base,
                            len: total_size_for(ctx.page_size as int, size as int, align as int)
                                as usize,
                        },
                    ]);
                    (SecretState::Finished, SecretAction::Fail(ops))
                },
            },
            _ => {
                let ops: Vec<PageOp> = Vec::new();
                assert(ops@ =~= seq![]);
                (SecretState::Finished, SecretAction::Fail(ops))
            },
        },
        SecretState::MappingHeader { layout } => match event {
            SecretEvent::Mapped(Some(a)) => {
                if a == layout.base {
                    (
                        SecretState::Opening { layout },
                        SecretAction::Request(
                            SecretRequest::OpenSecret { len: layout.unprotected_size },
                        ),
                    )
                } else {
                    let ops: Vec<PageOp> = vec![
                        PageOp::Unmap { addr: a, len: layout.page_size },
                        unmap_whole(&layout),
                    ];
                    assert(ops@ =~= seq![
                        PageOp::Unmap { addr: a, len: layout.page_size },
                        unmap_block(layout),
                    ]);
                    (SecretState::Finished, SecretAction::Fail(ops))
                }
            },
            _ => {
                let ops: Vec<PageOp> = vec![unmap_whole(&layout)];
                assert(ops@ =~= seq![unmap_block(layout)]);
                (SecretState::Finished, SecretAction::Fail(ops))
            },
        },
        SecretState::Opening { layout } => match event {
            SecretEvent::Opened(Some(fd)) => (
                SecretState::MappingSecret { layout, fd },
                SecretAction::Request(
                    SecretRequest::MapSecretAt {
                        addr: layout.unprotected(),
                        len: layout.unprotected_size,
                        fd,
                    },
                ),
            ),
            _ => {
                let ops: Vec<PageOp> = vec![unmap_whole(&layout)];
                assert(ops@ =~= seq![unmap_block(layout)]);
                (SecretState::Finished, SecretAction::Fail(ops))
            },
        },
        SecretState::MappingSecret { layout, fd } => match event {
            SecretEvent::Mapped(Some(a)) => {
                if a == layout.unprotected() {
                    proof {
                        lemma_layout_order(layout);
                    }
                    let ops: Vec<PageOp> = vec![
                        PageOp::WriteCanary { addr: layout.front_canary() },
                        PageOp::WriteCanary { addr: layout.back_canary() },
                        PageOp::WriteSize { addr: layout.base, value: layout.unprotected_size },
                        PageOp::WriteDescriptor {
                            addr: layout.base + core::mem::size_of::<usize>(),
                            fd,
                        },
                        PageOp::Protect {
                            addr: layout.base,
                            len: layout.page_size,
                            prot: Prot::ReadOnly,
                        },
                        PageOp::Fill {
                            addr: layout.user(),
                            len: layout.size,
                            byte: GARBAGE_VALUE,
                        },
                    ];
                    assert(ops@ =~= secret_finish_steps(layout, fd));
                    (SecretState::Finished, SecretAction::Finish { ops, user: layout.user() })
                } else {
                    let ops: Vec<PageOp> = vec![
                        PageOp::Unmap { addr: a, len: layout.unprotected_size },
                        PageOp::Close { fd },
                        unmap_whole(&layout),
                    ];
                    assert(ops@ =~= seq![
                        PageOp::Unmap { addr: a, len: layout.unprotected_size },
                        PageOp::Close { fd },
                        unmap_block(layout),
                    ]);
                    (SecretState::Finished, SecretAction::Fail(ops))
                }
            },
            _ => {
                let ops: Vec<PageOp> = vec![PageOp::Close { fd }, unmap_whole(&layout)];
                assert(ops@ =~= seq![PageOp::Close { fd }, unmap_block(layout)]);
                (SecretState::Finished, SecretAction::Fail(ops))
            },
        },
        SecretState::Finished => {
            let ops: Vec<PageOp> = Vec::new();
            assert(ops@ =~= seq![]);
            (SecretState::Finished, SecretAction::Fail(ops))
        },
    }
}

impl BlockRecord {
    /// Where the header of a secret-backed allocation holds its descriptor.
    pub fn descriptor(&self) -> (r: usize)
        requires
            self.wf(),
            page_size_supported(self.page_size),
        ensures
            r == descriptor_addr(self.base as int),
    {
        self.base + core::mem::size_of::<usize>()
    }

    /// Last steps of releasing a secret-backed allocation, once the canaries
    /// are found intact; each must succeed: the lockable region wiped and
    /// unmapped, the whole reserved range unmapped, the descriptor closed.
    pub fn free_secret_close(&self, fd: i32) -> (r: Vec<PageOp>)
        requires
            self.wf(),
        ensures
            r@ == seq![
                PageOp::Wipe { addr: self.unprotected_addr() as usize, len: self.unprotected_size },
                PageOp::Unmap { addr: self.unprotected_addr() as usize, len: self.unprotected_size },
                PageOp::Unmap { addr: self.base, len: self.total_size() as usize },
                PageOp::Close { fd },
            ],
    {
        let u: usize = self.unprotected();
        let ops: Vec<PageOp> = vec![
            PageOp::Wipe { addr: u, len: self.unprotected_size },
            PageOp::Unmap { addr: u, len: self.unprotected_size },
            PageOp::Unmap { addr: self.base, len: self.total() },
            PageOp::Close { fd },
        ];
        assert(ops@ =~= seq![
            PageOp::Wipe { addr: self.unprotected_addr() as usize, len: self.unprotected_size },
            PageOp::Unmap { addr: self.unprotected_addr() as usize, len: self.unprotected_size },
            PageOp::Unmap { addr: self.base, len: self.total_size() as usize },
            PageOp::Close { fd },
        ]);
        ops
    }
}

} // verus!
