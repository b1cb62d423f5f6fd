use memsec::guarded::{BlockRecord, PageOp, Prot};
use memsec::page::{AllocContext, CANARY_SIZE, GARBAGE_VALUE};
use memsec::secret::{secret_begin, secret_step, SecretAction, SecretEvent, SecretRequest, SecretState};

const PS: usize = 4096;
const BASE: usize = 0x10000;

fn ctx() -> AllocContext {
    AllocContext::new(PS, [1; CANARY_SIZE]).unwrap()
}

fn reserved(c: &AllocContext) -> SecretState {
    let (s, a) = secret_begin(c, 16, 1);
    assert_eq!(a, SecretAction::Request(SecretRequest::Reserve { len: 4 * PS }));
    let (s, a) = secret_step(c, s, SecretEvent::Mapped(Some(BASE)));
    assert_eq!(a, SecretAction::Request(SecretRequest::MapAnonymousAt { addr: BASE, len: PS }));
    s
}

fn opened(c: &AllocContext) -> SecretState {
    let s = reserved(c);
    let (s, a) = secret_step(c, s, SecretEvent::Mapped(Some(BASE)));
    assert_eq!(a, SecretAction::Request(SecretRequest::OpenSecret { len: PS }));
    let (s, a) = secret_step(c, s, SecretEvent::Opened(Some(5)));
    assert_eq!(
        a,
        SecretAction::Request(SecretRequest::MapSecretAt { addr: BASE + 2 * PS, len: PS, fd: 5 })
    );
    s
}

#[test]
fn secret_allocation_succeeds() {
    let c = ctx();
    let s = opened(&c);
    let (s, a) = secret_step(&c, s, SecretEvent::Mapped(Some(BASE + 2 * PS)));
    assert_eq!(s, SecretState::Finished);
    assert_eq!(
        a,
        SecretAction::Finish {
            ops: vec![
                PageOp::WriteCanary { addr: 0x12fd0 },
                PageOp::WriteCanary { addr: 0x12ff0 },
                PageOp::WriteSize { addr: BASE, value: PS },
                PageOp::WriteDescriptor { addr: BASE + std::mem::size_of::<usize>(), fd: 5 },
                PageOp::Protect { addr: BASE, len: PS, prot: Prot::ReadOnly },
                PageOp::Fill { addr: 0x12fe0, len: 16, byte: GARBAGE_VALUE },
            ],
            user: 0x12fe0,
        }
    );
}

#[test]
fn secret_refuses_huge_size() {
    let c = ctx();
    let (s, a) = secret_begin(&c, usize::MAX - 1, 1);
    assert_eq!(s, SecretState::Finished);
    assert_eq!(a, SecretAction::Fail(vec![]));
}

#[test]
fn secret_reserve_failure_leaves_nothing() {
    let c = ctx();
    let (s, _) = secret_begin(&c, 16, 1);
    let (s, a) = secret_step(&c, s, SecretEvent::Mapped(None));
    assert_eq!(s, SecretState::Finished);
    assert_eq!(a, SecretAction::Fail(vec![]));
}

#[test]
fn secret_unaligned_reservation_is_unmapped() {
    let c = ctx();
    let (s, _) = secret_begin(&c, 16, 1);
    let (_, a) = secret_step(&c, s, SecretEvent::Mapped(Some(BASE + 1)));
    assert_eq!(a, SecretAction::Fail(vec![PageOp::Unmap { addr: BASE + 1, len: 4 * PS }]));
}

#[test]
fn secret_header_mapping_failures_roll_back() {
    let c = ctx();
    let (_, a) = secret_step(&c, reserved(&c), SecretEvent::Mapped(None));
    assert_eq!(a, SecretAction::Fail(vec![PageOp::Unmap { addr: BASE, len: 4 * PS }]));
    let (_, a) = secret_step(&c, reserved(&c), SecretEvent::Mapped(Some(0x50000)));
    assert_eq!(
        a,
        SecretAction::Fail(vec![
            PageOp::Unmap { addr: 0x50000, len: PS },
            PageOp::Unmap { addr: BASE, len: 4 * PS },
        ])
    );
}

#[test]
fn secret_descriptor_failure_rolls_back() {
    let c = ctx();
    let s = reserved(&c);
    let (s, _) = secret_step(&c, s, SecretEvent::Mapped(Some(BASE)));
    let (s, a) = secret_step(&c, s, SecretEvent::Opened(None));
    assert_eq!(s, SecretState::Finished);
    assert_eq!(a, SecretAction::Fail(vec![PageOp::Unmap { addr: BASE, len: 4 * PS }]));
}

#[test]
fn secret_region_mapping_failures_close_descriptor() {
    let c = ctx();
    let (_, a) = secret_step(&c, opened(&c), SecretEvent::Mapped(None));
    assert_eq!(
        a,
        SecretAction::Fail(vec![PageOp::Close { fd: 5 }, PageOp::Unmap { addr: BASE, len: 4 * PS }])
    );
    let (_, a) = secret_step(&c, opened(&c), SecretEvent::Mapped(Some(0x90000)));
    assert_eq!(
        a,
        SecretAction::Fail(vec![
            PageOp::Unmap { addr: 0x90000, len: PS },
            PageOp::Close { fd: 5 },
            PageOp::Unmap { addr: BASE, len: 4 * PS },
        ])
    );
}

#[test]
fn secret_wrong_reply_counts_as_failure() {
    let c = ctx();
    let (_, a) = secret_step(&c, opened(&c), SecretEvent::Opened(Some(9)));
    assert_eq!(
        a,
        SecretAction::Fail(vec![PageOp::Close { fd: 5 }, PageOp::Unmap { addr: BASE, len: 4 * PS }])
    );
    let (s, a) = secret_step(&c, SecretState::Finished, SecretEvent::Mapped(Some(BASE)));
    assert_eq!(s, SecretState::Finished);
    assert_eq!(a, SecretAction::Fail(vec![]));
}

#[test]
fn secret_release_steps() {
    let c = ctx();
    let b = BlockRecord::recover(&c, 0x12fe0, PS).unwrap();
    assert_eq!(b.descriptor(), BASE + std::mem::size_of::<usize>());
    assert_eq!(
        b.free_secret_close(5),
        vec![
            PageOp::Wipe { addr: 0x12000, len: PS },
            PageOp::Unmap { addr: 0x12000, len: PS },
            PageOp::Unmap { addr: BASE, len: 4 * PS },
            PageOp::Close { fd: 5 },
        ]
    );
}

#[test]
fn secret_allocation_aligns_payload() {
    let c = ctx();
    let (s, a) = secret_begin(&c, 64, 64);
    assert_eq!(a, SecretAction::Request(SecretRequest::Reserve { len: 4 * PS }));
    let (s, _) = secret_step(&c, s, SecretEvent::Mapped(Some(BASE)));
    let (s, _) = secret_step(&c, s, SecretEvent::Mapped(Some(BASE)));
    let (s, _) = secret_step(&c, s, SecretEvent::Opened(Some(3)));
    let (_, a) = secret_step(&c, s, SecretEvent::Mapped(Some(BASE + 2 * PS)));
    match a {
        SecretAction::Finish { ops, user } => {
            assert_eq!(user, 0x12f80);
            assert_eq!(user % 64, 0);
            assert_eq!(ops[0], PageOp::WriteCanary { addr: 0x12f70 });
            assert_eq!(ops[1], PageOp::WriteCanary { addr: 0x12ff0 });
            assert_eq!(ops[5], PageOp::Fill { addr: 0x12f80, len: 64, byte: GARBAGE_VALUE });
        }
        other => panic!("unexpected action {:?}", other),
    }
}

#[test]
fn secret_refuses_alignment_above_page() {
    let c = ctx();
    let (s, a) = secret_begin(&c, 16, 2 * PS);
    assert_eq!(s, SecretState::Finished);
    assert_eq!(a, SecretAction::Fail(vec![]));
}
