use memsec::page::{get_page_aligned_addrs, AllocContext, CANARY_SIZE};
use memsec::mlock::lock_range;

#[test]
fn test_get_page_aligned_addrs_exact_page_boundary() {
    let (start_addr, end_addr) = get_page_aligned_addrs(0x1000, 0x1000, 0x1000);
    assert_eq!(start_addr, 0x1000);
    assert_eq!(end_addr, 0x2000);
}

#[test]
fn test_get_page_aligned_addrs_with_offset() {
    let (start_addr, end_addr) = get_page_aligned_addrs(0x1234, 0x1000, 0x1000);
    assert_eq!(start_addr, 0x1000);
    assert_eq!(end_addr, 0x3000);
}

#[test]
fn test_get_page_aligned_addrs_small_length() {
    let (start_addr, end_addr) = get_page_aligned_addrs(0x2000, 0x100, 0x1000);
    assert_eq!(start_addr, 0x2000);
    assert_eq!(end_addr, 0x3000);
}

#[test]
fn context_accepts_usual_page_sizes() {
    for ps in [16usize, 4096, 16384, 65536, 0x4000_0000, 1usize << 60] {
        let ctx = AllocContext::new(ps, [7; CANARY_SIZE]).unwrap();
        assert_eq!(ctx.page_size, ps);
        assert_eq!(ctx.page_mask, ps - 1);
        assert_eq!(ctx.canary, [7; CANARY_SIZE]);
    }
}

#[test]
fn context_refuses_unusable_page_sizes() {
    assert!(AllocContext::new(0, [0; CANARY_SIZE]).is_none());
    assert!(AllocContext::new(8, [0; CANARY_SIZE]).is_none());
    assert!(AllocContext::new(15, [0; CANARY_SIZE]).is_none());
    assert!(AllocContext::new(3000, [0; CANARY_SIZE]).is_none());
    assert!(AllocContext::new(1usize << 61, [0; CANARY_SIZE]).is_none());
    assert!(AllocContext::init(8).is_none());
}

#[test]
fn context_init_draws_a_random_canary() {
    let a = AllocContext::init(4096).unwrap();
    let b = AllocContext::init(4096).unwrap();
    assert_eq!(a.page_size, 4096);
    assert_eq!(a.page_mask, 4095);
    assert_ne!(a.canary, b.canary);
}

#[test]
fn page_round_rounds_up() {
    let ctx = AllocContext::new(4096, [0; CANARY_SIZE]).unwrap();
    assert_eq!(ctx.page_round(0), 0);
    assert_eq!(ctx.page_round(1), 4096);
    assert_eq!(ctx.page_round(4096), 4096);
    assert_eq!(ctx.page_round(4097), 8192);
}

#[test]
fn lock_range_widens_unaligned_subpage_range() {
    let ctx = AllocContext::new(4096, [0; CANARY_SIZE]).unwrap();
    assert_eq!(lock_range(&ctx, 0x1234, 16), Some((0x1000, 0x1000)));
    assert_eq!(lock_range(&ctx, 0x1ff8, 16), Some((0x1000, 0x2000)));
    assert_eq!(lock_range(&ctx, 0x2000, 0x1000), Some((0x2000, 0x1000)));
    assert_eq!(lock_range(&ctx, usize::MAX - 10, 4), None);
}
