use memsec::{memcmp, memeq, memset, memzero};

fn usize_bytes(words: &[usize]) -> Vec<u8> {
    let mut out = Vec::new();
    for w in words {
        out.extend_from_slice(&w.to_ne_bytes());
    }
    out
}

fn bytes_usize(bytes: &[u8]) -> Vec<usize> {
    let w = std::mem::size_of::<usize>();
    bytes
        .chunks(w)
        .map(|c| {
            let mut a = [0u8; std::mem::size_of::<usize>()];
            a.copy_from_slice(c);
            usize::from_ne_bytes(a)
        })
        .collect()
}

#[test]
fn tests_memzero_test() {
    let w = std::mem::size_of::<usize>();
    let mut x = usize_bytes(&[1; 16]);
    let n = x.len();
    memzero(&mut x, n);
    assert_eq!(bytes_usize(&x), vec![0usize; 16]);
    x.clone_from_slice(&usize_bytes(&[1; 16]));
    assert_eq!(bytes_usize(&x), vec![1usize; 16]);
    memzero(&mut x[w..11 * w], 10 * w);
    assert_eq!(bytes_usize(&x), vec![1, 0, 0, 0, 0, 0, 0, 0, 0, 0, 0, 1, 1, 1, 1, 1]);
}

fn memeq_agrees(x: Vec<u8>, y: Vec<u8>) -> bool {
    let n = std::cmp::min(x.len(), y.len());
    memeq(&x, &y, n) == (x[..n] == y[..n])
}

#[test]
fn memeq_test() {
    quickcheck::quickcheck(memeq_agrees as fn(Vec<u8>, Vec<u8>) -> bool);
}

fn memcmp_agrees(x: Vec<u8>, y: Vec<u8>) -> bool {
    let n = std::cmp::min(x.len(), y.len());
    let ours = memcmp(&x, &y, n);
    let naive = x[..n].cmp(&y[..n]);
    (ours > 0) == (naive == std::cmp::Ordering::Greater)
        && (ours < 0) == (naive == std::cmp::Ordering::Less)
        && (ours == 0) == (naive == std::cmp::Ordering::Equal)
}

#[test]
fn memcmp_test() {
    quickcheck::quickcheck(memcmp_agrees as fn(Vec<u8>, Vec<u8>) -> bool);
}

#[test]
fn memcmp_exact_values() {
    assert_eq!(memcmp(&[1, 2, 3], &[1, 2, 4], 3), -1);
    assert_eq!(memcmp(&[1, 2, 5], &[1, 2, 4], 3), 1);
    assert_eq!(memcmp(&[1, 2, 3], &[1, 2, 3], 3), 0);
    assert_eq!(memcmp(&[0, 255], &[255, 0], 2), -1);
    assert_eq!(memcmp(&[255, 0], &[0, 255], 2), 1);
    // the first difference decides, not the largest one
    assert_eq!(memcmp(&[2, 0], &[1, 255], 2), 1);
}

#[test]
fn memcmp_ignores_bytes_past_len() {
    assert_eq!(memcmp(&[7, 1], &[7, 2], 1), 0);
    assert_eq!(memcmp(&[], &[], 0), 0);
}

#[test]
fn memeq_exact_values() {
    assert!(memeq(&[1, 2, 3], &[1, 2, 3], 3));
    assert!(!memeq(&[1, 2, 3], &[1, 2, 4], 3));
    assert!(!memeq(&[0, 2, 3], &[1, 2, 3], 3));
    assert!(memeq(&[1, 2, 3], &[1, 2, 4], 2));
    assert!(memeq(&[], &[], 0));
}

#[test]
fn memset_fills_prefix_only() {
    let mut x = [9u8; 8];
    memset(&mut x, 0x01, 5);
    assert_eq!(x, [1, 1, 1, 1, 1, 9, 9, 9]);
    memset(&mut x, 0xd0, 0);
    assert_eq!(x, [1, 1, 1, 1, 1, 9, 9, 9]);
}

#[test]
fn wiped_region_equals_zeroes() {
    let mut region = vec![0xabu8; 33];
    memzero(&mut region, 33);
    assert!(memeq(&region, &[0u8; 33], 33));
    assert_eq!(memcmp(&region, &[0u8; 33], 33), 0);
}
