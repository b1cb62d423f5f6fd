//! Constant-time byte primitives.
//!
//! None of these exits early on secret data: every byte in range is read or
//! written, and values pass through an optimisation barrier so that the
//! compiler cannot shortcut the scan or drop a wipe as a dead store.

use vstd::prelude::*;

verus! {

/// The first `len` bytes of `a` and `b` agree.
pub open spec fn bytes_equal(a: Seq<u8>, b: Seq<u8>, len: int) -> bool {
    forall|i: int| 0 <= i < len ==> a[i] == b[i]
}

/// Difference of the bytes at the first position in `from..len` where `a`
/// and `b` differ, or zero where they agree on the whole range.
pub open spec fn first_difference(a: Seq<u8>, b: Seq<u8>, from: int, len: int) -> int
    decreases len - from,
{
    if from >= len {
        0
    } else if a[from] != b[from] {
        a[from] as int - b[from] as int
    } else {
        first_difference(a, b, from + 1, len)
    }
}

pub open spec fn sign(x: int) -> int {
    if x > 0 {
        1
    } else if x < 0 {
        -1
    } else {
        0
    }
}

/// Lexicographic comparison of the first `len` bytes: -1, 0 or 1.
pub open spec fn lex_compare(a: Seq<u8>, b: Seq<u8>, len: int) -> int {
    sign(first_difference(a, b, 0, len))
}

/// `s` with its first `n` bytes replaced by `c`.
pub open spec fn filled(s: Seq<u8>, c: u8, n: int) -> Seq<u8> {
    Seq::new(s.len(), |i: int| if i < n { c } else { s[i] })
}

/// Relies on std::hint::black_box: an identity function that the optimiser
/// must treat as reading and possibly using its argument.
#[verifier::external_body]
fn opaque<T>(v: T) -> (r: T)
    ensures
        r == v,
{
    std::hint::black_box(v)
}

proof fn lemma_accumulate(acc: u8, x: u8, y: u8)
    ensures
        ((acc | (x ^ y)) == 0) == (acc == 0 && x == y),
{
    assert(((acc | (x ^ y)) == 0) == (acc == 0 && x == y)) by (bit_vector);
}

/// Constant-time equality of the first `len` bytes of `b1` and `b2`.
pub fn memeq(b1: &[u8], b2: &[u8], len: usize) -> (r: bool)
    requires
        len <= b1@.len(),
        len <= b2@.len(),
    ensures
        r == bytes_equal(b1@, b2@, len as int),
{
    let mut acc: u8 = 0;
    let mut i: usize = 0;
    while i < len
        invariant
            i <= len,
            len <= b1@.len(),
            len <= b2@.len(),
            (acc == 0) == bytes_equal(b1@, b2@, i as int),
        decreases len - i,
    {
        let x: u8 = opaque(b1[i]);
        let y: u8 = opaque(b2[i]);
        proof {
            lemma_accumulate(acc, x, y);
            if acc == 0 && x == y {
                assert(bytes_equal(b1@, b2@, i + 1));
            } else if acc != 0 {
                assert(!bytes_equal(b1@, b2@, i + 1));
            } else {
                assert(b1@[i as int] != b2@[i as int]);
            }
        }
        acc = acc | (x ^ y);
        i = i + 1;
    }
    opaque(acc) == 0
}

proof fn lemma_select(res: i32, diff: i32, dm1: i32)
    requires
        -255 <= res <= 255,
        -255 <= diff <= 255,
        dm1 == diff - 1,
    ensures
        diff == 0 ==> ((res & ((dm1 & !diff) >> 8i32)) | diff) == res,
        diff != 0 ==> ((res & ((dm1 & !diff) >> 8i32)) | diff) == diff,
{
    assert(diff == 0 ==> ((res & ((dm1 & !diff) >> 8i32)) | diff) == res) by (bit_vector)
        requires
            dm1 == diff - 1,
    ;
    assert(diff != 0 ==> ((res & ((dm1 & !diff) >> 8i32)) | diff) == diff) by (bit_vector)
        requires
            -255 <= diff <= 255,
            dm1 == diff - 1,
    ;
}

proof fn lemma_sign(res: i32, rm1: i32)
    requires
        -255 <= res <= 255,
        rm1 == res - 1,
    ensures
        (rm1 >> 8i32) + (res >> 8i32) + 1 == sign(res as int),
{
    assert(res > 0 ==> (rm1 >> 8i32) == 0 && (res >> 8i32) == 0) by (bit_vector)
        requires
            -255 <= res <= 255,
            rm1 == res - 1,
    ;
    assert(res == 0 ==> (rm1 >> 8i32) == -1 && (res >> 8i32) == 0) by (bit_vector)
        requires
            rm1 == res - 1,
    ;
    assert(res < 0 ==> (rm1 >> 8i32) == -1 && (res >> 8i32) == -1) by (bit_vector)
        requires
            -255 <= res <= 255,
            rm1 == res - 1,
    ;
}

/// Constant-time three-way comparison of the first `len` bytes: the sign of
/// the difference at the first differing position (-1, 0 or 1).
pub fn memcmp(b1: &[u8], b2: &[u8], len: usize) -> (r: i32)
    requires
        len <= b1@.len(),
        len <= b2@.len(),
    ensures
        r as int == lex_compare(b1@, b2@, len as int),
{
    let mut res: i32 = 0;
    let mut i: usize = len;
    while i > 0
        invariant
            i <= len,
            len <= b1@.len(),
            len <= b2@.len(),
            -255 <= res <= 255,
            res as int == first_difference(b1@, b2@, i as int, len as int),
        decreases i,
    {
        i = i - 1;
        let diff: i32 = opaque(b1[i]) as i32 - opaque(b2[i]) as i32;
        let dm1: i32 = diff - 1;
        proof {
            lemma_select(res, diff, dm1);
        }
        res = (res & ((dm1 & !diff) >> 8i32)) | diff;
    }
    let res: i32 = opaque(res);
    let rm1: i32 = res - 1;
    proof {
        lemma_sign(res, rm1);
    }
    (rm1 >> 8i32) + (res >> 8i32) + 1
}

/// Writes `c` into each of the first `n` bytes of `s`, through a barrier
/// that keeps the writes from being elided.
pub fn memset(s: &mut [u8], c: u8, n: usize)
    requires
        n <= old(s)@.len(),
    ensures
        final(s)@ == filled(old(s)@, c, n as int),
{
    let mut i: usize = 0;
    while i < n
        invariant
            i <= n,
            n <= s@.len(),
            s@.len() == old(s)@.len(),
            s@ == filled(old(s)@, c, i as int),
        decreases n - i,
    {
        s[i] = opaque(c);
        i = i + 1;
        assert(s@ =~= filled(old(s)@, c, i as int));
    }
    assert(s@ =~= filled(old(s)@, c, n as int));
    opaque(&*s);
}

/// Wipes the first `n` bytes of `dest`.
pub fn memzero(dest: &mut [u8], n: usize)
    requires
        n <= old(dest)@.len(),
    ensures
        final(dest)@ == filled(old(dest)@, 0u8, n as int),
{
    memset(dest, 0u8, n);
}

/// `a` comes before `b` in the first `len` bytes: they agree up to some
/// position where `a` holds the smaller byte.
pub open spec fn lex_less(a: Seq<u8>, b: Seq<u8>, len: int) -> bool {
    exists|i: int| 0 <= i < len && bytes_equal(a, b, i) && #[trigger] a[i] < b[i]
}

spec fn agree_on(a: Seq<u8>, b: Seq<u8>, lo: int, hi: int) -> bool {
    forall|j: int| lo <= j < hi ==> a[j] == b[j]
}

spec fn less_at(a: Seq<u8>, b: Seq<u8>, lo: int, i: int) -> bool {
    lo <= i && agree_on(a, b, lo, i) && a[i] < b[i]
}

proof fn lemma_first_difference(a: Seq<u8>, b: Seq<u8>, from: int, len: int)
    requires
        0 <= from <= len,
        len <= a.len(),
        len <= b.len(),
    ensures
        (first_difference(a, b, from, len) == 0) == agree_on(a, b, from, len),
        (first_difference(a, b, from, len) < 0) == (exists|i: int|
            i < len && #[trigger] less_at(a, b, from, i)),
        (first_difference(a, b, from, len) > 0) == (exists|i: int|
            i < len && #[trigger] less_at(b, a, from, i)),
    decreases len - from,
{
    if from < len {
        lemma_first_difference(a, b, from + 1, len);
        if a[from] != b[from] {
            assert(!agree_on(a, b, from, len));
            assert(forall|i: int| from < i ==> !agree_on(a, b, from, i));
            assert(forall|i: int| from < i ==> !agree_on(b, a, from, i));
            if a[from] < b[from] {
                assert(less_at(a, b, from, from));
                assert(forall|i: int| !less_at(b, a, from, i));
            } else {
                assert(less_at(b, a, from, from));
                assert(forall|i: int| !less_at(a, b, from, i));
            }
        } else {
            assert(agree_on(a, b, from, len) == agree_on(a, b, from + 1, len));
            assert forall|i: int| less_at(a, b, from, i) == less_at(a, b, from + 1, i) by {
                if less_at(a, b, from + 1, i) {
                    assert(agree_on(a, b, from, i));
                }
            }
            assert forall|i: int| less_at(b, a, from, i) == less_at(b, a, from + 1, i) by {
                if less_at(b, a, from + 1, i) {
                    assert(agree_on(b, a, from, i));
                }
            }
            if exists|i: int| i < len && #[trigger] less_at(a, b, from + 1, i) {
                let i = choose|i: int| i < len && #[trigger] less_at(a, b, from + 1, i);
                assert(less_at(a, b, from, i));
            }
            if exists|i: int| i < len && #[trigger] less_at(b, a, from + 1, i) {
                let i = choose|i: int| i < len && #[trigger] less_at(b, a, from + 1, i);
                assert(less_at(b, a, from, i));
            }
        }
    }
}

/// The constant-time primitives agree with the naive definitions: the
/// comparison is zero exactly where the equality holds, negative exactly
/// where `a` comes first in lexicographic order, and positive exactly where
/// `b` does.
pub proof fn lemma_compare_agrees(a: Seq<u8>, b: Seq<u8>, len: int)
    requires
        0 <= len,
        len <= a.len(),
        len <= b.len(),
    ensures
        (lex_compare(a, b, len) == 0) == bytes_equal(a, b, len),
        (lex_compare(a, b, len) == -1) == lex_less(a, b, len),
        (lex_compare(a, b, len) == 1) == lex_less(b, a, len),
{
    lemma_first_difference(a, b, 0, len);
    if lex_less(a, b, len) {
        let i = choose|i: int| 0 <= i < len && bytes_equal(a, b, i) && #[trigger] a[i] < b[i];
        assert(less_at(a, b, 0, i));
    }
    if lex_less(b, a, len) {
        let i = choose|i: int| 0 <= i < len && bytes_equal(b, a, i) && #[trigger] b[i] < a[i];
        assert(less_at(b, a, 0, i));
    }
    if first_difference(a, b, 0, len) < 0 {
        let i = choose|i: int| i < len && #[trigger] less_at(a, b, 0, i);
        assert(bytes_equal(a, b, i) && a[i] < b[i]);
    }
    if first_difference(a, b, 0, len) > 0 {
        let i = choose|i: int| i < len && #[trigger] less_at(b, a, 0, i);
        assert(bytes_equal(b, a, i) && b[i] < a[i]);
    }
}

/// A wiped range reads back as all zeroes: after `memzero(s, n)`,
/// `memeq` of `s` against `n` zero bytes holds.
pub proof fn lemma_wiped_reads_zero(before: Seq<u8>, n: int)
    requires
        0 <= n <= before.len(),
    ensures
        bytes_equal(filled(before, 0u8, n), Seq::new(n as nat, |i: int| 0u8), n),
{
}

} // verus!
