//! Byte arrays of a fixed size: copying them from slices, and comparing them
//! in a time that does not depend on what they hold.

use vstd::prelude::*;

verus! {

/// Copies `bytes` into an array of `N` bytes, if there are exactly `N`.
pub fn array_from_slice<const N: usize>(bytes: &[u8]) -> (array: Option<[u8; N]>)
    ensures
        array is Some <==> bytes@.len() == N,
        array matches Some(a) ==> a@ == bytes@,
{
    if bytes.len() != N {
        return None;
    }
    let mut out = [0u8; N];
    let mut i: usize = 0;
    while i < N
        invariant
            i <= N,
            bytes@.len() == N,
            forall|j: int| 0 <= j < i ==> out@[j] == bytes@[j],
        decreases N - i,
    {
        out[i] = bytes[i];
        i += 1;
    }
    assert(out@ =~= bytes@);
    Some(out)
}

/// Whether two byte arrays of one size hold the same bytes.
///
/// Every byte pair is visited whatever the contents are: the differences are
/// folded into one accumulator and only that accumulator is tested, so the
/// running time does not depend on where the arrays first differ.
pub fn bytes_equal<const N: usize>(a: &[u8; N], b: &[u8; N]) -> (same: bool)
    ensures
        same == (a@ == b@),
{
    let mut diff: u8 = 0;
    let mut i: usize = 0;
    assert(a@.take(0) =~= b@.take(0));
    while i < N
        invariant
            i <= N,
            diff == 0 <==> a@.take(i as int) == b@.take(i as int),
        decreases N - i,
    {
        let x: u8 = a[i];
        let y: u8 = b[i];
        let next: u8 = diff | (x ^ y);
        proof {
            assert(next == 0 <==> (diff == 0 && x == y)) by (bit_vector)
                requires
                    next == diff | (x ^ y),
            ;
            let k = i as int;
            assert(a@.take(k + 1) == a@.take(k).push(a@[k]));
            assert(b@.take(k + 1) == b@.take(k).push(b@[k]));
            if a@.take(k + 1) == b@.take(k + 1) {
                assert(a@.take(k + 1).drop_last() == a@.take(k));
                assert(b@.take(k + 1).drop_last() == b@.take(k));
                assert(a@.take(k + 1).last() == x);
                assert(b@.take(k + 1).last() == y);
            }
        }
        diff = next;
        i += 1;
    }
    proof {
        assert(a@.take(N as int) == a@);
        assert(b@.take(N as int) == b@);
    }
    diff == 0
}

/// How `a` stands to `b` in the order of the dictionary, for two byte
/// strings of one length: `-1` where `a` comes first, `1` where `b` comes
/// first, `0` where they are equal. The first position at which they differ
/// decides.
pub open spec fn lex_sign(a: Seq<u8>, b: Seq<u8>) -> int
    decreases a.len(),
{
    if a.len() == 0 || a.len() != b.len() {
        0
    } else {
        let before = lex_sign(a.drop_last(), b.drop_last());
        if before != 0 {
            before
        } else if a.last() < b.last() {
            -1
        } else if a.last() > b.last() {
            1
        } else {
            0
        }
    }
}

/// Two byte strings of one length stand equal in the order exactly when they
/// are equal.
pub proof fn lemma_lex_sign_zero(a: Seq<u8>, b: Seq<u8>)
    requires
        a.len() == b.len(),
    ensures
        lex_sign(a, b) == 0 <==> a == b,
        -1 <= lex_sign(a, b) <= 1,
    decreases a.len(),
{
    if a.len() == 0 {
        assert(a =~= b);
    } else {
        lemma_lex_sign_zero(a.drop_last(), b.drop_last());
        if a.drop_last() == b.drop_last() && a.last() == b.last() {
            assert(a =~= a.drop_last().push(a.last()));
            assert(b =~= b.drop_last().push(b.last()));
        }
    }
}

/// How `a` stands to `b` in the order of the dictionary: see [`lex_sign`].
///
/// Every byte pair is visited and no step depends on a comparison's outcome:
/// two flags are carried along, one that says that no difference was met so
/// far and one that says that the first difference met had the larger byte
/// in `a`, and both are updated by arithmetic alone.
pub fn bytes_order<const N: usize>(a: &[u8; N], b: &[u8; N]) -> (sign: i8)
    ensures
        sign == lex_sign(a@, b@),
{
    let mut greater: u16 = 0;
    let mut equal: u16 = 1;
    let mut i: usize = 0;
    assert(a@.take(0).len() == 0);
    while i < N
        invariant
            i <= N,
            greater <= 1,
            equal <= 1,
            equal == 1 <==> lex_sign(a@.take(i as int), b@.take(i as int)) == 0,
            greater == 1 <==> lex_sign(a@.take(i as int), b@.take(i as int)) == 1,
        decreases N - i,
    {
        let x: u16 = a[i] as u16;
        let y: u16 = b[i] as u16;
        let lifted: u16 = y + 256 - x;
        let mixed: u16 = x ^ y;
        proof {
            assert(mixed < 256 && (mixed == 0 <==> x == y)) by (bit_vector)
                requires
                    x < 256,
                    y < 256,
                    mixed == x ^ y,
            ;
        }
        let padded: u16 = mixed + 255;
        let above: u16 = (lifted >> 8) ^ 1;
        let same: u16 = (padded >> 8) ^ 1;
        let next_greater: u16 = greater | (above & equal);
        let next_equal: u16 = equal & same;
        proof {
            assert(above <= 1 && (above == 1 <==> lifted < 256)) by (bit_vector)
                requires
                    lifted < 512,
                    above == (lifted >> 8) ^ 1,
            ;
            assert(same <= 1 && (same == 1 <==> padded < 256)) by (bit_vector)
                requires
                    padded < 512,
                    same == (padded >> 8) ^ 1,
            ;
            assert(next_greater <= 1 && (next_greater == 1 <==> (greater == 1 || (above == 1
                && equal == 1)))) by (bit_vector)
                requires
                    greater <= 1,
                    above <= 1,
                    equal <= 1,
                    next_greater == greater | (above & equal),
            ;
            assert(next_equal <= 1 && (next_equal == 1 <==> (equal == 1 && same == 1)))
                by (bit_vector)
                requires
                    equal <= 1,
                    same <= 1,
                    next_equal == equal & same,
            ;
            let k = i as int;
            assert(a@.take(k + 1).drop_last() =~= a@.take(k));
            assert(b@.take(k + 1).drop_last() =~= b@.take(k));
            assert(a@.take(k + 1).last() == a@[k]);
            assert(b@.take(k + 1).last() == b@[k]);
            lemma_lex_sign_zero(a@.take(k), b@.take(k));
        }
        greater = next_greater;
        equal = next_equal;
        i += 1;
    }
    proof {
        assert(a@.take(N as int) =~= a@);
        assert(b@.take(N as int) =~= b@);
        lemma_lex_sign_zero(a@, b@);
    }
    let flags: u16 = greater + greater + equal;
    flags as i8 - 1
}

} // verus!
