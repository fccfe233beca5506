//! The SCALE byte encodings that the query protocol is built from.
use vstd::prelude::*;

verus! {

/// The `n` low-order bytes of `v`, least significant first.
pub open spec fn le_bytes(v: nat, n: nat) -> Seq<u8>
    decreases n,
{
    if n == 0 {
        Seq::empty()
    } else {
        seq![(v % 256) as u8] + le_bytes(v / 256, (n - 1) as nat)
    }
}

/// The value of a little-endian byte string.
pub open spec fn le_value(s: Seq<u8>) -> nat
    decreases s.len(),
{
    if s.len() == 0 {
        0
    } else {
        s[0] as nat + 256 * le_value(s.drop_first())
    }
}

/// `256` to the power `n`.
pub open spec fn pow256(n: nat) -> nat
    decreases n,
{
    if n == 0 {
        1
    } else {
        256 * pow256((n - 1) as nat)
    }
}

/// The SCALE compact encoding of a 32-bit length or count.
pub open spec fn compact(n: nat) -> Seq<u8> {
    if n < 0x40 {
        seq![(n * 4) as u8]
    } else if n < 0x4000 {
        le_bytes(n * 4 + 1, 2)
    } else if n < 0x4000_0000 {
        le_bytes(n * 4 + 2, 4)
    } else {
        seq![3u8] + le_bytes(n, 4)
    }
}

/// The SCALE encoding of a byte string: its compact length, then its bytes.
pub open spec fn encoded_bytes(b: Seq<u8>) -> Seq<u8> {
    compact(b.len()) + b
}

pub proof fn lemma_le_bytes_len(v: nat, n: nat)
    ensures
        le_bytes(v, n).len() == n,
    decreases n,
{
    if n > 0 {
        lemma_le_bytes_len(v / 256, (n - 1) as nat);
    }
}

proof fn lemma_pow256_pos(n: nat)
    ensures
        pow256(n) >= 1,
    decreases n,
{
    if n > 0 {
        lemma_pow256_pos((n - 1) as nat);
    }
}

/// Reading back `n` little-endian bytes gives the value modulo `256^n`.
pub proof fn lemma_le_value_le_bytes(v: nat, n: nat)
    requires
        v < pow256(n),
    ensures
        le_value(le_bytes(v, n)) == v,
    decreases n,
{
    if n > 0 {
        let s = le_bytes(v, n);
        assert(s.drop_first() =~= le_bytes(v / 256, (n - 1) as nat));
        assert(v / 256 < pow256((n - 1) as nat)) by (nonlinear_arith)
            requires
                v < pow256(n),
                pow256(n) == 256 * pow256((n - 1) as nat),
        ;
        lemma_le_value_le_bytes(v / 256, (n - 1) as nat);
        assert(v == 256 * (v / 256) + v % 256) by (nonlinear_arith);
    }
}

/// A little-endian byte string of length `n` holds a value below `256^n`.
pub proof fn lemma_le_value_bound(s: Seq<u8>)
    ensures
        le_value(s) < pow256(s.len()),
    decreases s.len(),
{
    if s.len() > 0 {
        lemma_le_value_bound(s.drop_first());
        assert(s[0] as nat + 256 * le_value(s.drop_first()) < 256 * pow256(s.drop_first().len()))
            by (nonlinear_arith)
            requires
                le_value(s.drop_first()) < pow256(s.drop_first().len()),
                s[0] < 256,
        ;
    }
}

/// Below `256^n`, the `n` little-endian bytes determine the value.
pub proof fn lemma_le_bytes_injective(v: nat, w: nat, n: nat)
    requires
        v < pow256(n),
        w < pow256(n),
        le_bytes(v, n) == le_bytes(w, n),
    ensures
        v == w,
    decreases n,
{
    if n == 0 {
    } else {
        let lv = le_bytes(v, n);
        let lw = le_bytes(w, n);
        assert(lv[0] == lw[0]);
        assert(lv.drop_first() =~= le_bytes(v / 256, (n - 1) as nat));
        assert(lw.drop_first() =~= le_bytes(w / 256, (n - 1) as nat));
        assert(v / 256 < pow256((n - 1) as nat)) by (nonlinear_arith)
            requires
                v < pow256(n),
                pow256(n) == 256 * pow256((n - 1) as nat),
        ;
        assert(w / 256 < pow256((n - 1) as nat)) by (nonlinear_arith)
            requires
                w < pow256(n),
                pow256(n) == 256 * pow256((n - 1) as nat),
        ;
        lemma_le_bytes_injective(v / 256, w / 256, (n - 1) as nat);
        assert(v % 256 == w % 256);
        assert(v == 256 * (v / 256) + v % 256) by (nonlinear_arith);
        assert(w == 256 * (w / 256) + w % 256) by (nonlinear_arith);
    }
}

/// The mode of the compact encoding of `n`, which its first byte carries in
/// its two low bits.
pub open spec fn compact_mode(n: nat) -> nat {
    if n < 0x40 {
        0
    } else if n < 0x4000 {
        1
    } else if n < 0x4000_0000 {
        2
    } else {
        3
    }
}

proof fn lemma_compact_shape(n: nat)
    requires
        n <= u32::MAX,
    ensures
        compact(n).len() >= 1,
        compact(n)[0] % 4 == compact_mode(n),
{
    if n < 0x40 {
        assert((n * 4) as u8 % 4 == 0) by (nonlinear_arith)
            requires
                n < 0x40,
        ;
    } else if n < 0x4000 {
        lemma_le_bytes_len(n * 4 + 1, 2);
        assert(((n * 4 + 1) % 256) as u8 % 4 == 1) by (nonlinear_arith)
            requires
                n < 0x4000,
        ;
    } else if n < 0x4000_0000 {
        lemma_le_bytes_len(n * 4 + 2, 4);
        assert(((n * 4 + 2) % 256) as u8 % 4 == 2) by (nonlinear_arith)
            requires
                n < 0x4000_0000,
        ;
    } else {
        lemma_le_bytes_len(n, 4);
    }
}

pub proof fn lemma_pow256_small()
    ensures
        pow256(2) == 0x1_0000,
        pow256(4) == 0x1_0000_0000,
        pow256(8) == 0x1_0000_0000_0000_0000,
{
    assert(pow256(0) == 1);
    assert(pow256(1) == 256);
    assert(pow256(2) == 0x1_0000);
    assert(pow256(3) == 0x100_0000);
    assert(pow256(4) == 0x1_0000_0000);
    assert(pow256(5) == 0x100_0000_0000);
    assert(pow256(6) == 0x1_0000_0000_0000);
    assert(pow256(7) == 0x100_0000_0000_0000);
    assert(pow256(8) == 0x1_0000_0000_0000_0000);
}

/// Two byte strings, each made of a prefix and a rest, where the prefixes
/// have one length: equal strings have equal prefixes and equal rests.
pub proof fn lemma_split_equal(x: Seq<u8>, r1: Seq<u8>, y: Seq<u8>, r2: Seq<u8>)
    requires
        x + r1 == y + r2,
        x.len() == y.len(),
    ensures
        x == y,
        r1 == r2,
{
    assert(x =~= (x + r1).subrange(0, x.len() as int));
    assert(y =~= (y + r2).subrange(0, y.len() as int));
    assert(r1 =~= (x + r1).subrange(x.len() as int, (x + r1).len() as int));
    assert(r2 =~= (y + r2).subrange(y.len() as int, (y + r2).len() as int));
}

/// The compact encoding can be read back from the front of any byte string
/// it begins: no two lengths share an encoding, and none is a prefix of another.
pub proof fn lemma_compact_prefix_free(n: nat, m: nat, r1: Seq<u8>, r2: Seq<u8>)
    requires
        n <= u32::MAX,
        m <= u32::MAX,
        compact(n) + r1 == compact(m) + r2,
    ensures
        n == m,
        r1 == r2,
{
    lemma_compact_shape(n);
    lemma_compact_shape(m);
    lemma_pow256_small();
    assert(compact(n)[0] == (compact(n) + r1)[0]);
    assert(compact(m)[0] == (compact(m) + r2)[0]);
    assert(compact_mode(n) == compact_mode(m));
    if n < 0x40 {
        assert(compact(n) + r1 =~= seq![(n * 4) as u8] + r1);
        assert(compact(m) + r2 =~= seq![(m * 4) as u8] + r2);
        lemma_split_equal(compact(n), r1, compact(m), r2);
        assert(n == m) by (nonlinear_arith)
            requires
                n < 0x40,
                m < 0x40,
                (n * 4) as u8 == (m * 4) as u8,
        ;
    } else if n < 0x4000 {
        lemma_le_bytes_len(n * 4 + 1, 2);
        lemma_le_bytes_len(m * 4 + 1, 2);
        lemma_split_equal(compact(n), r1, compact(m), r2);
        lemma_le_bytes_injective(n * 4 + 1, m * 4 + 1, 2);
    } else if n < 0x4000_0000 {
        lemma_le_bytes_len(n * 4 + 2, 4);
        lemma_le_bytes_len(m * 4 + 2, 4);
        lemma_split_equal(compact(n), r1, compact(m), r2);
        lemma_le_bytes_injective(n * 4 + 2, m * 4 + 2, 4);
    } else {
        lemma_le_bytes_len(n, 4);
        lemma_le_bytes_len(m, 4);
        lemma_split_equal(compact(n), r1, compact(m), r2);
        assert(compact(n).drop_first() =~= le_bytes(n, 4));
        assert(compact(m).drop_first() =~= le_bytes(m, 4));
        lemma_le_bytes_injective(n, m, 4);
    }
}

/// The encoding of a byte string can be read back from the front of any
/// byte string it begins.
pub proof fn lemma_encoded_bytes_prefix_free(a: Seq<u8>, b: Seq<u8>, r1: Seq<u8>, r2: Seq<u8>)
    requires
        a.len() <= u32::MAX,
        b.len() <= u32::MAX,
        encoded_bytes(a) + r1 == encoded_bytes(b) + r2,
    ensures
        a == b,
        r1 == r2,
{
    assert(encoded_bytes(a) + r1 =~= compact(a.len()) + (a + r1));
    assert(encoded_bytes(b) + r2 =~= compact(b.len()) + (b + r2));
    lemma_compact_prefix_free(a.len(), b.len(), a + r1, b + r2);
    lemma_split_equal(a, r1, b, r2);
}

/// `parity_scale_codec`'s `Encode` for `u32`: the four little-endian bytes.
#[verifier::external_body]
pub(crate) fn scale_u32(v: u32) -> (r: Vec<u8>)
    ensures
        r@ == le_bytes(v as nat, 4),
{
    parity_scale_codec::Encode::encode(&v)
}

/// `parity_scale_codec`'s `Encode` for `u64`: the eight little-endian bytes.
#[verifier::external_body]
pub(crate) fn scale_u64(v: u64) -> (r: Vec<u8>)
    ensures
        r@ == le_bytes(v as nat, 8),
{
    parity_scale_codec::Encode::encode(&v)
}

/// `parity_scale_codec`'s `Encode` for `Compact<u32>`: one, two or four bytes
/// holding the value shifted left by two with the mode in the low bits, or
/// the mode byte `3` followed by the four bytes of the value.
#[verifier::external_body]
pub(crate) fn scale_compact(v: u32) -> (r: Vec<u8>)
    ensures
        r@ == compact(v as nat),
{
    parity_scale_codec::Encode::encode(&parity_scale_codec::Compact(v))
}

/// `parity_scale_codec`'s `Encode` for a byte slice: its compact length, then
/// the bytes. The codec panics on more than `u32::MAX` elements.
#[verifier::external_body]
pub(crate) fn scale_bytes(b: &[u8]) -> (r: Vec<u8>)
    requires
        b@.len() <= u32::MAX,
    ensures
        r@ == encoded_bytes(b@),
{
    parity_scale_codec::Encode::encode(b)
}

/// Appends the compact encoding of a collection's length to `out`.
pub fn push_compact_len(out: &mut Vec<u8>, n: usize)
    requires
        n <= u32::MAX,
    ensures
        final(out)@ == old(out)@ + compact(n as nat),
{
    let mut c = scale_compact(n as u32);
    out.append(&mut c);
}

/// Appends the SCALE encoding of a byte string to `out`.
pub fn push_encoded_bytes(out: &mut Vec<u8>, b: &[u8])
    requires
        b@.len() <= u32::MAX,
    ensures
        final(out)@ == old(out)@ + encoded_bytes(b@),
{
    let mut e = scale_bytes(b);
    out.append(&mut e);
}

/// Reads the eight little-endian bytes at `off` as a `u64`.
pub fn read_u64_le(data: &[u8], off: usize) -> (r: u64)
    requires
        off + 8 <= data@.len(),
    ensures
        r as nat == le_value(data@.subrange(off as int, off + 8)),
{
    let mut v: u64 = 0;
    let mut k: usize = 8;
    proof {
        lemma_pow256_small();
    }
    while k > 0
        invariant
            k <= 8,
            off + 8 <= data.len(),
            pow256(8) == 0x1_0000_0000_0000_0000,
            v as nat == le_value(data@.subrange(off + k, off + 8)),
        decreases k,
    {
        let ghost tail = data@.subrange(off + k, off + 8);
        let ghost whole = data@.subrange(off + k - 1, off + 8);
        assert(whole.drop_first() =~= tail);
        proof {
            lemma_le_value_bound(whole);
            lemma_pow_mono((9 - k) as nat);
        }
        let b = data[off + (k - 1)];
        assert(b as nat + 256 * v as nat == le_value(whole));
        assert(le_value(whole) < 0x1_0000_0000_0000_0000);
        v = (b as u64) + 256 * v;
        k = k - 1;
    }
    v
}

proof fn lemma_pow_mono(n: nat)
    requires
        n <= 8,
    ensures
        pow256(n) <= pow256(8),
    decreases 8 - n,
{
    if n < 8 {
        lemma_pow_mono(n + 1);
        lemma_pow256_pos(n);
    }
}

} // verus!
