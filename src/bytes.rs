//! Byte-sequence helpers shared by the protocol reassemblers.
use vstd::prelude::*;

verus! {

/// Most bytes held per buffer of one connection.
pub const MAX_BUF: usize = 524288;

/// Little-endian value of a byte sequence.
pub open spec fn le_value(s: Seq<u8>) -> nat
    decreases s.len(),
{
    if s.len() == 0 {
        0
    } else {
        s[0] as nat + 256 * le_value(s.drop_first())
    }
}

/// `256` raised to `n`.
pub open spec fn pow256(n: nat) -> nat
    decreases n,
{
    if n == 0 {
        1
    } else {
        256 * pow256((n - 1) as nat)
    }
}

pub proof fn lemma_le_value_bound(s: Seq<u8>)
    ensures
        le_value(s) < pow256(s.len()),
    decreases s.len(),
{
    if s.len() > 0 {
        lemma_le_value_bound(s.drop_first());
        let r = le_value(s.drop_first());
        let p = pow256((s.len() - 1) as nat);
        assert(s[0] as nat + 256 * r < 256 * p) by (nonlinear_arith)
            requires
                r < p,
                s[0] as nat <= 255,
        ;
    }
}

proof fn lemma_pow256_small(n: nat)
    requires
        n <= 8,
    ensures
        pow256(n) <= 0x1_0000_0000_0000_0000,
{
    reveal_with_fuel(pow256, 9);
}

/// The bytes of `s` from `k` on, or nothing when `k` is past the end.
pub open spec fn tail(s: Seq<u8>, k: int) -> Seq<u8> {
    if k <= s.len() {
        s.subrange(k, s.len() as int)
    } else {
        Seq::empty()
    }
}

/// What a bounded buffer holds after `data` arrives: bytes are taken while
/// the buffer is below `cap`, and the rest are dropped.
pub open spec fn capped_append(buf: Seq<u8>, data: Seq<u8>, cap: nat) -> Seq<u8> {
    if buf.len() >= cap {
        buf
    } else if buf.len() + data.len() <= cap {
        buf + data
    } else {
        buf + data.take(cap - buf.len())
    }
}

pub proof fn lemma_capped_len(b: Seq<u8>, data: Seq<u8>, cap: nat)
    requires
        b.len() <= cap,
    ensures
        capped_append(b, data, cap).len() <= cap,
{
}

/// Reads `n` bytes (at most eight) at `start` as a little-endian integer.
pub fn read_le(buf: &[u8], start: usize, n: usize) -> (r: u64)
    requires
        start + n <= buf@.len(),
        n <= 8,
    ensures
        r as nat == le_value(buf@.subrange(start as int, start + n)),
{
    let len = buf.len();
    let mut v: u64 = 0;
    let mut i: usize = n;
    while i > 0
        invariant
            start + n <= buf@.len(),
            len == buf@.len(),
            n <= 8,
            i <= n,
            v as nat == le_value(buf@.subrange(start + i, start + n)),
        decreases i,
    {
        let ghost s = buf@.subrange(start + i - 1, start + n);
        proof {
            assert(s.drop_first() =~= buf@.subrange(start + i, start + n));
            lemma_le_value_bound(s.drop_first());
            lemma_pow256_small(s.drop_first().len());
            assert(s.drop_first().len() <= 7);
            reveal_with_fuel(pow256, 8);
            assert(pow256(s.drop_first().len()) <= pow256(7)) by {
                lemma_pow256_mono(s.drop_first().len(), 7);
            }
        }
        let b = buf[start + (i - 1)];
        v = b as u64 + v * 256;
        i = i - 1;
    }
    v
}

proof fn lemma_pow256_mono(a: nat, b: nat)
    requires
        a <= b,
    ensures
        pow256(a) <= pow256(b),
    decreases b,
{
    if a < b {
        lemma_pow256_mono(a, (b - 1) as nat);
    }
}

/// Appends all of `src` to `dst`.
pub fn append_bytes(dst: &mut Vec<u8>, src: &[u8])
    ensures
        final(dst)@ == old(dst)@ + src@,
{
    let ghost start = dst@;
    let mut i: usize = 0;
    while i < src.len()
        invariant
            i <= src@.len(),
            dst@ == start + src@.take(i as int),
        decreases src@.len() - i,
    {
        dst.push(src[i]);
        i = i + 1;
        proof {
            assert(src@.take(i as int) =~= src@.take(i - 1) + seq![src@[i - 1]]);
        }
    }
    proof {
        assert(src@.take(src@.len() as int) =~= src@);
    }
}

/// Appends the bytes of `src` in `[from, to)` to `dst`.
pub fn append_range(dst: &mut Vec<u8>, src: &[u8], from: usize, to: usize)
    requires
        from <= to <= src@.len(),
    ensures
        final(dst)@ == old(dst)@ + src@.subrange(from as int, to as int),
{
    let ghost start = dst@;
    let mut i: usize = from;
    while i < to
        invariant
            from <= i <= to <= src@.len(),
            dst@ == start + src@.subrange(from as int, i as int),
        decreases to - i,
    {
        dst.push(src[i]);
        i = i + 1;
        proof {
            assert(src@.subrange(from as int, i as int) =~= src@.subrange(from as int, i - 1)
                + seq![src@[i - 1]]);
        }
    }
}

/// Copies the bytes of `src` in `[from, to)` into a new vector.
pub fn copy_range(src: &[u8], from: usize, to: usize) -> (r: Vec<u8>)
    requires
        from <= to <= src@.len(),
    ensures
        r@ == src@.subrange(from as int, to as int),
{
    let mut r: Vec<u8> = Vec::new();
    append_range(&mut r, src, from, to);
    proof {
        assert(Seq::<u8>::empty() + src@.subrange(from as int, to as int) =~= src@.subrange(
            from as int,
            to as int,
        ));
    }
    r
}

/// Appends `data` to a buffer bounded by `cap`, dropping what does not fit.
pub fn append_capped(buf: &mut Vec<u8>, data: &[u8], cap: usize)
    ensures
        final(buf)@ == capped_append(old(buf)@, data@, cap as nat),
{
    if buf.len() < cap {
        let room = cap - buf.len();
        if data.len() <= room {
            append_bytes(buf, data);
        } else {
            append_range(buf, data, 0, room);
            proof {
                assert(data@.subrange(0, room as int) =~= data@.take(room as int));
            }
        }
    }
}

/// Removes the first `n` bytes of `buf`.
pub fn drop_front(buf: &mut Vec<u8>, n: usize)
    requires
        n <= old(buf)@.len(),
    ensures
        final(buf)@ == old(buf)@.subrange(n as int, old(buf)@.len() as int),
{
    let rest = copy_range(buf.as_slice(), n, buf.len());
    *buf = rest;
}

/// Whether `data` begins with `prefix`.
pub fn starts_with(data: &[u8], prefix: &[u8]) -> (r: bool)
    ensures
        r == (prefix@.len() <= data@.len() && data@.take(prefix@.len() as int) == prefix@),
{
    if prefix.len() > data.len() {
        return false;
    }
    let mut i: usize = 0;
    while i < prefix.len()
        invariant
            prefix@.len() <= data@.len(),
            i <= prefix@.len(),
            forall|j: int| 0 <= j < i ==> data@[j] == prefix@[j],
        decreases prefix@.len() - i,
    {
        if data[i] != prefix[i] {
            proof {
                assert(data@.take(prefix@.len() as int)[i as int] != prefix@[i as int]);
            }
            return false;
        }
        i = i + 1;
    }
    proof {
        assert(data@.take(prefix@.len() as int) =~= prefix@);
    }
    true
}

/// Whether two byte sequences are equal.
pub fn bytes_eq(a: &[u8], b: &[u8]) -> (r: bool)
    ensures
        r == (a@ == b@),
{
    if a.len() != b.len() {
        return false;
    }
    let r = starts_with(a, b);
    proof {
        assert(a@.take(b@.len() as int) =~= a@);
    }
    r
}

} // verus!
