use vstd::prelude::*;

verus! {

/// `256` raised to `n`.
pub open spec fn pow256(n: nat) -> nat
    decreases n,
{
    if n == 0 {
        1
    } else {
        256 * pow256((n - 1) as nat)
    }
}

/// The little-endian unsigned value of a byte sequence.
pub open spec fn le_value(s: Seq<u8>) -> nat
    decreases s.len(),
{
    if s.len() == 0 {
        0
    } else {
        s[0] as nat + 256 * le_value(s.drop_first())
    }
}

/// The `n` low-order bytes of `v`, least significant first.
pub open spec fn le_bytes(v: nat, n: nat) -> Seq<u8>
    decreases n,
{
    if n == 0 {
        Seq::empty()
    } else {
        seq![(v % 256) as u8] + le_bytes(v / 256, (n - 1) as nat)
    }
}

pub proof fn lemma_pow256_pos(n: nat)
    ensures
        pow256(n) >= 1,
    decreases n,
{
    if n > 0 {
        lemma_pow256_pos((n - 1) as nat);
    }
}

pub proof fn lemma_pow256_8()
    ensures
        pow256(4) == 0x1_0000_0000,
        pow256(8) == 0x1_0000_0000_0000_0000,
{
    reveal_with_fuel(pow256, 9);
}

pub proof fn lemma_le_value_bound(s: Seq<u8>)
    ensures
        le_value(s) < pow256(s.len()),
    decreases s.len(),
{
    if s.len() > 0 {
        lemma_le_value_bound(s.drop_first());
    }
}

pub proof fn lemma_le_bytes_len(v: nat, n: nat)
    ensures
        le_bytes(v, n).len() == n,
    decreases n,
{
    if n > 0 {
        lemma_le_bytes_len(v / 256, (n - 1) as nat);
    }
}

/// Reads the little-endian value of `s[off..off + n]`.
pub fn read_le(s: &Vec<u8>, off: usize, n: usize) -> (r: u64)
    requires
        off + n <= s@.len(),
        n <= 8,
    ensures
        r as nat == le_value(s@.subrange(off as int, off + n)),
{
    let len = s.len();
    let mut v: u64 = 0;
    let mut i: usize = n;
    proof {
        assert(s@.subrange(off + n, off + n) =~= Seq::<u8>::empty());
    }
    while i > 0
        invariant
            0 <= i <= n,
            n <= 8,
            off + n <= s@.len(),
            s@.len() == len,
            v as nat == le_value(s@.subrange(off + i, off + n)),
        decreases i,
    {
        let b = s[off + i - 1];
        let ghost tail = s@.subrange(off + i, off + n);
        let ghost whole = s@.subrange(off + i - 1, off + n);
        proof {
            assert(whole.drop_first() =~= tail);
            lemma_le_value_bound(tail);
            lemma_pow_mono_pub((n - i) as nat, 7);
            lemma_pow256_8();
            reveal_with_fuel(pow256, 9);
        }
        v = v * 256 + b as u64;
        i = i - 1;
    }
    v
}

pub proof fn lemma_pow_mono_pub(a: nat, b: nat)
    requires
        a <= b,
    ensures
        pow256(a) <= pow256(b),
    decreases b,
{
    if a < b {
        lemma_pow_mono_pub(a, (b - 1) as nat);
        lemma_pow256_pos((b - 1) as nat);
    }
}

/// Writes the `n` low-order bytes of `v` into `s[off..off + n]`, least significant first.
pub fn write_le(s: &mut Vec<u8>, off: usize, n: usize, v: u64)
    requires
        off + n <= old(s)@.len(),
        n <= 8,
    ensures
        final(s)@ == old(s)@.subrange(0, off as int) + le_bytes(v as nat, n as nat)
            + old(s)@.subrange(off + n, old(s)@.len() as int),
{
    let len = s.len();
    let mut rest: u64 = v;
    let mut i: usize = 0;
    while i < n
        invariant
            0 <= i <= n,
            n <= 8,
            off + n <= s@.len(),
            s@.len() == old(s)@.len(),
            s@.len() == len,
            le_bytes(v as nat, n as nat) == s@.subrange(off as int, off + i) + le_bytes(rest as nat, (n - i) as nat),
            forall|j: int| 0 <= j < off ==> s@[j] == old(s)@[j],
            forall|j: int| off + n <= j < s@.len() ==> s@[j] == old(s)@[j],
        decreases n - i,
    {
        let ghost before = s@;
        s.set(off + i, (rest % 256) as u8);
        proof {
            assert(le_bytes(rest as nat, (n - i) as nat) =~= seq![(rest % 256) as u8] + le_bytes((rest / 256) as nat, (n - i - 1) as nat));
            assert(s@.subrange(off as int, off + i + 1) =~= before.subrange(off as int, off + i) + seq![(rest % 256) as u8]);
        }
        rest = rest / 256;
        i = i + 1;
    }
    proof {
        assert(le_bytes(rest as nat, 0) =~= Seq::<u8>::empty());
        assert(s@ =~= old(s)@.subrange(0, off as int) + le_bytes(v as nat, n as nat)
            + old(s)@.subrange(off + n, old(s)@.len() as int));
    }
}

} // verus!
