//! Byte strings.

use vstd::prelude::*;

verus! {

/// What a byte string stands for.
pub type Bytes = Seq<u8>;

/// The `count` lowest bytes of `n`, the lowest first.
pub open spec fn le_bytes(n: nat, count: nat) -> Seq<u8>
    decreases count,
{
    if count == 0 {
        seq![]
    } else {
        seq![(n % 256) as u8] + le_bytes(n / 256, (count - 1) as nat)
    }
}

/// The eight bytes of `n`, the lowest first.
pub fn u64_le_bytes(n: u64) -> (r: Vec<u8>)
    ensures
        r@ == le_bytes(n as nat, 8),
{
    let mut rest: u64 = n;
    let mut left: u64 = 8;
    let mut r: Vec<u8> = Vec::new();
    while left > 0
        invariant
            left <= 8,
            r@ + le_bytes(rest as nat, left as nat) == le_bytes(n as nat, 8),
        decreases left,
    {
        let ghost before = r@;
        r.push((rest % 256) as u8);
        proof {
            assert(before + le_bytes(rest as nat, left as nat) =~= r@ + le_bytes(
                rest as nat / 256,
                (left - 1) as nat,
            ));
        }
        rest = rest / 256;
        left = left - 1;
    }
    assert(r@ + le_bytes(rest as nat, 0) =~= r@);
    r
}

/// `le_bytes` has as many bytes as asked for.
pub proof fn lemma_le_bytes_len(n: nat, count: nat)
    ensures
        le_bytes(n, count).len() == count,
    decreases count,
{
    if count > 0 {
        lemma_le_bytes_len(n / 256, (count - 1) as nat);
    }
}

/// Numbers that fit the bytes and have the same bytes are the same.
pub proof fn lemma_le_bytes_injective(m: nat, n: nat, count: nat)
    requires
        m < vstd::arithmetic::power::pow(256, count),
        n < vstd::arithmetic::power::pow(256, count),
        le_bytes(m, count) == le_bytes(n, count),
    ensures
        m == n,
    decreases count,
{
    vstd::arithmetic::power::lemma_pow0(256);
    if count > 0 {
        let less = (count - 1) as nat;
        vstd::arithmetic::power::lemma_pow1(256);
        vstd::arithmetic::power::lemma_pow_adds(256, 1, less);
        let a = le_bytes(m, count);
        let b = le_bytes(n, count);
        assert(a[0] == (m % 256) as u8 && b[0] == (n % 256) as u8);
        assert(le_bytes(m / 256, less) =~= a.skip(1));
        assert(le_bytes(n / 256, less) =~= b.skip(1));
        let p = vstd::arithmetic::power::pow(256, less);
        assert(m / 256 < p && n / 256 < p) by (nonlinear_arith)
            requires
                m < 256 * p,
                n < 256 * p,
        ;
        lemma_le_bytes_injective(m / 256, n / 256, less);
    }
}

/// Whether two byte strings are the same.
pub fn same_bytes(a: &[u8], b: &[u8]) -> (r: bool)
    ensures
        r == (a@ == b@),
{
    if a.len() != b.len() {
        return false;
    }
    let mut i: usize = 0;
    while i < a.len()
        invariant
            a.len() == b.len(),
            i <= a.len(),
            forall|j: int| 0 <= j < i ==> a@[j] == b@[j],
        decreases a.len() - i,
    {
        if a[i] != b[i] {
            return false;
        }
        i = i + 1;
    }
    assert(a@ =~= b@);
    true
}

/// Appends `more` to `bytes`.
pub fn append_bytes(bytes: &mut Vec<u8>, more: &[u8])
    ensures
        final(bytes)@ == old(bytes)@ + more@,
{
    let mut i: usize = 0;
    while i < more.len()
        invariant
            i <= more.len(),
            bytes@ == old(bytes)@ + more@.take(i as int),
        decreases more.len() - i,
    {
        bytes.push(more[i]);
        i = i + 1;
        assert(more@.take(i as int) =~= more@.take(i - 1).push(more@[i - 1]));
    }
    assert(more@.take(i as int) =~= more@);
}

/// The number that bytes are read as, the lowest first.
pub open spec fn le_value(bytes: Seq<u8>) -> nat
    decreases bytes.len(),
{
    if bytes.len() == 0 {
        0
    } else {
        bytes[0] as nat + 256 * le_value(bytes.skip(1))
    }
}

/// The bytes of a number that fits them are read as the number.
pub proof fn law_le_bytes_are_read_back(n: nat, count: nat)
    requires
        n < vstd::arithmetic::power::pow(256, count),
    ensures
        le_bytes(n, count).len() == count,
        le_value(le_bytes(n, count)) == n,
    decreases count,
{
    vstd::arithmetic::power::lemma_pow0(256);
    lemma_le_bytes_len(n, count);
    if count > 0 {
        let less = (count - 1) as nat;
        vstd::arithmetic::power::lemma_pow1(256);
        vstd::arithmetic::power::lemma_pow_adds(256, 1, less);
        let p = vstd::arithmetic::power::pow(256, less);
        assert(n / 256 < p) by (nonlinear_arith)
            requires
                n < 256 * p,
        ;
        law_le_bytes_are_read_back(n / 256, less);
        assert(le_bytes(n, count).skip(1) =~= le_bytes(n / 256, less));
    }
}

/// Bytes are those of the number that they are read as.
pub proof fn lemma_le_bytes_of_value(bytes: Seq<u8>)
    ensures
        le_bytes(le_value(bytes), bytes.len()) == bytes,
    decreases bytes.len(),
{
    if bytes.len() > 0 {
        let rest = bytes.skip(1);
        lemma_le_bytes_of_value(rest);
        assert(le_value(bytes) % 256 == bytes[0] as nat);
        assert(le_value(bytes) / 256 == le_value(rest));
        assert(le_bytes(le_value(bytes), bytes.len()) =~= bytes);
    } else {
        assert(le_bytes(le_value(bytes), bytes.len()) =~= bytes);
    }
}

} // verus!
