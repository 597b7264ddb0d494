use vstd::prelude::*;

verus! {

/// A 32-byte public key naming a principal or an account on the ledger.
#[derive(Clone, Copy, Debug)]
pub struct Identity {
    pub bytes: [u8; 32],
}

impl View for Identity {
    type V = Seq<u8>;

    open spec fn view(&self) -> Seq<u8> {
        self.bytes@
    }
}

impl Identity {
    pub fn new(bytes: [u8; 32]) -> (r: Identity)
        ensures
            r@ == bytes@,
    {
        Identity { bytes }
    }

    pub fn to_bytes(&self) -> (r: [u8; 32])
        ensures
            r@ == self@,
    {
        self.bytes
    }

    /// The key's bytes as a vector.
    pub fn to_vec(&self) -> (r: Vec<u8>)
        ensures
            r@ == self@,
    {
        let mut r: Vec<u8> = Vec::new();
        let mut i: usize = 0;
        while i < 32
            invariant
                0 <= i <= 32,
                self.bytes@.len() == 32,
                r@ == self.bytes@.subrange(0, i as int),
            decreases 32 - i,
        {
            r.push(self.bytes[i]);
            i = i + 1;
            assert(r@ =~= self.bytes@.subrange(0, i as int));
        }
        assert(r@ =~= self.bytes@);
        r
    }

    /// Byte-wise comparison of two keys.
    pub fn same_as(&self, other: &Identity) -> (r: bool)
        ensures
            r == (self@ == other@),
    {
        let mut i: usize = 0;
        while i < 32
            invariant
                0 <= i <= 32,
                self.bytes@.len() == 32,
                other.bytes@.len() == 32,
                forall|j: int| 0 <= j < i ==> self.bytes@[j] == other.bytes@[j],
            decreases 32 - i,
        {
            if self.bytes[i] != other.bytes[i] {
                return false;
            }
            i = i + 1;
        }
        assert(self@ =~= other@);
        true
    }
}

/// The little-endian encoding of the low `n` bytes of `x`.
pub open spec fn le_bytes_n(x: nat, n: nat) -> Seq<u8>
    decreases n,
{
    if n == 0 {
        Seq::empty()
    } else {
        seq![(x % 256) as u8] + le_bytes_n(x / 256, (n - 1) as nat)
    }
}

/// The eight little-endian bytes of a 64-bit integer.
pub open spec fn le_bytes(x: u64) -> Seq<u8> {
    le_bytes_n(x as nat, 8)
}

pub open spec fn pow256(n: nat) -> nat
    decreases n,
{
    if n == 0 {
        1
    } else {
        256 * pow256((n - 1) as nat)
    }
}

proof fn lemma_le_bytes_n_len(x: nat, n: nat)
    ensures
        le_bytes_n(x, n).len() == n,
    decreases n,
{
    if n > 0 {
        lemma_le_bytes_n_len(x / 256, (n - 1) as nat);
    }
}

proof fn lemma_le_bytes_n_injective(x: nat, y: nat, n: nat)
    requires
        x < pow256(n),
        y < pow256(n),
        le_bytes_n(x, n) == le_bytes_n(y, n),
    ensures
        x == y,
    decreases n,
{
    if n > 0 {
        let m = (n - 1) as nat;
        let bx = le_bytes_n(x, n);
        let by = le_bytes_n(y, n);
        assert(bx[0] == (x % 256) as u8);
        assert(by[0] == (y % 256) as u8);
        assert(le_bytes_n(x / 256, m) =~= bx.subrange(1, bx.len() as int));
        assert(le_bytes_n(y / 256, m) =~= by.subrange(1, by.len() as int));
        assert(x / 256 < pow256(m)) by (nonlinear_arith)
            requires
                x < pow256(n),
                pow256(n) == 256 * pow256(m),
        ;
        assert(y / 256 < pow256(m)) by (nonlinear_arith)
            requires
                y < pow256(n),
                pow256(n) == 256 * pow256(m),
        ;
        lemma_le_bytes_n_injective(x / 256, y / 256, m);
    }
}

/// Distinct integers have distinct little-endian encodings.
pub proof fn lemma_le_bytes_injective(x: u64, y: u64)
    ensures
        le_bytes(x) == le_bytes(y) ==> x == y,
        le_bytes(x).len() == 8,
{
    lemma_le_bytes_n_len(x as nat, 8);
    assert(pow256(8) == 0x1_0000_0000_0000_0000) by {
        reveal_with_fuel(pow256, 9);
    }
    if le_bytes(x) == le_bytes(y) {
        lemma_le_bytes_n_injective(x as nat, y as nat, 8);
    }
}

/// The eight little-endian bytes of `x`, as `u64::to_le_bytes` lays them out.
pub fn le_bytes_of(x: u64) -> (r: Vec<u8>)
    ensures
        r@ == le_bytes(x),
{
    let mut out: Vec<u8> = Vec::new();
    let mut rest: u64 = x;
    let mut i: usize = 0;
    while i < 8
        invariant
            0 <= i <= 8,
            out@ + le_bytes_n(rest as nat, (8 - i) as nat) == le_bytes(x),
        decreases 8 - i,
    {
        let b: u8 = (rest % 256) as u8;
        proof {
            let tail = le_bytes_n(rest as nat, (8 - i) as nat);
            assert(tail == seq![b] + le_bytes_n((rest / 256) as nat, (8 - i - 1) as nat));
            assert(out@.push(b) + le_bytes_n((rest / 256) as nat, (8 - i - 1) as nat)
                =~= out@ + tail);
        }
        out.push(b);
        rest = rest / 256;
        i = i + 1;
    }
    assert(out@ =~= le_bytes(x));
    out
}

} // verus!
