use vstd::prelude::*;
use halo2_proofs::pasta::group::ff::PrimeField;
use halo2_proofs::pasta::Fp;

verus! {

/// The prime `p` of the Pallas base field.
pub open spec fn modulus() -> int {
    // 2^254 + 0x224698fc094cf91b992d30ed00000001
    (0x80000000000000000000000000000000 * 0x80000000000000000000000000000000
        + 0x224698fc094cf91b992d30ed00000001) as int
}

/// The number that a little-endian byte string encodes.
pub open spec fn le_value(s: Seq<u8>) -> int
    decreases s.len(),
{
    if s.len() == 0 {
        0
    } else {
        s[0] as int + 256 * le_value(s.drop_first())
    }
}

/// Relies on `PrimeField::from_repr`, `Fp + Fp` and `PrimeField::to_repr` of pasta's
/// `Fp`: the sum of two canonical encodings is the canonical encoding of the
/// sum modulo `p` (`from_repr` accepts exactly the encodings below `p`).
#[verifier::external_body]
fn fp_add(a: [u8; 32], b: [u8; 32]) -> (r: [u8; 32])
    requires
        le_value(a@) < modulus(),
        le_value(b@) < modulus(),
    ensures
        le_value(r@) == (le_value(a@) + le_value(b@)) % modulus(),
{
    let x = Fp::from_repr(a).unwrap();
    let y = Fp::from_repr(b).unwrap();
    (x + y).to_repr()
}

/// Relies on `From<u64> for Fp` and `PrimeField::to_repr`: the canonical
/// encoding of the integer `n`, which is below `p`.
#[verifier::external_body]
fn fp_from_u64(n: u64) -> (r: [u8; 32])
    ensures
        le_value(r@) == n as int,
{
    Fp::from(n).to_repr()
}

/// Relies on `PrimeField::from_repr` and `PrimeField::to_repr` of pasta's `Fp`:
/// an encoding is accepted exactly when it is below `p`, and then it comes
/// back unchanged.
#[verifier::external_body]
fn fp_canonical(a: [u8; 32]) -> (r: Option<[u8; 32]>)
    ensures
        r is Some <==> le_value(a@) < modulus(),
        r is Some ==> r->0 == a,
{
    Option::from(Fp::from_repr(a)).map(|x: Fp| x.to_repr())
}

/// Relies on `PrimeField::from_repr`, `Fp - Fp` and `PrimeField::to_repr` of
/// pasta's `Fp`: the difference modulo `p`, canonically encoded.
#[verifier::external_body]
fn fp_sub(a: [u8; 32], b: [u8; 32]) -> (r: [u8; 32])
    requires
        le_value(a@) < modulus(),
        le_value(b@) < modulus(),
    ensures
        le_value(r@) == (le_value(a@) - le_value(b@)) % modulus(),
{
    let x = Fp::from_repr(a).unwrap();
    let y = Fp::from_repr(b).unwrap();
    (x - y).to_repr()
}

/// Relies on `PrimeField::from_repr`, `Fp * Fp` and `PrimeField::to_repr` of
/// pasta's `Fp`: the product modulo `p`, canonically encoded.
#[verifier::external_body]
fn fp_mul(a: [u8; 32], b: [u8; 32]) -> (r: [u8; 32])
    requires
        le_value(a@) < modulus(),
        le_value(b@) < modulus(),
    ensures
        le_value(r@) == (le_value(a@) * le_value(b@)) % modulus(),
{
    let x = Fp::from_repr(a).unwrap();
    let y = Fp::from_repr(b).unwrap();
    (x * y).to_repr()
}

pub proof fn lemma_le_value_nonneg(s: Seq<u8>)
    ensures
        0 <= le_value(s),
    decreases s.len(),
{
    if s.len() > 0 {
        lemma_le_value_nonneg(s.drop_first());
    }
}

/// Two byte strings of one length that encode the same number are the same.
pub proof fn lemma_le_value_injective(s: Seq<u8>, t: Seq<u8>)
    requires
        s.len() == t.len(),
        le_value(s) == le_value(t),
    ensures
        s == t,
    decreases s.len(),
{
    if s.len() > 0 {
        let (s0, t0) = (s[0] as int, t[0] as int);
        let (sr, tr) = (le_value(s.drop_first()), le_value(t.drop_first()));
        lemma_le_value_nonneg(s.drop_first());
        lemma_le_value_nonneg(t.drop_first());
        assert(s0 == t0 && sr == tr) by (nonlinear_arith)
            requires
                0 <= s0 < 256,
                0 <= t0 < 256,
                0 <= sr,
                0 <= tr,
                s0 + 256 * sr == t0 + 256 * tr,
        {
            if sr < tr {
                assert(256 * sr + 256 <= 256 * tr);
            } else if tr < sr {
                assert(256 * tr + 256 <= 256 * sr);
            }
        }
        lemma_le_value_injective(s.drop_first(), t.drop_first());
        assert forall|i: int| 0 <= i < s.len() implies s[i] == t[i] by {
            if i > 0 {
                assert(s[i] == s.drop_first()[i - 1]);
                assert(t[i] == t.drop_first()[i - 1]);
            }
        }
        assert(s =~= t);
    }
}

/// An element of the Pallas base field, held as its canonical little-endian
/// encoding (the one that `PrimeField::to_repr` gives).
#[derive(Clone, Copy, Debug, PartialEq, Eq)]
pub struct Felt {
    bytes: [u8; 32],
}

impl Felt {
    #[verifier::type_invariant]
    spec fn canonical(self) -> bool {
        le_value(self.bytes@) < modulus()
    }

    /// The element as an integer in `[0, p)`.
    pub closed spec fn value(self) -> int {
        le_value(self.bytes@)
    }

    /// Elements with the same value are the same, down to their bytes.
    pub proof fn lemma_value_eq(self, other: Felt)
        requires
            self.value() == other.value(),
        ensures
            self == other,
    {
        broadcast use vstd::array::group_array_axioms;
        lemma_le_value_injective(self.bytes@, other.bytes@);
        assert(self.bytes =~= other.bytes);
    }

    pub fn from_u64(n: u64) -> (r: Felt)
        ensures
            r.value() == n as int,
    {
        Felt { bytes: fp_from_u64(n) }
    }

    pub fn zero() -> (r: Felt)
        ensures
            r.value() == 0,
    {
        Felt::from_u64(0)
    }

    pub fn one() -> (r: Felt)
        ensures
            r.value() == 1,
    {
        Felt::from_u64(1)
    }

    /// Reads a canonical little-endian encoding; `None` unless it is below `p`.
    pub fn from_bytes(bytes: [u8; 32]) -> (r: Option<Felt>)
        ensures
            r is Some <==> le_value(bytes@) < modulus(),
            r is Some ==> r->0.value() == le_value(bytes@),
    {
        match fp_canonical(bytes) {
            Some(b) => Some(Felt { bytes: b }),
            None => None,
        }
    }

    pub fn to_bytes(&self) -> (r: [u8; 32])
        ensures
            le_value(r@) == self.value(),
    {
        self.bytes
    }

    pub fn add(&self, other: &Felt) -> (r: Felt)
        ensures
            r.value() == (self.value() + other.value()) % modulus(),
    {
        proof {
            use_type_invariant(self);
            use_type_invariant(other);
        }
        Felt { bytes: fp_add(self.bytes, other.bytes) }
    }

    pub fn sub(&self, other: &Felt) -> (r: Felt)
        ensures
            r.value() == (self.value() - other.value()) % modulus(),
    {
        proof {
            use_type_invariant(self);
            use_type_invariant(other);
        }
        Felt { bytes: fp_sub(self.bytes, other.bytes) }
    }

    pub fn mul(&self, other: &Felt) -> (r: Felt)
        ensures
            r.value() == (self.value() * other.value()) % modulus(),
    {
        proof {
            use_type_invariant(self);
            use_type_invariant(other);
        }
        Felt { bytes: fp_mul(self.bytes, other.bytes) }
    }

    /// Field equality, decided on the canonical bytes.
    pub fn equals(&self, other: &Felt) -> (r: bool)
        ensures
            r == (self.value() == other.value()),
    {
        let mut i: usize = 0;
        while i < 32
            invariant
                0 <= i <= 32,
                forall|j: int| 0 <= j < i ==> self.bytes[j] == other.bytes[j],
            decreases 32 - i,
        {
            if self.bytes[i] != other.bytes[i] {
                proof {
                    if self.value() == other.value() {
                        lemma_le_value_injective(self.bytes@, other.bytes@);
                    }
                }
                return false;
            }
            i = i + 1;
        }
        proof {
            assert(self.bytes@ =~= other.bytes@);
        }
        true
    }
}

} // verus!
