//! Fixed-size hashes, addresses, 256-bit words and log blooms.
use vstd::prelude::*;

verus! {

/// Byte-wise equality of two arrays of the same length.
fn bytes_eq<const N: usize>(a: &[u8; N], b: &[u8; N]) -> (r: bool)
    ensures
        r == (*a == *b),
{
    let mut i: usize = 0;
    while i < N
        invariant
            a@.len() == N,
            b@.len() == N,
            i <= N,
            forall|j: int| 0 <= j < i ==> a@[j] == b@[j],
        decreases N - i,
    {
        if a[i] != b[i] {
            return false;
        }
        i = i + 1;
    }
    assert(*a =~= *b);
    true
}

/// A copy of a byte vector.
pub(crate) fn copy_bytes(v: &Vec<u8>) -> (r: Vec<u8>)
    ensures
        r@ == v@,
{
    let mut r: Vec<u8> = Vec::new();
    let mut i: usize = 0;
    while i < v.len()
        invariant
            i <= v@.len(),
            r@ == v@.subrange(0, i as int),
        decreases v.len() - i,
    {
        r.push(v[i]);
        i = i + 1;
        assert(r@ =~= v@.subrange(0, i as int));
    }
    assert(v@.subrange(0, v@.len() as int) =~= v@);
    r
}

/// A 32-byte hash.
#[derive(Clone, Copy, Debug)]
pub struct H256 {
    pub bytes: [u8; 32],
}

/// A 20-byte account address.
#[derive(Clone, Copy, Debug)]
pub struct H160 {
    pub bytes: [u8; 20],
}

/// An 8-byte header nonce.
#[derive(Clone, Copy, Debug)]
pub struct H64 {
    pub bytes: [u8; 8],
}

impl H256 {
    pub open spec fn view(self) -> Seq<u8> {
        self.bytes@
    }

    /// The all-zero hash, which is also the default one.
    pub fn zero() -> (r: H256)
        ensures
            r@ == Seq::new(32, |_i: int| 0u8),
    {
        let r = H256 { bytes: [0u8; 32] };
        assert(r@ =~= Seq::new(32, |_i: int| 0u8));
        r
    }

    pub fn from_bytes(bytes: [u8; 32]) -> (r: H256)
        ensures
            r.bytes == bytes,
    {
        H256 { bytes }
    }
}

impl H160 {
    pub open spec fn view(self) -> Seq<u8> {
        self.bytes@
    }

    /// The all-zero address, which is also the default one.
    pub fn zero() -> (r: H160)
        ensures
            r@ == Seq::new(20, |_i: int| 0u8),
    {
        let r = H160 { bytes: [0u8; 20] };
        assert(r@ =~= Seq::new(20, |_i: int| 0u8));
        r
    }

    pub fn from_bytes(bytes: [u8; 20]) -> (r: H160)
        ensures
            r.bytes == bytes,
    {
        H160 { bytes }
    }

    /// The address made of the last twenty bytes of a hash.
    pub fn from_h256(h: &H256) -> (r: H160)
        ensures
            r@ == h@.subrange(12, 32),
    {
        let mut bytes = [0u8; 20];
        let mut i: usize = 0;
        while i < 20
            invariant
                i <= 20,
                bytes@.len() == 20,
                h@.len() == 32,
                forall|j: int| 0 <= j < i ==> bytes@[j] == h@[j + 12],
            decreases 20 - i,
        {
            bytes[i] = h.bytes[i + 12];
            i = i + 1;
        }
        let r = H160 { bytes };
        assert(r@ =~= h@.subrange(12, 32));
        r
    }
}

impl H64 {
    pub open spec fn view(self) -> Seq<u8> {
        self.bytes@
    }

    pub fn zero() -> (r: H64)
        ensures
            r@ == Seq::new(8, |_i: int| 0u8),
    {
        let r = H64 { bytes: [0u8; 8] };
        assert(r@ =~= Seq::new(8, |_i: int| 0u8));
        r
    }
}

impl PartialEq for H256 {
    fn eq(&self, other: &H256) -> (r: bool) {
        bytes_eq(&self.bytes, &other.bytes)
    }
}

impl vstd::std_specs::cmp::PartialEqSpecImpl for H256 {
    open spec fn obeys_eq_spec() -> bool {
        true
    }

    open spec fn eq_spec(&self, other: &H256) -> bool {
        *self == *other
    }
}

impl Eq for H256 {
}

impl PartialEq for H160 {
    fn eq(&self, other: &H160) -> (r: bool) {
        bytes_eq(&self.bytes, &other.bytes)
    }
}

impl vstd::std_specs::cmp::PartialEqSpecImpl for H160 {
    open spec fn obeys_eq_spec() -> bool {
        true
    }

    open spec fn eq_spec(&self, other: &H160) -> bool {
        *self == *other
    }
}

impl Eq for H160 {
}

/// Number of bytes in a log bloom.
pub const BLOOM_SIZE: usize = 256;

/// A 2048-bit log bloom.
#[derive(Clone, Copy, Debug)]
pub struct Bloom {
    pub bytes: [u8; 256],
}

/// Every bit set in `small` is set in `big`.
pub open spec fn bloom_covers(big: Seq<u8>, small: Seq<u8>) -> bool {
    &&& big.len() == BLOOM_SIZE
    &&& small.len() == BLOOM_SIZE
    &&& forall|i: int| 0 <= i < BLOOM_SIZE ==> #[trigger] big[i] & small[i] == small[i]
}

/// The byte-wise OR of two blooms.
pub open spec fn bloom_or(a: Seq<u8>, b: Seq<u8>) -> Seq<u8> {
    Seq::new(a.len(), |i: int| a[i] | b[i])
}

impl Bloom {
    pub open spec fn view(self) -> Seq<u8> {
        self.bytes@
    }

    /// The empty bloom, which is also the default one.
    pub fn zero() -> (r: Bloom)
        ensures
            r@ == Seq::new(256, |_i: int| 0u8),
    {
        let r = Bloom { bytes: [0u8; 256] };
        assert(r@ =~= Seq::new(256, |_i: int| 0u8));
        r
    }

    /// Sets every bit that is set in `other`.
    pub fn accrue_bloom(&mut self, other: &Bloom)
        ensures
            final(self)@ == bloom_or(old(self)@, other@),
    {
        let mut i: usize = 0;
        while i < BLOOM_SIZE
            invariant
                i <= BLOOM_SIZE,
                self@.len() == BLOOM_SIZE,
                other@.len() == BLOOM_SIZE,
                old(self)@.len() == BLOOM_SIZE,
                forall|j: int| 0 <= j < i ==> self@[j] == old(self)@[j] | other@[j],
                forall|j: int| i <= j < BLOOM_SIZE ==> self@[j] == old(self)@[j],
            decreases BLOOM_SIZE - i,
        {
            let v = self.bytes[i] | other.bytes[i];
            self.bytes[i] = v;
            i = i + 1;
        }
        assert(self@ =~= bloom_or(old(self)@, other@));
    }
}

/// The OR of two blooms covers both of them.
pub proof fn lemma_bloom_or_covers(a: Seq<u8>, b: Seq<u8>)
    requires
        a.len() == BLOOM_SIZE,
        b.len() == BLOOM_SIZE,
    ensures
        bloom_covers(bloom_or(a, b), a),
        bloom_covers(bloom_or(a, b), b),
{
    assert forall|i: int| 0 <= i < BLOOM_SIZE implies #[trigger] bloom_or(a, b)[i] & a[i] == a[i]
        && bloom_or(a, b)[i] & b[i] == b[i] by {
        let x = a[i];
        let y = b[i];
        assert((x | y) & x == x && (x | y) & y == y) by (bit_vector);
    }
}

/// Covering is transitive.
pub proof fn lemma_bloom_covers_trans(a: Seq<u8>, b: Seq<u8>, c: Seq<u8>)
    requires
        bloom_covers(a, b),
        bloom_covers(b, c),
    ensures
        bloom_covers(a, c),
{
    assert forall|i: int| 0 <= i < BLOOM_SIZE implies #[trigger] a[i] & c[i] == c[i] by {
        let x = a[i];
        let y = b[i];
        let z = c[i];
        assert(x & y == y && y & z == z ==> x & z == z) by (bit_vector);
        assert(a[i] & b[i] == b[i]);
        assert(b[i] & c[i] == c[i]);
    }
}

/// An unsigned 256-bit integer as four 64-bit limbs, least significant first.
#[derive(Clone, Copy, Debug)]
pub struct U256 {
    pub limbs: [u64; 4],
}

pub open spec fn limb_base() -> nat {
    0x1_0000_0000_0000_0000nat
}

pub open spec fn min_nat(a: nat, b: nat) -> nat {
    if a <= b {
        a
    } else {
        b
    }
}

pub open spec fn max_nat(a: nat, b: nat) -> nat {
    if a >= b {
        a
    } else {
        b
    }
}

/// The largest value a `U256` holds.
pub open spec fn u256_max() -> nat {
    (limb_base() * limb_base() * limb_base() * limb_base() - 1) as nat
}

impl U256 {
    /// The number this word stands for.
    pub open spec fn value(self) -> nat {
        self.limbs[0] as nat + limb_base() * (self.limbs[1] as nat + limb_base() * (
        self.limbs[2] as nat + limb_base() * self.limbs[3] as nat))
    }

    pub fn zero() -> (r: U256)
        ensures
            r.value() == 0,
    {
        U256 { limbs: [0u64; 4] }
    }

    pub fn from_u64(v: u64) -> (r: U256)
        ensures
            r.value() == v,
    {
        U256 { limbs: [v, 0, 0, 0] }
    }

    pub fn from_u128(v: u128) -> (r: U256)
        ensures
            r.value() == v,
    {
        let lo = v as u64;
        let hi = (v >> 64u128) as u64;
        assert(v == lo as nat + limb_base() * hi as nat) by (bit_vector)
            requires
                lo == v as u64,
                hi == (v >> 64u128) as u64,
        ;
        U256 { limbs: [lo, hi, 0, 0] }
    }

    /// The lowest 64 bits.
    pub fn low_u64(&self) -> (r: u64)
        ensures
            r == self.limbs[0],
            self.value() < limb_base() ==> r == self.value(),
    {
        proof {
            lemma_value_bounds(*self);
        }
        self.limbs[0]
    }

    pub fn is_zero(&self) -> (r: bool)
        ensures
            r == (self.value() == 0),
    {
        proof {
            lemma_value_bounds(*self);
        }
        self.limbs[0] == 0 && self.limbs[1] == 0 && self.limbs[2] == 0 && self.limbs[3] == 0
    }

    /// Numeric comparison.
    pub fn lt(&self, other: &U256) -> (r: bool)
        ensures
            r == (self.value() < other.value()),
    {
        proof {
            lemma_value_bounds(*self);
            lemma_value_bounds(*other);
        }
        let mut i: usize = 4;
        while i > 0
            invariant
                i <= 4,
                forall|j: int| i <= j < 4 ==> self.limbs[j] == other.limbs[j],
            decreases i,
        {
            i = i - 1;
            if self.limbs[i] != other.limbs[i] {
                proof {
                    if self.limbs[i as int] < other.limbs[i as int] {
                        lemma_lt_at(*self, *other, i as int);
                    } else {
                        lemma_lt_at(*other, *self, i as int);
                    }
                }
                return self.limbs[i] < other.limbs[i];
            }
        }
        assert(self.limbs =~= other.limbs);
        false
    }
}

impl PartialEq for U256 {
    fn eq(&self, other: &U256) -> (r: bool) {
        let r = self.limbs[0] == other.limbs[0] && self.limbs[1] == other.limbs[1]
            && self.limbs[2] == other.limbs[2] && self.limbs[3] == other.limbs[3];
        proof {
            if r {
                assert(self.limbs =~= other.limbs);
            }
        }
        r
    }
}

impl vstd::std_specs::cmp::PartialEqSpecImpl for U256 {
    open spec fn obeys_eq_spec() -> bool {
        true
    }

    open spec fn eq_spec(&self, other: &U256) -> bool {
        *self == *other
    }
}

impl Eq for U256 {
}

/// Relies on `ethereum_types::U256::saturating_mul`: the product, or the largest value when
/// the product does not fit.
#[verifier::external_body]
pub(crate) fn u256_saturating_mul(a: &U256, b: &U256) -> (r: U256)
    ensures
        a.value() * b.value() <= u256_max() ==> r.value() == a.value() * b.value(),
        a.value() * b.value() > u256_max() ==> r.value() == u256_max(),
{
    U256 { limbs: ethereum_types::U256(a.limbs).saturating_mul(ethereum_types::U256(b.limbs)).0 }
}

/// Relies on `ethereum_types::U256::saturating_add`: the sum, or the largest value when the
/// sum does not fit.
#[verifier::external_body]
pub(crate) fn u256_saturating_add(a: &U256, b: &U256) -> (r: U256)
    ensures
        a.value() + b.value() <= u256_max() ==> r.value() == a.value() + b.value(),
        a.value() + b.value() > u256_max() ==> r.value() == u256_max(),
{
    U256 { limbs: ethereum_types::U256(a.limbs).saturating_add(ethereum_types::U256(b.limbs)).0 }
}

/// Relies on `ethereum_types::U256::saturating_sub`: the difference, or zero below zero.
#[verifier::external_body]
pub(crate) fn u256_saturating_sub(a: &U256, b: &U256) -> (r: U256)
    ensures
        a.value() >= b.value() ==> r.value() == a.value() - b.value(),
        a.value() < b.value() ==> r.value() == 0,
{
    U256 { limbs: ethereum_types::U256(a.limbs).saturating_sub(ethereum_types::U256(b.limbs)).0 }
}

/// Relies on `ethereum_types::U256::checked_div`: the quotient rounded down, `None` for a zero
/// divisor.
#[verifier::external_body]
pub(crate) fn u256_checked_div(a: &U256, b: &U256) -> (r: Option<U256>)
    ensures
        b.value() == 0 <==> r is None,
        r is Some ==> r->0.value() == a.value() / b.value(),
{
    ethereum_types::U256(a.limbs).checked_div(ethereum_types::U256(b.limbs)).map(
        |v| U256 { limbs: v.0 },
    )
}

/// Relies on `ethereum_types::U256::checked_sub`: the difference, or `None` below zero.
#[verifier::external_body]
pub(crate) fn u256_checked_sub(a: &U256, b: &U256) -> (r: Option<U256>)
    ensures
        a.value() >= b.value() <==> r is Some,
        r is Some ==> r->0.value() == a.value() - b.value(),
{
    ethereum_types::U256(a.limbs).checked_sub(ethereum_types::U256(b.limbs)).map(
        |v| U256 { limbs: v.0 },
    )
}

proof fn lemma_value_bounds(x: U256)
    ensures
        x.value() <= u256_max(),
        x.value() == 0 <==> (x.limbs[0] == 0 && x.limbs[1] == 0 && x.limbs[2] == 0 && x.limbs[3]
            == 0),
        x.value() < limb_base() <==> (x.limbs[1] == 0 && x.limbs[2] == 0 && x.limbs[3] == 0),
{
    let b = limb_base();
    let a0 = x.limbs[0] as nat;
    let a1 = x.limbs[1] as nat;
    let a2 = x.limbs[2] as nat;
    let a3 = x.limbs[3] as nat;
    assert(a0 < b && a1 < b && a2 < b && a3 < b);
    assert(a0 + b * (a1 + b * (a2 + b * a3)) <= b * b * b * b - 1) by (nonlinear_arith)
        requires
            a0 < b,
            a1 < b,
            a2 < b,
            a3 < b,
            b > 0,
    ;
    assert(a1 + b * (a2 + b * a3) == 0 <==> (a1 == 0 && a2 == 0 && a3 == 0)) by (nonlinear_arith)
        requires
            b > 0,
    ;
    assert(a0 + b * (a1 + b * (a2 + b * a3)) < b <==> a1 + b * (a2 + b * a3) == 0)
        by (nonlinear_arith)
        requires
            a0 < b,
            b > 0,
    ;
}

/// Where two words first differ from the top at limb `i`, the limbs there decide the order.
proof fn lemma_lt_at(x: U256, y: U256, i: int)
    requires
        0 <= i < 4,
        forall|j: int| i < j < 4 ==> x.limbs[j] == y.limbs[j],
        x.limbs[i] < y.limbs[i],
    ensures
        x.value() < y.value(),
{
    lemma_value_bounds(x);
    lemma_value_bounds(y);
    let b = limb_base();
    let x0 = x.limbs[0] as nat;
    let x1 = x.limbs[1] as nat;
    let x2 = x.limbs[2] as nat;
    let x3 = x.limbs[3] as nat;
    let y0 = y.limbs[0] as nat;
    let y1 = y.limbs[1] as nat;
    let y2 = y.limbs[2] as nat;
    let y3 = y.limbs[3] as nat;
    assert(x0 < b && x1 < b && x2 < b && x3 < b && y0 < b && y1 < b && y2 < b && y3 < b);
    if i == 3 {
        assert(x0 + b * (x1 + b * (x2 + b * x3)) < y0 + b * (y1 + b * (y2 + b * y3)))
            by (nonlinear_arith)
            requires
                x0 < b,
                x1 < b,
                x2 < b,
                x3 < y3,
                b > 0,
        ;
    } else if i == 2 {
        assert(x0 + b * (x1 + b * (x2 + b * x3)) < y0 + b * (y1 + b * (y2 + b * y3)))
            by (nonlinear_arith)
            requires
                x0 < b,
                x1 < b,
                x2 < y2,
                x3 == y3,
                b > 0,
        ;
    } else if i == 1 {
        assert(x0 + b * (x1 + b * (x2 + b * x3)) < y0 + b * (y1 + b * (y2 + b * y3)))
            by (nonlinear_arith)
            requires
                x0 < b,
                x1 < y1,
                x2 == y2,
                x3 == y3,
                b > 0,
        ;
    } else {
        assert(x0 + b * (x1 + b * (x2 + b * x3)) < y0 + b * (y1 + b * (y2 + b * y3)))
            by (nonlinear_arith)
            requires
                x0 < y0,
                x1 == y1,
                x2 == y2,
                x3 == y3,
                b > 0,
        ;
    }
}

} // verus!
