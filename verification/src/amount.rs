//! Amounts of money: natural numbers of arbitrary size, kept as big-endian
//! bytes and computed with the `BigUint` of multiversx-sc.
//!
//! An [`Amount`] never holds more than [`MAX_AMOUNT_BYTES`] bytes, so every
//! amount is below [`amount_limit`]. The arithmetic says exactly when a result
//! would pass that limit.
//!
//! The sums, differences, products, quotients and comparisons are those of
//! multiversx-sc, which computes them in the in-process API of
//! multiversx-sc-scenario (`StaticApi`). What is stated of them below is
//! taken on trust, not proved. That API counts the bytes of a buffer, and
//! the numbers that a thread has made, in 32 bits. The first is why operands
//! are held to [`MAX_OPERAND_BYTES`]. The second puts an end to the
//! arithmetic of a thread that has made some two thousand million numbers;
//! no contract here says so.

use multiversx_sc::types::BigUint;
use multiversx_sc_scenario::api::StaticApi;
use vstd::prelude::*;
use vstd::std_specs::cmp::PartialEqSpecImpl;

verus! {

/// The most bytes that an [`Amount`] holds: a mebibyte, far more than any
/// balance needs and well within what the outside arithmetic takes.
pub const MAX_AMOUNT_BYTES: usize = 0x10_0000;

/// The most bytes of a number that is handed to the outside arithmetic. The
/// buffers of multiversx-sc count their bytes in 32 bits; with operands of
/// this size no result has more bytes than such a count holds.
pub const MAX_OPERAND_BYTES: usize = 0x3fff_ffff;

/// The number that a big-endian byte string denotes; leading zeros do not count.
pub open spec fn be_value(s: Seq<u8>) -> nat
    decreases s.len(),
{
    if s.len() == 0 {
        0
    } else {
        be_value(s.drop_last()) * 256 + s.last() as nat
    }
}

/// A byte string without a leading zero byte: the shortest one for its value.
pub open spec fn is_minimal(s: Seq<u8>) -> bool {
    s.len() == 0 || s[0] != 0
}

/// 256 to the power `n`.
pub open spec fn pow256(n: nat) -> nat
    decreases n,
{
    if n == 0 {
        1
    } else {
        256 * pow256((n - 1) as nat)
    }
}

/// The least number that no [`Amount`] can hold.
pub open spec fn amount_limit() -> nat {
    pow256(MAX_AMOUNT_BYTES as nat)
}

/// Powers of 256 are positive and grow with the exponent.
pub proof fn lemma_pow256_grows(a: nat, b: nat)
    requires
        a <= b,
    ensures
        1 <= pow256(a) <= pow256(b),
    decreases b,
{
    if b == 0 {
    } else if a == b {
        lemma_pow256_grows(0, (b - 1) as nat);
    } else {
        lemma_pow256_grows(a, (b - 1) as nat);
    }
}

/// A string of `n` bytes denotes a number below 256 to the power `n`.
proof fn lemma_value_below_pow(s: Seq<u8>)
    ensures
        be_value(s) < pow256(s.len()),
    decreases s.len(),
{
    if s.len() > 0 {
        lemma_value_below_pow(s.drop_last());
    }
}

/// A non-empty string of `n` bytes without a leading zero denotes a number
/// of at least 256 to the power `n - 1`.
proof fn lemma_minimal_value_at_least(s: Seq<u8>)
    requires
        is_minimal(s),
        s.len() > 0,
    ensures
        be_value(s) >= pow256((s.len() - 1) as nat),
    decreases s.len(),
{
    if s.len() == 1 {
        assert(be_value(s.drop_last()) == 0);
    } else {
        let init = s.drop_last();
        assert(init[0] == s[0]);
        lemma_minimal_value_at_least(init);
    }
}

/// The shortest byte string of a number below 256 to the power `k` has at
/// most `k` bytes.
proof fn lemma_minimal_len(s: Seq<u8>, k: nat)
    requires
        is_minimal(s),
        be_value(s) < pow256(k),
    ensures
        s.len() <= k,
{
    if s.len() > k {
        lemma_minimal_value_at_least(s);
        lemma_pow256_grows(k, (s.len() - 1) as nat);
    }
}

/// A string of at most `k` bytes denotes a number below 256 to the power `k`.
proof fn lemma_short_value(s: Seq<u8>, k: nat)
    requires
        s.len() <= k,
    ensures
        be_value(s) < pow256(k),
{
    lemma_value_below_pow(s);
    lemma_pow256_grows(s.len(), k);
}

/// A prefix of a byte string denotes no more than the whole string.
proof fn lemma_prefix_value(s: Seq<u8>, n: int)
    requires
        0 <= n <= s.len(),
    ensures
        be_value(s.take(n)) <= be_value(s),
    decreases s.len() - n,
{
    if n == s.len() {
        assert(s.take(n) =~= s);
    } else {
        lemma_prefix_value(s, n + 1);
        assert(s.take(n + 1).drop_last() =~= s.take(n));
    }
}

/// `BigUint::from_bytes_be`, `+` and `BigUint::to_bytes_be` of multiversx-sc,
/// over the `StaticApi` of multiversx-sc-scenario: both byte strings are read
/// as big-endian numbers, and the sum is handed back in the shortest
/// big-endian form (no bytes at all for zero).
#[verifier::external_body]
fn big_add(a: &Vec<u8>, b: &Vec<u8>) -> (r: Vec<u8>)
    requires
        a@.len() <= MAX_OPERAND_BYTES,
        b@.len() <= MAX_OPERAND_BYTES,
    ensures
        be_value(r@) == be_value(a@) + be_value(b@),
        is_minimal(r@),
{
    let x = BigUint::<StaticApi>::from_bytes_be(a.as_slice());
    let y = BigUint::<StaticApi>::from_bytes_be(b.as_slice());
    (x + y).to_bytes_be().as_slice().to_vec()
}

/// `BigUint::from_bytes_be`, `-` and `BigUint::to_bytes_be` of multiversx-sc:
/// the difference of the two numbers, in the shortest big-endian form. The
/// outside subtraction stops the program when the result would be negative,
/// so the first number must not be the smaller one.
#[verifier::external_body]
fn big_sub(a: &Vec<u8>, b: &Vec<u8>) -> (r: Vec<u8>)
    requires
        a@.len() <= MAX_OPERAND_BYTES,
        b@.len() <= MAX_OPERAND_BYTES,
        be_value(a@) >= be_value(b@),
    ensures
        be_value(r@) == be_value(a@) - be_value(b@),
        is_minimal(r@),
{
    let x = BigUint::<StaticApi>::from_bytes_be(a.as_slice());
    let y = BigUint::<StaticApi>::from_bytes_be(b.as_slice());
    (x - y).to_bytes_be().as_slice().to_vec()
}

/// `BigUint::from_bytes_be`, `*` and `BigUint::to_bytes_be` of multiversx-sc:
/// the product of the two numbers, in the shortest big-endian form.
#[verifier::external_body]
fn big_mul(a: &Vec<u8>, b: &Vec<u8>) -> (r: Vec<u8>)
    requires
        a@.len() <= MAX_OPERAND_BYTES,
        b@.len() <= MAX_OPERAND_BYTES,
    ensures
        be_value(r@) == be_value(a@) * be_value(b@),
        is_minimal(r@),
{
    let x = BigUint::<StaticApi>::from_bytes_be(a.as_slice());
    let y = BigUint::<StaticApi>::from_bytes_be(b.as_slice());
    (x * y).to_bytes_be().as_slice().to_vec()
}

/// `BigUint::from_bytes_be`, `/` and `BigUint::to_bytes_be` of multiversx-sc:
/// the quotient of the two numbers, rounded down, in the shortest big-endian
/// form. The outside division stops the program on a zero divisor, so the
/// second number must be positive.
#[verifier::external_body]
fn big_div(a: &Vec<u8>, b: &Vec<u8>) -> (r: Vec<u8>)
    requires
        a@.len() <= MAX_OPERAND_BYTES,
        b@.len() <= MAX_OPERAND_BYTES,
        be_value(b@) > 0,
    ensures
        be_value(r@) == be_value(a@) / be_value(b@),
        is_minimal(r@),
{
    let x = BigUint::<StaticApi>::from_bytes_be(a.as_slice());
    let y = BigUint::<StaticApi>::from_bytes_be(b.as_slice());
    (x / y).to_bytes_be().as_slice().to_vec()
}

/// `BigUint::from_bytes_be` and `>=` of multiversx-sc: whether the first
/// number is at least the second.
#[verifier::external_body]
fn big_ge(a: &Vec<u8>, b: &Vec<u8>) -> (r: bool)
    requires
        a@.len() <= MAX_OPERAND_BYTES,
        b@.len() <= MAX_OPERAND_BYTES,
    ensures
        r == (be_value(a@) >= be_value(b@)),
{
    let x = BigUint::<StaticApi>::from_bytes_be(a.as_slice());
    let y = BigUint::<StaticApi>::from_bytes_be(b.as_slice());
    x >= y
}

/// A natural number below [`amount_limit`].
#[derive(Debug)]
pub struct Amount {
    bytes: Vec<u8>,
}

impl View for Amount {
    type V = nat;

    closed spec fn view(&self) -> nat {
        be_value(self.bytes@)
    }
}

impl DeepView for Amount {
    type V = nat;

    open spec fn deep_view(&self) -> nat {
        self@
    }
}

impl PartialEq for Amount {
    fn eq(&self, other: &Self) -> (r: bool) {
        self.same(other)
    }
}

impl PartialEqSpecImpl for Amount {
    open spec fn obeys_eq_spec() -> bool {
        true
    }

    open spec fn eq_spec(&self, other: &Self) -> bool {
        self@ == other@
    }
}

impl Clone for Amount {
    fn clone(&self) -> (r: Self)
        ensures
            r@ == self@,
    {
        proof {
            use_type_invariant(self);
        }
        let bytes = self.bytes.clone();
        assert(bytes@ =~= self.bytes@);
        Amount { bytes }
    }
}

impl Amount {
    /// What holds of every amount that a program holds: it has no more
    /// bytes than [`MAX_AMOUNT_BYTES`].
    #[verifier::type_invariant]
    pub(crate) closed spec fn bounded(&self) -> bool {
        self.bytes@.len() <= MAX_AMOUNT_BYTES
    }

    /// A bounded amount is below the limit.
    pub(crate) proof fn lemma_below_limit(&self)
        requires
            self.bounded(),
        ensures
            self@ < amount_limit(),
    {
        lemma_short_value(self.bytes@, MAX_AMOUNT_BYTES as nat);
    }

    /// The amount zero.
    pub fn zero() -> (r: Amount)
        ensures
            r@ == 0,
    {
        Amount { bytes: Vec::new() }
    }

    /// The amount `v`.
    pub fn from_u64(v: u64) -> (r: Amount)
        ensures
            r@ == v,
    {
        let b7: u8 = (v % 256) as u8;
        let v6: u64 = v / 256;
        let b6: u8 = (v6 % 256) as u8;
        let v5: u64 = v6 / 256;
        let b5: u8 = (v5 % 256) as u8;
        let v4: u64 = v5 / 256;
        let b4: u8 = (v4 % 256) as u8;
        let v3: u64 = v4 / 256;
        let b3: u8 = (v3 % 256) as u8;
        let v2: u64 = v3 / 256;
        let b2: u8 = (v2 % 256) as u8;
        let v1: u64 = v2 / 256;
        let b1: u8 = (v1 % 256) as u8;
        let b0: u8 = (v1 / 256) as u8;
        let mut bytes: Vec<u8> = Vec::new();
        bytes.push(b0);
        bytes.push(b1);
        bytes.push(b2);
        bytes.push(b3);
        bytes.push(b4);
        bytes.push(b5);
        bytes.push(b6);
        bytes.push(b7);
        proof {
            let s = bytes@;
            let s7 = s.drop_last();
            let s6 = s7.drop_last();
            let s5 = s6.drop_last();
            let s4 = s5.drop_last();
            let s3 = s4.drop_last();
            let s2 = s3.drop_last();
            let s1 = s2.drop_last();
            assert(be_value(s1.drop_last()) == 0);
            assert(be_value(s1) == b0);
            assert(be_value(s2) == v1);
            assert(be_value(s3) == v2);
            assert(be_value(s4) == v3);
            assert(be_value(s5) == v4);
            assert(be_value(s6) == v5);
            assert(be_value(s7) == v6);
            assert(be_value(s) == v);
        }
        Amount { bytes }
    }

    /// The amount as a `u64`, if it is small enough for one.
    pub fn to_u64(&self) -> (r: Option<u64>)
        ensures
            r is Some <==> self@ <= u64::MAX,
            r matches Some(v) ==> v == self@,
    {
        let n = self.bytes.len();
        let mut acc: u64 = 0;
        let mut i: usize = 0;
        while i < n
            invariant
                n == self.bytes@.len(),
                0 <= i <= n,
                acc == be_value(self.bytes@.take(i as int)),
            decreases n - i,
        {
            let b = self.bytes[i];
            proof {
                assert(self.bytes@.take(i + 1).drop_last() =~= self.bytes@.take(i as int));
                assert(self.bytes@.take(i + 1).last() == b);
                lemma_prefix_value(self.bytes@, i + 1);
            }
            if acc > (u64::MAX - b as u64) / 256 {
                return None;
            }
            acc = acc * 256 + b as u64;
            i += 1;
        }
        assert(self.bytes@.take(n as int) =~= self.bytes@);
        Some(acc)
    }

    /// The amount that the big-endian bytes denote, unless there are more
    /// than [`MAX_AMOUNT_BYTES`] of them.
    pub fn from_bytes_be(bytes: Vec<u8>) -> (r: Option<Amount>)
        ensures
            r is Some <==> bytes@.len() <= MAX_AMOUNT_BYTES,
            r matches Some(a) ==> a@ == be_value(bytes@),
    {
        if bytes.len() <= MAX_AMOUNT_BYTES {
            Some(Amount { bytes })
        } else {
            None
        }
    }

    /// Big-endian bytes that denote the amount.
    pub fn to_bytes_be(&self) -> (r: Vec<u8>)
        ensures
            be_value(r@) == self@,
            r@.len() <= MAX_AMOUNT_BYTES,
    {
        proof {
            use_type_invariant(self);
        }
        let r = self.bytes.clone();
        assert(r@ =~= self.bytes@);
        r
    }

    /// Whether this amount is at least the other.
    pub fn ge(&self, other: &Amount) -> (r: bool)
        ensures
            r == (self@ >= other@),
    {
        proof {
            use_type_invariant(self);
            use_type_invariant(other);
        }
        big_ge(&self.bytes, &other.bytes)
    }

    /// Whether the two amounts are the same number.
    pub fn same(&self, other: &Amount) -> (r: bool)
        ensures
            r == (self@ == other@),
    {
        self.ge(other) && other.ge(self)
    }

    /// The sum, unless it passes the limit.
    pub fn checked_add(&self, other: &Amount) -> (r: Option<Amount>)
        ensures
            r is Some <==> self@ + other@ < amount_limit(),
            r matches Some(sum) ==> sum@ == self@ + other@,
    {
        proof {
            use_type_invariant(self);
            use_type_invariant(other);
        }
        let bytes = big_add(&self.bytes, &other.bytes);
        Self::within_limit(bytes)
    }

    /// The difference, unless the other amount is the larger one.
    pub fn checked_sub(&self, other: &Amount) -> (r: Option<Amount>)
        ensures
            r is Some <==> self@ >= other@,
            r matches Some(diff) ==> diff@ == self@ - other@,
    {
        proof {
            use_type_invariant(self);
            use_type_invariant(other);
        }
        if big_ge(&self.bytes, &other.bytes) {
            let bytes = big_sub(&self.bytes, &other.bytes);
            proof {
                lemma_short_value(self.bytes@, MAX_AMOUNT_BYTES as nat);
                lemma_minimal_len(bytes@, MAX_AMOUNT_BYTES as nat);
            }
            Some(Amount { bytes })
        } else {
            None
        }
    }

    /// This amount times `factor`, divided by `divisor` and rounded down;
    /// none where the divisor is zero or the quotient passes the limit. The
    /// product alone may pass it.
    pub fn checked_mul_div(&self, factor: &Amount, divisor: &Amount) -> (r: Option<Amount>)
        ensures
            r is Some <==> divisor@ > 0 && self@ * factor@ / divisor@ < amount_limit(),
            r matches Some(quotient) ==> quotient@ == self@ * factor@ / divisor@,
    {
        proof {
            use_type_invariant(self);
            use_type_invariant(factor);
            use_type_invariant(divisor);
        }
        if Amount::zero().ge(divisor) {
            return None;
        }
        let product = big_mul(&self.bytes, &factor.bytes);
        proof {
            lemma_product_len(product@, self.bytes@, factor.bytes@);
        }
        let bytes = big_div(&product, &divisor.bytes);
        Self::within_limit(bytes)
    }

    /// The amount that minimal bytes denote, unless it passes the limit.
    fn within_limit(bytes: Vec<u8>) -> (r: Option<Amount>)
        requires
            is_minimal(bytes@),
        ensures
            r is Some <==> be_value(bytes@) < amount_limit(),
            r matches Some(a) ==> a@ == be_value(bytes@),
    {
        if bytes.len() <= MAX_AMOUNT_BYTES {
            proof {
                lemma_short_value(bytes@, MAX_AMOUNT_BYTES as nat);
            }
            Some(Amount { bytes })
        } else {
            proof {
                lemma_minimal_value_at_least(bytes@);
                lemma_pow256_grows(MAX_AMOUNT_BYTES as nat, (bytes@.len() - 1) as nat);
            }
            None
        }
    }
}

/// The shortest byte string of a product has no more bytes than the two
/// factors' strings together.
proof fn lemma_product_len(p: Seq<u8>, a: Seq<u8>, b: Seq<u8>)
    requires
        is_minimal(p),
        be_value(p) == be_value(a) * be_value(b),
    ensures
        p.len() <= a.len() + b.len(),
{
    lemma_value_below_pow(a);
    lemma_value_below_pow(b);
    lemma_pow256_adds(a.len(), b.len());
    let x = be_value(a);
    let y = be_value(b);
    let px = pow256(a.len());
    let py = pow256(b.len());
    assert(x * y < px * py) by (nonlinear_arith)
        requires
            x < px,
            y < py,
    ;
    lemma_minimal_len(p, a.len() + b.len());
}

/// 256 to the power `a + b` is the product of the two powers.
proof fn lemma_pow256_adds(a: nat, b: nat)
    ensures
        pow256(a + b) == pow256(a) * pow256(b),
    decreases a,
{
    if a == 0 {
        assert(pow256(0 + b) == 1 * pow256(b));
    } else {
        lemma_pow256_adds((a - 1) as nat, b);
        let pa = pow256((a - 1) as nat);
        let pb = pow256(b);
        assert(((a - 1) as nat) + b == (a + b - 1) as nat);
        assert(256 * (pa * pb) == (256 * pa) * pb) by (nonlinear_arith);
    }
}

} // verus!
