//! Arbitrary-precision unsigned amounts.
//!
//! An [`Amount`] keeps its magnitude as big-endian bytes, in their shortest
//! spelling, and stands for the natural number those bytes spell. The
//! arithmetic on magnitudes is done by the big-number engine of
//! `multiversx_sc`, which measures buffers in 32-bit signed lengths: an amount
//! is therefore at most [`MAX_BYTES`] bytes long.

use multiversx_sc::types::BigUint;
use multiversx_sc_scenario::api::StaticApi;
use vstd::prelude::*;

verus! {

/// The natural number that a big-endian byte string spells. The empty string
/// spells zero, and leading zero bytes do not change the number.
pub open spec fn be_value(bytes: Seq<u8>) -> nat
    decreases bytes.len(),
{
    if bytes.len() == 0 {
        0
    } else {
        be_value(bytes.drop_last()) * 256 + bytes.last() as nat
    }
}

/// The longest spelling, in bytes, that an amount can have.
pub const MAX_BYTES: usize = 0x7fff_fffe;

/// The number of bytes in the shortest spelling of `n`.
pub open spec fn byte_len(n: nat) -> nat
    decreases n,
{
    if n == 0 {
        0
    } else {
        1 + byte_len(n / 256)
    }
}

/// Whether `n` can be held as an amount: its shortest spelling has at most
/// [`MAX_BYTES`] bytes.
pub open spec fn fits(n: nat) -> bool {
    byte_len(n) <= MAX_BYTES
}

/// A byte string is the shortest spelling of its number when it has no
/// leading zero byte; the shortest spelling of zero is the empty string.
pub open spec fn is_shortest(bytes: Seq<u8>) -> bool {
    bytes.len() == 0 || bytes[0] != 0
}

/// A shortest spelling that is not empty spells a positive number.
proof fn lemma_shortest_is_positive(bytes: Seq<u8>)
    requires
        is_shortest(bytes),
        bytes.len() > 0,
    ensures
        be_value(bytes) > 0,
    decreases bytes.len(),
{
    if bytes.len() > 1 {
        lemma_shortest_is_positive(bytes.drop_last());
    } else {
        assert(be_value(bytes.drop_last()) == 0);
    }
}

/// A number has one shortest spelling only: two shortest spellings of the
/// same number are the same bytes.
pub proof fn lemma_shortest_is_unique(a: Seq<u8>, b: Seq<u8>)
    requires
        is_shortest(a),
        is_shortest(b),
        be_value(a) == be_value(b),
    ensures
        a == b,
    decreases a.len(),
{
    if a.len() == 0 {
        if b.len() > 0 {
            lemma_shortest_is_positive(b);
        }
        assert(a =~= b);
    } else if b.len() == 0 {
        lemma_shortest_is_positive(a);
    } else {
        lemma_shortest_is_unique(a.drop_last(), b.drop_last());
        assert(a =~= a.drop_last().push(a.last()));
        assert(b =~= b.drop_last().push(b.last()));
    }
}

/// The shortest spelling of a number is `byte_len` bytes long.
pub proof fn lemma_shortest_len(bytes: Seq<u8>)
    requires
        is_shortest(bytes),
    ensures
        bytes.len() == byte_len(be_value(bytes)),
    decreases bytes.len(),
{
    if bytes.len() > 0 {
        lemma_shortest_is_positive(bytes);
        lemma_shortest_len(bytes.drop_last());
        assert(be_value(bytes) / 256 == be_value(bytes.drop_last()));
    }
}

/// A smaller number has no longer a spelling.
pub proof fn lemma_byte_len_monotone(a: nat, b: nat)
    requires
        a <= b,
    ensures
        byte_len(a) <= byte_len(b),
    decreases b,
{
    if a > 0 {
        lemma_byte_len_monotone(a / 256, b / 256);
    }
}

/// Leading zero bytes do not change the number that a byte string spells.
proof fn lemma_leading_zeros(bytes: Seq<u8>, k: int)
    requires
        0 <= k <= bytes.len(),
        forall|i: int| 0 <= i < k ==> bytes[i] == 0,
    ensures
        be_value(bytes) == be_value(bytes.subrange(k, bytes.len() as int)),
    decreases bytes.len(),
{
    let n = bytes.len() as int;
    if n > 0 {
        if k == n {
            lemma_leading_zeros(bytes.drop_last(), k - 1);
            assert(bytes.drop_last().subrange(k - 1, n - 1).len() == 0);
            assert(bytes.subrange(k, n).len() == 0);
        } else {
            lemma_leading_zeros(bytes.drop_last(), k);
            assert(bytes.subrange(k, n).drop_last() =~= bytes.drop_last().subrange(k, n - 1));
        }
    } else {
        assert(bytes.subrange(k, n) =~= bytes);
    }
}

/// Adds two big-endian magnitudes with `BigUint`'s `+`, converting with
/// `BigUint::from_bytes_be` and `BigUint::to_bytes_be`. The contract claims
/// that the bytes handed back spell the sum of the two numbers handed in.
/// The engine hands the sum's length over as a 32-bit signed number, so both
/// inputs stay under `i32::MAX` bytes, which keeps the sum within it.
#[verifier::external_body]
fn big_sum(a: &Vec<u8>, b: &Vec<u8>) -> (r: Vec<u8>)
    requires
        a@.len() < 0x7fff_ffff,
        b@.len() < 0x7fff_ffff,
    ensures
        be_value(r@) == be_value(a@) + be_value(b@),
{
    let x = BigUint::<StaticApi>::from_bytes_be(a.as_slice());
    let y = BigUint::<StaticApi>::from_bytes_be(b.as_slice());
    (x + y).to_bytes_be().into_vec()
}

/// Compares two big-endian magnitudes with `BigUint`'s `>=`, converting with
/// `BigUint::from_bytes_be`. The contract claims that the answer is the
/// comparison of the two numbers handed in.
#[verifier::external_body]
fn big_at_least(a: &Vec<u8>, b: &Vec<u8>) -> (r: bool)
    ensures
        r == (be_value(a@) >= be_value(b@)),
{
    let x = BigUint::<StaticApi>::from_bytes_be(a.as_slice());
    let y = BigUint::<StaticApi>::from_bytes_be(b.as_slice());
    x >= y
}

/// The number of leading zero bytes.
fn leading_zeros(bytes: &Vec<u8>) -> (k: usize)
    ensures
        k <= bytes@.len(),
        forall|i: int| 0 <= i < k ==> bytes@[i] == 0,
        k < bytes@.len() ==> bytes@[k as int] != 0,
{
    let n: usize = bytes.len();
    let mut k: usize = 0;
    while k < n && bytes[k] == 0
        invariant
            k <= n,
            n == bytes@.len(),
            forall|i: int| 0 <= i < k ==> bytes@[i] == 0,
        decreases n - k,
    {
        k += 1;
    }
    k
}

/// The bytes from index `k` on.
fn tail(bytes: &Vec<u8>, k: usize) -> (r: Vec<u8>)
    requires
        k <= bytes@.len(),
    ensures
        r@ == bytes@.subrange(k as int, bytes@.len() as int),
{
    let n: usize = bytes.len();
    let mut out: Vec<u8> = Vec::new();
    let mut j: usize = k;
    while j < n
        invariant
            k <= j <= n,
            n == bytes@.len(),
            out@ == bytes@.subrange(k as int, j as int),
        decreases n - j,
    {
        out.push(bytes[j]);
        proof {
            assert(out@ =~= bytes@.subrange(k as int, j + 1));
        }
        j += 1;
    }
    out
}

/// An unsigned amount of any size up to [`MAX_BYTES`] bytes.
pub struct Amount {
    bytes: Vec<u8>,
}

impl View for Amount {
    type V = nat;

    closed spec fn view(&self) -> nat {
        be_value(self.bytes@)
    }
}

impl Clone for Amount {
    fn clone(&self) -> (r: Amount)
        ensures
            r@ == self@,
            fits(r@),
    {
        proof {
            use_type_invariant(self);
            lemma_shortest_len(self.bytes@);
        }
        Amount { bytes: self.bytes.clone() }
    }
}

impl Amount {
    /// The bytes are the shortest spelling of the amount, and no more than
    /// the engine can measure.
    #[verifier::type_invariant]
    spec fn well_formed(self) -> bool {
        is_shortest(self.bytes@) && self.bytes@.len() <= MAX_BYTES
    }

    /// The amount zero.
    pub fn zero() -> (r: Amount)
        ensures
            r@ == 0,
            fits(r@),
    {
        Amount { bytes: Vec::new() }
    }

    /// The amount that `bytes` spell, most significant byte first; none
    /// where the number is too long to hold.
    pub fn from_bytes_be(bytes: Vec<u8>) -> (r: Option<Amount>)
        ensures
            r is Some <==> fits(be_value(bytes@)),
            r is Some ==> r->Some_0@ == be_value(bytes@),
    {
        let k = leading_zeros(&bytes);
        proof {
            lemma_leading_zeros(bytes@, k as int);
            lemma_shortest_len(bytes@.subrange(k as int, bytes@.len() as int));
        }
        if bytes.len() - k > MAX_BYTES {
            None
        } else {
            Some(Amount { bytes: tail(&bytes, k) })
        }
    }

    /// The shortest big-endian spelling of the amount: no leading zero byte,
    /// and no byte at all for zero.
    pub fn to_bytes_be(&self) -> (r: Vec<u8>)
        ensures
            be_value(r@) == self@,
            is_shortest(r@),
            r@.len() <= MAX_BYTES,
    {
        proof {
            use_type_invariant(self);
        }
        self.bytes.clone()
    }

    /// The shortest spelling of the sum of two amounts.
    fn sum_bytes(&self, other: &Amount) -> (r: Vec<u8>)
        ensures
            be_value(r@) == self@ + other@,
            is_shortest(r@),
            r@.len() == byte_len(self@ + other@),
    {
        proof {
            use_type_invariant(self);
            use_type_invariant(other);
        }
        let sum = big_sum(&self.bytes, &other.bytes);
        let k = leading_zeros(&sum);
        proof {
            lemma_leading_zeros(sum@, k as int);
            lemma_shortest_len(sum@.subrange(k as int, sum@.len() as int));
        }
        tail(&sum, k)
    }

    /// The sum of two amounts, where it can be held.
    pub fn plus(&self, other: &Amount) -> (r: Amount)
        requires
            fits(self@ + other@),
        ensures
            r@ == self@ + other@,
            fits(r@),
    {
        Amount { bytes: self.sum_bytes(other) }
    }

    /// The sum of two amounts; none where it is too long to hold.
    pub fn checked_plus(&self, other: &Amount) -> (r: Option<Amount>)
        ensures
            r is Some <==> fits(self@ + other@),
            r is Some ==> r->Some_0@ == self@ + other@,
    {
        let bytes = self.sum_bytes(other);
        if bytes.len() <= MAX_BYTES {
            Some(Amount { bytes })
        } else {
            None
        }
    }

    /// Whether this amount is at least `other`.
    pub fn at_least(&self, other: &Amount) -> (r: bool)
        ensures
            r == (self@ >= other@),
    {
        big_at_least(&self.bytes, &other.bytes)
    }
}

} // verus!
