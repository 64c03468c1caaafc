//! JSON numbers, held as plain values: the integer a number was written as,
//! and the value it has as a double (a binary mantissa and exponent), with the
//! text that double prints as.

use vstd::prelude::*;
use vstd::arithmetic::power2::*;
use vstd::arithmetic::div_mod::lemma_small_mod;
use crate::text::{decimal, push_signed_decimal, signed_decimal, u64_to_decimal};

verus! {

/// Bound on the magnitude of a number's binary mantissa (2^53: a double has
/// 53 significant bits).
pub const MANTISSA_LIMIT: i64 = 9007199254740992i64;

/// Bound on the magnitude of a number's binary exponent (doubles use
/// -1074 ..= 971).
pub const EXPONENT_LIMIT: i32 = 1100i32;

/// How a JSON number was written: a non-negative integer, a negative integer,
/// or a number with a fraction or exponent.
#[derive(Clone, Copy, Debug, PartialEq, Eq, Structural)]
pub enum NumberKind {
    PosInt(u64),
    NegInt(i64),
    Float,
}

/// A JSON number.
///
/// Besides how it was written (`kind`), a number carries its value as a
/// double, `mantissa * 2^exponent` exactly, and `text`, the decimal text
/// that double prints as. Comparisons between numbers go by that value, as
/// they do between doubles; messages quote `text`.
#[derive(Debug)]
pub struct JsonNumber {
    kind: NumberKind,
    mantissa: i64,
    exponent: i32,
    text: String,
}

/// The absolute value of an integer.
pub open spec fn abs(m: int) -> int {
    if m < 0 {
        -m
    } else {
        m
    }
}

/// `m * 2^(e - base)`, an integer when `base <= e`.
pub open spec fn scaled(m: int, e: int, base: int) -> int {
    m * (pow2((e - base) as nat) as int)
}

/// `m1 * 2^e1 < m2 * 2^e2`, compared exactly.
pub open spec fn value_lt(m1: int, e1: int, m2: int, e2: int) -> bool {
    let base = if e1 <= e2 {
        e1
    } else {
        e2
    };
    scaled(m1, e1, base) < scaled(m2, e2, base)
}

/// `m * 2^e` is a whole number.
pub open spec fn value_is_integer(m: int, e: int) -> bool {
    e >= 0 || (abs(m) as nat) % pow2((-e) as nat) == 0
}

/// `scaled` at a lower base `b` is `scaled` at `base` times `2^(base - b)`.
proof fn lemma_scaled_rebase(m: int, e: int, base: int, b: int)
    requires
        b <= base <= e,
    ensures
        scaled(m, e, b) == scaled(m, e, base) * (pow2((base - b) as nat) as int),
{
    let x = pow2((e - base) as nat) as int;
    let y = pow2((base - b) as nat) as int;
    lemma_pow2_adds((e - base) as nat, (base - b) as nat);
    assert(((e - base) as nat + (base - b) as nat) as nat == (e - b) as nat);
    assert(m * (x * y) == (m * x) * y) by (nonlinear_arith);
}

/// Two values compare the same way at any common base at or below both
/// exponents.
proof fn lemma_value_lt_at(m1: int, e1: int, m2: int, e2: int, b: int)
    requires
        b <= e1,
        b <= e2,
    ensures
        value_lt(m1, e1, m2, e2) == (scaled(m1, e1, b) < scaled(m2, e2, b)),
{
    let base = if e1 <= e2 {
        e1
    } else {
        e2
    };
    lemma_scaled_rebase(m1, e1, base, b);
    lemma_scaled_rebase(m2, e2, base, b);
    let p = pow2((base - b) as nat) as int;
    lemma_pow2_pos((base - b) as nat);
    let x = scaled(m1, e1, base);
    let y = scaled(m2, e2, base);
    assert((x < y) == (x * p < y * p)) by (nonlinear_arith)
        requires
            p > 0,
    ;
}

/// 2^k, for small k.
fn pow2_i128(k: u32) -> (r: i128)
    requires
        k <= 64,
    ensures
        r == pow2(k as nat),
        0 < r <= pow2(64),
{
    proof {
        lemma2_to64();
    }
    let mut r: i128 = 1;
    let mut i: u32 = 0;
    while i < k
        invariant
            i <= k <= 64,
            r == pow2(i as nat),
            pow2(64) == 0x10000000000000000,
        decreases k - i,
    {
        proof {
            lemma_pow2_unfold((i + 1) as nat);
        }
        assert(r * 2 <= pow2(64)) by {
            if i + 1 < 64 {
                lemma_pow2_strictly_increases((i + 1) as nat, 64);
            }
        }
        r = r * 2;
        i = i + 1;
    }
    proof {
        lemma_pow2_pos(k as nat);
        if k < 64 {
            lemma_pow2_strictly_increases(k as nat, 64);
        }
    }
    r
}

/// `m1 < m2 * 2^k`, for mantissas within the limit.
fn scaled_less(m1: i64, m2: i64, k: u32) -> (r: bool)
    requires
        -MANTISSA_LIMIT <= m1 <= MANTISSA_LIMIT,
        -MANTISSA_LIMIT <= m2 <= MANTISSA_LIMIT,
    ensures
        r == (m1 < m2 * (pow2(k as nat) as int)),
{
    let ghost p = pow2(k as nat) as int;
    proof {
        lemma_pow2_pos(k as nat);
        lemma2_to64();
    }
    if m2 == 0 {
        assert(m2 * p == 0);
        return m1 < 0;
    }
    if k > 64 {
        proof {
            lemma_pow2_strictly_increases(64, k as nat);
        }
        if m2 > 0 {
            assert(m2 * p >= p) by (nonlinear_arith)
                requires
                    m2 >= 1,
                    p > 0,
            ;
        } else {
            assert(m2 * p <= -p) by (nonlinear_arith)
                requires
                    m2 <= -1,
                    p > 0,
            ;
        }
        return m2 > 0;
    }
    let pk = pow2_i128(k);
    assert((m2 as int) * (pk as int) <= 9007199254740992 * (pk as int)) by (nonlinear_arith)
        requires
            m2 <= 9007199254740992,
            pk > 0,
    ;
    assert((m2 as int) * (pk as int) >= -9007199254740992 * (pk as int)) by (nonlinear_arith)
        requires
            m2 >= -9007199254740992,
            pk > 0,
    ;
    let prod = (m2 as i128) * pk;
    (m1 as i128) < prod
}

impl JsonNumber {
    #[verifier::type_invariant]
    spec fn within_limits(self) -> bool {
        &&& -MANTISSA_LIMIT <= self.mantissa <= MANTISSA_LIMIT
        &&& -EXPONENT_LIMIT <= self.exponent <= EXPONENT_LIMIT
    }

    /// How the number was written.
    pub closed spec fn kind_of(self) -> NumberKind {
        self.kind
    }

    /// The binary mantissa of the number's value as a double.
    pub closed spec fn mantissa_of(self) -> int {
        self.mantissa as int
    }

    /// The binary exponent of the number's value as a double.
    pub closed spec fn exponent_of(self) -> int {
        self.exponent as int
    }

    /// The text the number's double prints as.
    pub closed spec fn text_of(self) -> Seq<char> {
        self.text@
    }

    /// The number's value as a double is below `other`'s.
    pub open spec fn value_less(self, other: JsonNumber) -> bool {
        value_lt(self.mantissa_of(), self.exponent_of(), other.mantissa_of(), other.exponent_of())
    }

    /// The two numbers have the same value as doubles.
    pub open spec fn value_same(self, other: JsonNumber) -> bool {
        !self.value_less(other) && !other.value_less(self)
    }

    /// The number's value as a double is whole.
    pub open spec fn value_whole(self) -> bool {
        value_is_integer(self.mantissa_of(), self.exponent_of())
    }

    /// The number was written as an integer.
    pub open spec fn written_as_integer(self) -> bool {
        !(self.kind_of() is Float)
    }

    /// Equality of numbers as JSON values: integers by their value, other
    /// numbers by their value as doubles, and never an integer with a
    /// non-integer.
    pub open spec fn same_number(self, other: JsonNumber) -> bool {
        match (self.kind_of(), other.kind_of()) {
            (NumberKind::PosInt(a), NumberKind::PosInt(b)) => a == b,
            (NumberKind::NegInt(a), NumberKind::NegInt(b)) => a == b,
            (NumberKind::Float, NumberKind::Float) => self.value_same(other),
            _ => false,
        }
    }

    /// The number as a `u64`, when it was written as a non-negative integer.
    pub open spec fn as_u64_of(self) -> Option<u64> {
        match self.kind_of() {
            NumberKind::PosInt(n) => Some(n),
            _ => None,
        }
    }

    /// The number as an `i64`, when it was written as an integer in range.
    pub open spec fn as_i64_of(self) -> Option<i64> {
        match self.kind_of() {
            NumberKind::PosInt(n) => if n <= i64::MAX {
                Some(n as i64)
            } else {
                None
            },
            NumberKind::NegInt(n) => Some(n),
            NumberKind::Float => None,
        }
    }

    /// A number from its parts: how it was written, its value as a double
    /// (`mantissa * 2^exponent`) and the text that double prints as.
    pub fn new(kind: NumberKind, mantissa: i64, exponent: i32, text: String) -> (r: Self)
        requires
            -MANTISSA_LIMIT <= mantissa <= MANTISSA_LIMIT,
            -EXPONENT_LIMIT <= exponent <= EXPONENT_LIMIT,
        ensures
            r.kind_of() == kind,
            r.mantissa_of() == mantissa,
            r.exponent_of() == exponent,
            r.text_of() == text@,
    {
        JsonNumber { kind, mantissa, exponent, text }
    }

    /// A non-negative integer that a double holds exactly.
    pub fn from_u64(n: u64) -> (r: Self)
        requires
            n <= MANTISSA_LIMIT,
        ensures
            r.kind_of() == NumberKind::PosInt(n),
            r.mantissa_of() == n,
            r.exponent_of() == 0,
            r.text_of() == decimal(n as nat),
    {
        JsonNumber { kind: NumberKind::PosInt(n), mantissa: n as i64, exponent: 0, text: u64_to_decimal(n) }
    }

    /// An integer that a double holds exactly.
    pub fn from_i64(n: i64) -> (r: Self)
        requires
            -MANTISSA_LIMIT <= n <= MANTISSA_LIMIT,
        ensures
            r.kind_of() == (if n >= 0 {
                NumberKind::PosInt(n as u64)
            } else {
                NumberKind::NegInt(n)
            }),
            r.mantissa_of() == n,
            r.exponent_of() == 0,
            r.text_of() == signed_decimal(n as int),
    {
        let mut text = String::new();
        push_signed_decimal(&mut text, n);
        assert(text@ =~= signed_decimal(n as int));
        let kind = if n >= 0 {
            NumberKind::PosInt(n as u64)
        } else {
            NumberKind::NegInt(n)
        };
        JsonNumber { kind, mantissa: n, exponent: 0, text }
    }

    /// How the number was written.
    pub fn kind(&self) -> (r: NumberKind)
        ensures
            r == self.kind_of(),
    {
        self.kind
    }

    /// The text the number's double prints as.
    pub fn text(&self) -> (r: &str)
        ensures
            r@ == self.text_of(),
    {
        self.text.as_str()
    }

    /// The number as a `u64`, as `serde_json`'s `Number::as_u64`.
    pub fn as_u64(&self) -> (r: Option<u64>)
        ensures
            r == self.as_u64_of(),
    {
        match self.kind {
            NumberKind::PosInt(n) => Some(n),
            _ => None,
        }
    }

    /// The number as an `i64`, as `serde_json`'s `Number::as_i64`.
    pub fn as_i64(&self) -> (r: Option<i64>)
        ensures
            r == self.as_i64_of(),
    {
        match self.kind {
            NumberKind::PosInt(n) => if n <= 9223372036854775807u64 {
                Some(n as i64)
            } else {
                None
            },
            NumberKind::NegInt(n) => Some(n),
            NumberKind::Float => None,
        }
    }

    /// Whether the number was written as an integer.
    pub fn is_written_as_integer(&self) -> (r: bool)
        ensures
            r == self.written_as_integer(),
    {
        !matches!(self.kind, NumberKind::Float)
    }

    /// Whether the value of `self` as a double is below that of `other`.
    pub fn less_than(&self, other: &JsonNumber) -> (r: bool)
        ensures
            r == self.value_less(*other),
    {
        proof {
            use_type_invariant(self);
            use_type_invariant(other);
        }
        let m1 = self.mantissa;
        let e1 = self.exponent;
        let m2 = other.mantissa;
        let e2 = other.exponent;
        if e1 <= e2 {
            let k = (e2 - e1) as u32;
            proof {
                lemma2_to64();
                assert(scaled(m1 as int, e1 as int, e1 as int) == m1) by {
                    assert((e1 - e1) as nat == 0);
                }
            }
            scaled_less(m1, m2, k)
        } else {
            let k = (e1 - e2) as u32;
            let ghost p = pow2(k as nat) as int;
            proof {
                lemma2_to64();
                assert(scaled(m2 as int, e2 as int, e2 as int) == m2) by {
                    assert((e2 - e2) as nat == 0);
                }
                assert((-m1) * p == -(m1 * p)) by (nonlinear_arith);
            }
            let r = scaled_less(-m2, -m1, k);
            r
        }
    }

    /// Whether the two numbers have the same value as doubles.
    pub fn same_value(&self, other: &JsonNumber) -> (r: bool)
        ensures
            r == self.value_same(*other),
    {
        !self.less_than(other) && !other.less_than(self)
    }

    /// Whether the number's value as a double is whole (its fraction is zero).
    pub fn is_whole(&self) -> (r: bool)
        ensures
            r == self.value_whole(),
    {
        proof {
            use_type_invariant(self);
        }
        let m = self.mantissa;
        let e = self.exponent;
        if e >= 0 {
            return true;
        }
        let k = (-e) as u32;
        let a: u64 = if m < 0 {
            (-m) as u64
        } else {
            m as u64
        };
        assert(a == abs(m as int));
        if k >= 64 {
            proof {
                lemma2_to64();
                if k > 64 {
                    lemma_pow2_strictly_increases(64, k as nat);
                }
                lemma_small_mod(a as nat, pow2(k as nat));
            }
            return a == 0;
        }
        let p = pow2_i128(k);
        proof {
            lemma2_to64();
            lemma_pow2_strictly_increases(k as nat, 64);
        }
        let pu = p as u64;
        a % pu == 0
    }

    /// Equality of numbers as JSON values, as `serde_json`'s `Number`
    /// equality.
    pub fn equals(&self, other: &JsonNumber) -> (r: bool)
        ensures
            r == self.same_number(*other),
    {
        match (self.kind, other.kind) {
            (NumberKind::PosInt(a), NumberKind::PosInt(b)) => a == b,
            (NumberKind::NegInt(a), NumberKind::NegInt(b)) => a == b,
            (NumberKind::Float, NumberKind::Float) => self.same_value(other),
            _ => false,
        }
    }
}

impl Clone for JsonNumber {
    fn clone(&self) -> (r: Self)
        ensures
            r == *self,
    {
        proof {
            use_type_invariant(self);
        }
        JsonNumber { kind: self.kind, mantissa: self.mantissa, exponent: self.exponent, text: self.text.clone() }
    }
}

/// Comparing numbers by value is a strict order: no number is below itself,
/// and a number below one that is below a third is below the third.
pub proof fn lemma_value_less_strict_order(a: JsonNumber, b: JsonNumber, c: JsonNumber)
    ensures
        !a.value_less(a),
        a.value_less(b) && b.value_less(c) ==> a.value_less(c),
{
    let lo = if a.exponent_of() <= b.exponent_of() && a.exponent_of() <= c.exponent_of() {
        a.exponent_of()
    } else if b.exponent_of() <= c.exponent_of() {
        b.exponent_of()
    } else {
        c.exponent_of()
    };
    lemma_value_lt_at(a.mantissa_of(), a.exponent_of(), a.mantissa_of(), a.exponent_of(), lo);
    lemma_value_lt_at(a.mantissa_of(), a.exponent_of(), b.mantissa_of(), b.exponent_of(), lo);
    lemma_value_lt_at(b.mantissa_of(), b.exponent_of(), c.mantissa_of(), c.exponent_of(), lo);
    lemma_value_lt_at(a.mantissa_of(), a.exponent_of(), c.mantissa_of(), c.exponent_of(), lo);
}

/// Having the same value is an equivalence between numbers.
pub proof fn lemma_value_same_equivalence(a: JsonNumber, b: JsonNumber, c: JsonNumber)
    ensures
        a.value_same(a),
        a.value_same(b) ==> b.value_same(a),
        a.value_same(b) && b.value_same(c) ==> a.value_same(c),
{
    let lo = if a.exponent_of() <= b.exponent_of() && a.exponent_of() <= c.exponent_of() {
        a.exponent_of()
    } else if b.exponent_of() <= c.exponent_of() {
        b.exponent_of()
    } else {
        c.exponent_of()
    };
    lemma_value_lt_at(a.mantissa_of(), a.exponent_of(), b.mantissa_of(), b.exponent_of(), lo);
    lemma_value_lt_at(b.mantissa_of(), b.exponent_of(), a.mantissa_of(), a.exponent_of(), lo);
    lemma_value_lt_at(b.mantissa_of(), b.exponent_of(), c.mantissa_of(), c.exponent_of(), lo);
    lemma_value_lt_at(c.mantissa_of(), c.exponent_of(), b.mantissa_of(), b.exponent_of(), lo);
    lemma_value_lt_at(a.mantissa_of(), a.exponent_of(), c.mantissa_of(), c.exponent_of(), lo);
    lemma_value_lt_at(c.mantissa_of(), c.exponent_of(), a.mantissa_of(), a.exponent_of(), lo);
    lemma_value_lt_at(a.mantissa_of(), a.exponent_of(), a.mantissa_of(), a.exponent_of(), lo);
}

} // verus!
