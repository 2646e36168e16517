//! Arithmetic in the integers modulo `p`: the prime field `F_p` when `p`
//! is prime. Every element carries its modulus, so values from different
//! fields can never be combined silently.
use vstd::arithmetic::div_mod::{
    lemma_add_mod_noop, lemma_fundamental_div_mod, lemma_mod_multiples_basic,
    lemma_mod_multiples_vanish, lemma_mod_self_0,
    lemma_mul_mod_noop_right, lemma_small_mod, lemma_sub_mod_noop,
};
use vstd::arithmetic::mul::{
    lemma_mul_is_associative, lemma_mul_is_commutative, lemma_mul_is_distributive_add,
    lemma_mul_basics, lemma_mul_is_distributive_sub, lemma_mul_upper_bound,
};
use vstd::prelude::*;

verus! {

/// Error for operations that are not defined in the field, such as
/// inverting the additive identity.
#[derive(Clone, Debug)]
pub struct FiniteFieldError {
    pub details: String,
}

impl FiniteFieldError {
    pub fn new(msg: &str) -> (r: FiniteFieldError)
        ensures
            r.details@ == msg@,
    {
        FiniteFieldError { details: msg.to_owned() }
    }
}

/// An element of the integers modulo `p`, always kept reduced:
/// `value < p`.
#[derive(Clone, Copy, Debug, PartialEq, Eq, Structural)]
pub struct FiniteField {
    pub value: u64,
    pub p: u64,
}

/// Greatest common divisor; `a` is invertible modulo `p` exactly when
/// `spec_gcd(a, p) == 1`.
pub open spec fn spec_gcd(a: nat, b: nat) -> nat
    decreases b,
{
    if b == 0 {
        a
    } else {
        spec_gcd(b, a % b)
    }
}

impl FiniteField {
    /// A well-formed element is reduced modulo a positive modulus.
    pub open spec fn wf(self) -> bool {
        self.value < self.p
    }

    pub open spec fn spec_new(value: u64, p: u64) -> FiniteField {
        FiniteField { value: value % p, p }
    }

    /// Constructs the element `value mod p`.
    pub fn new(value: u64, p: u64) -> (r: FiniteField)
        requires
            p >= 1,
        ensures
            r == Self::spec_new(value, p),
            r.wf(),
            r.p == p,
            r.value == value % p,
    {
        FiniteField { value: value % p, p }
    }

    pub open spec fn spec_zero(p: u64) -> FiniteField {
        FiniteField { value: 0, p }
    }

    /// The additive identity of `F_p`.
    pub fn zero(p: u64) -> (r: FiniteField)
        requires
            p >= 1,
        ensures
            r == Self::spec_zero(p),
            r.wf(),
    {
        FiniteField { value: 0, p }
    }

    pub open spec fn spec_one(p: u64) -> FiniteField {
        FiniteField { value: 1, p }
    }

    /// The multiplicative identity of `F_p`.
    pub fn one(p: u64) -> (r: FiniteField)
        requires
            p >= 2,
        ensures
            r == Self::spec_one(p),
            r.wf(),
    {
        FiniteField { value: 1, p }
    }

    pub open spec fn spec_neg_one(p: u64) -> FiniteField {
        FiniteField { value: (p - 1) as u64, p }
    }

    /// The additive inverse of one: the constant `-1` of `F_p`.
    pub fn neg_one(p: u64) -> (r: FiniteField)
        requires
            p >= 2,
        ensures
            r == Self::spec_neg_one(p),
            r.wf(),
    {
        FiniteField { value: p - 1, p }
    }

    pub open spec fn spec_add(self, other: FiniteField) -> FiniteField {
        FiniteField { value: ((self.value + other.value) % (self.p as int)) as u64, p: self.p }
    }

    /// Modular addition. Elements of different moduli cannot be added.
    pub fn add(self, other: FiniteField) -> (r: FiniteField)
        requires
            self.wf(),
            other.wf(),
            self.p == other.p,
        ensures
            r == self.spec_add(other),
            r.wf(),
            r.p == self.p,
    {
        let v = ((self.value as u128 + other.value as u128) % (self.p as u128)) as u64;
        FiniteField { value: v, p: self.p }
    }

    pub open spec fn spec_sub(self, other: FiniteField) -> FiniteField {
        FiniteField {
            value: ((self.value + self.p - other.value) % (self.p as int)) as u64,
            p: self.p,
        }
    }

    /// Modular subtraction, computed as `self + (p - other)`.
    pub fn sub(self, other: FiniteField) -> (r: FiniteField)
        requires
            self.wf(),
            other.wf(),
            self.p == other.p,
        ensures
            r == self.spec_sub(other),
            r.wf(),
            r.p == self.p,
    {
        let v = ((self.value as u128 + (self.p - other.value) as u128) % (self.p as u128)) as u64;
        FiniteField { value: v, p: self.p }
    }

    pub open spec fn spec_mul(self, other: FiniteField) -> FiniteField {
        FiniteField { value: ((self.value * other.value) % (self.p as int)) as u64, p: self.p }
    }

    /// Modular multiplication.
    pub fn mul(self, other: FiniteField) -> (r: FiniteField)
        requires
            self.wf(),
            other.wf(),
            self.p == other.p,
        ensures
            r == self.spec_mul(other),
            r.wf(),
            r.p == self.p,
    {
        proof {
            lemma_mul_upper_bound(
                self.value as int,
                u64::MAX as int,
                other.value as int,
                u64::MAX as int,
            );
        }
        let v = ((self.value as u128 * other.value as u128) % (self.p as u128)) as u64;
        FiniteField { value: v, p: self.p }
    }

    /// Multiplicative inverse by the extended Euclidean algorithm.
    /// Succeeds exactly when the value is nonzero and coprime to the
    /// modulus, which for a prime modulus is every nonzero element;
    /// the result is the unique element with `self * r == 1`.
    pub fn inverse(&self) -> (r: Result<FiniteField, FiniteFieldError>)
        requires
            self.wf(),
        ensures
            r is Ok <==> (self.value != 0 && spec_gcd(self.value as nat, self.p as nat) == 1),
            r matches Ok(inv) ==> inv.wf() && inv.p == self.p && (self.value * inv.value) % (
            self.p as int) == 1,
    {
        if self.value == 0 {
            return Err(FiniteFieldError::new("division by zero"));
        }
        let p = self.p;
        let a = self.value;
        let mut u = a;
        let mut v = p;
        let mut x0: u64 = 1;
        let mut x1: u64 = 0;
        proof {
            assert(spec_gcd(u as nat, v as nat) == spec_gcd(a as nat, p as nat));
            assert((a * x0) % (p as int) == (u as int) % (p as int)) by {
                lemma_small_mod(a as nat, p as nat);
            };
            assert(a * x1 == 0) by {
                lemma_mul_basics(a as int);
            };
            assert(0int % (p as int) == 0) by {
                lemma_small_mod(0nat, p as nat);
            };
            assert((v as int) % (p as int) == 0) by {
                lemma_mod_self_0(p as int);
            };
            assert((a * x1) % (p as int) == (v as int) % (p as int));
        }
        while v != 0
            invariant
                2 <= p,
                x0 < p,
                x1 < p,
                spec_gcd(u as nat, v as nat) == spec_gcd(a as nat, p as nat),
                (a * x0) % (p as int) == (u as int) % (p as int),
                (a * x1) % (p as int) == (v as int) % (p as int),
            decreases v,
        {
            let q = u / v;
            let r = u % v;
            proof {
                lemma_mul_upper_bound(q as int, u64::MAX as int, x1 as int, u64::MAX as int);
            }
            let qx1 = ((q as u128 * x1 as u128) % (p as u128)) as u64;
            let x2 = ((x0 as u128 + (p - qx1) as u128) % (p as u128)) as u64;
            proof {
                lemma_extended_euclid_step(a as int, p as int, u as int, v as int, q as int,
                    r as int, x0 as int, x1 as int, qx1 as int, x2 as int);
                assert(spec_gcd(v as nat, r as nat) == spec_gcd(u as nat, v as nat));
            }
            u = v;
            v = r;
            x0 = x1;
            x1 = x2;
        }
        if u == 1 {
            proof {
                lemma_small_mod(1nat, p as nat);
            }
            Ok(FiniteField { value: x0, p })
        } else {
            Err(FiniteFieldError::new("element is not invertible under this modulus"))
        }
    }

    /// Modular division: `self * other.inverse()`. Fails exactly when
    /// `other` has no inverse; otherwise the result is the unique
    /// element with `r * other == self`.
    pub fn div(self, other: FiniteField) -> (r: Result<FiniteField, FiniteFieldError>)
        requires
            self.wf(),
            other.wf(),
            self.p == other.p,
        ensures
            r is Ok <==> (other.value != 0 && spec_gcd(other.value as nat, other.p as nat) == 1),
            r matches Ok(q) ==> q.wf() && q.p == self.p && (q.value * other.value) % (
            self.p as int) == self.value,
    {
        match other.inverse() {
            Ok(inv) => {
                let q = self.mul(inv);
                proof {
                    lemma_div_recovers_dividend(self.value as int, other.value as int,
                        inv.value as int, self.p as int);
                }
                Ok(q)
            },
            Err(e) => Err(e),
        }
    }
}

/// One step of the extended Euclidean loop: dividing `u` by `v` and
/// updating the Bezout coefficient modulo `p` preserves the congruences
/// that tie the coefficients to the remainders.
proof fn lemma_extended_euclid_step(
    a: int,
    p: int,
    u: int,
    v: int,
    q: int,
    r: int,
    x0: int,
    x1: int,
    qx1: int,
    x2: int,
)
    requires
        p >= 2,
        0 <= a,
        0 <= u,
        0 < v,
        0 <= x0 < p,
        0 <= x1 < p,
        q == u / v,
        r == u % v,
        qx1 == (q * x1) % p,
        x2 == (x0 + p - qx1) % p,
        (a * x0) % p == u % p,
        (a * x1) % p == v % p,
    ensures
        0 <= x2 < p,
        (a * x2) % p == r % p,
{
    // a * x2 == a * ((x0 + p - qx1) % p) ≡ a*x0 + a*p - a*qx1 (mod p)
    lemma_mul_mod_noop_right(a, x0 + p - qx1, p);
    assert(a * (x0 + p - qx1) == a * x0 + a * p - a * qx1) by {
        lemma_mul_is_distributive_sub(a, x0 + p, qx1);
        lemma_mul_is_distributive_add(a, x0, p);
    }
    // the a*p summand vanishes modulo p
    assert((a * x0 + a * p - a * qx1) % p == (a * x0 - a * qx1) % p) by {
        lemma_mod_multiples_vanish(a, a * x0 - a * qx1, p);
    }
    // a * qx1 ≡ a * q * x1 ≡ q * (a * x1) ≡ q * v (mod p)
    assert((a * qx1) % p == (q * v) % p) by {
        lemma_mul_mod_noop_right(a, q * x1, p);
        lemma_mul_is_associative(a, q, x1);
        lemma_mul_is_commutative(a, q);
        lemma_mul_is_associative(q, a, x1);
        lemma_mul_mod_noop_right(q, a * x1, p);
        lemma_mul_mod_noop_right(q, v, p);
    }
    // so a*x2 ≡ a*x0 - q*v ≡ u - q*v == r (mod p)
    lemma_sub_mod_noop(a * x0, a * qx1, p);
    lemma_sub_mod_noop(u, q * v, p);
    assert(u - q * v == r) by {
        lemma_fundamental_div_mod(u, v);
    }
}

/// Multiplying a value by an inverse of `b` yields the unique quotient:
/// `(a * binv) * b ≡ a (mod p)` whenever `binv * b ≡ 1 (mod p)`.
proof fn lemma_div_recovers_dividend(a: int, b: int, binv: int, p: int)
    requires
        p >= 2,
        0 <= a < p,
        0 <= b,
        0 <= binv,
        (b * binv) % p == 1,
    ensures
        ((a * binv) % p * b) % p == a,
{
    lemma_mul_mod_noop_right(b, a * binv, p);
    lemma_mul_is_commutative((a * binv) % p, b);
    lemma_mul_mod_noop_right(a, b * binv, p);
    assert(b * (a * binv) == a * (b * binv)) by {
        lemma_mul_is_associative(b, a, binv);
        lemma_mul_is_commutative(b, a);
        lemma_mul_is_associative(a, b, binv);
    }
    assert((a * ((b * binv) % p)) % p == (a * 1) % p);
    lemma_small_mod(a as nat, p as nat);
}

/// `p` has no divisor strictly between one and itself.
pub open spec fn spec_is_prime(p: nat) -> bool {
    p >= 2 && forall|d: nat| 2 <= d < p ==> #[trigger] (p % d) != 0
}

/// The greatest common divisor is positive and divides both arguments.
pub proof fn lemma_gcd_divides(a: nat, b: nat)
    requires
        a > 0 || b > 0,
    ensures
        spec_gcd(a, b) > 0,
        a % spec_gcd(a, b) == 0,
        b % spec_gcd(a, b) == 0,
    decreases b,
{
    if b == 0 {
        lemma_mod_self_0(a as int);
    } else {
        lemma_gcd_divides(b, a % b);
        let g = spec_gcd(a, b);
        let q = a as int / b as int;
        let r = a as int % b as int;
        lemma_fundamental_div_mod(a as int, b as int);
        // b is a multiple of g, so b * q is too, and a = b * q + r
        assert((b as int * q) % (g as int) == 0) by {
            lemma_fundamental_div_mod(b as int, g as int);
            assert(b as int == g as int * (b as int / g as int));
            lemma_mul_is_associative(g as int, b as int / g as int, q);
            lemma_mod_multiples_basic((b as int / g as int) * q, g as int);
        }
        assert((b as int * q + r) % (g as int) == 0) by {
            lemma_add_mod_noop(b as int * q, r, g as int);
            lemma_small_mod(0nat, g);
        }
    }
}

/// Law: over a prime modulus every nonzero reduced element is coprime
/// to the modulus, so by the contract of `inverse` it has a
/// multiplicative inverse and `a * inverse(a) == 1`.
pub proof fn lemma_prime_nonzero_invertible(a: u64, p: u64)
    requires
        spec_is_prime(p as nat),
        0 < a < p,
    ensures
        spec_gcd(a as nat, p as nat) == 1,
{
    let g = spec_gcd(a as nat, p as nat);
    lemma_gcd_divides(a as nat, p as nat);
    if g > a {
        lemma_small_mod(a as nat, g);
    }
    if g >= 2 {
        assert((p as nat) % g != 0);
    }
}

/// Field law: addition is commutative.
pub proof fn lemma_add_comm(a: FiniteField, b: FiniteField)
    requires
        a.wf(),
        b.wf(),
        a.p == b.p,
    ensures
        a.spec_add(b) == b.spec_add(a),
{
}

/// Field law: addition is associative.
pub proof fn lemma_add_assoc(a: FiniteField, b: FiniteField, c: FiniteField)
    requires
        a.wf(),
        b.wf(),
        c.wf(),
        a.p == b.p,
        b.p == c.p,
    ensures
        a.spec_add(b).spec_add(c) == a.spec_add(b.spec_add(c)),
{
    let p = a.p as int;
    lemma_small_mod(c.value as nat, a.p as nat);
    lemma_small_mod(a.value as nat, a.p as nat);
    lemma_add_mod_noop(a.value + b.value, c.value as int, p);
    lemma_add_mod_noop(a.value as int, b.value + c.value, p);
}

/// Field law: multiplication is commutative.
pub proof fn lemma_mul_comm(a: FiniteField, b: FiniteField)
    requires
        a.wf(),
        b.wf(),
        a.p == b.p,
    ensures
        a.spec_mul(b) == b.spec_mul(a),
{
    lemma_mul_is_commutative(a.value as int, b.value as int);
}

/// Field law: multiplication is associative.
pub proof fn lemma_mul_assoc(a: FiniteField, b: FiniteField, c: FiniteField)
    requires
        a.wf(),
        b.wf(),
        c.wf(),
        a.p == b.p,
        b.p == c.p,
    ensures
        a.spec_mul(b).spec_mul(c) == a.spec_mul(b.spec_mul(c)),
{
    let p = a.p as int;
    let (av, bv, cv) = (a.value as int, b.value as int, c.value as int);
    assert((((av * bv) % p) * cv) % p == (av * bv * cv) % p) by {
        lemma_mul_mod_noop_right(cv, av * bv, p);
        lemma_mul_is_commutative(((av * bv) % p), cv);
        lemma_mul_is_commutative((av * bv), cv);
    }
    assert((av * ((bv * cv) % p)) % p == (av * (bv * cv)) % p) by {
        lemma_mul_mod_noop_right(av, bv * cv, p);
    }
    lemma_mul_is_associative(av, bv, cv);
}

/// Field law: multiplication distributes over addition.
pub proof fn lemma_mul_distributes(a: FiniteField, b: FiniteField, c: FiniteField)
    requires
        a.wf(),
        b.wf(),
        c.wf(),
        a.p == b.p,
        b.p == c.p,
    ensures
        a.spec_mul(b.spec_add(c)) == a.spec_mul(b).spec_add(a.spec_mul(c)),
{
    let p = a.p as int;
    let (av, bv, cv) = (a.value as int, b.value as int, c.value as int);
    assert((av * ((bv + cv) % p)) % p == (av * (bv + cv)) % p) by {
        lemma_mul_mod_noop_right(av, bv + cv, p);
    }
    lemma_mul_is_distributive_add(av, bv, cv);
    lemma_add_mod_noop(av * bv, av * cv, p);
}

/// Field law: zero is the additive identity.
pub proof fn lemma_add_zero(a: FiniteField)
    requires
        a.wf(),
    ensures
        a.spec_add(FiniteField::spec_zero(a.p)) == a,
{
    lemma_small_mod(a.value as nat, a.p as nat);
}

/// Field law: one is the multiplicative identity.
pub proof fn lemma_mul_one(a: FiniteField)
    requires
        a.wf(),
        a.p >= 2,
    ensures
        a.spec_mul(FiniteField::spec_one(a.p)) == a,
{
    lemma_small_mod(a.value as nat, a.p as nat);
}

} // verus!
