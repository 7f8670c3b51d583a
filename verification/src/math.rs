//! Modular arithmetic on big natural numbers given as little-endian byte
//! strings (see `bignum`).
use vstd::prelude::*;
use vstd::arithmetic::div_mod::*;
use vstd::arithmetic::mul::*;
use rand::Rng;
use crate::bignum::{
    biguint_add, biguint_gcd, biguint_modpow, biguint_mul, biguint_rem, biguint_sub, canonical,
    gcd_nat, le_bytes, le_value, lemma_le_bytes_injective, lemma_le_value_bound,
    lemma_le_value_le_bytes, lemma_le_value_single, nat_pow, int_value, trunc_div, trunc_rem,
    bigint_add, bigint_div, bigint_from_biguint, bigint_is_one, bigint_is_zero, bigint_mul,
    bigint_rem, bigint_sub, bigint_to_biguint,
};

verus! {

/// Number of random bytes in a fresh label.
pub const BYTES_SIZE: usize = 128;

/// Number of random bits in a fresh label.
pub const BIT_SIZE: usize = BYTES_SIZE * 8;

/// `(a^e1 mod m) * (b^e2 mod m) mod m`.
pub open spec fn bipow_mul(a: nat, e1: nat, b: nat, e2: nat, m: nat) -> nat {
    ((nat_pow(a, e1) % m) * (nat_pow(b, e2) % m)) % m
}

/// Reducing each power first does not change the product modulo `m`:
/// `bipow_mul(a, e1, b, e2, m) == a^e1 * b^e2 mod m`, with the full values.
pub proof fn lemma_bipow_mul_is_product(a: nat, e1: nat, b: nat, e2: nat, m: nat)
    requires
        m > 0,
    ensures
        bipow_mul(a, e1, b, e2, m) == (nat_pow(a, e1) * nat_pow(b, e2)) % m,
{
    let x = nat_pow(a, e1) as int;
    let y = nat_pow(b, e2) as int;
    let mi = m as int;
    lemma_mul_mod_noop_left(x, y % mi, mi);
    lemma_mul_mod_noop_right(x, y, mi);
}

/// The inverse of `a` modulo `m`: the `x` below `m` with `a * x == 1 (mod m)`
/// (meaningful when `gcd(a, m) == 1`).
pub open spec fn inv_mod(a: nat, m: nat) -> nat {
    choose|x: nat| x < m && #[trigger] ((a * x) % m) == 1nat % m
}

/// `(a + b) mod m`.
pub fn mod_add(a: &Vec<u8>, b: &Vec<u8>, m: &Vec<u8>) -> (r: Vec<u8>)
    requires
        le_value(m@) > 0,
    ensures
        r@ == le_bytes((le_value(a@) + le_value(b@)) % le_value(m@)),
{
    let s = biguint_add(a, b);
    proof {
        lemma_le_value_le_bytes(le_value(a@) + le_value(b@));
    }
    biguint_rem(&s, m)
}

/// `((a + m) - b) mod m`; it needs `b <= a + m`.
pub fn mod_sub(a: &Vec<u8>, b: &Vec<u8>, m: &Vec<u8>) -> (r: Vec<u8>)
    requires
        le_value(m@) > 0,
        le_value(b@) <= le_value(a@) + le_value(m@),
    ensures
        r@ == le_bytes(((le_value(a@) + le_value(m@) - le_value(b@)) as nat) % le_value(m@)),
{
    let s = biguint_add(a, m);
    proof {
        lemma_le_value_le_bytes(le_value(a@) + le_value(m@));
    }
    let d = biguint_sub(&s, b);
    proof {
        lemma_le_value_le_bytes((le_value(a@) + le_value(m@) - le_value(b@)) as nat);
    }
    biguint_rem(&d, m)
}

/// `(a * b) mod m`.
pub fn mod_mul(a: &Vec<u8>, b: &Vec<u8>, m: &Vec<u8>) -> (r: Vec<u8>)
    requires
        le_value(m@) > 0,
    ensures
        r@ == le_bytes((le_value(a@) * le_value(b@)) % le_value(m@)),
{
    let p = biguint_mul(a, b);
    proof {
        lemma_le_value_le_bytes(le_value(a@) * le_value(b@));
    }
    biguint_rem(&p, m)
}

/// `base^exp mod m`.
pub fn mod_pow(base: &Vec<u8>, exp: &Vec<u8>, m: &Vec<u8>) -> (r: Vec<u8>)
    requires
        le_value(m@) > 0,
    ensures
        r@ == le_bytes(nat_pow(le_value(base@), le_value(exp@)) % le_value(m@)),
{
    biguint_modpow(base, exp, m)
}

/// `a^e1 * b^e2 mod m`, each power reduced modulo `m` first.
pub fn mod_bipow_mul(a: &Vec<u8>, e1: &Vec<u8>, b: &Vec<u8>, e2: &Vec<u8>, m: &Vec<u8>) -> (r: Vec<u8>)
    requires
        le_value(m@) > 0,
    ensures
        r@ == le_bytes(bipow_mul(le_value(a@), le_value(e1@), le_value(b@), le_value(e2@), le_value(m@))),
        r@ == le_bytes(
            (nat_pow(le_value(a@), le_value(e1@)) * nat_pow(le_value(b@), le_value(e2@))) % le_value(
                m@,
            ),
        ),
{
    let a_pow = mod_pow(a, e1, m);
    let b_pow = mod_pow(b, e2, m);
    proof {
        lemma_le_value_le_bytes(nat_pow(le_value(a@), le_value(e1@)) % le_value(m@));
        lemma_le_value_le_bytes(nat_pow(le_value(b@), le_value(e2@)) % le_value(m@));
    }
    proof {
        lemma_bipow_mul_is_product(le_value(a@), le_value(e1@), le_value(b@), le_value(e2@), le_value(m@));
    }
    mod_mul(&a_pow, &b_pow, m)
}

/// On non-negative operands the truncating quotient and remainder are the
/// ordinary ones.
proof fn lemma_trunc_nonneg(x: int, y: int)
    requires
        x >= 0,
        y > 0,
    ensures
        trunc_div(x, y) == x / y,
        trunc_rem(x, y) == x % y,
{
}

/// A truncating remainder by a positive divisor is congruent to the dividend
/// and lies strictly between `-y` and `y`.
proof fn lemma_trunc_rem_congruent(x: int, y: int)
    requires
        y > 0,
    ensures
        trunc_rem(x, y) % y == x % y,
        -y < trunc_rem(x, y) < y,
{
    if x < 0 {
        let t = (-x) % y;
        let q = (-x) / y;
        lemma_fundamental_div_mod(-x, y);
        lemma_mod_bound(-x, y);
        assert(-t == x + y * q);
        lemma_mod_multiples_vanish(q, x, y);
    } else {
        lemma_mod_bound(x, y);
        lemma_mod_twice(x, y);
    }
}

/// The inverse of `a` modulo `m`, when there is one, is unique below `m`.
pub proof fn lemma_inverse_unique(a: nat, m: nat, x: nat, y: nat)
    requires
        m > 0,
        x < m,
        y < m,
        (a * x) % m == 1nat % m,
        (a * y) % m == 1nat % m,
    ensures
        x == y,
{
    let mi = m as int;
    let ai = a as int;
    let xi = x as int;
    let yi = y as int;
    assert(xi * (ai * yi) == (ai * xi) * yi) by (nonlinear_arith);
    lemma_mul_mod_noop_right(xi, ai * yi, mi);
    lemma_mul_mod_noop_right(xi, 1, mi);
    lemma_mul_mod_noop_left(ai * xi, yi, mi);
    lemma_mul_mod_noop_left(1, yi, mi);
    lemma_small_mod(x, m);
    lemma_small_mod(y, m);
}

/// An inverse found below `m` is the one `inv_mod` names.
pub proof fn lemma_inv_mod_is(a: nat, m: nat, x: nat)
    requires
        m > 0,
        x < m,
        (a * x) % m == 1nat % m,
    ensures
        inv_mod(a, m) == x,
        inv_mod(a, m) < m,
        (a * inv_mod(a, m)) % m == 1nat % m,
{
    let y = inv_mod(a, m);
    assert(y < m && (a * y) % m == 1nat % m);
    lemma_inverse_unique(a, m, x, y);
}

/// Bezout coefficients `(x, y)` of `a` and `b`, by the extended Euclidean
/// recursion.
spec fn bezout(a: nat, b: nat) -> (int, int)
    decreases b,
{
    if b == 0 {
        (1, 0)
    } else {
        let (x1, y1) = bezout(b, a % b);
        (y1, x1 - (a / b) as int * y1)
    }
}

/// Bezout's identity: `a * x + b * y == gcd(a, b)`.
proof fn lemma_bezout(a: nat, b: nat)
    ensures
        a * bezout(a, b).0 + b * bezout(a, b).1 == gcd_nat(a, b),
    decreases b,
{
    if b != 0 {
        lemma_bezout(b, a % b);
        let (x1, y1) = bezout(b, a % b);
        let ai = a as int;
        let bi = b as int;
        let q = (a / b) as int;
        let r = (a % b) as int;
        lemma_fundamental_div_mod(ai, bi);
        assert(ai * y1 + bi * (x1 - q * y1) == bi * x1 + r * y1) by (nonlinear_arith)
            requires
                ai == bi * q + r,
        ;
    }
}

/// A number coprime to `m > 0` has an inverse modulo `m`, which `inv_mod` names.
pub proof fn lemma_coprime_inverse(a: nat, m: nat)
    requires
        m > 0,
        gcd_nat(a, m) == 1,
    ensures
        inv_mod(a, m) < m,
        (a * inv_mod(a, m)) % m == 1nat % m,
{
    lemma_bezout(a, m);
    let (x, y) = bezout(a, m);
    let ai = a as int;
    let mi = m as int;
    let w = x % mi;
    lemma_mod_bound(x, mi);
    assert(ai * x == 1 + mi * (-y)) by (nonlinear_arith)
        requires
            ai * x + mi * y == 1,
    ;
    lemma_mod_multiples_vanish(-y, 1, mi);
    lemma_mul_mod_noop_right(ai, x, mi);
    lemma_mul_mod_noop_right(ai, w, mi);
    lemma_mod_twice(x, mi);
    assert((ai * w) % mi == 1int % mi);
    lemma_inv_mod_is(a, m, w as nat);
}

/// The gcd of two numbers, not both zero, is positive and divides both.
proof fn lemma_gcd_divides(a: nat, b: nat)
    requires
        a > 0 || b > 0,
    ensures
        gcd_nat(a, b) > 0,
        a % gcd_nat(a, b) == 0,
        b % gcd_nat(a, b) == 0,
    decreases b,
{
    if b == 0 {
        lemma_mod_self_0(a as int);
        lemma_small_mod(0, a);
    } else {
        let r = a % b;
        let q = a / b;
        lemma_gcd_divides(b, r);
        let g = gcd_nat(a, b);
        let gi = g as int;
        lemma_fundamental_div_mod(b as int, gi);
        lemma_fundamental_div_mod(r as int, gi);
        lemma_fundamental_div_mod(a as int, b as int);
        let kb = (b / g) as int;
        let kr = (r / g) as int;
        assert(a as int == ((kb * q + kr) * gi)) by (nonlinear_arith)
            requires
                a as int == (b as int) * (q as int) + r as int,
                b as int == gi * kb,
                r as int == gi * kr,
        ;
        lemma_mod_multiples_basic(kb * q + kr, gi);
    }
}

/// `a` has an inverse modulo `m > 0` exactly when `gcd(a, m) == 1`; so
/// `is_invertible` holds exactly when `mod_inv` returns an inverse.
pub proof fn lemma_invertible_iff_inverse_exists(a: nat, m: nat)
    requires
        m > 0,
    ensures
        gcd_nat(a, m) == 1 <==> exists|x: nat| x < m && #[trigger] ((a * x) % m) == 1nat % m,
{
    if gcd_nat(a, m) == 1 {
        lemma_coprime_inverse(a, m);
        let x = inv_mod(a, m);
        assert(x < m && (a * x) % m == 1nat % m);
    }
    if exists|x: nat| x < m && #[trigger] ((a * x) % m) == 1nat % m {
        let x = choose|x: nat| x < m && #[trigger] ((a * x) % m) == 1nat % m;
        lemma_gcd_divides(a, m);
        let g = gcd_nat(a, m);
        if m == 1 {
            assert(gcd_nat(a, 1) == gcd_nat(1, a % 1));
            lemma_small_mod(0, 1);
            assert(a % 1 == 0);
            assert(gcd_nat(1, 0) == 1);
        } else {
            let gi = g as int;
            let ai = a as int;
            let mi = m as int;
            let xi = x as int;
            let q = (ai * xi) / mi;
            lemma_fundamental_div_mod(ai * xi, mi);
            lemma_small_mod(1, m);
            lemma_fundamental_div_mod(ai, gi);
            lemma_fundamental_div_mod(mi, gi);
            let ka = ai / gi;
            let km = mi / gi;
            assert(1 == gi * (ka * xi - km * q)) by (nonlinear_arith)
                requires
                    ai * xi == mi * q + 1,
                    ai == gi * ka,
                    mi == gi * km,
            ;
            assert(gi == 1) by (nonlinear_arith)
                requires
                    gi > 0,
                    1 == gi * (ka * xi - km * q),
            ;
        }
    }
}

/// Subtracting `b` undoes adding it: `mod_sub(mod_add(a, b, m), b, m)` is
/// `a mod m`, for every `b` that `mod_sub` accepts there.
pub proof fn lemma_mod_sub_undoes_mod_add(a: nat, b: nat, m: nat)
    requires
        m > 0,
        b <= le_value(le_bytes((a + b) % m)) + m,
    ensures
        ({
            let s = le_value(le_bytes((a + b) % m));
            ((s + m - b) as nat) % m == a % m
        }),
{
    lemma_le_value_le_bytes((a + b) % m);
    let q = ((a + b) / m) as int;
    lemma_fundamental_div_mod((a + b) as int, m as int);
    let t = ((a + b) % m) as int;
    assert(t + m - b == a as int + (m as int) * (1 - q)) by (nonlinear_arith)
        requires
            (a + b) as int == (m as int) * q + t,
    ;
    lemma_mod_multiples_vanish(1 - q, a as int, m as int);
}

/// The extended Euclidean algorithm on non-negative `a` and `b` (two's
/// complement): a triple `(g, x, y)` with `g == gcd(a, b) == a * x + b * y`.
fn extended_gcd(a: &Vec<u8>, b: &Vec<u8>) -> (r: (Vec<u8>, Vec<u8>, Vec<u8>))
    requires
        int_value(a@) >= 0,
        int_value(b@) >= 0,
    ensures
        int_value(r.0@) == gcd_nat(int_value(a@) as nat, int_value(b@) as nat),
        int_value(a@) * int_value(r.1@) + int_value(b@) * int_value(r.2@) == int_value(r.0@),
    decreases int_value(b@),
{
    if bigint_is_zero(b) {
        let one = vec![1u8];
        let zero = vec![0u8];
        proof {
            assert(one@ =~= seq![1u8]);
            assert(zero@ =~= seq![0u8]);
            lemma_le_value_single(1u8);
            lemma_le_value_single(0u8);
        }
        let g = a.clone();
        assert(g@ =~= a@);
        (g, one, zero)
    } else {
        let rem = bigint_rem(a, b);
        proof {
            lemma_trunc_nonneg(int_value(a@), int_value(b@));
            lemma_mod_bound(int_value(a@), int_value(b@));
        }
        let (gcd, x1, y1) = extended_gcd(b, &rem);
        let q = bigint_div(a, b);
        let qy = bigint_mul(&q, &y1);
        let y = bigint_sub(&x1, &qy);
        proof {
            let av = int_value(a@);
            let bv = int_value(b@);
            let rv = int_value(rem@);
            let qv = int_value(q@);
            lemma_fundamental_div_mod(av, bv);
            assert(av == bv * qv + rv);
            let x1v = int_value(x1@);
            let y1v = int_value(y1@);
            assert(av * y1v + bv * (x1v - qv * y1v) == bv * x1v + rv * y1v) by (nonlinear_arith)
                requires
                    av == bv * qv + rv,
            ;
        }
        (gcd, y1, y)
    }
}

/// The inverse of `a` modulo `m`, or `None` when `gcd(a, m) != 1`.
///
/// With `m == 0` and `a == 1` the computation divides by zero; that input is
/// left out.
pub fn mod_inv(a: &Vec<u8>, m: &Vec<u8>) -> (r: Option<Vec<u8>>)
    requires
        !(le_value(m@) == 0 && le_value(a@) == 1),
    ensures
        r is Some <==> gcd_nat(le_value(a@), le_value(m@)) == 1,
        r matches Some(x) ==> {
            &&& x@ == le_bytes(inv_mod(le_value(a@), le_value(m@)))
            &&& inv_mod(le_value(a@), le_value(m@)) < le_value(m@)
            &&& (le_value(a@) * inv_mod(le_value(a@), le_value(m@))) % le_value(m@) == 1nat % le_value(
                m@,
            )
        },
{
    let a_int = bigint_from_biguint(a);
    let m_int = bigint_from_biguint(m);
    let (g, x, y) = extended_gcd(&a_int, &m_int);
    if !bigint_is_one(&g) {
        None
    } else {
        let ghost av = le_value(a@);
        let ghost mv = le_value(m@);
        assert(mv > 0);
        let r1 = bigint_rem(&x, &m_int);
        let s = bigint_add(&r1, &m_int);
        proof {
            lemma_trunc_rem_congruent(int_value(x@), mv as int);
        }
        let r2 = bigint_rem(&s, &m_int);
        proof {
            lemma_trunc_nonneg(int_value(s@), mv as int);
            lemma_mod_bound(int_value(s@), mv as int);
            let xv = int_value(x@);
            let r1v = int_value(r1@);
            let r2v = int_value(r2@);
            // r2 is congruent to x
            lemma_mod_adds(r1v, mv as int, mv as int);
            lemma_mod_self_0(mv as int);
            lemma_mod_twice(r1v, mv as int);
            lemma_mod_twice(xv, mv as int);
            assert(r2v % (mv as int) == xv % (mv as int));
            // a * x == 1 - m * y, so a * x == 1 (mod m)
            let ai = av as int;
            let mi = mv as int;
            let yv = int_value(y@);
            assert(ai * xv + mi * yv == 1);
            assert(ai * xv == 1 + mi * (-yv)) by (nonlinear_arith)
                requires
                    ai * xv + mi * yv == 1,
            ;
            lemma_mod_multiples_vanish(-yv, 1, mi);
            assert((ai * xv) % mi == 1int % mi);
            lemma_mul_mod_noop_right(ai, r2v, mi);
            lemma_mul_mod_noop_right(ai, xv, mi);
            assert((ai * r2v) % mi == 1int % mi);
            lemma_inv_mod_is(av, mv, r2v as nat);
        }
        Some(bigint_to_biguint(&r2))
    }
}

/// Whether `gcd(a, m) == 1`.
pub fn is_invertible(a: &Vec<u8>, m: &Vec<u8>) -> (r: bool)
    ensures
        r == (gcd_nat(le_value(a@), le_value(m@)) == 1),
{
    let g = biguint_gcd(a, m);
    let one = vec![1u8];
    proof {
        lemma_le_value_single(1u8);
        assert(one@ =~= seq![1u8]);
        if gcd_nat(le_value(a@), le_value(m@)) == 1 {
            assert(g@ =~= one@);
        }
    }
    let r = g.len() == 1 && g[0] == 1;
    proof {
        if r {
            assert(g@ =~= seq![1u8]);
            lemma_le_bytes_injective(gcd_nat(le_value(a@), le_value(m@)), 1);
        }
    }
    r
}

/// `rand::rng().random::<[u8; BYTES_SIZE]>()`: `BYTES_SIZE` bytes drawn from the
/// thread-local generator; nothing is promised of their values.
#[verifier::external_body]
fn random_bytes() -> (r: Vec<u8>)
    ensures
        r@.len() == BYTES_SIZE,
{
    rand::rng().random::<[u8; BYTES_SIZE]>().to_vec()
}

/// A random number below `2^BIT_SIZE`, as its shortest digit string.
pub fn random_biguint() -> (r: Vec<u8>)
    ensures
        r@ == le_bytes(le_value(r@)),
        le_value(r@) < nat_pow(256, BYTES_SIZE as nat),
{
    let bytes = random_bytes();
    let r = canonical(&bytes);
    proof {
        lemma_le_value_le_bytes(le_value(bytes@));
        lemma_le_value_bound(bytes@);
    }
    r
}

} // verus!
