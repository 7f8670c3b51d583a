use bitvm3::bignum::canonical;
use bitvm3::math::{
    is_invertible, mod_add, mod_bipow_mul, mod_inv, mod_mul, mod_pow, mod_sub, random_biguint,
    BIT_SIZE, BYTES_SIZE,
};
use num_bigint::BigUint;

fn num(v: u64) -> Vec<u8> {
    BigUint::from(v).to_bytes_le()
}

#[test]
fn mod_add_exact() {
    assert_eq!(mod_add(&num(5), &num(9), &num(7)), num(0));
    assert_eq!(mod_add(&num(300), &num(1), &num(1000)), num(301));
    assert_eq!(mod_add(&vec![], &vec![3, 0], &num(2)), num(1));
}

#[test]
fn mod_sub_exact() {
    assert_eq!(mod_sub(&num(5), &num(9), &num(7)), num(3));
    assert_eq!(mod_sub(&num(9), &num(5), &num(7)), num(4));
    assert_eq!(mod_sub(&num(0), &num(7), &num(7)), num(0));
}

#[test]
fn mod_sub_undoes_mod_add() {
    let m = num(1009);
    for (a, b) in [(0u64, 0u64), (5, 1008), (1000, 17), (123456, 999)] {
        if b <= 1009 {
            let s = mod_add(&num(a), &num(b), &m);
            assert_eq!(mod_sub(&s, &num(b), &m), num(a % 1009));
        }
    }
}

#[test]
fn mod_mul_exact() {
    assert_eq!(mod_mul(&num(12), &num(13), &num(100)), num(56));
    assert_eq!(mod_mul(&num(u64::MAX), &num(u64::MAX), &num(1_000_000_007)), {
        let v = (BigUint::from(u64::MAX) * BigUint::from(u64::MAX)) % BigUint::from(1_000_000_007u64);
        v.to_bytes_le()
    });
}

#[test]
fn mod_pow_exact() {
    assert_eq!(mod_pow(&num(4), &num(13), &num(497)), num(445));
    assert_eq!(mod_pow(&num(2), &num(0), &num(5)), num(1));
    assert_eq!(mod_pow(&num(2), &num(10), &num(1)), num(0));
}

#[test]
fn mod_bipow_mul_exact() {
    // 2^3 * 3^2 mod 7 = 8 * 9 mod 7 = 72 mod 7 = 2
    assert_eq!(mod_bipow_mul(&num(2), &num(3), &num(3), &num(2), &num(7)), num(2));
}

#[test]
fn mod_inv_exact() {
    assert_eq!(mod_inv(&num(3), &num(7)), Some(num(5)));
    assert_eq!(mod_inv(&num(10), &num(17)), Some(num(12)));
    assert_eq!(mod_inv(&num(1), &num(2)), Some(num(1)));
    assert_eq!(mod_inv(&num(5), &num(1)), Some(num(0)));
    assert_eq!(mod_inv(&num(6), &num(9)), None);
    assert_eq!(mod_inv(&num(0), &num(9)), None);
    assert_eq!(mod_inv(&num(4), &num(0)), None);
}

#[test]
fn mod_inv_large_modulus() {
    let m = BigUint::parse_bytes(b"100000000000000000000000000000000000000000000000000000000000000000000043", 16).unwrap();
    let a = BigUint::parse_bytes(b"123456789abcdef0123456789abcdef", 16).unwrap();
    let inv = mod_inv(&a.to_bytes_le(), &m.to_bytes_le());
    match inv {
        Some(x) => {
            let x = BigUint::from_bytes_le(&x);
            assert!(x < m);
            assert_eq!((a * x) % &m, BigUint::from(1u64));
        }
        None => {
            assert!(!is_invertible(&a.to_bytes_le(), &m.to_bytes_le()));
        }
    }
}

#[test]
fn is_invertible_agrees_with_mod_inv() {
    for a in 0u64..30 {
        for m in 1u64..30 {
            let inv = mod_inv(&num(a), &num(m));
            assert_eq!(is_invertible(&num(a), &num(m)), inv.is_some(), "{} {}", a, m);
            if let Some(x) = inv {
                let x = BigUint::from_bytes_le(&x);
                assert!(x < BigUint::from(m));
                assert_eq!((BigUint::from(a) * x) % BigUint::from(m), BigUint::from(1u64) % BigUint::from(m));
            }
        }
    }
}

#[test]
fn random_biguint_is_short_and_canonical() {
    assert_eq!(BIT_SIZE, 1024);
    let r = random_biguint();
    assert!(r.len() <= BYTES_SIZE);
    assert!(r.len() == 1 || *r.last().unwrap() != 0);
    let s = random_biguint();
    assert_ne!(r, s);
}

#[test]
fn canonical_trims_trailing_zeros() {
    assert_eq!(canonical(&vec![1, 2, 0, 0]), vec![1, 2]);
    assert_eq!(canonical(&vec![0, 0]), vec![0]);
    assert_eq!(canonical(&vec![]), vec![0]);
}
