use chaum_pedersen::bignum::BigNum;
use chaum_pedersen::errors::AuthError;
use chaum_pedersen::ZKP;

fn num(x: u8) -> BigNum {
    BigNum::from_bytes(&[x])
}

#[test]
fn test_ex() {
    // lets pick two generators
    let a = num(4);
    let b = num(9);
    // set a witness value.
    let w = num(6);
    // module
    let p = num(23);
    // order of group
    let q = num(11);

    let y1 = ZKP::mod_exp(&a, &w, &p);
    let y2 = ZKP::mod_exp(&b, &w, &p);

    let zkp = ZKP::init(&a, &b, &p, &q);

    assert!(y1.equals(&num(2)));
    assert!(y2.equals(&num(3)));
    // fixed nonce k
    let k = num(7);
    let r1 = ZKP::mod_exp(&a, &k, &p);
    let r2 = ZKP::mod_exp(&b, &k, &p);

    assert!(r1.equals(&num(8)));
    assert!(r2.equals(&num(4)));
    let c = num(4);

    // compute response
    let s = zkp.response(&k, &c, &w);
    assert!(s.equals(&num(5)));
    // lets verify
    let verif = zkp.verify(&y1, &y2, &r1, &r2, &c, &s);
    assert!(verif);
}

#[test]
fn test_with_rand() {
    let q = num(11);
    // lets pick two generators
    let a = num(4);
    let b = num(9);
    // set a witness value.
    let w = num(6);
    // module
    let p = num(23);
    // order of group
    let zkp = ZKP::init(&a, &b, &p, &q);
    let y1 = ZKP::mod_exp(&a, &w, &p);
    let y2 = ZKP::mod_exp(&b, &w, &p);

    assert!(y1.equals(&num(2)));
    assert!(y2.equals(&num(3)));
    // generate random k
    let k = ZKP::gen_rand(&q).unwrap();

    let r1 = ZKP::mod_exp(&a, &k, &p);
    let r2 = ZKP::mod_exp(&b, &k, &p);

    let c = ZKP::gen_rand(&q).unwrap();
    // compute response
    let s = zkp.response(&k, &c, &w);
    // lets verify
    let verif = zkp.verify(&y1, &y2, &r1, &r2, &c, &s);
    assert!(verif);
}

#[test]
fn test_1024_bits() {
    let (a, b, p, q) = ZKP::get_constants();

    // set a witness value.
    let w = ZKP::gen_rand(&q).unwrap();

    let zkp = ZKP::init(&a, &b, &p, &q);
    let y1 = ZKP::mod_exp(&a, &w, &p);
    let y2 = ZKP::mod_exp(&b, &w, &p);

    // generate random k
    let k = ZKP::gen_rand(&q).unwrap();

    let r1 = ZKP::mod_exp(&a, &k, &p);
    let r2 = ZKP::mod_exp(&b, &k, &p);

    let c = ZKP::gen_rand(&q).unwrap();
    // compute response
    let s = zkp.response(&k, &c, &w);
    // lets verify
    let verif = zkp.verify(&y1, &y2, &r1, &r2, &c, &s);
    assert!(verif);
}

#[test]
fn wrong_response_fails() {
    // Same setup as test_ex, but the response is off by one.
    let a = num(4);
    let b = num(9);
    let w = num(6);
    let p = num(23);
    let q = num(11);
    let zkp = ZKP::init(&a, &b, &p, &q);
    let y1 = ZKP::mod_exp(&a, &w, &p);
    let y2 = ZKP::mod_exp(&b, &w, &p);
    let k = num(7);
    let r1 = ZKP::mod_exp(&a, &k, &p);
    let r2 = ZKP::mod_exp(&b, &k, &p);
    let c = num(4);
    let s_wrong = num(4);
    assert!(!zkp.verify(&y1, &y2, &r1, &r2, &c, &s_wrong));
}

#[test]
fn response_wraps_below_zero() {
    // k = 7 < c*x = 24: s = 11 - ((24 - 7) mod 11) = 11 - 6 = 5.
    let q = num(11);
    let zkp = ZKP::init(&num(4), &num(9), &num(23), &q);
    let s = zkp.response(&num(7), &num(4), &num(6));
    assert!(s.equals(&num(5)));
    // k = 0, c*x = 100: s = 11 - (100 mod 11) = 11 - 1 = 10.
    let s2 = zkp.response(&num(0), &num(10), &num(10));
    assert!(s2.equals(&num(10)));
}

#[test]
fn response_wrap_remainder_zero_gives_zero() {
    // k = 0 < c*x = 11 and (11 - 0) mod 11 == 0: the response must be 0,
    // not q.
    let q = num(11);
    let zkp = ZKP::init(&num(4), &num(9), &num(23), &q);
    let s = zkp.response(&num(0), &num(1), &num(11));
    assert!(s.equals(&num(0)));
    assert!(s.is_zero());
}

#[test]
fn response_no_wrap_reduces() {
    // k = 9 >= c*x = 6: s = (9 - 6) mod 11 = 3.
    let q = num(11);
    let zkp = ZKP::init(&num(4), &num(9), &num(23), &q);
    let s = zkp.response(&num(9), &num(2), &num(3));
    assert!(s.equals(&num(3)));
    // The response is always reduced below q.
    assert!(s.lt(&q));
}

#[test]
fn gen_rand_is_below_bound() {
    let q = num(11);
    for _ in 0..50 {
        let r = ZKP::gen_rand(&q).unwrap();
        assert!(r.lt(&q));
    }
    let one = num(1);
    // The only value below 1 is 0.
    let z = ZKP::gen_rand(&one).unwrap();
    assert!(z.is_zero());
}

#[test]
fn gen_rand_zero_bound_is_invalid() {
    // No value lies below zero: the draw fails with InvalidArgument.
    let zero = BigNum::from_bytes(&[]);
    let res = ZKP::gen_rand(&zero);
    assert!(matches!(res, Err(AuthError::InvalidArgument)));
}

#[test]
fn gen_rand_string_is_alphanumeric() {
    let s = ZKP::gen_rand_string(12);
    assert_eq!(s.chars().count(), 12);
    assert!(s.chars().all(|c| c.is_ascii_alphanumeric()));
    let empty = ZKP::gen_rand_string(0);
    assert_eq!(empty.len(), 0);
}

#[test]
fn bignum_decoding_accepts_redundant_zeros() {
    // Zero may arrive as the empty string or as 0x00; other values may
    // carry leading zero bytes. All decode to the same value, and the
    // canonical encoding comes back minimal.
    let z1 = BigNum::from_bytes(&[]);
    let z2 = BigNum::from_bytes(&[0]);
    let z3 = BigNum::from_bytes(&[0, 0, 0]);
    assert!(z1.equals(&z2));
    assert!(z2.equals(&z3));
    assert!(z1.is_zero());
    assert_eq!(z1.to_bytes_be(), vec![0u8]);
    let x1 = BigNum::from_bytes(&[0, 0, 1, 2]);
    let x2 = BigNum::from_bytes(&[1, 2]);
    assert!(x1.equals(&x2));
    assert_eq!(x1.to_bytes_be(), vec![1u8, 2u8]);
}

#[test]
fn bignum_order_follows_values() {
    let big = BigNum::from_bytes(&[1, 0]);
    let small = BigNum::from_bytes(&[255]);
    assert!(small.lt(&big));
    assert!(!big.lt(&small));
    assert!(!small.lt(&small));
    assert!(num(4).lt(&num(9)));
}
