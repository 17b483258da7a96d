use trunker::p25::coding::galois::{codeword_for_power, power_of_codeword, Codeword, Polynomial, PolynomialCoefs};
use trunker::p25::coding::reed_solomon::{MediumCoefs, ShortCoefs};

type TestPoly = Polynomial<ShortCoefs>;
type ShortPoly = Polynomial<ShortCoefs>;

fn poly(coefs: &[Codeword]) -> TestPoly {
    TestPoly::new(coefs)
}

fn powers(range: std::ops::Range<usize>) -> Vec<Codeword> {
    range.map(Codeword::for_power).collect()
}

// -- Field table validation --

#[test]
fn all_codewords_fit_in_6_bits() {
    for i in 0..63 {
        let cw = codeword_for_power(i);
        assert!(cw >> 6 == 0, "codeword at power {i} has bits outside 6-bit range: 0b{cw:06b}");
    }
}

#[test]
fn no_codeword_collisions() {
    for i in 0..63 {
        for j in (i + 1)..63 {
            assert_ne!(codeword_for_power(i), codeword_for_power(j), "collision: codeword({i}) == codeword({j})");
        }
    }
}

#[test]
fn power_codeword_roundtrip() {
    for i in 0..63 {
        let bits = codeword_for_power(i);
        let recovered = power_of_codeword(bits);
        assert_eq!(recovered, i, "roundtrip failed: power {i} -> bits 0b{bits:06b} -> power {recovered}");
    }
}

// -- Codeword basics --

#[test]
fn codeword_coefs_trait_validation() {
    ShortCoefs::default().validate();
    MediumCoefs::default().validate();
}

#[test]
fn for_power_known_values() {
    assert!(Codeword::for_power(0).bits() == 0b000001);
    assert!(Codeword::for_power(62).bits() == 0b100001);
    // Wraps around field size.
    assert!(Codeword::for_power(63).bits() == 0b000001);
}

#[test]
fn zero_codeword() {
    let z = Codeword::default();
    assert!(z.zero());
    assert_eq!(z.bits(), 0);
    assert!(z.power().is_none());
}

// -- Galois addition --

#[test]
fn add_is_xor() {
    assert!((Codeword::new(0b100000) + Codeword::new(0b010000)).bits() == 0b110000);
    assert!((Codeword::new(0b100001) + Codeword::new(0b110100)).bits() == 0b010101);
}

#[test]
fn sub_equals_add() {
    assert!((Codeword::new(0b100000) - Codeword::new(0b010000)).bits() == 0b110000);
    assert!((Codeword::new(0b100001) - Codeword::new(0b100001)).bits() == 0b000000);
}

#[test]
fn add_self_is_zero_exhaustive() {
    // Includes the zero element.
    for bits in 0..64u8 {
        let c = Codeword::new(bits);
        assert!((c + c).zero(), "a + a != 0 for bits 0b{bits:06b}");
    }
}

// -- Galois multiplication --

#[test]
fn mul_known_values() {
    assert!((Codeword::new(0b000110) * Codeword::new(0b000101)).bits() == 0b011110);
    assert!((Codeword::new(0b100001) * Codeword::new(0b000001)).bits() == 0b100001);
    assert!((Codeword::new(0b100001) * Codeword::new(0b000010)).bits() == 0b000001);
    assert!((Codeword::new(0b110011) * Codeword::new(0b110011)).bits() == 0b111001);
    assert!((Codeword::new(0b101111) * Codeword::new(0b101111)).bits() == 0b100110);
}

#[test]
fn mul_by_zero() {
    assert!((Codeword::new(0b000000) * Codeword::new(0b000101)).zero());
    assert!((Codeword::new(0b000110) * Codeword::new(0b000000)).zero());
    assert!((Codeword::new(0b000000) * Codeword::new(0b000000)).zero());
}

// -- Galois division --

#[test]
fn div_known_values() {
    assert!((Codeword::new(0b001000) / Codeword::new(0b000101)).bits() == 0b010111);
    assert!((Codeword::new(0b000000) / Codeword::new(0b101000)).zero());
    assert!((Codeword::new(0b011110) / Codeword::new(0b000001)).bits() == 0b011110);
    assert!((Codeword::new(0b011110) / Codeword::new(0b011110)).bits() == 0b000001);
}

// -- Exhaustive field consistency --

#[test]
fn mul_div_roundtrip_exhaustive() {
    for i in 0..63 {
        let a = Codeword::for_power(i);
        for j in 0..63 {
            let b = Codeword::for_power(j);
            let product = a * b;
            let recovered = product / b;
            assert_eq!(recovered.bits(), a.bits(), "a*b/b != a for powers ({i}, {j})");
        }
    }
}

// -- Codeword power operations --

#[test]
fn pow_known_values() {
    assert_eq!(Codeword::for_power(0).pow(10).power().unwrap(), 0);
    assert_eq!(Codeword::for_power(1).pow(10).power().unwrap(), 10);
    assert_eq!(Codeword::for_power(62).pow(10).power().unwrap(), 53);
    assert!(Codeword::default().pow(20).power().is_none());
}

#[test]
fn cmp_zero() {
    assert!(Codeword::new(0b000000) == Codeword::new(0b000000));
}

// -- Polynomial basics --

#[test]
fn polynomial_degree() {
    let p = poly(&powers(0..23));
    assert_eq!(p.degree().unwrap(), 22);
    assert!(p.constant() == Codeword::for_power(0));

    let p = poly(&powers(1..23));
    assert_eq!(p.degree().unwrap(), 21);
    assert!(p.constant() == Codeword::for_power(1));
}

// -- Polynomial evaluation --

#[test]
fn eval_simple() {
    // p(x) = 1 + x + x^2, evaluate at alpha^1.
    let p = poly(&[Codeword::for_power(0); 3]);
    assert!(p.eval(Codeword::for_power(1)).bits() == 0b000111);

    // p(x) = 1 + x, evaluate at alpha^1.
    let p = poly(&[Codeword::for_power(0); 2]);
    assert_eq!(p.eval(Codeword::for_power(1)).bits(), 0b000011);
}

#[test]
fn eval_single_high_term() {
    // p(x) = x^3 at alpha^3.
    let p = poly(&[Codeword::default(), Codeword::default(), Codeword::default(), Codeword::for_power(0)]);
    assert_eq!(p.eval(Codeword::for_power(3)).bits(), 0b011000);
}

#[test]
fn eval_mixed_terms() {
    // p(x) = x + x^3 at alpha^3.
    let p = poly(&[Codeword::default(), Codeword::for_power(0), Codeword::default(), Codeword::for_power(0)]);
    assert_eq!(p.eval(Codeword::for_power(3)).bits(), 0b010000);
}

#[test]
fn eval_high_degree_single_term() {
    // p(x) = alpha^5 * x^23 at alpha^4.
    let mut coefs_vec: Vec<Codeword> = (0..23).map(|_| Codeword::default()).collect();
    coefs_vec.push(Codeword::for_power(5));
    let p = poly(&coefs_vec);
    assert_eq!(p.eval(Codeword::for_power(4)).bits(), 0b100100);
}

#[test]
fn eval_constant_plus_high() {
    // p(x) = alpha^12 + alpha^5 * x^23 at alpha^4.
    let mut coefs_vec = vec![Codeword::for_power(12)];
    for _ in 1..23 {
        coefs_vec.push(Codeword::default());
    }
    coefs_vec.push(Codeword::for_power(5));
    let p = poly(&coefs_vec);
    assert_eq!(p.eval(Codeword::for_power(4)).bits(), 0b100001);
}

#[test]
fn eval_all_ones_at_one() {
    // p(x) = 1 + x + x^2 + ... + x^23 at alpha^0 = 1.
    // In GF(2), sum of 24 copies of 1 = 0 (even count).
    let p = poly(&[Codeword::for_power(0); 24]);
    assert!(p.eval(Codeword::for_power(0)).zero());
}

// -- Polynomial arithmetic --

#[test]
fn polynomial_scale() {
    let p = poly(&powers(1..23));

    let q = p.clone().scale(Codeword::for_power(0));
    assert_eq!(q.degree().unwrap(), 21);
    assert!(q.constant() == Codeword::for_power(1));

    let q = p.scale(Codeword::for_power(2));
    assert_eq!(q.degree().unwrap(), 21);
    assert!(q.constant() == Codeword::for_power(3));
}

#[test]
fn polynomial_add_self_is_zero() {
    let p = poly(&powers(1..23));
    let q = p.clone().plus(p);
    assert!(q.constant().zero());
    for i in 0..q.len() {
        assert!(q.coef(i).zero());
    }
}

#[test]
fn polynomial_add_different_lengths() {
    let p = poly(&powers(4..27));
    let q = poly(&powers(4..26));
    let r = p.plus(q);

    // First 22 terms cancel, last term survives.
    assert!(r.coef(0).zero());
    assert!(r.coef(1).zero());
    assert!(r.coef(2).zero());
    assert!(r.coef(3).zero());
    assert!(r.coef(4).zero());
    assert!(!r.coef(22).zero());
}

#[test]
fn polynomial_add_with_offset() {
    let p = poly(&[Codeword::for_power(0); 2]);
    let q = poly(&[Codeword::for_power(1); 4]);
    let r = p.plus(q);
    assert!(r.coef(0) == Codeword::for_power(6));
}

// -- Polynomial multiplication --

#[test]
fn poly_mul_simple() {
    // (1+x) * (1+x) = 1 + 0*x + x^2 (in GF(2), x+x=0).
    let p = poly(&[Codeword::for_power(0); 2]);
    let q = p.clone();
    let r = p.times(q);

    assert_eq!(r.coef(0).power().unwrap(), 0);
    assert!(r.coef(1).power().is_none());
    assert_eq!(r.coef(2).power().unwrap(), 0);
}

#[test]
fn poly_mul_shift() {
    // (1 + alpha*x + alpha^2*x^2) * (x).
    let p = poly(&powers(0..3));
    let q = poly(&[Codeword::default(), Codeword::for_power(0)]);
    let r = p.times(q);

    assert!(r.coef(0).power().is_none());
    assert_eq!(r.coef(1).power().unwrap(), 0);
    assert_eq!(r.coef(2).power().unwrap(), 1);
    assert_eq!(r.coef(3).power().unwrap(), 2);
}

// -- Truncate --

#[test]
fn truncate_reduces_degree() {
    let p = poly(&[Codeword::for_power(0); 5]);
    assert_eq!(p.degree().unwrap(), 4);
    assert_eq!(p.coef(4).power().unwrap(), 0);
    assert!(p.coef(5).power().is_none());

    let p = p.truncate(2);
    assert_eq!(p.degree().unwrap(), 2);
    assert_eq!(p.coef(2).power().unwrap(), 0);
    assert!(p.coef(3).power().is_none());
}

// -- Unit power --

#[test]
fn unit_power_degree_0() {
    let p = TestPoly::unit_power(0);
    assert_eq!(p.coef(0), Codeword::for_power(0));
    assert_eq!(p.degree().unwrap(), 0);
}

#[test]
fn unit_power_degree_2() {
    let p = TestPoly::unit_power(2);
    assert_eq!(p.coef(0), Codeword::default());
    assert_eq!(p.coef(1), Codeword::default());
    assert_eq!(p.coef(2), Codeword::for_power(0));
    assert_eq!(p.degree().unwrap(), 2);
}

#[test]
fn unit_power_degree_10() {
    let p = TestPoly::unit_power(10);
    for i in 0..10 {
        assert_eq!(p.coef(i), Codeword::default());
    }
    assert_eq!(p.coef(10), Codeword::for_power(0));
    assert_eq!(p.degree().unwrap(), 10);
}

// -- Derivative --

#[test]
fn deriv_basic() {
    // p(x) = alpha^0 + alpha^3*x + alpha^58*x^2 => p'(x) = alpha^3.
    let p = poly(&[Codeword::for_power(0), Codeword::for_power(3), Codeword::for_power(58)]);
    let q = p.deriv();
    assert!(q.coef(0) == Codeword::for_power(3));
    assert!(q.coef(1) == Codeword::default());
    assert!(q.coef(2) == Codeword::default());
}

#[test]
fn deriv_after_shift() {
    let p = poly(&[Codeword::default(), Codeword::for_power(5), Codeword::for_power(3), Codeword::for_power(58)]);
    let q = p.shift().deriv();

    assert!(q.coef(0) == Codeword::for_power(3));
    assert!(q.coef(1) == Codeword::default());
    assert!(q.coef(2) == Codeword::default());
}

#[test]
fn deriv_four_terms() {
    let p = poly(&[Codeword::for_power(0), Codeword::for_power(5), Codeword::for_power(3), Codeword::for_power(58)]).deriv();

    assert!(p.coef(0) == Codeword::for_power(5));
    assert!(p.coef(1) == Codeword::default());
    assert!(p.coef(2) == Codeword::for_power(58));
    assert!(p.coef(3) == Codeword::default());
    assert!(p.coef(4) == Codeword::default());
}

#[test]
fn deriv_five_terms() {
    let p = poly(&[
        Codeword::for_power(0),
        Codeword::for_power(5),
        Codeword::for_power(3),
        Codeword::for_power(58),
        Codeword::for_power(43),
    ])
    .deriv();

    assert!(p.coef(0) == Codeword::for_power(5));
    assert!(p.coef(1) == Codeword::default());
    assert!(p.coef(2) == Codeword::for_power(58));
    assert!(p.coef(3) == Codeword::default());
    assert!(p.coef(4) == Codeword::default());
    assert!(p.coef(5) == Codeword::default());
}

#[test]
fn deriv_six_terms() {
    let p = poly(&[
        Codeword::for_power(0),
        Codeword::for_power(5),
        Codeword::for_power(3),
        Codeword::for_power(58),
        Codeword::for_power(43),
        Codeword::for_power(15),
    ])
    .deriv();

    assert!(p.coef(0) == Codeword::for_power(5));
    assert!(p.coef(1) == Codeword::default());
    assert!(p.coef(2) == Codeword::for_power(58));
    assert!(p.coef(3) == Codeword::default());
    assert!(p.coef(4) == Codeword::for_power(15));
    assert!(p.coef(5) == Codeword::default());
}

#[test]
fn deriv_short_poly_five_terms() {
    let p = ShortPoly::new(&[
        Codeword::for_power(0),
        Codeword::for_power(5),
        Codeword::for_power(3),
        Codeword::for_power(58),
        Codeword::for_power(43),
    ])
    .deriv();

    assert!(p.coef(0) == Codeword::for_power(5));
    assert!(p.coef(1) == Codeword::default());
    assert!(p.coef(2) == Codeword::for_power(58));
    assert!(p.coef(3) == Codeword::default());
    assert!(p.coef(4) == Codeword::default());
}

#[test]
fn deriv_full_24_terms() {
    let pattern = [5usize, 3, 58, 43, 15];
    let mut coefs = vec![Codeword::for_power(0)];
    for i in 0..23 {
        coefs.push(Codeword::for_power(pattern[i % 5]));
    }
    let p = poly(&coefs).deriv();

    let expected = [
        Some(5), None, Some(58), None, Some(15), None, Some(3), None, Some(43), None, Some(5), None,
        Some(58), None, Some(15), None, Some(3), None, Some(43), None, Some(5), None, Some(58), None,
    ];
    for (i, e) in expected.iter().enumerate() {
        match e {
            Some(pw) => assert!(p.coef(i) == Codeword::for_power(*pw), "coef {i}"),
            None => assert!(p.coef(i) == Codeword::default(), "coef {i}"),
        }
    }
}

#[test]
fn get_mut_updates_one_coefficient() {
    let mut p = TestPoly::new(&[Codeword::new(1), Codeword::new(2), Codeword::new(3)]);
    match p.get_mut(1) {
        Some(c) => *c = *c + Codeword::new(7),
        None => panic!("index 1 lies in the storage"),
    }
    assert_eq!(p.coef(0).bits(), 1);
    assert_eq!(p.coef(1).bits(), 2 ^ 7);
    assert_eq!(p.coef(2).bits(), 3);
    assert!(p.get_mut(ShortCoefs::storage_len()).is_none());
}
