use trunker::p25::coding::bmcf::{Errors, PolynomialRoots};
use trunker::p25::coding::galois::{Codeword, Polynomial, PolynomialCoefs};
use trunker::p25::coding::reed_solomon::MediumCoefs;

type TestCoefs = MediumCoefs;
type TestPoly = Polynomial<TestCoefs>;

fn all_roots(p: TestPoly) -> Vec<Codeword> {
    let mut finder = PolynomialRoots::new(p);
    let mut roots = Vec::new();
    while let Some(r) = finder.next() {
        roots.push(r);
    }
    roots
}

fn all_errors(mut errs: Errors<TestCoefs>) -> Vec<(usize, Codeword)> {
    let mut out = Vec::new();
    while let Some(e) = errs.next() {
        out.push(e);
    }
    out
}

fn syndromes_of(errors: &[(usize, Codeword)]) -> TestPoly {
    let vals: Vec<Codeword> = (1..=TestCoefs::syndromes())
        .map(|i| {
            errors
                .iter()
                .fold(Codeword::default(), |acc, &(pos, pat)| acc + pat * Codeword::for_power(pos * i))
        })
        .collect();
    TestPoly::new(&vals)
}

#[test]
fn chien_search_finds_known_roots() {
    // p(x) = (1 + alpha^42 * x)(1 + alpha^13 * x)(1 + alpha^57 * x)
    let p = TestPoly::new(&[Codeword::for_power(0), Codeword::for_power(42)])
        .times(TestPoly::new(&[Codeword::for_power(0), Codeword::for_power(13)]))
        .times(TestPoly::new(&[Codeword::for_power(0), Codeword::for_power(57)]));

    let roots = all_roots(p);
    assert_eq!(roots.len(), 3);

    let inv42 = Codeword::for_power(42).invert();
    let inv13 = Codeword::for_power(13).invert();
    let inv57 = Codeword::for_power(57).invert();

    assert!(roots.iter().any(|r| r.bits() == inv42.bits()));
    assert!(roots.iter().any(|r| r.bits() == inv13.bits()));
    assert!(roots.iter().any(|r| r.bits() == inv57.bits()));
}

#[test]
fn chien_search_constant_polynomial_has_no_roots() {
    let p = TestPoly::unit_power(0);
    let roots = all_roots(p);
    assert!(roots.is_empty());
}

#[test]
fn errors_zero_syndrome_returns_zero_errors() {
    let syn = TestPoly::default();
    let (nerr, errs) = Errors::new(syn).unwrap();
    assert_eq!(nerr, 0);
    assert_eq!(all_errors(errs).len(), 0);
}

#[test]
fn berlekamp_massey_single_error() {
    // Syndrome for a single error at position p with pattern e:
    // s_i = e * alpha^(p*i) for i = 1..2t
    let error_pos: usize = 5;
    let error_val = Codeword::for_power(10);

    let syn = syndromes_of(&[(error_pos, error_val)]);

    let (nerr, mut errs) = Errors::new(syn).unwrap();
    assert_eq!(nerr, 1);

    let (loc, pat) = errs.next().unwrap();
    assert_eq!(loc, error_pos);
    assert_eq!(pat.bits(), error_val.bits());
    assert!(errs.next().is_none());
}

#[test]
fn berlekamp_massey_two_errors() {
    // Two errors at positions p1, p2 with patterns e1, e2.
    let p1: usize = 3;
    let p2: usize = 10;
    let e1 = Codeword::for_power(7);
    let e2 = Codeword::for_power(20);

    let syn = syndromes_of(&[(p1, e1), (p2, e2)]);

    let (nerr, errs) = Errors::new(syn).unwrap();
    assert_eq!(nerr, 2);

    let corrections = all_errors(errs);
    assert_eq!(corrections.len(), 2);

    // Find each error by location.
    let c1 = corrections.iter().find(|(l, _)| *l == p1).unwrap();
    let c2 = corrections.iter().find(|(l, _)| *l == p2).unwrap();
    assert_eq!(c1.1.bits(), e1.bits());
    assert_eq!(c2.1.bits(), e2.bits());
}

#[test]
fn berlekamp_massey_four_errors() {
    // Four errors (max for distance 9, t=4)
    let positions: [usize; 4] = [1, 15, 30, 50];
    let patterns: [Codeword; 4] = [
        Codeword::for_power(0),
        Codeword::for_power(11),
        Codeword::for_power(33),
        Codeword::for_power(55),
    ];
    let errors: Vec<(usize, Codeword)> = positions.iter().copied().zip(patterns.iter().copied()).collect();

    let syn = syndromes_of(&errors);

    let (nerr, errs) = Errors::new(syn).unwrap();
    assert_eq!(nerr, 4);

    let corrections = all_errors(errs);
    assert_eq!(corrections.len(), 4);

    for (&pos, &pat) in positions.iter().zip(patterns.iter()) {
        let c = corrections.iter().find(|(l, _)| *l == pos).unwrap();
        assert_eq!(c.1.bits(), pat.bits(), "wrong pattern at position {pos}");
    }
}
