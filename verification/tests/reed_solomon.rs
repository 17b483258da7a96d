use trunker::p25::coding::galois::{Codeword, Polynomial, PolynomialCoefs};
use trunker::p25::coding::reed_solomon::{long, medium, short, MediumCoefs, ShortCoefs};
use trunker::p25::types::Hexbit;

fn root_factor<P: trunker::p25::coding::galois::PolynomialCoefs>(power: usize) -> Polynomial<P> {
    Polynomial::new(&[Codeword::for_power(power), Codeword::for_power(0)])
}

#[test]
fn verify_short_generator_polynomial() {
    let mut p = root_factor::<ShortCoefs>(1);
    for i in 2..=8 {
        p = p.times(root_factor(i));
    }

    assert_eq!(p.degree().unwrap(), 8);
    assert_eq!(p.coef(0).bits(), 0o26);
    assert_eq!(p.coef(1).bits(), 0o06);
    assert_eq!(p.coef(2).bits(), 0o24);
    assert_eq!(p.coef(3).bits(), 0o57);
    assert_eq!(p.coef(4).bits(), 0o60);
    assert_eq!(p.coef(5).bits(), 0o45);
    assert_eq!(p.coef(6).bits(), 0o75);
    assert_eq!(p.coef(7).bits(), 0o67);
    assert_eq!(p.coef(8).bits(), 0o01);
}

#[test]
fn verify_medium_generator_polynomial() {
    let mut p = root_factor::<MediumCoefs>(1);
    for i in 2..=12 {
        p = p.times(root_factor(i));
    }

    assert_eq!(p.degree().unwrap(), 12);
    assert_eq!(p.coef(0).bits(), 0o50);
    assert_eq!(p.coef(1).bits(), 0o41);
    assert_eq!(p.coef(2).bits(), 0o02);
    assert_eq!(p.coef(3).bits(), 0o74);
    assert_eq!(p.coef(4).bits(), 0o11);
    assert_eq!(p.coef(5).bits(), 0o60);
    assert_eq!(p.coef(6).bits(), 0o34);
    assert_eq!(p.coef(7).bits(), 0o71);
    assert_eq!(p.coef(8).bits(), 0o03);
    assert_eq!(p.coef(9).bits(), 0o55);
    assert_eq!(p.coef(10).bits(), 0o05);
    assert_eq!(p.coef(11).bits(), 0o71);
    assert_eq!(p.coef(12).bits(), 0o01);
}

#[test]
fn short_encode_decode_clean() {
    let mut buf = [Hexbit::default(); 24];
    buf[0] = Hexbit::new(1);

    short::encode(&mut buf);
    let (data, err) = short::decode(&mut buf).unwrap();
    assert_eq!(err, 0);
    assert_eq!(data[0].bits(), 1);
    for h in &data[1..] {
        assert_eq!(h.bits(), 0);
    }
}

#[test]
fn short_decode_corrects_6_errors() {
    let mut buf = [Hexbit::default(); 24];
    buf[0] = Hexbit::new(1);
    short::encode(&mut buf);

    // Introduce 6 errors at various positions.
    buf[0] = Hexbit::new(0o00);
    buf[2] = Hexbit::new(0o60);
    buf[7] = Hexbit::new(0o42);
    buf[13] = Hexbit::new(0o14);
    buf[18] = Hexbit::new(0o56);
    buf[23] = Hexbit::new(0o72);

    let (data, err) = short::decode(&mut buf).unwrap();
    assert_eq!(err, 6);
    assert_eq!(data.len(), 12);
    assert_eq!(data[0].bits(), 1);
    for h in &data[1..] {
        assert_eq!(h.bits(), 0);
    }
}

#[test]
fn medium_encode_decode_clean() {
    let mut buf = [Hexbit::default(); 24];
    buf[0] = Hexbit::new(1);

    medium::encode(&mut buf);
    let (data, err) = medium::decode(&mut buf).unwrap();
    assert_eq!(err, 0);
    assert_eq!(data[0].bits(), 1);
    for h in &data[1..] {
        assert_eq!(h.bits(), 0);
    }
}

#[test]
fn medium_decode_corrects_4_errors() {
    let mut buf = [Hexbit::default(); 24];
    buf[0] = Hexbit::new(1);
    medium::encode(&mut buf);

    // Introduce 4 errors.
    buf[0] = Hexbit::new(0o00);
    buf[10] = Hexbit::new(0o60);
    buf[16] = Hexbit::new(0o42);
    buf[23] = Hexbit::new(0o14);

    let (data, err) = medium::decode(&mut buf).unwrap();
    assert_eq!(err, 4);
    assert_eq!(data.len(), 16);
    assert_eq!(data[0].bits(), 1);
    for h in &data[1..] {
        assert_eq!(h.bits(), 0);
    }
}

#[test]
fn short_single_error_at_each_position() {
    let data_vals: [u8; 12] = [0o77; 12];
    let expected: Vec<Hexbit> = data_vals.iter().map(|&v| Hexbit::new(v)).collect();

    for i in 0..24 {
        let mut buf = [Hexbit::default(); 24];
        for (j, &v) in data_vals.iter().enumerate() {
            buf[j] = Hexbit::new(v);
        }
        short::encode(&mut buf);
        buf[i] = Hexbit::new(0);

        let (data, err) = short::decode(&mut buf).unwrap();
        assert_eq!(err, 1, "position {i}");
        assert_eq!(data, &expected[..], "data mismatch at position {i}");
    }
}

#[test]
fn medium_single_error_at_each_position() {
    let data_vals: [u8; 16] = [0o77; 16];
    let expected: Vec<Hexbit> = data_vals.iter().map(|&v| Hexbit::new(v)).collect();

    for i in 0..24 {
        let mut buf = [Hexbit::default(); 24];
        for (j, &v) in data_vals.iter().enumerate() {
            buf[j] = Hexbit::new(v);
        }
        medium::encode(&mut buf);
        buf[i] = Hexbit::new(0);

        let (data, err) = medium::decode(&mut buf).unwrap();
        assert_eq!(err, 1, "position {i}");
        assert_eq!(data, &expected[..], "data mismatch at position {i}");
    }
}

#[test]
fn short_out_of_bounds_correction_returns_none() {
    // This word caused an attempted correction at location 61.
    let mut w = [
        Hexbit::new(0), Hexbit::new(0), Hexbit::new(0), Hexbit::new(4),
        Hexbit::new(0), Hexbit::new(3), Hexbit::new(34), Hexbit::new(28),
        Hexbit::new(7), Hexbit::new(13), Hexbit::new(61), Hexbit::new(32),
        Hexbit::new(27), Hexbit::new(55), Hexbit::new(49), Hexbit::new(7),
        Hexbit::new(0), Hexbit::new(0), Hexbit::new(0), Hexbit::new(0),
        Hexbit::new(0), Hexbit::new(0), Hexbit::new(0), Hexbit::new(0),
    ];
    assert_eq!(short::decode(&mut w), None);
}

#[test]
fn medium_out_of_bounds_correction_returns_none() {
    // This word caused an attempted correction at location 34.
    let mut w = [
        Hexbit::new(0), Hexbit::new(0), Hexbit::new(0), Hexbit::new(0),
        Hexbit::new(51), Hexbit::new(19), Hexbit::new(8), Hexbit::new(35),
        Hexbit::new(48), Hexbit::new(61), Hexbit::new(0), Hexbit::new(1),
        Hexbit::new(11), Hexbit::new(44), Hexbit::new(10), Hexbit::new(0),
        Hexbit::new(11), Hexbit::new(0), Hexbit::new(15), Hexbit::new(56),
        Hexbit::new(50), Hexbit::new(0), Hexbit::new(0), Hexbit::new(0),
    ];
    assert_eq!(medium::decode(&mut w), None);
}

#[test]
fn short_decode_writes_corrected_data_back() {
    let mut buf = [Hexbit::default(); 24];
    for j in 0..12 {
        buf[j] = Hexbit::new(j as u8 + 1);
    }
    short::encode(&mut buf);
    buf[3] = Hexbit::new(0o55);
    let (data, err) = short::decode(&mut buf).unwrap();
    assert_eq!(err, 1);
    for j in 0..12 {
        assert_eq!(data[j].bits(), j as u8 + 1);
        assert_eq!(buf[j].bits(), j as u8 + 1);
    }
}

#[test]
fn validate_coefs() {
    ShortCoefs::default().validate();
    MediumCoefs::default().validate();
}

#[test]
fn every_code_encodes_each_unit_word_to_a_clean_codeword() {
    for pos in 0..12 {
        let mut buf = [Hexbit::default(); 24];
        buf[pos] = Hexbit::new(0o45);
        short::encode(&mut buf);
        let (data, err) = short::decode(&mut buf).unwrap();
        assert_eq!(err, 0);
        for (i, h) in data.iter().enumerate() {
            assert_eq!(h.bits(), if i == pos { 0o45 } else { 0 });
        }
    }
    for pos in 0..16 {
        let mut buf = [Hexbit::default(); 24];
        buf[pos] = Hexbit::new(0o77);
        medium::encode(&mut buf);
        let (data, err) = medium::decode(&mut buf).unwrap();
        assert_eq!(err, 0);
        for (i, h) in data.iter().enumerate() {
            assert_eq!(h.bits(), if i == pos { 0o77 } else { 0 });
        }
    }
    for pos in 0..20 {
        let mut buf = [Hexbit::default(); 36];
        buf[pos] = Hexbit::new(0o03);
        long::encode(&mut buf);
        let (data, err) = long::decode(&mut buf).unwrap();
        assert_eq!(err, 0);
        for (i, h) in data.iter().enumerate() {
            assert_eq!(h.bits(), if i == pos { 0o03 } else { 0 });
        }
    }
}

#[test]
fn long_encode_decode_mixed_data() {
    let mut buf = [Hexbit::default(); 36];
    for i in 0..20 {
        buf[i] = Hexbit::new(((i * 11 + 5) % 64) as u8);
    }
    long::encode(&mut buf);
    let (data, err) = long::decode(&mut buf).unwrap();
    assert_eq!(err, 0);
    for i in 0..20 {
        assert_eq!(data[i].bits(), ((i * 11 + 5) % 64) as u8);
    }
}
