//! Galois field GF(2^6) arithmetic for P25 Reed-Solomon coding.
//!
//! P25 uses the Galois field GF(2^6) characterized by the primitive
//! polynomial x^6 + x + 1. The field has 63 non-zero elements
//! (codewords), each representable as a 6-bit value.
//!
//! This module provides:
//! - `Codeword` — a field element with arithmetic operations
//! - `Polynomial` — a polynomial over the field with evaluation,
//!   truncation, differentiation, and shift operations
//! - `PolynomialCoefs` — trait for bounding polynomial storage size

use core::marker::PhantomData;
use vstd::prelude::*;

verus! {

/// Number of non-zero elements in GF(2^6).
pub const FIELD_SIZE: usize = 63;

// ---------------------------------------------------------------------------
// The field, mathematically
// ---------------------------------------------------------------------------

/// Multiply a field element (6-bit pattern) by alpha, the class of x:
/// shift left one place and reduce by x^6 = x + 1 when the x^6 term appears.
///
/// Written arithmetically; `lemma_times_alpha_bits` states the same
/// operation as a shift and an XOR with 0b1000011.
pub open spec fn times_alpha(v: nat) -> nat {
    if v < 32 {
        2 * v
    } else if v % 2 == 0 {
        (2 * v - 61) as nat
    } else {
        (2 * v - 65) as nat
    }
}

/// The bit pattern of alpha^n (x^n mod x^6 + x + 1).
pub open spec fn gf_exp(n: nat) -> nat
    decreases n,
{
    if n == 0 {
        1
    } else {
        times_alpha(gf_exp((n - 1) as nat))
    }
}

/// The discrete logarithm of a non-zero element: the power i < 63 with
/// alpha^i = v.
pub open spec fn gf_log(v: nat) -> nat {
    choose|i: nat| i < 63 && gf_exp(i) == v
}

/// Field addition: XOR of the bit patterns.
pub open spec fn gf_add(a: u8, b: u8) -> u8 {
    a ^ b
}

/// Field multiplication: add the logarithms modulo 63; zero absorbs.
pub open spec fn gf_mul(a: u8, b: u8) -> u8 {
    if a == 0 || b == 0 {
        0
    } else {
        gf_exp((gf_log(a as nat) + gf_log(b as nat)) % 63) as u8
    }
}

/// Field division by a non-zero element: subtract the logarithms modulo 63.
pub open spec fn gf_div(a: u8, b: u8) -> u8 {
    if a == 0 {
        0
    } else {
        gf_exp(((63 + gf_log(a as nat)) - gf_log(b as nat)) as nat % 63) as u8
    }
}

/// Multiplicative inverse of a non-zero element: alpha^(63 - i).
pub open spec fn gf_inv(a: u8) -> u8 {
    gf_exp(((63 - gf_log(a as nat)) as nat) % 63) as u8
}

/// Multiplication by x as bit operations: a left shift, reduced by
/// 0b1000011 when the x^6 term appears, kept to six bits.
pub open spec fn alpha_bits(v: u8) -> u8 {
    ((v << 1u8) ^ (if v >= 32 { 0x43u8 } else { 0u8 })) & 0x3F
}

/// `times_alpha` is a left shift followed by reduction modulo x^6 + x + 1,
/// and it is linear: it distributes over exclusive or.
pub proof fn lemma_times_alpha_bits(v: u8, w: u8)
    requires
        v < 64,
        w < 64,
    ensures
        times_alpha(v as nat) == alpha_bits(v) as nat,
        times_alpha(v as nat) < 64,
        times_alpha((v ^ w) as nat) == ((times_alpha(v as nat) as u8) ^ (times_alpha(
            w as nat,
        ) as u8)) as nat,
{
    let x = v ^ w;
    assert(x < 64 && alpha_bits(x) == alpha_bits(v) ^ alpha_bits(w) && alpha_bits(v) < 64
        && alpha_bits(w) < 64 && (v < 32 ==> alpha_bits(v) == 2 * v) && (32 <= v && v % 2 == 0
        ==> alpha_bits(v) == 2 * v - 61) && (32 <= v && v % 2 == 1 ==> alpha_bits(v) == 2 * v
        - 65) && (w < 32 ==> alpha_bits(w) == 2 * w) && (32 <= w && w % 2 == 0 ==> alpha_bits(w)
        == 2 * w - 61) && (32 <= w && w % 2 == 1 ==> alpha_bits(w) == 2 * w - 65) && (x < 32
        ==> alpha_bits(x) == 2 * x) && (32 <= x && x % 2 == 0 ==> alpha_bits(x) == 2 * x - 61)
        && (32 <= x && x % 2 == 1 ==> alpha_bits(x) == 2 * x - 65)) by (bit_vector)
        requires
            v < 64,
            w < 64,
            x == v ^ w,
    ;
}

/// The 63 powers of alpha, computed step by step from the definition.
pub proof fn lemma_exp_table()
    ensures
        gf_exp(0) == 1,
        gf_exp(1) == 2,
        gf_exp(2) == 4,
        gf_exp(3) == 8,
        gf_exp(4) == 16,
        gf_exp(5) == 32,
        gf_exp(6) == 3,
        gf_exp(7) == 6,
        gf_exp(8) == 12,
        gf_exp(9) == 24,
        gf_exp(10) == 48,
        gf_exp(11) == 35,
        gf_exp(12) == 5,
        gf_exp(13) == 10,
        gf_exp(14) == 20,
        gf_exp(15) == 40,
        gf_exp(16) == 19,
        gf_exp(17) == 38,
        gf_exp(18) == 15,
        gf_exp(19) == 30,
        gf_exp(20) == 60,
        gf_exp(21) == 59,
        gf_exp(22) == 53,
        gf_exp(23) == 41,
        gf_exp(24) == 17,
        gf_exp(25) == 34,
        gf_exp(26) == 7,
        gf_exp(27) == 14,
        gf_exp(28) == 28,
        gf_exp(29) == 56,
        gf_exp(30) == 51,
        gf_exp(31) == 37,
        gf_exp(32) == 9,
        gf_exp(33) == 18,
        gf_exp(34) == 36,
        gf_exp(35) == 11,
        gf_exp(36) == 22,
        gf_exp(37) == 44,
        gf_exp(38) == 27,
        gf_exp(39) == 54,
        gf_exp(40) == 47,
        gf_exp(41) == 29,
        gf_exp(42) == 58,
        gf_exp(43) == 55,
        gf_exp(44) == 45,
        gf_exp(45) == 25,
        gf_exp(46) == 50,
        gf_exp(47) == 39,
        gf_exp(48) == 13,
        gf_exp(49) == 26,
        gf_exp(50) == 52,
        gf_exp(51) == 43,
        gf_exp(52) == 21,
        gf_exp(53) == 42,
        gf_exp(54) == 23,
        gf_exp(55) == 46,
        gf_exp(56) == 31,
        gf_exp(57) == 62,
        gf_exp(58) == 63,
        gf_exp(59) == 61,
        gf_exp(60) == 57,
        gf_exp(61) == 49,
        gf_exp(62) == 33,
        gf_exp(63) == 1,
{
    assert(gf_exp(0) == 1);
    assert(gf_exp(1) == 2);
    assert(gf_exp(2) == 4);
    assert(gf_exp(3) == 8);
    assert(gf_exp(4) == 16);
    assert(gf_exp(5) == 32);
    assert(gf_exp(6) == 3);
    assert(gf_exp(7) == 6);
    assert(gf_exp(8) == 12);
    assert(gf_exp(9) == 24);
    assert(gf_exp(10) == 48);
    assert(gf_exp(11) == 35);
    assert(gf_exp(12) == 5);
    assert(gf_exp(13) == 10);
    assert(gf_exp(14) == 20);
    assert(gf_exp(15) == 40);
    assert(gf_exp(16) == 19);
    assert(gf_exp(17) == 38);
    assert(gf_exp(18) == 15);
    assert(gf_exp(19) == 30);
    assert(gf_exp(20) == 60);
    assert(gf_exp(21) == 59);
    assert(gf_exp(22) == 53);
    assert(gf_exp(23) == 41);
    assert(gf_exp(24) == 17);
    assert(gf_exp(25) == 34);
    assert(gf_exp(26) == 7);
    assert(gf_exp(27) == 14);
    assert(gf_exp(28) == 28);
    assert(gf_exp(29) == 56);
    assert(gf_exp(30) == 51);
    assert(gf_exp(31) == 37);
    assert(gf_exp(32) == 9);
    assert(gf_exp(33) == 18);
    assert(gf_exp(34) == 36);
    assert(gf_exp(35) == 11);
    assert(gf_exp(36) == 22);
    assert(gf_exp(37) == 44);
    assert(gf_exp(38) == 27);
    assert(gf_exp(39) == 54);
    assert(gf_exp(40) == 47);
    assert(gf_exp(41) == 29);
    assert(gf_exp(42) == 58);
    assert(gf_exp(43) == 55);
    assert(gf_exp(44) == 45);
    assert(gf_exp(45) == 25);
    assert(gf_exp(46) == 50);
    assert(gf_exp(47) == 39);
    assert(gf_exp(48) == 13);
    assert(gf_exp(49) == 26);
    assert(gf_exp(50) == 52);
    assert(gf_exp(51) == 43);
    assert(gf_exp(52) == 21);
    assert(gf_exp(53) == 42);
    assert(gf_exp(54) == 23);
    assert(gf_exp(55) == 46);
    assert(gf_exp(56) == 31);
    assert(gf_exp(57) == 62);
    assert(gf_exp(58) == 63);
    assert(gf_exp(59) == 61);
    assert(gf_exp(60) == 57);
    assert(gf_exp(61) == 49);
    assert(gf_exp(62) == 33);
    assert(gf_exp(63) == 1);
}

/// The discrete logarithm written out value by value; `lemma_log_table`
/// shows that it inverts `gf_exp` on 0..63.
pub open spec fn log_table(v: nat) -> nat {
    if v == 1 {
        0
    } else if v == 2 {
        1
    } else if v == 4 {
        2
    } else if v == 8 {
        3
    } else if v == 16 {
        4
    } else if v == 32 {
        5
    } else if v == 3 {
        6
    } else if v == 6 {
        7
    } else if v == 12 {
        8
    } else if v == 24 {
        9
    } else if v == 48 {
        10
    } else if v == 35 {
        11
    } else if v == 5 {
        12
    } else if v == 10 {
        13
    } else if v == 20 {
        14
    } else if v == 40 {
        15
    } else if v == 19 {
        16
    } else if v == 38 {
        17
    } else if v == 15 {
        18
    } else if v == 30 {
        19
    } else if v == 60 {
        20
    } else if v == 59 {
        21
    } else if v == 53 {
        22
    } else if v == 41 {
        23
    } else if v == 17 {
        24
    } else if v == 34 {
        25
    } else if v == 7 {
        26
    } else if v == 14 {
        27
    } else if v == 28 {
        28
    } else if v == 56 {
        29
    } else if v == 51 {
        30
    } else if v == 37 {
        31
    } else if v == 9 {
        32
    } else if v == 18 {
        33
    } else if v == 36 {
        34
    } else if v == 11 {
        35
    } else if v == 22 {
        36
    } else if v == 44 {
        37
    } else if v == 27 {
        38
    } else if v == 54 {
        39
    } else if v == 47 {
        40
    } else if v == 29 {
        41
    } else if v == 58 {
        42
    } else if v == 55 {
        43
    } else if v == 45 {
        44
    } else if v == 25 {
        45
    } else if v == 50 {
        46
    } else if v == 39 {
        47
    } else if v == 13 {
        48
    } else if v == 26 {
        49
    } else if v == 52 {
        50
    } else if v == 43 {
        51
    } else if v == 21 {
        52
    } else if v == 42 {
        53
    } else if v == 23 {
        54
    } else if v == 46 {
        55
    } else if v == 31 {
        56
    } else if v == 62 {
        57
    } else if v == 63 {
        58
    } else if v == 61 {
        59
    } else if v == 57 {
        60
    } else if v == 49 {
        61
    } else if v == 33 {
        62
    } else {
        0
    }
}

pub proof fn lemma_log_table()
    ensures
        forall|i: nat| i < 63 ==> #[trigger] log_table(gf_exp(i)) == i,
        forall|v: nat| 1 <= v < 64 ==> log_table(v) < 63 && #[trigger] gf_exp(log_table(v)) == v,
{
    lemma_exp_table();
    assert forall|i: nat| i < 63 implies #[trigger] log_table(gf_exp(i)) == i by {
        if i == 0 {
            assert(log_table(gf_exp(0)) == 0);
        } else if i == 1 {
            assert(log_table(gf_exp(1)) == 1);
        } else if i == 2 {
            assert(log_table(gf_exp(2)) == 2);
        } else if i == 3 {
            assert(log_table(gf_exp(3)) == 3);
        } else if i == 4 {
            assert(log_table(gf_exp(4)) == 4);
        } else if i == 5 {
            assert(log_table(gf_exp(5)) == 5);
        } else if i == 6 {
            assert(log_table(gf_exp(6)) == 6);
        } else if i == 7 {
            assert(log_table(gf_exp(7)) == 7);
        } else if i == 8 {
            assert(log_table(gf_exp(8)) == 8);
        } else if i == 9 {
            assert(log_table(gf_exp(9)) == 9);
        } else if i == 10 {
            assert(log_table(gf_exp(10)) == 10);
        } else if i == 11 {
            assert(log_table(gf_exp(11)) == 11);
        } else if i == 12 {
            assert(log_table(gf_exp(12)) == 12);
        } else if i == 13 {
            assert(log_table(gf_exp(13)) == 13);
        } else if i == 14 {
            assert(log_table(gf_exp(14)) == 14);
        } else if i == 15 {
            assert(log_table(gf_exp(15)) == 15);
        } else if i == 16 {
            assert(log_table(gf_exp(16)) == 16);
        } else if i == 17 {
            assert(log_table(gf_exp(17)) == 17);
        } else if i == 18 {
            assert(log_table(gf_exp(18)) == 18);
        } else if i == 19 {
            assert(log_table(gf_exp(19)) == 19);
        } else if i == 20 {
            assert(log_table(gf_exp(20)) == 20);
        } else if i == 21 {
            assert(log_table(gf_exp(21)) == 21);
        } else if i == 22 {
            assert(log_table(gf_exp(22)) == 22);
        } else if i == 23 {
            assert(log_table(gf_exp(23)) == 23);
        } else if i == 24 {
            assert(log_table(gf_exp(24)) == 24);
        } else if i == 25 {
            assert(log_table(gf_exp(25)) == 25);
        } else if i == 26 {
            assert(log_table(gf_exp(26)) == 26);
        } else if i == 27 {
            assert(log_table(gf_exp(27)) == 27);
        } else if i == 28 {
            assert(log_table(gf_exp(28)) == 28);
        } else if i == 29 {
            assert(log_table(gf_exp(29)) == 29);
        } else if i == 30 {
            assert(log_table(gf_exp(30)) == 30);
        } else if i == 31 {
            assert(log_table(gf_exp(31)) == 31);
        } else if i == 32 {
            assert(log_table(gf_exp(32)) == 32);
        } else if i == 33 {
            assert(log_table(gf_exp(33)) == 33);
        } else if i == 34 {
            assert(log_table(gf_exp(34)) == 34);
        } else if i == 35 {
            assert(log_table(gf_exp(35)) == 35);
        } else if i == 36 {
            assert(log_table(gf_exp(36)) == 36);
        } else if i == 37 {
            assert(log_table(gf_exp(37)) == 37);
        } else if i == 38 {
            assert(log_table(gf_exp(38)) == 38);
        } else if i == 39 {
            assert(log_table(gf_exp(39)) == 39);
        } else if i == 40 {
            assert(log_table(gf_exp(40)) == 40);
        } else if i == 41 {
            assert(log_table(gf_exp(41)) == 41);
        } else if i == 42 {
            assert(log_table(gf_exp(42)) == 42);
        } else if i == 43 {
            assert(log_table(gf_exp(43)) == 43);
        } else if i == 44 {
            assert(log_table(gf_exp(44)) == 44);
        } else if i == 45 {
            assert(log_table(gf_exp(45)) == 45);
        } else if i == 46 {
            assert(log_table(gf_exp(46)) == 46);
        } else if i == 47 {
            assert(log_table(gf_exp(47)) == 47);
        } else if i == 48 {
            assert(log_table(gf_exp(48)) == 48);
        } else if i == 49 {
            assert(log_table(gf_exp(49)) == 49);
        } else if i == 50 {
            assert(log_table(gf_exp(50)) == 50);
        } else if i == 51 {
            assert(log_table(gf_exp(51)) == 51);
        } else if i == 52 {
            assert(log_table(gf_exp(52)) == 52);
        } else if i == 53 {
            assert(log_table(gf_exp(53)) == 53);
        } else if i == 54 {
            assert(log_table(gf_exp(54)) == 54);
        } else if i == 55 {
            assert(log_table(gf_exp(55)) == 55);
        } else if i == 56 {
            assert(log_table(gf_exp(56)) == 56);
        } else if i == 57 {
            assert(log_table(gf_exp(57)) == 57);
        } else if i == 58 {
            assert(log_table(gf_exp(58)) == 58);
        } else if i == 59 {
            assert(log_table(gf_exp(59)) == 59);
        } else if i == 60 {
            assert(log_table(gf_exp(60)) == 60);
        } else if i == 61 {
            assert(log_table(gf_exp(61)) == 61);
        } else if i == 62 {
            assert(log_table(gf_exp(62)) == 62);
        }
    }
    assert forall|v: nat| 1 <= v < 64 implies log_table(v) < 63 && #[trigger] gf_exp(log_table(v)) == v by {
        if v == 1 {
            assert(gf_exp(0) == 1);
        } else if v == 2 {
            assert(gf_exp(1) == 2);
        } else if v == 3 {
            assert(gf_exp(6) == 3);
        } else if v == 4 {
            assert(gf_exp(2) == 4);
        } else if v == 5 {
            assert(gf_exp(12) == 5);
        } else if v == 6 {
            assert(gf_exp(7) == 6);
        } else if v == 7 {
            assert(gf_exp(26) == 7);
        } else if v == 8 {
            assert(gf_exp(3) == 8);
        } else if v == 9 {
            assert(gf_exp(32) == 9);
        } else if v == 10 {
            assert(gf_exp(13) == 10);
        } else if v == 11 {
            assert(gf_exp(35) == 11);
        } else if v == 12 {
            assert(gf_exp(8) == 12);
        } else if v == 13 {
            assert(gf_exp(48) == 13);
        } else if v == 14 {
            assert(gf_exp(27) == 14);
        } else if v == 15 {
            assert(gf_exp(18) == 15);
        } else if v == 16 {
            assert(gf_exp(4) == 16);
        } else if v == 17 {
            assert(gf_exp(24) == 17);
        } else if v == 18 {
            assert(gf_exp(33) == 18);
        } else if v == 19 {
            assert(gf_exp(16) == 19);
        } else if v == 20 {
            assert(gf_exp(14) == 20);
        } else if v == 21 {
            assert(gf_exp(52) == 21);
        } else if v == 22 {
            assert(gf_exp(36) == 22);
        } else if v == 23 {
            assert(gf_exp(54) == 23);
        } else if v == 24 {
            assert(gf_exp(9) == 24);
        } else if v == 25 {
            assert(gf_exp(45) == 25);
        } else if v == 26 {
            assert(gf_exp(49) == 26);
        } else if v == 27 {
            assert(gf_exp(38) == 27);
        } else if v == 28 {
            assert(gf_exp(28) == 28);
        } else if v == 29 {
            assert(gf_exp(41) == 29);
        } else if v == 30 {
            assert(gf_exp(19) == 30);
        } else if v == 31 {
            assert(gf_exp(56) == 31);
        } else if v == 32 {
            assert(gf_exp(5) == 32);
        } else if v == 33 {
            assert(gf_exp(62) == 33);
        } else if v == 34 {
            assert(gf_exp(25) == 34);
        } else if v == 35 {
            assert(gf_exp(11) == 35);
        } else if v == 36 {
            assert(gf_exp(34) == 36);
        } else if v == 37 {
            assert(gf_exp(31) == 37);
        } else if v == 38 {
            assert(gf_exp(17) == 38);
        } else if v == 39 {
            assert(gf_exp(47) == 39);
        } else if v == 40 {
            assert(gf_exp(15) == 40);
        } else if v == 41 {
            assert(gf_exp(23) == 41);
        } else if v == 42 {
            assert(gf_exp(53) == 42);
        } else if v == 43 {
            assert(gf_exp(51) == 43);
        } else if v == 44 {
            assert(gf_exp(37) == 44);
        } else if v == 45 {
            assert(gf_exp(44) == 45);
        } else if v == 46 {
            assert(gf_exp(55) == 46);
        } else if v == 47 {
            assert(gf_exp(40) == 47);
        } else if v == 48 {
            assert(gf_exp(10) == 48);
        } else if v == 49 {
            assert(gf_exp(61) == 49);
        } else if v == 50 {
            assert(gf_exp(46) == 50);
        } else if v == 51 {
            assert(gf_exp(30) == 51);
        } else if v == 52 {
            assert(gf_exp(50) == 52);
        } else if v == 53 {
            assert(gf_exp(22) == 53);
        } else if v == 54 {
            assert(gf_exp(39) == 54);
        } else if v == 55 {
            assert(gf_exp(43) == 55);
        } else if v == 56 {
            assert(gf_exp(29) == 56);
        } else if v == 57 {
            assert(gf_exp(60) == 57);
        } else if v == 58 {
            assert(gf_exp(42) == 58);
        } else if v == 59 {
            assert(gf_exp(21) == 59);
        } else if v == 60 {
            assert(gf_exp(20) == 60);
        } else if v == 61 {
            assert(gf_exp(59) == 61);
        } else if v == 62 {
            assert(gf_exp(57) == 62);
        } else if v == 63 {
            assert(gf_exp(58) == 63);
        }
    }
}

/// Look up the codeword for power `i` (modulo the field size).
pub fn codeword_for_power(power: usize) -> (r: u8)
    ensures
        r == gf_exp((power % 63) as nat),
        1 <= r < 64,
{
    proof {
        lemma_exp_table();
    }
    match power % 63 {
        0 => 1,
        1 => 2,
        2 => 4,
        3 => 8,
        4 => 16,
        5 => 32,
        6 => 3,
        7 => 6,
        8 => 12,
        9 => 24,
        10 => 48,
        11 => 35,
        12 => 5,
        13 => 10,
        14 => 20,
        15 => 40,
        16 => 19,
        17 => 38,
        18 => 15,
        19 => 30,
        20 => 60,
        21 => 59,
        22 => 53,
        23 => 41,
        24 => 17,
        25 => 34,
        26 => 7,
        27 => 14,
        28 => 28,
        29 => 56,
        30 => 51,
        31 => 37,
        32 => 9,
        33 => 18,
        34 => 36,
        35 => 11,
        36 => 22,
        37 => 44,
        38 => 27,
        39 => 54,
        40 => 47,
        41 => 29,
        42 => 58,
        43 => 55,
        44 => 45,
        45 => 25,
        46 => 50,
        47 => 39,
        48 => 13,
        49 => 26,
        50 => 52,
        51 => 43,
        52 => 21,
        53 => 42,
        54 => 23,
        55 => 46,
        56 => 31,
        57 => 62,
        58 => 63,
        59 => 61,
        60 => 57,
        61 => 49,
        _ => 33,
    }
}

/// Look up the power for a non-zero codeword bit pattern.
pub fn power_of_codeword(bits: u8) -> (r: usize)
    requires
        1 <= bits < 64,
    ensures
        r < 63,
        gf_exp(r as nat) == bits,
        r == gf_log(bits as nat),
{
    proof {
        lemma_exp_table();
        lemma_log_exp();
    }
    match bits {
        1 => 0,
        2 => 1,
        3 => 6,
        4 => 2,
        5 => 12,
        6 => 7,
        7 => 26,
        8 => 3,
        9 => 32,
        10 => 13,
        11 => 35,
        12 => 8,
        13 => 48,
        14 => 27,
        15 => 18,
        16 => 4,
        17 => 24,
        18 => 33,
        19 => 16,
        20 => 14,
        21 => 52,
        22 => 36,
        23 => 54,
        24 => 9,
        25 => 45,
        26 => 49,
        27 => 38,
        28 => 28,
        29 => 41,
        30 => 19,
        31 => 56,
        32 => 5,
        33 => 62,
        34 => 25,
        35 => 11,
        36 => 34,
        37 => 31,
        38 => 17,
        39 => 47,
        40 => 15,
        41 => 23,
        42 => 53,
        43 => 51,
        44 => 37,
        45 => 44,
        46 => 55,
        47 => 40,
        48 => 10,
        49 => 61,
        50 => 46,
        51 => 30,
        52 => 50,
        53 => 22,
        54 => 39,
        55 => 43,
        56 => 29,
        57 => 60,
        58 => 42,
        59 => 21,
        60 => 20,
        61 => 59,
        62 => 57,
        _ => 58,
    }
}

/// alpha has order 63: the powers repeat with period 63.
pub proof fn lemma_exp_period(n: nat)
    ensures
        gf_exp(n + 63) == gf_exp(n),
    decreases n,
{
    if n == 0 {
        lemma_exp_table();
    } else {
        lemma_exp_period((n - 1) as nat);
        assert(gf_exp(n + 63) == times_alpha(gf_exp((n - 1 + 63) as nat)));
    }
}

/// Every power of alpha equals the power of its exponent modulo 63.
pub proof fn lemma_exp_mod(n: nat)
    ensures
        gf_exp(n) == gf_exp(n % 63),
    decreases n,
{
    if n >= 63 {
        lemma_exp_mod((n - 63) as nat);
        lemma_exp_period((n - 63) as nat);
        assert((n - 63) as nat % 63 == n % 63) by {
            vstd::arithmetic::div_mod::lemma_mod_sub_multiples_vanish(n as int, 63);
        }
    }
}

/// The logarithm and the exponential are inverse bijections between
/// 0..63 and the non-zero elements 1..64.
pub proof fn lemma_log_exp()
    ensures
        forall|i: nat| i < 63 ==> #[trigger] gf_log(gf_exp(i)) == i,
        forall|v: nat| 1 <= v < 64 ==> #[trigger] gf_log(v) < 63 && gf_exp(gf_log(v)) == v,
        forall|i: nat| i < 63 ==> 1 <= #[trigger] gf_exp(i) < 64,
{
    lemma_log_table();
    lemma_exp_table();
    assert forall|v: nat| 1 <= v < 64 implies #[trigger] gf_log(v) < 63 && gf_exp(gf_log(v)) == v by {
        assert(log_table(v) < 63 && gf_exp(log_table(v)) == v);
    }
    assert forall|i: nat| i < 63 implies 1 <= #[trigger] gf_exp(i) < 64 by {
        assert(log_table(gf_exp(i)) == i);
        if gf_exp(i) == 0 || gf_exp(i) >= 64 {
            assert(log_table(gf_exp(i)) == 0);
            assert(gf_exp(0) == 1);
        }
    }
    assert forall|i: nat| i < 63 implies #[trigger] gf_log(gf_exp(i)) == i by {
        let v = gf_exp(i);
        let j = gf_log(v);
        assert(log_table(v) == i);
        assert(gf_exp(i) == v);
        assert(j < 63 && gf_exp(j) == v);
        assert(log_table(gf_exp(j)) == j);
    }
}

/// Every power of alpha is a non-zero 6-bit pattern.
pub proof fn lemma_exp_bound(n: nat)
    ensures
        1 <= gf_exp(n) < 64,
{
    lemma_exp_mod(n);
    lemma_log_exp();
    assert(1 <= gf_exp(n % 63) < 64);
}

// ---------------------------------------------------------------------------
// Laws of the field operations
// ---------------------------------------------------------------------------

/// Addition is XOR: every element is its own additive inverse, and the
/// operation is commutative and associative.
pub proof fn lemma_add_laws(a: u8, b: u8, c: u8)
    ensures
        gf_add(a, a) == 0,
        gf_add(a, 0) == a,
        gf_add(a, b) == gf_add(b, a),
        gf_add(gf_add(a, b), c) == gf_add(a, gf_add(b, c)),
        a < 64 && b < 64 ==> gf_add(a, b) < 64,
{
    crate::p25::bitwise::lemma_xor_u8(a, b, c);
}

/// Sum of two residues modulo 63, without a division.
proof fn lemma_mod63_sum(x: nat, y: nat)
    requires
        x < 63,
        y < 63,
    ensures
        (x + y) % 63 == if x + y < 63 { x + y } else { (x + y - 63) as nat },
{
    if x + y >= 63 {
        assert((x + y) as int == 63 + (x + y - 63));
        vstd::arithmetic::div_mod::lemma_mod_sub_multiples_vanish((x + y) as int, 63);
    }
}

/// Field facts about the value of a non-zero product.
proof fn lemma_mul_nonzero(a: u8, b: u8)
    requires
        1 <= a < 64,
        1 <= b < 64,
    ensures
        gf_log(a as nat) < 63,
        gf_log(b as nat) < 63,
        1 <= gf_mul(a, b) < 64,
        gf_log(gf_mul(a, b) as nat) == (gf_log(a as nat) + gf_log(b as nat)) % 63,
{
    lemma_log_exp();
    let s = (gf_log(a as nat) + gf_log(b as nat)) % 63;
    assert(1 <= gf_exp(s) < 64);
    assert(gf_log(gf_exp(s)) == s);
}

/// Multiplication is commutative.
pub proof fn lemma_mul_commutative(a: u8, b: u8)
    ensures
        gf_mul(a, b) == gf_mul(b, a),
{
}

/// One is the multiplicative identity, and products stay inside the field;
/// a product is zero exactly when a factor is.
pub proof fn lemma_mul_identity(a: u8, b: u8)
    requires
        a < 64,
        b < 64,
    ensures
        gf_mul(a, 1) == a,
        gf_mul(a, b) < 64,
        gf_mul(a, b) == 0 <==> (a == 0 || b == 0),
{
    lemma_log_exp();
    lemma_exp_table();
    assert(gf_log(1) == 0) by {
        assert(gf_log(gf_exp(0)) == 0);
    }
    if a != 0 {
        let la = gf_log(a as nat);
        assert(la % 63 == la);
        assert(gf_exp(gf_log(a as nat)) == a);
    }
    if a != 0 && b != 0 {
        lemma_mul_nonzero(a, b);
    }
}

/// Multiplication is associative.
pub proof fn lemma_mul_associative(a: u8, b: u8, c: u8)
    requires
        a < 64,
        b < 64,
        c < 64,
    ensures
        gf_mul(gf_mul(a, b), c) == gf_mul(a, gf_mul(b, c)),
{
    if a != 0 && b != 0 && c != 0 {
        lemma_mul_nonzero(a, b);
        lemma_mul_nonzero(b, c);
        let la = gf_log(a as nat);
        let lb = gf_log(b as nat);
        let lc = gf_log(c as nat);
        lemma_mod63_sum(la, lb);
        lemma_mod63_sum(lb, lc);
        lemma_mod63_sum((la + lb) % 63, lc);
        lemma_mod63_sum(la, (lb + lc) % 63);
    } else {
        lemma_mul_identity(a, b);
        lemma_mul_identity(b, c);
    }
}

/// Division undoes multiplication by a non-zero element.
pub proof fn lemma_mul_div_roundtrip(a: u8, b: u8)
    requires
        a < 64,
        1 <= b < 64,
    ensures
        gf_div(gf_mul(a, b), b) == a,
{
    lemma_log_exp();
    if a != 0 {
        lemma_mul_nonzero(a, b);
        let la = gf_log(a as nat);
        let lb = gf_log(b as nat);
        lemma_mod63_sum(la, lb);
        let s = (la + lb) % 63;
        assert(la % 63 == la);
        if la + lb >= 63 {
            assert((63 + s - lb) as nat == la);
        } else {
            assert((63 + s - lb) as nat == la + 63);
            assert((la + 63) as nat % 63 == la) by {
                vstd::arithmetic::div_mod::lemma_mod_add_multiples_vanish(la as int, 63);
            }
        }
        assert(gf_exp(gf_log(a as nat)) == a);
    }
}

/// Multiplying a quotient by its divisor gives back the dividend.
pub proof fn lemma_div_mul(a: u8, b: u8)
    requires
        a < 64,
        1 <= b < 64,
    ensures
        gf_mul(gf_div(a, b), b) == a,
        gf_div(a, b) < 64,
{
    lemma_log_exp();
    if a != 0 {
        let la = gf_log(a as nat);
        let lb = gf_log(b as nat);
        let q = ((63 + la) - lb) as nat % 63;
        assert(1 <= gf_exp(q) < 64);
        assert(gf_log(gf_exp(q)) == q);
        assert((q + lb) % 63 == la) by {
            if la >= lb {
                assert(((63 + la) - lb) as nat == 63 + (la - lb) as nat);
                vstd::arithmetic::div_mod::lemma_mod_add_multiples_vanish((la - lb) as int, 63);
                assert(q == (la - lb) as nat);
            } else {
                assert(q == ((63 + la) - lb) as nat);
                lemma_mod63_sum(q, lb);
            }
        }
        assert(gf_exp(gf_log(a as nat)) == a);
    }
}

/// Powers of alpha multiply by adding exponents.
pub proof fn lemma_exp_mul(a: nat, b: nat)
    ensures
        gf_mul(gf_exp(a) as u8, gf_exp(b) as u8) == gf_exp(a + b),
{
    lemma_exp_bound(a);
    lemma_exp_bound(b);
    lemma_exp_mod(a);
    lemma_exp_mod(b);
    lemma_exp_mod(a + b);
    lemma_log_exp();
    let la = a % 63;
    let lb = b % 63;
    assert(gf_log(gf_exp(a)) == la);
    assert(gf_log(gf_exp(b)) == lb);
    assert((la + lb) % 63 == (a + b) % 63) by {
        vstd::arithmetic::div_mod::lemma_add_mod_noop(a as int, b as int, 63);
    }
}

/// Every non-zero element times its inverse is one.
pub proof fn lemma_mul_inverse(a: u8)
    requires
        1 <= a < 64,
    ensures
        gf_mul(a, gf_inv(a)) == 1,
        1 <= gf_inv(a) < 64,
{
    lemma_log_exp();
    lemma_exp_table();
    let la = gf_log(a as nat);
    let e = ((63 - la) as nat) % 63;
    assert(1 <= gf_exp(e) < 64);
    assert(gf_log(gf_exp(e)) == e);
    assert((la + e) % 63 == 0);
}


/// `v` multiplied by alpha `k` times, one shift-and-reduce at a time.
pub open spec fn alpha_shift(v: u8, k: nat) -> u8
    decreases k,
{
    if k == 0 {
        v
    } else {
        alpha_shift(times_alpha(v as nat) as u8, (k - 1) as nat)
    }
}

/// Multiplying by alpha is one shift-and-reduce.
proof fn lemma_times_alpha_mul(u: u8)
    requires
        u < 64,
    ensures
        gf_mul(u, 2) == times_alpha(u as nat) as u8,
        times_alpha(u as nat) < 64,
{
    lemma_times_alpha_bits(u, 0);
    if u != 0 {
        lemma_log_exp();
        lemma_exp_table();
        let l = gf_log(u as nat);
        assert(gf_log(gf_exp(1)) == 1);
        assert(gf_exp(l + 1) == times_alpha(gf_exp(l)));
        lemma_exp_mod(l + 1);
    }
}

/// Multiplying by alpha^k is shifting `k` times.
proof fn lemma_alpha_shift(v: u8, k: nat)
    requires
        v < 64,
    ensures
        gf_mul(gf_exp(k) as u8, v) == alpha_shift(v, k),
        alpha_shift(v, k) < 64,
    decreases k,
{
    lemma_exp_bound(k);
    if k == 0 {
        lemma_exp_table();
        lemma_mul_identity(v, 1);
    } else {
        let e = gf_exp((k - 1) as nat) as u8;
        lemma_exp_bound((k - 1) as nat);
        lemma_times_alpha_mul(e);
        lemma_times_alpha_mul(v);
        lemma_mul_associative(e, 2, v);
        let t = times_alpha(v as nat) as u8;
        lemma_alpha_shift(t, (k - 1) as nat);
        assert(gf_exp(k) as u8 == gf_mul(e, 2));
    }
}

/// Shifting distributes over exclusive or.
proof fn lemma_alpha_shift_xor(v: u8, w: u8, k: nat)
    requires
        v < 64,
        w < 64,
    ensures
        alpha_shift(v ^ w, k) == alpha_shift(v, k) ^ alpha_shift(w, k),
    decreases k,
{
    if k > 0 {
        lemma_times_alpha_bits(v, w);
        lemma_times_alpha_bits(w, 0);
        let tv = times_alpha(v as nat) as u8;
        let tw = times_alpha(w as nat) as u8;
        assert(times_alpha((v ^ w) as nat) as u8 == tv ^ tw);
        lemma_alpha_shift_xor(tv, tw, (k - 1) as nat);
    }
}

/// Multiplication distributes over addition.
pub proof fn lemma_mul_distributive(a: u8, b: u8, c: u8)
    requires
        a < 64,
        b < 64,
        c < 64,
    ensures
        gf_mul(a, gf_add(b, c)) == gf_add(gf_mul(a, b), gf_mul(a, c)),
        gf_mul(gf_add(b, c), a) == gf_add(gf_mul(b, a), gf_mul(c, a)),
{
    crate::p25::bitwise::lemma_xor_u8(b, c, 0);
    crate::p25::bitwise::lemma_xor_u8(0, 0, 0);
    if a != 0 {
        lemma_log_exp();
        let la = gf_log(a as nat);
        assert(gf_exp(la) as u8 == a);
        lemma_alpha_shift(b, la);
        lemma_alpha_shift(c, la);
        lemma_alpha_shift(b ^ c, la);
        lemma_alpha_shift_xor(b, c, la);
    }
}

/// alpha^k for k below 63, written out as a search tree.
pub open spec fn alpha_power(k: u32) -> u8 {
    if k < 31 { if k < 15 { if k < 7 { if k < 3 { if k < 1 { 1u8 } else { if k < 2 { 2u8 } else { 4u8 } } } else { if k < 5 { if k < 4 { 8u8 } else { 16u8 } } else { if k < 6 { 32u8 } else { 3u8 } } } } else { if k < 11 { if k < 9 { if k < 8 { 6u8 } else { 12u8 } } else { if k < 10 { 24u8 } else { 48u8 } } } else { if k < 13 { if k < 12 { 35u8 } else { 5u8 } } else { if k < 14 { 10u8 } else { 20u8 } } } } } else { if k < 23 { if k < 19 { if k < 17 { if k < 16 { 40u8 } else { 19u8 } } else { if k < 18 { 38u8 } else { 15u8 } } } else { if k < 21 { if k < 20 { 30u8 } else { 60u8 } } else { if k < 22 { 59u8 } else { 53u8 } } } } else { if k < 27 { if k < 25 { if k < 24 { 41u8 } else { 17u8 } } else { if k < 26 { 34u8 } else { 7u8 } } } else { if k < 29 { if k < 28 { 14u8 } else { 28u8 } } else { if k < 30 { 56u8 } else { 51u8 } } } } } } else { if k < 47 { if k < 39 { if k < 35 { if k < 33 { if k < 32 { 37u8 } else { 9u8 } } else { if k < 34 { 18u8 } else { 36u8 } } } else { if k < 37 { if k < 36 { 11u8 } else { 22u8 } } else { if k < 38 { 44u8 } else { 27u8 } } } } else { if k < 43 { if k < 41 { if k < 40 { 54u8 } else { 47u8 } } else { if k < 42 { 29u8 } else { 58u8 } } } else { if k < 45 { if k < 44 { 55u8 } else { 45u8 } } else { if k < 46 { 25u8 } else { 50u8 } } } } } else { if k < 55 { if k < 51 { if k < 49 { if k < 48 { 39u8 } else { 13u8 } } else { if k < 50 { 26u8 } else { 52u8 } } } else { if k < 53 { if k < 52 { 43u8 } else { 21u8 } } else { if k < 54 { 42u8 } else { 23u8 } } } } else { if k < 59 { if k < 57 { if k < 56 { 46u8 } else { 31u8 } } else { if k < 58 { 62u8 } else { 63u8 } } } else { if k < 61 { if k < 60 { 61u8 } else { 57u8 } } else { if k < 62 { 49u8 } else { 33u8 } } } } } }
}

/// The power k < 63 with alpha^k = v, written out; zero for zero and one.
pub open spec fn alpha_log(v: u8) -> u32 {
    if v < 32 { if v < 16 { if v < 8 { if v < 4 { if v < 2 { if v < 1 { 0u32 } else { 0u32 } } else { if v < 3 { 1u32 } else { 6u32 } } } else { if v < 6 { if v < 5 { 2u32 } else { 12u32 } } else { if v < 7 { 7u32 } else { 26u32 } } } } else { if v < 12 { if v < 10 { if v < 9 { 3u32 } else { 32u32 } } else { if v < 11 { 13u32 } else { 35u32 } } } else { if v < 14 { if v < 13 { 8u32 } else { 48u32 } } else { if v < 15 { 27u32 } else { 18u32 } } } } } else { if v < 24 { if v < 20 { if v < 18 { if v < 17 { 4u32 } else { 24u32 } } else { if v < 19 { 33u32 } else { 16u32 } } } else { if v < 22 { if v < 21 { 14u32 } else { 52u32 } } else { if v < 23 { 36u32 } else { 54u32 } } } } else { if v < 28 { if v < 26 { if v < 25 { 9u32 } else { 45u32 } } else { if v < 27 { 49u32 } else { 38u32 } } } else { if v < 30 { if v < 29 { 28u32 } else { 41u32 } } else { if v < 31 { 19u32 } else { 56u32 } } } } } } else { if v < 48 { if v < 40 { if v < 36 { if v < 34 { if v < 33 { 5u32 } else { 62u32 } } else { if v < 35 { 25u32 } else { 11u32 } } } else { if v < 38 { if v < 37 { 34u32 } else { 31u32 } } else { if v < 39 { 17u32 } else { 47u32 } } } } else { if v < 44 { if v < 42 { if v < 41 { 15u32 } else { 23u32 } } else { if v < 43 { 53u32 } else { 51u32 } } } else { if v < 46 { if v < 45 { 37u32 } else { 44u32 } } else { if v < 47 { 55u32 } else { 40u32 } } } } } else { if v < 56 { if v < 52 { if v < 50 { if v < 49 { 10u32 } else { 61u32 } } else { if v < 51 { 46u32 } else { 30u32 } } } else { if v < 54 { if v < 53 { 50u32 } else { 22u32 } } else { if v < 55 { 39u32 } else { 43u32 } } } } else { if v < 60 { if v < 58 { if v < 57 { 29u32 } else { 60u32 } } else { if v < 59 { 42u32 } else { 21u32 } } } else { if v < 62 { if v < 61 { 20u32 } else { 59u32 } } else { if v < 63 { 57u32 } else { 58u32 } } } } } }
}

/// The written-out powers agree with the field's powers of alpha.
pub proof fn lemma_alpha_power(k: u32)
    requires
        k < 63,
    ensures
        alpha_power(k) == gf_exp(k as nat) as u8,
{
    lemma_exp_table();
    assert(k == 0 || k == 1 || k == 2 || k == 3 || k == 4 || k == 5 || k == 6 || k == 7 || k == 8 || k == 9 || k == 10 || k == 11 || k == 12 || k == 13 || k == 14 || k == 15 || k == 16 || k == 17 || k == 18 || k == 19 || k == 20 || k == 21 || k == 22 || k == 23 || k == 24 || k == 25 || k == 26 || k == 27 || k == 28 || k == 29 || k == 30 || k == 31 || k == 32 || k == 33 || k == 34 || k == 35 || k == 36 || k == 37 || k == 38 || k == 39 || k == 40 || k == 41 || k == 42 || k == 43 || k == 44 || k == 45 || k == 46 || k == 47 || k == 48 || k == 49 || k == 50 || k == 51 || k == 52 || k == 53 || k == 54 || k == 55 || k == 56 || k == 57 || k == 58 || k == 59 || k == 60 || k == 61 || k == 62);
}

/// Multiplication over the written-out tables: add the logarithms
/// modulo 63; zero absorbs.
pub open spec fn flat_mul(a: u8, b: u8) -> u8 {
    if a == 0 || b == 0 {
        0
    } else {
        alpha_power(((alpha_log(a) + alpha_log(b)) % 63) as u32)
    }
}

/// The written-out logarithm agrees with the field's logarithm.
proof fn lemma_alpha_log(v: u8)
    requires
        1 <= v < 64,
    ensures
        alpha_log(v) < 63,
        alpha_log(v) as nat == gf_log(v as nat),
{
    lemma_log_table();
    lemma_log_exp();
    assert(v == 1 || v == 2 || v == 3 || v == 4 || v == 5 || v == 6 || v == 7 || v == 8 || v == 9 || v == 10 || v == 11 || v == 12 || v == 13 || v == 14 || v == 15 || v == 16 || v == 17 || v == 18 || v == 19 || v == 20 || v == 21 || v == 22 || v == 23 || v == 24 || v == 25 || v == 26 || v == 27 || v == 28 || v == 29 || v == 30 || v == 31 || v == 32 || v == 33 || v == 34 || v == 35 || v == 36 || v == 37 || v == 38 || v == 39 || v == 40 || v == 41 || v == 42 || v == 43 || v == 44 || v == 45 || v == 46 || v == 47 || v == 48 || v == 49 || v == 50 || v == 51 || v == 52 || v == 53 || v == 54 || v == 55 || v == 56 || v == 57 || v == 58 || v == 59 || v == 60 || v == 61 || v == 62 || v == 63);
    assert(alpha_log(v) as nat == log_table(v as nat));
    assert(gf_log(gf_exp(log_table(v as nat))) == log_table(v as nat));
}

/// Multiplication over the written-out tables is field multiplication.
pub proof fn lemma_flat_mul(a: u8, b: u8)
    requires
        a < 64,
        b < 64,
    ensures
        flat_mul(a, b) == gf_mul(a, b),
{
    if a != 0 && b != 0 {
        lemma_alpha_log(a);
        lemma_alpha_log(b);
        let k = ((alpha_log(a) + alpha_log(b)) % 63) as u32;
        lemma_alpha_power(k);
        assert(k as nat == (gf_log(a as nat) + gf_log(b as nat)) % 63);
    }
}

// ---------------------------------------------------------------------------
// Codeword — a single field element
// ---------------------------------------------------------------------------

/// An element of GF(2^6), stored as a 6-bit value.
///
/// The zero element (bits = 0) is the additive identity.
/// Non-zero elements alpha^i are identified by their power `i`.
#[derive(Debug, Copy, Clone, PartialEq, Eq)]
pub struct Codeword {
    bits: u8,
}

impl View for Codeword {
    type V = u8;

    closed spec fn view(&self) -> u8 {
        self.bits % 64
    }
}

/// Every codeword's value fits in six bits.
pub broadcast proof fn lemma_codeword_bound(c: Codeword)
    ensures
        #[trigger] c@ < 64,
{
}

/// The codeword whose 6-bit value is `v`.
pub closed spec fn spec_codeword(v: u8) -> Codeword {
    Codeword { bits: v % 64 }
}

/// The value of `spec_codeword(v)` is `v` reduced to six bits.
pub broadcast proof fn lemma_spec_codeword(v: u8)
    ensures
        #[trigger] spec_codeword(v)@ == v % 64,
{
}

impl Codeword {
    #[verifier::type_invariant]
    spec fn inv(self) -> bool {
        self.bits < 64
    }

    /// Construct a codeword from a 6-bit value.
    ///
    /// Bits beyond the low 6 are silently masked off.
    pub fn new(bits: u8) -> (c: Codeword)
        ensures
            c@ == bits % 64,
            c == spec_codeword(bits),
    {
        proof {
            crate::p25::bitwise::lemma_mask_u8(bits);
        }
        Codeword { bits: bits & 0x3F }
    }

    /// Construct the codeword alpha^power (modulo the field size).
    pub fn for_power(power: usize) -> (c: Codeword)
        ensures
            c@ == gf_exp((power % 63) as nat),
            c@ == gf_exp(power as nat),
            c@ != 0,
            c == spec_codeword(c@),
    {
        proof {
            lemma_exp_mod(power as nat);
        }
        Codeword { bits: codeword_for_power(power) }
    }

    /// The 6-bit representation of this codeword.
    pub fn bits(self) -> (r: u8)
        ensures
            r == self@,
            r < 64,
    {
        proof {
            use_type_invariant(&self);
        }
        self.bits
    }

    /// Whether this is the zero element.
    pub fn zero(self) -> (r: bool)
        ensures
            r == (self@ == 0),
    {
        proof {
            use_type_invariant(&self);
        }
        self.bits == 0
    }

    /// The discrete logarithm: if this codeword is alpha^i, returns `Some(i)`.
    /// Returns `None` for the zero element.
    pub fn power(self) -> (r: Option<usize>)
        ensures
            match r {
                None => self@ == 0,
                Some(p) => self@ != 0 && p < 63 && gf_exp(p as nat) == self@ && p == gf_log(
                    self@ as nat,
                ),
            },
    {
        proof {
            use_type_invariant(&self);
        }
        if self.zero() {
            None
        } else {
            Some(power_of_codeword(self.bits))
        }
    }

    /// Multiplicative inverse: 1 / alpha^i = alpha^(63-i).
    pub fn invert(self) -> (r: Codeword)
        requires
            self@ != 0,
        ensures
            r@ == gf_inv(self@),
            gf_mul(self@, r@) == 1,
    {
        proof {
            lemma_mul_inverse(self@);
        }
        match self.power() {
            Some(p) => Codeword::for_power(FIELD_SIZE - p),
            None => Codeword::default(),
        }
    }

    /// Raise to a power: (alpha^i)^p = alpha^(i*p).
    /// Returns zero if the base is zero.
    pub fn pow(self, exponent: usize) -> (r: Codeword)
        requires
            self@ == 0 || gf_log(self@ as nat) * exponent <= usize::MAX,
        ensures
            self@ == 0 ==> r@ == 0,
            self@ != 0 ==> r@ == gf_exp((gf_log(self@ as nat) * exponent) as nat),
    {
        match self.power() {
            Some(p) => Codeword::for_power(p * exponent),
            None => Codeword::default(),
        }
    }
}

impl Default for Codeword {
    /// The additive identity (zero element, bits = 0).
    fn default() -> (c: Codeword)
        ensures
            c@ == 0,
            c == spec_codeword(0),
            c == spec_codeword(c@),
    {
        Codeword { bits: 0 }
    }
}

/// Galois addition: XOR of bit patterns.
impl core::ops::Add for Codeword {
    type Output = Codeword;

    fn add(self, rhs: Codeword) -> (r: Codeword)
        ensures
            r@ == gf_add(self@, rhs@),
    {
        let a = self.bits();
        let b = rhs.bits();
        proof {
            crate::p25::bitwise::lemma_xor_u8(a, b, 0);
        }
        Codeword::new(a ^ b)
    }
}

impl vstd::std_specs::ops::AddSpecImpl for Codeword {
    open spec fn obeys_add_spec() -> bool {
        true
    }

    open spec fn add_req(self, rhs: Codeword) -> bool {
        true
    }

    open spec fn add_spec(self, rhs: Codeword) -> Codeword {
        spec_codeword(gf_add(self@, rhs@))
    }
}

/// Galois subtraction: identical to addition in GF(2^r).
impl core::ops::Sub for Codeword {
    type Output = Codeword;

    fn sub(self, rhs: Codeword) -> (r: Codeword)
        ensures
            r@ == gf_add(self@, rhs@),
    {
        self + rhs
    }
}

impl vstd::std_specs::ops::SubSpecImpl for Codeword {
    open spec fn obeys_sub_spec() -> bool {
        true
    }

    open spec fn sub_req(self, rhs: Codeword) -> bool {
        true
    }

    open spec fn sub_spec(self, rhs: Codeword) -> Codeword {
        spec_codeword(gf_add(self@, rhs@))
    }
}

/// Galois multiplication: add powers modulo field size.
impl core::ops::Mul for Codeword {
    type Output = Codeword;

    fn mul(self, rhs: Codeword) -> (r: Codeword)
        ensures
            r@ == gf_mul(self@, rhs@),
    {
        proof {
            lemma_mul_identity(self@, rhs@);
        }
        match (self.power(), rhs.power()) {
            (Some(p), Some(q)) => Codeword::for_power(p + q),
            _ => Codeword::default(),
        }
    }
}

impl vstd::std_specs::ops::MulSpecImpl for Codeword {
    open spec fn obeys_mul_spec() -> bool {
        true
    }

    open spec fn mul_req(self, rhs: Codeword) -> bool {
        true
    }

    open spec fn mul_spec(self, rhs: Codeword) -> Codeword {
        spec_codeword(gf_mul(self@, rhs@))
    }
}

/// Galois division: subtract powers modulo field size.
impl core::ops::Div for Codeword {
    type Output = Codeword;

    fn div(self, rhs: Codeword) -> (r: Codeword)
        ensures
            r@ == gf_div(self@, rhs@),
    {
        match (self.power(), rhs.power()) {
            (Some(p), Some(q)) => Codeword::for_power(FIELD_SIZE + p - q),
            _ => Codeword::default(),
        }
    }
}

impl vstd::std_specs::ops::DivSpecImpl for Codeword {
    open spec fn obeys_div_spec() -> bool {
        true
    }

    open spec fn div_req(self, rhs: Codeword) -> bool {
        rhs@ != 0
    }

    open spec fn div_spec(self, rhs: Codeword) -> Codeword {
        spec_codeword(gf_div(self@, rhs@))
    }
}


// ---------------------------------------------------------------------------
// Polynomials over GF(2^6), mathematically
// ---------------------------------------------------------------------------

/// Coefficient `i` of the coefficient sequence `s`, zero outside it.
pub open spec fn coef_at(s: Seq<u8>, i: int) -> u8 {
    if 0 <= i < s.len() {
        s[i]
    } else {
        0
    }
}

/// Evaluate the polynomial with coefficients `s` (constant term first) at
/// `x`: s_0 + x * (s_1 + x * (s_2 + ...)).
pub open spec fn poly_eval(s: Seq<u8>, x: u8) -> u8
    decreases s.len(),
{
    if s.len() == 0 {
        0
    } else {
        gf_add(gf_mul(poly_eval(s.subrange(1, s.len() as int), x), x), s[0])
    }
}

/// Sum of the products a_i * b_(k-i) for i in 0..n: the first n terms of
/// the degree-k coefficient of a(x) * b(x).
pub open spec fn conv_sum(a: Seq<u8>, b: Seq<u8>, k: int, n: int) -> u8
    decreases n,
{
    if n <= 0 {
        0
    } else {
        gf_add(conv_sum(a, b, k, n - 1), gf_mul(coef_at(a, n - 1), coef_at(b, k - (n - 1))))
    }
}

/// Coefficient k of the product a(x) * b(x).
pub open spec fn poly_mul_coef(a: Seq<u8>, b: Seq<u8>, k: int) -> u8 {
    conv_sum(a, b, k, k + 1)
}

/// Index of the highest non-zero coefficient of `s`, or -1 if every
/// coefficient is zero (the degree of the polynomial).
pub open spec fn highest_nonzero(s: Seq<u8>) -> int
    decreases s.len(),
{
    if s.len() == 0 {
        -1
    } else if s.last() != 0 {
        s.len() - 1
    } else {
        highest_nonzero(s.drop_last())
    }
}

/// `highest_nonzero` is the index above which every coefficient vanishes.
pub proof fn lemma_highest_nonzero(s: Seq<u8>, d: int)
    requires
        -1 <= d < s.len(),
        d >= 0 ==> s[d] != 0,
        forall|i: int| d < i < s.len() ==> s[i] == 0,
    ensures
        highest_nonzero(s) == d,
    decreases s.len(),
{
    if s.len() > 0 && d < s.len() - 1 {
        lemma_highest_nonzero(s.drop_last(), d);
    }
}

/// Sums and products of field elements stay field elements.
proof fn lemma_conv_sum_bound(a: Seq<u8>, b: Seq<u8>, k: int, n: int)
    ensures
        conv_sum(a, b, k, n) < 64,
    decreases n,
{
    if n > 0 {
        lemma_conv_sum_bound(a, b, k, n - 1);
        let x = coef_at(a, n - 1);
        let y = coef_at(b, k - (n - 1));
        if x < 64 && y < 64 {
            lemma_mul_identity(x, y);
        } else {
            lemma_mul_bound_any(x, y);
        }
        lemma_add_laws(conv_sum(a, b, k, n - 1), gf_mul(x, y), 0);
    }
}

/// A product of any two bytes under `gf_mul` is a six-bit value.
pub proof fn lemma_mul_bound_any(a: u8, b: u8)
    ensures
        gf_mul(a, b) < 64,
{
    if a != 0 && b != 0 {
        lemma_exp_bound((gf_log(a as nat) + gf_log(b as nat)) % 63);
    }
}

// ---------------------------------------------------------------------------
// PolynomialCoefs — coefficient storage parameters
// ---------------------------------------------------------------------------

/// Coefficient storage parameters for a bounded-degree Galois polynomial.
///
/// Each RS code variant provides its own parameter type with the
/// appropriate minimum Hamming distance, which determines the number of
/// correctable errors and the required buffer size.
pub trait PolynomialCoefs: Sized {
    /// Minimum Hamming distance `d` for this code.
    spec fn spec_distance() -> nat;

    /// Number of coefficients a polynomial of this kind stores.
    spec fn spec_len() -> nat;

    /// The storage is well-formed: odd distance, room for the syndrome
    /// polynomial and at least one more coefficient.
    proof fn lemma_params()
        ensures
            Self::spec_distance() % 2 == 1,
            Self::spec_distance() >= 3,
            Self::spec_len() > 2 * (Self::spec_distance() / 2) + 1,
            Self::spec_len() <= 64,
    ;

    /// Minimum Hamming distance `d` for this code.
    fn distance() -> (d: usize)
        ensures
            d == Self::spec_distance(),
    ;

    /// Number of stored coefficients.
    fn storage_len() -> (n: usize)
        ensures
            n == Self::spec_len(),
    ;

    /// Maximum correctable errors: t = floor(d / 2).
    fn errors() -> (t: usize)
        ensures
            t == Self::spec_distance() / 2,
    {
        Self::distance() / 2
    }

    /// Number of syndromes: 2t.
    fn syndromes() -> (n: usize)
        ensures
            n == 2 * (Self::spec_distance() / 2),
    {
        proof {
            Self::lemma_params();
        }
        2 * Self::errors()
    }

    /// Verify the storage is well-formed (established by `lemma_params`).
    fn validate(&self)
        ensures
            Self::spec_distance() % 2 == 1,
            Self::spec_len() > 2 * (Self::spec_distance() / 2),
    {
        proof {
            Self::lemma_params();
        }
    }
}

// ---------------------------------------------------------------------------
// Polynomial — polynomial over GF(2^6)
// ---------------------------------------------------------------------------

/// A polynomial with `Codeword` coefficients: p(x) = c_0 + c_1*x + ... + c_k*x^k.
///
/// Coefficients are stored starting from degree 0. The `start` field allows
/// O(1) division by x (shift) without moving data.
pub struct Polynomial<P: PolynomialCoefs> {
    coefs: Vec<Codeword>,
    /// Index of the degree-0 coefficient in `coefs`.
    start: usize,
    kind: PhantomData<P>,
}

impl<P: PolynomialCoefs> View for Polynomial<P> {
    type V = Seq<u8>;

    /// Coefficient values from degree 0 upward.
    closed spec fn view(&self) -> Seq<u8> {
        self.coefs@.subrange(self.start as int, self.coefs@.len() as int).map_values(
            |c: Codeword| c@,
        )
    }
}

impl<P: PolynomialCoefs> Polynomial<P> {
    /// Storage has the size of `P` and the degree-0 index lies inside it.
    pub closed spec fn wf(&self) -> bool {
        &&& self.coefs@.len() == P::spec_len()
        &&& self.start <= self.coefs@.len()
    }

    /// Index of the degree-0 coefficient in storage.
    pub closed spec fn spec_start(&self) -> nat {
        self.start as nat
    }

    /// A well-formed polynomial's coefficients and start fill its storage.
    pub proof fn lemma_view(&self)
        requires
            self.wf(),
        ensures
            self@.len() + self.spec_start() == P::spec_len(),
            forall|i: int| 0 <= i < self@.len() ==> #[trigger] self@[i] < 64,
    {
        assert forall|i: int| 0 <= i < self@.len() implies #[trigger] self@[i] < 64 by {
            lemma_codeword_bound(self.coefs@[self.start + i]);
        }
    }

    proof fn lemma_view_index(&self, i: int)
        requires
            self.wf(),
            0 <= i < self@.len(),
        ensures
            self@[i] == self.coefs@[self.start + i]@,
    {
    }

    /// Construct from coefficients c_0, c_1, ..., c_k.
    ///
    /// Extra coefficients beyond the storage capacity are silently dropped.
    pub fn new(init: &[Codeword]) -> (r: Self)
        ensures
            r.wf(),
            r.spec_start() == 0,
            r@ == Seq::new(P::spec_len(), |i: int| coef_at(init@.map_values(|c: Codeword| c@), i)),
    {
        let n = P::storage_len();
        let mut coefs: Vec<Codeword> = Vec::new();
        let mut i: usize = 0;
        while i < n
            invariant
                n == P::spec_len(),
                i <= n,
                coefs@.len() == i,
                forall|j: int| 0 <= j < i ==> #[trigger] coefs@[j]@ == coef_at(
                    init@.map_values(|c: Codeword| c@),
                    j,
                ),
            decreases n - i,
        {
            if i < init.len() {
                coefs.push(init[i]);
            } else {
                coefs.push(Codeword::default());
            }
            i = i + 1;
        }
        let r = Polynomial { coefs, start: 0, kind: PhantomData };
        assert(r@ =~= Seq::new(P::spec_len(), |i: int| coef_at(init@.map_values(|c: Codeword| c@), i)));
        r
    }

    /// Construct the monomial x^n.
    pub fn unit_power(n: usize) -> (r: Self)
        requires
            n < P::spec_len(),
        ensures
            r.wf(),
            r.spec_start() == 0,
            r@ == Seq::new(P::spec_len(), |i: int| if i == n { 1u8 } else { 0u8 }),
    {
        let mut r = Self::new(&[]);
        let ghost old_r_coefs = r.coefs@;
        assert forall|i: int| 0 <= i < P::spec_len() implies #[trigger] r.coefs@[i]@ == 0u8 by {
            assert(r@[i] == coef_at(Seq::<Codeword>::empty().map_values(|c: Codeword| c@), i));
        }
        let one = Codeword::for_power(0);
        proof {
            lemma_exp_table();
        }
        r.coefs.set(n, one);
        assert forall|i: int| 0 <= i < P::spec_len() && i != n implies r@[i] == 0u8 by {
            assert(r.coefs@[i] == old_r_coefs[i]);
        }
        assert(r@ =~= Seq::new(P::spec_len(), |i: int| if i == n { 1u8 } else { 0u8 }));
        r
    }

    /// The degree-0 coefficient c_0.
    pub fn constant(&self) -> (r: Codeword)
        requires
            self.wf(),
            self@.len() > 0,
        ensures
            r@ == self@[0],
    {
        self.coefs[self.start]
    }

    /// Degree of the polynomial, or `None` if p(x) = 0.
    pub fn degree(&self) -> (r: Option<usize>)
        requires
            self.wf(),
        ensures
            match r {
                None => forall|i: int| 0 <= i < self@.len() ==> self@[i] == 0,
                Some(d) => d < self@.len() && self@[d as int] != 0 && forall|i: int|
                    d < i < self@.len() ==> self@[i] == 0,
            },
            match r {
                None => highest_nonzero(self@) == -1,
                Some(d) => highest_nonzero(self@) == d,
            },
    {
        let mut k = self.coefs.len();
        while k > self.start
            invariant
                self.wf(),
                self.start <= k <= self.coefs@.len(),
                forall|i: int| k - self.start <= i < self@.len() ==> self@[i] == 0,
            decreases k,
        {
            if !self.coefs[k - 1].zero() {
                proof {
                    lemma_highest_nonzero(self@, k - 1 - self.start);
                }
                return Some(k - 1 - self.start);
            }
            k = k - 1;
        }
        proof {
            lemma_highest_nonzero(self@, -1);
        }
        None
    }

    /// Divide by x: shift all coefficients to a lower degree.
    pub fn shift(self) -> (r: Self)
        requires
            self.wf(),
            self@.len() > 0,
            self@[0] == 0,
        ensures
            r.wf(),
            r.spec_start() == self.spec_start() + 1,
            r@ == self@.drop_first(),
    {
        proof {
            P::lemma_params();
        }
        let mut s = self;
        let st = s.start;
        s.coefs.set(st, Codeword::default());
        s.start = st + 1;
        assert(s@ =~= self@.drop_first());
        s
    }

    /// Retrieve coefficient c_i (the x^i term). Returns zero if out of bounds.
    pub fn coef(&self, i: usize) -> (r: Codeword)
        requires
            self.wf(),
        ensures
            r@ == coef_at(self@, i as int),
    {
        if i < self.coefs.len() - self.start {
            self.coefs[self.start + i]
        } else {
            Codeword::default()
        }
    }

    /// Evaluate p(x) using Horner's method.
    pub fn eval(&self, x: Codeword) -> (r: Codeword)
        requires
            self.wf(),
        ensures
            r@ == poly_eval(self@, x@),
    {
        let len = self.coefs.len();
        let n = len - self.start;
        let mut acc = Codeword::default();
        let mut k = n;
        while k > 0
            invariant
                self.wf(),
                n == self@.len(),
                len == self.coefs@.len(),
                self.start + n == len,
                k <= n,
                acc@ == poly_eval(self@.subrange(k as int, n as int), x@),
            decreases k,
        {
            let c = self.coefs[self.start + k - 1];
            let ghost tail = self@.subrange(k as int, n as int);
            let ghost longer = self@.subrange(k - 1, n as int);
            assert(longer.subrange(1, longer.len() as int) =~= tail);
            assert(longer[0] == c@);
            acc = acc * x + c;
            k = k - 1;
        }
        assert(self@.subrange(0, n as int) =~= self@);
        acc
    }

    /// Truncate so that deg(p(x)) <= max_degree.
    pub fn truncate(self, max_degree: usize) -> (r: Self)
        requires
            self.wf(),
            self.spec_start() + max_degree + 1 <= usize::MAX,
        ensures
            r.wf(),
            r.spec_start() == self.spec_start(),
            r@ == Seq::new(self@.len(), |i: int| if i <= max_degree { self@[i] } else { 0u8 }),
    {
        let mut s = self;
        let n = s.coefs.len();
        let mut i = s.start + max_degree + 1;
        while i < n
            invariant
                s.wf(),
                n == s.coefs@.len(),
                s.start == self.start,
                s.start + max_degree + 1 <= i,
                forall|j: int| 0 <= j < s@.len() && (j <= max_degree || j + s.start >= i) ==> s@[j]
                    == self@[j],
                forall|j: int|
                    0 <= j < s@.len() && j > max_degree && j + s.start < i ==> s@[j] == 0,
                s@.len() == self@.len(),
            decreases n - i,
        {
            let ghost prev = s@;
            s.coefs.set(i, Codeword::default());
            assert(s@ =~= prev.update(i - s.start, 0u8));
            i = i + 1;
        }
        assert(s@ =~= Seq::new(self@.len(), |i: int| if i <= max_degree { self@[i] } else { 0u8 }));
        s
    }

    /// Formal derivative p'(x).
    ///
    /// In GF(2), the derivative zeroes out even-power terms and shifts
    /// odd-power terms down by one degree.
    pub fn deriv(self) -> (r: Self)
        requires
            self.wf(),
        ensures
            r.wf(),
            r.spec_start() == self.spec_start(),
            r@ == Seq::new(
                self@.len(),
                |i: int| if i % 2 == 0 { coef_at(self@, i + 1) } else { 0u8 },
            ),
            forall|i: int| 0 <= i ==> #[trigger] coef_at(r@, i) == if i % 2 == 0 {
                coef_at(self@, i + 1)
            } else {
                0u8
            },
    {
        let mut s = self;
        let n = s.coefs.len();
        let mut i = s.start;
        while i < n
            invariant
                s.wf(),
                n == s.coefs@.len(),
                s.start == self.start,
                s.start <= i <= n,
                s@.len() == self@.len(),
                forall|j: int| i - s.start <= j < s@.len() ==> s@[j] == self@[j],
                forall|j: int|
                    0 <= j < i - s.start ==> s@[j] == if j % 2 == 0 {
                        coef_at(self@, j + 1)
                    } else {
                        0u8
                    },
            decreases n - i,
        {
            let next = if (i - s.start) % 2 == 0 {
                s.get(i + 1)
            } else {
                Codeword::default()
            };
            let ghost prev = s@;
            s.coefs.set(i, next);
            assert(s@ =~= prev.update(i - s.start, next@));
            i = i + 1;
        }
        assert(s@ =~= Seq::new(
            self@.len(),
            |i: int| if i % 2 == 0 { coef_at(self@, i + 1) } else { 0u8 },
        ));
        s
    }

    /// Coefficient values of the whole storage, by absolute index.
    pub closed spec fn storage(&self) -> Seq<u8> {
        self.coefs@.map_values(|c: Codeword| c@)
    }

    /// Get the mutable coefficient at absolute index, or `None` if out of bounds.
    pub fn get_mut(&mut self, idx: usize) -> (r: Option<&mut Codeword>)
        requires
            old(self).wf(),
        ensures
            r is Some <==> idx < P::spec_len(),
            r is Some ==> (*r->0)@ == old(self).storage()[idx as int],
            r is Some ==> final(self).storage() == old(self).storage().update(idx as int, (*final(r->0))@),
            final(self).wf(),
            final(self).spec_start() == old(self).spec_start(),
            r is None ==> *final(self) == *old(self),
    {
        if idx < self.coefs.len() {
            Some(&mut self.coefs[idx])
        } else {
            None
        }
    }

    /// With the degree-0 coefficient at the start of storage, the
    /// coefficients are the storage.
    pub proof fn lemma_storage(&self)
        requires
            self.wf(),
            self.spec_start() == 0,
        ensures
            self@ == self.storage(),
    {
        assert(self@ =~= self.storage());
    }

    /// Replace coefficient c_i (the x^i term).
    pub fn set(&mut self, i: usize, value: Codeword)
        requires
            old(self).wf(),
            i < old(self)@.len(),
        ensures
            final(self).wf(),
            final(self).spec_start() == old(self).spec_start(),
            final(self)@ == old(self)@.update(i as int, value@),
    {
        let n = self.coefs.len();
        assert(self.start + i < n);
        let idx = self.start + i;
        self.coefs.set(idx, value);
        assert(self@ =~= old(self)@.update(i as int, value@));
    }

    /// Number of coefficients from degree 0 to the end of storage.
    pub fn len(&self) -> (n: usize)
        requires
            self.wf(),
        ensures
            n == self@.len(),
    {
        self.coefs.len() - self.start
    }

    /// Get coefficient at absolute storage index, or zero if out of bounds.
    fn get(&self, idx: usize) -> (r: Codeword)
        requires
            self.wf(),
        ensures
            idx >= self.start ==> r@ == coef_at(self@, idx - self.start),
    {
        if idx < self.coefs.len() {
            self.coefs[idx]
        } else {
            Codeword::default()
        }
    }

    /// Add polynomials (Galois addition of corresponding coefficients).
    pub fn plus(self, rhs: Self) -> (r: Self)
        requires
            self.wf(),
            rhs.wf(),
        ensures
            r.wf(),
            r.spec_start() == 0,
            r@ == Seq::new(
                P::spec_len(),
                |i: int| gf_add(coef_at(self@, i), coef_at(rhs@, i)),
            ),
    {
        let n = P::storage_len();
        let mut out: Vec<Codeword> = Vec::new();
        let mut i: usize = 0;
        while i < n
            invariant
                self.wf(),
                rhs.wf(),
                n == P::spec_len(),
                i <= n,
                out@.len() == i,
                forall|j: int| 0 <= j < i ==> #[trigger] out@[j]@ == gf_add(
                    coef_at(self@, j),
                    coef_at(rhs@, j),
                ),
            decreases n - i,
        {
            out.push(self.coef(i) + rhs.coef(i));
            i = i + 1;
        }
        let r = Polynomial { coefs: out, start: 0, kind: PhantomData };
        assert(r@ =~= Seq::new(
            P::spec_len(),
            |i: int| gf_add(coef_at(self@, i), coef_at(rhs@, i)),
        ));
        r
    }

    /// Scale polynomial by a codeword.
    pub fn scale(self, rhs: Codeword) -> (r: Self)
        requires
            self.wf(),
        ensures
            r.wf(),
            r.spec_start() == self.spec_start(),
            r@ == Seq::new(self@.len(), |i: int| gf_mul(self@[i], rhs@)),
    {
        let mut s = self;
        let n = s.coefs.len();
        let mut i: usize = 0;
        while i < n
            invariant
                s.wf(),
                n == s.coefs@.len(),
                s.start == self.start,
                i <= n,
                forall|j: int| 0 <= j < n && j >= i ==> s.coefs@[j] == self.coefs@[j],
                forall|j: int| 0 <= j < i ==> #[trigger] s.coefs@[j]@ == gf_mul(self.coefs@[j]@, rhs@),
            decreases n - i,
        {
            let c = s.coefs[i];
            s.coefs.set(i, c * rhs);
            i = i + 1;
        }
        assert(s@ =~= Seq::new(self@.len(), |i: int| gf_mul(self@[i], rhs@)));
        s
    }

    /// Multiply two polynomials.
    ///
    /// Terms beyond the storage capacity are silently discarded.
    pub fn times(self, rhs: Self) -> (r: Self)
        requires
            self.wf(),
            rhs.wf(),
        ensures
            r.wf(),
            r.spec_start() == 0,
            r@ == Seq::new(P::spec_len(), |k: int| poly_mul_coef(self@, rhs@, k)),
    {
        let n = P::storage_len();
        let mut out: Vec<Codeword> = Vec::new();
        let mut k: usize = 0;
        while k < n
            invariant
                self.wf(),
                rhs.wf(),
                n == P::spec_len(),
                k <= n,
                out@.len() == k,
                forall|j: int| 0 <= j < k ==> #[trigger] out@[j]@ == poly_mul_coef(self@, rhs@, j),
            decreases n - k,
        {
            let mut acc = Codeword::default();
            let mut i: usize = 0;
            while i <= k
                invariant
                    self.wf(),
                    rhs.wf(),
                    i <= k + 1,
                    k < n,
                    acc@ == conv_sum(self@, rhs@, k as int, i as int),
                decreases k + 1 - i,
            {
                acc = acc + self.coef(i) * rhs.coef(k - i);
                i = i + 1;
            }
            out.push(acc);
            k = k + 1;
        }
        let r = Polynomial { coefs: out, start: 0, kind: PhantomData };
        assert(r@ =~= Seq::new(P::spec_len(), |k: int| poly_mul_coef(self@, rhs@, k)));
        r
    }
}

impl<P: PolynomialCoefs> Clone for Polynomial<P> {
    fn clone(&self) -> (r: Self)
        ensures
            r.wf() == self.wf(),
            r.spec_start() == self.spec_start(),
            r@ == self@,
    {
        let mut coefs: Vec<Codeword> = Vec::new();
        let mut i: usize = 0;
        while i < self.coefs.len()
            invariant
                i <= self.coefs@.len(),
                coefs@.len() == i,
                forall|j: int| 0 <= j < i ==> coefs@[j] == self.coefs@[j],
            decreases self.coefs@.len() - i,
        {
            coefs.push(self.coefs[i]);
            i = i + 1;
        }
        let r = Polynomial { coefs, start: self.start, kind: PhantomData };
        assert(r.coefs@ =~= self.coefs@);
        r
    }
}

impl<P: PolynomialCoefs> Default for Polynomial<P> {
    /// The zero polynomial.
    fn default() -> (r: Self)
        ensures
            r.wf(),
            r.spec_start() == 0,
            r@ == Seq::new(P::spec_len(), |i: int| 0u8),
    {
        let r = Self::new(&[]);
        assert(r@ =~= Seq::new(P::spec_len(), |i: int| 0u8));
        r
    }
}

} // verus!
