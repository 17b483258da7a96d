//! Encoding and decoding of the (24, 16, 9) medium Reed-Solomon code.
//!
//! Corrects up to 4 hexbit symbol errors. Used for LDU2 Crypto Control.

use vstd::prelude::*;
use super::{
    MediumCoefs, column_symbol, decode_data, encode_with, hexbit_values, lemma_column_eval,
    lemma_decode_clean_word, lemma_encode_codeword, lemma_short_medium_tables, flat_column_eval, rs_decode_word, symbols_fit,
    syndromes_vanish, systematic_word, unit_word, word_eval, word_poly,
};
use crate::p25::types::Hexbit;
use crate::p25::coding::galois::gf_exp;

verus! {

/// Transpose of the generator matrix (8 parity rows x 16 data columns).
pub open spec fn generator() -> Seq<Seq<u8>> {
    seq![
        seq![0o51u8, 0o57u8, 0o05u8, 0o73u8, 0o75u8, 0o20u8, 0o02u8, 0o24u8, 0o42u8, 0o32u8, 0o65u8, 0o64u8, 0o62u8, 0o55u8, 0o24u8, 0o67u8],
        seq![0o45u8, 0o25u8, 0o01u8, 0o07u8, 0o15u8, 0o32u8, 0o75u8, 0o74u8, 0o64u8, 0o32u8, 0o36u8, 0o06u8, 0o63u8, 0o43u8, 0o23u8, 0o75u8],
        seq![0o67u8, 0o63u8, 0o31u8, 0o47u8, 0o51u8, 0o14u8, 0o43u8, 0o15u8, 0o07u8, 0o55u8, 0o25u8, 0o54u8, 0o74u8, 0o34u8, 0o23u8, 0o45u8],
        seq![0o15u8, 0o73u8, 0o04u8, 0o14u8, 0o51u8, 0o42u8, 0o05u8, 0o72u8, 0o22u8, 0o41u8, 0o07u8, 0o32u8, 0o70u8, 0o71u8, 0o05u8, 0o60u8],
        seq![0o64u8, 0o71u8, 0o16u8, 0o41u8, 0o17u8, 0o75u8, 0o01u8, 0o24u8, 0o61u8, 0o57u8, 0o50u8, 0o76u8, 0o05u8, 0o57u8, 0o50u8, 0o57u8],
        seq![0o67u8, 0o22u8, 0o54u8, 0o77u8, 0o67u8, 0o42u8, 0o40u8, 0o26u8, 0o20u8, 0o66u8, 0o16u8, 0o46u8, 0o27u8, 0o76u8, 0o70u8, 0o24u8],
        seq![0o52u8, 0o40u8, 0o25u8, 0o47u8, 0o17u8, 0o70u8, 0o12u8, 0o74u8, 0o40u8, 0o21u8, 0o40u8, 0o14u8, 0o37u8, 0o50u8, 0o42u8, 0o06u8],
        seq![0o12u8, 0o15u8, 0o76u8, 0o11u8, 0o57u8, 0o54u8, 0o64u8, 0o61u8, 0o65u8, 0o77u8, 0o51u8, 0o36u8, 0o46u8, 0o64u8, 0o23u8, 0o26u8],
    ]
}

/// The parity rows of the generator matrix.
fn generator_rows() -> (r: Vec<Vec<u8>>)
    ensures
        r@.map_values(|v: Vec<u8>| v@) == generator(),
        r@.len() == 8,
        forall|i: int| 0 <= i < 8 ==> (#[trigger] r@[i])@.len() == 16,
        forall|i: int, j: int| 0 <= i < 8 && 0 <= j < 16 ==> #[trigger] r@[i]@[j] < 64,
{
    let r = vec![
        vec![0o51, 0o57, 0o05, 0o73, 0o75, 0o20, 0o02, 0o24, 0o42, 0o32, 0o65, 0o64, 0o62, 0o55, 0o24, 0o67],
        vec![0o45, 0o25, 0o01, 0o07, 0o15, 0o32, 0o75, 0o74, 0o64, 0o32, 0o36, 0o06, 0o63, 0o43, 0o23, 0o75],
        vec![0o67, 0o63, 0o31, 0o47, 0o51, 0o14, 0o43, 0o15, 0o07, 0o55, 0o25, 0o54, 0o74, 0o34, 0o23, 0o45],
        vec![0o15, 0o73, 0o04, 0o14, 0o51, 0o42, 0o05, 0o72, 0o22, 0o41, 0o07, 0o32, 0o70, 0o71, 0o05, 0o60],
        vec![0o64, 0o71, 0o16, 0o41, 0o17, 0o75, 0o01, 0o24, 0o61, 0o57, 0o50, 0o76, 0o05, 0o57, 0o50, 0o57],
        vec![0o67, 0o22, 0o54, 0o77, 0o67, 0o42, 0o40, 0o26, 0o20, 0o66, 0o16, 0o46, 0o27, 0o76, 0o70, 0o24],
        vec![0o52, 0o40, 0o25, 0o47, 0o17, 0o70, 0o12, 0o74, 0o40, 0o21, 0o40, 0o14, 0o37, 0o50, 0o42, 0o06],
        vec![0o12, 0o15, 0o76, 0o11, 0o57, 0o54, 0o64, 0o61, 0o65, 0o77, 0o51, 0o36, 0o46, 0o64, 0o23, 0o26],
    ];
    assert(r@.map_values(|v: Vec<u8>| v@) =~= generator());
    r
}

/// Compute 8 parity hexbits from the first 16 data hexbits.
pub fn encode(buf: &mut [Hexbit; 24])
    ensures
        hexbit_values(final(buf)@) == systematic_word(hexbit_values(old(buf)@), generator(), 16),
        rs_decode_word(hexbit_values(final(buf)@), 8, 16) == Some(
            (hexbit_values(old(buf)@).subrange(0, 16), 0nat),
        ),
{
    let ghost data = hexbit_values(buf@);
    let rows = generator_rows();
    encode_with(buf, &rows, 16);
    proof {
        assert forall|i: int| 0 <= i < data.len() implies #[trigger] data[i] < 64 by {
            crate::p25::types::lemma_hexbit_bound(old(buf)@[i]);
        }
        lemma_encode_roundtrip(data);
    }
}

/// Decode a 24-hexbit word, correcting up to 4 symbol errors.
///
/// Returns `Some((data, error_count))` on success, with the corrected data
/// also written over the first 16 symbols of `buf`, or `None` (leaving
/// `buf` unchanged) if the errors are unrecoverable.
pub fn decode(buf: &mut [Hexbit; 24]) -> (r: Option<(Vec<Hexbit>, usize)>)
    ensures
        r matches Some((d, _)) ==> d@.len() == 16,
        match rs_decode_word(hexbit_values(old(buf)@), 8, 16) {
            None => r is None && final(buf)@ == old(buf)@,
            Some((data, n)) => r matches Some((d, m)) && hexbit_values(d@) == data && m == n
                && hexbit_values(final(buf)@) == data + hexbit_values(old(buf)@).subrange(16, 24),
        },
{
    decode_data::<MediumCoefs, 24>(buf, 16)
}

/// The generator matrix written out entry by entry, as `row` and `col`
/// index `generator()`.
pub open spec fn generator_entry(row: u32, col: u32) -> u8 {
    if row < 4 { if row < 2 { if row < 1 { if col < 8 { if col < 4 { if col < 2 { if col < 1 { 0o51u8 } else { 0o57u8 } } else { if col < 3 { 0o05u8 } else { 0o73u8 } } } else { if col < 6 { if col < 5 { 0o75u8 } else { 0o20u8 } } else { if col < 7 { 0o02u8 } else { 0o24u8 } } } } else { if col < 12 { if col < 10 { if col < 9 { 0o42u8 } else { 0o32u8 } } else { if col < 11 { 0o65u8 } else { 0o64u8 } } } else { if col < 14 { if col < 13 { 0o62u8 } else { 0o55u8 } } else { if col < 15 { 0o24u8 } else { 0o67u8 } } } } } else { if col < 8 { if col < 4 { if col < 2 { if col < 1 { 0o45u8 } else { 0o25u8 } } else { if col < 3 { 0o01u8 } else { 0o07u8 } } } else { if col < 6 { if col < 5 { 0o15u8 } else { 0o32u8 } } else { if col < 7 { 0o75u8 } else { 0o74u8 } } } } else { if col < 12 { if col < 10 { if col < 9 { 0o64u8 } else { 0o32u8 } } else { if col < 11 { 0o36u8 } else { 0o06u8 } } } else { if col < 14 { if col < 13 { 0o63u8 } else { 0o43u8 } } else { if col < 15 { 0o23u8 } else { 0o75u8 } } } } } } else { if row < 3 { if col < 8 { if col < 4 { if col < 2 { if col < 1 { 0o67u8 } else { 0o63u8 } } else { if col < 3 { 0o31u8 } else { 0o47u8 } } } else { if col < 6 { if col < 5 { 0o51u8 } else { 0o14u8 } } else { if col < 7 { 0o43u8 } else { 0o15u8 } } } } else { if col < 12 { if col < 10 { if col < 9 { 0o07u8 } else { 0o55u8 } } else { if col < 11 { 0o25u8 } else { 0o54u8 } } } else { if col < 14 { if col < 13 { 0o74u8 } else { 0o34u8 } } else { if col < 15 { 0o23u8 } else { 0o45u8 } } } } } else { if col < 8 { if col < 4 { if col < 2 { if col < 1 { 0o15u8 } else { 0o73u8 } } else { if col < 3 { 0o04u8 } else { 0o14u8 } } } else { if col < 6 { if col < 5 { 0o51u8 } else { 0o42u8 } } else { if col < 7 { 0o05u8 } else { 0o72u8 } } } } else { if col < 12 { if col < 10 { if col < 9 { 0o22u8 } else { 0o41u8 } } else { if col < 11 { 0o07u8 } else { 0o32u8 } } } else { if col < 14 { if col < 13 { 0o70u8 } else { 0o71u8 } } else { if col < 15 { 0o05u8 } else { 0o60u8 } } } } } } } else { if row < 6 { if row < 5 { if col < 8 { if col < 4 { if col < 2 { if col < 1 { 0o64u8 } else { 0o71u8 } } else { if col < 3 { 0o16u8 } else { 0o41u8 } } } else { if col < 6 { if col < 5 { 0o17u8 } else { 0o75u8 } } else { if col < 7 { 0o01u8 } else { 0o24u8 } } } } else { if col < 12 { if col < 10 { if col < 9 { 0o61u8 } else { 0o57u8 } } else { if col < 11 { 0o50u8 } else { 0o76u8 } } } else { if col < 14 { if col < 13 { 0o05u8 } else { 0o57u8 } } else { if col < 15 { 0o50u8 } else { 0o57u8 } } } } } else { if col < 8 { if col < 4 { if col < 2 { if col < 1 { 0o67u8 } else { 0o22u8 } } else { if col < 3 { 0o54u8 } else { 0o77u8 } } } else { if col < 6 { if col < 5 { 0o67u8 } else { 0o42u8 } } else { if col < 7 { 0o40u8 } else { 0o26u8 } } } } else { if col < 12 { if col < 10 { if col < 9 { 0o20u8 } else { 0o66u8 } } else { if col < 11 { 0o16u8 } else { 0o46u8 } } } else { if col < 14 { if col < 13 { 0o27u8 } else { 0o76u8 } } else { if col < 15 { 0o70u8 } else { 0o24u8 } } } } } } else { if row < 7 { if col < 8 { if col < 4 { if col < 2 { if col < 1 { 0o52u8 } else { 0o40u8 } } else { if col < 3 { 0o25u8 } else { 0o47u8 } } } else { if col < 6 { if col < 5 { 0o17u8 } else { 0o70u8 } } else { if col < 7 { 0o12u8 } else { 0o74u8 } } } } else { if col < 12 { if col < 10 { if col < 9 { 0o40u8 } else { 0o21u8 } } else { if col < 11 { 0o40u8 } else { 0o14u8 } } } else { if col < 14 { if col < 13 { 0o37u8 } else { 0o50u8 } } else { if col < 15 { 0o42u8 } else { 0o06u8 } } } } } else { if col < 8 { if col < 4 { if col < 2 { if col < 1 { 0o12u8 } else { 0o15u8 } } else { if col < 3 { 0o76u8 } else { 0o11u8 } } } else { if col < 6 { if col < 5 { 0o57u8 } else { 0o54u8 } } else { if col < 7 { 0o64u8 } else { 0o61u8 } } } } else { if col < 12 { if col < 10 { if col < 9 { 0o65u8 } else { 0o77u8 } } else { if col < 11 { 0o51u8 } else { 0o36u8 } } } else { if col < 14 { if col < 13 { 0o46u8 } else { 0o64u8 } } else { if col < 15 { 0o23u8 } else { 0o26u8 } } } } } } }
}

/// The written-out entries are those of the generator matrix.
pub proof fn lemma_generator_entries()
    ensures
        forall|i: int, u: int|
            0 <= i < 8 && 0 <= u < 16 ==> #[trigger] generator()[i][u] == generator_entry(i as u32, u as u32)
                && generator()[i].len() == 16 && generator()[i][u] < 64,
        generator().len() == 8,
{
    assert forall|i: int, u: int| 0 <= i < 8 && 0 <= u < 16 implies #[trigger] generator()[i][u]
        == generator_entry(i as u32, u as u32) && generator()[i].len() == 16 && generator()[i][u] < 64 by {
        assert(i == 0 || i == 1 || i == 2 || i == 3 || i == 4 || i == 5 || i == 6 || i == 7);
        assert(u == 0 || u == 1 || u == 2 || u == 3 || u == 4 || u == 5 || u == 6 || u == 7 || u == 8 || u == 9 || u == 10 || u == 11 || u == 12 || u == 13 || u == 14 || u == 15);
    }
}

/// The written-out evaluations of the unit columns vanish.
#[verifier::rlimit(100)]
proof fn lemma_flat_columns(u: u32, e: u32)
    requires
        u < 16,
        1 <= e <= 8,
    ensures
        flat_column_eval(16, u, e, 24) == 0,
{
    lemma_short_medium_tables();
    assert(u == 0 || u == 1 || u == 2 || u == 3 || u == 4 || u == 5 || u == 6 || u == 7 || u == 8 || u == 9 || u == 10 || u == 11 || u == 12 || u == 13 || u == 14 || u == 15);
    assert(e == 1 || e == 2 || e == 3 || e == 4 || e == 5 || e == 6 || e == 7 || e == 8);
}

/// The encoding of each unit data word vanishes at alpha^1 .. alpha^8.
proof fn lemma_unit_eval(u: nat, j: nat)
    requires
        u < 16,
        j < 8,
    ensures
        word_eval(systematic_word(unit_word(24, u), generator(), 16), gf_exp(j + 1) as u8) == 0,
{
    let g = generator();
    lemma_generator_entries();
    assert forall|i: int| 0 <= i < g.len() implies (#[trigger] g[i]).len() == 16 && symbols_fit(g[i]) by {
        assert(g[i][0] < 64);
    }
    assert forall|i: int| 16 <= i < 24 implies #[trigger] g[i - 16][u as int] == column_symbol(16, u as u32, i as u32) by {
        assert(g[i - 16][u as int] == generator_entry((i - 16) as u32, u as u32));
    }
    lemma_column_eval(16, 24, g, u as u32, (j + 1) as u32, 24);
    let w = systematic_word(unit_word(24, u), g, 16);
    assert(w.subrange(0, 24) =~= w);
    lemma_flat_columns(u as u32, (j + 1) as u32);
}

/// Every encoded word is a codeword, and decoding it with no errors gives
/// the data back.
pub proof fn lemma_encode_roundtrip(data: Seq<u8>)
    requires
        data.len() == 24,
        symbols_fit(data),
    ensures
        syndromes_vanish(word_poly(systematic_word(data, generator(), 16)), 8),
        rs_decode_word(systematic_word(data, generator(), 16), 8, 16) == Some((data.subrange(0, 16), 0nat)),
{
    let g = generator();
    lemma_generator_entries();
    assert forall|i: int| 0 <= i < g.len() implies (#[trigger] g[i]).len() == 16 && symbols_fit(g[i]) by {
        assert(g[i][0] < 64);
    }
    assert forall|u: nat, j: nat| u < 16 && j < 8 implies #[trigger] word_eval(
        systematic_word(unit_word(24, u), g, 16),
        gf_exp(j + 1) as u8,
    ) == 0 by {
        lemma_unit_eval(u, j);
    }
    lemma_encode_codeword(data, g, 16, 8);
    let w = systematic_word(data, g, 16);
    lemma_decode_clean_word(w, 8, 16);
    assert(w.subrange(0, 16) =~= data.subrange(0, 16));
}

} // verus!
