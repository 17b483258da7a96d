//! Encoding and decoding of the (24, 12, 13) short Reed-Solomon code.
//!
//! Corrects up to 6 hexbit symbol errors. Used for LDU1 Link Control.

use vstd::prelude::*;
use super::{
    ShortCoefs, column_symbol, decode_data, encode_with, hexbit_values, lemma_column_eval,
    lemma_decode_clean_word, lemma_encode_codeword, lemma_short_medium_tables, flat_column_eval, rs_decode_word, symbols_fit,
    syndromes_vanish, systematic_word, unit_word, word_eval, word_poly,
};
use crate::p25::types::Hexbit;
use crate::p25::coding::galois::gf_exp;

verus! {

/// Transpose of the generator matrix (12 parity rows x 12 data columns).
pub open spec fn generator() -> Seq<Seq<u8>> {
    seq![
        seq![0o62u8, 0o11u8, 0o03u8, 0o21u8, 0o30u8, 0o01u8, 0o61u8, 0o24u8, 0o72u8, 0o72u8, 0o73u8, 0o71u8],
        seq![0o44u8, 0o12u8, 0o01u8, 0o70u8, 0o22u8, 0o41u8, 0o76u8, 0o22u8, 0o42u8, 0o14u8, 0o65u8, 0o05u8],
        seq![0o03u8, 0o11u8, 0o05u8, 0o27u8, 0o03u8, 0o27u8, 0o21u8, 0o71u8, 0o05u8, 0o65u8, 0o36u8, 0o55u8],
        seq![0o25u8, 0o11u8, 0o75u8, 0o45u8, 0o75u8, 0o56u8, 0o55u8, 0o56u8, 0o20u8, 0o54u8, 0o61u8, 0o03u8],
        seq![0o14u8, 0o16u8, 0o14u8, 0o16u8, 0o15u8, 0o76u8, 0o76u8, 0o21u8, 0o43u8, 0o35u8, 0o42u8, 0o71u8],
        seq![0o16u8, 0o64u8, 0o06u8, 0o67u8, 0o15u8, 0o64u8, 0o01u8, 0o35u8, 0o47u8, 0o25u8, 0o22u8, 0o34u8],
        seq![0o27u8, 0o67u8, 0o20u8, 0o23u8, 0o33u8, 0o21u8, 0o63u8, 0o73u8, 0o33u8, 0o41u8, 0o17u8, 0o60u8],
        seq![0o03u8, 0o55u8, 0o44u8, 0o64u8, 0o15u8, 0o53u8, 0o35u8, 0o42u8, 0o56u8, 0o16u8, 0o04u8, 0o11u8],
        seq![0o53u8, 0o01u8, 0o66u8, 0o73u8, 0o51u8, 0o04u8, 0o30u8, 0o57u8, 0o01u8, 0o15u8, 0o44u8, 0o74u8],
        seq![0o04u8, 0o76u8, 0o06u8, 0o33u8, 0o03u8, 0o25u8, 0o13u8, 0o74u8, 0o16u8, 0o40u8, 0o20u8, 0o02u8],
        seq![0o36u8, 0o26u8, 0o70u8, 0o44u8, 0o53u8, 0o01u8, 0o64u8, 0o43u8, 0o13u8, 0o71u8, 0o25u8, 0o41u8],
        seq![0o47u8, 0o73u8, 0o66u8, 0o21u8, 0o50u8, 0o12u8, 0o70u8, 0o76u8, 0o76u8, 0o26u8, 0o05u8, 0o50u8],
    ]
}

/// The parity rows of the generator matrix.
fn generator_rows() -> (r: Vec<Vec<u8>>)
    ensures
        r@.map_values(|v: Vec<u8>| v@) == generator(),
        r@.len() == 12,
        forall|i: int| 0 <= i < 12 ==> (#[trigger] r@[i])@.len() == 12,
        forall|i: int, j: int| 0 <= i < 12 && 0 <= j < 12 ==> #[trigger] r@[i]@[j] < 64,
{
    let r = vec![
        vec![0o62, 0o11, 0o03, 0o21, 0o30, 0o01, 0o61, 0o24, 0o72, 0o72, 0o73, 0o71],
        vec![0o44, 0o12, 0o01, 0o70, 0o22, 0o41, 0o76, 0o22, 0o42, 0o14, 0o65, 0o05],
        vec![0o03, 0o11, 0o05, 0o27, 0o03, 0o27, 0o21, 0o71, 0o05, 0o65, 0o36, 0o55],
        vec![0o25, 0o11, 0o75, 0o45, 0o75, 0o56, 0o55, 0o56, 0o20, 0o54, 0o61, 0o03],
        vec![0o14, 0o16, 0o14, 0o16, 0o15, 0o76, 0o76, 0o21, 0o43, 0o35, 0o42, 0o71],
        vec![0o16, 0o64, 0o06, 0o67, 0o15, 0o64, 0o01, 0o35, 0o47, 0o25, 0o22, 0o34],
        vec![0o27, 0o67, 0o20, 0o23, 0o33, 0o21, 0o63, 0o73, 0o33, 0o41, 0o17, 0o60],
        vec![0o03, 0o55, 0o44, 0o64, 0o15, 0o53, 0o35, 0o42, 0o56, 0o16, 0o04, 0o11],
        vec![0o53, 0o01, 0o66, 0o73, 0o51, 0o04, 0o30, 0o57, 0o01, 0o15, 0o44, 0o74],
        vec![0o04, 0o76, 0o06, 0o33, 0o03, 0o25, 0o13, 0o74, 0o16, 0o40, 0o20, 0o02],
        vec![0o36, 0o26, 0o70, 0o44, 0o53, 0o01, 0o64, 0o43, 0o13, 0o71, 0o25, 0o41],
        vec![0o47, 0o73, 0o66, 0o21, 0o50, 0o12, 0o70, 0o76, 0o76, 0o26, 0o05, 0o50],
    ];
    assert(r@.map_values(|v: Vec<u8>| v@) =~= generator());
    r
}

/// Compute 12 parity hexbits from the first 12 data hexbits.
pub fn encode(buf: &mut [Hexbit; 24])
    ensures
        hexbit_values(final(buf)@) == systematic_word(hexbit_values(old(buf)@), generator(), 12),
        rs_decode_word(hexbit_values(final(buf)@), 12, 12) == Some(
            (hexbit_values(old(buf)@).subrange(0, 12), 0nat),
        ),
{
    let ghost data = hexbit_values(buf@);
    let rows = generator_rows();
    encode_with(buf, &rows, 12);
    proof {
        assert forall|i: int| 0 <= i < data.len() implies #[trigger] data[i] < 64 by {
            crate::p25::types::lemma_hexbit_bound(old(buf)@[i]);
        }
        lemma_encode_roundtrip(data);
    }
}

/// Decode a 24-hexbit word, correcting up to 6 symbol errors.
///
/// Returns `Some((data, error_count))` on success, with the corrected data
/// also written over the first 12 symbols of `buf`, or `None` (leaving
/// `buf` unchanged) if the errors are unrecoverable.
pub fn decode(buf: &mut [Hexbit; 24]) -> (r: Option<(Vec<Hexbit>, usize)>)
    ensures
        r matches Some((d, _)) ==> d@.len() == 12,
        match rs_decode_word(hexbit_values(old(buf)@), 12, 12) {
            None => r is None && final(buf)@ == old(buf)@,
            Some((data, n)) => r matches Some((d, m)) && hexbit_values(d@) == data && m == n
                && hexbit_values(final(buf)@) == data + hexbit_values(old(buf)@).subrange(12, 24),
        },
{
    decode_data::<ShortCoefs, 24>(buf, 12)
}

/// The generator matrix written out entry by entry, as `row` and `col`
/// index `generator()`.
pub open spec fn generator_entry(row: u32, col: u32) -> u8 {
    if row < 6 { if row < 3 { if row < 1 { if col < 6 { if col < 3 { if col < 1 { 0o62u8 } else { if col < 2 { 0o11u8 } else { 0o03u8 } } } else { if col < 4 { 0o21u8 } else { if col < 5 { 0o30u8 } else { 0o01u8 } } } } else { if col < 9 { if col < 7 { 0o61u8 } else { if col < 8 { 0o24u8 } else { 0o72u8 } } } else { if col < 10 { 0o72u8 } else { if col < 11 { 0o73u8 } else { 0o71u8 } } } } } else { if row < 2 { if col < 6 { if col < 3 { if col < 1 { 0o44u8 } else { if col < 2 { 0o12u8 } else { 0o01u8 } } } else { if col < 4 { 0o70u8 } else { if col < 5 { 0o22u8 } else { 0o41u8 } } } } else { if col < 9 { if col < 7 { 0o76u8 } else { if col < 8 { 0o22u8 } else { 0o42u8 } } } else { if col < 10 { 0o14u8 } else { if col < 11 { 0o65u8 } else { 0o05u8 } } } } } else { if col < 6 { if col < 3 { if col < 1 { 0o03u8 } else { if col < 2 { 0o11u8 } else { 0o05u8 } } } else { if col < 4 { 0o27u8 } else { if col < 5 { 0o03u8 } else { 0o27u8 } } } } else { if col < 9 { if col < 7 { 0o21u8 } else { if col < 8 { 0o71u8 } else { 0o05u8 } } } else { if col < 10 { 0o65u8 } else { if col < 11 { 0o36u8 } else { 0o55u8 } } } } } } } else { if row < 4 { if col < 6 { if col < 3 { if col < 1 { 0o25u8 } else { if col < 2 { 0o11u8 } else { 0o75u8 } } } else { if col < 4 { 0o45u8 } else { if col < 5 { 0o75u8 } else { 0o56u8 } } } } else { if col < 9 { if col < 7 { 0o55u8 } else { if col < 8 { 0o56u8 } else { 0o20u8 } } } else { if col < 10 { 0o54u8 } else { if col < 11 { 0o61u8 } else { 0o03u8 } } } } } else { if row < 5 { if col < 6 { if col < 3 { if col < 1 { 0o14u8 } else { if col < 2 { 0o16u8 } else { 0o14u8 } } } else { if col < 4 { 0o16u8 } else { if col < 5 { 0o15u8 } else { 0o76u8 } } } } else { if col < 9 { if col < 7 { 0o76u8 } else { if col < 8 { 0o21u8 } else { 0o43u8 } } } else { if col < 10 { 0o35u8 } else { if col < 11 { 0o42u8 } else { 0o71u8 } } } } } else { if col < 6 { if col < 3 { if col < 1 { 0o16u8 } else { if col < 2 { 0o64u8 } else { 0o06u8 } } } else { if col < 4 { 0o67u8 } else { if col < 5 { 0o15u8 } else { 0o64u8 } } } } else { if col < 9 { if col < 7 { 0o01u8 } else { if col < 8 { 0o35u8 } else { 0o47u8 } } } else { if col < 10 { 0o25u8 } else { if col < 11 { 0o22u8 } else { 0o34u8 } } } } } } } } else { if row < 9 { if row < 7 { if col < 6 { if col < 3 { if col < 1 { 0o27u8 } else { if col < 2 { 0o67u8 } else { 0o20u8 } } } else { if col < 4 { 0o23u8 } else { if col < 5 { 0o33u8 } else { 0o21u8 } } } } else { if col < 9 { if col < 7 { 0o63u8 } else { if col < 8 { 0o73u8 } else { 0o33u8 } } } else { if col < 10 { 0o41u8 } else { if col < 11 { 0o17u8 } else { 0o60u8 } } } } } else { if row < 8 { if col < 6 { if col < 3 { if col < 1 { 0o03u8 } else { if col < 2 { 0o55u8 } else { 0o44u8 } } } else { if col < 4 { 0o64u8 } else { if col < 5 { 0o15u8 } else { 0o53u8 } } } } else { if col < 9 { if col < 7 { 0o35u8 } else { if col < 8 { 0o42u8 } else { 0o56u8 } } } else { if col < 10 { 0o16u8 } else { if col < 11 { 0o04u8 } else { 0o11u8 } } } } } else { if col < 6 { if col < 3 { if col < 1 { 0o53u8 } else { if col < 2 { 0o01u8 } else { 0o66u8 } } } else { if col < 4 { 0o73u8 } else { if col < 5 { 0o51u8 } else { 0o04u8 } } } } else { if col < 9 { if col < 7 { 0o30u8 } else { if col < 8 { 0o57u8 } else { 0o01u8 } } } else { if col < 10 { 0o15u8 } else { if col < 11 { 0o44u8 } else { 0o74u8 } } } } } } } else { if row < 10 { if col < 6 { if col < 3 { if col < 1 { 0o04u8 } else { if col < 2 { 0o76u8 } else { 0o06u8 } } } else { if col < 4 { 0o33u8 } else { if col < 5 { 0o03u8 } else { 0o25u8 } } } } else { if col < 9 { if col < 7 { 0o13u8 } else { if col < 8 { 0o74u8 } else { 0o16u8 } } } else { if col < 10 { 0o40u8 } else { if col < 11 { 0o20u8 } else { 0o02u8 } } } } } else { if row < 11 { if col < 6 { if col < 3 { if col < 1 { 0o36u8 } else { if col < 2 { 0o26u8 } else { 0o70u8 } } } else { if col < 4 { 0o44u8 } else { if col < 5 { 0o53u8 } else { 0o01u8 } } } } else { if col < 9 { if col < 7 { 0o64u8 } else { if col < 8 { 0o43u8 } else { 0o13u8 } } } else { if col < 10 { 0o71u8 } else { if col < 11 { 0o25u8 } else { 0o41u8 } } } } } else { if col < 6 { if col < 3 { if col < 1 { 0o47u8 } else { if col < 2 { 0o73u8 } else { 0o66u8 } } } else { if col < 4 { 0o21u8 } else { if col < 5 { 0o50u8 } else { 0o12u8 } } } } else { if col < 9 { if col < 7 { 0o70u8 } else { if col < 8 { 0o76u8 } else { 0o76u8 } } } else { if col < 10 { 0o26u8 } else { if col < 11 { 0o05u8 } else { 0o50u8 } } } } } } } }
}

/// The written-out entries are those of the generator matrix.
pub proof fn lemma_generator_entries()
    ensures
        forall|i: int, u: int|
            0 <= i < 12 && 0 <= u < 12 ==> #[trigger] generator()[i][u] == generator_entry(i as u32, u as u32)
                && generator()[i].len() == 12 && generator()[i][u] < 64,
        generator().len() == 12,
{
    assert forall|i: int, u: int| 0 <= i < 12 && 0 <= u < 12 implies #[trigger] generator()[i][u]
        == generator_entry(i as u32, u as u32) && generator()[i].len() == 12 && generator()[i][u] < 64 by {
        assert(i == 0 || i == 1 || i == 2 || i == 3 || i == 4 || i == 5 || i == 6 || i == 7 || i == 8 || i == 9 || i == 10 || i == 11);
        assert(u == 0 || u == 1 || u == 2 || u == 3 || u == 4 || u == 5 || u == 6 || u == 7 || u == 8 || u == 9 || u == 10 || u == 11);
    }
}

/// The written-out evaluations of the unit columns vanish.
#[verifier::rlimit(100)]
proof fn lemma_flat_columns(u: u32, e: u32)
    requires
        u < 12,
        1 <= e <= 12,
    ensures
        flat_column_eval(12, u, e, 24) == 0,
{
    lemma_short_medium_tables();
    assert(u == 0 || u == 1 || u == 2 || u == 3 || u == 4 || u == 5 || u == 6 || u == 7 || u == 8 || u == 9 || u == 10 || u == 11);
    assert(e == 1 || e == 2 || e == 3 || e == 4 || e == 5 || e == 6 || e == 7 || e == 8 || e == 9 || e == 10 || e == 11 || e == 12);
}

/// The encoding of each unit data word vanishes at alpha^1 .. alpha^12.
proof fn lemma_unit_eval(u: nat, j: nat)
    requires
        u < 12,
        j < 12,
    ensures
        word_eval(systematic_word(unit_word(24, u), generator(), 12), gf_exp(j + 1) as u8) == 0,
{
    let g = generator();
    lemma_generator_entries();
    assert forall|i: int| 0 <= i < g.len() implies (#[trigger] g[i]).len() == 12 && symbols_fit(g[i]) by {
        assert(g[i][0] < 64);
    }
    assert forall|i: int| 12 <= i < 24 implies #[trigger] g[i - 12][u as int] == column_symbol(12, u as u32, i as u32) by {
        assert(g[i - 12][u as int] == generator_entry((i - 12) as u32, u as u32));
    }
    lemma_column_eval(12, 24, g, u as u32, (j + 1) as u32, 24);
    let w = systematic_word(unit_word(24, u), g, 12);
    assert(w.subrange(0, 24) =~= w);
    lemma_flat_columns(u as u32, (j + 1) as u32);
}

/// Every encoded word is a codeword, and decoding it with no errors gives
/// the data back.
pub proof fn lemma_encode_roundtrip(data: Seq<u8>)
    requires
        data.len() == 24,
        symbols_fit(data),
    ensures
        syndromes_vanish(word_poly(systematic_word(data, generator(), 12)), 12),
        rs_decode_word(systematic_word(data, generator(), 12), 12, 12) == Some((data.subrange(0, 12), 0nat)),
{
    let g = generator();
    lemma_generator_entries();
    assert forall|i: int| 0 <= i < g.len() implies (#[trigger] g[i]).len() == 12 && symbols_fit(g[i]) by {
        assert(g[i][0] < 64);
    }
    assert forall|u: nat, j: nat| u < 12 && j < 12 implies #[trigger] word_eval(
        systematic_word(unit_word(24, u), g, 12),
        gf_exp(j + 1) as u8,
    ) == 0 by {
        lemma_unit_eval(u, j);
    }
    lemma_encode_codeword(data, g, 12, 12);
    let w = systematic_word(data, g, 12);
    lemma_decode_clean_word(w, 12, 12);
    assert(w.subrange(0, 12) =~= data.subrange(0, 12));
}

} // verus!
