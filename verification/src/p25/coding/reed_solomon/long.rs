//! Encoding and decoding of the (36, 20, 17) long Reed-Solomon code.
//!
//! Corrects up to 8 hexbit symbol errors. Used for the voice header (HDU).
//!
//! The generator matrix is the systematic form of the code whose
//! codewords, read first symbol highest degree, vanish at alpha^1 ..
//! alpha^16: the same construction that gives the short and medium
//! matrices, and the code that the shared decoder corrects.

use vstd::prelude::*;
use super::{
    LongCoefs, column_symbol, decode_data, encode_with, hexbit_values, lemma_column_eval,
    lemma_decode_clean_word, lemma_encode_codeword, lemma_long_table, flat_column_eval, rs_decode_word, symbols_fit,
    syndromes_vanish, systematic_word, unit_word, word_eval, word_poly,
};
use crate::p25::types::Hexbit;
use crate::p25::coding::galois::gf_exp;

verus! {

/// Transpose of the generator matrix (16 parity rows x 20 data columns).
pub open spec fn generator() -> Seq<Seq<u8>> {
    seq![
        seq![0o74u8, 0o04u8, 0o07u8, 0o26u8, 0o23u8, 0o24u8, 0o52u8, 0o55u8, 0o54u8, 0o74u8, 0o54u8, 0o51u8, 0o01u8, 0o11u8, 0o06u8, 0o34u8, 0o63u8, 0o71u8, 0o02u8, 0o34u8],
        seq![0o37u8, 0o17u8, 0o23u8, 0o05u8, 0o73u8, 0o51u8, 0o33u8, 0o62u8, 0o51u8, 0o41u8, 0o70u8, 0o07u8, 0o65u8, 0o70u8, 0o02u8, 0o31u8, 0o43u8, 0o21u8, 0o01u8, 0o35u8],
        seq![0o34u8, 0o50u8, 0o37u8, 0o07u8, 0o73u8, 0o25u8, 0o14u8, 0o56u8, 0o32u8, 0o30u8, 0o11u8, 0o72u8, 0o32u8, 0o05u8, 0o65u8, 0o01u8, 0o25u8, 0o70u8, 0o53u8, 0o02u8],
        seq![0o06u8, 0o24u8, 0o46u8, 0o63u8, 0o41u8, 0o23u8, 0o02u8, 0o25u8, 0o65u8, 0o41u8, 0o03u8, 0o30u8, 0o70u8, 0o10u8, 0o11u8, 0o15u8, 0o44u8, 0o44u8, 0o74u8, 0o23u8],
        seq![0o02u8, 0o11u8, 0o56u8, 0o63u8, 0o72u8, 0o22u8, 0o20u8, 0o73u8, 0o77u8, 0o43u8, 0o13u8, 0o65u8, 0o13u8, 0o65u8, 0o41u8, 0o44u8, 0o77u8, 0o56u8, 0o02u8, 0o21u8],
        seq![0o07u8, 0o05u8, 0o75u8, 0o27u8, 0o34u8, 0o41u8, 0o06u8, 0o60u8, 0o12u8, 0o22u8, 0o22u8, 0o54u8, 0o44u8, 0o24u8, 0o20u8, 0o64u8, 0o63u8, 0o04u8, 0o14u8, 0o27u8],
        seq![0o44u8, 0o30u8, 0o43u8, 0o63u8, 0o21u8, 0o74u8, 0o14u8, 0o15u8, 0o54u8, 0o51u8, 0o16u8, 0o06u8, 0o73u8, 0o15u8, 0o45u8, 0o16u8, 0o17u8, 0o30u8, 0o52u8, 0o22u8],
        seq![0o64u8, 0o57u8, 0o45u8, 0o40u8, 0o51u8, 0o66u8, 0o25u8, 0o30u8, 0o13u8, 0o06u8, 0o57u8, 0o21u8, 0o24u8, 0o77u8, 0o42u8, 0o24u8, 0o17u8, 0o74u8, 0o74u8, 0o33u8],
        seq![0o26u8, 0o33u8, 0o55u8, 0o06u8, 0o67u8, 0o74u8, 0o52u8, 0o13u8, 0o35u8, 0o64u8, 0o03u8, 0o36u8, 0o12u8, 0o22u8, 0o46u8, 0o52u8, 0o64u8, 0o04u8, 0o12u8, 0o64u8],
        seq![0o14u8, 0o03u8, 0o21u8, 0o04u8, 0o16u8, 0o65u8, 0o23u8, 0o17u8, 0o32u8, 0o33u8, 0o45u8, 0o63u8, 0o52u8, 0o24u8, 0o54u8, 0o16u8, 0o14u8, 0o23u8, 0o57u8, 0o42u8],
        seq![0o26u8, 0o02u8, 0o50u8, 0o40u8, 0o31u8, 0o70u8, 0o35u8, 0o20u8, 0o56u8, 0o03u8, 0o72u8, 0o50u8, 0o21u8, 0o24u8, 0o35u8, 0o06u8, 0o40u8, 0o71u8, 0o24u8, 0o05u8],
        seq![0o44u8, 0o02u8, 0o31u8, 0o45u8, 0o74u8, 0o36u8, 0o74u8, 0o02u8, 0o12u8, 0o47u8, 0o31u8, 0o61u8, 0o55u8, 0o74u8, 0o12u8, 0o62u8, 0o74u8, 0o70u8, 0o63u8, 0o73u8],
        seq![0o54u8, 0o15u8, 0o45u8, 0o47u8, 0o11u8, 0o67u8, 0o75u8, 0o70u8, 0o75u8, 0o27u8, 0o30u8, 0o64u8, 0o12u8, 0o07u8, 0o40u8, 0o20u8, 0o31u8, 0o63u8, 0o15u8, 0o51u8],
        seq![0o13u8, 0o16u8, 0o27u8, 0o30u8, 0o21u8, 0o45u8, 0o75u8, 0o55u8, 0o01u8, 0o12u8, 0o56u8, 0o52u8, 0o35u8, 0o44u8, 0o64u8, 0o13u8, 0o72u8, 0o45u8, 0o42u8, 0o46u8],
        seq![0o77u8, 0o25u8, 0o71u8, 0o75u8, 0o12u8, 0o64u8, 0o43u8, 0o14u8, 0o72u8, 0o55u8, 0o35u8, 0o01u8, 0o14u8, 0o07u8, 0o65u8, 0o55u8, 0o54u8, 0o56u8, 0o52u8, 0o73u8],
        seq![0o05u8, 0o26u8, 0o62u8, 0o07u8, 0o21u8, 0o01u8, 0o27u8, 0o47u8, 0o63u8, 0o47u8, 0o22u8, 0o60u8, 0o72u8, 0o46u8, 0o33u8, 0o57u8, 0o06u8, 0o43u8, 0o33u8, 0o60u8],
    ]
}

/// The parity rows of the generator matrix.
fn generator_rows() -> (r: Vec<Vec<u8>>)
    ensures
        r@.map_values(|v: Vec<u8>| v@) == generator(),
        r@.len() == 16,
        forall|i: int| 0 <= i < 16 ==> (#[trigger] r@[i])@.len() == 20,
        forall|i: int, j: int| 0 <= i < 16 && 0 <= j < 20 ==> #[trigger] r@[i]@[j] < 64,
{
    let r = vec![
        vec![0o74, 0o04, 0o07, 0o26, 0o23, 0o24, 0o52, 0o55, 0o54, 0o74, 0o54, 0o51, 0o01, 0o11, 0o06, 0o34, 0o63, 0o71, 0o02, 0o34],
        vec![0o37, 0o17, 0o23, 0o05, 0o73, 0o51, 0o33, 0o62, 0o51, 0o41, 0o70, 0o07, 0o65, 0o70, 0o02, 0o31, 0o43, 0o21, 0o01, 0o35],
        vec![0o34, 0o50, 0o37, 0o07, 0o73, 0o25, 0o14, 0o56, 0o32, 0o30, 0o11, 0o72, 0o32, 0o05, 0o65, 0o01, 0o25, 0o70, 0o53, 0o02],
        vec![0o06, 0o24, 0o46, 0o63, 0o41, 0o23, 0o02, 0o25, 0o65, 0o41, 0o03, 0o30, 0o70, 0o10, 0o11, 0o15, 0o44, 0o44, 0o74, 0o23],
        vec![0o02, 0o11, 0o56, 0o63, 0o72, 0o22, 0o20, 0o73, 0o77, 0o43, 0o13, 0o65, 0o13, 0o65, 0o41, 0o44, 0o77, 0o56, 0o02, 0o21],
        vec![0o07, 0o05, 0o75, 0o27, 0o34, 0o41, 0o06, 0o60, 0o12, 0o22, 0o22, 0o54, 0o44, 0o24, 0o20, 0o64, 0o63, 0o04, 0o14, 0o27],
        vec![0o44, 0o30, 0o43, 0o63, 0o21, 0o74, 0o14, 0o15, 0o54, 0o51, 0o16, 0o06, 0o73, 0o15, 0o45, 0o16, 0o17, 0o30, 0o52, 0o22],
        vec![0o64, 0o57, 0o45, 0o40, 0o51, 0o66, 0o25, 0o30, 0o13, 0o06, 0o57, 0o21, 0o24, 0o77, 0o42, 0o24, 0o17, 0o74, 0o74, 0o33],
        vec![0o26, 0o33, 0o55, 0o06, 0o67, 0o74, 0o52, 0o13, 0o35, 0o64, 0o03, 0o36, 0o12, 0o22, 0o46, 0o52, 0o64, 0o04, 0o12, 0o64],
        vec![0o14, 0o03, 0o21, 0o04, 0o16, 0o65, 0o23, 0o17, 0o32, 0o33, 0o45, 0o63, 0o52, 0o24, 0o54, 0o16, 0o14, 0o23, 0o57, 0o42],
        vec![0o26, 0o02, 0o50, 0o40, 0o31, 0o70, 0o35, 0o20, 0o56, 0o03, 0o72, 0o50, 0o21, 0o24, 0o35, 0o06, 0o40, 0o71, 0o24, 0o05],
        vec![0o44, 0o02, 0o31, 0o45, 0o74, 0o36, 0o74, 0o02, 0o12, 0o47, 0o31, 0o61, 0o55, 0o74, 0o12, 0o62, 0o74, 0o70, 0o63, 0o73],
        vec![0o54, 0o15, 0o45, 0o47, 0o11, 0o67, 0o75, 0o70, 0o75, 0o27, 0o30, 0o64, 0o12, 0o07, 0o40, 0o20, 0o31, 0o63, 0o15, 0o51],
        vec![0o13, 0o16, 0o27, 0o30, 0o21, 0o45, 0o75, 0o55, 0o01, 0o12, 0o56, 0o52, 0o35, 0o44, 0o64, 0o13, 0o72, 0o45, 0o42, 0o46],
        vec![0o77, 0o25, 0o71, 0o75, 0o12, 0o64, 0o43, 0o14, 0o72, 0o55, 0o35, 0o01, 0o14, 0o07, 0o65, 0o55, 0o54, 0o56, 0o52, 0o73],
        vec![0o05, 0o26, 0o62, 0o07, 0o21, 0o01, 0o27, 0o47, 0o63, 0o47, 0o22, 0o60, 0o72, 0o46, 0o33, 0o57, 0o06, 0o43, 0o33, 0o60],
    ];
    assert(r@.map_values(|v: Vec<u8>| v@) =~= generator());
    r
}

/// Compute 16 parity hexbits from the first 20 data hexbits.
pub fn encode(buf: &mut [Hexbit; 36])
    ensures
        hexbit_values(final(buf)@) == systematic_word(hexbit_values(old(buf)@), generator(), 20),
        rs_decode_word(hexbit_values(final(buf)@), 16, 20) == Some(
            (hexbit_values(old(buf)@).subrange(0, 20), 0nat),
        ),
{
    let ghost data = hexbit_values(buf@);
    let rows = generator_rows();
    encode_with(buf, &rows, 20);
    proof {
        assert forall|i: int| 0 <= i < data.len() implies #[trigger] data[i] < 64 by {
            crate::p25::types::lemma_hexbit_bound(old(buf)@[i]);
        }
        lemma_encode_roundtrip(data);
    }
}

/// Decode a 36-hexbit word, correcting up to 8 symbol errors.
///
/// Returns `Some((data, error_count))` on success, with the corrected data
/// also written over the first 20 symbols of `buf`, or `None` (leaving
/// `buf` unchanged) if the errors are unrecoverable.
pub fn decode(buf: &mut [Hexbit; 36]) -> (r: Option<(Vec<Hexbit>, usize)>)
    ensures
        r matches Some((d, _)) ==> d@.len() == 20,
        match rs_decode_word(hexbit_values(old(buf)@), 16, 20) {
            None => r is None && final(buf)@ == old(buf)@,
            Some((data, n)) => r matches Some((d, m)) && hexbit_values(d@) == data && m == n
                && hexbit_values(final(buf)@) == data + hexbit_values(old(buf)@).subrange(20, 36),
        },
{
    decode_data::<LongCoefs, 36>(buf, 20)
}

/// The generator matrix written out entry by entry, as `row` and `col`
/// index `generator()`.
pub open spec fn generator_entry(row: u32, col: u32) -> u8 {
    if row < 8 { if row < 4 { if row < 2 { if row < 1 { if col < 10 { if col < 5 { if col < 2 { if col < 1 { 0o74u8 } else { 0o04u8 } } else { if col < 3 { 0o07u8 } else { if col < 4 { 0o26u8 } else { 0o23u8 } } } } else { if col < 7 { if col < 6 { 0o24u8 } else { 0o52u8 } } else { if col < 8 { 0o55u8 } else { if col < 9 { 0o54u8 } else { 0o74u8 } } } } } else { if col < 15 { if col < 12 { if col < 11 { 0o54u8 } else { 0o51u8 } } else { if col < 13 { 0o01u8 } else { if col < 14 { 0o11u8 } else { 0o06u8 } } } } else { if col < 17 { if col < 16 { 0o34u8 } else { 0o63u8 } } else { if col < 18 { 0o71u8 } else { if col < 19 { 0o02u8 } else { 0o34u8 } } } } } } else { if col < 10 { if col < 5 { if col < 2 { if col < 1 { 0o37u8 } else { 0o17u8 } } else { if col < 3 { 0o23u8 } else { if col < 4 { 0o05u8 } else { 0o73u8 } } } } else { if col < 7 { if col < 6 { 0o51u8 } else { 0o33u8 } } else { if col < 8 { 0o62u8 } else { if col < 9 { 0o51u8 } else { 0o41u8 } } } } } else { if col < 15 { if col < 12 { if col < 11 { 0o70u8 } else { 0o07u8 } } else { if col < 13 { 0o65u8 } else { if col < 14 { 0o70u8 } else { 0o02u8 } } } } else { if col < 17 { if col < 16 { 0o31u8 } else { 0o43u8 } } else { if col < 18 { 0o21u8 } else { if col < 19 { 0o01u8 } else { 0o35u8 } } } } } } } else { if row < 3 { if col < 10 { if col < 5 { if col < 2 { if col < 1 { 0o34u8 } else { 0o50u8 } } else { if col < 3 { 0o37u8 } else { if col < 4 { 0o07u8 } else { 0o73u8 } } } } else { if col < 7 { if col < 6 { 0o25u8 } else { 0o14u8 } } else { if col < 8 { 0o56u8 } else { if col < 9 { 0o32u8 } else { 0o30u8 } } } } } else { if col < 15 { if col < 12 { if col < 11 { 0o11u8 } else { 0o72u8 } } else { if col < 13 { 0o32u8 } else { if col < 14 { 0o05u8 } else { 0o65u8 } } } } else { if col < 17 { if col < 16 { 0o01u8 } else { 0o25u8 } } else { if col < 18 { 0o70u8 } else { if col < 19 { 0o53u8 } else { 0o02u8 } } } } } } else { if col < 10 { if col < 5 { if col < 2 { if col < 1 { 0o06u8 } else { 0o24u8 } } else { if col < 3 { 0o46u8 } else { if col < 4 { 0o63u8 } else { 0o41u8 } } } } else { if col < 7 { if col < 6 { 0o23u8 } else { 0o02u8 } } else { if col < 8 { 0o25u8 } else { if col < 9 { 0o65u8 } else { 0o41u8 } } } } } else { if col < 15 { if col < 12 { if col < 11 { 0o03u8 } else { 0o30u8 } } else { if col < 13 { 0o70u8 } else { if col < 14 { 0o10u8 } else { 0o11u8 } } } } else { if col < 17 { if col < 16 { 0o15u8 } else { 0o44u8 } } else { if col < 18 { 0o44u8 } else { if col < 19 { 0o74u8 } else { 0o23u8 } } } } } } } } else { if row < 6 { if row < 5 { if col < 10 { if col < 5 { if col < 2 { if col < 1 { 0o02u8 } else { 0o11u8 } } else { if col < 3 { 0o56u8 } else { if col < 4 { 0o63u8 } else { 0o72u8 } } } } else { if col < 7 { if col < 6 { 0o22u8 } else { 0o20u8 } } else { if col < 8 { 0o73u8 } else { if col < 9 { 0o77u8 } else { 0o43u8 } } } } } else { if col < 15 { if col < 12 { if col < 11 { 0o13u8 } else { 0o65u8 } } else { if col < 13 { 0o13u8 } else { if col < 14 { 0o65u8 } else { 0o41u8 } } } } else { if col < 17 { if col < 16 { 0o44u8 } else { 0o77u8 } } else { if col < 18 { 0o56u8 } else { if col < 19 { 0o02u8 } else { 0o21u8 } } } } } } else { if col < 10 { if col < 5 { if col < 2 { if col < 1 { 0o07u8 } else { 0o05u8 } } else { if col < 3 { 0o75u8 } else { if col < 4 { 0o27u8 } else { 0o34u8 } } } } else { if col < 7 { if col < 6 { 0o41u8 } else { 0o06u8 } } else { if col < 8 { 0o60u8 } else { if col < 9 { 0o12u8 } else { 0o22u8 } } } } } else { if col < 15 { if col < 12 { if col < 11 { 0o22u8 } else { 0o54u8 } } else { if col < 13 { 0o44u8 } else { if col < 14 { 0o24u8 } else { 0o20u8 } } } } else { if col < 17 { if col < 16 { 0o64u8 } else { 0o63u8 } } else { if col < 18 { 0o04u8 } else { if col < 19 { 0o14u8 } else { 0o27u8 } } } } } } } else { if row < 7 { if col < 10 { if col < 5 { if col < 2 { if col < 1 { 0o44u8 } else { 0o30u8 } } else { if col < 3 { 0o43u8 } else { if col < 4 { 0o63u8 } else { 0o21u8 } } } } else { if col < 7 { if col < 6 { 0o74u8 } else { 0o14u8 } } else { if col < 8 { 0o15u8 } else { if col < 9 { 0o54u8 } else { 0o51u8 } } } } } else { if col < 15 { if col < 12 { if col < 11 { 0o16u8 } else { 0o06u8 } } else { if col < 13 { 0o73u8 } else { if col < 14 { 0o15u8 } else { 0o45u8 } } } } else { if col < 17 { if col < 16 { 0o16u8 } else { 0o17u8 } } else { if col < 18 { 0o30u8 } else { if col < 19 { 0o52u8 } else { 0o22u8 } } } } } } else { if col < 10 { if col < 5 { if col < 2 { if col < 1 { 0o64u8 } else { 0o57u8 } } else { if col < 3 { 0o45u8 } else { if col < 4 { 0o40u8 } else { 0o51u8 } } } } else { if col < 7 { if col < 6 { 0o66u8 } else { 0o25u8 } } else { if col < 8 { 0o30u8 } else { if col < 9 { 0o13u8 } else { 0o06u8 } } } } } else { if col < 15 { if col < 12 { if col < 11 { 0o57u8 } else { 0o21u8 } } else { if col < 13 { 0o24u8 } else { if col < 14 { 0o77u8 } else { 0o42u8 } } } } else { if col < 17 { if col < 16 { 0o24u8 } else { 0o17u8 } } else { if col < 18 { 0o74u8 } else { if col < 19 { 0o74u8 } else { 0o33u8 } } } } } } } } } else { if row < 12 { if row < 10 { if row < 9 { if col < 10 { if col < 5 { if col < 2 { if col < 1 { 0o26u8 } else { 0o33u8 } } else { if col < 3 { 0o55u8 } else { if col < 4 { 0o06u8 } else { 0o67u8 } } } } else { if col < 7 { if col < 6 { 0o74u8 } else { 0o52u8 } } else { if col < 8 { 0o13u8 } else { if col < 9 { 0o35u8 } else { 0o64u8 } } } } } else { if col < 15 { if col < 12 { if col < 11 { 0o03u8 } else { 0o36u8 } } else { if col < 13 { 0o12u8 } else { if col < 14 { 0o22u8 } else { 0o46u8 } } } } else { if col < 17 { if col < 16 { 0o52u8 } else { 0o64u8 } } else { if col < 18 { 0o04u8 } else { if col < 19 { 0o12u8 } else { 0o64u8 } } } } } } else { if col < 10 { if col < 5 { if col < 2 { if col < 1 { 0o14u8 } else { 0o03u8 } } else { if col < 3 { 0o21u8 } else { if col < 4 { 0o04u8 } else { 0o16u8 } } } } else { if col < 7 { if col < 6 { 0o65u8 } else { 0o23u8 } } else { if col < 8 { 0o17u8 } else { if col < 9 { 0o32u8 } else { 0o33u8 } } } } } else { if col < 15 { if col < 12 { if col < 11 { 0o45u8 } else { 0o63u8 } } else { if col < 13 { 0o52u8 } else { if col < 14 { 0o24u8 } else { 0o54u8 } } } } else { if col < 17 { if col < 16 { 0o16u8 } else { 0o14u8 } } else { if col < 18 { 0o23u8 } else { if col < 19 { 0o57u8 } else { 0o42u8 } } } } } } } else { if row < 11 { if col < 10 { if col < 5 { if col < 2 { if col < 1 { 0o26u8 } else { 0o02u8 } } else { if col < 3 { 0o50u8 } else { if col < 4 { 0o40u8 } else { 0o31u8 } } } } else { if col < 7 { if col < 6 { 0o70u8 } else { 0o35u8 } } else { if col < 8 { 0o20u8 } else { if col < 9 { 0o56u8 } else { 0o03u8 } } } } } else { if col < 15 { if col < 12 { if col < 11 { 0o72u8 } else { 0o50u8 } } else { if col < 13 { 0o21u8 } else { if col < 14 { 0o24u8 } else { 0o35u8 } } } } else { if col < 17 { if col < 16 { 0o06u8 } else { 0o40u8 } } else { if col < 18 { 0o71u8 } else { if col < 19 { 0o24u8 } else { 0o05u8 } } } } } } else { if col < 10 { if col < 5 { if col < 2 { if col < 1 { 0o44u8 } else { 0o02u8 } } else { if col < 3 { 0o31u8 } else { if col < 4 { 0o45u8 } else { 0o74u8 } } } } else { if col < 7 { if col < 6 { 0o36u8 } else { 0o74u8 } } else { if col < 8 { 0o02u8 } else { if col < 9 { 0o12u8 } else { 0o47u8 } } } } } else { if col < 15 { if col < 12 { if col < 11 { 0o31u8 } else { 0o61u8 } } else { if col < 13 { 0o55u8 } else { if col < 14 { 0o74u8 } else { 0o12u8 } } } } else { if col < 17 { if col < 16 { 0o62u8 } else { 0o74u8 } } else { if col < 18 { 0o70u8 } else { if col < 19 { 0o63u8 } else { 0o73u8 } } } } } } } } else { if row < 14 { if row < 13 { if col < 10 { if col < 5 { if col < 2 { if col < 1 { 0o54u8 } else { 0o15u8 } } else { if col < 3 { 0o45u8 } else { if col < 4 { 0o47u8 } else { 0o11u8 } } } } else { if col < 7 { if col < 6 { 0o67u8 } else { 0o75u8 } } else { if col < 8 { 0o70u8 } else { if col < 9 { 0o75u8 } else { 0o27u8 } } } } } else { if col < 15 { if col < 12 { if col < 11 { 0o30u8 } else { 0o64u8 } } else { if col < 13 { 0o12u8 } else { if col < 14 { 0o07u8 } else { 0o40u8 } } } } else { if col < 17 { if col < 16 { 0o20u8 } else { 0o31u8 } } else { if col < 18 { 0o63u8 } else { if col < 19 { 0o15u8 } else { 0o51u8 } } } } } } else { if col < 10 { if col < 5 { if col < 2 { if col < 1 { 0o13u8 } else { 0o16u8 } } else { if col < 3 { 0o27u8 } else { if col < 4 { 0o30u8 } else { 0o21u8 } } } } else { if col < 7 { if col < 6 { 0o45u8 } else { 0o75u8 } } else { if col < 8 { 0o55u8 } else { if col < 9 { 0o01u8 } else { 0o12u8 } } } } } else { if col < 15 { if col < 12 { if col < 11 { 0o56u8 } else { 0o52u8 } } else { if col < 13 { 0o35u8 } else { if col < 14 { 0o44u8 } else { 0o64u8 } } } } else { if col < 17 { if col < 16 { 0o13u8 } else { 0o72u8 } } else { if col < 18 { 0o45u8 } else { if col < 19 { 0o42u8 } else { 0o46u8 } } } } } } } else { if row < 15 { if col < 10 { if col < 5 { if col < 2 { if col < 1 { 0o77u8 } else { 0o25u8 } } else { if col < 3 { 0o71u8 } else { if col < 4 { 0o75u8 } else { 0o12u8 } } } } else { if col < 7 { if col < 6 { 0o64u8 } else { 0o43u8 } } else { if col < 8 { 0o14u8 } else { if col < 9 { 0o72u8 } else { 0o55u8 } } } } } else { if col < 15 { if col < 12 { if col < 11 { 0o35u8 } else { 0o01u8 } } else { if col < 13 { 0o14u8 } else { if col < 14 { 0o07u8 } else { 0o65u8 } } } } else { if col < 17 { if col < 16 { 0o55u8 } else { 0o54u8 } } else { if col < 18 { 0o56u8 } else { if col < 19 { 0o52u8 } else { 0o73u8 } } } } } } else { if col < 10 { if col < 5 { if col < 2 { if col < 1 { 0o05u8 } else { 0o26u8 } } else { if col < 3 { 0o62u8 } else { if col < 4 { 0o07u8 } else { 0o21u8 } } } } else { if col < 7 { if col < 6 { 0o01u8 } else { 0o27u8 } } else { if col < 8 { 0o47u8 } else { if col < 9 { 0o63u8 } else { 0o47u8 } } } } } else { if col < 15 { if col < 12 { if col < 11 { 0o22u8 } else { 0o60u8 } } else { if col < 13 { 0o72u8 } else { if col < 14 { 0o46u8 } else { 0o33u8 } } } } else { if col < 17 { if col < 16 { 0o57u8 } else { 0o06u8 } } else { if col < 18 { 0o43u8 } else { if col < 19 { 0o33u8 } else { 0o60u8 } } } } } } } } }
}

/// The written-out entries are those of the generator matrix.
pub proof fn lemma_generator_entries()
    ensures
        forall|i: int, u: int|
            0 <= i < 16 && 0 <= u < 20 ==> #[trigger] generator()[i][u] == generator_entry(i as u32, u as u32)
                && generator()[i].len() == 20 && generator()[i][u] < 64,
        generator().len() == 16,
{
    assert forall|i: int, u: int| 0 <= i < 16 && 0 <= u < 20 implies #[trigger] generator()[i][u]
        == generator_entry(i as u32, u as u32) && generator()[i].len() == 20 && generator()[i][u] < 64 by {
        assert(i == 0 || i == 1 || i == 2 || i == 3 || i == 4 || i == 5 || i == 6 || i == 7 || i == 8 || i == 9 || i == 10 || i == 11 || i == 12 || i == 13 || i == 14 || i == 15);
        assert(u == 0 || u == 1 || u == 2 || u == 3 || u == 4 || u == 5 || u == 6 || u == 7 || u == 8 || u == 9 || u == 10 || u == 11 || u == 12 || u == 13 || u == 14 || u == 15 || u == 16 || u == 17 || u == 18 || u == 19);
    }
}

/// The written-out evaluations of the unit columns vanish.
#[verifier::rlimit(100)]
proof fn lemma_flat_columns(u: u32, e: u32)
    requires
        u < 20,
        1 <= e <= 16,
    ensures
        flat_column_eval(20, u, e, 36) == 0,
{
    lemma_long_table();
    assert(u == 0 || u == 1 || u == 2 || u == 3 || u == 4 || u == 5 || u == 6 || u == 7 || u == 8 || u == 9 || u == 10 || u == 11 || u == 12 || u == 13 || u == 14 || u == 15 || u == 16 || u == 17 || u == 18 || u == 19);
    assert(e == 1 || e == 2 || e == 3 || e == 4 || e == 5 || e == 6 || e == 7 || e == 8 || e == 9 || e == 10 || e == 11 || e == 12 || e == 13 || e == 14 || e == 15 || e == 16);
}

/// The encoding of each unit data word vanishes at alpha^1 .. alpha^16.
proof fn lemma_unit_eval(u: nat, j: nat)
    requires
        u < 20,
        j < 16,
    ensures
        word_eval(systematic_word(unit_word(36, u), generator(), 20), gf_exp(j + 1) as u8) == 0,
{
    let g = generator();
    lemma_generator_entries();
    assert forall|i: int| 0 <= i < g.len() implies (#[trigger] g[i]).len() == 20 && symbols_fit(g[i]) by {
        assert(g[i][0] < 64);
    }
    assert forall|i: int| 20 <= i < 36 implies #[trigger] g[i - 20][u as int] == column_symbol(20, u as u32, i as u32) by {
        assert(g[i - 20][u as int] == generator_entry((i - 20) as u32, u as u32));
    }
    lemma_column_eval(20, 36, g, u as u32, (j + 1) as u32, 36);
    let w = systematic_word(unit_word(36, u), g, 20);
    assert(w.subrange(0, 36) =~= w);
    lemma_flat_columns(u as u32, (j + 1) as u32);
}

/// Every encoded word is a codeword, and decoding it with no errors gives
/// the data back.
pub proof fn lemma_encode_roundtrip(data: Seq<u8>)
    requires
        data.len() == 36,
        symbols_fit(data),
    ensures
        syndromes_vanish(word_poly(systematic_word(data, generator(), 20)), 16),
        rs_decode_word(systematic_word(data, generator(), 20), 16, 20) == Some((data.subrange(0, 20), 0nat)),
{
    let g = generator();
    lemma_generator_entries();
    assert forall|i: int| 0 <= i < g.len() implies (#[trigger] g[i]).len() == 20 && symbols_fit(g[i]) by {
        assert(g[i][0] < 64);
    }
    assert forall|u: nat, j: nat| u < 20 && j < 16 implies #[trigger] word_eval(
        systematic_word(unit_word(36, u), g, 20),
        gf_exp(j + 1) as u8,
    ) == 0 by {
        lemma_unit_eval(u, j);
    }
    lemma_encode_codeword(data, g, 20, 16);
    let w = systematic_word(data, g, 20);
    lemma_decode_clean_word(w, 16, 20);
    assert(w.subrange(0, 20) =~= data.subrange(0, 20));
}

} // verus!
