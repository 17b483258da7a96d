//! Encoding and decoding of the (18, 6, 8) shortened Golay code.
//!
//! Corrects up to 3 bit errors. This is the extended (24,12) code
//! shortened by fixing the upper 6 data bits to zero.
//! Used for HDU header words and voice extra (LC/CC) hexbit words.

use vstd::prelude::*;

verus! {

/// Encode the given 6 data bits into an 18-bit codeword.
///
/// The input must have only the 6 least significant bits set.
pub fn encode(data: u8) -> (r: u32)
    requires
        data >> 6u8 == 0,
    ensures
        r == super::extended::spec_encode(data as u16),
        r >> 24u32 == 0,
{
    proof {
        crate::p25::bitwise::lemma_mask_u8(data);
    }
    super::extended::encode(data as u16)
}

/// Try to decode the given 18-bit word to the nearest codeword,
/// correcting up to 3 bit errors.
///
/// Returns `Some((data, error_count))` on success, where `data` is
/// the 6 recovered data bits. Returns `None` if the upper 6 data bits
/// are nonzero after correction (indicating an unrecoverable error).
pub fn decode(word: u32) -> (r: Option<(u8, usize)>)
    requires
        word >> 18u32 == 0,
    ensures
        match super::extended::spec_decode(word) {
            None => r is None,
            Some((data, errors)) => if data >> 6u16 == 0 {
                r == Some((data as u8, errors))
            } else {
                r is None
            },
        },
{
    proof {
        crate::p25::bitwise::lemma_mask_u32(word);
    }
    match super::extended::decode(word) {
        Some((data, errors)) => {
            if data >> 6 == 0 {
                Some((data as u8, errors))
            } else {
                None
            }
        },
        None => None,
    }
}

/// Decoding the codeword of 6 data bits gives back the data with no
/// corrections: the extended decoding of the codeword is the data, which
/// has its upper 6 bits clear.
pub proof fn lemma_roundtrip(data: u8)
    requires
        data < 64,
    ensures
        super::extended::spec_decode(super::extended::spec_encode(data as u16)) == Some((data as u16, 0usize)),
        (data as u16) >> 6u16 == 0,
{
    super::extended::lemma_roundtrip(data as u16);
    vstd::bits::lemma_u16_shr_is_div(data as u16, 6);
    vstd::arithmetic::power2::lemma2_to64();
}

/// Up to three errors in the 18 bits are corrected, and four detected:
/// the extended decoding of the codeword of 6 data bits with such an error
/// pattern gives back the data, which has its upper 6 bits clear, and the
/// number of errors, or gives no data for four errors.
pub proof fn lemma_corrects_three(data: u8, e: u32)
    requires
        data < 64,
        e < 0x4_0000,
    ensures
        super::weight(e) <= 3 ==> super::extended::spec_decode(super::extended::spec_encode(data as u16) ^ e) == Some(
            (data as u16, super::weight(e) as usize),
        ),
        super::weight(e) == 4 ==> super::extended::spec_decode(super::extended::spec_encode(data as u16) ^ e) is None,
        (data as u16) >> 6u16 == 0,
{
    if super::weight(e) <= 3 {
        super::extended::lemma_corrects_three(data as u16, e);
    }
    if super::weight(e) == 4 {
        super::extended::lemma_detects_four(data as u16, e);
    }
    vstd::bits::lemma_u16_shr_is_div(data as u16, 6);
    vstd::arithmetic::power2::lemma2_to64();
}

} // verus!
