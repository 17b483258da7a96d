# trunker

Verified building blocks for decoding APCO Project 25 trunked radio
systems: the forward error correction codes of the air interface, the
frame and data unit receivers, the control channel (TSBK) parser, the
voice frame descrambler of the IMBE vocoder, and the decisions of the
channel pipeline and of the device reader loop.

The library under `src/` is written in Verus: each public function
carries a contract, and laws are stated and proved as proof functions
beside the code they are about. For the error-correcting codes, what is
proved is:

- Golay (23,12), (24,12) and (18,6), Hamming (15,11) and (10,6), and
  the cyclic (16,8) code: the round trip and the correction of every
  error pattern that the decoder corrects (up to the code's capability,
  with the exceptions the decoder itself has);
- the trellis code: every single flipped bit is corrected;
- the BCH (63,16) code: every encoded word is a codeword and decodes
  back to itself with its data, every codeword is the encoding of its
  top 16 bits (so whatever decoding returns re-encodes to itself),
  decoding a codeword gives it back, and every single flipped bit is
  corrected; correction of 2 to 11 errors is not proved;
- the Reed-Solomon codes: every encoded word has vanishing syndromes and
  decodes back to its data with no errors, and decoding a word with
  vanishing syndromes gives it back; correction of symbol errors is not
  proved.

GF(2^6) multiplication is proved commutative, associative and
distributive over addition.

## Layout

- `src/p25/coding/` — Golay, Hamming, cyclic, Reed-Solomon and GF(2^6)
  arithmetic.
- `src/p25/bch.rs`, `src/p25/nid.rs` — the BCH(63,16,23) network ID code.
- `src/p25/trellis.rs` — the rate-1/2 trellis code of data blocks.
- `src/p25/receiver.rs`, `src/p25/voice/` — data unit and voice frame
  receivers.
- `src/p25/tsbk*` — trunking signalling blocks.
- `src/vocoder/` — IMBE parameter descrambling.
- `src/pipeline.rs`, `src/sdr/` — channel pipeline bookkeeping and the
  reader loop's decisions.
- `app/` — the parts around the library that are I/O or floating point:
  IQ file reading, the reader loop over a sample stream, and the FIR
  filter plan of the decimation stages.
- `tests/` — the test suite.
