//! Half-rate trellis (convolutional) coding for P25 TSBK payloads.
//!
//! Encoding maps each input dibit to a pair of output dibits using a 4-state
//! finite state machine. Decoding uses the Viterbi algorithm to find the most
//! likely input sequence.

use vstd::prelude::*;
use vstd::string::StringExecFns;
use crate::p25::coding::golay::{count, count_ones, weight};
use crate::p25::error::P25Error;
use crate::p25::text::{decimal, push_decimal};
use crate::p25::types::Dibit;

verus! {

broadcast use crate::p25::types::lemma_dibit_bound;

/// Number of states in the half-rate trellis FSM.
const NUM_STATES: usize = 4;

/// Index into the constellation pair table for the transition from state
/// `prev` to state `next`.
pub open spec fn pair_index(prev: nat, next: nat) -> nat {
    if prev == 0 {
        if next == 0 { 0 } else if next == 1 { 15 } else if next == 2 { 12 } else { 3 }
    } else if prev == 1 {
        if next == 0 { 4 } else if next == 1 { 11 } else if next == 2 { 8 } else { 7 }
    } else if prev == 2 {
        if next == 0 { 13 } else if next == 1 { 2 } else if next == 2 { 1 } else { 14 }
    } else {
        if next == 0 { 9 } else if next == 1 { 6 } else if next == 2 { 5 } else { 10 }
    }
}

/// Constellation pairs table: the output pair `(hi, lo)` for each index.
pub open spec fn constellation(idx: nat) -> (u8, u8) {
    if idx == 0 {
        (0b00, 0b10)
    } else if idx == 1 {
        (0b10, 0b10)
    } else if idx == 2 {
        (0b01, 0b11)
    } else if idx == 3 {
        (0b11, 0b11)
    } else if idx == 4 {
        (0b11, 0b10)
    } else if idx == 5 {
        (0b01, 0b10)
    } else if idx == 6 {
        (0b10, 0b11)
    } else if idx == 7 {
        (0b00, 0b11)
    } else if idx == 8 {
        (0b11, 0b01)
    } else if idx == 9 {
        (0b01, 0b01)
    } else if idx == 10 {
        (0b10, 0b00)
    } else if idx == 11 {
        (0b00, 0b00)
    } else if idx == 12 {
        (0b00, 0b01)
    } else if idx == 13 {
        (0b10, 0b01)
    } else if idx == 14 {
        (0b01, 0b00)
    } else {
        (0b11, 0b00)
    }
}

/// The output pair for the transition from `prev` to `next`.
pub open spec fn transition_pair(prev: nat, next: nat) -> (u8, u8) {
    constellation(pair_index(prev, next))
}

/// The 4-bit edge value of the transition from `prev` to `next`.
pub open spec fn transition_edge(prev: nat, next: nat) -> u8 {
    (transition_pair(prev, next).0 * 4 + transition_pair(prev, next).1) as u8
}

/// State transition to constellation pair index mapping:
/// `pair_index_table()[current_state][next_state]` is the index into
/// `constellation_pairs()` for that transition.
pub fn pair_index_table() -> (r: [[usize; 4]; 4])
    ensures
        forall|p: int, n: int| 0 <= p < 4 && 0 <= n < 4 ==> #[trigger] r@[p]@[n] == pair_index(p as nat, n as nat),
{
    let r: [[usize; 4]; 4] = [[0, 15, 12, 3], [4, 11, 8, 7], [13, 2, 1, 14], [9, 6, 5, 10]];
    assert(r@[0]@[0] == 0 && r@[1]@[0] == 4 && r@[2]@[0] == 13 && r@[3]@[0] == 9);
    r
}

/// Look up the constellation pair index for a state transition.
fn pair_index_of(prev: usize, next: usize) -> (r: usize)
    requires
        prev < 4,
        next < 4,
    ensures
        r == pair_index(prev as nat, next as nat),
        r < 16,
{
    let table = pair_index_table();
    table[prev][next]
}

/// Look up a constellation pair.
fn constellation_pair(idx: usize) -> (r: (u8, u8))
    requires
        idx < 16,
    ensures
        r == constellation(idx as nat),
        r.0 < 4,
        r.1 < 4,
{
    let table = constellation_pairs();
    table[idx]
}

/// Constellation pairs table (16 entries): each entry is `(hi_dibit,
/// lo_dibit)`, the output pair for a state transition.
pub fn constellation_pairs() -> (r: [(u8, u8); 16])
    ensures
        forall|i: int| 0 <= i < 16 ==> #[trigger] r@[i] == constellation(i as nat),
{
    let table: [(u8, u8); 16] = [
        (0b00, 0b10),
        (0b10, 0b10),
        (0b01, 0b11),
        (0b11, 0b11),
        (0b11, 0b10),
        (0b01, 0b10),
        (0b10, 0b11),
        (0b00, 0b11),
        (0b11, 0b01),
        (0b01, 0b01),
        (0b10, 0b00),
        (0b00, 0b00),
        (0b00, 0b01),
        (0b10, 0b01),
        (0b01, 0b00),
        (0b11, 0b00),
    ];
    assert(table@[15] == constellation(15));
    table
}

// ---------------------------------------------------------------------------
// Encoder
// ---------------------------------------------------------------------------

/// The output dibit values for encoding `input` from state `state`: two per
/// input dibit.
pub open spec fn encode_seq(state: nat, input: Seq<u8>) -> Seq<u8>
    decreases input.len(),
{
    if input.len() == 0 {
        Seq::empty()
    } else {
        let pair = transition_pair(state, input[0] as nat);
        seq![pair.0, pair.1] + encode_seq(input[0] as nat, input.drop_first())
    }
}

/// The 2-bit values of a run of dibits.
pub open spec fn dibit_values(s: Seq<Dibit>) -> Seq<u8> {
    s.map_values(|d: Dibit| d@)
}

/// Half-rate trellis encoder.
///
/// Encodes a sequence of input dibits into constellation pairs using a
/// 4-state finite state machine.
#[derive(Debug, Default)]
pub struct TrellisEncoder {
    /// Current FSM state.
    state: usize,
}

impl View for TrellisEncoder {
    type V = nat;

    /// The current FSM state (the last input dibit).
    closed spec fn view(&self) -> nat {
        self.state as nat
    }
}

impl TrellisEncoder {
    /// The state is one of the four FSM states.
    pub closed spec fn wf(&self) -> bool {
        self.state < 4
    }

    /// Create a new encoder at the initial state (0).
    pub fn new() -> (r: Self)
        ensures
            r.wf(),
            r@ == 0,
    {
        Self { state: 0 }
    }

    /// Encode one input dibit, returning the output pair `(hi, lo)`.
    pub fn encode(&mut self, input: Dibit) -> (r: (Dibit, Dibit))
        requires
            old(self).wf(),
        ensures
            final(self).wf(),
            final(self)@ == input@,
            (r.0@, r.1@) == transition_pair(old(self)@, input@ as nat),
    {
        let next = input.bits() as usize;
        let idx = pair_index_of(self.state, next);
        let (hi, lo) = constellation_pair(idx);
        self.state = next;
        (Dibit::new(hi), Dibit::new(lo))
    }

    /// Flush the encoder with dibit 00, returning the final pair.
    pub fn flush(&mut self) -> (r: (Dibit, Dibit))
        requires
            old(self).wf(),
        ensures
            final(self).wf(),
            final(self)@ == 0,
            (r.0@, r.1@) == transition_pair(old(self)@, 0),
    {
        self.encode(Dibit::new(0b00))
    }

    /// Encode a slice of input dibits, appending a flush symbol.
    ///
    /// Returns all output dibits (2 per input dibit, plus 2 for flush).
    pub fn encode_all(&mut self, input: &[Dibit]) -> (r: Vec<Dibit>)
        requires
            old(self).wf(),
        ensures
            final(self).wf(),
            final(self)@ == 0,
            dibit_values(r@) == encode_seq(old(self)@, dibit_values(input@).push(0)),
    {
        let mut output: Vec<Dibit> = Vec::new();
        let ghost start = self@;
        let mut i: usize = 0;
        proof {
            assert(dibit_values(input@).subrange(0, input@.len() as int) =~= dibit_values(input@));
            assert(dibit_values(output@) =~= Seq::<u8>::empty());
            assert(Seq::<u8>::empty() + encode_seq(start, dibit_values(input@).push(0)) =~= encode_seq(
                start,
                dibit_values(input@).push(0),
            ));
        }
        while i < input.len()
            invariant
                self.wf(),
                i <= input@.len(),
                i > 0 ==> self@ == input@[i - 1]@,
                i == 0 ==> self@ == start,
                dibit_values(output@) + encode_seq(self@, dibit_values(input@).subrange(i as int, input@.len() as int).push(0))
                    == encode_seq(start, dibit_values(input@).push(0)),
            decreases input@.len() - i,
        {
            let ghost before = self@;
            let ghost rest = dibit_values(input@).subrange(i as int, input@.len() as int).push(0);
            let dibit = input[i];
            let (hi, lo) = self.encode(dibit);
            proof {
                assert(rest[0] == dibit@);
                assert(rest.drop_first() =~= dibit_values(input@).subrange(i + 1, input@.len() as int).push(0));
            }
            let ghost out_before = output@;
            output.push(hi);
            output.push(lo);
            proof {
                assert(dibit_values(output@) =~= dibit_values(out_before) + seq![hi@, lo@]);
                let tail = encode_seq(dibit@ as nat, rest.drop_first());
                assert(encode_seq(before, rest) == seq![hi@, lo@] + tail);
                assert(dibit_values(out_before) + (seq![hi@, lo@] + tail) =~= (dibit_values(out_before)
                    + seq![hi@, lo@]) + tail);
            }
            i += 1;
        }
        let ghost before = self@;
        let (hi, lo) = self.flush();
        let ghost out_before = output@;
        output.push(hi);
        output.push(lo);
        proof {
            let rest = dibit_values(input@).subrange(input@.len() as int, input@.len() as int).push(0);
            assert(rest =~= seq![0u8]);
            assert(rest.drop_first() =~= Seq::<u8>::empty());
            assert(dibit_values(output@) =~= dibit_values(out_before) + seq![hi@, lo@]);
            assert(encode_seq(before, rest) == seq![hi@, lo@] + encode_seq(0, rest.drop_first()));
            assert(encode_seq(0, rest.drop_first()) =~= Seq::<u8>::empty());
            assert(dibit_values(out_before) + seq![hi@, lo@] =~= dibit_values(out_before) + encode_seq(before, rest));
        }
        output
    }
}

// ---------------------------------------------------------------------------
// Viterbi decoder
// ---------------------------------------------------------------------------

/// Compute the Hamming distance between two 4-bit edge values.
pub fn hamming_distance(a: u8, b: u8) -> (r: usize)
    ensures
        r == weight((a ^ b) as u32),
        r <= 32,
{
    count_ones((a ^ b) as u32) as usize
}

/// Pack a dibit pair into a 4-bit edge value for distance computation.
pub fn pack_pair(hi: Dibit, lo: Dibit) -> (r: u8)
    ensures
        r == hi@ * 4 + lo@,
{
    let h = hi.bits();
    let l = lo.bits();
    proof {
        crate::p25::bitwise::lemma_pack_dibits(h, l);
    }
    (h << 2) | l
}

/// Path metric sum, saturating at the largest `usize`.
pub open spec fn sat_add(a: usize, b: usize) -> usize {
    if a + b > usize::MAX {
        usize::MAX
    } else {
        (a + b) as usize
    }
}

/// The branch metric: bits differing between the received and expected
/// edge values.
pub open spec fn branch_metric(received_edge: u8, prev: nat, next: nat) -> usize {
    weight((received_edge ^ transition_edge(prev, next)) as u32) as usize
}

/// A survivor path: accumulated metric and the states visited, oldest first.
pub type Survivor = (usize, Seq<nat>);

/// The survivors before any received pair: state 0 with metric 0, the other
/// states with a large metric.
pub open spec fn initial_survivors() -> Seq<Survivor> {
    Seq::new(4, |s: int| (if s == 0 { 0usize } else { usize::MAX / 2 }, seq![s as nat]))
}

/// Total metric of extending survivor `prev` by the transition into `next`.
pub open spec fn extended_metric(paths: Seq<Survivor>, received_edge: u8, prev: nat, next: nat) -> usize {
    sat_add(paths[prev as int].0, branch_metric(received_edge, prev, next))
}

/// The first predecessor state below `k` with the smallest extended
/// metric (with `usize::MAX` standing for "none yet").
pub open spec fn best_prev_below(paths: Seq<Survivor>, received_edge: u8, next: nat, k: nat) -> (nat, usize)
    decreases k,
{
    if k == 0 {
        (0, usize::MAX)
    } else {
        let (p, best) = best_prev_below(paths, received_edge, next, (k - 1) as nat);
        let total = extended_metric(paths, received_edge, (k - 1) as nat, next);
        if total < best {
            ((k - 1) as nat, total)
        } else {
            (p, best)
        }
    }
}

/// The survivor into state `next` after one more received edge.
pub open spec fn step_survivor(paths: Seq<Survivor>, received_edge: u8, next: nat) -> Survivor {
    let (p, best) = best_prev_below(paths, received_edge, next, 4);
    (best, paths[p as int].1.push(next))
}

/// All four survivors after one more received edge.
pub open spec fn step_survivors(paths: Seq<Survivor>, received_edge: u8) -> Seq<Survivor> {
    Seq::new(4, |s: int| step_survivor(paths, received_edge, s as nat))
}

/// The survivors after the first `t` received edges.
pub open spec fn survivors(edges: Seq<u8>, t: nat) -> Seq<Survivor>
    decreases t,
{
    if t == 0 {
        initial_survivors()
    } else {
        step_survivors(survivors(edges, (t - 1) as nat), edges[t - 1])
    }
}

/// The first state below `k` whose survivor has the smallest metric.
pub open spec fn best_final_below(paths: Seq<Survivor>, k: nat) -> nat
    decreases k,
{
    if k <= 1 {
        0
    } else {
        let b = best_final_below(paths, (k - 1) as nat);
        if paths[k - 1].0 < paths[b as int].0 {
            (k - 1) as nat
        } else {
            b
        }
    }
}

/// The received dibits as 49 edge values.
pub open spec fn received_edges(received: Seq<u8>) -> Seq<u8> {
    Seq::new(49, |i: int| (received[2 * i] * 4 + received[2 * i + 1]) as u8)
}

/// The Viterbi decision for 98 received dibit values: the 48 data dibits
/// of the best survivor (the states after each of the first 48 edges).
pub open spec fn viterbi_decode(received: Seq<u8>) -> Seq<u8> {
    let paths = survivors(received_edges(received), 49);
    let history = paths[best_final_below(paths, 4) as int].1;
    Seq::new(48, |i: int| history[i + 1] as u8)
}

/// The message for a received run of the wrong length.
pub open spec fn wrong_length_reason(len: nat) -> Seq<char> {
    "expected 98 dibits, got "@ + decimal(len)
}

/// A Viterbi path through the trellis.
struct Path {
    /// Accumulated Hamming distance (metric).
    distance: usize,
    /// History of states visited (oldest first).
    history: Vec<usize>,
}

/// The model of a path: its metric and visited states.
spec fn path_model(p: Path) -> Survivor {
    (p.distance, p.history@.map_values(|s: usize| s as nat))
}

impl Path {
    fn new(initial_state: usize, initial_distance: usize) -> (r: Self)
        ensures
            path_model(r) == (initial_distance, seq![initial_state as nat]),
    {
        let r = Self { distance: initial_distance, history: vec![initial_state] };
        assert(path_model(r).1 =~= seq![initial_state as nat]);
        r
    }
}

/// Every state in each survivor history is below 4, and the histories
/// after `t` edges have `t + 1` entries.
pub open spec fn survivors_wf(paths: Seq<Survivor>, t: nat) -> bool {
    &&& paths.len() == 4
    &&& forall|s: int| 0 <= s < 4 ==> (#[trigger] paths[s]).1.len() == t + 1
    &&& forall|s: int, i: int| 0 <= s < 4 && 0 <= i < t + 1 ==> (#[trigger] paths[s].1[i]) < 4
}

proof fn lemma_best_prev_below(paths: Seq<Survivor>, received_edge: u8, next: nat, k: nat)
    requires
        k <= 4,
    ensures
        best_prev_below(paths, received_edge, next, k).0 < 4,
        k > 0 ==> best_prev_below(paths, received_edge, next, k).0 < k,
    decreases k,
{
    if k > 0 {
        lemma_best_prev_below(paths, received_edge, next, (k - 1) as nat);
    }
}

proof fn lemma_step_wf(paths: Seq<Survivor>, received_edge: u8, t: nat)
    requires
        survivors_wf(paths, t),
    ensures
        survivors_wf(step_survivors(paths, received_edge), t + 1),
{
    let n = step_survivors(paths, received_edge);
    assert forall|s: int| 0 <= s < 4 implies (#[trigger] n[s]).1.len() == t + 2 by {
        lemma_best_prev_below(paths, received_edge, s as nat, 4);
    }
    assert forall|s: int, i: int| 0 <= s < 4 && 0 <= i < t + 2 implies (#[trigger] n[s].1[i]) < 4 by {
        lemma_best_prev_below(paths, received_edge, s as nat, 4);
        let p = best_prev_below(paths, received_edge, s as nat, 4).0;
        if i < t + 1 {
            assert(paths[p as int].1[i] < 4);
        }
    }
}

proof fn lemma_survivors_wf(edges: Seq<u8>, t: nat)
    ensures
        survivors_wf(survivors(edges, t), t),
    decreases t,
{
    if t == 0 {
        assert(survivors_wf(initial_survivors(), 0));
    } else {
        lemma_survivors_wf(edges, (t - 1) as nat);
        lemma_step_wf(survivors(edges, (t - 1) as nat), edges[t - 1], (t - 1) as nat);
    }
}

proof fn lemma_best_final_below(paths: Seq<Survivor>, k: nat)
    requires
        1 <= k <= 4,
    ensures
        best_final_below(paths, k) < k,
    decreases k,
{
    if k > 1 {
        lemma_best_final_below(paths, (k - 1) as nat);
    }
}

/// Half-rate trellis decoder using the Viterbi algorithm.
///
/// Decodes 98 received dibits (49 pairs) into 48 data dibits plus one
/// flushing dibit (which is discarded).
pub fn decode(received: &[Dibit]) -> (r: Result<Vec<Dibit>, P25Error>)
    ensures
        received@.len() != 98 ==> (r matches Err(P25Error::TrellisDecode { reason }) && reason@
            == wrong_length_reason(received@.len())),
        received@.len() == 98 ==> (r matches Ok(v) && dibit_values(v@) == viterbi_decode(
            dibit_values(received@),
        )),
{
    if received.len() != 98 {
        let mut reason = String::from_str("expected 98 dibits, got ");
        push_decimal(&mut reason, received.len() as u64);
        return Err(P25Error::TrellisDecode { reason });
    }
    let ghost rx = dibit_values(received@);
    let ghost edges = received_edges(rx);

    // Initialize paths: state 0 starts with distance 0, others with max
    let mut paths: Vec<Path> = Vec::new();
    let mut s: usize = 0;
    while s < NUM_STATES
        invariant
            s <= 4,
            paths@.len() == s,
            forall|j: int| 0 <= j < s ==> path_model(#[trigger] paths@[j]) == initial_survivors()[j],
        decreases 4 - s,
    {
        paths.push(Path::new(s, if s == 0 { 0 } else { usize::MAX / 2 }));
        s += 1;
    }
    proof {
        assert(paths@.map_values(|p: Path| path_model(p)) =~= survivors(edges, 0));
        lemma_survivors_wf(edges, 0);
    }

    // Process 49 pairs of received dibits
    let mut pair_idx: usize = 0;
    while pair_idx < 49
        invariant
            pair_idx <= 49,
            received@.len() == 98,
            rx == dibit_values(received@),
            edges == received_edges(rx),
            paths@.len() == 4,
            paths@.map_values(|p: Path| path_model(p)) == survivors(edges, pair_idx as nat),
            survivors_wf(survivors(edges, pair_idx as nat), pair_idx as nat),
        decreases 49 - pair_idx,
    {
        let received_edge = pack_pair(received[pair_idx * 2], received[pair_idx * 2 + 1]);
        proof {
            assert(rx[2 * pair_idx as int] == received@[pair_idx * 2]@);
            assert(rx[2 * pair_idx + 1] == received@[pair_idx * 2 + 1]@);
            assert(edges[pair_idx as int] == received_edge);
        }

        let mut new_paths: Vec<Path> = Vec::new();
        let mut next_state: usize = 0;
        while next_state < NUM_STATES
            invariant
                next_state <= 4,
                paths@.len() == 4,
                new_paths@.len() == next_state,
                paths@.map_values(|p: Path| path_model(p)) == survivors(edges, pair_idx as nat),
                forall|j: int| 0 <= j < next_state ==> path_model(#[trigger] new_paths@[j])
                    == step_survivor(survivors(edges, pair_idx as nat), received_edge, j as nat),
            decreases 4 - next_state,
        {
            let best = find_best_predecessor(&paths, next_state, received_edge);
            new_paths.push(best);
            next_state += 1;
        }
        proof {
            assert(new_paths@.map_values(|p: Path| path_model(p)) =~= step_survivors(
                survivors(edges, pair_idx as nat),
                received_edge,
            ));
            lemma_step_wf(survivors(edges, pair_idx as nat), received_edge, pair_idx as nat);
        }
        paths = new_paths;
        pair_idx += 1;
    }

    // Find the path with minimum distance (the first one on ties).
    let ghost model = survivors(edges, 49);
    let mut best: usize = 0;
    let mut k: usize = 1;
    while k < NUM_STATES
        invariant
            1 <= k <= 4,
            paths@.len() == 4,
            paths@.map_values(|p: Path| path_model(p)) == model,
            best == best_final_below(model, k as nat),
            best < k,
        decreases 4 - k,
    {
        proof {
            assert(path_model(paths@[k as int]) == model[k as int]);
            assert(path_model(paths@[best as int]) == model[best as int]);
        }
        if paths[k].distance < paths[best].distance {
            best = k;
        }
        k += 1;
    }

    // Extract decoded dibits from state transitions in history: the input
    // dibit at each step is the state entered, so skip the initial state
    // and drop the final flush symbol.
    let history = &paths[best].history;
    proof {
        assert(path_model(paths@[best as int]) == model[best as int]);
        assert(history@.len() == 50);
    }
    let mut decoded: Vec<Dibit> = Vec::new();
    let mut i: usize = 1;
    while i < 49
        invariant
            1 <= i <= 49,
            history@.len() == 50,
            model[best as int].1 == history@.map_values(|s: usize| s as nat),
            forall|j: int| 0 <= j < 50 ==> #[trigger] model[best as int].1[j] < 4,
            decoded@.len() == i - 1,
            forall|j: int| 0 <= j < i - 1 ==> (#[trigger] decoded@[j])@ == model[best as int].1[j + 1]
                as u8,
        decreases 49 - i,
    {
        let state = history[i];
        proof {
            assert(model[best as int].1[i as int] == state as nat);
            assert(state < 4);
        }
        decoded.push(Dibit::new(state as u8));
        i += 1;
    }
    proof {
        assert(dibit_values(decoded@) =~= viterbi_decode(rx));
    }
    Ok(decoded)
}

/// Find the best predecessor state for a transition to `next_state`.
fn find_best_predecessor(paths: &Vec<Path>, next_state: usize, received_edge: u8) -> (r: Path)
    requires
        paths@.len() == 4,
        next_state < 4,
    ensures
        path_model(r) == step_survivor(paths@.map_values(|p: Path| path_model(p)), received_edge, next_state as nat),
{
    let ghost model = paths@.map_values(|p: Path| path_model(p));
    let mut best_distance = usize::MAX;
    let mut best_prev: usize = 0;

    let mut prev_state: usize = 0;
    while prev_state < NUM_STATES
        invariant
            prev_state <= 4,
            paths@.len() == 4,
            next_state < 4,
            model == paths@.map_values(|p: Path| path_model(p)),
            (best_prev as nat, best_distance) == best_prev_below(model, received_edge, next_state as nat, prev_state as nat),
        decreases 4 - prev_state,
    {
        let idx = pair_index_of(prev_state, next_state);
        let (hi, lo) = constellation_pair(idx);
        let expected_edge = (hi << 2) | lo;
        proof {
            crate::p25::bitwise::lemma_pack_dibits(hi, lo);
        }
        let dist = hamming_distance(received_edge, expected_edge);

        let total = paths[prev_state].distance.saturating_add(dist);
        proof {
            assert(path_model(paths@[prev_state as int]) == model[prev_state as int]);
        }
        if total < best_distance {
            best_distance = total;
            best_prev = prev_state;
        }
        prev_state += 1;
    }

    proof {
        lemma_best_prev_below(model, received_edge, next_state as nat, 4);
        assert(path_model(paths@[best_prev as int]) == model[best_prev as int]);
    }
    let mut history = copy_states(&paths[best_prev].history);
    history.push(next_state);
    let r = Path { distance: best_distance, history };
    assert(path_model(r).1 =~= model[best_prev as int].1.push(next_state as nat));
    r
}

/// A copy of a state history.
fn copy_states(v: &Vec<usize>) -> (r: Vec<usize>)
    ensures
        r@ == v@,
{
    let mut out: Vec<usize> = Vec::new();
    let mut i: usize = 0;
    while i < v.len()
        invariant
            i <= v@.len(),
            out@ == v@.subrange(0, i as int),
        decreases v@.len() - i,
    {
        out.push(v[i]);
        i += 1;
        assert(out@ =~= v@.subrange(0, i as int));
    }
    assert(v@.subrange(0, v@.len() as int) =~= v@);
    out
}

// ---------------------------------------------------------------------------
// Decoding a clean signal
// ---------------------------------------------------------------------------

/// The state before input `i` of a run encoded from `state`: the start
/// state, then each input in turn.
pub open spec fn state_before(state: nat, input: Seq<u8>, i: nat) -> nat {
    if i == 0 {
        state
    } else {
        input[i - 1] as nat
    }
}

/// The encoder emits two dibits per input: the pair of the transition into
/// each input from the state before it.
pub proof fn lemma_encode_seq(state: nat, input: Seq<u8>)
    ensures
        encode_seq(state, input).len() == 2 * input.len(),
        forall|i: nat| #![trigger input[i as int]] i < input.len() ==> {
            &&& encode_seq(state, input)[(2 * i) as int] == transition_pair(state_before(state, input, i), input[i as int] as nat).0
            &&& encode_seq(state, input)[(2 * i + 1) as int] == transition_pair(state_before(state, input, i), input[i as int] as nat).1
        },
    decreases input.len(),
{
    if input.len() > 0 {
        let rest = input.drop_first();
        let first = input[0] as nat;
        lemma_encode_seq(first, rest);
        let pair = transition_pair(state, first);
        let e = encode_seq(state, input);
        assert(e == seq![pair.0, pair.1] + encode_seq(first, rest));
        assert forall|i: nat| #![trigger input[i as int]] i < input.len() implies {
            &&& e[(2 * i) as int] == transition_pair(state_before(state, input, i), input[i as int] as nat).0
            &&& e[(2 * i + 1) as int] == transition_pair(state_before(state, input, i), input[i as int] as nat).1
        } by {
            if i > 0 {
                let k = (i - 1) as nat;
                assert(rest[k as int] == input[i as int]);
                assert(state_before(first, rest, k) == state_before(state, input, i));
                assert(e[(2 * i) as int] == encode_seq(first, rest)[(2 * k) as int]);
                assert(e[(2 * i + 1) as int] == encode_seq(first, rest)[(2 * k + 1) as int]);
            }
        }
    }
}

/// Distinct transitions have distinct edge values.
proof fn lemma_edge_injective(p1: nat, n1: nat, p2: nat, n2: nat)
    requires
        p1 < 4,
        n1 < 4,
        p2 < 4,
        n2 < 4,
        transition_edge(p1, n1) == transition_edge(p2, n2),
    ensures
        p1 == p2,
        n1 == n2,
{
    assert(pair_index(p1, n1) == pair_index(p2, n2));
}

/// A word has at most `n` set bits below bit `n`.
proof fn lemma_ones_bound(x: u32, n: nat)
    ensures
        crate::p25::coding::golay::ones(x, n) <= n,
    decreases n,
{
    if n > 0 {
        lemma_ones_bound(x, (n - 1) as nat);
    }
}

/// The branch metric vanishes exactly on the transition the received edge
/// encodes.
proof fn lemma_branch_metric(a: nat, b: nat, p: nat, n: nat)
    requires
        a < 4,
        b < 4,
        p < 4,
        n < 4,
    ensures
        (branch_metric(transition_edge(a, b), p, n) == 0) == (p == a && n == b),
{
    let e = transition_edge(a, b);
    let t = transition_edge(p, n);
    let x = e ^ t;
    crate::p25::bitwise::lemma_xor_u8(e, t, t);
    crate::p25::bitwise::lemma_xor_u8(t, t, t);
    lemma_edge_bits(0, e, t, 0, 0, 0, 0, 0, 0);
    crate::p25::coding::golay::lemma_count_ones(x as u32, 32);
    if branch_metric(e, p, n) == 0 {
        assert(e == t);
        lemma_edge_injective(a, b, p, n);
    }
    if p == a && n == b {
        crate::p25::coding::golay::lemma_ones_zero(32);
    }
}

/// The survivors of a clean signal whose first `t` states after the start
/// are `states[1..=t]`: the survivor into the current state has metric 0
/// and the visited states as its history; every other has metric 1 or more.
pub open spec fn clean_survivors(paths: Seq<Survivor>, states: Seq<nat>, t: nat) -> bool {
    &&& paths.len() == 4
    &&& paths[states[t as int] as int].0 == 0
    &&& paths[states[t as int] as int].1 == states.subrange(0, (t + 1) as int)
    &&& forall|s: int| 0 <= s < 4 && s != states[t as int] ==> (#[trigger] paths[s]).0 >= 1
}

/// The best predecessor into `next`: among the first `k` states, the one
/// that the received edge names, if it lies among them, with metric 0;
/// otherwise a metric of 1 or more.
proof fn lemma_best_prev_clean(paths: Seq<Survivor>, a: nat, b: nat, next: nat, k: nat)
    requires
        k <= 4,
        a < 4,
        b < 4,
        next < 4,
        paths.len() == 4,
        paths[a as int].0 == 0,
        forall|s: int| 0 <= s < 4 && s != a ==> (#[trigger] paths[s]).0 >= 1,
    ensures
        next == b && a < k ==> best_prev_below(paths, transition_edge(a, b), next, k) == (a, 0usize),
        !(next == b && a < k) ==> best_prev_below(paths, transition_edge(a, b), next, k).1 >= 1,
    decreases k,
{
    let e = transition_edge(a, b);
    if k > 0 {
        let p = (k - 1) as nat;
        lemma_best_prev_clean(paths, a, b, next, p);
        lemma_branch_metric(a, b, p, next);
        let total = extended_metric(paths, e, p, next);
        if p == a && next == b {
            assert(total == 0);
        } else {
            assert(total >= 1);
        }
    }
}

/// One step of a clean signal keeps the survivors clean.
proof fn lemma_clean_step(paths: Seq<Survivor>, states: Seq<nat>, t: nat)
    requires
        t + 1 < states.len(),
        forall|i: int| 0 <= i < states.len() ==> #[trigger] states[i] < 4,
        clean_survivors(paths, states, t),
    ensures
        clean_survivors(
            step_survivors(paths, transition_edge(states[t as int], states[(t + 1) as int])),
            states,
            t + 1,
        ),
{
    let a = states[t as int];
    let b = states[(t + 1) as int];
    let e = transition_edge(a, b);
    let n = step_survivors(paths, e);
    lemma_best_prev_clean(paths, a, b, b, 4);
    assert(n[b as int] == step_survivor(paths, e, b));
    assert(paths[a as int].1.push(b) =~= states.subrange(0, (t + 2) as int));
    assert forall|s: int| 0 <= s < 4 && s != b implies (#[trigger] n[s]).0 >= 1 by {
        lemma_best_prev_clean(paths, a, b, s as nat, 4);
    }
}

/// Survivors after `t` edges of a clean signal are clean.
proof fn lemma_clean_survivors(states: Seq<nat>, edges: Seq<u8>, t: nat)
    requires
        t < states.len(),
        states[0] == 0,
        forall|i: int| 0 <= i < states.len() ==> #[trigger] states[i] < 4,
        forall|i: int| 0 <= i < t ==> #[trigger] edges[i] == transition_edge(states[i], states[i + 1]),
    ensures
        clean_survivors(survivors(edges, t), states, t),
    decreases t,
{
    if t == 0 {
        assert(initial_survivors()[0].1 =~= states.subrange(0, 1));
    } else {
        lemma_clean_survivors(states, edges, (t - 1) as nat);
        lemma_clean_step(survivors(edges, (t - 1) as nat), states, (t - 1) as nat);
    }
}

/// The best final state is the only one with metric 0.
proof fn lemma_best_final_clean(paths: Seq<Survivor>, z: nat, k: nat)
    requires
        1 <= k <= 4,
        z < 4,
        paths.len() == 4,
        paths[z as int].0 == 0,
        forall|s: int| 0 <= s < 4 && s != z ==> (#[trigger] paths[s]).0 >= 1,
    ensures
        z < k ==> best_final_below(paths, k) == z,
        best_final_below(paths, k) < k,
        z >= k ==> paths[best_final_below(paths, k) as int].0 >= 1,
    decreases k,
{
    if k > 1 {
        lemma_best_final_clean(paths, z, (k - 1) as nat);
    }
}

/// Decoding a clean signal gives back its data: for 48 data dibits followed
/// by the flushing dibit 0, the Viterbi decision over the encoder's 98
/// output dibits is the data.
pub proof fn lemma_clean_roundtrip(data: Seq<u8>)
    requires
        data.len() == 48,
        forall|i: int| 0 <= i < 48 ==> #[trigger] data[i] < 4,
    ensures
        viterbi_decode(encode_seq(0, data.push(0))) == data,
{
    let input = data.push(0);
    let rx = encode_seq(0, input);
    lemma_encode_seq(0, input);
    let edges = received_edges(rx);
    // The states of the clean run: the start state, then each input.
    let states = Seq::new(50, |i: int| if i == 0 { 0nat } else { input[i - 1] as nat });
    assert forall|i: int| 0 <= i < 50 implies #[trigger] states[i] < 4 by {
        if i > 0 {
            assert(input[i - 1] < 4);
        }
    }
    assert forall|i: int| 0 <= i < 49 implies #[trigger] edges[i] == transition_edge(states[i], states[i + 1]) by {
        let k = i as nat;
        assert(input[k as int] == input[i]);
        assert(state_before(0, input, k) == states[i]);
        assert(rx[(2 * k) as int] == transition_pair(states[i], states[i + 1]).0);
        assert(rx[(2 * k + 1) as int] == transition_pair(states[i], states[i + 1]).1);
    }
    lemma_clean_survivors(states, edges, 49);
    let paths = survivors(edges, 49);
    lemma_best_final_clean(paths, states[49], 4);
    let history = paths[best_final_below(paths, 4) as int].1;
    assert(history == states.subrange(0, 50));
    assert(viterbi_decode(rx) =~= data);
}

// ---------------------------------------------------------------------------
// Correction of a single bit error
// ---------------------------------------------------------------------------

/// The metric at which a path of states starts: 0 from state 0, half the
/// largest `usize` from any other state.
pub open spec fn start_cost(s: nat) -> int {
    if s == 0 {
        0
    } else {
        (usize::MAX / 2) as int
    }
}

/// The metric of the path of states `h` over the first `t` received edges:
/// its start cost plus the branch metric of each of its transitions.
pub open spec fn path_cost(h: Seq<nat>, edges: Seq<u8>, t: nat) -> int
    decreases t,
{
    if t == 0 {
        start_cost(h[0])
    } else {
        path_cost(h, edges, (t - 1) as nat) + branch_metric(edges[t - 1], h[t - 1], h[t as int]) as int
    }
}

/// A path of at least `t + 1` states, each below 4.
pub open spec fn valid_path(h: Seq<nat>, t: nat) -> bool {
    &&& h.len() >= t + 1
    &&& forall|i: int| 0 <= i <= t ==> #[trigger] h[i] < 4
}

/// The survivors after `t` edges are optimal: each ends in its own state,
/// its metric is the metric of its history, and no path into that state
/// has a smaller metric.
pub open spec fn optimal_survivors(paths: Seq<Survivor>, edges: Seq<u8>, t: nat) -> bool {
    &&& survivors_wf(paths, t)
    &&& forall|s: int| 0 <= s < 4 ==> (#[trigger] paths[s]).1[t as int] == s
    &&& forall|s: int| 0 <= s < 4 ==> (#[trigger] paths[s]).0 as int == path_cost(paths[s].1, edges, t)
    &&& forall|s: int| 0 <= s < 4 ==> (#[trigger] paths[s]).0 <= usize::MAX / 2 + 32 * t
    &&& forall|q: Seq<nat>| valid_path(q, t) ==> paths[q[t as int] as int].0 <= #[trigger] path_cost(q, edges, t)
}

/// A branch metric counts at most 32 bits.
proof fn lemma_branch_bound(e: u8, p: nat, n: nat)
    ensures
        branch_metric(e, p, n) <= 32,
{
    lemma_ones_bound((e ^ transition_edge(p, n)) as u32, 32);
}

/// The metric of a path over `t` edges depends only on its first `t + 1`
/// states.
proof fn lemma_cost_prefix(h: Seq<nat>, g: Seq<nat>, edges: Seq<u8>, t: nat)
    requires
        h.len() >= t + 1,
        g.len() >= t + 1,
        forall|i: int| 0 <= i <= t ==> h[i] == g[i],
    ensures
        path_cost(h, edges, t) == path_cost(g, edges, t),
    decreases t,
{
    if t > 0 {
        lemma_cost_prefix(h, g, edges, (t - 1) as nat);
        assert(h[t - 1] == g[t - 1] && h[t as int] == g[t as int]);
    }
}

/// Metrics only grow along a path, from its start cost on.
proof fn lemma_cost_grows(h: Seq<nat>, edges: Seq<u8>, a: nat, b: nat)
    requires
        a <= b,
    ensures
        path_cost(h, edges, a) <= path_cost(h, edges, b),
        start_cost(h[0]) <= path_cost(h, edges, b),
    decreases b,
{
    if b > 0 {
        lemma_cost_grows(h, edges, if a == b { (b - 1) as nat } else { a }, (b - 1) as nat);
    }
}

/// With metrics far below the largest `usize`, the best predecessor among
/// the first `k` states has the smallest extended metric, without
/// saturation.
proof fn lemma_best_prev_min(paths: Seq<Survivor>, e: u8, next: nat, k: nat)
    requires
        1 <= k <= 4,
        paths.len() == 4,
        forall|s: int| 0 <= s < 4 ==> (#[trigger] paths[s]).0 <= usize::MAX / 2 + 32 * 49,
    ensures
        best_prev_below(paths, e, next, k).0 < k,
        best_prev_below(paths, e, next, k).1 as int == paths[best_prev_below(paths, e, next, k).0 as int].0
            + branch_metric(e, best_prev_below(paths, e, next, k).0, next),
        forall|p: nat| p < k ==> best_prev_below(paths, e, next, k).1 as int <= paths[p as int].0 + branch_metric(
            e,
            p,
            next,
        ),
    decreases k,
{
    let p = (k - 1) as nat;
    lemma_branch_bound(e, p, next);
    assert(paths[p as int].0 <= usize::MAX / 2 + 32 * 49);
    if k > 1 {
        lemma_best_prev_min(paths, e, next, p);
        let prev = best_prev_below(paths, e, next, p);
        assert forall|q: nat| q < k implies best_prev_below(paths, e, next, k).1 as int <= paths[q as int].0
            + branch_metric(e, q, next) by {
            if q < p {
            }
        }
    }
}

/// The survivors before any edge are optimal.
proof fn lemma_optimal_start(edges: Seq<u8>)
    ensures
        optimal_survivors(initial_survivors(), edges, 0),
{
    let paths = initial_survivors();
    assert(survivors_wf(paths, 0));
    assert forall|q: Seq<nat>| valid_path(q, 0) implies paths[q[0] as int].0 <= #[trigger] path_cost(q, edges, 0) by {
        assert(q[0] < 4);
    }
}

/// One Viterbi step keeps the survivors optimal.
proof fn lemma_optimal_step(paths: Seq<Survivor>, edges: Seq<u8>, t: nat)
    requires
        t < 49,
        optimal_survivors(paths, edges, t),
    ensures
        optimal_survivors(step_survivors(paths, edges[t as int]), edges, t + 1),
{
    let e = edges[t as int];
    let n = step_survivors(paths, e);
    lemma_step_wf(paths, e, t);
    assert forall|s: int| 0 <= s < 4 implies (#[trigger] paths[s]).0 <= usize::MAX / 2 + 32 * 49 by {
        assert(paths[s].0 <= usize::MAX / 2 + 32 * t);
    }
    assert forall|s: int| 0 <= s < 4 implies {
        &&& (#[trigger] n[s]).1[(t + 1) as int] == s
        &&& n[s].0 as int == path_cost(n[s].1, edges, t + 1)
        &&& n[s].0 <= usize::MAX / 2 + 32 * (t + 1)
    } by {
        lemma_best_prev_min(paths, e, s as nat, 4);
        let p = best_prev_below(paths, e, s as nat, 4).0;
        let h = paths[p as int].1;
        let g = h.push(s as nat);
        assert(n[s] == (best_prev_below(paths, e, s as nat, 4).1, g));
        lemma_cost_prefix(h, g, edges, t);
        assert(g[t as int] == p);
        lemma_branch_bound(e, p, s as nat);
    }
    assert forall|q: Seq<nat>| valid_path(q, t + 1) implies n[q[(t + 1) as int] as int].0 <= #[trigger] path_cost(
        q,
        edges,
        t + 1,
    ) by {
        let s = q[(t + 1) as int];
        let pq = q[t as int];
        assert(valid_path(q, t));
        assert(paths[pq as int].0 <= path_cost(q, edges, t));
        lemma_best_prev_min(paths, e, s, 4);
        assert(n[s as int] == step_survivor(paths, e, s));
    }
}

/// The survivors after each of the first 49 edges are optimal.
proof fn lemma_optimal_survivors(edges: Seq<u8>, t: nat)
    requires
        t <= 49,
    ensures
        optimal_survivors(survivors(edges, t), edges, t),
    decreases t,
{
    if t == 0 {
        lemma_optimal_start(edges);
    } else {
        lemma_optimal_survivors(edges, (t - 1) as nat);
        lemma_optimal_step(survivors(edges, (t - 1) as nat), edges, (t - 1) as nat);
    }
}

/// The best final state has the smallest metric among the first `k`.
proof fn lemma_best_final_min(paths: Seq<Survivor>, k: nat)
    requires
        1 <= k <= 4,
    ensures
        forall|s: nat| s < k ==> paths[best_final_below(paths, k) as int].0 <= #[trigger] paths[s as int].0,
    decreases k,
{
    if k > 1 {
        lemma_best_final_min(paths, (k - 1) as nat);
    }
}

/// The edge value of each transition, written out.
spec fn edge_value(p: u8, n: u8) -> u8 {
    if p == 0 {
        if n == 0 { 2 } else if n == 1 { 12 } else if n == 2 { 1 } else { 15 }
    } else if p == 1 {
        if n == 0 { 14 } else if n == 1 { 0 } else if n == 2 { 13 } else { 3 }
    } else if p == 2 {
        if n == 0 { 9 } else if n == 1 { 7 } else if n == 2 { 10 } else { 4 }
    } else {
        if n == 0 { 5 } else if n == 1 { 11 } else if n == 2 { 6 } else { 8 }
    }
}

/// The written-out edge values agree with the constellation table.
proof fn lemma_edge_value(p: nat, n: nat)
    requires
        p < 4,
        n < 4,
    ensures
        transition_edge(p, n) == edge_value(p as u8, n as u8),
{
}

/// Bit counts of edge values: a triangle inequality; two transitions out
/// of one state differ in two bits or more; distinct values differ in a
/// bit; flipping one bit of one dibit of an edge changes one bit.
proof fn lemma_edge_bits(r: u8, x: u8, t: u8, p: u8, n1: u8, n2: u8, a: u8, c: u8, m: u8)
    by (bit_vector)
    ensures
        count((r ^ x) as u32, 32) + count((r ^ t) as u32, 32) >= count((t ^ x) as u32, 32),
        t != x ==> count((t ^ x) as u32, 32) >= 1,
        r ^ r == 0,
        count(0u32, 32) == 0,
        (p < 4 && n1 < 4 && n2 < 4 && n1 != n2) ==> count((edge_value(p, n1) ^ edge_value(p, n2)) as u32, 32) >= 2,
        (a < 4 && c < 4 && (m == 0 || m == 1 || m == 2)) ==> (count(((((a ^ m) * 4 + c) as u8) ^ ((a * 4 + c) as u8)) as u32, 32) <= 1
            && count((((a * 4 + (c ^ m)) as u8) ^ ((a * 4 + c) as u8)) as u32, 32) <= 1),
{
}

/// A path that leaves the true state sequence `states` somewhere among
/// the data states 1 to 48 leaves it first at some `j0`, coming from a
/// true state.
proof fn lemma_first_diff(q: Seq<nat>, states: Seq<nat>, j: nat) -> (j0: nat)
    requires
        q.len() >= 50,
        states.len() == 50,
        q[0] == states[0],
        1 <= j <= 48,
        q[j as int] != states[j as int],
    ensures
        1 <= j0 <= j,
        q[j0 as int] != states[j0 as int],
        q[j0 - 1] == states[j0 - 1],
    decreases j,
{
    if q[j - 1] == states[j - 1] {
        j
    } else {
        lemma_first_diff(q, states, (j - 1) as nat)
    }
}

/// A path from state 0 that leaves the true states at data state `j0`
/// costs at least 2 against received edges with at most one flipped bit,
/// on edge `k`: the edge out of the true state costs at least 2 minus the
/// error there, the next edge at least 1 minus the error there.
proof fn lemma_wrong_path_cost(q: Seq<nat>, states: Seq<nat>, r: Seq<u8>, ce: Seq<u8>, k: nat, j0: nat)
    requires
        valid_path(q, 49),
        q[0] == 0,
        states.len() == 50,
        forall|i: int| 0 <= i < 50 ==> #[trigger] states[i] < 4,
        ce.len() == 49,
        r.len() == 49,
        forall|i: int| 0 <= i < 49 ==> #[trigger] ce[i] == transition_edge(states[i], states[i + 1]),
        forall|i: int| 0 <= i < 49 && i != k ==> #[trigger] weight((r[i] ^ ce[i]) as u32) == 0,
        k < 49 ==> weight((r[k as int] ^ ce[k as int]) as u32) <= 1,
        1 <= j0 <= 48,
        q[j0 as int] != states[j0 as int],
        q[j0 - 1] == states[j0 - 1],
    ensures
        path_cost(q, r, 49) >= 2,
{
    let i1 = (j0 - 1) as int;
    let i2 = j0 as int;
    lemma_cost_grows(q, r, (j0 + 1) as nat, 49);
    lemma_cost_grows(q, r, 0, (j0 - 1) as nat);
    assert(path_cost(q, r, j0) == path_cost(q, r, (j0 - 1) as nat) + branch_metric(r[i1], q[i1], q[i2]));
    assert(path_cost(q, r, (j0 + 1) as nat) == path_cost(q, r, j0) + branch_metric(r[i2], q[i2], q[i2 + 1]));
    let p = states[i1];
    let e1 = transition_edge(p, q[i2]);
    let e2 = transition_edge(q[i2], q[i2 + 1]);
    assert(q[i2] < 4 && q[i2 + 1] < 4);
    lemma_edge_value(p, states[i2]);
    lemma_edge_value(p, q[i2]);
    lemma_edge_bits(r[i1], e1, ce[i1], p as u8, states[i2] as u8, q[i2] as u8, 0, 0, 0);
    lemma_edge_bits(r[i2], e2, ce[i2], 0, 0, 0, 0, 0, 0);
    if e2 == ce[i2] {
        lemma_edge_injective(q[i2], q[i2 + 1], states[i2], states[i2 + 1]);
    }
    crate::p25::coding::golay::lemma_count_ones((r[i1] ^ e1) as u32, 32);
    crate::p25::coding::golay::lemma_count_ones((r[i1] ^ ce[i1]) as u32, 32);
    crate::p25::coding::golay::lemma_count_ones((ce[i1] ^ e1) as u32, 32);
    crate::p25::coding::golay::lemma_count_ones((r[i2] ^ e2) as u32, 32);
    crate::p25::coding::golay::lemma_count_ones((r[i2] ^ ce[i2]) as u32, 32);
    crate::p25::coding::golay::lemma_count_ones((ce[i2] ^ e2) as u32, 32);
    assert(branch_metric(r[i1], q[i1], q[i2]) == weight((r[i1] ^ e1) as u32));
    assert(branch_metric(r[i2], q[i2], q[i2 + 1]) == weight((r[i2] ^ e2) as u32));
    assert(weight((ce[i1] ^ e1) as u32) >= 2);
    assert(weight((ce[i2] ^ e2) as u32) >= 1);
    assert(weight((r[i1] ^ ce[i1]) as u32) + weight((r[i2] ^ ce[i2]) as u32) <= 1);
}

/// A single flipped bit is corrected: for 48 data dibits followed by the
/// flushing dibit 0, flipping one bit (`m` of 1 or 2; 0 for none) of any
/// one of the encoder's 98 output dibits still decodes to the data.
pub proof fn lemma_single_error(data: Seq<u8>, j: nat, m: u8)
    requires
        data.len() == 48,
        forall|i: int| 0 <= i < 48 ==> #[trigger] data[i] < 4,
        j < 98,
        m == 0 || m == 1 || m == 2,
    ensures
        viterbi_decode(
            encode_seq(0, data.push(0)).update(j as int, encode_seq(0, data.push(0))[j as int] ^ m),
        ) == data,
{
    let input = data.push(0);
    let rx = encode_seq(0, input);
    let received = rx.update(j as int, rx[j as int] ^ m);
    lemma_encode_seq(0, input);
    let ce = received_edges(rx);
    let r = received_edges(received);
    let states = Seq::new(50, |i: int| if i == 0 { 0nat } else { input[i - 1] as nat });
    assert forall|i: int| 0 <= i < 50 implies #[trigger] states[i] < 4 by {
        if i > 0 {
            assert(input[i - 1] < 4);
        }
    }
    assert forall|i: int| 0 <= i < 49 implies #[trigger] ce[i] == transition_edge(states[i], states[i + 1]) by {
        let k = i as nat;
        assert(input[k as int] == input[i]);
        assert(state_before(0, input, k) == states[i]);
        assert(rx[(2 * k) as int] == transition_pair(states[i], states[i + 1]).0);
        assert(rx[(2 * k + 1) as int] == transition_pair(states[i], states[i + 1]).1);
    }
    // The received edges differ from the clean ones only on edge j / 2, in
    // at most one bit.
    let k: nat = j / 2;
    let ki = k as int;
    assert forall|i: int| 0 <= i < 49 && i != k implies #[trigger] weight((r[i] ^ ce[i]) as u32) == 0 by {
        assert(received[2 * i] == rx[2 * i] && received[2 * i + 1] == rx[2 * i + 1]);
        lemma_edge_bits(r[i], 0, 0, 0, 0, 0, 0, 0, 0);
        crate::p25::coding::golay::lemma_count_ones(0u32, 32);
    }
    assert(weight((r[k as int] ^ ce[k as int]) as u32) <= 1) by {
        let a = rx[2 * ki];
        let c = rx[2 * ki + 1];
        assert(a == transition_pair(states[ki], states[ki + 1]).0);
        assert(c == transition_pair(states[ki], states[ki + 1]).1);
        assert(a < 4 && c < 4);
        lemma_edge_bits(0, 0, 0, 0, 0, 0, a, c, m);
        crate::p25::coding::golay::lemma_count_ones((r[k as int] ^ ce[k as int]) as u32, 32);
        if j % 2 == 0 {
            assert(j == 2 * k);
            assert(received[2 * ki] == a ^ m && received[2 * ki + 1] == c);
        } else {
            assert(j == 2 * k + 1);
            assert(received[2 * ki] == a && received[2 * ki + 1] == c ^ m);
        }
    }
    // The Viterbi survivors are optimal; the true path costs at most 1.
    lemma_optimal_survivors(r, 49);
    let paths = survivors(r, 49);
    assert(path_cost(states, r, 49) <= 1) by {
        lemma_true_path_cost(states, r, ce, k, 49);
    }
    assert(valid_path(states, 49));
    lemma_best_final_below(paths, 4);
    lemma_best_final_min(paths, 4);
    let b = best_final_below(paths, 4);
    assert(paths[b as int].0 <= paths[states[49] as int].0);
    let h = paths[b as int].1;
    assert(valid_path(h, 49));
    lemma_cost_grows(h, r, 0, 49);
    assert(h[0] == 0);
    assert forall|jj: int| 1 <= jj <= 48 implies #[trigger] h[jj] == states[jj] by {
        if h[jj] != states[jj] {
            let j0 = lemma_first_diff(h, states, jj as nat);
            lemma_wrong_path_cost(h, states, r, ce, k, j0);
        }
    }
    assert(viterbi_decode(received) =~= data) by {
        assert forall|i: int| 0 <= i < 48 implies #[trigger] viterbi_decode(received)[i] == data[i] by {
            assert(h[i + 1] == states[i + 1]);
            assert(input[i] == data[i]);
        }
    }
}

/// Along the true states, the metric counts the flipped bits of the edges
/// passed: at most the one on edge `k`.
proof fn lemma_true_path_cost(states: Seq<nat>, r: Seq<u8>, ce: Seq<u8>, k: nat, t: nat)
    requires
        t <= 49,
        states.len() == 50,
        states[0] == 0,
        forall|i: int| 0 <= i < 49 ==> #[trigger] ce[i] == transition_edge(states[i], states[i + 1]),
        forall|i: int| 0 <= i < 49 && i != k ==> #[trigger] weight((r[i] ^ ce[i]) as u32) == 0,
        k < 49 ==> weight((r[k as int] ^ ce[k as int]) as u32) <= 1,
    ensures
        path_cost(states, r, t) <= (if t > k { 1int } else { 0int }),
    decreases t,
{
    if t > 0 {
        lemma_true_path_cost(states, r, ce, k, (t - 1) as nat);
        let i = (t - 1) as int;
        assert(branch_metric(r[i], states[i], states[i + 1]) == weight((r[i] ^ ce[i]) as u32));
    }
}

} // verus!
