//! Channel identifier table for frequency resolution.
//!
//! P25 systems use logical channel numbers (16-bit values) in channel grant
//! messages. To determine the actual RF frequency, the decoder must maintain
//! a table of identifier entries populated from IDEN_UP TSBK messages.
//!
//! The upper 4 bits of a channel ID select an entry from this table, and
//! the lower 12 bits are the channel number. The frequency is computed as:
//!
//! ```text
//! frequency = base_freq + (channel_spacing * channel_number)
//! ```
//!
//! Reference: TIA-102.AABF-A Section 7.2.31

use std::collections::HashMap;
use vstd::prelude::*;
use crate::p25::types::{ChannelId, ChannelIdentifier, Frequency};

verus! {

broadcast use vstd::std_specs::hash::group_hash_axioms;

/// Frequency parameters for a channel identifier, populated from IDEN_UP messages.
#[derive(Debug, Clone, PartialEq)]
pub struct ChannelParams {
    /// Base frequency in Hertz.
    pub base_frequency: u64,
    /// Channel spacing in Hertz.
    pub channel_spacing: u32,
    /// Transmit offset in Hertz (signed: positive or negative).
    pub transmit_offset: i32,
}

/// The identifier prefix (upper 4 bits) of a 16-bit channel ID.
pub open spec fn channel_prefix(id: u16) -> u8 {
    (id / 4096) as u8
}

/// The channel number (lower 12 bits) of a 16-bit channel ID.
pub open spec fn channel_index(id: u16) -> nat {
    (id % 4096) as nat
}

/// The receive frequency of channel `id` under `params`.
pub open spec fn receive_frequency(params: ChannelParams, id: u16) -> int {
    params.base_frequency + params.channel_spacing * channel_index(id)
}

/// The transmit frequency of channel `id` under `params`: the receive
/// frequency read as a signed value, offset, and read back as unsigned.
pub open spec fn transmit_frequency(params: ChannelParams, id: u16) -> u64 {
    ((receive_frequency(params, id) as u64 as i64) + params.transmit_offset) as u64
}

/// Whether resolving channel `id` against `table` stays within 64 bits.
pub open spec fn resolvable(table: Map<u8, ChannelParams>, id: u16) -> bool {
    table.contains_key(channel_prefix(id)) ==> receive_frequency(table[channel_prefix(id)], id)
        <= u64::MAX
}

/// Whether the transmit frequency of channel `id` stays within signed
/// 64-bit range.
pub open spec fn transmit_resolvable(table: Map<u8, ChannelParams>, id: u16) -> bool {
    resolvable(table, id) && (table.contains_key(channel_prefix(id)) ==> {
        let p = table[channel_prefix(id)];
        let sum = receive_frequency(p, id) as u64 as i64 + p.transmit_offset;
        i64::MIN <= sum <= i64::MAX
    })
}

/// Table mapping 4-bit channel identifier prefixes to frequency parameters.
///
/// Populated from IDEN_UP (0x20/0x3D), IDEN_UP_VU (0x34), and IDEN_UP_TDMA (0x33)
/// TSBK messages. Used to resolve logical channel IDs in channel grants to
/// actual RF frequencies.
///
/// Reference: TIA-102.AABF-A Section 7.2.31
#[derive(Debug, Clone)]
pub struct IdentifierTable {
    entries: HashMap<u8, ChannelParams>,
}

impl View for IdentifierTable {
    type V = Map<u8, ChannelParams>;

    /// The parameters recorded for each identifier.
    closed spec fn view(&self) -> Map<u8, ChannelParams> {
        self.entries@
    }
}

impl Default for IdentifierTable {
    fn default() -> (r: Self)
        ensures
            r@ == Map::<u8, ChannelParams>::empty(),
    {
        Self::new()
    }
}

impl IdentifierTable {
    /// Create an empty identifier table.
    pub fn new() -> (r: Self)
        ensures
            r@ == Map::<u8, ChannelParams>::empty(),
    {
        Self { entries: HashMap::new() }
    }

    /// Insert or update an identifier entry.
    pub fn update(&mut self, identifier: ChannelIdentifier, params: ChannelParams)
        ensures
            final(self)@ == old(self)@.insert(identifier.0, params),
            final(self)@.dom().finite(),
            final(self)@.len() == old(self)@.len() + if old(self)@.contains_key(identifier.0) {
                0int
            } else {
                1int
            },
    {
        proof {
            vstd::std_specs::hash::axiom_hashmap_view_finite_dom(self.entries);
        }
        let ghost before = self@;
        self.entries.insert(identifier.0, params);
        proof {
            assert(self@.dom() =~= before.dom().insert(identifier.0));
            vstd::set::axiom_set_insert_len(before.dom(), identifier.0);
            vstd::std_specs::hash::axiom_hashmap_view_finite_dom(self.entries);
        }
    }

    /// Resolve a 16-bit channel ID to a receive (downlink) RF frequency in Hertz.
    ///
    /// Returns `None` if the identifier prefix has not been seen in any
    /// IDEN_UP message yet.
    ///
    /// Formula: `frequency = base_freq + (channel_spacing * channel_number)`
    pub fn resolve_frequency(&self, channel_id: ChannelId) -> (r: Option<Frequency>)
        requires
            resolvable(self@, channel_id.0),
        ensures
            !self@.contains_key(channel_prefix(channel_id.0)) ==> r is None,
            self@.contains_key(channel_prefix(channel_id.0)) ==> (r matches Some(f) && f@
                == receive_frequency(self@[channel_prefix(channel_id.0)], channel_id.0)),
    {
        let ident = channel_id.identifier();
        let channel_number = channel_id.channel_number() as u64;
        match self.entries.get(&ident.0) {
            Some(params) => {
                assert(channel_number * params.channel_spacing <= u64::MAX) by (nonlinear_arith)
                    requires
                        params.base_frequency + params.channel_spacing * channel_number <= u64::MAX,
                ;
                let freq = params.base_frequency + (params.channel_spacing as u64 * channel_number);
                Some(Frequency::from_hz(freq))
            },
            None => None,
        }
    }

    /// Resolve a channel ID to its transmit (uplink) frequency in Hertz.
    ///
    /// Returns `None` if the identifier prefix has not been seen yet.
    ///
    /// Formula: `frequency = base_freq + (channel_spacing * channel_number) + transmit_offset`
    pub fn resolve_transmit_frequency(&self, channel_id: ChannelId) -> (r: Option<Frequency>)
        requires
            transmit_resolvable(self@, channel_id.0),
        ensures
            !self@.contains_key(channel_prefix(channel_id.0)) ==> r is None,
            self@.contains_key(channel_prefix(channel_id.0)) ==> (r matches Some(f) && f@
                == transmit_frequency(self@[channel_prefix(channel_id.0)], channel_id.0)),
    {
        let ident = channel_id.identifier();
        let channel_number = channel_id.channel_number() as u64;
        match self.entries.get(&ident.0) {
            Some(params) => {
                assert(channel_number * params.channel_spacing <= u64::MAX) by (nonlinear_arith)
                    requires
                        params.base_frequency + params.channel_spacing * channel_number <= u64::MAX,
                ;
                let base = params.base_frequency + (params.channel_spacing as u64 * channel_number);
                let tx_freq = (base as i64 + params.transmit_offset as i64) as u64;
                Some(Frequency::from_hz(tx_freq))
            },
            None => None,
        }
    }

    /// Check if an identifier entry exists.
    pub fn contains(&self, identifier: ChannelIdentifier) -> (r: bool)
        ensures
            r == self@.contains_key(identifier.0),
    {
        self.entries.contains_key(&identifier.0)
    }

    /// Number of identifier entries in the table.
    pub fn len(&self) -> (r: usize)
        ensures
            r == self@.len(),
            self@.dom().finite(),
    {
        proof {
            vstd::std_specs::hash::axiom_hashmap_view_finite_dom(self.entries);
        }
        self.entries.len()
    }

    /// Whether the table is empty.
    pub fn is_empty(&self) -> (r: bool)
        ensures
            r == (self@.len() == 0),
    {
        proof {
            if self@.len() == 0 {
                assert(self@.dom() =~= Set::<u8>::empty()) by {
                    if exists|k: u8| self@.dom().contains(k) {
                        let k = choose|k: u8| self@.dom().contains(k);
                        vstd::set::axiom_set_remove_len(self@.dom(), k);
                    }
                };
            }
        }
        self.entries.is_empty()
    }
}

/// A table read after an update of identifier `ident` resolves every
/// channel with that prefix through the new parameters, and every other
/// channel as before.
pub proof fn lemma_update_then_resolve(
    table: Map<u8, ChannelParams>,
    ident: u8,
    params: ChannelParams,
    id: u16,
)
    ensures
        channel_prefix(id) == ident ==> table.insert(ident, params).contains_key(channel_prefix(id))
            && table.insert(ident, params)[channel_prefix(id)] == params,
        channel_prefix(id) != ident ==> (table.insert(ident, params).contains_key(channel_prefix(id))
            == table.contains_key(channel_prefix(id))) && (table.contains_key(channel_prefix(id))
            ==> table.insert(ident, params)[channel_prefix(id)] == table[channel_prefix(id)]),
{
}

} // verus!
