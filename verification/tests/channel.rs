use trunker::p25::channel::{ChannelParams, IdentifierTable};
use trunker::p25::types::{ChannelId, ChannelIdentifier, Frequency};

#[test]
fn resolve_channel_frequency() {
    let mut table = IdentifierTable::new();
    // Typical SRRCS identifier: base=851_012_500 Hz, spacing=12_500 Hz
    table.update(
        ChannelIdentifier(1),
        ChannelParams {
            base_frequency: 851_012_500,
            channel_spacing: 12_500,
            transmit_offset: -45_000_000,
        },
    );

    // Channel 0x1019 = ident=1, channel_number=0x019=25
    let channel = ChannelId(0x1019);
    let freq = table.resolve_frequency(channel).unwrap();
    assert_eq!(freq, Frequency::from_hz(851_012_500 + 12_500 * 25));
    assert_eq!(freq, Frequency::from_hz(851_325_000));
}

#[test]
fn resolve_transmit_frequency() {
    let mut table = IdentifierTable::new();
    table.update(
        ChannelIdentifier(1),
        ChannelParams {
            base_frequency: 851_012_500,
            channel_spacing: 12_500,
            transmit_offset: -45_000_000,
        },
    );

    let channel = ChannelId(0x1019);
    let tx_freq = table.resolve_transmit_frequency(channel).unwrap();
    // 851_325_000 + (-45_000_000) = 806_325_000
    assert_eq!(tx_freq, Frequency::from_hz(806_325_000));
}

#[test]
fn resolve_unknown_identifier_returns_none() {
    let table = IdentifierTable::new();
    assert!(table.resolve_frequency(ChannelId(0x2000)).is_none());
}

#[test]
fn update_overwrites_existing() {
    let mut table = IdentifierTable::new();
    table.update(
        ChannelIdentifier(1),
        ChannelParams {
            base_frequency: 100,
            channel_spacing: 10,
            transmit_offset: 0,
        },
    );
    table.update(
        ChannelIdentifier(1),
        ChannelParams {
            base_frequency: 200,
            channel_spacing: 20,
            transmit_offset: 0,
        },
    );

    let freq = table.resolve_frequency(ChannelId(0x1001)).unwrap();
    // base=200, spacing=20, channel_number=1 -> 200 + 20 = 220
    assert_eq!(freq, Frequency::from_hz(220));
    assert_eq!(table.len(), 1);
}

#[test]
fn multiple_identifiers() {
    let mut table = IdentifierTable::new();
    table.update(
        ChannelIdentifier(0),
        ChannelParams {
            base_frequency: 800_000_000,
            channel_spacing: 25_000,
            transmit_offset: 0,
        },
    );
    table.update(
        ChannelIdentifier(3),
        ChannelParams {
            base_frequency: 900_000_000,
            channel_spacing: 12_500,
            transmit_offset: 0,
        },
    );

    assert_eq!(table.len(), 2);
    assert!(table.contains(ChannelIdentifier(0)));
    assert!(table.contains(ChannelIdentifier(3)));
    assert!(!table.contains(ChannelIdentifier(1)));

    // ident=0, ch=10 -> 800_000_000 + 25_000*10 = 800_250_000
    assert_eq!(
        table.resolve_frequency(ChannelId(0x000A)).unwrap(),
        Frequency::from_hz(800_250_000)
    );
    // ident=3, ch=100 -> 900_000_000 + 12_500*100 = 901_250_000
    assert_eq!(
        table.resolve_frequency(ChannelId(0x3064)).unwrap(),
        Frequency::from_hz(901_250_000)
    );
}

#[test]
fn empty_table() {
    let table = IdentifierTable::new();
    assert!(table.is_empty());
    assert_eq!(table.len(), 0);
}
