use trunker::p25::types::{
    ChannelNumber, Dibit, Frequency, Hexbit, Nac, RfssId, SiteId, SourceId, SystemId, TalkgroupId, Wacn,
};

#[test]
fn hexbit_masks_to_six_bits() {
    assert_eq!(Hexbit::new(0xFF).bits(), 0x3F);
    assert_eq!(Hexbit::new(0).bits(), 0);
    assert_eq!(Hexbit::new(63).bits(), 63);
}

#[test]
fn hexbit_display() {
    assert_eq!(Hexbit::new(0o77).to_string(), "0o77");
    assert_eq!(Hexbit::new(0).to_string(), "0o00");
}

#[test]
fn hexbit_default_is_zero() {
    assert_eq!(Hexbit::default().bits(), 0);
}

#[test]
fn dibit_masks_to_two_bits() {
    assert_eq!(Dibit::new(0xFF).bits(), 0x03);
    assert_eq!(Dibit::new(0).bits(), 0);
    assert_eq!(Dibit::new(3).bits(), 3);
}

#[test]
fn dibit_values_above_3_are_masked() {
    assert_eq!(Dibit::new(4).bits(), 0);
    assert_eq!(Dibit::new(5).bits(), 1);
    assert_eq!(Dibit::new(6).bits(), 2);
    assert_eq!(Dibit::new(7).bits(), 3);
}

#[test]
fn dibit_display() {
    assert_eq!(Dibit::new(0).to_string(), "00");
    assert_eq!(Dibit::new(1).to_string(), "01");
    assert_eq!(Dibit::new(2).to_string(), "10");
    assert_eq!(Dibit::new(3).to_string(), "11");
}

#[test]
fn frequency_display() {
    let freq = Frequency::from_hz(852_350_000);
    assert_eq!(freq.to_string(), "852.35000 MHz");
}

#[test]
fn talkgroup_id_roundtrip() {
    let tg = TalkgroupId::new(12345);
    assert_eq!(tg.value(), 12345);
    assert_eq!(tg.to_string(), "12345");
}

#[test]
fn nac_masks_to_12_bits() {
    assert_eq!(Nac::new(0xFFFF).value(), 0x0FFF);
    assert_eq!(Nac::new(0x293).value(), 0x293);
}

#[test]
fn nac_display() {
    assert_eq!(Nac::new(0x293).to_string(), "0x293");
}

#[test]
fn source_id_masks_to_24_bits() {
    assert_eq!(SourceId::new(0xFFFF_FFFF).value(), 0x00FF_FFFF);
    assert_eq!(SourceId::new(123456).value(), 123456);
}

#[test]
fn source_id_display() {
    assert_eq!(SourceId::new(123456).to_string(), "123456");
}

#[test]
fn system_id_masks_to_12_bits() {
    assert_eq!(SystemId::new(0xFFFF).value(), 0x0FFF);
    assert_eq!(SystemId::new(0x2B9).to_string(), "0x2B9");
}

#[test]
fn wacn_masks_to_20_bits() {
    assert_eq!(Wacn::new(0xFFFF_FFFF).value(), 0x000F_FFFF);
    assert_eq!(Wacn::new(0xBEE00).to_string(), "0xBEE00");
}

#[test]
fn rfss_id_roundtrip() {
    let rfss = RfssId::new(1);
    assert_eq!(rfss.value(), 1);
    assert_eq!(rfss.to_string(), "1");
}

#[test]
fn site_id_roundtrip() {
    let site = SiteId::new(42);
    assert_eq!(site.value(), 42);
    assert_eq!(site.to_string(), "42");
}

#[test]
fn channel_number_fields() {
    // Channel 0x1234: identifier=1, index=0x234
    let ch = ChannelNumber::new(0x1234);
    assert_eq!(ch.identifier(), 1);
    assert_eq!(ch.index(), 0x234);
    assert_eq!(ch.value(), 0x1234);
    assert_eq!(ch.to_string(), "0x1234");
}

#[test]
fn channel_number_identifier_edge_cases() {
    assert_eq!(ChannelNumber::new(0x0000).identifier(), 0);
    assert_eq!(ChannelNumber::new(0xFFFF).identifier(), 0x0F);
    assert_eq!(ChannelNumber::new(0xFFFF).index(), 0x0FFF);
}
