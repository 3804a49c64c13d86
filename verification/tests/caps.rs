use ironrdp_egfx::pdu::{CapabilitiesV107Flags, CapabilitiesV10Flags, CapabilitiesV81Flags};
use rdesk::caps::{offered, Caps, Version, AVC420_ENABLED, AVC_DISABLED, SMALL_CACHE};

fn caps(version: Version, flags: u32) -> Caps {
    Caps { version, flags }
}

#[test]
fn flags_are_those_of_the_channel() {
    assert_eq!(SMALL_CACHE, CapabilitiesV107Flags::SMALL_CACHE.bits());
    assert_eq!(AVC_DISABLED, CapabilitiesV10Flags::AVC_DISABLED.bits());
    assert_eq!(AVC_DISABLED, CapabilitiesV107Flags::AVC_DISABLED.bits());
    assert_eq!(AVC420_ENABLED, CapabilitiesV81Flags::AVC420_ENABLED.bits());
}

#[test]
fn h264_is_offered() {
    let want = vec![
        caps(Version::V10_7, 0x2),
        caps(Version::V10, 0x2),
        caps(Version::V8_1, 0x12),
        caps(Version::V8, 0x2),
    ];
    assert_eq!(offered(&[]), want);
    assert_eq!(offered(&[caps(Version::V10_7, 0x2), caps(Version::V8, 0x20)]), want);
    assert_eq!(offered(&[caps(Version::V10_1, 0x20)]), want);
}

#[test]
fn refusal_of_h264_is_repeated() {
    let want = vec![
        caps(Version::V10_7, 0x22),
        caps(Version::V10, 0x22),
        caps(Version::V8_1, 0x2),
        caps(Version::V8, 0x2),
    ];
    assert_eq!(offered(&[caps(Version::V8, 0), caps(Version::V10_6, 0x60)]), want);
    assert_eq!(offered(&[caps(Version::V10, 0x20)]), want);
}
