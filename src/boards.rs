//! How a USB serial adapter is recognised: which vendor and product IDs
//! belong to supported boards, which boards a chip may sit on, and how long a
//! freshly opened port needs to settle.
use vstd::prelude::*;
use crate::cli::BoardType;
use crate::text::{chars_of, contains, find_text, lower_of, lowercase};

verus! {

/// Settle time after opening a native USB port, in ms.
pub const NATIVE_SETTLE_MS: u64 = 200;

/// Settle time after opening a USB-UART bridge, in ms.
pub const BRIDGE_SETTLE_MS: u64 = 50;

/// Whether a USB device is one of the supported boards: ESP32-S3 native USB,
/// a CP210x or CH340 bridge, an Adafruit-style nRF52 or a Nordic device.
pub open spec fn known_device(vid: u16, pid: u16) -> bool {
    vid == 0x303a || (vid == 0x10c4 && pid == 0xea60) || (vid == 0x1a86 && pid == 0x7523) || vid
        == 0x239a || vid == 0x1915
}

/// Whether a USB device is one of the supported boards.
pub fn is_known_device(vid: u16, pid: u16) -> (r: bool)
    ensures
        r == known_device(vid, pid),
{
    vid == 0x303a || (vid == 0x10c4 && pid == 0xea60) || (vid == 0x1a86 && pid == 0x7523) || vid
        == 0x239a || vid == 0x1915
}

/// Whether a port is a native USB port (`ttyACM`, `cu.usb`), whose board
/// resets when the control lines drop.
pub open spec fn native_usb(port: Seq<char>) -> bool {
    contains(port, seq!['t', 't', 'y', 'A', 'C', 'M']) || contains(port, seq!['c', 'u', '.', 'u', 's', 'b'])
}

/// Whether a port is a native USB port, whose control lines must be held
/// high.
pub fn is_native_usb(port: &str) -> (r: bool)
    ensures
        r == native_usb(port@),
{
    let c = chars_of(port);
    find_text(c.as_slice(), &['t', 't', 'y', 'A', 'C', 'M']) || find_text(c.as_slice(), &['c', 'u', '.', 'u', 's', 'b'])
}

/// How long to wait after opening a port before the first command.
pub fn settle_delay_ms(port: &str) -> (r: u64)
    ensures
        r == if native_usb(port@) {
            NATIVE_SETTLE_MS
        } else {
            BRIDGE_SETTLE_MS
        },
{
    if is_native_usb(port) {
        NATIVE_SETTLE_MS
    } else {
        BRIDGE_SETTLE_MS
    }
}

/// The boards that a USB chip may sit on, by vendor and product ID.
pub open spec fn chip_boards(vid: u16, pid: u16) -> Seq<BoardType> {
    if vid == 0x303a {
        seq![BoardType::HeltecV3, BoardType::HeltecV4, BoardType::LilygoT3s3, BoardType::LilygoTbeamSupreme, BoardType::LilygoTdeck, BoardType::StationG2]
    } else if vid == 0x10c4 && pid == 0xea60 {
        seq![BoardType::HeltecV3, BoardType::HeltecV4, BoardType::LilygoTbeam, BoardType::LilygoTloraV2116, BoardType::NanoG1, BoardType::StationG1]
    } else if vid == 0x1a86 && (pid == 0x7523 || pid == 0x55d4) {
        seq![BoardType::HeltecV3, BoardType::HeltecV4, BoardType::HeltecWirelessStickLiteV3]
    } else if vid == 0x239a {
        seq![BoardType::Rak4631, BoardType::LilygoTecho]
    } else if vid == 0x2886 {
        seq![BoardType::SeeedXiaoNrf52840, BoardType::SeeedTrackerT1000e]
    } else if vid == 0x2e8a {
        seq![BoardType::RpiPico, BoardType::RpiPicoW, BoardType::Rak11310]
    } else if vid == 0x0403 {
        seq![BoardType::DiyV1]
    } else {
        Seq::empty()
    }
}

/// The boards that a USB chip may sit on.
pub fn candidate_boards(vid: u16, pid: u16) -> (r: Vec<BoardType>)
    ensures
        r@ == chip_boards(vid, pid),
{
    let r = if vid == 0x303a {
        vec![BoardType::HeltecV3, BoardType::HeltecV4, BoardType::LilygoT3s3, BoardType::LilygoTbeamSupreme, BoardType::LilygoTdeck, BoardType::StationG2]
    } else if vid == 0x10c4 && pid == 0xea60 {
        vec![BoardType::HeltecV3, BoardType::HeltecV4, BoardType::LilygoTbeam, BoardType::LilygoTloraV2116, BoardType::NanoG1, BoardType::StationG1]
    } else if vid == 0x1a86 && (pid == 0x7523 || pid == 0x55d4) {
        vec![BoardType::HeltecV3, BoardType::HeltecV4, BoardType::HeltecWirelessStickLiteV3]
    } else if vid == 0x239a {
        vec![BoardType::Rak4631, BoardType::LilygoTecho]
    } else if vid == 0x2886 {
        vec![BoardType::SeeedXiaoNrf52840, BoardType::SeeedTrackerT1000e]
    } else if vid == 0x2e8a {
        vec![BoardType::RpiPico, BoardType::RpiPicoW, BoardType::Rak11310]
    } else if vid == 0x0403 {
        vec![BoardType::DiyV1]
    } else {
        Vec::new()
    };
    proof {
        assert(r@ =~= chip_boards(vid, pid));
    }
    r
}

/// The board that the adapter's strings, or a single candidate, name: a
/// `heltec` manufacturer or product, then a `t-beam`/`tbeam`, `t-echo` or
/// `rak` product (in any case), then the only candidate; `None` where none
/// decides.
pub open spec fn named_board(manufacturer: Seq<char>, product: Seq<char>, candidates: Seq<BoardType>) -> Option<BoardType> {
    let m = lower_of(manufacturer);
    let p = lower_of(product);
    if contains(m, seq!['h', 'e', 'l', 't', 'e', 'c']) || contains(p, seq!['h', 'e', 'l', 't', 'e', 'c']) {
        Some(BoardType::HeltecV3)
    } else if contains(p, seq!['t', '-', 'b', 'e', 'a', 'm']) || contains(p, seq!['t', 'b', 'e', 'a', 'm']) {
        Some(BoardType::LilygoTbeam)
    } else if contains(p, seq!['t', '-', 'e', 'c', 'h', 'o']) {
        Some(BoardType::LilygoTecho)
    } else if contains(p, seq!['r', 'a', 'k']) {
        Some(BoardType::Rak4631)
    } else if candidates.len() == 1 {
        Some(candidates[0])
    } else {
        None
    }
}

/// Narrows the candidates to one board where the adapter's strings or the
/// candidates themselves decide.
pub fn identify_board(manufacturer: &str, product: &str, candidates: &Vec<BoardType>) -> (r: Option<BoardType>)
    ensures
        r == named_board(manufacturer@, product@, candidates@),
{
    let m = lowercase(manufacturer);
    let p = lowercase(product);
    let mc = chars_of(m.as_str());
    let pc = chars_of(p.as_str());
    if find_text(mc.as_slice(), &['h', 'e', 'l', 't', 'e', 'c']) || find_text(pc.as_slice(), &['h', 'e', 'l', 't', 'e', 'c']) {
        Some(BoardType::HeltecV3)
    } else if find_text(pc.as_slice(), &['t', '-', 'b', 'e', 'a', 'm']) || find_text(pc.as_slice(), &['t', 'b', 'e', 'a', 'm']) {
        Some(BoardType::LilygoTbeam)
    } else if find_text(pc.as_slice(), &['t', '-', 'e', 'c', 'h', 'o']) {
        Some(BoardType::LilygoTecho)
    } else if find_text(pc.as_slice(), &['r', 'a', 'k']) {
        Some(BoardType::Rak4631)
    } else if candidates.len() == 1 {
        Some(candidates[0])
    } else {
        None
    }
}

} // verus!
