use meshgrid::boards::{candidate_boards, identify_board, is_known_device, is_native_usb, settle_delay_ms};
use meshgrid::cli::BoardType;
use meshgrid::commands::{advert_plan, packet_text, raw_packet, HexError};
use meshgrid::firmware::{checksum_file_name, find_asset, image_file_name, verify_checksum, Asset, FirmwareError};
use sha2::Digest;

#[test]
fn usb_devices_are_recognised() {
    assert!(is_known_device(0x303a, 0x1001));
    assert!(is_known_device(0x10c4, 0xea60));
    assert!(!is_known_device(0x10c4, 0x0001));
    assert!(is_known_device(0x1a86, 0x7523));
    assert!(is_known_device(0x1915, 0));
    assert!(!is_known_device(0x0403, 0x6001));
}

#[test]
fn ports_settle() {
    assert!(is_native_usb("/dev/ttyACM0"));
    assert!(is_native_usb("/dev/cu.usbmodem1101"));
    assert!(!is_native_usb("/dev/ttyUSB0"));
    assert_eq!(settle_delay_ms("/dev/ttyACM0"), 200);
    assert_eq!(settle_delay_ms("COM3"), 50);
}

#[test]
fn boards_are_narrowed() {
    let esp = candidate_boards(0x303a, 0x1001);
    assert_eq!(esp.len(), 6);
    assert_eq!(identify_board("Heltec", "", &esp), Some(BoardType::HeltecV3));
    assert_eq!(identify_board("", "LilyGo T-Beam", &esp), Some(BoardType::LilygoTbeam));
    assert_eq!(identify_board("", "RAK4631", &esp), Some(BoardType::Rak4631));
    assert_eq!(identify_board("", "", &esp), None);
    let ftdi = candidate_boards(0x0403, 0x6001);
    assert_eq!(ftdi, vec![BoardType::DiyV1]);
    assert_eq!(identify_board("FTDI", "FT232R", &ftdi), Some(BoardType::DiyV1));
    assert!(candidate_boards(0x1234, 0x5678).is_empty());
}

#[test]
fn firmware_names() {
    let img = image_file_name("heltec_v3", "0.0.3");
    assert_eq!(img, "meshgrid-heltec_v3-0.0.3.bin");
    assert_eq!(checksum_file_name(&img), "meshgrid-heltec_v3-0.0.3.bin.sha256");
    let assets = vec![
        Asset { name: "a.bin".to_string(), browser_download_url: "u1".to_string() },
        Asset { name: "b.bin".to_string(), browser_download_url: "u2".to_string() },
    ];
    assert_eq!(find_asset(&assets, "b.bin"), Some(1));
    assert_eq!(find_asset(&assets, "c.bin"), None);
}

#[test]
fn checksums_are_verified() {
    let image = b"firmware image".to_vec();
    let digest = hex::encode(sha2::Sha256::digest(&image));
    assert_eq!(verify_checksum(&format!("{}  meshgrid.bin\n", digest), &image), Ok(()));
    assert_eq!(verify_checksum(&format!("  {}", digest.to_uppercase()), &image), Ok(()));
    assert_eq!(verify_checksum("   \n", &image), Err(FirmwareError::MalformedChecksumFile));
    assert_eq!(
        verify_checksum("ABCD file", &image),
        Err(FirmwareError::Mismatch { expected: "abcd".to_string(), actual: digest })
    );
}

#[test]
fn packets_as_text() {
    assert_eq!(packet_text(b"hello\tworld\n"), Some("hello\tworld\n".to_string()));
    assert_eq!(packet_text(&[0x68, 0x00]), None);
    assert_eq!(packet_text(&[0xc3, 0xa9]), None);
    assert_eq!(packet_text(&[]), Some(String::new()));
}

#[test]
fn advert_plans() {
    let both = advert_plan(false, false);
    assert!(both.local && both.flood && both.pause_between);
    let local = advert_plan(true, false);
    assert!(local.local && !local.flood && !local.pause_between);
    let flood = advert_plan(false, true);
    assert!(!flood.local && flood.flood);
}

#[test]
fn raw_packets_from_hex() {
    assert_eq!(raw_packet(" 0aFF10\n"), Ok(vec![0x0a, 0xff, 0x10]));
    assert_eq!(raw_packet(""), Ok(vec![]));
    assert_eq!(raw_packet("abc"), Err(HexError::OddLength));
    assert_eq!(raw_packet("0g12"), Err(HexError::InvalidCharacter { c: 'g', index: 1 }));
    assert_eq!(raw_packet("12 34"), Err(HexError::OddLength));
    assert_eq!(raw_packet("12 345"), Err(HexError::InvalidCharacter { c: ' ', index: 2 }));
}
