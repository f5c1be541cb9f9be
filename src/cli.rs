//! The choices that the command line offers, as plain values.
use vstd::prelude::*;

verus! {

/// What to do with the device's clock.
#[derive(Debug, Clone, PartialEq, Eq)]
pub enum TimeAction {
    /// Show the device's time.
    Show,
    /// Set the device's time from this computer's.
    Sync,
    /// Set the device's time (`YYYY-MM-DD HH:MM:SS`).
    SetTime { time: String },
}

/// What to do with the message inbox.
#[derive(Debug, Clone, Copy, PartialEq, Eq, Structural)]
pub enum MessagesAction {
    Show,
    Clear,
}

/// What to do with the custom channels.
#[derive(Debug, Clone, PartialEq, Eq)]
pub enum ChannelsAction {
    /// List the channels.
    List,
    /// Join a channel; a `#` name derives its key from the name.
    Add { name: String, psk: Option<String> },
    /// Leave a channel.
    Remove { name: String },
}

/// What to do with serial authentication.
#[derive(Debug, Clone, PartialEq, Eq)]
pub enum AuthAction {
    /// Authenticate with a password.
    Login { password: String },
    /// Show the Bluetooth PIN and the authentication state.
    Status,
    /// Require authentication.
    Enable,
    /// Stop requiring authentication.
    Disable,
}

/// The role that a device plays in the mesh.
#[derive(Debug, Clone, Copy, PartialEq, Eq, PartialOrd, Ord, Hash, Structural)]
pub enum DeviceMode {
    Client,
    Repeater,
    Room,
}

/// The boards that firmware is built for.
#[derive(Debug, Clone, Copy, PartialEq, Eq, PartialOrd, Ord, Hash, Structural)]
pub enum BoardType {
    // Heltec ESP32-S3
    HeltecV3,
    HeltecV4,
    HeltecWirelessStickLiteV3,
    HeltecWirelessTracker,
    HeltecWirelessPaper,
    HeltecVisionMasterT190,
    HeltecVisionMasterE213,
    HeltecVisionMasterE290,
    HeltecHt62,
    HeltecMeshNodeT114,
    HeltecMeshPocket,

    // LilyGo ESP32-S3
    LilygoT3s3,
    LilygoT3s3Eink,
    LilygoTbeamSupreme,
    LilygoTdeck,
    LilygoTdeckPro,
    LilygoTloraPager,
    LilygoTwatchS3,

    // LilyGo ESP32
    LilygoTbeam,
    LilygoTloraV2116,
    LilygoTloraV2118,

    // LilyGo nRF52840
    LilygoTecho,

    // RAK nRF52840
    Rak4631,
    RakWismeshRepeater,
    RakWismeshTap,
    RakWismeshTag,
    Rak34011w,

    // RAK ESP32/S3
    Rak11200,
    Rak3312,

    // RAK RP2040
    Rak11310,

    // Seeed nRF52840
    SeeedTrackerT1000e,
    SeeedXiaoNrf52840,
    SeeedSensecapSolar,
    SeeedWioTrackerL1,
    SeeedWioTrackerL1Eink,
    SeeedWioWm1110,

    // Seeed ESP32-S3
    SeeedSensecapIndicator,
    SeeedXiaoEsp32s3,

    // Elecrow
    ThinknodeM1,
    ThinknodeM2,
    ThinknodeM3,
    ThinknodeM5,
    Crowpanel24tft,
    Crowpanel35tft,
    Crowpanel43tft,

    // B&Q Consulting
    StationG2,
    StationG1,
    NanoG1,
    NanoG1Explorer,
    NanoG2Ultra,

    // M5Stack
    M5stack,
    M5stackUnitC6l,

    // Other Vendors
    MuziBase,
    MuziR1Neo,
    NomadstarMeteorPro,
    CanaryOne,
    Radiomaster900Bandit,
    EbyteEoraS3,
    TracksengerSmall,
    TracksengerBig,
    PiComputerS3,
    Unphone,

    // RP2040
    Rp2040Lora,
    RpiPico,
    RpiPicoW,

    // DIY
    DiyV1,
    Hydra,
    Nrf52PromicroDiy,
}

} // verus!
