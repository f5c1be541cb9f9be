//! Telemetry that the device reports, held in fixed-point units: tenths of a
//! degree, tenths of a percent, millionths of a degree of latitude, and so on.
use vstd::prelude::*;
use crate::json::{json_bool, json_get, json_member, json_u64};

verus! {

/// Power and system readings.
#[derive(Debug, Clone, Default, PartialEq, Eq)]
pub struct DeviceTelemetry {
    pub battery_percent: u8,
    pub voltage_mv: u16,
    pub charging: bool,
    pub usb_power: bool,
    pub uptime_secs: u32,
    pub free_heap: u32,
    pub cpu_temp_deci_c: i16,
}

impl DeviceTelemetry {
    /// All readings zero.
    pub fn new() -> (r: Self)
        ensures
            r.battery_percent == 0 && r.voltage_mv == 0 && !r.charging && !r.usb_power
                && r.uptime_secs == 0 && r.free_heap == 0 && r.cpu_temp_deci_c == 0,
    {
        DeviceTelemetry {
            battery_percent: 0,
            voltage_mv: 0,
            charging: false,
            usb_power: false,
            uptime_secs: 0,
            free_heap: 0,
            cpu_temp_deci_c: 0,
        }
    }
}

/// Environment sensor readings.
#[derive(Debug, Clone, Default, PartialEq, Eq)]
pub struct EnvironmentTelemetry {
    temp_deci_c: i16,
    humidity_deci_pct: u16,
    pressure_deci_hpa: u32,
    pub air_quality: u16,
}

impl EnvironmentTelemetry {
    /// Air quality index.
    pub closed spec fn air(&self) -> u16 {
        self.air_quality
    }

    /// Temperature in tenths of a degree Celsius.
    pub closed spec fn temp(&self) -> i16 {
        self.temp_deci_c
    }

    /// Relative humidity in tenths of a percent.
    pub closed spec fn humidity(&self) -> u16 {
        self.humidity_deci_pct
    }

    /// Pressure in tenths of a hectopascal.
    pub closed spec fn pressure(&self) -> u32 {
        self.pressure_deci_hpa
    }

    /// All readings zero.
    pub fn new() -> (r: Self)
        ensures
            r.temp() == 0 && r.humidity() == 0 && r.pressure() == 0 && r.air() == 0,
    {
        EnvironmentTelemetry { temp_deci_c: 0, humidity_deci_pct: 0, pressure_deci_hpa: 0, air_quality: 0 }
    }

    /// With the temperature set, in tenths of a degree Celsius.
    pub fn with_temperature_deci(self, t: i16) -> (r: Self)
        ensures
            r.temp() == t && r.humidity() == self.humidity() && r.pressure() == self.pressure()
                && r.air() == self.air(),
    {
        EnvironmentTelemetry { temp_deci_c: t, ..self }
    }

    /// With the humidity set, in tenths of a percent.
    pub fn with_humidity_deci(self, h: u16) -> (r: Self)
        ensures
            r.humidity() == h && r.temp() == self.temp() && r.pressure() == self.pressure()
                && r.air() == self.air(),
    {
        EnvironmentTelemetry { humidity_deci_pct: h, ..self }
    }

    /// With the pressure set, in tenths of a hectopascal.
    pub fn with_pressure_deci(self, p: u32) -> (r: Self)
        ensures
            r.pressure() == p && r.temp() == self.temp() && r.humidity() == self.humidity()
                && r.air() == self.air(),
    {
        EnvironmentTelemetry { pressure_deci_hpa: p, ..self }
    }

    /// Temperature in tenths of a degree Celsius.
    pub fn temperature_deci_c(&self) -> (r: i16)
        ensures
            r == self.temp(),
    {
        self.temp_deci_c
    }

    /// Relative humidity in tenths of a percent.
    pub fn humidity_deci_pct(&self) -> (r: u16)
        ensures
            r == self.humidity(),
    {
        self.humidity_deci_pct
    }

    /// Pressure in tenths of a hectopascal.
    pub fn pressure_deci_hpa(&self) -> (r: u32)
        ensures
            r == self.pressure(),
    {
        self.pressure_deci_hpa
    }
}

/// Position readings.
#[derive(Debug, Clone, Default, PartialEq, Eq)]
pub struct LocationTelemetry {
    lat_micro: i32,
    lon_micro: i32,
    alt_cm: i32,
    speed_cm_s: u16,
    heading_deci: u16,
    pub satellites: u8,
    pub fix_type: u8,
}

impl LocationTelemetry {
    /// Satellites in view.
    pub closed spec fn sats(&self) -> u8 {
        self.satellites
    }

    /// Kind of position fix; 0 for none.
    pub closed spec fn fix(&self) -> u8 {
        self.fix_type
    }

    /// Latitude in millionths of a degree.
    pub closed spec fn lat(&self) -> i32 {
        self.lat_micro
    }

    /// Longitude in millionths of a degree.
    pub closed spec fn lon(&self) -> i32 {
        self.lon_micro
    }

    /// Altitude in centimetres.
    pub closed spec fn alt(&self) -> i32 {
        self.alt_cm
    }

    /// Speed in centimetres per second.
    pub closed spec fn speed(&self) -> u16 {
        self.speed_cm_s
    }

    /// Heading in tenths of a degree.
    pub closed spec fn heading(&self) -> u16 {
        self.heading_deci
    }

    /// No position and no fix.
    pub fn new() -> (r: Self)
        ensures
            r.lat() == 0 && r.lon() == 0 && r.alt() == 0 && r.speed() == 0 && r.heading() == 0
                && r.sats() == 0 && r.fix() == 0,
    {
        LocationTelemetry {
            lat_micro: 0,
            lon_micro: 0,
            alt_cm: 0,
            speed_cm_s: 0,
            heading_deci: 0,
            satellites: 0,
            fix_type: 0,
        }
    }

    /// With the position set, in millionths of a degree.
    pub fn with_position_micro(self, lat: i32, lon: i32) -> (r: Self)
        ensures
            r.lat() == lat && r.lon() == lon && r.alt() == self.alt() && r.speed() == self.speed()
                && r.heading() == self.heading() && r.sats() == self.sats() && r.fix()
                == self.fix(),
    {
        LocationTelemetry { lat_micro: lat, lon_micro: lon, ..self }
    }

    /// With the altitude set, in centimetres.
    pub fn with_altitude_cm(self, alt: i32) -> (r: Self)
        ensures
            r.alt() == alt && r.lat() == self.lat() && r.lon() == self.lon() && r.speed()
                == self.speed() && r.heading() == self.heading() && r.sats() == self.sats()
                && r.fix() == self.fix(),
    {
        LocationTelemetry { alt_cm: alt, ..self }
    }

    /// With the speed set, in centimetres per second.
    pub fn with_speed_cm_s(self, speed: u16) -> (r: Self)
        ensures
            r.speed() == speed && r.lat() == self.lat() && r.lon() == self.lon() && r.alt()
                == self.alt() && r.heading() == self.heading() && r.sats() == self.sats()
                && r.fix() == self.fix(),
    {
        LocationTelemetry { speed_cm_s: speed, ..self }
    }

    /// With the heading set, in tenths of a degree.
    pub fn with_heading_deci(self, heading: u16) -> (r: Self)
        ensures
            r.heading() == heading && r.lat() == self.lat() && r.lon() == self.lon() && r.alt()
                == self.alt() && r.speed() == self.speed() && r.sats() == self.sats()
                && r.fix() == self.fix(),
    {
        LocationTelemetry { heading_deci: heading, ..self }
    }

    /// Whether the receiver has a position fix: a fix type above 0.
    pub fn has_fix(&self) -> (r: bool)
        ensures
            r == (self.fix() > 0),
    {
        self.fix_type > 0
    }

    /// Latitude in millionths of a degree.
    pub fn latitude_micro(&self) -> (r: i32)
        ensures
            r == self.lat(),
    {
        self.lat_micro
    }

    /// Longitude in millionths of a degree.
    pub fn longitude_micro(&self) -> (r: i32)
        ensures
            r == self.lon(),
    {
        self.lon_micro
    }

    /// Altitude in centimetres.
    pub fn altitude_cm(&self) -> (r: i32)
        ensures
            r == self.alt(),
    {
        self.alt_cm
    }

    /// Speed in centimetres per second.
    pub fn speed_cm_s(&self) -> (r: u16)
        ensures
            r == self.speed(),
    {
        self.speed_cm_s
    }

    /// Heading in tenths of a degree.
    pub fn heading_deci(&self) -> (r: u16)
        ensures
            r == self.heading(),
    {
        self.heading_deci
    }
}

/// The telemetry groups that a device reported.
#[derive(Debug, Clone, Default, PartialEq, Eq)]
pub struct Telemetry {
    pub device: Option<DeviceTelemetry>,
    pub environment: Option<EnvironmentTelemetry>,
    pub location: Option<LocationTelemetry>,
}

impl Telemetry {
    /// No group reported.
    pub fn new() -> (r: Self)
        ensures
            r.device is None && r.environment is None && r.location is None,
    {
        Telemetry { device: None, environment: None, location: None }
    }

    /// With the device group set.
    pub fn with_device(self, d: DeviceTelemetry) -> (r: Self)
        ensures
            r.device == Some(d) && r.environment == self.environment && r.location == self.location,
    {
        Telemetry { device: Some(d), ..self }
    }

    /// With the environment group set.
    pub fn with_environment(self, e: EnvironmentTelemetry) -> (r: Self)
        ensures
            r.environment == Some(e) && r.device == self.device && r.location == self.location,
    {
        Telemetry { environment: Some(e), ..self }
    }

    /// With the location group set.
    pub fn with_location(self, l: LocationTelemetry) -> (r: Self)
        ensures
            r.location == Some(l) && r.device == self.device && r.environment == self.environment,
    {
        Telemetry { location: Some(l), ..self }
    }
}

/// Readings that the device reports as decimals, already scaled to the
/// fixed-point units of the records; `None` where the device sent none.
#[derive(Debug, Clone, Copy, Default, PartialEq, Eq)]
pub struct ScaledReadings {
    pub voltage_mv: Option<u16>,
    pub cpu_temp_deci_c: Option<i16>,
    pub temp_deci_c: Option<i16>,
    pub humidity_deci_pct: Option<u16>,
    pub pressure_deci_hpa: Option<u32>,
    pub lat_micro: Option<i32>,
    pub lon_micro: Option<i32>,
    pub alt_cm: Option<i32>,
    pub speed_cm_s: Option<u16>,
    pub heading_deci: Option<u16>,
}

/// A whole-number member of an object, if it holds one.
pub open spec fn count_of(v: serde_json::Value, key: Seq<char>) -> Option<u64> {
    match json_member(v, key) {
        Some(m) => json_u64(m),
        None => None,
    }
}

/// A boolean member of an object, if it holds one.
pub open spec fn flag_of(v: serde_json::Value, key: Seq<char>) -> Option<bool> {
    match json_member(v, key) {
        Some(m) => json_bool(m),
        None => None,
    }
}

/// `o`'s value, or `d`.
pub open spec fn or_else<T>(o: Option<T>, d: T) -> T {
    match o {
        Some(x) => x,
        None => d,
    }
}

fn read_count(v: &serde_json::Value, key: &str) -> (r: Option<u64>)
    ensures
        r == count_of(*v, key@),
{
    match json_get(v, key) {
        Some(m) => m.as_u64(),
        None => None,
    }
}

fn read_flag(v: &serde_json::Value, key: &str) -> (r: Option<bool>)
    ensures
        r == flag_of(*v, key@),
{
    match json_get(v, key) {
        Some(m) => m.as_bool(),
        None => None,
    }
}

/// The device group of a telemetry document: `battery`, `charging`, `usb`,
/// `uptime` and `heap` read from the document (counts cut to the field's
/// width), voltage and CPU temperature from the scaled readings; 0 or
/// `false` for what is missing.
pub open spec fn device_group_ok(d: DeviceTelemetry, g: serde_json::Value, s: ScaledReadings) -> bool {
    &&& d.battery_percent == or_else(count_of(g, "battery"@), 0) as u8
    &&& d.charging == or_else(flag_of(g, "charging"@), false)
    &&& d.usb_power == or_else(flag_of(g, "usb"@), false)
    &&& d.uptime_secs == or_else(count_of(g, "uptime"@), 0) as u32
    &&& d.free_heap == or_else(count_of(g, "heap"@), 0) as u32
    &&& d.voltage_mv == or_else(s.voltage_mv, 0)
    &&& d.cpu_temp_deci_c == or_else(s.cpu_temp_deci_c, 0)
}

/// The environment group: `air_quality` from the document, the rest from
/// the scaled readings.
pub open spec fn environment_group_ok(e: EnvironmentTelemetry, g: serde_json::Value, s: ScaledReadings) -> bool {
    &&& e.air() == or_else(count_of(g, "air_quality"@), 0) as u16
    &&& e.temp() == or_else(s.temp_deci_c, 0)
    &&& e.humidity() == or_else(s.humidity_deci_pct, 0)
    &&& e.pressure() == or_else(s.pressure_deci_hpa, 0)
}

/// The location group: `satellites` and `fix` from the document, the rest
/// from the scaled readings.
pub open spec fn location_group_ok(l: LocationTelemetry, g: serde_json::Value, s: ScaledReadings) -> bool {
    &&& l.sats() == or_else(count_of(g, "satellites"@), 0) as u8
    &&& l.fix() == or_else(count_of(g, "fix"@), 0) as u8
    &&& l.lat() == or_else(s.lat_micro, 0)
    &&& l.lon() == or_else(s.lon_micro, 0)
    &&& l.alt() == or_else(s.alt_cm, 0)
    &&& l.speed() == or_else(s.speed_cm_s, 0)
    &&& l.heading() == or_else(s.heading_deci, 0)
}

/// The telemetry that a `TELEMETRY` answer reports: a group for each of
/// `device`, `environment` and `location` that the document holds.
pub fn telemetry_from_json(doc: &serde_json::Value, scaled: &ScaledReadings) -> (r: Telemetry)
    ensures
        match json_member(*doc, "device"@) {
            Some(g) => r.device matches Some(d) && device_group_ok(d, g, *scaled),
            None => r.device is None,
        },
        match json_member(*doc, "environment"@) {
            Some(g) => r.environment matches Some(e) && environment_group_ok(e, g, *scaled),
            None => r.environment is None,
        },
        match json_member(*doc, "location"@) {
            Some(g) => r.location matches Some(l) && location_group_ok(l, g, *scaled),
            None => r.location is None,
        },
{
    let mut t = Telemetry::new();
    match json_get(doc, "device") {
        Some(g) => {
            let d = DeviceTelemetry {
                battery_percent: match read_count(g, "battery") { Some(v) => v as u8, None => 0 },
                voltage_mv: match scaled.voltage_mv { Some(v) => v, None => 0 },
                charging: match read_flag(g, "charging") { Some(v) => v, None => false },
                usb_power: match read_flag(g, "usb") { Some(v) => v, None => false },
                uptime_secs: match read_count(g, "uptime") { Some(v) => v as u32, None => 0 },
                free_heap: match read_count(g, "heap") { Some(v) => v as u32, None => 0 },
                cpu_temp_deci_c: match scaled.cpu_temp_deci_c { Some(v) => v, None => 0 },
            };
            t = t.with_device(d);
        },
        None => {},
    }
    match json_get(doc, "environment") {
        Some(g) => {
            let e = EnvironmentTelemetry {
                temp_deci_c: match scaled.temp_deci_c { Some(v) => v, None => 0 },
                humidity_deci_pct: match scaled.humidity_deci_pct { Some(v) => v, None => 0 },
                pressure_deci_hpa: match scaled.pressure_deci_hpa { Some(v) => v, None => 0 },
                air_quality: match read_count(g, "air_quality") { Some(v) => v as u16, None => 0 },
            };
            t = t.with_environment(e);
        },
        None => {},
    }
    match json_get(doc, "location") {
        Some(g) => {
            let l = LocationTelemetry {
                lat_micro: match scaled.lat_micro { Some(v) => v, None => 0 },
                lon_micro: match scaled.lon_micro { Some(v) => v, None => 0 },
                alt_cm: match scaled.alt_cm { Some(v) => v, None => 0 },
                speed_cm_s: match scaled.speed_cm_s { Some(v) => v, None => 0 },
                heading_deci: match scaled.heading_deci { Some(v) => v, None => 0 },
                satellites: match read_count(g, "satellites") { Some(v) => v as u8, None => 0 },
                fix_type: match read_count(g, "fix") { Some(v) => v as u8, None => 0 },
            };
            t = t.with_location(l);
        },
        None => {},
    }
    t
}

} // verus!
