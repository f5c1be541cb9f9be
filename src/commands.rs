//! The text of the commands that the library sends, and how a typed request
//! checks the kind of answer it got.
use vstd::prelude::*;
use vstd::utf8::encode_utf8;
use crate::number::{int_in, parse_unsigned};
use crate::protocol::{ProtocolError, Response};
use crate::text::{ascii_bytes, ascii_chars, utf8_lossy, chars_of, has_prefix, push_chars, push_char, push_str, starts_with, trim, trim_bounds};

verus! {

/// Largest packet that a `PKT` header may announce.
pub const MAX_PACKET_LEN: usize = 4096;

/// The decimal digits of `n`, most significant first.
pub open spec fn decimal(n: nat) -> Seq<char>
    decreases n,
{
    if n < 10 {
        seq![(n + 48) as char]
    } else {
        decimal(n / 10).push((n % 10 + 48) as char)
    }
}

/// The decimal text of an integer, with a leading `-` when negative.
pub open spec fn signed_decimal(v: int) -> Seq<char> {
    if v < 0 {
        seq!['-'] + decimal((-v) as nat)
    } else {
        decimal(v as nat)
    }
}

/// Appends the decimal digits of `n`.
pub fn push_decimal(s: &mut String, n: u64)
    ensures
        final(s)@ == old(s)@ + decimal(n as nat),
    decreases n,
{
    if n >= 10 {
        push_decimal(s, n / 10);
    }
    let d = (n % 10) as u32 + 48;
    let c = char_from_digit(d);
    push_char(s, c);
    proof {
        if n >= 10 {
            assert(old(s)@ + decimal(n as nat) =~= old(s)@ + decimal((n / 10) as nat) + seq![c]);
        } else {
            assert(old(s)@ + decimal(n as nat) =~= old(s)@ + seq![c]);
        }
    }
}

/// The character of an ASCII digit code.
fn char_from_digit(d: u32) -> (c: char)
    requires
        48 <= d <= 57,
    ensures
        c == d as char,
{
    if d == 48 { '0' } else if d == 49 { '1' } else if d == 50 { '2' } else if d == 51 { '3' }
    else if d == 52 { '4' } else if d == 53 { '5' } else if d == 54 { '6' } else if d == 55 { '7' }
    else if d == 56 { '8' } else { '9' }
}

/// Appends the decimal text of `v`.
pub fn push_signed(s: &mut String, v: i32)
    ensures
        final(s)@ == old(s)@ + signed_decimal(v as int),
{
    if v < 0 {
        push_char(s, '-');
        push_decimal(s, (0 - (v as i64)) as u64);
        proof {
            assert(final(s)@ =~= old(s)@ + (seq!['-'] + decimal((-v) as nat)));
        }
    } else {
        push_decimal(s, v as u64);
    }
}

/// `SET NAME <name>`.
pub open spec fn set_name_text(name: Seq<char>) -> Seq<char> {
    seq!['S', 'E', 'T', ' ', 'N', 'A', 'M', 'E', ' '] + name
}

/// The command that renames the device.
pub fn set_name_command(name: &str) -> (r: String)
    ensures
        r@ == set_name_text(name@),
{
    let mut s = String::new();
    push_chars(&mut s, &['S', 'E', 'T', ' ', 'N', 'A', 'M', 'E', ' '], 0, 9);
    push_str(&mut s, name);
    proof {
        assert(s@ =~= set_name_text(name@));
    }
    s
}

/// `SET POWER <dbm>`.
pub open spec fn set_power_text(dbm: i8) -> Seq<char> {
    seq!['S', 'E', 'T', ' ', 'P', 'O', 'W', 'E', 'R', ' '] + signed_decimal(dbm as int)
}

/// The command that sets the transmit power.
pub fn set_power_command(dbm: i8) -> (r: String)
    ensures
        r@ == set_power_text(dbm),
{
    let mut s = String::new();
    push_chars(&mut s, &['S', 'E', 'T', ' ', 'P', 'O', 'W', 'E', 'R', ' '], 0, 10);
    push_signed(&mut s, dbm as i32);
    proof {
        assert(s@ =~= set_power_text(dbm));
    }
    s
}

/// `SET SF <sf>`.
pub open spec fn spreading_factor_text(sf: u8) -> Seq<char> {
    seq!['S', 'E', 'T', ' ', 'S', 'F', ' '] + decimal(sf as nat)
}

/// The command that sets the spreading factor.
pub fn spreading_factor_command(sf: u8) -> (r: String)
    ensures
        r@ == spreading_factor_text(sf),
{
    let mut s = String::new();
    push_chars(&mut s, &['S', 'E', 'T', ' ', 'S', 'F', ' '], 0, 7);
    push_decimal(&mut s, sf as u64);
    proof {
        assert(s@ =~= spreading_factor_text(sf));
    }
    s
}

/// `SEND <message>`: a broadcast.
pub open spec fn broadcast_text(message: Seq<char>) -> Seq<char> {
    seq!['S', 'E', 'N', 'D', ' '] + message
}

/// The command that broadcasts a message.
pub fn broadcast_command(message: &str) -> (r: String)
    ensures
        r@ == broadcast_text(message@),
{
    let mut s = String::new();
    push_chars(&mut s, &['S', 'E', 'N', 'D', ' '], 0, 5);
    push_str(&mut s, message);
    proof {
        assert(s@ =~= broadcast_text(message@));
    }
    s
}

/// `SEND <dest> <message>`: a direct message.
pub open spec fn direct_text(dest: Seq<char>, message: Seq<char>) -> Seq<char> {
    seq!['S', 'E', 'N', 'D', ' '] + dest + seq![' '] + message
}

/// The command that sends a message to one node.
pub fn direct_command(dest: &str, message: &str) -> (r: String)
    ensures
        r@ == direct_text(dest@, message@),
{
    let mut s = String::new();
    push_chars(&mut s, &['S', 'E', 'N', 'D', ' '], 0, 5);
    push_str(&mut s, dest);
    push_char(&mut s, ' ');
    push_str(&mut s, message);
    proof {
        assert(s@ =~= direct_text(dest@, message@));
    }
    s
}

/// `CHANNEL SEND <channel> <message>`.
pub open spec fn channel_send_text(channel: Seq<char>, message: Seq<char>) -> Seq<char> {
    seq!['C', 'H', 'A', 'N', 'N', 'E', 'L', ' ', 'S', 'E', 'N', 'D', ' '] + channel + seq![' ']
        + message
}

/// The command that sends a message on a channel.
pub fn channel_send_command(channel: &str, message: &str) -> (r: String)
    ensures
        r@ == channel_send_text(channel@, message@),
{
    let mut s = String::new();
    push_chars(&mut s, &['C', 'H', 'A', 'N', 'N', 'E', 'L', ' ', 'S', 'E', 'N', 'D', ' '], 0, 13);
    push_str(&mut s, channel);
    push_char(&mut s, ' ');
    push_str(&mut s, message);
    proof {
        assert(s@ =~= channel_send_text(channel@, message@));
    }
    s
}

/// `TRACE <target>`.
pub open spec fn trace_text(target: Seq<char>) -> Seq<char> {
    seq!['T', 'R', 'A', 'C', 'E', ' '] + target
}

/// The command that starts a trace.
pub fn trace_command(target: &str) -> (r: String)
    ensures
        r@ == trace_text(target@),
{
    let mut s = String::new();
    push_chars(&mut s, &['T', 'R', 'A', 'C', 'E', ' '], 0, 6);
    push_str(&mut s, target);
    proof {
        assert(s@ =~= trace_text(target@));
    }
    s
}

/// `PKT <len>` and a newline: the header before a raw packet.
pub open spec fn packet_header_text(len: nat) -> Seq<char> {
    seq!['P', 'K', 'T', ' '] + decimal(len) + seq!['\n']
}

/// The header that announces a raw packet of `len` bytes.
pub fn packet_header(len: usize) -> (r: String)
    ensures
        r@ == packet_header_text(len as nat),
{
    let mut s = String::new();
    push_chars(&mut s, &['P', 'K', 'T', ' '], 0, 4);
    push_decimal(&mut s, len as u64);
    push_char(&mut s, '\n');
    proof {
        assert(s@ =~= packet_header_text(len as nat));
    }
    s
}

/// What a received line says of a raw packet.
pub enum HeaderView {
    /// The line is no `PKT` header.
    NotHeader,
    /// A header announcing this many bytes.
    Length(nat),
    /// A header whose length exceeds `MAX_PACKET_LEN` (cut to `usize`).
    TooLarge(nat),
    /// A header whose length does not read as a 64-bit count.
    Invalid,
}

/// What a received line says of a raw packet: a line that starts with `PKT`
/// is a header, whose length is the rest of the line, trimmed.
pub open spec fn packet_header_view(t: Seq<char>) -> HeaderView {
    if starts_with(t, seq!['P', 'K', 'T']) {
        let n = trim(t.skip(3));
        match int_in(n, 10, false, 0, MAX_PACKET_LEN as int) {
            Some(v) => HeaderView::Length(v as nat),
            None => match int_in(n, 10, false, 0, u64::MAX as int) {
                Some(v) => HeaderView::TooLarge(if v > usize::MAX { usize::MAX as nat } else { v as nat }),
                None => HeaderView::Invalid,
            },
        }
    } else {
        HeaderView::NotHeader
    }
}

/// Reads a line that may announce a raw packet: `Ok(None)` for any other
/// line, `Ok(Some(len))` for a header, and an error for a header whose
/// length is unreadable or too large.
pub fn parse_packet_header(line: &str) -> (r: Result<Option<usize>, ProtocolError>)
    ensures
        match packet_header_view(line@) {
            HeaderView::NotHeader => r == Ok::<Option<usize>, ProtocolError>(None),
            HeaderView::Length(n) => r == Ok::<Option<usize>, ProtocolError>(Some(n as usize)),
            HeaderView::TooLarge(n) => r == Err::<Option<usize>, ProtocolError>(ProtocolError::PacketTooLarge(n as usize)),
            HeaderView::Invalid => r matches Err(ProtocolError::InvalidPacketHeader(l)) && l@ == line@,
        },
{
    let c = chars_of(line);
    let n = c.len();
    if !has_prefix(c.as_slice(), &['P', 'K', 'T']) {
        return Ok(None);
    }
    let (a, b) = trim_bounds(c.as_slice(), 3, n);
    proof {
        assert(c@.subrange(3, n as int) =~= line@.skip(3));
        assert(c@.subrange(0, n as int) =~= line@);
    }
    match parse_unsigned(c.as_slice(), a, b, 10, MAX_PACKET_LEN as u64) {
        Some(v) => Ok(Some(v as usize)),
        None => match parse_unsigned(c.as_slice(), a, b, 10, u64::MAX) {
            Some(v) => Err(ProtocolError::PacketTooLarge(if v > usize::MAX as u64 { usize::MAX } else { v as usize })),
            None => Err(ProtocolError::InvalidPacketHeader(crate::text::string_of(c.as_slice(), 0, n))),
        },
    }
}

/// A typed request that expects `OK`: the device's message, `Device` for
/// `ERR`, and `UnexpectedResponse` naming the command for JSON.
pub fn expect_success(resp: Response, command: &str) -> (r: Result<Option<String>, ProtocolError>)
    ensures
        match resp {
            Response::Success(m) => r == Ok::<Option<String>, ProtocolError>(m),
            Response::Error(e) => r == Err::<Option<String>, ProtocolError>(ProtocolError::Device(e)),
            Response::Json(_) => r matches Err(ProtocolError::UnexpectedResponse(c)) && c@ == command@,
        },
{
    match resp {
        Response::Success(m) => Ok(m),
        Response::Error(e) => Err(ProtocolError::Device(e)),
        Response::Json(_) => Err(ProtocolError::UnexpectedResponse(crate::text::string_of(chars_of(command).as_slice(), 0, command.unicode_len()))),
    }
}

/// A typed request that expects JSON: the document, `Device` for `ERR`,
/// and `UnexpectedResponse` naming the command for `OK`.
pub fn expect_json(resp: Response, command: &str) -> (r: Result<serde_json::Value, ProtocolError>)
    ensures
        match resp {
            Response::Json(v) => r == Ok::<serde_json::Value, ProtocolError>(v),
            Response::Error(e) => r == Err::<serde_json::Value, ProtocolError>(ProtocolError::Device(e)),
            Response::Success(_) => r matches Err(ProtocolError::UnexpectedResponse(c)) && c@ == command@,
        },
{
    match resp {
        Response::Json(v) => Ok(v),
        Response::Error(e) => Err(ProtocolError::Device(e)),
        Response::Success(_) => Err(ProtocolError::UnexpectedResponse(crate::text::string_of(chars_of(command).as_slice(), 0, command.unicode_len()))),
    }
}

/// Why a hexadecimal packet does not decode.
#[derive(Debug, Clone, Copy, PartialEq, Eq)]
pub enum HexError {
    /// A byte that is no hexadecimal digit, and where it stands.
    InvalidCharacter { c: char, index: usize },
    /// An odd number of digits.
    OddLength,
}

/// The value of an ASCII hexadecimal digit of either case; -1 for any other
/// byte.
pub open spec fn hex_value(b: u8) -> int {
    if 0x30 <= b <= 0x39 {
        b - 0x30
    } else if 0x41 <= b <= 0x46 {
        b - 0x41 + 10
    } else if 0x61 <= b <= 0x66 {
        b - 0x61 + 10
    } else {
        -1
    }
}

/// Index of the first byte that is no hexadecimal digit, or -1.
pub open spec fn first_non_hex(b: Seq<u8>) -> int
    decreases b.len(),
{
    if b.len() == 0 {
        -1
    } else if hex_value(b[0]) < 0 {
        0
    } else {
        let r = first_non_hex(b.drop_first());
        if r < 0 {
            -1
        } else {
            r + 1
        }
    }
}

/// The bytes that pairs of hexadecimal digits spell.
pub open spec fn hex_bytes(b: Seq<u8>) -> Seq<u8> {
    Seq::new(b.len() / 2, |i: int| (hex_value(b[2 * i]) * 16 + hex_value(b[2 * i + 1])) as u8)
}

/// What `hex::decode` makes of a text: an odd length is an error, then the
/// first byte that is no digit; else the bytes.
pub open spec fn hex_decoded(b: Seq<u8>) -> Result<Seq<u8>, HexError> {
    if b.len() % 2 != 0 {
        Err(HexError::OddLength)
    } else if first_non_hex(b) >= 0 {
        Err(HexError::InvalidCharacter { c: b[first_non_hex(b)] as char, index: first_non_hex(b) as usize })
    } else {
        Ok(hex_bytes(b))
    }
}

/// Relies on `hex::decode`: pairs of digits of either case become bytes;
/// an odd length is an error, else the first byte that is no digit.
#[verifier::external_body]
fn hex_decode(b: &[u8]) -> (r: Result<Vec<u8>, HexError>)
    ensures
        match hex_decoded(b@) {
            Ok(v) => r matches Ok(x) && x@ == v,
            Err(e) => r == Err::<Vec<u8>, HexError>(e),
        },
{
    match hex::decode(b) {
        Ok(v) => Ok(v),
        Err(hex::FromHexError::InvalidHexCharacter { c, index }) => Err(HexError::InvalidCharacter { c, index }),
        Err(hex::FromHexError::OddLength) => Err(HexError::OddLength),
        Err(hex::FromHexError::InvalidStringLength) => Err(HexError::OddLength),
    }
}

/// The packet that a hexadecimal text spells, once trimmed.
pub fn raw_packet(text: &str) -> (r: Result<Vec<u8>, HexError>)
    ensures
        match hex_decoded(encode_utf8(trim(text@))) {
            Ok(v) => r matches Ok(x) && x@ == v,
            Err(e) => r == Err::<Vec<u8>, HexError>(e),
        },
{
    let c = chars_of(text);
    let (a, b) = trim_bounds(c.as_slice(), 0, c.len());
    proof {
        assert(c@.subrange(0, c@.len() as int) =~= text@);
    }
    let t = crate::text::string_of(c.as_slice(), a, b);
    let bytes = t.as_str().as_bytes();
    proof {
        assert(bytes@ == encode_utf8(t@));
    }
    hex_decode(bytes)
}

/// Whether every byte is printable ASCII or ASCII white space.
pub open spec fn printable(b: Seq<u8>) -> bool {
    forall|i: int|
        0 <= i < b.len() ==> (0x21 <= #[trigger] b[i] <= 0x7e || b[i] == 0x20 || b[i] == 0x09
            || b[i] == 0x0a || b[i] == 0x0c || b[i] == 0x0d)
}

/// A received packet as text, where all of it is printable ASCII.
pub fn packet_text(packet: &[u8]) -> (r: Option<String>)
    ensures
        printable(packet@) ==> (r matches Some(t) && t@ == ascii_chars(packet@)),
        !printable(packet@) ==> r is None,
{
    let mut i: usize = 0;
    while i < packet.len()
        invariant
            i <= packet@.len(),
            forall|k: int|
                0 <= k < i ==> (0x21 <= #[trigger] packet@[k] <= 0x7e || packet@[k] == 0x20
                    || packet@[k] == 0x09 || packet@[k] == 0x0a || packet@[k] == 0x0c || packet@[k]
                    == 0x0d),
        decreases packet.len() - i,
    {
        let b = packet[i];
        if !((0x21 <= b && b <= 0x7e) || b == 0x20 || b == 0x09 || b == 0x0a || b == 0x0c || b == 0x0d) {
            return None;
        }
        i = i + 1;
    }
    proof {
        assert(ascii_bytes(packet@));
    }
    Some(utf8_lossy(packet))
}

/// Which advertisements to send.
#[derive(Debug, Clone, Copy, PartialEq, Eq)]
pub struct AdvertPlan {
    /// Send the local (direct-route) advertisement.
    pub local: bool,
    /// Send the flood advertisement.
    pub flood: bool,
    /// Pause between the two.
    pub pause_between: bool,
}

/// Which advertisements to send: both unless one kind was asked for
/// alone, with a pause between them when both go.
pub fn advert_plan(local_only: bool, flood_only: bool) -> (r: AdvertPlan)
    ensures
        r.local == !flood_only,
        r.flood == !local_only,
        r.pause_between == (!local_only && !flood_only),
{
    AdvertPlan { local: !flood_only, flood: !local_only, pause_between: !local_only && !flood_only }
}

} // verus!
