//! Commands for the device's settings, inbox and channels. A channel whose
//! name starts with `#` is public: its key is the SHA-256 digest of the name,
//! in standard base64.
use vstd::prelude::*;
use vstd::utf8::encode_utf8;
use crate::cli::{DeviceMode, MessagesAction};
use crate::text::{
    chars_of, lower_of, lowercase, push_chars, push_char, push_str, same_chars,
    starts_with, upper_of, uppercase,
};

verus! {

/// The SHA-256 digest of a byte string.
pub uninterp spec fn sha256_of(data: Seq<u8>) -> Seq<u8>;

/// The character of a 6-bit value in the standard base64 alphabet:
/// `A`-`Z`, `a`-`z`, `0`-`9`, `+`, `/`.
pub open spec fn base64_digit(n: int) -> char {
    if n < 26 {
        (65 + n) as char
    } else if n < 52 {
        (97 + n - 26) as char
    } else if n < 62 {
        (48 + n - 52) as char
    } else if n == 62 {
        '+'
    } else {
        '/'
    }
}

/// The standard base64 text of a byte string: four characters for each
/// three bytes, the last group padded with `=`.
pub open spec fn base64_of(data: Seq<u8>) -> Seq<char>
    decreases data.len(),
{
    if data.len() == 0 {
        Seq::empty()
    } else if data.len() == 1 {
        let x = data[0] as int;
        seq![base64_digit(x / 4), base64_digit((x % 4) * 16), '=', '=']
    } else if data.len() == 2 {
        let x = data[0] as int;
        let y = data[1] as int;
        seq![base64_digit(x / 4), base64_digit((x % 4) * 16 + y / 16), base64_digit((y % 16) * 4), '=']
    } else {
        let x = data[0] as int;
        let y = data[1] as int;
        let z = data[2] as int;
        seq![
            base64_digit(x / 4),
            base64_digit((x % 4) * 16 + y / 16),
            base64_digit((y % 16) * 4 + z / 64),
            base64_digit(z % 64),
        ] + base64_of(data.skip(3))
    }
}

/// Relies on `sha2::Sha256::digest`: the 32-byte digest of the input.
#[verifier::external_body]
pub(crate) fn sha256_digest(data: &[u8]) -> (r: Vec<u8>)
    ensures
        r@ == sha256_of(data@),
        r@.len() == 32,
{
    <sha2::Sha256 as sha2::Digest>::digest(data).to_vec()
}

/// Relies on `base64::Engine::encode` with the `STANDARD` engine: base64
/// with the standard alphabet and `=` padding.
#[verifier::external_body]
fn base64_standard(data: &[u8]) -> (r: String)
    ensures
        r@ == base64_of(data@),
{
    <base64::engine::GeneralPurpose as base64::Engine>::encode(&base64::engine::general_purpose::STANDARD, data)
}

/// The key of a channel: derived from a `#` name, else the one given.
pub open spec fn channel_key(name: Seq<char>, psk: Option<Seq<char>>) -> Option<Seq<char>> {
    if starts_with(name, seq!['#']) {
        Some(base64_of(sha256_of(encode_utf8(name))))
    } else {
        psk
    }
}

/// `CHANNEL JOIN <name> <key>`.
pub open spec fn join_text(name: Seq<char>, key: Seq<char>) -> Seq<char> {
    seq!['C', 'H', 'A', 'N', 'N', 'E', 'L', ' ', 'J', 'O', 'I', 'N', ' '] + name + seq![' '] + key
}

/// `CHANNEL LEAVE <name>`.
pub open spec fn leave_text(name: Seq<char>) -> Seq<char> {
    seq!['C', 'H', 'A', 'N', 'N', 'E', 'L', ' ', 'L', 'E', 'A', 'V', 'E', ' '] + name
}

/// The key of a channel: `None` for a private channel given no key.
pub fn channel_psk(name: &str, psk: Option<&str>) -> (r: Option<String>)
    ensures
        match channel_key(name@, match psk {
            Some(p) => Some(p@),
            None => None,
        }) {
            Some(k) => r matches Some(x) && x@ == k,
            None => r is None,
        },
{
    let c = chars_of(name);
    if c.len() > 0 && c[0] == '#' {
        proof {
            assert(name@.take(1) =~= seq!['#']);
        }
        let bytes = name.as_bytes();
        proof {
            assert(bytes@ == encode_utf8(name@));
        }
        let digest = sha256_digest(bytes);
        Some(base64_standard(digest.as_slice()))
    } else {
        proof {
            if name@.len() > 0 {
                assert(name@.take(1)[0] == name@[0]);
                assert(seq!['#'][0] == '#');
            }
            assert(!starts_with(name@, seq!['#']));
        }
        match psk {
            Some(p) => {
                let mut k = String::new();
                push_str(&mut k, p);
                proof {
                    assert(k@ =~= p@);
                }
                Some(k)
            },
            None => None,
        }
    }
}

/// The command that joins a channel: `None` for a private channel given no
/// key.
pub fn channel_join_command(name: &str, psk: Option<&str>) -> (r: Option<String>)
    ensures
        match channel_key(name@, match psk {
            Some(p) => Some(p@),
            None => None,
        }) {
            Some(k) => r matches Some(x) && x@ == join_text(name@, k),
            None => r is None,
        },
{
    match channel_psk(name, psk) {
        Some(key) => {
            let mut s = String::new();
            push_chars(&mut s, &['C', 'H', 'A', 'N', 'N', 'E', 'L', ' ', 'J', 'O', 'I', 'N', ' '], 0, 13);
            push_str(&mut s, name);
            push_char(&mut s, ' ');
            push_str(&mut s, key.as_str());
            proof {
                assert(s@ =~= join_text(name@, key@));
            }
            Some(s)
        },
        None => None,
    }
}

/// The command that leaves a channel.
pub fn channel_leave_command(name: &str) -> (r: String)
    ensures
        r@ == leave_text(name@),
{
    let mut s = String::new();
    push_chars(&mut s, &['C', 'H', 'A', 'N', 'N', 'E', 'L', ' ', 'L', 'E', 'A', 'V', 'E', ' '], 0, 14);
    push_str(&mut s, name);
    proof {
        assert(s@ =~= leave_text(name@));
    }
    s
}

/// The modes a device accepts, in lower case.
pub open spec fn valid_mode(m: Seq<char>) -> bool {
    m == seq!['c', 'l', 'i', 'e', 'n', 't'] || m == seq!['r', 'e', 'p', 'e', 'a', 't', 'e', 'r']
        || m == seq!['r', 'o', 'o', 'm']
}

/// `/mode <mode>` with the mode in lower case; `None` for an unknown mode.
pub open spec fn mode_text(mode: Seq<char>) -> Option<Seq<char>> {
    if valid_mode(lower_of(mode)) {
        Some(seq!['/', 'm', 'o', 'd', 'e', ' '] + lower_of(mode))
    } else {
        None
    }
}

/// The command that sets the device's role, given its name in any case;
/// `None` for a name that is no role.
pub fn mode_command(mode: &str) -> (r: Option<String>)
    ensures
        match mode_text(mode@) {
            Some(t) => r matches Some(x) && x@ == t,
            None => r is None,
        },
{
    let lower = lowercase(mode);
    let c = chars_of(lower.as_str());
    let ok = same_chars(c.as_slice(), &['c', 'l', 'i', 'e', 'n', 't'])
        || same_chars(c.as_slice(), &['r', 'e', 'p', 'e', 'a', 't', 'e', 'r'])
        || same_chars(c.as_slice(), &['r', 'o', 'o', 'm']);
    if !ok {
        return None;
    }
    let mut s = String::new();
    push_chars(&mut s, &['/', 'm', 'o', 'd', 'e', ' '], 0, 6);
    push_str(&mut s, lower.as_str());
    proof {
        assert(s@ =~= seq!['/', 'm', 'o', 'd', 'e', ' '] + lower_of(mode@));
    }
    Some(s)
}

impl DeviceMode {
    /// The role's name, as the device spells it.
    pub fn name(&self) -> (r: &'static str)
        ensures
            r@ == match self {
                DeviceMode::Client => "client"@,
                DeviceMode::Repeater => "repeater"@,
                DeviceMode::Room => "room"@,
            },
    {
        match self {
            DeviceMode::Client => "client",
            DeviceMode::Repeater => "repeater",
            DeviceMode::Room => "room",
        }
    }
}

/// `SET PRESET <preset>` with the preset in upper case.
pub open spec fn preset_text(preset: Seq<char>) -> Seq<char> {
    seq!['S', 'E', 'T', ' ', 'P', 'R', 'E', 'S', 'E', 'T', ' '] + upper_of(preset)
}

/// The command that applies a radio preset.
pub fn preset_command(preset: &str) -> (r: String)
    ensures
        r@ == preset_text(preset@),
{
    let upper = uppercase(preset);
    let mut s = String::new();
    push_chars(&mut s, &['S', 'E', 'T', ' ', 'P', 'R', 'E', 'S', 'E', 'T', ' '], 0, 11);
    push_str(&mut s, upper.as_str());
    proof {
        assert(s@ =~= preset_text(preset@));
    }
    s
}

/// `/time <time>`.
pub open spec fn time_text(time: Seq<char>) -> Seq<char> {
    seq!['/', 't', 'i', 'm', 'e', ' '] + time
}

/// The command that sets the device's clock to a given time.
pub fn time_command(time: &str) -> (r: String)
    ensures
        r@ == time_text(time@),
{
    let mut s = String::new();
    push_chars(&mut s, &['/', 't', 'i', 'm', 'e', ' '], 0, 6);
    push_str(&mut s, time);
    proof {
        assert(s@ =~= time_text(time@));
    }
    s
}

/// `MESSAGES`, or `MESSAGES CLEAR`.
pub open spec fn messages_text(action: MessagesAction) -> Seq<char> {
    match action {
        MessagesAction::Show => seq!['M', 'E', 'S', 'S', 'A', 'G', 'E', 'S'],
        MessagesAction::Clear => seq!['M', 'E', 'S', 'S', 'A', 'G', 'E', 'S', ' ', 'C', 'L', 'E', 'A', 'R'],
    }
}

impl MessagesAction {
    /// The command for this inbox action.
    pub fn command(&self) -> (r: String)
        ensures
            r@ == messages_text(*self),
    {
        let mut s = String::new();
        push_chars(&mut s, &['M', 'E', 'S', 'S', 'A', 'G', 'E', 'S'], 0, 8);
        match self {
            MessagesAction::Show => {},
            MessagesAction::Clear => push_chars(&mut s, &[' ', 'C', 'L', 'E', 'A', 'R'], 0, 6),
        }
        proof {
            assert(s@ =~= messages_text(*self));
        }
        s
    }
}

} // verus!
