//! Firmware releases: the names of a release's files, and the check of a
//! downloaded image against its published SHA-256 checksum.
use vstd::prelude::*;
use crate::channels::{sha256_digest, sha256_of};
use crate::device::{hex_pair, push_hex};
use crate::text::{
    chars_of, is_space, lead_space, lower_of, lowercase, push_chars, push_str, same_chars, space,
    string_of, trim_start,
};

verus! {

/// A published firmware release.
#[derive(Debug, Clone, PartialEq, Eq)]
pub struct Release {
    pub tag_name: String,
    pub name: String,
    pub assets: Vec<Asset>,
}

/// A file attached to a release.
#[derive(Debug, Clone, PartialEq, Eq)]
pub struct Asset {
    pub name: String,
    pub browser_download_url: String,
}

/// Why a downloaded image was refused.
#[derive(Debug, Clone, PartialEq, Eq)]
pub enum FirmwareError {
    /// The checksum file holds no checksum.
    MalformedChecksumFile,
    /// The image does not have the published checksum.
    Mismatch { expected: String, actual: String },
}

/// `meshgrid-<env>-<version>.bin`.
pub open spec fn image_name(env: Seq<char>, version: Seq<char>) -> Seq<char> {
    seq!['m', 'e', 's', 'h', 'g', 'r', 'i', 'd', '-'] + env + seq!['-'] + version + seq!['.', 'b', 'i', 'n']
}

/// The file name of the image for a build environment and version.
pub fn image_file_name(env: &str, version: &str) -> (r: String)
    ensures
        r@ == image_name(env@, version@),
{
    let mut s = String::new();
    push_chars(&mut s, &['m', 'e', 's', 'h', 'g', 'r', 'i', 'd', '-'], 0, 9);
    push_str(&mut s, env);
    push_chars(&mut s, &['-'], 0, 1);
    push_str(&mut s, version);
    push_chars(&mut s, &['.', 'b', 'i', 'n'], 0, 4);
    proof {
        assert(s@ =~= image_name(env@, version@));
    }
    s
}

/// The file name of the checksum of an image: its name and `.sha256`.
pub fn checksum_file_name(image: &str) -> (r: String)
    ensures
        r@ == image@ + seq!['.', 's', 'h', 'a', '2', '5', '6'],
{
    let mut s = String::new();
    push_str(&mut s, image);
    push_chars(&mut s, &['.', 's', 'h', 'a', '2', '5', '6'], 0, 7);
    s
}

/// Index of the first asset named `name`, or -1.
pub open spec fn asset_index(assets: Seq<Asset>, name: Seq<char>) -> int
    decreases assets.len(),
{
    if assets.len() == 0 {
        -1
    } else if assets[0].name@ == name {
        0
    } else {
        let r = asset_index(assets.drop_first(), name);
        if r < 0 {
            -1
        } else {
            r + 1
        }
    }
}

proof fn lemma_asset_index_range(assets: Seq<Asset>, name: Seq<char>)
    ensures
        -1 <= asset_index(assets, name) < assets.len(),
    decreases assets.len(),
{
    if assets.len() > 0 {
        lemma_asset_index_range(assets.drop_first(), name);
    }
}

/// The position of the first asset of a release with the given name.
pub fn find_asset(assets: &Vec<Asset>, name: &str) -> (r: Option<usize>)
    ensures
        match r {
            Some(i) => asset_index(assets@, name@) == i as int,
            None => asset_index(assets@, name@) == -1,
        },
{
    let want = chars_of(name);
    let mut i: usize = 0;
    proof {
        assert(assets@.skip(0) =~= assets@);
        lemma_asset_index_range(assets@, name@);
    }
    while i < assets.len()
        invariant
            i <= assets@.len(),
            want@ == name@,
            asset_index(assets@, name@) == if asset_index(assets@.skip(i as int), name@) < 0 {
                -1
            } else {
                asset_index(assets@.skip(i as int), name@) + i
            },
        decreases assets.len() - i,
    {
        let have = chars_of(assets[i].name.as_str());
        proof {
            let t = assets@.skip(i as int);
            assert(t[0] == assets@[i as int]);
            assert(t.drop_first() =~= assets@.skip(i + 1));
            lemma_asset_index_range(t.drop_first(), name@);
        }
        if same_chars(have.as_slice(), want.as_slice()) {
            return Some(i);
        }
        i = i + 1;
    }
    None
}

/// Number of characters before the first white space.
pub open spec fn word_len(s: Seq<char>) -> nat
    decreases s.len(),
{
    if s.len() > 0 && !is_space(s[0]) {
        1 + word_len(s.drop_first())
    } else {
        0
    }
}

/// The first white-space-separated word of a text; empty where there is
/// none.
pub open spec fn first_word(s: Seq<char>) -> Seq<char> {
    let t = trim_start(s);
    t.take(word_len(t) as int)
}

/// Lower-case hexadecimal of a byte string, two digits a byte.
pub open spec fn hex_string(b: Seq<u8>) -> Seq<char>
    decreases b.len(),
{
    if b.len() == 0 {
        Seq::empty()
    } else {
        hex_string(b.drop_last()) + hex_pair(b.last())
    }
}

/// The verdict on an image: the checksum file's first word, in lower case,
/// must equal the image's SHA-256 digest in lower-case hexadecimal.
pub open spec fn checksum_verdict(file: Seq<char>, image: Seq<u8>) -> Option<bool> {
    let w = first_word(file);
    if w.len() == 0 {
        None
    } else {
        Some(lower_of(w) == hex_string(sha256_of(image)))
    }
}

proof fn lemma_word_len(s: Seq<char>, k: int)
    requires
        0 <= k <= s.len(),
        forall|m: int| 0 <= m < k ==> !is_space(s[m]),
        k == s.len() || is_space(s[k]),
    ensures
        word_len(s) == k,
    decreases k,
{
    if k > 0 {
        let t = s.drop_first();
        assert forall|m: int| 0 <= m < k - 1 implies !is_space(t[m]) by {
            assert(t[m] == s[m + 1]);
        }
        if k < s.len() {
            assert(t[k - 1] == s[k]);
        }
        lemma_word_len(t, k - 1);
    }
}

proof fn lemma_lead_space_scan(s: Seq<char>, k: int)
    requires
        0 <= k <= s.len(),
        forall|m: int| 0 <= m < k ==> is_space(s[m]),
        k == s.len() || !is_space(s[k]),
    ensures
        lead_space(s) == k,
    decreases k,
{
    if k > 0 {
        let t = s.drop_first();
        assert forall|m: int| 0 <= m < k - 1 implies is_space(t[m]) by {
            assert(t[m] == s[m + 1]);
        }
        if k < s.len() {
            assert(t[k - 1] == s[k]);
        }
        lemma_lead_space_scan(t, k - 1);
    }
}

/// Lower-case hexadecimal of a byte string.
fn to_hex(b: &Vec<u8>) -> (r: String)
    ensures
        r@ == hex_string(b@),
{
    let mut s = String::new();
    let mut i: usize = 0;
    while i < b.len()
        invariant
            i <= b@.len(),
            s@ == hex_string(b@.take(i as int)),
        decreases b.len() - i,
    {
        push_hex(&mut s, b[i], true);
        proof {
            let t = b@.take(i + 1);
            assert(t.drop_last() =~= b@.take(i as int));
            assert(t.last() == b@[i as int]);
        }
        i = i + 1;
    }
    proof {
        assert(b@.take(b@.len() as int) =~= b@);
    }
    s
}

/// Checks a downloaded image against the contents of its checksum file.
pub fn verify_checksum(file: &str, image: &[u8]) -> (r: Result<(), FirmwareError>)
    ensures
        match checksum_verdict(file@, image@) {
            None => r == Err::<(), FirmwareError>(FirmwareError::MalformedChecksumFile),
            Some(true) => r is Ok,
            Some(false) => r matches Err(FirmwareError::Mismatch { expected, actual }) && expected@
                == lower_of(first_word(file@)) && actual@ == hex_string(sha256_of(image@)),
        },
{
    let c = chars_of(file);
    let mut a: usize = 0;
    while a < c.len() && space(c[a])
        invariant
            a <= c@.len(),
            forall|m: int| 0 <= m < a ==> is_space(c@[m]),
        decreases c.len() - a,
    {
        a = a + 1;
    }
    let mut b: usize = a;
    while b < c.len() && !space(c[b])
        invariant
            a <= b <= c@.len(),
            forall|m: int| a <= m < b ==> !is_space(c@[m]),
        decreases c.len() - b,
    {
        b = b + 1;
    }
    proof {
        lemma_lead_space_scan(c@, a as int);
        let t = trim_start(c@);
        assert(t =~= c@.skip(a as int));
        assert forall|m: int| 0 <= m < b - a implies !is_space(t[m]) by {
            assert(t[m] == c@[a + m]);
        }
        if b < c@.len() {
            assert(t[b - a] == c@[b as int]);
        }
        lemma_word_len(t, b - a);
        assert(c@.subrange(a as int, b as int) =~= first_word(file@));
    }
    if a == b {
        return Err(FirmwareError::MalformedChecksumFile);
    }
    let word = string_of(c.as_slice(), a, b);
    let expected = lowercase(word.as_str());
    let digest = sha256_digest(image);
    let actual = to_hex(&digest);
    let ec = chars_of(expected.as_str());
    let ac = chars_of(actual.as_str());
    if same_chars(ec.as_slice(), ac.as_slice()) {
        Ok(())
    } else {
        Err(FirmwareError::Mismatch { expected, actual })
    }
}

} // verus!
