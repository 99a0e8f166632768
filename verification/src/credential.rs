//! Reading the access token: decoding a stored credential blob, and
//! choosing the token among the places of the documents that may hold it.

use vstd::prelude::*;
use vstd::string::*;
use vstd::utf8::*;

verus! {

/// `String::from_utf8`: succeeds exactly on valid UTF-8 and then gives
/// the decoded text.
#[verifier::external_body]
pub(crate) fn string_from_utf8(bytes: &[u8]) -> (res: Option<String>)
    ensures
        res is Some <==> valid_utf8(bytes@),
        res matches Some(s) ==> s@ == decode_utf8(bytes@),
{
    String::from_utf8(bytes.to_vec()).ok()
}

/// `u16::from_ne_bytes`: the unit made of two bytes in the machine's
/// byte order. Which order that is depends on the machine, so the
/// contract states that it is one of the two.
#[verifier::external_body]
pub(crate) fn u16_from_ne_bytes(b0: u8, b1: u8) -> (res: u16)
    ensures
        res == b0 as int + 256 * b1 as int || res == 256 * b0 as int + b1 as int,
{
    u16::from_ne_bytes([b0, b1])
}

/// The UTF-16 units of a blob read in pairs of bytes, low byte first
/// (a trailing odd byte is dropped).
pub open spec fn little_endian_units(blob: Seq<u8>) -> Seq<u16> {
    Seq::new(blob.len() / 2, |i: int| (blob[2 * i] as int + 256 * blob[2 * i + 1] as int) as u16)
}

/// The UTF-16 units of a blob read in pairs of bytes, high byte first
/// (a trailing odd byte is dropped).
pub open spec fn big_endian_units(blob: Seq<u8>) -> Seq<u16> {
    Seq::new(blob.len() / 2, |i: int| (256 * blob[2 * i] as int + blob[2 * i + 1] as int) as u16)
}

/// Reads a blob as UTF-16 units in pairs of bytes, in the machine's byte
/// order (a trailing odd byte is dropped). The order is learnt once, from
/// how `u16::from_ne_bytes` reads the bytes 1 and 0.
pub fn native_units(blob: &[u8]) -> (res: Vec<u16>)
    ensures
        res@ == little_endian_units(blob@) || res@ == big_endian_units(blob@),
{
    let little = u16_from_ne_bytes(1, 0) == 1;
    let len = blob.len();
    let n = len / 2;
    let mut units: Vec<u16> = Vec::new();
    let mut i: usize = 0;
    while i < n
        invariant
            i <= n,
            len == blob@.len(),
            n == len / 2,
            2 * n <= len,
            units@.len() == i,
            little ==> units@ == little_endian_units(blob@).take(i as int),
            !little ==> units@ == big_endian_units(blob@).take(i as int),
        decreases n - i,
    {
        let k: usize = 2 * i;
        let b0 = blob[k] as u16;
        let b1 = blob[k + 1] as u16;
        let u: u16 = if little {
            b0 + 256 * b1
        } else {
            256 * b0 + b1
        };
        units.push(u);
        proof {
            if little {
                assert(units@ =~= little_endian_units(blob@).take(i + 1));
            } else {
                assert(units@ =~= big_endian_units(blob@).take(i + 1));
            }
        }
        i = i + 1;
    }
    assert(little_endian_units(blob@).take(n as int) =~= little_endian_units(blob@));
    assert(big_endian_units(blob@).take(n as int) =~= big_endian_units(blob@));
    units
}

/// A UTF-16 unit that is not a surrogate and so stands for itself.
pub open spec fn plain_unit(u: u16) -> bool {
    u < 0xD800 || u > 0xDFFF
}

/// A leading surrogate.
pub open spec fn high_surrogate(u: u16) -> bool {
    0xD800 <= u <= 0xDBFF
}

/// A trailing surrogate.
pub open spec fn low_surrogate(u: u16) -> bool {
    0xDC00 <= u <= 0xDFFF
}

/// The text that UTF-16 units encode: a unit outside the surrogate range
/// stands for itself, a leading surrogate followed by a trailing one
/// stands for the character they combine to, and any other surrogate
/// makes the units invalid (`None`).
pub open spec fn utf16_text(units: Seq<u16>) -> Option<Seq<char>>
    decreases units.len(),
{
    if units.len() == 0 {
        Some(Seq::empty())
    } else if plain_unit(units[0]) {
        match utf16_text(units.drop_first()) {
            Some(r) => Some(seq![(units[0] as u32) as char] + r),
            None => None,
        }
    } else if units.len() >= 2 && high_surrogate(units[0]) && low_surrogate(units[1]) {
        let c = 0x10000 + (units[0] - 0xD800) * 0x400 + (units[1] - 0xDC00);
        match utf16_text(units.skip(2)) {
            Some(r) => Some(seq![(c as u32) as char] + r),
            None => None,
        }
    } else {
        None
    }
}

/// `String::from_utf16`: decodes UTF-16 units, failing on an unpaired
/// surrogate.
#[verifier::external_body]
pub(crate) fn string_from_utf16(units: &[u16]) -> (res: Option<String>)
    ensures
        res.deep_view() == utf16_text(units@),
{
    String::from_utf16(units).ok()
}

/// Decodes the secret of a stored credential: as UTF-8 when it is valid
/// UTF-8, otherwise as UTF-16 in the machine's byte order.
pub fn decode_credential_blob(blob: &[u8]) -> (res: Option<String>)
    ensures
        valid_utf8(blob@) ==> res.deep_view() == Some(decode_utf8(blob@)),
        !valid_utf8(blob@) ==> res.deep_view() == utf16_text(little_endian_units(blob@))
            || res.deep_view() == utf16_text(big_endian_units(blob@)),
{
    match string_from_utf8(blob) {
        Some(s) => Some(s),
        None => {
            let units = native_units(blob);
            string_from_utf16(units.as_slice())
        },
    }
}

/// What a JSON document holds at one place where a token may stand.
pub enum TokenPlace {
    /// Nothing stands there.
    Absent,
    /// A value other than a string stands there.
    NotText,
    /// A string stands there.
    Text(String),
}

/// The two places of a JSON document where a token may stand: the
/// nested `token.access_token` and the top-level `access_token`.
pub struct TokenDocument {
    pub nested: TokenPlace,
    pub top: TokenPlace,
}

/// The string at a place, when a string stands there.
pub open spec fn place_text(p: TokenPlace) -> Option<Seq<char>> {
    match p {
        TokenPlace::Text(s) => Some(s@),
        _ => None,
    }
}

/// The token of a credential document: the value at `token.access_token`
/// when that place exists, else the one at `access_token`; it counts only
/// when it is a string.
pub open spec fn credential_token(d: TokenDocument) -> Option<Seq<char>> {
    if d.nested is Absent {
        place_text(d.top)
    } else {
        place_text(d.nested)
    }
}

/// The token of the OAuth token file: the string at `token.access_token`.
pub open spec fn token_file_token(d: TokenDocument) -> Option<Seq<char>> {
    place_text(d.nested)
}

/// The token of the OAuth credentials file: the string at
/// `access_token`.
pub open spec fn creds_file_token(d: TokenDocument) -> Option<Seq<char>> {
    place_text(d.top)
}

fn take_place(p: &TokenPlace) -> (res: Option<String>)
    ensures
        res.deep_view() == place_text(*p),
{
    match p {
        TokenPlace::Text(s) => Some(s.clone()),
        _ => None,
    }
}

/// Reads the token out of a credential document.
pub fn credential_access_token(d: &TokenDocument) -> (res: Option<String>)
    ensures
        res.deep_view() == credential_token(*d),
{
    match &d.nested {
        TokenPlace::Absent => take_place(&d.top),
        _ => take_place(&d.nested),
    }
}

/// Reads the token out of the OAuth token file.
pub fn token_file_access_token(d: &TokenDocument) -> (res: Option<String>)
    ensures
        res.deep_view() == token_file_token(*d),
{
    take_place(&d.nested)
}

/// Reads the token out of the OAuth credentials file.
pub fn creds_file_access_token(d: &TokenDocument) -> (res: Option<String>)
    ensures
        res.deep_view() == creds_file_token(*d),
{
    take_place(&d.top)
}

/// The access token from the first source that yields one: the stored
/// credential, then the OAuth token file, then the OAuth credentials
/// file. Each source is the document read from it, when it could be read
/// and parsed.
pub open spec fn access_token(
    credential: Option<TokenDocument>,
    token_file: Option<TokenDocument>,
    creds_file: Option<TokenDocument>,
) -> Option<Seq<char>> {
    let a = match credential {
        Some(d) => credential_token(d),
        None => None,
    };
    let b = match token_file {
        Some(d) => token_file_token(d),
        None => None,
    };
    let c = match creds_file {
        Some(d) => creds_file_token(d),
        None => None,
    };
    if a is Some {
        a
    } else if b is Some {
        b
    } else {
        c
    }
}

/// Picks the access token from the documents of its three sources.
pub fn access_token_from(
    credential: Option<&TokenDocument>,
    token_file: Option<&TokenDocument>,
    creds_file: Option<&TokenDocument>,
) -> (res: Option<String>)
    ensures
        res.deep_view() == access_token(
            match credential {
                Some(d) => Some(*d),
                None => None,
            },
            match token_file {
                Some(d) => Some(*d),
                None => None,
            },
            match creds_file {
                Some(d) => Some(*d),
                None => None,
            },
        ),
{
    if let Some(d) = credential {
        if let Some(tok) = credential_access_token(d) {
            return Some(tok);
        }
    }
    if let Some(d) = token_file {
        if let Some(tok) = token_file_access_token(d) {
            return Some(tok);
        }
    }
    match creds_file {
        Some(d) => creds_file_access_token(d),
        None => None,
    }
}

} // verus!
