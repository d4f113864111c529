//! Names of native formats, for diagnostics, and the test that an identifier can be
//! registered at all.

use vstd::prelude::*;
use vstd::string::StrSliceExecFns;
use vstd::utf8::{decode_utf8, valid_utf8};
use crate::native::ERROR_INVALID_PARAMETER;

verus! {

/// The text that a lossy UTF-8 decoding makes of `bytes`.
pub uninterp spec fn utf8_lossy(bytes: Seq<u8>) -> Seq<char>;

/// Calls `String::from_utf8_lossy`, which decodes `bytes` as UTF-8 and puts the
/// replacement character in place of each invalid sequence. The result depends on
/// the bytes alone, and valid UTF-8 is decoded as it stands.
#[verifier::external_body]
fn string_from_utf8_lossy(bytes: &Vec<u8>) -> (text: String)
    ensures
        text@ == utf8_lossy(bytes@),
        valid_utf8(bytes@) ==> text@ == decode_utf8(bytes@),
{
    String::from_utf8_lossy(bytes).into_owned()
}

/// The text that bytes stand for when they are read leniently: their decoding where
/// they are valid UTF-8, and what the lossy decoding makes of them where not.
pub open spec fn lossy_text(bytes: Seq<u8>) -> Seq<char> {
    if valid_utf8(bytes) {
        decode_utf8(bytes)
    } else {
        utf8_lossy(bytes)
    }
}

/// Decodes `bytes` leniently.
pub fn decode_lossy(bytes: &Vec<u8>) -> (text: String)
    ensures
        text@ == lossy_text(bytes@),
{
    string_from_utf8_lossy(bytes)
}

/// The names of the formats that every platform of the Windows family predefines.
pub open spec fn standard_format_name(format: u32) -> Option<Seq<char>> {
    if format == 1 {
        Some("CF_TEXT"@)
    } else if format == 2 {
        Some("CF_BITMAP"@)
    } else if format == 3 {
        Some("CF_METAFILEPICT"@)
    } else if format == 4 {
        Some("CF_SYLK"@)
    } else if format == 5 {
        Some("CF_DIF"@)
    } else if format == 6 {
        Some("CF_TIFF"@)
    } else if format == 7 {
        Some("CF_OEMTEXT"@)
    } else if format == 8 {
        Some("CF_DIB"@)
    } else if format == 9 {
        Some("CF_PALETTE"@)
    } else if format == 10 {
        Some("CF_PENDATA"@)
    } else if format == 11 {
        Some("CF_RIFF"@)
    } else if format == 12 {
        Some("CF_WAVE"@)
    } else if format == 13 {
        Some("CF_UNICODETEXT"@)
    } else if format == 14 {
        Some("CF_ENHMETAFILE"@)
    } else if format == 15 {
        Some("CF_HDROP"@)
    } else if format == 16 {
        Some("CF_LOCALE"@)
    } else if format == 17 {
        Some("CF_DIBV5"@)
    } else if format == 0x0080 {
        Some("CF_OWNERDISPLAY"@)
    } else if format == 0x0081 {
        Some("CF_DSPTEXT"@)
    } else if format == 0x0082 {
        Some("CF_DSPBITMAP"@)
    } else if format == 0x0083 {
        Some("CF_DSPMETAFILEPICT"@)
    } else if format == 0x008E {
        Some("CF_DSPENHMETAFILE"@)
    } else if format == 0x0200 {
        Some("CF_PRIVATEFIRST"@)
    } else if format == 0x02FF {
        Some("CF_PRIVATELAST"@)
    } else if format == 0x0300 {
        Some("CF_GDIOBJFIRST"@)
    } else if format == 0x03FF {
        Some("CF_GDIOBJLAST"@)
    } else {
        None
    }
}

fn named(name: &'static str) -> (out: Option<String>)
    ensures
        out matches Some(text) && text@ == name@,
{
    Some(name.to_owned())
}

/// The name of a predefined format, or `None` for any other token.
pub fn get_standard_format_name(format: u32) -> (name: Option<String>)
    ensures
        name.is_some() == standard_format_name(format).is_some(),
        name matches Some(text) ==> text@ == standard_format_name(format).unwrap(),
{
    match format {
        1 => named("CF_TEXT"),
        2 => named("CF_BITMAP"),
        3 => named("CF_METAFILEPICT"),
        4 => named("CF_SYLK"),
        5 => named("CF_DIF"),
        6 => named("CF_TIFF"),
        7 => named("CF_OEMTEXT"),
        8 => named("CF_DIB"),
        9 => named("CF_PALETTE"),
        10 => named("CF_PENDATA"),
        11 => named("CF_RIFF"),
        12 => named("CF_WAVE"),
        13 => named("CF_UNICODETEXT"),
        14 => named("CF_ENHMETAFILE"),
        15 => named("CF_HDROP"),
        16 => named("CF_LOCALE"),
        17 => named("CF_DIBV5"),
        0x0080 => named("CF_OWNERDISPLAY"),
        0x0081 => named("CF_DSPTEXT"),
        0x0082 => named("CF_DSPBITMAP"),
        0x0083 => named("CF_DSPMETAFILEPICT"),
        0x008E => named("CF_DSPENHMETAFILE"),
        0x0200 => named("CF_PRIVATEFIRST"),
        0x02FF => named("CF_PRIVATELAST"),
        0x0300 => named("CF_GDIOBJFIRST"),
        0x03FF => named("CF_GDIOBJLAST"),
        _ => None,
    }
}

/// What the platform answered when asked for the name of a registered format.
#[derive(Clone, Debug, PartialEq, Eq)]
pub enum NameLookup {
    /// The bytes of the name.
    Found(Vec<u8>),
    /// The platform's error code.
    Failed(u32),
}

/// The name under which a format is reported: its predefined name if it has one;
/// else the name the platform gave, decoded leniently; else `Unknown Format` where
/// the platform does not know the token, and nothing for any other failure.
pub open spec fn format_name(format: u32, lookup: NameLookup) -> Seq<char> {
    match standard_format_name(format) {
        Some(name) => name,
        None => match lookup {
            NameLookup::Found(bytes) => lossy_text(bytes@),
            NameLookup::Failed(code) => if code == ERROR_INVALID_PARAMETER {
                "Unknown Format"@
            } else {
                Seq::empty()
            },
        },
    }
}

/// The name of a format for diagnostics, given the platform's answer for it.
pub fn get_format_name(format: u32, lookup: &NameLookup) -> (name: String)
    ensures
        name@ == format_name(format, *lookup),
{
    if let Some(name) = get_standard_format_name(format) {
        return name;
    }
    match lookup {
        NameLookup::Found(bytes) => decode_lossy(bytes),
        NameLookup::Failed(code) => {
            if *code == ERROR_INVALID_PARAMETER {
                "Unknown Format".to_owned()
            } else {
                String::new()
            }
        },
    }
}

/// An identifier can be handed to the platform only if it holds no NUL.
pub open spec fn registrable(identifier: Seq<char>) -> bool {
    !identifier.contains('\0')
}

/// Whether `identifier` can be registered: it must not hold a NUL.
pub fn is_registrable(identifier: &str) -> (ok: bool)
    ensures
        ok == registrable(identifier@),
{
    let n = identifier.unicode_len();
    let mut i: usize = 0;
    while i < n
        invariant
            i <= n,
            n == identifier@.len(),
            forall|k: int| 0 <= k < i ==> identifier@[k] != '\0',
        decreases n - i,
    {
        if identifier.get_char(i) == '\0' {
            return false;
        }
        i += 1;
    }
    true
}

} // verus!
