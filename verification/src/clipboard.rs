//! The platform-neutral value model: an item is an ordered list of alternative
//! representations of one payload.

use vstd::prelude::*;
use vstd::std_specs::convert::FromSpecImpl;
use crate::platform::{DataType, Identifier, Platform, ReadOpts, WriteOpts};

verus! {

/// A type of data that can be written to the clipboard. An implementor states in
/// `writable` what `write_options` returns.
pub trait ClipboardWrite {
    /// The options under which this data is written on `platform`; `None` where the
    /// platform has no representation for it, which is the default.
    open spec fn writable(&self, platform: Platform) -> Option<WriteOpts> {
        None
    }

    /// Returns the options for writing this data on `platform`. If `None`, this data
    /// is not written there.
    fn write_options(&self, platform: Platform) -> (opts: Option<WriteOpts>)
        ensures
            opts == self.writable(platform),
    ;
}

/// A type of data that can be read from the clipboard. An implementor states in
/// `readable` what `read_options` returns, and in `parses` what `parse` may return.
pub trait ClipboardRead {
    /// The parsed type of the data.
    type Data;

    /// The options under which this data is found on `platform`; `None` where the
    /// platform has no representation for it, which is the default.
    open spec fn readable(&self, platform: Platform) -> Option<ReadOpts> {
        None
    }

    /// Whether `out` is an acceptable outcome of parsing `data`. By default every
    /// outcome is.
    open spec fn parses(&self, data: Seq<u8>, out: Option<Self::Data>) -> bool {
        true
    }

    /// Returns the options for retrieving the raw data on `platform`.
    fn read_options(&self, platform: Platform) -> (opts: Option<ReadOpts>)
        ensures
            opts == self.readable(platform),
    ;

    /// Attempts to parse raw clipboard data. Malformed data gives `None`.
    fn parse(&self, data: Vec<u8>) -> (out: Option<Self::Data>)
        ensures
            self.parses(data@, out),
    ;
}

/// One representation of some data that can be put on the clipboard.
#[derive(Debug)]
pub enum ClipboardFormat {
    Text(String),
    Custom { data: Vec<u8>, info: WriteInfo },
}

/// What a descriptor answers on each platform, recorded when a custom format is made.
#[derive(Clone, Copy, Debug, PartialEq, Eq)]
pub struct WriteInfo {
    pub macos: Option<WriteOpts>,
    pub windows: Option<WriteOpts>,
    pub other: Option<WriteOpts>,
}

impl WriteInfo {
    /// Records the answers of `descriptor`.
    pub fn of<T: ClipboardWrite>(descriptor: &T) -> (info: Self)
        ensures
            forall|platform: Platform| #[trigger]
                info.writable(platform) == descriptor.writable(platform),
    {
        WriteInfo {
            macos: descriptor.write_options(Platform::MacOs),
            windows: descriptor.write_options(Platform::Windows),
            other: descriptor.write_options(Platform::Other),
        }
    }
}

impl ClipboardWrite for WriteInfo {
    open spec fn writable(&self, platform: Platform) -> Option<WriteOpts> {
        match platform {
            Platform::MacOs => self.macos,
            Platform::Windows => self.windows,
            Platform::Other => self.other,
        }
    }

    fn write_options(&self, platform: Platform) -> (opts: Option<WriteOpts>) {
        match platform {
            Platform::MacOs => self.macos,
            Platform::Windows => self.windows,
            Platform::Other => self.other,
        }
    }
}

/// An item to be put on the clipboard, as a list of alternative representations.
#[derive(Debug)]
pub struct ClipboardItem(Vec<ClipboardFormat>);

impl View for ClipboardItem {
    type V = Seq<ClipboardFormat>;

    closed spec fn view(&self) -> Seq<ClipboardFormat> {
        self.0@
    }
}

/// The formats of `formats` that `platform` supports, in the order they have there.
pub open spec fn supported_formats(formats: Seq<ClipboardFormat>, platform: Platform) -> Seq<
    ClipboardFormat,
> {
    formats.filter(|f: ClipboardFormat| f.supported(platform))
}

impl ClipboardFormat {
    /// Text is supported everywhere; a custom format where its descriptor has options.
    pub open spec fn supported(self, platform: Platform) -> bool {
        match self {
            ClipboardFormat::Text(_) => true,
            ClipboardFormat::Custom { info, .. } => info.writable(platform).is_some(),
        }
    }

    /// Create a new `ClipboardFormat`.
    pub fn new<T>(item: T) -> (format: Self) where ClipboardFormat: From<T>
        ensures
            call_ensures(<ClipboardFormat as From<T>>::from, (item,), format),
    {
        ClipboardFormat::from(item)
    }

    /// Whether `platform` has a representation for this format.
    pub fn supports_current_platform(&self, platform: Platform) -> (b: bool)
        ensures
            b == self.supported(platform),
    {
        match self {
            ClipboardFormat::Text(_) => true,
            ClipboardFormat::Custom { info, .. } => info.write_options(platform).is_some(),
        }
    }
}

impl ClipboardItem {
    /// Create a new `ClipboardItem` with one representation.
    pub fn new<T>(item: T) -> (created: Self) where ClipboardFormat: From<T>
        ensures
            created@.len() == 1,
            call_ensures(<ClipboardFormat as From<T>>::from, (item,), created@[0]),
    {
        let mut formats: Vec<ClipboardFormat> = Vec::new();
        formats.push(ClipboardFormat::from(item));
        ClipboardItem(formats)
    }

    /// A builder method to add a representation to this item.
    pub fn add_format<T>(self, item: T) -> (extended: Self) where ClipboardFormat: From<T>
        ensures
            extended@.len() == self@.len() + 1,
            extended@.drop_last() == self@,
            call_ensures(<ClipboardFormat as From<T>>::from, (item,), extended@.last()),
    {
        let mut formats = self.0;
        formats.push(ClipboardFormat::from(item));
        ClipboardItem(formats)
    }

    /// All the formats, in the order they were added.
    pub fn formats(&self) -> (formats: &Vec<ClipboardFormat>)
        ensures
            formats@ == self@,
    {
        &self.0
    }

    /// The formats supported on `platform`, in the order they were added.
    pub fn iter_supported(&self, platform: Platform) -> (formats: Vec<&ClipboardFormat>)
        ensures
            formats@.len() == supported_formats(self@, platform).len(),
            forall|i: int|
                0 <= i < formats@.len() ==> *#[trigger] formats@[i] == supported_formats(
                    self@,
                    platform,
                )[i],
    {
        let mut formats: Vec<&ClipboardFormat> = Vec::new();
        let mut i: usize = 0;
        proof {
            reveal(Seq::filter);
        }
        while i < self.0.len()
            invariant
                i <= self.0.len(),
                formats@.len() == supported_formats(self@.take(i as int), platform).len(),
                forall|k: int|
                    0 <= k < formats@.len() ==> *#[trigger] formats@[k] == supported_formats(
                        self@.take(i as int),
                        platform,
                    )[k],
            decreases self.0.len() - i,
        {
            proof {
                reveal(Seq::filter);
                let next = self@.take(i + 1);
                assert(next.drop_last() == self@.take(i as int));
                assert(next.last() == self@[i as int]);
            }
            if self.0[i].supports_current_platform(platform) {
                formats.push(&self.0[i]);
            }
            i += 1;
        }
        proof {
            assert(self@.take(i as int) == self@);
        }
        formats
    }
}

/// The pasteboard type of the Glyphs font editor: a binary property list.
#[derive(Clone, Copy, Debug)]
pub struct GlyphsBinaryPlist;

impl ClipboardWrite for GlyphsBinaryPlist {
    open spec fn writable(&self, platform: Platform) -> Option<WriteOpts> {
        match platform {
            Platform::MacOs => Some(
                WriteOpts {
                    identifier: Identifier::Uti("Glyphs elements pasteboard type"),
                    data_type: DataType::BinaryPlist,
                },
            ),
            _ => None,
        }
    }

    fn write_options(&self, platform: Platform) -> (opts: Option<WriteOpts>) {
        match platform {
            Platform::MacOs => Some(
                WriteOpts {
                    identifier: Identifier::uti("Glyphs elements pasteboard type"),
                    data_type: DataType::BinaryPlist,
                },
            ),
            _ => None,
        }
    }
}

/// A PDF document, carried as opaque bytes.
#[derive(Clone, Copy, Debug)]
pub struct Pdf;

impl ClipboardWrite for Pdf {
    open spec fn writable(&self, platform: Platform) -> Option<WriteOpts> {
        match platform {
            Platform::MacOs => Some(
                WriteOpts { identifier: Identifier::Uti("com.adobe.pdf"), data_type: DataType::Data },
            ),
            _ => None,
        }
    }

    fn write_options(&self, platform: Platform) -> (opts: Option<WriteOpts>) {
        match platform {
            Platform::MacOs => Some(
                WriteOpts { identifier: Identifier::uti("com.adobe.pdf"), data_type: DataType::Data },
            ),
            _ => None,
        }
    }
}

impl ClipboardRead for Pdf {
    type Data = Vec<u8>;

    open spec fn readable(&self, platform: Platform) -> Option<ReadOpts> {
        match platform {
            Platform::MacOs => Some(ReadOpts { identifier: Identifier::Uti("com.adobe.pdf") }),
            _ => None,
        }
    }

    /// Every byte sequence parses, to itself.
    open spec fn parses(&self, data: Seq<u8>, out: Option<Vec<u8>>) -> bool {
        out matches Some(bytes) && bytes@ == data
    }

    fn read_options(&self, platform: Platform) -> (opts: Option<ReadOpts>) {
        match platform {
            Platform::MacOs => Some(ReadOpts { identifier: Identifier::uti("com.adobe.pdf") }),
            _ => None,
        }
    }

    fn parse(&self, data: Vec<u8>) -> (out: Option<Vec<u8>>) {
        Some(data)
    }
}

impl<'a> From<&'a str> for ClipboardFormat {
    /// A text format that holds the characters of `src`.
    fn from(src: &'a str) -> (format: ClipboardFormat)
        ensures
            format matches ClipboardFormat::Text(text) && text@ == src@,
    {
        ClipboardFormat::Text(src.to_owned())
    }
}

/// The new string is known by its characters only, which `from` states.
impl<'a> FromSpecImpl<&'a str> for ClipboardFormat {
    open spec fn obeys_from_spec() -> bool {
        false
    }

    open spec fn from_spec(src: &'a str) -> ClipboardFormat {
        arbitrary()
    }
}

impl<T: ClipboardWrite> From<(Vec<u8>, T)> for ClipboardFormat {
    /// A custom format of the bytes, with what the descriptor answers on each
    /// platform.
    fn from(src: (Vec<u8>, T)) -> (format: ClipboardFormat)
        ensures
            format matches ClipboardFormat::Custom { data, info } && data == src.0 && forall|
                platform: Platform,
            | #[trigger] info.writable(platform) == src.1.writable(platform),
    {
        let info = WriteInfo::of(&src.1);
        ClipboardFormat::Custom { data: src.0, info }
    }
}

/// The recorded answers are known platform by platform, which `from` states.
impl<T: ClipboardWrite> FromSpecImpl<(Vec<u8>, T)> for ClipboardFormat {
    open spec fn obeys_from_spec() -> bool {
        false
    }

    open spec fn from_spec(src: (Vec<u8>, T)) -> ClipboardFormat {
        arbitrary()
    }
}

impl From<String> for ClipboardFormat {
    /// A text format that holds `src`.
    fn from(src: String) -> (format: ClipboardFormat) {
        ClipboardFormat::Text(src)
    }
}

impl FromSpecImpl<String> for ClipboardFormat {
    open spec fn obeys_from_spec() -> bool {
        true
    }

    open spec fn from_spec(src: String) -> ClipboardFormat {
        ClipboardFormat::Text(src)
    }
}

impl From<String> for ClipboardItem {
    /// An item of one text format that holds `src`.
    fn from(src: String) -> (item: ClipboardItem)
        ensures
            item@ == seq![ClipboardFormat::Text(src)],
    {
        let mut formats: Vec<ClipboardFormat> = Vec::new();
        formats.push(ClipboardFormat::Text(src));
        ClipboardItem(formats)
    }
}

/// An item is known by its formats only, which `from` states.
impl FromSpecImpl<String> for ClipboardItem {
    open spec fn obeys_from_spec() -> bool {
        false
    }

    open spec fn from_spec(src: String) -> ClipboardItem {
        arbitrary()
    }
}

impl<'a> From<&'a str> for ClipboardItem {
    /// An item of one text format that holds the characters of `src`.
    fn from(src: &'a str) -> (item: ClipboardItem)
        ensures
            item@.len() == 1,
            item@[0] matches ClipboardFormat::Text(text) && text@ == src@,
    {
        let mut formats: Vec<ClipboardFormat> = Vec::new();
        formats.push(ClipboardFormat::Text(src.to_owned()));
        ClipboardItem(formats)
    }
}

/// An item is known by its formats only, which `from` states.
impl<'a> FromSpecImpl<&'a str> for ClipboardItem {
    open spec fn obeys_from_spec() -> bool {
        false
    }

    open spec fn from_spec(src: &'a str) -> ClipboardItem {
        arbitrary()
    }
}

impl From<Vec<ClipboardFormat>> for ClipboardItem {
    /// An item of the given formats, in their order.
    fn from(src: Vec<ClipboardFormat>) -> (item: ClipboardItem)
        ensures
            item@ == src@,
    {
        ClipboardItem(src)
    }
}

/// An item is known by its formats only, which `from` states.
impl FromSpecImpl<Vec<ClipboardFormat>> for ClipboardItem {
    open spec fn obeys_from_spec() -> bool {
        false
    }

    open spec fn from_spec(src: Vec<ClipboardFormat>) -> ClipboardItem {
        arbitrary()
    }
}

} // verus!
