use druid_shell::application::Application;
use druid_shell::clipboard::{
    ClipboardFormat, ClipboardItem, ClipboardRead, ClipboardWrite, GlyphsBinaryPlist, Pdf,
};
use druid_shell::contents::ClipboardContents;
use druid_shell::native::{NativeCall, NativeReply, Payload, TEXT_FORMAT};
use druid_shell::platform::{DataType, Identifier, Platform, ReadOpts, WriteOpts};
use druid_shell::registry::FIRST_REGISTERED;

/// A descriptor that stores text under its own name and reads it back as a string.
struct Note;

impl ClipboardWrite for Note {
    fn write_options(&self, platform: Platform) -> Option<WriteOpts> {
        match platform {
            Platform::MacOs => Some(WriteOpts {
                identifier: Identifier::uti("org.example.note"),
                data_type: DataType::String,
            }),
            _ => None,
        }
    }
}

impl ClipboardRead for Note {
    type Data = String;

    fn read_options(&self, platform: Platform) -> Option<ReadOpts> {
        match platform {
            Platform::MacOs => Some(ReadOpts { identifier: Identifier::uti("org.example.note") }),
            _ => None,
        }
    }

    fn parse(&self, data: Vec<u8>) -> Option<String> {
        String::from_utf8(data).ok()
    }
}

/// A descriptor whose identifier cannot be registered.
struct Broken;

impl ClipboardWrite for Broken {
    fn write_options(&self, _platform: Platform) -> Option<WriteOpts> {
        Some(WriteOpts { identifier: Identifier::uti("bad\0name"), data_type: DataType::Data })
    }
}

impl ClipboardRead for Broken {
    type Data = Vec<u8>;

    fn read_options(&self, _platform: Platform) -> Option<ReadOpts> {
        Some(ReadOpts { identifier: Identifier::uti("bad\0name") })
    }

    fn parse(&self, data: Vec<u8>) -> Option<Vec<u8>> {
        Some(data)
    }
}

/// A reader of PDF data that rejects everything.
struct Strict;

impl ClipboardRead for Strict {
    type Data = u32;

    fn read_options(&self, platform: Platform) -> Option<ReadOpts> {
        Pdf.read_options(platform)
    }

    fn parse(&self, _data: Vec<u8>) -> Option<u32> {
        None
    }
}

fn formats_present(contents: &mut ClipboardContents) -> Vec<u32> {
    let mut found = Vec::new();
    assert_eq!(contents.perform(NativeCall::Open), NativeReply::Opened(true));
    let mut after = 0;
    loop {
        match contents.perform(NativeCall::Next { after }) {
            NativeReply::Next { format: 0, error } => {
                assert_eq!(error, 0);
                break;
            }
            NativeReply::Next { format, .. } => {
                found.push(format);
                after = format;
            }
            other => panic!("unexpected reply {:?}", other),
        }
    }
    assert_eq!(contents.perform(NativeCall::Close), NativeReply::Done);
    found
}

#[test]
fn hello_round_trip() {
    let mut contents = ClipboardContents::new(Platform::Other);
    let item = ClipboardItem::new("hello");
    Application::set_clipboard_contents(&mut contents, item);
    assert_eq!(contents.string_value(), Some("hello".to_string()));
}

#[test]
fn text_round_trip_of_the_empty_string() {
    let mut contents = ClipboardContents::new(Platform::Windows);
    Application::set_clipboard_contents(&mut contents, ClipboardItem::new(""));
    assert_eq!(contents.string_value(), Some(String::new()));
}

#[test]
fn text_round_trip_of_non_ascii_text() {
    let text = "Grüße, мир, 世界 🌍";
    let mut contents = ClipboardContents::new(Platform::MacOs);
    Application::set_clipboard_contents(&mut contents, ClipboardItem::new(text));
    assert_eq!(contents.string_value(), Some(text.to_string()));
}

#[test]
fn the_last_text_format_wins() {
    let mut contents = ClipboardContents::new(Platform::Other);
    let item = ClipboardItem::new("one").add_format("two");
    Application::set_clipboard_contents(&mut contents, item);
    assert_eq!(contents.string_value(), Some("two".to_string()));
    assert_eq!(formats_present(&mut contents), vec![TEXT_FORMAT]);
}

#[test]
fn get_clipboard_contents_gives_a_text_item() {
    let mut contents = ClipboardContents::new(Platform::Other);
    assert!(Application::get_clipboard_contents(&mut contents).is_none());
    Application::set_clipboard_contents(&mut contents, ClipboardItem::new("hi"));
    let item = Application::get_clipboard_contents(&mut contents).expect("text is there");
    let formats = item.iter_supported(Platform::Other);
    assert_eq!(formats.len(), 1);
    assert!(matches!(formats[0], ClipboardFormat::Text(text) if text == "hi"));
}

#[test]
fn custom_round_trip_is_byte_exact() {
    let bytes = vec![0x25, 0x50, 0x44, 0x46, 0x00, 0xff, 0xfe, 0x80];
    let mut contents = ClipboardContents::new(Platform::MacOs);
    let item = ClipboardItem::new((bytes.clone(), Pdf));
    Application::set_clipboard_contents(&mut contents, item);
    assert_eq!(contents.custom_value(&Pdf), Some(bytes));
}

#[test]
fn custom_round_trip_of_no_bytes() {
    let mut contents = ClipboardContents::new(Platform::MacOs);
    let item = ClipboardItem::new((Vec::new(), Pdf));
    Application::set_clipboard_contents(&mut contents, item);
    assert_eq!(contents.custom_value(&Pdf), Some(Vec::new()));
}

#[test]
fn text_and_custom_in_one_item() {
    let mut contents = ClipboardContents::new(Platform::MacOs);
    let item = ClipboardItem::new("caption").add_format((vec![1u8, 2, 3], Pdf));
    Application::set_clipboard_contents(&mut contents, item);
    assert_eq!(contents.string_value(), Some("caption".to_string()));
    assert_eq!(contents.custom_value(&Pdf), Some(vec![1u8, 2, 3]));
    assert_eq!(formats_present(&mut contents), vec![TEXT_FORMAT, FIRST_REGISTERED]);
}

#[test]
fn string_kind_is_stored_as_text() {
    let mut contents = ClipboardContents::new(Platform::MacOs);
    let item = ClipboardItem::new(("déjà vu".as_bytes().to_vec(), Note));
    Application::set_clipboard_contents(&mut contents, item);
    assert_eq!(contents.custom_value(&Note), Some("déjà vu".to_string()));
    assert_eq!(contents.string_value(), None);
}

#[test]
fn string_kind_replaces_invalid_bytes() {
    let mut contents = ClipboardContents::new(Platform::MacOs);
    let item = ClipboardItem::new((vec![b'a', 0xff, b'b'], Note));
    Application::set_clipboard_contents(&mut contents, item);
    assert_eq!(contents.custom_value(&Note), Some("a\u{fffd}b".to_string()));
}

#[test]
fn property_list_bytes_come_back() {
    let mut contents = ClipboardContents::new(Platform::MacOs);
    let item = ClipboardItem::new((b"bplist00".to_vec(), GlyphsBinaryPlist));
    Application::set_clipboard_contents(&mut contents, item);
    assert_eq!(
        contents.perform(NativeCall::Register {
            identifier: "Glyphs elements pasteboard type".to_string()
        }),
        NativeReply::Registered(FIRST_REGISTERED)
    );
    assert_eq!(contents.perform(NativeCall::Open), NativeReply::Opened(true));
    assert_eq!(
        contents.perform(NativeCall::Read { format: FIRST_REGISTERED }),
        NativeReply::Data(Some(b"bplist00".to_vec()))
    );
}

#[test]
fn descriptor_without_options_reads_nothing_and_asks_nothing() {
    for platform in [Platform::Windows, Platform::Other] {
        let mut contents = ClipboardContents::new(platform);
        let item = ClipboardItem::new((vec![1u8], Pdf));
        Application::set_clipboard_contents(&mut contents, item);
        assert_eq!(contents.custom_value(&Pdf), None);
        // Nothing was registered meanwhile: a new identifier gets the first token.
        assert_eq!(
            contents.perform(NativeCall::Register { identifier: "fresh".to_string() }),
            NativeReply::Registered(FIRST_REGISTERED)
        );
    }
}

#[test]
fn unsupported_only_item_writes_nothing() {
    let mut contents = ClipboardContents::new(Platform::Other);
    Application::set_clipboard_contents(&mut contents, ClipboardItem::new("old"));
    let item = ClipboardItem::new((vec![1u8, 2, 3], Pdf));
    assert!(item.iter_supported(Platform::Other).is_empty());
    Application::set_clipboard_contents(&mut contents, item);
    assert!(formats_present(&mut contents).is_empty());
    assert_eq!(contents.string_value(), None);
}

#[test]
fn unrelated_format_gives_no_value() {
    let mut contents = ClipboardContents::new(Platform::MacOs);
    let item = ClipboardItem::new((vec![7u8; 4], GlyphsBinaryPlist));
    Application::set_clipboard_contents(&mut contents, item);
    assert_eq!(contents.custom_value(&Pdf), None);
    assert_eq!(contents.string_value(), None);
}

#[test]
fn failed_acquisition_leaves_the_old_value() {
    let mut contents = ClipboardContents::new(Platform::MacOs);
    Application::set_clipboard_contents(&mut contents, ClipboardItem::new("old"));
    contents.set_busy(true);
    let item = ClipboardItem::new("new").add_format((vec![1u8], Pdf));
    Application::set_clipboard_contents(&mut contents, item);
    assert_eq!(contents.string_value(), None);
    assert_eq!(contents.custom_value(&Pdf), None);
    contents.set_busy(false);
    assert_eq!(contents.string_value(), Some("old".to_string()));
    assert_eq!(contents.custom_value(&Pdf), None);
}

#[test]
fn writing_twice_is_writing_once() {
    let make = || ClipboardItem::new("text").add_format((vec![1u8, 2], Pdf));
    let mut once = ClipboardContents::new(Platform::MacOs);
    Application::set_clipboard_contents(&mut once, make());
    let mut twice = ClipboardContents::new(Platform::MacOs);
    Application::set_clipboard_contents(&mut twice, make());
    Application::set_clipboard_contents(&mut twice, make());
    assert_eq!(formats_present(&mut once), formats_present(&mut twice));
    assert_eq!(once.string_value(), twice.string_value());
    assert_eq!(
        once.custom_value(&Pdf),
        twice.custom_value(&Pdf)
    );
    assert_eq!(twice.custom_value(&Pdf), Some(vec![1u8, 2]));
}

#[test]
fn a_write_replaces_what_was_there() {
    let mut contents = ClipboardContents::new(Platform::MacOs);
    let item = ClipboardItem::new("text").add_format((vec![1u8, 2], Pdf));
    Application::set_clipboard_contents(&mut contents, item);
    Application::set_clipboard_contents(&mut contents, ClipboardItem::new("t"));
    assert_eq!(contents.string_value(), Some("t".to_string()));
    assert_eq!(contents.custom_value(&Pdf), None);
}

#[test]
fn a_full_registry_skips_the_custom_format_only() {
    let mut contents = ClipboardContents::with_capacity(Platform::MacOs, 0);
    let item = ClipboardItem::new((vec![1u8], Pdf)).add_format("still here");
    Application::set_clipboard_contents(&mut contents, item);
    assert_eq!(contents.string_value(), Some("still here".to_string()));
    assert_eq!(contents.custom_value(&Pdf), None);
    assert_eq!(formats_present(&mut contents), vec![TEXT_FORMAT]);
}

#[test]
fn an_identifier_with_a_nul_is_skipped() {
    let mut contents = ClipboardContents::new(Platform::MacOs);
    let item = ClipboardItem::new((vec![1u8], Broken)).add_format("text");
    assert_eq!(item.iter_supported(Platform::MacOs).len(), 2);
    Application::set_clipboard_contents(&mut contents, item);
    assert_eq!(formats_present(&mut contents), vec![TEXT_FORMAT]);
    assert_eq!(contents.custom_value(&Broken), None);
    assert_eq!(
        contents.perform(NativeCall::Register { identifier: "first".to_string() }),
        NativeReply::Registered(FIRST_REGISTERED)
    );
}

#[test]
fn a_failed_parse_gives_no_value() {
    let mut contents = ClipboardContents::new(Platform::MacOs);
    Application::set_clipboard_contents(
        &mut contents,
        ClipboardItem::new((vec![1u8], Pdf)),
    );
    assert_eq!(contents.custom_value(&Strict), None);
    assert_eq!(contents.custom_value(&Pdf), Some(vec![1u8]));
}

#[test]
fn contents_answer_each_call() {
    let mut contents = ClipboardContents::new(Platform::Other);
    let write = |format| NativeCall::Write { format, payload: Payload::Data(vec![1, 2]) };
    // Without access nothing is stored or read.
    assert_eq!(contents.perform(write(TEXT_FORMAT)), NativeReply::Written(false));
    assert_eq!(
        contents.perform(NativeCall::Next { after: 0 }),
        NativeReply::Next { format: 0, error: 1418 }
    );
    assert_eq!(contents.perform(NativeCall::Open), NativeReply::Opened(true));
    // A format must be announced and known before it is stored.
    assert_eq!(contents.perform(write(TEXT_FORMAT)), NativeReply::Written(false));
    assert_eq!(
        contents.perform(NativeCall::Declare { formats: vec![TEXT_FORMAT, 0xC005] }),
        NativeReply::Done
    );
    assert_eq!(contents.perform(write(0xC005)), NativeReply::Written(false));
    assert_eq!(contents.perform(write(TEXT_FORMAT)), NativeReply::Written(true));
    assert_eq!(
        contents.perform(NativeCall::IsAvailable { format: TEXT_FORMAT }),
        NativeReply::Available(true)
    );
    assert_eq!(
        contents.perform(NativeCall::IsAvailable { format: 0xC005 }),
        NativeReply::Available(false)
    );
    assert_eq!(
        contents.perform(NativeCall::Read { format: TEXT_FORMAT }),
        NativeReply::Data(Some(vec![1, 2]))
    );
    // Bytes under the text format are no string.
    assert_eq!(contents.perform(NativeCall::ReadText), NativeReply::Text(None));
    assert_eq!(contents.perform(NativeCall::Clear), NativeReply::Done);
    assert_eq!(
        contents.perform(NativeCall::IsAvailable { format: TEXT_FORMAT }),
        NativeReply::Available(false)
    );
    assert_eq!(contents.perform(NativeCall::Close), NativeReply::Done);
}

#[test]
fn text_is_read_as_its_utf8_bytes() {
    let mut contents = ClipboardContents::new(Platform::Other);
    Application::set_clipboard_contents(&mut contents, ClipboardItem::new("é"));
    assert_eq!(contents.perform(NativeCall::Open), NativeReply::Opened(true));
    assert_eq!(
        contents.perform(NativeCall::Read { format: TEXT_FORMAT }),
        NativeReply::Data(Some(vec![0xc3, 0xa9]))
    );
}

#[test]
fn default_contents_are_empty() {
    let mut contents = ClipboardContents::default();
    assert_eq!(contents.string_value(), None);
    assert!(formats_present(&mut contents).is_empty());
    let mut copy = contents.clone();
    Application::set_clipboard_contents(&mut copy, ClipboardItem::new("copy"));
    assert_eq!(copy.string_value(), Some("copy".to_string()));
    assert_eq!(contents.string_value(), None);
}
