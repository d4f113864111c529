use druid_shell::clipboard::{
    ClipboardFormat, ClipboardItem, ClipboardRead, ClipboardWrite, GlyphsBinaryPlist, Pdf,
    WriteInfo,
};
use druid_shell::platform::{DataType, Identifier, Platform, ReadOpts, WriteOpts};

struct Rtf;

impl ClipboardWrite for Rtf {
    fn write_options(&self, platform: Platform) -> Option<WriteOpts> {
        match platform {
            Platform::Windows => Some(WriteOpts {
                identifier: Identifier::uti("Rich Text Format"),
                data_type: DataType::Data,
            }),
            _ => None,
        }
    }
}

fn texts(formats: &[&ClipboardFormat]) -> Vec<String> {
    let mut out = Vec::new();
    for format in formats {
        match format {
            ClipboardFormat::Text(text) => out.push(text.clone()),
            ClipboardFormat::Custom { data, .. } => out.push(format!("custom:{}", data.len())),
        }
    }
    out
}

#[test]
fn text_is_supported_everywhere() {
    let item = ClipboardItem::new("hello");
    assert_eq!(item.iter_supported(Platform::Other).len(), 1);
    assert_eq!(item.iter_supported(Platform::Windows).len(), 1);
    assert_eq!(item.iter_supported(Platform::MacOs).len(), 1);
}

#[test]
fn new_accepts_strings_slices_and_pairs() {
    let owned = ClipboardItem::new(String::from("owned"));
    assert_eq!(texts(&owned.iter_supported(Platform::Other)), vec!["owned".to_string()]);
    let slice = ClipboardItem::new("slice");
    assert_eq!(texts(&slice.iter_supported(Platform::Other)), vec!["slice".to_string()]);
    let pair = ClipboardItem::new((vec![1u8, 2, 3], Pdf));
    assert_eq!(texts(&pair.iter_supported(Platform::MacOs)), vec!["custom:3".to_string()]);
}

#[test]
fn format_new_converts() {
    assert!(matches!(ClipboardFormat::new("a"), ClipboardFormat::Text(text) if text == "a"));
    assert!(matches!(
        ClipboardFormat::new((vec![9u8], Pdf)),
        ClipboardFormat::Custom { data, .. } if data == vec![9u8]
    ));
}

#[test]
fn item_from_conversions() {
    let a: ClipboardItem = String::from("x").into();
    assert_eq!(texts(&a.iter_supported(Platform::Other)), vec!["x".to_string()]);
    let b: ClipboardItem = "y".into();
    assert_eq!(texts(&b.iter_supported(Platform::Other)), vec!["y".to_string()]);
    let c: ClipboardItem = vec![ClipboardFormat::from("p"), ClipboardFormat::from("q")].into();
    assert_eq!(
        texts(&c.iter_supported(Platform::Other)),
        vec!["p".to_string(), "q".to_string()]
    );
}

#[test]
fn iter_supported_keeps_order_and_drops_the_unsupported() {
    let item = ClipboardItem::new("first")
        .add_format((vec![1u8], Pdf))
        .add_format("second")
        .add_format((vec![1u8, 2], Rtf))
        .add_format((vec![1u8, 2, 3], GlyphsBinaryPlist));
    assert_eq!(
        texts(&item.iter_supported(Platform::MacOs)),
        vec!["first", "custom:1", "second", "custom:3"]
    );
    assert_eq!(
        texts(&item.iter_supported(Platform::Windows)),
        vec!["first", "second", "custom:2"]
    );
    assert_eq!(texts(&item.iter_supported(Platform::Other)), vec!["first", "second"]);
}

#[test]
fn iter_supported_of_no_formats_is_empty() {
    let item: ClipboardItem = Vec::<ClipboardFormat>::new().into();
    assert!(item.iter_supported(Platform::MacOs).is_empty());
}

#[test]
fn iter_supported_can_be_repeated() {
    let item = ClipboardItem::new("a").add_format((vec![0u8], Pdf));
    let once = texts(&item.iter_supported(Platform::MacOs));
    let again = texts(&item.iter_supported(Platform::MacOs));
    assert_eq!(once, again);
}

#[test]
fn unsupported_custom_format_is_invisible() {
    let item = ClipboardItem::new((vec![1u8, 2, 3], Pdf));
    assert!(item.iter_supported(Platform::Windows).is_empty());
    assert!(item.iter_supported(Platform::Other).is_empty());
}

#[test]
fn custom_descriptor_of_a_caller() {
    let item = ClipboardItem::new((vec![1u8, 2, 3], Rtf)).add_format((vec![4u8], Pdf));
    assert_eq!(item.iter_supported(Platform::Windows).len(), 1);
    assert_eq!(item.iter_supported(Platform::MacOs).len(), 1);
    assert_eq!(item.iter_supported(Platform::Other).len(), 0);
}

#[test]
fn supports_current_platform_follows_the_descriptor() {
    assert!(ClipboardFormat::from("t").supports_current_platform(Platform::Other));
    let pdf = ClipboardFormat::from((vec![1u8], Pdf));
    assert!(pdf.supports_current_platform(Platform::MacOs));
    assert!(!pdf.supports_current_platform(Platform::Windows));
    assert!(!pdf.supports_current_platform(Platform::Other));
}

#[test]
fn builtin_descriptors() {
    assert_eq!(
        Pdf.write_options(Platform::MacOs),
        Some(WriteOpts {
            identifier: Identifier::Uti("com.adobe.pdf"),
            data_type: DataType::Data
        })
    );
    assert_eq!(Pdf.write_options(Platform::Windows), None);
    assert_eq!(
        Pdf.read_options(Platform::MacOs),
        Some(ReadOpts { identifier: Identifier::Uti("com.adobe.pdf") })
    );
    assert_eq!(Pdf.read_options(Platform::Other), None);
    assert_eq!(
        GlyphsBinaryPlist.write_options(Platform::MacOs),
        Some(WriteOpts {
            identifier: Identifier::Uti("Glyphs elements pasteboard type"),
            data_type: DataType::BinaryPlist
        })
    );
    assert_eq!(GlyphsBinaryPlist.write_options(Platform::Other), None);
}

#[test]
fn pdf_parse_is_the_identity() {
    assert_eq!(Pdf.parse(vec![]), Some(vec![]));
    assert_eq!(Pdf.parse(vec![0xff, 0x00, 0x80]), Some(vec![0xff, 0x00, 0x80]));
}

#[test]
fn write_info_records_each_platform() {
    let info = WriteInfo::of(&Rtf);
    assert_eq!(info.macos, None);
    assert_eq!(info.other, None);
    assert_eq!(info.windows, Rtf.write_options(Platform::Windows));
    assert_eq!(info.write_options(Platform::Windows), Rtf.write_options(Platform::Windows));
}

#[test]
fn identifier_name() {
    assert_eq!(Identifier::uti("com.adobe.pdf"), Identifier::Uti("com.adobe.pdf"));
    assert_eq!(Identifier::uti("public.rtf").to_string(), "public.rtf");
}
