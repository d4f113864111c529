use druid_shell::formats::{
    get_format_name, get_standard_format_name, is_registrable, NameLookup,
};
use druid_shell::native::{ERROR_INVALID_PARAMETER, NO_FORMAT, TEXT_FORMAT};
use druid_shell::registry::{Registry, FIRST_REGISTERED, MAX_REGISTERED};

#[test]
fn standard_names() {
    let table: [(u32, &str); 26] = [
        (1, "CF_TEXT"),
        (2, "CF_BITMAP"),
        (3, "CF_METAFILEPICT"),
        (4, "CF_SYLK"),
        (5, "CF_DIF"),
        (6, "CF_TIFF"),
        (7, "CF_OEMTEXT"),
        (8, "CF_DIB"),
        (9, "CF_PALETTE"),
        (10, "CF_PENDATA"),
        (11, "CF_RIFF"),
        (12, "CF_WAVE"),
        (13, "CF_UNICODETEXT"),
        (14, "CF_ENHMETAFILE"),
        (15, "CF_HDROP"),
        (16, "CF_LOCALE"),
        (17, "CF_DIBV5"),
        (0x0080, "CF_OWNERDISPLAY"),
        (0x0081, "CF_DSPTEXT"),
        (0x0082, "CF_DSPBITMAP"),
        (0x0083, "CF_DSPMETAFILEPICT"),
        (0x008E, "CF_DSPENHMETAFILE"),
        (0x0200, "CF_PRIVATEFIRST"),
        (0x02FF, "CF_PRIVATELAST"),
        (0x0300, "CF_GDIOBJFIRST"),
        (0x03FF, "CF_GDIOBJLAST"),
    ];
    for (format, name) in table {
        assert_eq!(get_standard_format_name(format), Some(name.to_string()));
    }
}

#[test]
fn other_tokens_have_no_standard_name() {
    for format in [0u32, 18, 0x7F, 0x84, 0x8D, 0x8F, 0x201, 0x2FE, 0x301, 0x400, 0xC000, u32::MAX] {
        assert_eq!(get_standard_format_name(format), None);
    }
}

#[test]
fn the_text_format_is_unicode_text() {
    assert_eq!(get_standard_format_name(TEXT_FORMAT), Some("CF_UNICODETEXT".to_string()));
}

#[test]
fn format_name_prefers_the_standard_name() {
    let lookup = NameLookup::Found(b"ignored".to_vec());
    assert_eq!(get_format_name(8, &lookup), "CF_DIB");
    assert_eq!(get_format_name(8, &NameLookup::Failed(ERROR_INVALID_PARAMETER)), "CF_DIB");
}

#[test]
fn format_name_of_a_registered_format() {
    assert_eq!(get_format_name(0xC010, &NameLookup::Found(b"HTML Format".to_vec())), "HTML Format");
    assert_eq!(get_format_name(0xC010, &NameLookup::Found(vec![b'a', 0xff])), "a\u{fffd}");
}

#[test]
fn format_name_of_an_unknown_format() {
    assert_eq!(get_format_name(0xC010, &NameLookup::Failed(87)), "Unknown Format");
    assert_eq!(get_format_name(0xC010, &NameLookup::Failed(5)), "");
    assert_eq!(get_format_name(0xC010, &NameLookup::Failed(0)), "");
}

#[test]
fn registrable_identifiers() {
    assert!(is_registrable("com.adobe.pdf"));
    assert!(is_registrable(""));
    assert!(is_registrable("日本語"));
    assert!(!is_registrable("\0"));
    assert!(!is_registrable("ab\0cd"));
    assert!(!is_registrable("trailing\0"));
}

#[test]
fn registry_gives_each_name_one_token() {
    let mut registry = Registry::new(8);
    let a = registry.register("a");
    let b = registry.register("b");
    assert_eq!(a, FIRST_REGISTERED);
    assert_eq!(b, FIRST_REGISTERED + 1);
    assert_eq!(registry.register("a"), a);
    assert_eq!(registry.register("b"), b);
    assert_eq!(registry.name_of(a), Some(&"a".to_string()));
    assert_eq!(registry.name_of(b), Some(&"b".to_string()));
    assert_eq!(registry.name_of(b + 1), None);
    assert_eq!(registry.name_of(TEXT_FORMAT), None);
    assert_eq!(registry.name_of(NO_FORMAT), None);
}

#[test]
fn a_full_registry_registers_nothing_new() {
    let mut registry = Registry::new(1);
    assert_eq!(registry.register("only"), FIRST_REGISTERED);
    assert_eq!(registry.register("more"), NO_FORMAT);
    assert_eq!(registry.register("only"), FIRST_REGISTERED);
    let mut none = Registry::new(0);
    assert_eq!(none.register("x"), NO_FORMAT);
}

#[test]
fn registry_capacity_is_capped() {
    let mut registry = Registry::new(usize::MAX);
    for i in 0..MAX_REGISTERED {
        assert_eq!(registry.register(&format!("n{}", i)), FIRST_REGISTERED + i as u32);
    }
    assert_eq!(registry.register("one too many"), NO_FORMAT);
    assert_eq!(registry.name_of(0xFFFF), Some(&format!("n{}", MAX_REGISTERED - 1)));
}
