use druid_shell::clipboard::{ClipboardItem, ClipboardWrite, GlyphsBinaryPlist, Pdf};
use druid_shell::native::{NativeCall, NativeReply, Payload, NO_FORMAT, TEXT_FORMAT};
use druid_shell::platform::{DataType, Identifier, Platform, ReadOpts, WriteOpts};
use druid_shell::reader::{ReadOp, TextOp, SCAN_LIMIT};
use druid_shell::writer::{declared_formats, encode, make_entry, make_plan, Entry, WriteOp};

struct Nul;

impl ClipboardWrite for Nul {
    fn write_options(&self, _platform: Platform) -> Option<WriteOpts> {
        Some(WriteOpts { identifier: Identifier::uti("a\0b"), data_type: DataType::Data })
    }
}

/// Runs a write against scripted replies and returns the calls it made.
fn calls_of_write(item: &ClipboardItem, platform: Platform, replies: &[NativeReply]) -> Vec<NativeCall> {
    let mut op = WriteOp::new(item, platform);
    let mut calls = Vec::new();
    let mut reply = NativeReply::Done;
    let mut next_reply = replies.iter();
    loop {
        let (next, call) = op.step(reply);
        op = next;
        match call {
            Some(call) => {
                calls.push(call);
                reply = next_reply.next().cloned().unwrap_or(NativeReply::Done);
            }
            None => break,
        }
    }
    assert!(op.is_finished());
    calls
}

fn calls_of_read(opts: Option<ReadOpts>, replies: &[NativeReply]) -> (Vec<NativeCall>, ReadOp) {
    let mut op = ReadOp::new(opts);
    let mut calls = Vec::new();
    let mut reply = NativeReply::Done;
    let mut next_reply = replies.iter();
    loop {
        let (next, call) = op.step(reply);
        op = next;
        match call {
            Some(call) => {
                calls.push(call);
                reply = next_reply.next().cloned().unwrap_or(NativeReply::Done);
            }
            None => break,
        }
    }
    assert!(op.is_finished());
    (calls, op)
}

fn calls_of_text(replies: &[NativeReply]) -> (Vec<NativeCall>, TextOp) {
    let mut op = TextOp::new();
    let mut calls = Vec::new();
    let mut reply = NativeReply::Done;
    let mut next_reply = replies.iter();
    loop {
        let (next, call) = op.step(reply);
        op = next;
        match call {
            Some(call) => {
                calls.push(call);
                reply = next_reply.next().cloned().unwrap_or(NativeReply::Done);
            }
            None => break,
        }
    }
    assert!(op.is_finished());
    (calls, op)
}

fn pdf_opts() -> Option<ReadOpts> {
    Some(ReadOpts { identifier: Identifier::uti("com.adobe.pdf") })
}

#[test]
fn write_of_text_and_custom() {
    let item = ClipboardItem::new("hi").add_format((vec![1u8, 2], Pdf));
    let calls = calls_of_write(
        &item,
        Platform::MacOs,
        &[NativeReply::Opened(true), NativeReply::Done, NativeReply::Registered(0xC007)],
    );
    assert_eq!(
        calls,
        vec![
            NativeCall::Open,
            NativeCall::Clear,
            NativeCall::Register { identifier: "com.adobe.pdf".to_string() },
            NativeCall::Declare { formats: vec![TEXT_FORMAT, 0xC007] },
            NativeCall::Write { format: TEXT_FORMAT, payload: Payload::Text("hi".to_string()) },
            NativeCall::Write { format: 0xC007, payload: Payload::Data(vec![1, 2]) },
            NativeCall::Close,
        ]
    );
}

#[test]
fn write_stops_when_access_is_refused() {
    let item = ClipboardItem::new("hi").add_format((vec![1u8, 2], Pdf));
    assert_eq!(
        calls_of_write(&item, Platform::MacOs, &[NativeReply::Opened(false)]),
        vec![NativeCall::Open]
    );
    // Any other answer to the request for access counts as a refusal.
    assert_eq!(calls_of_write(&item, Platform::MacOs, &[NativeReply::Done]), vec![NativeCall::Open]);
}

#[test]
fn write_skips_a_format_that_cannot_be_registered() {
    let item = ClipboardItem::new((vec![1u8], Pdf))
        .add_format("text")
        .add_format((vec![2u8], GlyphsBinaryPlist));
    let calls = calls_of_write(
        &item,
        Platform::MacOs,
        &[
            NativeReply::Opened(true),
            NativeReply::Done,
            NativeReply::Registered(NO_FORMAT),
            NativeReply::Registered(0xC001),
        ],
    );
    assert_eq!(
        calls,
        vec![
            NativeCall::Open,
            NativeCall::Clear,
            NativeCall::Register { identifier: "com.adobe.pdf".to_string() },
            NativeCall::Register { identifier: "Glyphs elements pasteboard type".to_string() },
            NativeCall::Declare { formats: vec![TEXT_FORMAT, 0xC001] },
            NativeCall::Write { format: TEXT_FORMAT, payload: Payload::Text("text".to_string()) },
            NativeCall::Write { format: 0xC001, payload: Payload::PropertyList(vec![2]) },
            NativeCall::Close,
        ]
    );
}

#[test]
fn write_goes_on_after_a_failed_store() {
    let item = ClipboardItem::new("a").add_format("b");
    let calls = calls_of_write(
        &item,
        Platform::Other,
        &[
            NativeReply::Opened(true),
            NativeReply::Done,
            NativeReply::Done,
            NativeReply::Written(false),
            NativeReply::Written(false),
        ],
    );
    assert_eq!(
        calls,
        vec![
            NativeCall::Open,
            NativeCall::Clear,
            NativeCall::Declare { formats: vec![TEXT_FORMAT, TEXT_FORMAT] },
            NativeCall::Write { format: TEXT_FORMAT, payload: Payload::Text("a".to_string()) },
            NativeCall::Write { format: TEXT_FORMAT, payload: Payload::Text("b".to_string()) },
            NativeCall::Close,
        ]
    );
}

#[test]
fn write_of_nothing_supported_stores_nothing() {
    let item = ClipboardItem::new((vec![1u8, 2, 3], Pdf));
    let calls =
        calls_of_write(&item, Platform::Windows, &[NativeReply::Opened(true), NativeReply::Done]);
    assert_eq!(
        calls,
        vec![
            NativeCall::Open,
            NativeCall::Clear,
            NativeCall::Declare { formats: vec![] },
            NativeCall::Close
        ]
    );
    assert!(!calls.iter().any(|call| matches!(call, NativeCall::Write { .. })));
}

#[test]
fn write_never_registers_an_identifier_with_a_nul() {
    let item = ClipboardItem::new((vec![1u8], Nul));
    let calls =
        calls_of_write(&item, Platform::MacOs, &[NativeReply::Opened(true), NativeReply::Done]);
    assert!(!calls.iter().any(|call| matches!(call, NativeCall::Register { .. })));
    assert!(!calls.iter().any(|call| matches!(call, NativeCall::Write { .. })));
    assert_eq!(calls.last(), Some(&NativeCall::Close));
}

#[test]
fn write_ends_whatever_is_answered() {
    let item = ClipboardItem::new("a").add_format((vec![1u8], Pdf)).add_format("b");
    let calls = calls_of_write(&item, Platform::MacOs, &[NativeReply::Opened(true)]);
    // Every later call was answered with `Done`: the registration counts as failed.
    assert_eq!(calls.len(), 7);
    assert_eq!(calls.first(), Some(&NativeCall::Open));
    assert_eq!(calls.last(), Some(&NativeCall::Close));
}

#[test]
fn plan_and_entries() {
    let item = ClipboardItem::new("t").add_format((vec![5u8], Pdf)).add_format((vec![6u8], Nul));
    assert_eq!(
        make_plan(&item, Platform::MacOs),
        vec![
            Entry { identifier: None, payload: Payload::Text("t".to_string()) },
            Entry {
                identifier: Some("com.adobe.pdf".to_string()),
                payload: Payload::Data(vec![5])
            },
        ]
    );
    assert_eq!(
        make_plan(&item, Platform::Windows),
        vec![Entry { identifier: None, payload: Payload::Text("t".to_string()) }]
    );
    let formats = item.iter_supported(Platform::MacOs);
    assert_eq!(make_entry(formats[2], Platform::MacOs), None);
    assert_eq!(make_entry(formats[1], Platform::Other), None);
}

#[test]
fn encode_packages_by_kind() {
    let bytes = vec![b'o', b'k', 0xc3, 0xa9];
    assert_eq!(encode(&bytes, DataType::String), Payload::Text("oké".to_string()));
    assert_eq!(encode(&bytes, DataType::Data), Payload::Data(bytes.clone()));
    assert_eq!(encode(&bytes, DataType::BinaryPlist), Payload::PropertyList(bytes.clone()));
    assert_eq!(encode(&vec![0xff], DataType::String), Payload::Text("\u{fffd}".to_string()));
    assert_eq!(encode(&vec![], DataType::String), Payload::Text(String::new()));
}

#[test]
fn declared_formats_leave_out_the_unresolved() {
    assert_eq!(declared_formats(&vec![13, 0, 0xC000, 0, 13]), vec![13, 0xC000, 13]);
    assert_eq!(declared_formats(&vec![0, 0]), Vec::<u32>::new());
    assert_eq!(declared_formats(&vec![]), Vec::<u32>::new());
}

#[test]
fn read_without_options_asks_nothing() {
    let (calls, op) = calls_of_read(None, &[]);
    assert!(calls.is_empty());
    assert_eq!(op.into_data(), None);
}

#[test]
fn read_with_an_unregistrable_identifier_asks_nothing() {
    let (calls, op) = calls_of_read(Some(ReadOpts { identifier: Identifier::uti("x\0") }), &[]);
    assert!(calls.is_empty());
    assert_eq!(op.into_data(), None);
}

#[test]
fn read_of_a_present_format() {
    let (calls, op) = calls_of_read(
        pdf_opts(),
        &[
            NativeReply::Registered(0xC002),
            NativeReply::Opened(true),
            NativeReply::Available(true),
            NativeReply::Data(Some(vec![9, 8, 7])),
        ],
    );
    assert_eq!(
        calls,
        vec![
            NativeCall::Register { identifier: "com.adobe.pdf".to_string() },
            NativeCall::Open,
            NativeCall::IsAvailable { format: 0xC002 },
            NativeCall::Read { format: 0xC002 },
            NativeCall::Close,
        ]
    );
    assert!(op.seen().is_empty());
    assert_eq!(op.into_data(), Some(vec![9, 8, 7]));
}

#[test]
fn read_stops_when_registration_fails() {
    let (calls, op) = calls_of_read(pdf_opts(), &[NativeReply::Registered(NO_FORMAT)]);
    assert_eq!(calls, vec![NativeCall::Register { identifier: "com.adobe.pdf".to_string() }]);
    assert_eq!(op.into_data(), None);
}

#[test]
fn read_stops_when_access_is_refused() {
    let (calls, op) =
        calls_of_read(pdf_opts(), &[NativeReply::Registered(0xC000), NativeReply::Opened(false)]);
    assert_eq!(
        calls,
        vec![NativeCall::Register { identifier: "com.adobe.pdf".to_string() }, NativeCall::Open]
    );
    assert_eq!(op.into_data(), None);
}

#[test]
fn read_of_an_absent_format_enumerates_and_releases() {
    let (calls, op) = calls_of_read(
        pdf_opts(),
        &[
            NativeReply::Registered(0xC000),
            NativeReply::Opened(true),
            NativeReply::Available(false),
            NativeReply::Next { format: 13, error: 0 },
            NativeReply::Next { format: 0xC004, error: 0 },
            NativeReply::Next { format: 0, error: 5 },
        ],
    );
    assert_eq!(
        calls,
        vec![
            NativeCall::Register { identifier: "com.adobe.pdf".to_string() },
            NativeCall::Open,
            NativeCall::IsAvailable { format: 0xC000 },
            NativeCall::Next { after: 0 },
            NativeCall::Next { after: 13 },
            NativeCall::Next { after: 0xC004 },
            NativeCall::Close,
        ]
    );
    assert_eq!(op.seen(), &vec![13, 0xC004]);
    assert_eq!(op.error(), 5);
    assert_eq!(op.into_data(), None);
}

#[test]
fn read_without_bytes_gives_nothing() {
    let (calls, op) = calls_of_read(
        pdf_opts(),
        &[
            NativeReply::Registered(0xC000),
            NativeReply::Opened(true),
            NativeReply::Available(true),
            NativeReply::Data(None),
        ],
    );
    assert_eq!(calls.last(), Some(&NativeCall::Close));
    assert_eq!(op.into_data(), None);
}

#[test]
fn text_read_scans_to_the_text_format() {
    let (calls, op) = calls_of_text(&[
        NativeReply::Opened(true),
        NativeReply::Next { format: 0xC001, error: 0 },
        NativeReply::Next { format: 8, error: 0 },
        NativeReply::Next { format: TEXT_FORMAT, error: 0 },
        NativeReply::Text(Some("found".to_string())),
    ]);
    assert_eq!(
        calls,
        vec![
            NativeCall::Open,
            NativeCall::Next { after: 0 },
            NativeCall::Next { after: 0xC001 },
            NativeCall::Next { after: 8 },
            NativeCall::ReadText,
            NativeCall::Close,
        ]
    );
    assert_eq!(op.others(), &vec![0xC001, 8]);
    assert_eq!(op.into_text(), Some("found".to_string()));
}

#[test]
fn text_read_without_text() {
    let (calls, op) = calls_of_text(&[
        NativeReply::Opened(true),
        NativeReply::Next { format: 2, error: 0 },
        NativeReply::Next { format: 0, error: 0 },
    ]);
    assert_eq!(
        calls,
        vec![
            NativeCall::Open,
            NativeCall::Next { after: 0 },
            NativeCall::Next { after: 2 },
            NativeCall::Close
        ]
    );
    assert_eq!(op.error(), 0);
    assert_eq!(op.into_text(), None);
}

#[test]
fn text_read_stops_when_access_is_refused() {
    let (calls, op) = calls_of_text(&[NativeReply::Opened(false)]);
    assert_eq!(calls, vec![NativeCall::Open]);
    assert_eq!(op.into_text(), None);
}

#[test]
fn text_read_records_a_failed_enumeration() {
    let (calls, op) =
        calls_of_text(&[NativeReply::Opened(true), NativeReply::Next { format: 0, error: 1418 }]);
    assert_eq!(calls, vec![NativeCall::Open, NativeCall::Next { after: 0 }, NativeCall::Close]);
    assert_eq!(op.error(), 1418);
}

#[test]
fn an_endless_enumeration_is_cut_off() {
    let mut op = TextOp::new();
    let mut reply = NativeReply::Done;
    let mut calls = 0usize;
    let mut last = None;
    loop {
        let (next, call) = op.step(reply);
        op = next;
        match call {
            Some(call) => {
                calls += 1;
                reply = match call {
                    NativeCall::Open => NativeReply::Opened(true),
                    NativeCall::Next { .. } => NativeReply::Next { format: 77, error: 0 },
                    _ => NativeReply::Done,
                };
                last = Some(call);
            }
            None => break,
        }
    }
    assert_eq!(calls, SCAN_LIMIT + 3);
    assert_eq!(last, Some(NativeCall::Close));
    assert_eq!(op.others().len(), SCAN_LIMIT);
}
