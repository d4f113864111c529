//! The write protocol: what is sent to the native clipboard for an item, call by
//! call, whatever the clipboard answers.

use vstd::prelude::*;
use crate::clipboard::{ClipboardFormat, ClipboardItem, ClipboardWrite};
use crate::formats::{decode_lossy, is_registrable, lossy_text, registrable};
use crate::native::{
    NativeCall, NativeCallView, NativeReply, NativeReplyView, Payload, PayloadView, NO_FORMAT,
    TEXT_FORMAT,
};
use crate::platform::{DataType, Platform};

verus! {

/// One representation as it will be offered to the native clipboard.
#[derive(Clone, Debug, PartialEq, Eq)]
pub struct Entry {
    /// The identifier to register; `None` for plain text, whose format is fixed.
    pub identifier: Option<String>,
    pub payload: Payload,
}

/// What an `Entry` holds, as mathematical values.
pub struct EntryView {
    pub identifier: Option<Seq<char>>,
    pub payload: PayloadView,
}

impl View for Entry {
    type V = EntryView;

    open spec fn view(&self) -> EntryView {
        EntryView {
            identifier: match self.identifier {
                Some(name) => Some(name@),
                None => None,
            },
            payload: self.payload@,
        }
    }
}

/// The fixed mapping from a kind to the packaging of the bytes.
pub open spec fn encoded(data: Seq<u8>, kind: DataType) -> PayloadView {
    match kind {
        DataType::String => PayloadView::Text(lossy_text(data)),
        DataType::Data => PayloadView::Data(data),
        DataType::BinaryPlist => PayloadView::PropertyList(data),
    }
}

/// The entry that `format` gives on `platform`: none where the platform has no
/// representation for it, or where its identifier cannot be registered.
pub open spec fn entry_of(format: ClipboardFormat, platform: Platform) -> Option<EntryView> {
    match format {
        ClipboardFormat::Text(text) => Some(
            EntryView { identifier: None, payload: PayloadView::Text(text@) },
        ),
        ClipboardFormat::Custom { data, info } => match info.writable(platform) {
            Some(opts) => if registrable(opts.identifier.name()) {
                Some(
                    EntryView {
                        identifier: Some(opts.identifier.name()),
                        payload: encoded(data@, opts.data_type),
                    },
                )
            } else {
                None
            },
            None => None,
        },
    }
}

/// The entries of an item on `platform`, in the order of its formats.
pub open spec fn plan(formats: Seq<ClipboardFormat>, platform: Platform) -> Seq<EntryView> {
    formats.filter_map(|format: ClipboardFormat| entry_of(format, platform))
}

/// The views of a list of entries.
pub open spec fn entry_views(entries: Seq<Entry>) -> Seq<EntryView> {
    Seq::new(entries.len(), |i: int| entries[i]@)
}

/// A copy of `bytes`.
pub(crate) fn copy_bytes(bytes: &Vec<u8>) -> (copy: Vec<u8>)
    ensures
        copy@ == bytes@,
{
    let mut copy: Vec<u8> = Vec::new();
    let mut i: usize = 0;
    while i < bytes.len()
        invariant
            i <= bytes.len(),
            copy@ == bytes@.take(i as int),
        decreases bytes.len() - i,
    {
        copy.push(bytes[i]);
        i += 1;
    }
    copy
}

/// A copy of `payload`.
pub(crate) fn copy_payload(payload: &Payload) -> (copy: Payload)
    ensures
        copy@ == payload@,
{
    match payload {
        Payload::Text(text) => Payload::Text(text.clone()),
        Payload::Data(bytes) => Payload::Data(copy_bytes(bytes)),
        Payload::PropertyList(bytes) => Payload::PropertyList(copy_bytes(bytes)),
    }
}

/// Packages `data` as its kind demands.
pub fn encode(data: &Vec<u8>, kind: DataType) -> (payload: Payload)
    ensures
        payload@ == encoded(data@, kind),
{
    match kind {
        DataType::String => Payload::Text(decode_lossy(data)),
        DataType::Data => Payload::Data(copy_bytes(data)),
        DataType::BinaryPlist => Payload::PropertyList(copy_bytes(data)),
    }
}

/// The entry for one format, if it has one on `platform`.
pub fn make_entry(format: &ClipboardFormat, platform: Platform) -> (entry: Option<Entry>)
    ensures
        entry.is_some() == entry_of(*format, platform).is_some(),
        entry matches Some(made) ==> made@ == entry_of(*format, platform).unwrap(),
{
    match format {
        ClipboardFormat::Text(text) => Some(
            Entry { identifier: None, payload: Payload::Text(text.clone()) },
        ),
        ClipboardFormat::Custom { data, info } => match info.write_options(platform) {
            Some(opts) => {
                let name = opts.identifier.to_string();
                if is_registrable(name.as_str()) {
                    Some(Entry { identifier: Some(name), payload: encode(data, opts.data_type) })
                } else {
                    None
                }
            },
            None => None,
        },
    }
}

/// The entries of `item` on `platform`.
pub fn make_plan(item: &ClipboardItem, platform: Platform) -> (entries: Vec<Entry>)
    ensures
        entry_views(entries@) == plan(item@, platform),
{
    let formats = item.formats();
    let mut entries: Vec<Entry> = Vec::new();
    let mut i: usize = 0;
    while i < formats.len()
        invariant
            i <= formats.len(),
            formats@ == item@,
            entry_views(entries@) == plan(item@.take(i as int), platform),
        decreases formats.len() - i,
    {
        proof {
            item@.lemma_filter_map_take_succ(|format: ClipboardFormat| entry_of(format, platform), i as int);
        }
        if let Some(entry) = make_entry(&formats[i], platform) {
            entries.push(entry);
        }
        i += 1;
    }
    proof {
        assert(item@.take(i as int) == item@);
    }
    entries
}

/// Where a write stands.
#[derive(Clone, Copy, Debug, PartialEq, Eq, Structural)]
pub enum WritePhase {
    /// Nothing was asked yet.
    Start,
    /// Access was asked for.
    Opening,
    /// The old contents are being removed.
    Clearing,
    /// The identifier of the next custom entry is being registered.
    Resolving,
    /// The formats are being announced.
    Declaring,
    /// The entry at the cursor is being stored.
    Storing,
    /// Access is being released.
    Closing,
    /// Nothing more will be asked.
    Finished,
}

/// A write in progress.
#[derive(Debug)]
pub struct WriteOp {
    entries: Vec<Entry>,
    tokens: Vec<u32>,
    phase: WritePhase,
    cursor: usize,
}

/// The state of a write, as mathematical values.
pub struct WriteOpView {
    pub entries: Seq<EntryView>,
    /// The format of each entry resolved so far; `NO_FORMAT` where registration failed.
    pub tokens: Seq<u32>,
    pub phase: WritePhase,
    pub cursor: int,
}

impl View for WriteOp {
    type V = WriteOpView;

    closed spec fn view(&self) -> WriteOpView {
        WriteOpView {
            entries: entry_views(self.entries@),
            tokens: self.tokens@,
            phase: self.phase,
            cursor: self.cursor as int,
        }
    }
}

/// `tokens` extended by the text format for each text entry that follows directly.
pub open spec fn skip_text(entries: Seq<EntryView>, tokens: Seq<u32>) -> Seq<u32>
    decreases entries.len() - tokens.len(),
{
    if tokens.len() < entries.len() && entries[tokens.len() as int].identifier.is_none() {
        skip_text(entries, tokens.push(TEXT_FORMAT))
    } else {
        tokens
    }
}

/// The first place at or after `from` whose entry has a format, or the length.
pub open spec fn next_resolved(tokens: Seq<u32>, from: int) -> int
    decreases tokens.len() - from,
{
    if 0 <= from < tokens.len() && tokens[from] == NO_FORMAT {
        next_resolved(tokens, from + 1)
    } else {
        from
    }
}

/// The formats to announce: those of the entries that have one, in order.
pub open spec fn declared(tokens: Seq<u32>) -> Seq<u32> {
    tokens.filter(|token: u32| token != NO_FORMAT)
}

impl WriteOpView {
    /// The cursor and the tokens stay within the entries, as the phase demands.
    pub open spec fn wf(self) -> bool {
        &&& self.tokens.len() <= self.entries.len()
        &&& 0 <= self.cursor <= self.entries.len()
        &&& self.phase == WritePhase::Resolving ==> self.tokens.len() < self.entries.len()
            && self.entries[self.tokens.len() as int].identifier.is_some()
        &&& (self.phase == WritePhase::Declaring || self.phase == WritePhase::Storing
            || self.phase == WritePhase::Closing) ==> self.tokens.len() == self.entries.len()
        &&& self.phase == WritePhase::Storing ==> self.cursor < self.entries.len()
    }

    /// Resolves entries from where the tokens end: registers the next custom
    /// identifier, or announces the formats once every entry is resolved.
    pub open spec fn resolve(self, tokens: Seq<u32>) -> (WriteOpView, Option<NativeCallView>) {
        let tokens = skip_text(self.entries, tokens);
        if tokens.len() < self.entries.len() {
            (
                WriteOpView { tokens, phase: WritePhase::Resolving, ..self },
                Some(
                    NativeCallView::Register {
                        identifier: self.entries[tokens.len() as int].identifier.unwrap(),
                    },
                ),
            )
        } else {
            (
                WriteOpView { tokens, phase: WritePhase::Declaring, ..self },
                Some(NativeCallView::Declare { formats: declared(tokens) }),
            )
        }
    }

    /// Stores the next entry at or after `from` that has a format, or releases
    /// access once there is none.
    pub open spec fn store(self, from: int) -> (WriteOpView, Option<NativeCallView>) {
        let at = next_resolved(self.tokens, from);
        if at < self.entries.len() {
            (
                WriteOpView { phase: WritePhase::Storing, cursor: at, ..self },
                Some(
                    NativeCallView::Write {
                        format: self.tokens[at],
                        payload: self.entries[at].payload,
                    },
                ),
            )
        } else {
            (
                WriteOpView { phase: WritePhase::Closing, cursor: self.entries.len() as int, ..self },
                Some(NativeCallView::Close),
            )
        }
    }

    /// The next state and the next call, given the reply to the last call.
    pub open spec fn step(self, reply: NativeReplyView) -> (WriteOpView, Option<NativeCallView>) {
        match self.phase {
            WritePhase::Start => (
                WriteOpView { phase: WritePhase::Opening, ..self },
                Some(NativeCallView::Open),
            ),
            WritePhase::Opening => if reply == NativeReplyView::Opened(true) {
                (WriteOpView { phase: WritePhase::Clearing, ..self }, Some(NativeCallView::Clear))
            } else {
                (WriteOpView { phase: WritePhase::Finished, ..self }, None)
            },
            WritePhase::Clearing => self.resolve(Seq::empty()),
            WritePhase::Resolving => self.resolve(
                self.tokens.push(
                    match reply {
                        NativeReplyView::Registered(token) => token,
                        _ => NO_FORMAT,
                    },
                ),
            ),
            WritePhase::Declaring => self.store(0),
            WritePhase::Storing => self.store(self.cursor + 1),
            WritePhase::Closing => (WriteOpView { phase: WritePhase::Finished, ..self }, None),
            WritePhase::Finished => (self, None),
        }
    }

    /// Whether access to the clipboard is held.
    pub open spec fn holds_access(self) -> bool {
        self.phase == WritePhase::Clearing || self.phase == WritePhase::Resolving || self.phase
            == WritePhase::Declaring || self.phase == WritePhase::Storing
    }

    /// An upper bound on the calls that are still to come.
    pub open spec fn remaining(self) -> int {
        let n = self.entries.len() as int;
        match self.phase {
            WritePhase::Start => 2 * n + 5,
            WritePhase::Opening => 2 * n + 4,
            WritePhase::Clearing => 2 * n + 3,
            WritePhase::Resolving => 2 * n + 2 - self.tokens.len(),
            WritePhase::Declaring => n + 2,
            WritePhase::Storing => n + 1 - self.cursor,
            WritePhase::Closing => 1,
            WritePhase::Finished => 0,
        }
    }
}

/// The view of a call that may be absent.
pub open spec fn call_view(call: Option<NativeCall>) -> Option<NativeCallView> {
    match call {
        Some(call) => Some(call@),
        None => None,
    }
}

/// The formats among `tokens` that are to be announced.
pub fn declared_formats(tokens: &Vec<u32>) -> (formats: Vec<u32>)
    ensures
        formats@ == declared(tokens@),
{
    let mut formats: Vec<u32> = Vec::new();
    let mut i: usize = 0;
    proof {
        reveal(Seq::filter);
    }
    while i < tokens.len()
        invariant
            i <= tokens.len(),
            formats@ == declared(tokens@.take(i as int)),
        decreases tokens.len() - i,
    {
        proof {
            reveal(Seq::filter);
            let next = tokens@.take(i + 1);
            assert(next.drop_last() == tokens@.take(i as int));
            assert(next.last() == tokens@[i as int]);
        }
        if tokens[i] != NO_FORMAT {
            formats.push(tokens[i]);
        }
        i += 1;
    }
    proof {
        assert(tokens@.take(i as int) == tokens@);
    }
    formats
}

impl WriteOp {
    #[verifier::type_invariant]
    closed spec fn inv(self) -> bool {
        self@.wf()
    }

    /// A write of `item` on `platform`, before its first call.
    pub fn new(item: &ClipboardItem, platform: Platform) -> (op: Self)
        ensures
            op@.wf(),
            op@.entries == plan(item@, platform),
            op@.tokens.len() == 0,
            op@.phase == WritePhase::Start,
            op@.cursor == 0,
    {
        WriteOp {
            entries: make_plan(item, platform),
            tokens: Vec::new(),
            phase: WritePhase::Start,
            cursor: 0,
        }
    }

    /// Whether the write has made its last call.
    pub fn is_finished(&self) -> (done: bool)
        ensures
            done == (self@.phase == WritePhase::Finished),
    {
        self.phase == WritePhase::Finished
    }

    fn resolve(entries: Vec<Entry>, tokens: Vec<u32>) -> (next: (WriteOp, Option<NativeCall>))
        requires
            tokens@.len() <= entries@.len(),
        ensures
            next.0@.wf(),
            (next.0@, call_view(next.1)) == (WriteOpView {
                entries: entry_views(entries@),
                tokens: tokens@,
                phase: WritePhase::Clearing,
                cursor: 0,
            }).resolve(tokens@),
    {
        let mut tokens = tokens;
        let ghost start = tokens@;
        while tokens.len() < entries.len() && entries[tokens.len()].identifier.is_none()
            invariant
                tokens@.len() <= entries@.len(),
                skip_text(entry_views(entries@), tokens@) == skip_text(
                    entry_views(entries@),
                    start,
                ),
            decreases entries@.len() - tokens@.len(),
        {
            tokens.push(TEXT_FORMAT);
        }
        if tokens.len() < entries.len() {
            let call = match &entries[tokens.len()].identifier {
                Some(name) => NativeCall::Register { identifier: name.clone() },
                None => unreached(),
            };
            (WriteOp { entries, tokens, phase: WritePhase::Resolving, cursor: 0 }, Some(call))
        } else {
            let formats = declared_formats(&tokens);
            (
                WriteOp { entries, tokens, phase: WritePhase::Declaring, cursor: 0 },
                Some(NativeCall::Declare { formats }),
            )
        }
    }

    fn store(entries: Vec<Entry>, tokens: Vec<u32>, from: usize) -> (next: (
        WriteOp,
        Option<NativeCall>,
    ))
        requires
            tokens@.len() == entries@.len(),
            from <= entries@.len(),
        ensures
            next.0@.wf(),
            (next.0@, call_view(next.1)) == (WriteOpView {
                entries: entry_views(entries@),
                tokens: tokens@,
                phase: WritePhase::Declaring,
                cursor: 0,
            }).store(from as int),
    {
        let mut at = from;
        while at < tokens.len() && tokens[at] == NO_FORMAT
            invariant
                from <= at <= tokens@.len(),
                next_resolved(tokens@, at as int) == next_resolved(tokens@, from as int),
            decreases tokens@.len() - at,
        {
            at += 1;
        }
        if at < entries.len() {
            let call = NativeCall::Write {
                format: tokens[at],
                payload: copy_payload(&entries[at].payload),
            };
            (WriteOp { entries, tokens, phase: WritePhase::Storing, cursor: at }, Some(call))
        } else {
            let cursor = entries.len();
            (
                WriteOp { entries, tokens, phase: WritePhase::Closing, cursor },
                Some(NativeCall::Close),
            )
        }
    }

    /// Takes the reply to the last call and gives the next call, or `None` when the
    /// write is over. The reply to the first step is ignored.
    pub fn step(self, reply: NativeReply) -> (next: (WriteOp, Option<NativeCall>))
        ensures
            next.0@.wf(),
            (next.0@, call_view(next.1)) == self@.step(reply@),
    {
        proof {
            use_type_invariant(&self);
        }
        let WriteOp { entries, tokens, phase, cursor } = self;
        match phase {
            WritePhase::Start => (
                WriteOp { entries, tokens, phase: WritePhase::Opening, cursor },
                Some(NativeCall::Open),
            ),
            WritePhase::Opening => match reply {
                NativeReply::Opened(true) => (
                    WriteOp { entries, tokens, phase: WritePhase::Clearing, cursor },
                    Some(NativeCall::Clear),
                ),
                _ => (WriteOp { entries, tokens, phase: WritePhase::Finished, cursor }, None),
            },
            WritePhase::Clearing => {
                let (op, call) = Self::resolve(entries, Vec::new());
                (WriteOp { cursor, ..op }, call)
            },
            WritePhase::Resolving => {
                let mut tokens = tokens;
                tokens.push(
                    match reply {
                        NativeReply::Registered(token) => token,
                        _ => NO_FORMAT,
                    },
                );
                let (op, call) = Self::resolve(entries, tokens);
                (WriteOp { cursor, ..op }, call)
            },
            WritePhase::Declaring => Self::store(entries, tokens, 0),
            WritePhase::Storing => {
                assert(cursor < entries.len());
                Self::store(entries, tokens, cursor + 1)
            },
            WritePhase::Closing => (
                WriteOp { entries, tokens, phase: WritePhase::Finished, cursor },
                None,
            ),
            WritePhase::Finished => (WriteOp { entries, tokens, phase, cursor }, None),
        }
    }
}

} // verus!
