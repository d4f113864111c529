//! The read protocols: what is asked of the native clipboard to retrieve one
//! representation, call by call, whatever the clipboard answers.

use vstd::prelude::*;
use crate::formats::{is_registrable, registrable};
use crate::native::{
    NativeCall, NativeCallView, NativeReply, NativeReplyView, NO_FORMAT, TEXT_FORMAT,
};
use crate::platform::ReadOpts;
use crate::writer::call_view;

verus! {

/// The most formats that one enumeration walks through.
pub const SCAN_LIMIT: usize = 0x10000;

/// Where a typed read stands.
#[derive(Clone, Copy, Debug, PartialEq, Eq, Structural)]
pub enum ReadPhase {
    /// Nothing was asked yet.
    Start,
    /// The identifier is being registered.
    Registering,
    /// Access was asked for.
    Opening,
    /// The presence of the format is being checked.
    Checking,
    /// The bytes are being copied.
    Reading,
    /// The format is absent, and the formats present are being enumerated.
    Scanning,
    /// Access is being released.
    Closing,
    /// Nothing more will be asked.
    Finished,
}

/// A typed read in progress.
#[derive(Debug)]
pub struct ReadOp {
    identifier: Option<String>,
    format: u32,
    data: Option<Vec<u8>>,
    seen: Vec<u32>,
    error: u32,
    phase: ReadPhase,
}

/// The state of a typed read, as mathematical values.
pub struct ReadOpView {
    /// The identifier to look for, if there is one that can be registered.
    pub identifier: Option<Seq<char>>,
    /// The format that the identifier was given.
    pub format: u32,
    /// The bytes that were copied.
    pub data: Option<Seq<u8>>,
    /// The formats met while the wanted one was absent.
    pub seen: Seq<u32>,
    /// The error code with which the enumeration ended, 0 if it ended well.
    pub error: u32,
    pub phase: ReadPhase,
}

/// The bytes of a reply that may carry none.
pub open spec fn bytes_view(data: Option<Vec<u8>>) -> Option<Seq<u8>> {
    match data {
        Some(bytes) => Some(bytes@),
        None => None,
    }
}

/// The characters of a string that may be absent.
pub open spec fn text_view(text: Option<String>) -> Option<Seq<char>> {
    match text {
        Some(text) => Some(text@),
        None => None,
    }
}

impl View for ReadOp {
    type V = ReadOpView;

    closed spec fn view(&self) -> ReadOpView {
        ReadOpView {
            identifier: text_view(self.identifier),
            format: self.format,
            data: bytes_view(self.data),
            seen: self.seen@,
            error: self.error,
            phase: self.phase,
        }
    }
}

/// The identifier that a read looks for: that of the options, if there are options
/// and the identifier can be registered.
pub open spec fn wanted(opts: Option<ReadOpts>) -> Option<Seq<char>> {
    match opts {
        Some(opts) => if registrable(opts.identifier.name()) {
            Some(opts.identifier.name())
        } else {
            None
        },
        None => None,
    }
}

impl ReadOpView {
    pub open spec fn wf(self) -> bool {
        self.seen.len() <= SCAN_LIMIT
    }

    /// The next state and the next call, given the reply to the last call.
    pub open spec fn step(self, reply: NativeReplyView) -> (ReadOpView, Option<NativeCallView>) {
        match self.phase {
            ReadPhase::Start => match self.identifier {
                Some(identifier) => (
                    ReadOpView { phase: ReadPhase::Registering, ..self },
                    Some(NativeCallView::Register { identifier }),
                ),
                None => (ReadOpView { phase: ReadPhase::Finished, ..self }, None),
            },
            ReadPhase::Registering => match reply {
                NativeReplyView::Registered(format) => if format != NO_FORMAT {
                    (
                        ReadOpView { format, phase: ReadPhase::Opening, ..self },
                        Some(NativeCallView::Open),
                    )
                } else {
                    (ReadOpView { phase: ReadPhase::Finished, ..self }, None)
                },
                _ => (ReadOpView { phase: ReadPhase::Finished, ..self }, None),
            },
            ReadPhase::Opening => if reply == NativeReplyView::Opened(true) {
                (
                    ReadOpView { phase: ReadPhase::Checking, ..self },
                    Some(NativeCallView::IsAvailable { format: self.format }),
                )
            } else {
                (ReadOpView { phase: ReadPhase::Finished, ..self }, None)
            },
            ReadPhase::Checking => if reply == NativeReplyView::Available(true) {
                (
                    ReadOpView { phase: ReadPhase::Reading, ..self },
                    Some(NativeCallView::Read { format: self.format }),
                )
            } else {
                (
                    ReadOpView { phase: ReadPhase::Scanning, ..self },
                    Some(NativeCallView::Next { after: NO_FORMAT }),
                )
            },
            ReadPhase::Reading => (
                ReadOpView {
                    data: match reply {
                        NativeReplyView::Data(data) => data,
                        _ => None,
                    },
                    phase: ReadPhase::Closing,
                    ..self
                },
                Some(NativeCallView::Close),
            ),
            ReadPhase::Scanning => match reply {
                NativeReplyView::Next { format, error } => if format != NO_FORMAT
                    && self.seen.len() < SCAN_LIMIT {
                    (
                        ReadOpView { seen: self.seen.push(format), ..self },
                        Some(NativeCallView::Next { after: format }),
                    )
                } else {
                    (
                        ReadOpView {
                            error: if format == NO_FORMAT {
                                error
                            } else {
                                0
                            },
                            phase: ReadPhase::Closing,
                            ..self
                        },
                        Some(NativeCallView::Close),
                    )
                },
                _ => (ReadOpView { phase: ReadPhase::Closing, ..self }, Some(NativeCallView::Close)),
            },
            ReadPhase::Closing => (ReadOpView { phase: ReadPhase::Finished, ..self }, None),
            ReadPhase::Finished => (self, None),
        }
    }

    /// Whether access to the clipboard is held.
    pub open spec fn holds_access(self) -> bool {
        self.phase == ReadPhase::Checking || self.phase == ReadPhase::Reading || self.phase
            == ReadPhase::Scanning
    }

    /// An upper bound on the calls that are still to come.
    pub open spec fn remaining(self) -> int {
        match self.phase {
            ReadPhase::Start => SCAN_LIMIT + 6,
            ReadPhase::Registering => SCAN_LIMIT + 5,
            ReadPhase::Opening => SCAN_LIMIT + 4,
            ReadPhase::Checking => SCAN_LIMIT + 3,
            ReadPhase::Reading => 2,
            ReadPhase::Scanning => SCAN_LIMIT + 2 - self.seen.len(),
            ReadPhase::Closing => 1,
            ReadPhase::Finished => 0,
        }
    }
}

impl ReadOp {
    #[verifier::type_invariant]
    closed spec fn inv(self) -> bool {
        self@.wf()
    }

    /// A read under `opts`, before its first call. Without options, or with an
    /// identifier that cannot be registered, the read will ask nothing.
    pub fn new(opts: Option<ReadOpts>) -> (op: Self)
        ensures
            op@.wf(),
            op@ == (ReadOpView {
                identifier: wanted(opts),
                format: NO_FORMAT,
                data: None,
                seen: Seq::empty(),
                error: 0,
                phase: ReadPhase::Start,
            }),
    {
        let identifier = match opts {
            Some(opts) => {
                let name = opts.identifier.to_string();
                if is_registrable(name.as_str()) {
                    Some(name)
                } else {
                    None
                }
            },
            None => None,
        };
        ReadOp {
            identifier,
            format: NO_FORMAT,
            data: None,
            seen: Vec::new(),
            error: 0,
            phase: ReadPhase::Start,
        }
    }

    /// Whether the read has made its last call.
    pub fn is_finished(&self) -> (done: bool)
        ensures
            done == (self@.phase == ReadPhase::Finished),
    {
        self.phase == ReadPhase::Finished
    }

    /// The formats met while the wanted one was absent, for diagnostics.
    pub fn seen(&self) -> (formats: &Vec<u32>)
        ensures
            formats@ == self@.seen,
    {
        &self.seen
    }

    /// The error code with which the enumeration ended.
    pub fn error(&self) -> (code: u32)
        ensures
            code == self@.error,
    {
        self.error
    }

    /// The bytes that were copied, if any.
    pub fn into_data(self) -> (data: Option<Vec<u8>>)
        ensures
            bytes_view(data) == self@.data,
    {
        self.data
    }

    /// Takes the reply to the last call and gives the next call, or `None` when the
    /// read is over. The reply to the first step is ignored.
    pub fn step(self, reply: NativeReply) -> (next: (ReadOp, Option<NativeCall>))
        ensures
            next.0@.wf(),
            next.0@ == self@.step(reply@).0,
            call_view(next.1) == self@.step(reply@).1,
    {
        proof {
            use_type_invariant(&self);
        }
        let ReadOp { identifier, format, data, seen, error, phase } = self;
        match phase {
            ReadPhase::Start => {
                let call = match &identifier {
                    Some(name) => Some(NativeCall::Register { identifier: name.clone() }),
                    None => None,
                };
                let phase = if call.is_some() {
                    ReadPhase::Registering
                } else {
                    ReadPhase::Finished
                };
                (ReadOp { identifier, format, data, seen, error, phase }, call)
            },
            ReadPhase::Registering => match reply {
                NativeReply::Registered(token) => if token != NO_FORMAT {
                    (
                        ReadOp {
                            identifier,
                            format: token,
                            data,
                            seen,
                            error,
                            phase: ReadPhase::Opening,
                        },
                        Some(NativeCall::Open),
                    )
                } else {
                    (
                        ReadOp { identifier, format, data, seen, error, phase: ReadPhase::Finished },
                        None,
                    )
                },
                _ => (
                    ReadOp { identifier, format, data, seen, error, phase: ReadPhase::Finished },
                    None,
                ),
            },
            ReadPhase::Opening => match reply {
                NativeReply::Opened(true) => (
                    ReadOp { identifier, format, data, seen, error, phase: ReadPhase::Checking },
                    Some(NativeCall::IsAvailable { format }),
                ),
                _ => (
                    ReadOp { identifier, format, data, seen, error, phase: ReadPhase::Finished },
                    None,
                ),
            },
            ReadPhase::Checking => match reply {
                NativeReply::Available(true) => (
                    ReadOp { identifier, format, data, seen, error, phase: ReadPhase::Reading },
                    Some(NativeCall::Read { format }),
                ),
                _ => (
                    ReadOp { identifier, format, data, seen, error, phase: ReadPhase::Scanning },
                    Some(NativeCall::Next { after: NO_FORMAT }),
                ),
            },
            ReadPhase::Reading => {
                let data = match reply {
                    NativeReply::Data(data) => data,
                    _ => None,
                };
                (
                    ReadOp { identifier, format, data, seen, error, phase: ReadPhase::Closing },
                    Some(NativeCall::Close),
                )
            },
            ReadPhase::Scanning => match reply {
                NativeReply::Next { format: found, error: code } => {
                    if found != NO_FORMAT && seen.len() < SCAN_LIMIT {
                        let mut seen = seen;
                        seen.push(found);
                        (
                            ReadOp { identifier, format, data, seen, error, phase },
                            Some(NativeCall::Next { after: found }),
                        )
                    } else {
                        let error = if found == NO_FORMAT {
                            code
                        } else {
                            0
                        };
                        (
                            ReadOp {
                                identifier,
                                format,
                                data,
                                seen,
                                error,
                                phase: ReadPhase::Closing,
                            },
                            Some(NativeCall::Close),
                        )
                    }
                },
                _ => (
                    ReadOp { identifier, format, data, seen, error, phase: ReadPhase::Closing },
                    Some(NativeCall::Close),
                ),
            },
            ReadPhase::Closing => (
                ReadOp { identifier, format, data, seen, error, phase: ReadPhase::Finished },
                None,
            ),
            ReadPhase::Finished => (ReadOp { identifier, format, data, seen, error, phase }, None),
        }
    }
}

/// Where a text read stands.
#[derive(Clone, Copy, Debug, PartialEq, Eq, Structural)]
pub enum TextPhase {
    /// Nothing was asked yet.
    Start,
    /// Access was asked for.
    Opening,
    /// The formats present are being enumerated.
    Scanning,
    /// The string is being copied.
    Reading,
    /// Access is being released.
    Closing,
    /// Nothing more will be asked.
    Finished,
}

/// A text read in progress.
#[derive(Debug)]
pub struct TextOp {
    text: Option<String>,
    others: Vec<u32>,
    error: u32,
    phase: TextPhase,
}

/// The state of a text read, as mathematical values.
pub struct TextOpView {
    /// The string that was copied.
    pub text: Option<Seq<char>>,
    /// The formats met before the text format.
    pub others: Seq<u32>,
    /// The error code with which the enumeration ended, 0 if it ended well.
    pub error: u32,
    pub phase: TextPhase,
}

impl View for TextOp {
    type V = TextOpView;

    closed spec fn view(&self) -> TextOpView {
        TextOpView {
            text: text_view(self.text),
            others: self.others@,
            error: self.error,
            phase: self.phase,
        }
    }
}

impl TextOpView {
    pub open spec fn wf(self) -> bool {
        self.others.len() <= SCAN_LIMIT
    }

    /// The next state and the next call, given the reply to the last call.
    pub open spec fn step(self, reply: NativeReplyView) -> (TextOpView, Option<NativeCallView>) {
        match self.phase {
            TextPhase::Start => (
                TextOpView { phase: TextPhase::Opening, ..self },
                Some(NativeCallView::Open),
            ),
            TextPhase::Opening => if reply == NativeReplyView::Opened(true) {
                (
                    TextOpView { phase: TextPhase::Scanning, ..self },
                    Some(NativeCallView::Next { after: NO_FORMAT }),
                )
            } else {
                (TextOpView { phase: TextPhase::Finished, ..self }, None)
            },
            TextPhase::Scanning => match reply {
                NativeReplyView::Next { format, error } => if format == TEXT_FORMAT {
                    (
                        TextOpView { phase: TextPhase::Reading, ..self },
                        Some(NativeCallView::ReadText),
                    )
                } else if format != NO_FORMAT && self.others.len() < SCAN_LIMIT {
                    (
                        TextOpView { others: self.others.push(format), ..self },
                        Some(NativeCallView::Next { after: format }),
                    )
                } else {
                    (
                        TextOpView {
                            error: if format == NO_FORMAT {
                                error
                            } else {
                                0
                            },
                            phase: TextPhase::Closing,
                            ..self
                        },
                        Some(NativeCallView::Close),
                    )
                },
                _ => (TextOpView { phase: TextPhase::Closing, ..self }, Some(NativeCallView::Close)),
            },
            TextPhase::Reading => (
                TextOpView {
                    text: match reply {
                        NativeReplyView::Text(text) => text,
                        _ => None,
                    },
                    phase: TextPhase::Closing,
                    ..self
                },
                Some(NativeCallView::Close),
            ),
            TextPhase::Closing => (TextOpView { phase: TextPhase::Finished, ..self }, None),
            TextPhase::Finished => (self, None),
        }
    }

    /// Whether access to the clipboard is held.
    pub open spec fn holds_access(self) -> bool {
        self.phase == TextPhase::Scanning || self.phase == TextPhase::Reading
    }

    /// An upper bound on the calls that are still to come.
    pub open spec fn remaining(self) -> int {
        match self.phase {
            TextPhase::Start => SCAN_LIMIT + 5,
            TextPhase::Opening => SCAN_LIMIT + 4,
            TextPhase::Scanning => SCAN_LIMIT + 3 - self.others.len(),
            TextPhase::Reading => 2,
            TextPhase::Closing => 1,
            TextPhase::Finished => 0,
        }
    }
}

impl TextOp {
    #[verifier::type_invariant]
    closed spec fn inv(self) -> bool {
        self@.wf()
    }

    /// A text read, before its first call.
    pub fn new() -> (op: Self)
        ensures
            op@.wf(),
            op@ == (TextOpView {
                text: None,
                others: Seq::empty(),
                error: 0,
                phase: TextPhase::Start,
            }),
    {
        TextOp { text: None, others: Vec::new(), error: 0, phase: TextPhase::Start }
    }

    /// Whether the read has made its last call.
    pub fn is_finished(&self) -> (done: bool)
        ensures
            done == (self@.phase == TextPhase::Finished),
    {
        self.phase == TextPhase::Finished
    }

    /// The formats met before the text format, for diagnostics.
    pub fn others(&self) -> (formats: &Vec<u32>)
        ensures
            formats@ == self@.others,
    {
        &self.others
    }

    /// The error code with which the enumeration ended.
    pub fn error(&self) -> (code: u32)
        ensures
            code == self@.error,
    {
        self.error
    }

    /// The string that was copied, if any.
    pub fn into_text(self) -> (text: Option<String>)
        ensures
            text_view(text) == self@.text,
    {
        self.text
    }

    /// Takes the reply to the last call and gives the next call, or `None` when the
    /// read is over. The reply to the first step is ignored.
    pub fn step(self, reply: NativeReply) -> (next: (TextOp, Option<NativeCall>))
        ensures
            next.0@.wf(),
            next.0@ == self@.step(reply@).0,
            call_view(next.1) == self@.step(reply@).1,
    {
        proof {
            use_type_invariant(&self);
        }
        let TextOp { text, others, error, phase } = self;
        match phase {
            TextPhase::Start => (
                TextOp { text, others, error, phase: TextPhase::Opening },
                Some(NativeCall::Open),
            ),
            TextPhase::Opening => match reply {
                NativeReply::Opened(true) => (
                    TextOp { text, others, error, phase: TextPhase::Scanning },
                    Some(NativeCall::Next { after: NO_FORMAT }),
                ),
                _ => (TextOp { text, others, error, phase: TextPhase::Finished }, None),
            },
            TextPhase::Scanning => match reply {
                NativeReply::Next { format: found, error: code } => {
                    if found == TEXT_FORMAT {
                        (
                            TextOp { text, others, error, phase: TextPhase::Reading },
                            Some(NativeCall::ReadText),
                        )
                    } else if found != NO_FORMAT && others.len() < SCAN_LIMIT {
                        let mut others = others;
                        others.push(found);
                        (
                            TextOp { text, others, error, phase },
                            Some(NativeCall::Next { after: found }),
                        )
                    } else {
                        let error = if found == NO_FORMAT {
                            code
                        } else {
                            0
                        };
                        (
                            TextOp { text, others, error, phase: TextPhase::Closing },
                            Some(NativeCall::Close),
                        )
                    }
                },
                _ => (
                    TextOp { text, others, error, phase: TextPhase::Closing },
                    Some(NativeCall::Close),
                ),
            },
            TextPhase::Reading => {
                let text = match reply {
                    NativeReply::Text(text) => text,
                    _ => None,
                };
                (TextOp { text, others, error, phase: TextPhase::Closing }, Some(NativeCall::Close))
            },
            TextPhase::Closing => (
                TextOp { text, others, error, phase: TextPhase::Finished },
                None,
            ),
            TextPhase::Finished => (TextOp { text, others, error, phase }, None),
        }
    }
}

} // verus!
