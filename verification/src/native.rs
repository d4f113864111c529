//! The vocabulary spoken between the clipboard protocols and a platform's native
//! clipboard: format tokens, payloads, calls and replies.

use vstd::prelude::*;

verus! {

/// The token of the platform's standard text format.
pub const TEXT_FORMAT: u32 = 13;

/// The token that stands for "no format": a failed registration, or the end of an
/// enumeration.
pub const NO_FORMAT: u32 = 0;

/// The error code with which a platform reports that a token names no format.
pub const ERROR_INVALID_PARAMETER: u32 = 87;

/// Bytes in the physical layout that the native clipboard demands.
#[derive(Clone, Debug, PartialEq, Eq)]
pub enum Payload {
    /// A native string.
    Text(String),
    /// A raw byte blob.
    Data(Vec<u8>),
    /// A byte blob that the platform stores in its structured property-list encoding.
    PropertyList(Vec<u8>),
}

/// What a `Payload` holds, as mathematical values.
pub enum PayloadView {
    Text(Seq<char>),
    Data(Seq<u8>),
    PropertyList(Seq<u8>),
}

impl View for Payload {
    type V = PayloadView;

    open spec fn view(&self) -> PayloadView {
        match self {
            Payload::Text(text) => PayloadView::Text(text@),
            Payload::Data(bytes) => PayloadView::Data(bytes@),
            Payload::PropertyList(bytes) => PayloadView::PropertyList(bytes@),
        }
    }
}

/// One request to the native clipboard.
#[derive(Clone, Debug, PartialEq, Eq)]
pub enum NativeCall {
    /// Acquire exclusive access.
    Open,
    /// Release access.
    Close,
    /// Remove the current contents.
    Clear,
    /// Announce the formats that are about to be written, in order.
    Declare { formats: Vec<u32> },
    /// Resolve an identifier to its format token.
    Register { identifier: String },
    /// Store a payload under a format.
    Write { format: u32, payload: Payload },
    /// Ask whether a format is present.
    IsAvailable { format: u32 },
    /// Copy the bytes stored under a format.
    Read { format: u32 },
    /// Copy the string stored under the standard text format.
    ReadText,
    /// Ask for the format that follows `after` among those present; `NO_FORMAT`
    /// asks for the first.
    Next { after: u32 },
}

/// What a `NativeCall` holds, as mathematical values.
pub enum NativeCallView {
    Open,
    Close,
    Clear,
    Declare { formats: Seq<u32> },
    Register { identifier: Seq<char> },
    Write { format: u32, payload: PayloadView },
    IsAvailable { format: u32 },
    Read { format: u32 },
    ReadText,
    Next { after: u32 },
}

impl View for NativeCall {
    type V = NativeCallView;

    open spec fn view(&self) -> NativeCallView {
        match self {
            NativeCall::Open => NativeCallView::Open,
            NativeCall::Close => NativeCallView::Close,
            NativeCall::Clear => NativeCallView::Clear,
            NativeCall::Declare { formats } => NativeCallView::Declare { formats: formats@ },
            NativeCall::Register { identifier } => NativeCallView::Register {
                identifier: identifier@,
            },
            NativeCall::Write { format, payload } => NativeCallView::Write {
                format: *format,
                payload: payload@,
            },
            NativeCall::IsAvailable { format } => NativeCallView::IsAvailable { format: *format },
            NativeCall::Read { format } => NativeCallView::Read { format: *format },
            NativeCall::ReadText => NativeCallView::ReadText,
            NativeCall::Next { after } => NativeCallView::Next { after: *after },
        }
    }
}

/// What the native clipboard answered.
#[derive(Clone, Debug, PartialEq, Eq)]
pub enum NativeReply {
    /// The call was carried out and has nothing to report.
    Done,
    /// Whether access was acquired.
    Opened(bool),
    /// The token of the identifier, or `NO_FORMAT` where it could not be registered.
    Registered(u32),
    /// Whether the payload was stored.
    Written(bool),
    /// Whether the format is present.
    Available(bool),
    /// The bytes under the format, if they could be had.
    Data(Option<Vec<u8>>),
    /// The string under the text format, if it could be had.
    Text(Option<String>),
    /// The next format present, or `NO_FORMAT` at the end, and the platform's error
    /// code, which is 0 unless the enumeration failed.
    Next { format: u32, error: u32 },
}

/// What a `NativeReply` holds, as mathematical values.
pub enum NativeReplyView {
    Done,
    Opened(bool),
    Registered(u32),
    Written(bool),
    Available(bool),
    Data(Option<Seq<u8>>),
    Text(Option<Seq<char>>),
    Next { format: u32, error: u32 },
}

impl View for NativeReply {
    type V = NativeReplyView;

    open spec fn view(&self) -> NativeReplyView {
        match self {
            NativeReply::Done => NativeReplyView::Done,
            NativeReply::Opened(ok) => NativeReplyView::Opened(*ok),
            NativeReply::Registered(format) => NativeReplyView::Registered(*format),
            NativeReply::Written(ok) => NativeReplyView::Written(*ok),
            NativeReply::Available(present) => NativeReplyView::Available(*present),
            NativeReply::Data(Some(bytes)) => NativeReplyView::Data(Some(bytes@)),
            NativeReply::Data(None) => NativeReplyView::Data(None),
            NativeReply::Text(Some(text)) => NativeReplyView::Text(Some(text@)),
            NativeReply::Text(None) => NativeReplyView::Text(None),
            NativeReply::Next { format, error } => NativeReplyView::Next {
                format: *format,
                error: *error,
            },
        }
    }
}

} // verus!
