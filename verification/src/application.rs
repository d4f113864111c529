//! The application's view of the clipboard: whole operations, each one call.

use vstd::prelude::*;
use crate::clipboard::{ClipboardFormat, ClipboardItem, ClipboardRead};
use crate::contents::ClipboardContents;
use crate::reader::{text_view, wanted, ReadOp, TextOp};
use crate::session::{read_outcome, run_read, run_text, run_write, text_outcome, written};
use crate::writer::{plan, WriteOp};

verus! {

/// The operations that an application has on the clipboard.
pub struct Application;

impl Application {
    /// Sets the contents of the clipboard to the representations of `item` that its
    /// platform supports. Where access cannot be had, nothing changes.
    pub fn set_clipboard_contents(contents: &mut ClipboardContents, item: ClipboardItem)
        requires
            old(contents)@.wf(),
        ensures
            final(contents)@.wf(),
            final(contents)@ == written(
                old(contents)@,
                plan(item@, old(contents)@.platform),
            ),
    {
        let op = WriteOp::new(&item, contents.platform());
        run_write(contents, op);
    }

    /// Returns the text on the clipboard, if any, as an item of one format.
    pub fn get_clipboard_contents(contents: &mut ClipboardContents) -> (item: Option<ClipboardItem>)
        requires
            old(contents)@.wf(),
        ensures
            final(contents)@.wf(),
            final(contents)@ == text_outcome(old(contents)@).0,
            item.is_some() == text_outcome(old(contents)@).1.is_some(),
            item matches Some(found) ==> found@.len() == 1 && (
            found@[0] matches ClipboardFormat::Text(text) && Some(text@) == text_outcome(
                old(contents)@,
            ).1),
    {
        match contents.string_value() {
            Some(text) => Some(ClipboardItem::from(text)),
            None => None,
        }
    }
}

impl ClipboardContents {
    /// Returns the contents of the clipboard as a string, if possible.
    pub fn string_value(&mut self) -> (text: Option<String>)
        requires
            old(self)@.wf(),
        ensures
            final(self)@.wf(),
            final(self)@ == text_outcome(old(self)@).0,
            text_view(text) == text_outcome(old(self)@).1,
    {
        run_text(self, TextOp::new())
    }

    /// Attempts to retrieve the data that `reader` describes: the bytes stored under
    /// the identifier that it has on this platform, as `reader` parses them.
    pub fn custom_value<T: ClipboardRead>(&mut self, reader: &T) -> (value: Option<T::Data>)
        requires
            old(self)@.wf(),
        ensures
            final(self)@.wf(),
            final(self)@ == read_outcome(
                old(self)@,
                wanted(reader.readable(old(self)@.platform)),
            ).0,
            match read_outcome(old(self)@, wanted(reader.readable(old(self)@.platform))).1 {
                Some(bytes) => reader.parses(bytes, value),
                None => value.is_none(),
            },
    {
        let op = ReadOp::new(reader.read_options(self.platform()));
        match run_read(self, op) {
            Some(bytes) => reader.parse(bytes),
            None => None,
        }
    }
}

} // verus!
