//! Whole operations on a clipboard held in memory: each protocol is run to its end,
//! and what it leaves behind is stated in closed form.

use vstd::prelude::*;
use crate::contents::{
    find, known, lemma_slot_index, lemma_slot_index_at, lemma_slots_bound, payload_bytes, put,
    slot_index, ClipboardContents, ContentsView, SlotView,
};
use crate::native::{
    NativeCallView, NativeReply, NativeReplyView, PayloadView, NO_FORMAT, TEXT_FORMAT,
};
use crate::reader::{
    bytes_view, text_view, ReadOp, ReadOpView, ReadPhase, TextOp, TextOpView, TextPhase, SCAN_LIMIT,
};
use crate::registry::{lemma_register, RegistryView};
use crate::writer::{
    declared, next_resolved, skip_text, EntryView, WriteOp, WriteOpView, WritePhase,
};

verus! {

/// The registry after the identifiers of `entries` were registered in order, and the
/// format that each entry was given.
pub open spec fn resolved(registry: RegistryView, entries: Seq<EntryView>) -> (
    RegistryView,
    Seq<u32>,
)
    decreases entries.len(),
{
    if entries.len() == 0 {
        (registry, Seq::empty())
    } else {
        let (before, tokens) = resolved(registry, entries.drop_last());
        match entries.last().identifier {
            None => (before, tokens.push(TEXT_FORMAT)),
            Some(name) => (before.register(name), tokens.push(before.token(name))),
        }
    }
}

/// The slots of an emptied clipboard after the first `n` entries were stored, each
/// under its format; an entry without a format is passed over.
pub open spec fn stored(entries: Seq<EntryView>, tokens: Seq<u32>, n: int) -> Seq<SlotView>
    decreases n,
{
    if n <= 0 {
        Seq::empty()
    } else {
        let before = stored(entries, tokens, n - 1);
        if tokens[n - 1] != NO_FORMAT {
            put(before, tokens[n - 1], entries[n - 1].payload)
        } else {
            before
        }
    }
}

/// The clipboard after `entries` were written to it: unchanged where access could
/// not be had; else emptied, then holding every entry that has a format.
pub open spec fn written(start: ContentsView, entries: Seq<EntryView>) -> ContentsView {
    if start.busy {
        start
    } else {
        let (registry, tokens) = resolved(start.registry, entries);
        ContentsView {
            open: false,
            registry,
            declared: declared(tokens),
            slots: stored(entries, tokens, entries.len() as int),
            ..start
        }
    }
}

/// What holds between a write in progress and the clipboard it writes to: `reply`
/// is the answer to the last call, and `start` the clipboard before the first.
pub open spec fn write_inv(
    op: WriteOpView,
    now: ContentsView,
    reply: NativeReplyView,
    start: ContentsView,
) -> bool {
    let entries = op.entries;
    let full = resolved(start.registry, entries);
    let emptied = ContentsView { open: true, declared: Seq::empty(), slots: Seq::empty(), ..start };
    match op.phase {
        WritePhase::Start => now == start,
        WritePhase::Opening => reply == NativeReplyView::Opened(!start.busy) && now == if start.busy {
            start
        } else {
            ContentsView { open: true, ..start }
        },
        WritePhase::Clearing => !start.busy && now == emptied,
        WritePhase::Resolving => {
            let part = resolved(start.registry, entries.take(op.tokens.len() as int));
            let name = entries[op.tokens.len() as int].identifier.unwrap();
            &&& !start.busy
            &&& op.tokens == part.1
            &&& reply == NativeReplyView::Registered(part.0.token(name))
            &&& now == ContentsView { registry: part.0.register(name), ..emptied }
        },
        WritePhase::Declaring => {
            &&& !start.busy
            &&& op.tokens == full.1
            &&& now == ContentsView { registry: full.0, declared: declared(full.1), ..emptied }
        },
        WritePhase::Storing => {
            &&& !start.busy
            &&& op.tokens == full.1
            &&& now == ContentsView {
                registry: full.0,
                declared: declared(full.1),
                slots: stored(entries, full.1, op.cursor + 1),
                ..emptied
            }
        },
        WritePhase::Closing => !start.busy && op.tokens == full.1 && now == written(start, entries),
        WritePhase::Finished => now == written(start, entries),
    }
}

/// Resolving keeps a registry well formed, and gives each entry a format.
pub(crate) proof fn lemma_resolved(registry: RegistryView, entries: Seq<EntryView>)
    requires
        registry.wf(),
    ensures
        resolved(registry, entries).0.wf(),
        resolved(registry, entries).1.len() == entries.len(),
    decreases entries.len(),
{
    if entries.len() > 0 {
        lemma_resolved(registry, entries.drop_last());
        let before = resolved(registry, entries.drop_last()).0;
        if let Some(name) = entries.last().identifier {
            lemma_register(before, name);
        }
    }
}

/// Resolving only adds to a registry, and every format it gives is known to the
/// registry it leaves.
pub(crate) proof fn lemma_resolved_known(registry: RegistryView, entries: Seq<EntryView>)
    requires
        registry.wf(),
    ensures
        resolved(registry, entries).0.names.len() >= registry.names.len(),
        resolved(registry, entries).0.capacity == registry.capacity,
        forall|i: int|
            0 <= i < entries.len() ==> {
                let token = #[trigger] resolved(registry, entries).1[i];
                token == NO_FORMAT || known(resolved(registry, entries).0, token)
            },
    decreases entries.len(),
{
    lemma_resolved(registry, entries);
    if entries.len() > 0 {
        let rest = entries.drop_last();
        lemma_resolved_known(registry, rest);
        lemma_resolved(registry, rest);
        let (before, tokens) = resolved(registry, rest);
        let (after, all) = resolved(registry, entries);
        assert forall|i: int| 0 <= i < entries.len() implies {
            let token = #[trigger] all[i];
            token == NO_FORMAT || known(after, token)
        } by {
            if i < rest.len() {
                assert(all[i] == tokens[i]);
                assert(tokens[i] == NO_FORMAT || known(before, tokens[i]));
            }
        }
    }
}

/// Resolving one entry more.
proof fn lemma_resolved_next(registry: RegistryView, entries: Seq<EntryView>, k: int)
    requires
        0 <= k < entries.len(),
    ensures
        resolved(registry, entries.take(k + 1)) == ({
            let (before, tokens) = resolved(registry, entries.take(k));
            match entries[k].identifier {
                None => (before, tokens.push(TEXT_FORMAT)),
                Some(name) => (before.register(name), tokens.push(before.token(name))),
            }
        }),
{
    let next = entries.take(k + 1);
    assert(next.drop_last() == entries.take(k));
    assert(next.last() == entries[k]);
}

/// Passing over text entries resolves them, and touches no registry.
proof fn lemma_skip_text(registry: RegistryView, entries: Seq<EntryView>, tokens: Seq<u32>)
    requires
        tokens.len() <= entries.len(),
        tokens == resolved(registry, entries.take(tokens.len() as int)).1,
    ensures
        ({
            let skipped = skip_text(entries, tokens);
            &&& tokens.len() <= skipped.len() <= entries.len()
            &&& skipped == resolved(registry, entries.take(skipped.len() as int)).1
            &&& resolved(registry, entries.take(skipped.len() as int)).0 == resolved(
                registry,
                entries.take(tokens.len() as int),
            ).0
            &&& skipped.len() < entries.len() ==> entries[skipped.len() as int].identifier.is_some()
        }),
    decreases entries.len() - tokens.len(),
{
    if tokens.len() < entries.len() && entries[tokens.len() as int].identifier.is_none() {
        lemma_resolved_next(registry, entries, tokens.len() as int);
        lemma_skip_text(registry, entries, tokens.push(TEXT_FORMAT));
    }
}

/// The entries passed over on the way to the next one with a format store nothing.
proof fn lemma_next_resolved(entries: Seq<EntryView>, tokens: Seq<u32>, from: int)
    requires
        0 <= from <= tokens.len(),
    ensures
        ({
            let at = next_resolved(tokens, from);
            &&& from <= at <= tokens.len()
            &&& stored(entries, tokens, at) == stored(entries, tokens, from)
            &&& at < tokens.len() ==> tokens[at] != NO_FORMAT
        }),
    decreases tokens.len() - from,
{
    if from < tokens.len() && tokens[from] == NO_FORMAT {
        lemma_next_resolved(entries, tokens, from + 1);
    }
}

/// Every format that an entry was given is among those announced.
proof fn lemma_declared_contains(tokens: Seq<u32>, at: int)
    requires
        0 <= at < tokens.len(),
        tokens[at] != NO_FORMAT,
    ensures
        declared(tokens).contains(tokens[at]),
{
    let pred = |token: u32| token != NO_FORMAT;
    tokens.lemma_filter_contains(pred, at);
}

/// One step of a write, and the clipboard's answer to it, keep `write_inv`; and the
/// write ends only on a clipboard that holds what `written` says.
pub proof fn lemma_write_step(
    op: WriteOpView,
    now: ContentsView,
    reply: NativeReplyView,
    start: ContentsView,
)
    requires
        op.wf(),
        start.wf(),
        write_inv(op, now, reply, start),
    ensures
        ({
            let (next, call) = op.step(reply);
            match call {
                Some(call) => write_inv(next, now.answer(call).0, now.answer(call).1, start),
                None => next.phase == WritePhase::Finished && now == written(start, op.entries),
            }
        }),
        op.step(reply).0.entries == op.entries,
        op.step(reply).0.remaining() < op.remaining() || op.phase == WritePhase::Finished,
{
    let entries = op.entries;
    let n = entries.len() as int;
    let registry = start.registry;
    lemma_resolved(registry, entries);
    lemma_resolved_known(registry, entries);
    let full = resolved(registry, entries);
    assert(entries.take(n) == entries);
    match op.phase {
        WritePhase::Clearing => {
            let none = Seq::<u32>::empty();
            assert(entries.take(0).len() == 0);
            lemma_skip_text(registry, entries, none);
        },
        WritePhase::Resolving => {
            let k = op.tokens.len() as int;
            lemma_resolved_next(registry, entries, k);
            let token = match reply {
                NativeReplyView::Registered(token) => token,
                _ => NO_FORMAT,
            };
            lemma_skip_text(registry, entries, op.tokens.push(token));
            let skipped = skip_text(entries, op.tokens.push(token));
            lemma_resolved(registry, entries.take(skipped.len() as int));
        },
        WritePhase::Declaring => {
            lemma_next_resolved(entries, op.tokens, 0);
            let at = next_resolved(op.tokens, 0);
            if at < n {
                lemma_declared_contains(op.tokens, at);
            }
        },
        WritePhase::Storing => {
            lemma_next_resolved(entries, op.tokens, op.cursor + 1);
            let at = next_resolved(op.tokens, op.cursor + 1);
            if at < n {
                lemma_declared_contains(op.tokens, at);
            }
        },
        _ => {},
    }
}

/// Writes `entries` through the write protocol, call by call.
pub fn run_write(contents: &mut ClipboardContents, op: WriteOp)
    requires
        old(contents)@.wf(),
        op@.wf(),
        op@.phase == WritePhase::Start,
    ensures
        final(contents)@.wf(),
        final(contents)@ == written(old(contents)@, op@.entries),
{
    let ghost start = contents@;
    let ghost entries = op@.entries;
    let mut op = op;
    let mut reply = NativeReply::Done;
    loop
        invariant
            start.wf(),
            contents@.wf(),
            op@.wf(),
            op@.entries == entries,
            write_inv(op@, contents@, reply@, start),
        ensures
            contents@.wf(),
            contents@ == written(start, entries),
        decreases op@.remaining(),
    {
        proof {
            lemma_write_step(op@, contents@, reply@, start);
        }
        let (next, call) = op.step(reply);
        op = next;
        match call {
            Some(call) => {
                reply = contents.perform(call);
            },
            None => {
                break ;
            },
        }
    }
}

/// The bytes stored under `format`, as a reader receives them.
pub open spec fn bytes_under(slots: Seq<SlotView>, format: u32) -> Option<Seq<u8>> {
    match find(slots, format) {
        Some(payload) => Some(payload_bytes(payload)),
        None => None,
    }
}

/// The clipboard after a typed read for `identifier`, and the bytes that it found.
/// Without an identifier the clipboard is not touched. Else the identifier is
/// registered; and where it has a format and access can be had, the bytes under
/// that format are found, if there are any.
pub open spec fn read_outcome(start: ContentsView, identifier: Option<Seq<char>>) -> (
    ContentsView,
    Option<Seq<u8>>,
) {
    match identifier {
        None => (start, None),
        Some(name) => {
            let format = start.registry.token(name);
            let registered = ContentsView { registry: start.registry.register(name), ..start };
            if format == NO_FORMAT || start.busy {
                (registered, None)
            } else {
                (ContentsView { open: false, ..registered }, bytes_under(start.slots, format))
            }
        },
    }
}

/// What holds between a typed read in progress and the clipboard it reads from.
pub open spec fn read_inv(
    op: ReadOpView,
    now: ContentsView,
    reply: NativeReplyView,
    start: ContentsView,
) -> bool {
    match op.identifier {
        None => (op.phase == ReadPhase::Start || op.phase == ReadPhase::Finished) && now == start
            && op.data.is_none(),
        Some(name) => {
            let format = start.registry.token(name);
            let registered = ContentsView { registry: start.registry.register(name), ..start };
            let opened = ContentsView { open: true, ..registered };
            match op.phase {
                ReadPhase::Start => now == start && op.data.is_none(),
                ReadPhase::Registering => {
                    &&& op.data.is_none()
                    &&& reply == NativeReplyView::Registered(format)
                    &&& now == registered
                },
                ReadPhase::Opening => {
                    &&& op.data.is_none()
                    &&& op.format == format
                    &&& format != NO_FORMAT
                    &&& reply == NativeReplyView::Opened(!start.busy)
                    &&& now == if start.busy {
                        registered
                    } else {
                        opened
                    }
                },
                ReadPhase::Checking => {
                    &&& op.data.is_none()
                    &&& op.format == format
                    &&& format != NO_FORMAT
                    &&& !start.busy
                    &&& reply == NativeReplyView::Available(find(start.slots, format).is_some())
                    &&& now == opened
                },
                ReadPhase::Reading => {
                    &&& format != NO_FORMAT
                    &&& !start.busy
                    &&& reply == NativeReplyView::Data(bytes_under(start.slots, format))
                    &&& now == opened
                },
                ReadPhase::Scanning => {
                    &&& op.data.is_none()
                    &&& format != NO_FORMAT
                    &&& !start.busy
                    &&& find(start.slots, format).is_none()
                    &&& now == opened
                },
                ReadPhase::Closing => {
                    &&& format != NO_FORMAT
                    &&& !start.busy
                    &&& op.data == bytes_under(start.slots, format)
                    &&& now == ContentsView { open: false, ..registered }
                },
                ReadPhase::Finished => (now, op.data) == read_outcome(start, op.identifier),
            }
        },
    }
}

/// One step of a typed read, and the clipboard's answer to it, keep `read_inv`; and
/// the read ends only with the outcome that `read_outcome` gives.
pub proof fn lemma_read_step(
    op: ReadOpView,
    now: ContentsView,
    reply: NativeReplyView,
    start: ContentsView,
)
    requires
        op.wf(),
        read_inv(op, now, reply, start),
    ensures
        ({
            let (next, call) = op.step(reply);
            match call {
                Some(call) => read_inv(next, now.answer(call).0, now.answer(call).1, start),
                None => next.phase == ReadPhase::Finished && (now, next.data) == read_outcome(
                    start,
                    op.identifier,
                ),
            }
        }),
        op.step(reply).0.identifier == op.identifier,
        op.step(reply).0.remaining() < op.remaining() || op.phase == ReadPhase::Finished,
{
}

/// Reads through the typed read protocol, call by call, and returns the bytes found.
pub fn run_read(contents: &mut ClipboardContents, op: ReadOp) -> (data: Option<Vec<u8>>)
    requires
        old(contents)@.wf(),
        op@.wf(),
        op@.phase == ReadPhase::Start,
        op@.data.is_none(),
    ensures
        final(contents)@.wf(),
        final(contents)@ == read_outcome(old(contents)@, op@.identifier).0,
        bytes_view(data) == read_outcome(old(contents)@, op@.identifier).1,
{
    let ghost start = contents@;
    let ghost identifier = op@.identifier;
    let mut op = op;
    let mut reply = NativeReply::Done;
    loop
        invariant
            contents@.wf(),
            op@.wf(),
            op@.identifier == identifier,
            read_inv(op@, contents@, reply@, start),
        ensures
            contents@.wf(),
            op@.identifier == identifier,
            (contents@, op@.data) == read_outcome(start, identifier),
        decreases op@.remaining(),
    {
        proof {
            lemma_read_step(op@, contents@, reply@, start);
        }
        let (next, call) = op.step(reply);
        op = next;
        match call {
            Some(call) => {
                reply = contents.perform(call);
            },
            None => {
                break ;
            },
        }
    }
    op.into_data()
}

/// The string under the text format, if a string is stored there.
pub open spec fn text_at(slots: Seq<SlotView>, at: int) -> Option<Seq<char>> {
    match slots[at].payload {
        PayloadView::Text(text) => Some(text),
        _ => None,
    }
}

/// The clipboard after a text read, and the string that it found: the one stored
/// under the text format, if access can be had.
pub open spec fn text_outcome(start: ContentsView) -> (ContentsView, Option<Seq<char>>) {
    if start.busy {
        (start, None)
    } else {
        let at = slot_index(start.slots, TEXT_FORMAT);
        (
            ContentsView { open: false, ..start },
            if at < start.slots.len() {
                text_at(start.slots, at)
            } else {
                None
            },
        )
    }
}

/// What holds between a text read in progress and the clipboard it reads from.
pub open spec fn text_inv(
    op: TextOpView,
    now: ContentsView,
    reply: NativeReplyView,
    start: ContentsView,
) -> bool {
    let slots = start.slots;
    let at = slot_index(slots, TEXT_FORMAT);
    let opened = ContentsView { open: true, ..start };
    match op.phase {
        TextPhase::Start => now == start && op.text.is_none() && op.others.len() == 0,
        TextPhase::Opening => {
            &&& op.text.is_none()
            &&& op.others.len() == 0
            &&& reply == NativeReplyView::Opened(!start.busy)
            &&& now == if start.busy {
                start
            } else {
                opened
            }
        },
        TextPhase::Scanning => {
            let k = op.others.len() as int;
            &&& op.text.is_none()
            &&& !start.busy
            &&& now == opened
            &&& k <= at
            &&& reply == NativeReplyView::Next {
                format: if k < slots.len() {
                    slots[k].format
                } else {
                    NO_FORMAT
                },
                error: 0,
            }
        },
        TextPhase::Reading => {
            &&& !start.busy
            &&& now == opened
            &&& at < slots.len()
            &&& reply == NativeReplyView::Text(text_at(slots, at))
        },
        TextPhase::Closing => {
            &&& !start.busy
            &&& now == ContentsView { open: false, ..start }
            &&& op.text == text_outcome(start).1
        },
        TextPhase::Finished => (now, op.text) == text_outcome(start),
    }
}

/// One step of a text read, and the clipboard's answer to it, keep `text_inv`; and
/// the read ends only with the outcome that `text_outcome` gives.
pub proof fn lemma_text_step(
    op: TextOpView,
    now: ContentsView,
    reply: NativeReplyView,
    start: ContentsView,
)
    requires
        op.wf(),
        start.wf(),
        text_inv(op, now, reply, start),
    ensures
        ({
            let (next, call) = op.step(reply);
            match call {
                Some(call) => text_inv(next, now.answer(call).0, now.answer(call).1, start),
                None => next.phase == TextPhase::Finished && (now, next.text) == text_outcome(
                    start,
                ),
            }
        }),
        op.step(reply).0.remaining() < op.remaining() || op.phase == TextPhase::Finished,
{
    let slots = start.slots;
    let at = slot_index(slots, TEXT_FORMAT);
    lemma_slot_index(slots, TEXT_FORMAT);
    lemma_slots_bound(start);
    match op.phase {
        TextPhase::Scanning => {
            let k = op.others.len() as int;
            let (next, call) = op.step(reply);
            if k < slots.len() {
                lemma_slot_index_at(slots, k);
                let format = slots[k].format;
                assert(format != NO_FORMAT);
                if format == TEXT_FORMAT {
                    assert(at == k);
                    assert(find(slots, TEXT_FORMAT) == Some(slots[at].payload));
                } else {
                    assert(at != k);
                    if k < SCAN_LIMIT {
                        assert(next.others.len() == k + 1);
                        assert(call == Some(NativeCallView::Next { after: format }));
                    }
                }
            } else {
                assert(at == slots.len());
                assert(text_outcome(start).1.is_none());
            }
        },
        _ => {},
    }
}

/// Reads through the text read protocol, call by call, and returns the string found.
pub fn run_text(contents: &mut ClipboardContents, op: TextOp) -> (text: Option<String>)
    requires
        old(contents)@.wf(),
        op@.wf(),
        op@.phase == TextPhase::Start,
        op@.text.is_none(),
        op@.others.len() == 0,
    ensures
        final(contents)@.wf(),
        final(contents)@ == text_outcome(old(contents)@).0,
        text_view(text) == text_outcome(old(contents)@).1,
{
    let ghost start = contents@;
    let mut op = op;
    let mut reply = NativeReply::Done;
    loop
        invariant
            start.wf(),
            contents@.wf(),
            op@.wf(),
            text_inv(op@, contents@, reply@, start),
        ensures
            contents@.wf(),
            (contents@, op@.text) == text_outcome(start),
        decreases op@.remaining(),
    {
        proof {
            lemma_text_step(op@, contents@, reply@, start);
        }
        let (next, call) = op.step(reply);
        op = next;
        match call {
            Some(call) => {
                reply = contents.perform(call);
            },
            None => {
                break ;
            },
        }
    }
    op.into_text()
}

} // verus!
