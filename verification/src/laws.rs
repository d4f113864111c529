//! What holds of the clipboard whatever is written and read: the laws that relate
//! whole operations to one another.

use vstd::prelude::*;
use vstd::utf8::{decode_utf8_encode_utf8, valid_utf8};
use crate::clipboard::{supported_formats, ClipboardFormat, ClipboardWrite};
use crate::contents::{find, lemma_put, lemma_slot_index, payload_bytes, slots_wf, ContentsView};
use crate::formats::registrable;
use crate::native::{NativeCallView, NativeReplyView, PayloadView, NO_FORMAT, TEXT_FORMAT};
use crate::platform::{DataType, Platform};
use crate::reader::{ReadOpView, ReadPhase, TextOpView, TextPhase};
use crate::registry::{extends, lemma_extends, lemma_register, RegistryView};
use crate::session::{
    lemma_resolved, read_outcome, resolved, stored, text_outcome, written,
};
use crate::writer::{
    entry_of, next_resolved, plan, skip_text, EntryView, WriteOpView, WritePhase,
};

verus! {

/// The supported formats of an item are formats of the item that the platform
/// supports, none of those is missing, and filtering them again changes nothing.
pub proof fn lemma_supported_formats(formats: Seq<ClipboardFormat>, platform: Platform)
    ensures
        supported_formats(formats, platform).len() <= formats.len(),
        forall|i: int|
            0 <= i < supported_formats(formats, platform).len() ==> formats.contains(
                #[trigger] supported_formats(formats, platform)[i],
            ) && supported_formats(formats, platform)[i].supported(platform),
        forall|i: int|
            0 <= i < formats.len() && (#[trigger] formats[i]).supported(platform)
                ==> supported_formats(formats, platform).contains(formats[i]),
        supported_formats(supported_formats(formats, platform), platform) == supported_formats(
            formats,
            platform,
        ),
    decreases formats.len(),
{
    let keep = |format: ClipboardFormat| format.supported(platform);
    let kept = supported_formats(formats, platform);
    formats.lemma_filter_len(keep);
    assert forall|i: int| 0 <= i < kept.len() implies formats.contains(#[trigger] kept[i])
        && kept[i].supported(platform) by {
        formats.lemma_filter_pred(keep, i);
        formats.lemma_filter_contains_rev(keep, kept[i]);
    }
    assert forall|i: int| 0 <= i < formats.len() && (#[trigger] formats[i]).supported(
        platform,
    ) implies kept.contains(formats[i]) by {
        formats.lemma_filter_contains(keep, i);
    }
    reveal(Seq::filter);
    if formats.len() > 0 {
        lemma_supported_formats(formats.drop_last(), platform);
        let rest = supported_formats(formats.drop_last(), platform);
        if formats.last().supported(platform) {
            let all = rest.push(formats.last());
            assert(all.drop_last() == rest);
            assert(all.last() == formats.last());
        }
    }
}

/// The format that an entry has in `registry`.
pub open spec fn token_for(registry: RegistryView, identifier: Option<Seq<char>>) -> u32 {
    match identifier {
        None => TEXT_FORMAT,
        Some(name) => registry.token(name),
    }
}

/// The format of each entry in `registry`.
pub open spec fn tokens_for(registry: RegistryView, entries: Seq<EntryView>) -> Seq<u32> {
    Seq::new(entries.len(), |i: int| token_for(registry, entries[i].identifier))
}

/// Every identifier among `entries` is registered, or the registry is full.
pub open spec fn settled(registry: RegistryView, entries: Seq<EntryView>) -> bool {
    forall|i: int|
        0 <= i < entries.len() ==> ((#[trigger] entries[i]).identifier matches Some(name)
            ==> registry.position(name).is_some() || registry.names.len() >= registry.capacity)
}

/// After its identifiers were registered in order, a registry extends the one
/// before, is settled for the entries, and gives each entry the format it got.
proof fn lemma_resolved_settled(registry: RegistryView, entries: Seq<EntryView>)
    requires
        registry.wf(),
    ensures
        resolved(registry, entries).0.wf(),
        extends(registry, resolved(registry, entries).0),
        settled(resolved(registry, entries).0, entries),
        resolved(registry, entries).1 == tokens_for(resolved(registry, entries).0, entries),
    decreases entries.len(),
{
    lemma_resolved(registry, entries);
    let (after, all) = resolved(registry, entries);
    if entries.len() == 0 {
        assert(all =~= tokens_for(after, entries));
    } else {
        let rest = entries.drop_last();
        lemma_resolved_settled(registry, rest);
        lemma_resolved(registry, rest);
        let (before, tokens) = resolved(registry, rest);
        match entries.last().identifier {
            None => {},
            Some(name) => {
                lemma_register(before, name);
            },
        }
        assert forall|i: int| 0 <= i < entries.len() implies all[i] == token_for(
            after,
            entries[i].identifier,
        ) && ((#[trigger] entries[i]).identifier matches Some(name) ==> after.position(
            name,
        ).is_some() || after.names.len() >= after.capacity) by {
            if i < rest.len() {
                assert(entries[i] == rest[i]);
                assert(all[i] == tokens[i]);
                assert(tokens[i] == tokens_for(before, rest)[i]);
                if let Some(name) = entries[i].identifier {
                    lemma_extends(before, after, name);
                }
            }
        }
        assert(all =~= tokens_for(after, entries));
    }
}

/// In a registry that is settled for them, resolving the entries changes nothing
/// and gives each entry the format it has.
proof fn lemma_resolved_again(registry: RegistryView, entries: Seq<EntryView>)
    requires
        registry.wf(),
        settled(registry, entries),
    ensures
        resolved(registry, entries) == (registry, tokens_for(registry, entries)),
    decreases entries.len(),
{
    if entries.len() == 0 {
        assert(resolved(registry, entries).1 =~= tokens_for(registry, entries));
    } else {
        let rest = entries.drop_last();
        assert forall|i: int| 0 <= i < rest.len() implies ((#[trigger] rest[i]).identifier matches Some(
            name,
        ) ==> registry.position(name).is_some() || registry.names.len() >= registry.capacity) by {
            assert(rest[i] == entries[i]);
        }
        lemma_resolved_again(registry, rest);
        assert(entries[entries.len() - 1] == entries.last());
        assert(resolved(registry, entries).1 =~= tokens_for(registry, entries));
    }
}

/// A write that cannot acquire the clipboard leaves it as it was.
pub proof fn lemma_write_needs_access(start: ContentsView, entries: Seq<EntryView>)
    requires
        start.busy,
    ensures
        written(start, entries) == start,
{
}

/// A write leaves the clipboard well formed, released, and as free as it was.
pub proof fn lemma_written_wf(start: ContentsView, entries: Seq<EntryView>)
    requires
        start.wf(),
    ensures
        written(start, entries).wf(),
        written(start, entries).busy == start.busy,
        !start.busy ==> !written(start, entries).open,
{
    if !start.busy {
        lemma_resolved(start.registry, entries);
        crate::session::lemma_resolved_known(start.registry, entries);
        let (registry, tokens) = resolved(start.registry, entries);
        lemma_stored(registry, entries, tokens, entries.len() as int);
    }
}

/// What was stored keeps the slots well formed, under known formats.
proof fn lemma_stored(
    registry: RegistryView,
    entries: Seq<EntryView>,
    tokens: Seq<u32>,
    n: int,
)
    requires
        0 <= n <= entries.len() == tokens.len(),
        forall|i: int|
            0 <= i < tokens.len() ==> (#[trigger] tokens[i]) == NO_FORMAT
                || crate::contents::known(registry, tokens[i]),
    ensures
        slots_wf(stored(entries, tokens, n)),
        forall|i: int|
            0 <= i < stored(entries, tokens, n).len() ==> crate::contents::known(
                registry,
                (#[trigger] stored(entries, tokens, n)[i]).format,
            ),
    decreases n,
{
    if n > 0 {
        lemma_stored(registry, entries, tokens, n - 1);
        let before = stored(entries, tokens, n - 1);
        let token = tokens[n - 1];
        if token != NO_FORMAT {
            lemma_put(before, token, entries[n - 1].payload);
            lemma_slot_index(before, token);
        }
    }
}

/// Writing the same entries a second time changes nothing.
pub proof fn lemma_write_idempotent(start: ContentsView, entries: Seq<EntryView>)
    requires
        start.wf(),
    ensures
        written(written(start, entries), entries) == written(start, entries),
{
    if !start.busy {
        lemma_resolved_settled(start.registry, entries);
        let (registry, tokens) = resolved(start.registry, entries);
        lemma_resolved_again(registry, entries);
    }
}

/// The payload of the last entry with `identifier`.
pub open spec fn last_payload(entries: Seq<EntryView>, identifier: Option<Seq<char>>) -> Option<
    PayloadView,
>
    decreases entries.len(),
{
    if entries.len() == 0 {
        None
    } else if entries.last().identifier == identifier {
        Some(entries.last().payload)
    } else {
        last_payload(entries.drop_last(), identifier)
    }
}

/// After the first `n` entries were stored, a format holds the payload of the last
/// of them that has this identifier, provided the identifier has a format.
proof fn lemma_stored_find(
    registry: RegistryView,
    entries: Seq<EntryView>,
    n: int,
    identifier: Option<Seq<char>>,
)
    requires
        registry.wf(),
        settled(registry, entries),
        0 <= n <= entries.len(),
        token_for(registry, identifier) != NO_FORMAT,
    ensures
        slots_wf(stored(entries, tokens_for(registry, entries), n)),
        find(
            stored(entries, tokens_for(registry, entries), n),
            token_for(registry, identifier),
        ) == last_payload(entries.take(n), identifier),
    decreases n,
{
    let tokens = tokens_for(registry, entries);
    let format = token_for(registry, identifier);
    if n == 0 {
        assert(entries.take(0).len() == 0);
    } else {
        lemma_stored_find(registry, entries, n - 1, identifier);
        let before = stored(entries, tokens, n - 1);
        let entry = entries[n - 1];
        assert(entries.take(n).drop_last() == entries.take(n - 1));
        assert(entries.take(n).last() == entry);
        let token = tokens[n - 1];
        assert(token == token_for(registry, entry.identifier));
        lemma_same_token(registry, entry.identifier, identifier);
        if token != NO_FORMAT {
            lemma_put(before, token, entry.payload);
        }
    }
}

/// Two identifiers have the same format in a registry only if they are the same,
/// provided the first is registered or the registry is full, and the second has a
/// format.
proof fn lemma_same_token(
    registry: RegistryView,
    first: Option<Seq<char>>,
    second: Option<Seq<char>>,
)
    requires
        registry.wf(),
        first matches Some(name) ==> registry.position(name).is_some() || registry.names.len()
            >= registry.capacity,
        token_for(registry, second) != NO_FORMAT,
    ensures
        token_for(registry, first) == token_for(registry, second) <==> first == second,
{
    if let Some(a) = first {
        if let Some(at) = registry.position(a) {
            if let Some(b) = second {
                if let Some(other) = registry.position(b) {
                    assert(registry.names[at] == a && registry.names[other] == b);
                }
            }
        }
    } else if let Some(b) = second {
        if let Some(other) = registry.position(b) {
        }
    }
}

/// The bytes that a reader of a payload receives, if there is a payload.
pub open spec fn bytes_of(payload: Option<PayloadView>) -> Option<Seq<u8>> {
    match payload {
        Some(payload) => Some(payload_bytes(payload)),
        None => None,
    }
}

/// The string of a payload, if it is there and is a string.
pub open spec fn text_of(payload: Option<PayloadView>) -> Option<Seq<char>> {
    match payload {
        Some(PayloadView::Text(text)) => Some(text),
        _ => None,
    }
}

/// After entries were written to a clipboard that could be acquired, a text read
/// finds the string of the last text entry, and nothing if there is none.
pub proof fn lemma_text_read_after_write(start: ContentsView, entries: Seq<EntryView>)
    requires
        start.wf(),
        !start.busy,
    ensures
        text_outcome(written(start, entries)).1 == text_of(last_payload(entries, None)),
{
    lemma_resolved_settled(start.registry, entries);
    let (registry, tokens) = resolved(start.registry, entries);
    lemma_stored_find(registry, entries, entries.len() as int, None);
    assert(entries.take(entries.len() as int) == entries);
    lemma_slot_index(written(start, entries).slots, TEXT_FORMAT);
}

/// After entries were written to a clipboard that could be acquired, a typed read
/// for `name` finds the bytes of the last entry with that identifier, provided the
/// identifier has a format; else it finds nothing.
pub proof fn lemma_typed_read_after_write(
    start: ContentsView,
    entries: Seq<EntryView>,
    name: Seq<char>,
)
    requires
        start.wf(),
        !start.busy,
    ensures
        read_outcome(written(start, entries), Some(name)).1 == if written(
            start,
            entries,
        ).registry.token(name) != NO_FORMAT {
            bytes_of(last_payload(entries, Some(name)))
        } else {
            None
        },
{
    lemma_resolved_settled(start.registry, entries);
    let (registry, tokens) = resolved(start.registry, entries);
    if registry.token(name) != NO_FORMAT {
        lemma_stored_find(registry, entries, entries.len() as int, Some(name));
        assert(entries.take(entries.len() as int) == entries);
    }
}

/// The string of the last text format among `formats`.
pub open spec fn last_text(formats: Seq<ClipboardFormat>) -> Option<Seq<char>>
    decreases formats.len(),
{
    if formats.len() == 0 {
        None
    } else {
        match formats.last() {
            ClipboardFormat::Text(text) => Some(text@),
            _ => last_text(formats.drop_last()),
        }
    }
}

/// The payload of the last custom format among `formats` that `platform` stores
/// under `name`.
pub open spec fn last_custom(formats: Seq<ClipboardFormat>, platform: Platform, name: Seq<char>)
    -> Option<PayloadView>
    decreases formats.len(),
{
    if formats.len() == 0 {
        None
    } else {
        match entry_of(formats.last(), platform) {
            Some(entry) => if entry.identifier == Some(name) {
                Some(entry.payload)
            } else {
                last_custom(formats.drop_last(), platform, name)
            },
            None => last_custom(formats.drop_last(), platform, name),
        }
    }
}

/// The plan of a list of formats, from the plan of all but the last.
proof fn lemma_plan_last(formats: Seq<ClipboardFormat>, platform: Platform)
    requires
        formats.len() > 0,
    ensures
        plan(formats, platform) == match entry_of(formats.last(), platform) {
            Some(entry) => plan(formats.drop_last(), platform).push(entry),
            None => plan(formats.drop_last(), platform),
        },
{
    let make = |format: ClipboardFormat| entry_of(format, platform);
    formats.lemma_filter_map_take_succ(make, formats.len() - 1);
    assert(formats.take(formats.len() as int) == formats);
    assert(formats.take(formats.len() - 1) == formats.drop_last());
    assert(formats[formats.len() - 1] == formats.last());
    match entry_of(formats.last(), platform) {
        Some(entry) => {
            assert(plan(formats.drop_last(), platform) + seq![entry] =~= plan(
                formats.drop_last(),
                platform,
            ).push(entry));
        },
        None => {
            assert(plan(formats.drop_last(), platform) + Seq::<EntryView>::empty() =~= plan(
                formats.drop_last(),
                platform,
            ));
        },
    }
}

/// In the plan of an item, the last text entry holds the last text format, and the
/// last entry under a name holds the last custom format stored under it.
proof fn lemma_plan_last_payload(
    formats: Seq<ClipboardFormat>,
    platform: Platform,
    name: Seq<char>,
)
    ensures
        text_of(last_payload(plan(formats, platform), None)) == last_text(formats),
        last_payload(plan(formats, platform), Some(name)) == last_custom(formats, platform, name),
    decreases formats.len(),
{
    if formats.len() == 0 {
        assert(plan(formats, platform).len() == 0) by {
            reveal_with_fuel(Seq::filter_map, 1);
        }
    } else {
        lemma_plan_last(formats, platform);
        lemma_plan_last_payload(formats.drop_last(), platform, name);
        let rest = plan(formats.drop_last(), platform);
        match entry_of(formats.last(), platform) {
            Some(entry) => {
                let all = rest.push(entry);
                assert(all.drop_last() == rest);
                assert(all.last() == entry);
            },
            None => {},
        }
    }
}

/// Round trip of text: after an item was written to a clipboard that could be
/// acquired, a text read yields the string of its last text format, whatever the
/// string holds.
pub proof fn lemma_text_round_trip(
    start: ContentsView,
    formats: Seq<ClipboardFormat>,
    platform: Platform,
)
    requires
        start.wf(),
        !start.busy,
    ensures
        text_outcome(written(start, plan(formats, platform))).1 == last_text(formats),
{
    lemma_text_read_after_write(start, plan(formats, platform));
    lemma_plan_last_payload(formats, platform, Seq::empty());
}

/// Round trip of a custom format: after an item was written to a clipboard that
/// could be acquired, a typed read for `name` yields the bytes of the last custom
/// format stored under that name, provided the name has a format.
pub proof fn lemma_custom_round_trip(
    start: ContentsView,
    formats: Seq<ClipboardFormat>,
    platform: Platform,
    name: Seq<char>,
)
    requires
        start.wf(),
        !start.busy,
    ensures
        read_outcome(written(start, plan(formats, platform)), Some(name)).1 == if written(
            start,
            plan(formats, platform),
        ).registry.token(name) != NO_FORMAT {
            bytes_of(last_custom(formats, platform, name))
        } else {
            None
        },
{
    lemma_typed_read_after_write(start, plan(formats, platform), name);
    lemma_plan_last_payload(formats, platform, name);
}

/// Round trip of a custom format: an item of one custom format, written to a
/// clipboard that could be acquired and that can register its identifier, is read
/// back byte for byte, unless its bytes are stored as a string and are not UTF-8.
pub proof fn lemma_custom_item_round_trip(
    start: ContentsView,
    format: ClipboardFormat,
    platform: Platform,
)
    requires
        start.wf(),
        !start.busy,
        format matches ClipboardFormat::Custom { data, info } && (info.writable(
            platform,
        ) matches Some(opts) && (opts.data_type != DataType::String || valid_utf8(data@))
            && registrable(opts.identifier.name()) && start.registry.token(
            opts.identifier.name(),
        ) != NO_FORMAT),
    ensures
        format matches ClipboardFormat::Custom { data, info } && read_outcome(
            written(start, plan(seq![format], platform)),
            Some(info.writable(platform).unwrap().identifier.name()),
        ).1 == Some(data@),
{
    let formats = seq![format];
    let entry = entry_of(format, platform).unwrap();
    let name = entry.identifier.unwrap();
    if let ClipboardFormat::Custom { data, info } = format {
        if valid_utf8(data@) {
            decode_utf8_encode_utf8(data@);
        }
    }
    lemma_custom_round_trip(start, formats, platform, name);
    lemma_plan_last(formats, platform);
    assert(formats.drop_last().len() == 0);
    assert(plan(formats.drop_last(), platform).len() == 0) by {
        reveal_with_fuel(Seq::filter_map, 1);
    }
    let entries = plan(formats, platform);
    assert(entries == seq![entry]);
    assert(last_custom(formats, platform, name) == Some(entry.payload)) by {
        assert(formats.last() == format);
    }
    assert(entries.drop_last().len() == 0);
    assert(entries.last() == entry);
    assert(resolved(start.registry, entries).0 == start.registry.register(name)) by {
        reveal_with_fuel(resolved, 2);
    }
    lemma_register(start.registry, name);
}

/// A format that the platform does not support has no entry.
pub proof fn lemma_unsupported_has_no_entry(format: ClipboardFormat, platform: Platform)
    requires
        !format.supported(platform),
    ensures
        entry_of(format, platform).is_none(),
{
}

/// Only the supported formats of an item are ever planned: the others change
/// nothing in what is sent.
pub proof fn lemma_plan_of_supported(formats: Seq<ClipboardFormat>, platform: Platform)
    ensures
        plan(formats, platform) == plan(supported_formats(formats, platform), platform),
    decreases formats.len(),
{
    reveal(Seq::filter);
    if formats.len() == 0 {
        assert(supported_formats(formats, platform) == formats);
    } else {
        let rest = formats.drop_last();
        lemma_plan_of_supported(rest, platform);
        lemma_plan_last(formats, platform);
        if formats.last().supported(platform) {
            let kept = supported_formats(rest, platform).push(formats.last());
            assert(supported_formats(formats, platform) == kept);
            lemma_plan_last(kept, platform);
            assert(kept.drop_last() == supported_formats(rest, platform));
            assert(kept.last() == formats.last());
        }
    }
}

/// A read without an identifier asks nothing of the clipboard and finds nothing.
pub proof fn lemma_read_without_options(
    op: ReadOpView,
    reply: NativeReplyView,
    start: ContentsView,
)
    requires
        op.identifier.is_none(),
        op.phase == ReadPhase::Start,
    ensures
        op.step(reply).1.is_none(),
        op.step(reply).0.phase == ReadPhase::Finished,
        read_outcome(start, None) == (start, None::<Seq<u8>>),
{
}

/// Passing over text entries never goes past the last entry.
proof fn lemma_skip_text_bounds(entries: Seq<EntryView>, tokens: Seq<u32>)
    requires
        tokens.len() <= entries.len(),
    ensures
        tokens.len() <= skip_text(entries, tokens).len() <= entries.len(),
        skip_text(entries, tokens).len() < entries.len() ==> entries[skip_text(
            entries,
            tokens,
        ).len() as int].identifier.is_some(),
    decreases entries.len() - tokens.len(),
{
    if tokens.len() < entries.len() && entries[tokens.len() as int].identifier.is_none() {
        lemma_skip_text_bounds(entries, tokens.push(TEXT_FORMAT));
    }
}

/// The next entry with a format lies between `from` and the end.
proof fn lemma_next_resolved_bounds(tokens: Seq<u32>, from: int)
    requires
        0 <= from <= tokens.len(),
    ensures
        from <= next_resolved(tokens, from) <= tokens.len(),
    decreases tokens.len() - from,
{
    if from < tokens.len() && tokens[from] == NO_FORMAT {
        lemma_next_resolved_bounds(tokens, from + 1);
    }
}

/// Whatever the clipboard answers, a write comes nearer to its end with every step,
/// ends exactly when it asks nothing more, and gives up access only by releasing
/// it.
pub proof fn lemma_write_progress(op: WriteOpView, reply: NativeReplyView)
    requires
        op.wf(),
    ensures
        op.step(reply).0.wf(),
        op.step(reply).0.entries == op.entries,
        op.phase != WritePhase::Finished ==> op.step(reply).0.remaining() < op.remaining(),
        op.step(reply).1.is_none() <==> op.step(reply).0.phase == WritePhase::Finished,
        op.holds_access() ==> op.step(reply).0.holds_access() || op.step(reply).1 == Some(
            NativeCallView::Close,
        ),
        op.step(reply).0.remaining() >= 0,
{
    match op.phase {
        WritePhase::Clearing => {
            lemma_skip_text_bounds(op.entries, Seq::empty());
        },
        WritePhase::Resolving => {
            let token = match reply {
                NativeReplyView::Registered(token) => token,
                _ => NO_FORMAT,
            };
            lemma_skip_text_bounds(op.entries, op.tokens.push(token));
        },
        WritePhase::Declaring => {
            lemma_next_resolved_bounds(op.tokens, 0);
        },
        WritePhase::Storing => {
            lemma_next_resolved_bounds(op.tokens, op.cursor + 1);
        },
        _ => {},
    }
}

/// Whatever the clipboard answers, a typed read comes nearer to its end with every
/// step, ends exactly when it asks nothing more, and gives up access only by
/// releasing it.
pub proof fn lemma_read_progress(op: ReadOpView, reply: NativeReplyView)
    requires
        op.wf(),
    ensures
        op.step(reply).0.wf(),
        op.step(reply).0.identifier == op.identifier,
        op.phase != ReadPhase::Finished ==> op.step(reply).0.remaining() < op.remaining(),
        op.step(reply).1.is_none() <==> op.step(reply).0.phase == ReadPhase::Finished,
        op.holds_access() ==> op.step(reply).0.holds_access() || op.step(reply).1 == Some(
            NativeCallView::Close,
        ),
        op.step(reply).0.remaining() >= 0,
{
}

/// Whatever the clipboard answers, a text read comes nearer to its end with every
/// step, ends exactly when it asks nothing more, and gives up access only by
/// releasing it.
pub proof fn lemma_text_progress(op: TextOpView, reply: NativeReplyView)
    requires
        op.wf(),
    ensures
        op.step(reply).0.wf(),
        op.phase != TextPhase::Finished ==> op.step(reply).0.remaining() < op.remaining(),
        op.step(reply).1.is_none() <==> op.step(reply).0.phase == TextPhase::Finished,
        op.holds_access() ==> op.step(reply).0.holds_access() || op.step(reply).1 == Some(
            NativeCallView::Close,
        ),
        op.step(reply).0.remaining() >= 0,
{
}

} // verus!
