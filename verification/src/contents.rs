//! A clipboard held in memory: what a native clipboard holds and how it answers each
//! call, as plain values.

use vstd::prelude::*;
use vstd::set_lib::{lemma_int_range, lemma_len_subset, set_int_range};
use vstd::string::StrSliceExecFns;
use vstd::utf8::encode_utf8;
use crate::native::{
    NativeCall, NativeCallView, NativeReply, NativeReplyView, Payload, PayloadView, NO_FORMAT,
    TEXT_FORMAT,
};
use crate::platform::Platform;
use crate::registry::{Registry, RegistryView, FIRST_REGISTERED, MAX_REGISTERED};
use crate::writer::copy_bytes;

verus! {

/// The error code of an enumeration that is made without access.
pub const ERROR_CLIPBOARD_NOT_OPEN: u32 = 1418;

/// A payload stored under a format.
#[derive(Clone, Debug, PartialEq, Eq)]
pub struct Slot {
    pub format: u32,
    pub payload: Payload,
}

/// What a `Slot` holds, as mathematical values.
pub struct SlotView {
    pub format: u32,
    pub payload: PayloadView,
}

impl View for Slot {
    type V = SlotView;

    open spec fn view(&self) -> SlotView {
        SlotView { format: self.format, payload: self.payload@ }
    }
}

/// The views of a list of slots.
pub open spec fn slot_views(slots: Seq<Slot>) -> Seq<SlotView> {
    Seq::new(slots.len(), |i: int| slots[i]@)
}

/// The bytes that a reader of a payload receives.
pub open spec fn payload_bytes(payload: PayloadView) -> Seq<u8> {
    match payload {
        PayloadView::Text(text) => encode_utf8(text),
        PayloadView::Data(bytes) => bytes,
        PayloadView::PropertyList(bytes) => bytes,
    }
}

/// Where `format` stands among `slots`, or the length if it is absent.
pub open spec fn slot_index(slots: Seq<SlotView>, format: u32) -> int
    decreases slots.len(),
{
    if slots.len() == 0 {
        0
    } else if slots[0].format == format {
        0
    } else {
        1 + slot_index(slots.drop_first(), format)
    }
}

/// The payload stored under `format`.
pub open spec fn find(slots: Seq<SlotView>, format: u32) -> Option<PayloadView> {
    let at = slot_index(slots, format);
    if at < slots.len() {
        Some(slots[at].payload)
    } else {
        None
    }
}

/// `slots` with `payload` under `format`, in the place of what was there, or at the
/// end.
pub open spec fn put(slots: Seq<SlotView>, format: u32, payload: PayloadView) -> Seq<SlotView> {
    let at = slot_index(slots, format);
    if at < slots.len() {
        slots.update(at, SlotView { format, payload })
    } else {
        slots.push(SlotView { format, payload })
    }
}

/// The format that follows `after` among `slots`: the first for `NO_FORMAT`, and
/// `NO_FORMAT` at the end or where `after` is absent.
pub open spec fn format_after(slots: Seq<SlotView>, after: u32) -> u32 {
    let at = if after == NO_FORMAT {
        0
    } else {
        slot_index(slots, after) + 1
    };
    if at < slots.len() {
        slots[at].format
    } else {
        NO_FORMAT
    }
}

/// Every slot has a format, and no two have the same.
pub open spec fn slots_wf(slots: Seq<SlotView>) -> bool {
    &&& forall|i: int| 0 <= i < slots.len() ==> (#[trigger] slots[i]).format != NO_FORMAT
    &&& forall|i: int, j: int|
        0 <= i < j < slots.len() ==> (#[trigger] slots[i]).format != (#[trigger] slots[j]).format
}

/// The formats that a clipboard with this registry stores: the text format, and
/// the token of each registered identifier.
pub open spec fn known(registry: RegistryView, format: u32) -> bool {
    format == TEXT_FORMAT || registry.name_of(format).is_some()
}

/// The state of a clipboard.
#[verifier::ext_equal]
pub struct ContentsView {
    /// The platform that the clipboard belongs to.
    pub platform: Platform,
    /// Another process holds the clipboard: access cannot be acquired.
    pub busy: bool,
    /// Access is held.
    pub open: bool,
    pub registry: RegistryView,
    /// The formats announced since the contents were last removed.
    pub declared: Seq<u32>,
    pub slots: Seq<SlotView>,
}

impl ContentsView {
    /// The registry is well formed, no format has two slots, and every slot is
    /// under a known format.
    pub open spec fn wf(self) -> bool {
        &&& self.registry.wf()
        &&& slots_wf(self.slots)
        &&& forall|i: int|
            0 <= i < self.slots.len() ==> known(self.registry, (#[trigger] self.slots[i]).format)
    }

    /// The state after `call`, and the reply to it.
    pub open spec fn answer(self, call: NativeCallView) -> (ContentsView, NativeReplyView) {
        match call {
            NativeCallView::Open => if self.busy {
                (self, NativeReplyView::Opened(false))
            } else {
                (ContentsView { open: true, ..self }, NativeReplyView::Opened(true))
            },
            NativeCallView::Close => (ContentsView { open: false, ..self }, NativeReplyView::Done),
            NativeCallView::Clear => if self.open {
                (
                    ContentsView { declared: Seq::empty(), slots: Seq::empty(), ..self },
                    NativeReplyView::Done,
                )
            } else {
                (self, NativeReplyView::Done)
            },
            NativeCallView::Declare { formats } => if self.open {
                (ContentsView { declared: formats, ..self }, NativeReplyView::Done)
            } else {
                (self, NativeReplyView::Done)
            },
            NativeCallView::Register { identifier } => (
                ContentsView { registry: self.registry.register(identifier), ..self },
                NativeReplyView::Registered(self.registry.token(identifier)),
            ),
            NativeCallView::Write { format, payload } => if self.open && known(
                self.registry,
                format,
            ) && self.declared.contains(format) {
                (
                    ContentsView { slots: put(self.slots, format, payload), ..self },
                    NativeReplyView::Written(true),
                )
            } else {
                (self, NativeReplyView::Written(false))
            },
            NativeCallView::IsAvailable { format } => (
                self,
                NativeReplyView::Available(find(self.slots, format).is_some()),
            ),
            NativeCallView::Read { format } => (
                self,
                NativeReplyView::Data(
                    if self.open {
                        match find(self.slots, format) {
                            Some(payload) => Some(payload_bytes(payload)),
                            None => None,
                        }
                    } else {
                        None
                    },
                ),
            ),
            NativeCallView::ReadText => (
                self,
                NativeReplyView::Text(
                    if self.open {
                        match find(self.slots, TEXT_FORMAT) {
                            Some(PayloadView::Text(text)) => Some(text),
                            _ => None,
                        }
                    } else {
                        None
                    },
                ),
            ),
            NativeCallView::Next { after } => if self.open {
                (self, NativeReplyView::Next { format: format_after(self.slots, after), error: 0 })
            } else {
                (
                    self,
                    NativeReplyView::Next { format: NO_FORMAT, error: ERROR_CLIPBOARD_NOT_OPEN },
                )
            },
        }
    }
}

/// `slot_index` is the first place that holds `format`.
pub(crate) proof fn lemma_slot_index(slots: Seq<SlotView>, format: u32)
    ensures
        0 <= slot_index(slots, format) <= slots.len(),
        slot_index(slots, format) < slots.len() ==> slots[slot_index(slots, format)].format
            == format,
        forall|k: int| 0 <= k < slot_index(slots, format) ==> slots[k].format != format,
    decreases slots.len(),
{
    if slots.len() > 0 && slots[0].format != format {
        let rest = slots.drop_first();
        lemma_slot_index(rest, format);
        assert forall|k: int| 0 <= k < slot_index(slots, format) implies slots[k].format
            != format by {
            if k > 0 {
                assert(slots[k] == rest[k - 1]);
            }
        }
    }
}

/// Among well-formed slots each format is found where it stands.
pub(crate) proof fn lemma_slot_index_at(slots: Seq<SlotView>, at: int)
    requires
        slots_wf(slots),
        0 <= at < slots.len(),
    ensures
        slot_index(slots, slots[at].format) == at,
{
    lemma_slot_index(slots, slots[at].format);
}

/// Storing under a format keeps the slots well formed, is seen by a reader of that
/// format, and by no reader of another.
pub proof fn lemma_put(slots: Seq<SlotView>, format: u32, payload: PayloadView)
    requires
        slots_wf(slots),
        format != NO_FORMAT,
    ensures
        slots_wf(put(slots, format, payload)),
        find(put(slots, format, payload), format) == Some(payload),
        forall|other: u32|
            other != format ==> #[trigger] find(put(slots, format, payload), other) == find(
                slots,
                other,
            ),
        slot_index(put(slots, format, payload), format) == slot_index(slots, format),
        put(slots, format, payload).len() == if slot_index(slots, format) < slots.len() {
            slots.len()
        } else {
            slots.len() + 1
        },
{
    let after = put(slots, format, payload);
    let at = slot_index(slots, format);
    lemma_slot_index(slots, format);
    lemma_slot_index(after, format);
    assert(after[at].format == format);
    assert(slot_index(after, format) == at) by {
        if slot_index(after, format) < at {
            assert(slots[slot_index(after, format)].format != format);
        }
    }
    assert forall|other: u32| other != format implies #[trigger] find(after, other) == find(
        slots,
        other,
    ) by {
        lemma_slot_index(slots, other);
        lemma_slot_index(after, other);
        let a = slot_index(slots, other);
        let b = slot_index(after, other);
        if a < slots.len() {
            assert(after[a].format == other);
        }
        if b < after.len() {
            assert(b < slots.len());
            assert(slots[b].format == other);
        }
        assert(a == b || (a == slots.len() && b == after.len()));
    }
}

/// A clipboard holds at most one slot for text and one for each registered
/// identifier.
pub proof fn lemma_slots_bound(contents: ContentsView)
    requires
        contents.wf(),
    ensures
        contents.slots.len() <= contents.registry.names.len() + 1,
        contents.slots.len() <= MAX_REGISTERED + 1,
{
    let slots = contents.slots;
    let bound = contents.registry.names.len() + 1;
    let keys = Seq::new(
        slots.len(),
        |i: int|
            if slots[i].format == TEXT_FORMAT {
                0int
            } else {
                slots[i].format - FIRST_REGISTERED + 1
            },
    );
    assert forall|i: int, j: int| 0 <= i < keys.len() && 0 <= j < keys.len() && i != j implies keys[i]
        != keys[j] by {
        assert(known(contents.registry, slots[i].format));
        assert(known(contents.registry, slots[j].format));
        if i < j {
            assert(slots[i].format != slots[j].format);
        } else {
            assert(slots[j].format != slots[i].format);
        }
    }
    keys.unique_seq_to_set();
    lemma_int_range(0, bound as int);
    assert forall|key: int| keys.to_set().contains(key) implies set_int_range(
        0,
        bound as int,
    ).contains(key) by {
        let i = choose|i: int| 0 <= i < keys.len() && keys[i] == key;
        assert(known(contents.registry, slots[i].format));
    }
    lemma_len_subset(keys.to_set(), set_int_range(0, bound as int));
}

/// A clipboard held in memory.
#[derive(Clone, Debug)]
pub struct ClipboardContents {
    platform: Platform,
    busy: bool,
    open: bool,
    registry: Registry,
    declared: Vec<u32>,
    slots: Vec<Slot>,
}

impl View for ClipboardContents {
    type V = ContentsView;

    closed spec fn view(&self) -> ContentsView {
        ContentsView {
            platform: self.platform,
            busy: self.busy,
            open: self.open,
            registry: self.registry@,
            declared: self.declared@,
            slots: slot_views(self.slots@),
        }
    }
}

impl Default for ClipboardContents {
    /// An empty clipboard that nobody holds, on a platform that exchanges only text.
    fn default() -> (contents: Self)
        ensures
            contents@.wf(),
            contents@.platform == Platform::Other,
            !contents@.busy,
            !contents@.open,
            contents@.registry.names.len() == 0,
            contents@.registry.capacity == MAX_REGISTERED,
            contents@.declared.len() == 0,
            contents@.slots.len() == 0,
    {
        ClipboardContents::new(Platform::Other)
    }
}

fn holds(formats: &Vec<u32>, format: u32) -> (found: bool)
    ensures
        found == formats@.contains(format),
{
    let mut i: usize = 0;
    while i < formats.len()
        invariant
            i <= formats.len(),
            forall|k: int| 0 <= k < i ==> formats@[k] != format,
        decreases formats.len() - i,
    {
        if formats[i] == format {
            return true;
        }
        i += 1;
    }
    false
}

impl ClipboardContents {
    /// An empty clipboard of `platform` that nobody holds, with room for every
    /// identifier.
    pub fn new(platform: Platform) -> (contents: Self)
        ensures
            contents@.wf(),
            contents@.platform == platform,
            !contents@.busy,
            !contents@.open,
            contents@.registry.names.len() == 0,
            contents@.registry.capacity == MAX_REGISTERED,
            contents@.declared.len() == 0,
            contents@.slots.len() == 0,
    {
        ClipboardContents {
            platform,
            busy: false,
            open: false,
            registry: Registry::new(MAX_REGISTERED),
            declared: Vec::new(),
            slots: Vec::new(),
        }
    }

    /// An empty clipboard of `platform` with room for `capacity` identifiers only.
    pub fn with_capacity(platform: Platform, capacity: usize) -> (contents: Self)
        ensures
            contents@.wf(),
            contents@.platform == platform,
            !contents@.busy,
            !contents@.open,
            contents@.registry.names.len() == 0,
            contents@.registry.capacity == if capacity <= MAX_REGISTERED {
                capacity
            } else {
                MAX_REGISTERED
            },
            contents@.declared.len() == 0,
            contents@.slots.len() == 0,
    {
        ClipboardContents {
            platform,
            busy: false,
            open: false,
            registry: Registry::new(capacity),
            declared: Vec::new(),
            slots: Vec::new(),
        }
    }

    /// Lets another process take or give back the clipboard. While it is taken,
    /// access cannot be acquired.
    pub fn set_busy(&mut self, busy: bool)
        requires
            old(self)@.wf(),
        ensures
            final(self)@.wf(),
            final(self)@ == (ContentsView { busy, ..old(self)@ }),
    {
        self.busy = busy;
    }

    /// The platform that the clipboard belongs to.
    pub fn platform(&self) -> (platform: Platform)
        ensures
            platform == self@.platform,
    {
        self.platform
    }

    fn position(slots: &Vec<Slot>, format: u32) -> (at: usize)
        ensures
            at == slot_index(slot_views(slots@), format),
    {
        let mut i: usize = 0;
        while i < slots.len()
            invariant
                i <= slots.len(),
                forall|k: int| 0 <= k < i ==> slot_views(slots@)[k].format != format,
            decreases slots.len() - i,
        {
            if slots[i].format == format {
                proof {
                    lemma_slot_index(slot_views(slots@), format);
                    assert(slot_views(slots@)[i as int].format == format);
                }
                return i;
            }
            i += 1;
        }
        proof {
            lemma_slot_index(slot_views(slots@), format);
        }
        i
    }

    /// Carries out `call` and answers it.
    pub fn perform(&mut self, call: NativeCall) -> (reply: NativeReply)
        requires
            old(self)@.wf(),
        ensures
            final(self)@.wf(),
            final(self)@ == old(self)@.answer(call@).0,
            reply@ == old(self)@.answer(call@).1,
    {
        match call {
            NativeCall::Open => {
                if self.busy {
                    NativeReply::Opened(false)
                } else {
                    self.open = true;
                    NativeReply::Opened(true)
                }
            },
            NativeCall::Close => {
                self.open = false;
                NativeReply::Done
            },
            NativeCall::Clear => {
                if self.open {
                    self.declared = Vec::new();
                    self.slots = Vec::new();
                }
                NativeReply::Done
            },
            NativeCall::Declare { formats } => {
                if self.open {
                    self.declared = formats;
                }
                NativeReply::Done
            },
            NativeCall::Register { identifier } => {
                let token = self.registry.register(identifier.as_str());
                NativeReply::Registered(token)
            },
            NativeCall::Write { format, payload } => {
                let known = format == TEXT_FORMAT || self.registry.name_of(format).is_some();
                if self.open && known && holds(&self.declared, format) {
                    let at = Self::position(&self.slots, format);
                    let ghost before = slot_views(self.slots@);
                    proof {
                        lemma_put(before, format, payload@);
                    }
                    if at < self.slots.len() {
                        self.slots.set(at, Slot { format, payload });
                        assert(slot_views(self.slots@) == before.update(
                            at as int,
                            SlotView { format, payload: payload@ },
                        ));
                    } else {
                        self.slots.push(Slot { format, payload });
                        assert(slot_views(self.slots@) == before.push(
                            SlotView { format, payload: payload@ },
                        ));
                    }
                    NativeReply::Written(true)
                } else {
                    NativeReply::Written(false)
                }
            },
            NativeCall::IsAvailable { format } => {
                let at = Self::position(&self.slots, format);
                NativeReply::Available(at < self.slots.len())
            },
            NativeCall::Read { format } => {
                let at = Self::position(&self.slots, format);
                if self.open && at < self.slots.len() {
                    NativeReply::Data(
                        Some(
                            match &self.slots[at].payload {
                                Payload::Text(text) => text.as_str().as_bytes_vec(),
                                Payload::Data(bytes) => copy_bytes(bytes),
                                Payload::PropertyList(bytes) => copy_bytes(bytes),
                            },
                        ),
                    )
                } else {
                    NativeReply::Data(None)
                }
            },
            NativeCall::ReadText => {
                let at = Self::position(&self.slots, TEXT_FORMAT);
                if self.open && at < self.slots.len() {
                    match &self.slots[at].payload {
                        Payload::Text(text) => NativeReply::Text(Some(text.clone())),
                        _ => NativeReply::Text(None),
                    }
                } else {
                    NativeReply::Text(None)
                }
            },
            NativeCall::Next { after } => {
                if self.open {
                    let at = if after == NO_FORMAT {
                        0
                    } else {
                        let found = Self::position(&self.slots, after);
                        if found < self.slots.len() {
                            found + 1
                        } else {
                            found
                        }
                    };
                    let format = if at < self.slots.len() {
                        self.slots[at].format
                    } else {
                        NO_FORMAT
                    };
                    NativeReply::Next { format, error: 0 }
                } else {
                    NativeReply::Next { format: NO_FORMAT, error: ERROR_CLIPBOARD_NOT_OPEN }
                }
            },
        }
    }
}

} // verus!
