//! The registry of format identifiers: each registered name has one token, for as
//! long as the registry lives.

use vstd::prelude::*;
use crate::native::NO_FORMAT;

verus! {

/// The token of the first registered name.
pub const FIRST_REGISTERED: u32 = 0xC000;

/// The most names that any registry holds.
pub const MAX_REGISTERED: usize = 0x4000;

/// The names registered so far, and how many the registry may hold.
pub struct RegistryView {
    pub names: Seq<Seq<char>>,
    pub capacity: nat,
}

impl RegistryView {
    /// No name occurs twice, and the capacity is respected.
    pub open spec fn wf(self) -> bool {
        &&& self.names.len() <= self.capacity <= MAX_REGISTERED
        &&& forall|i: int, j: int|
            0 <= i < j < self.names.len() ==> self.names[i] != self.names[j]
    }

    /// Where `name` stands among the registered names.
    pub open spec fn position(self, name: Seq<char>) -> Option<int> {
        if exists|i: int| 0 <= i < self.names.len() && self.names[i] == name {
            Some(choose|i: int| 0 <= i < self.names.len() && self.names[i] == name)
        } else {
            None
        }
    }

    /// The token that registering `name` gives: that of its place if it is known or
    /// there is room for it, else `NO_FORMAT`.
    pub open spec fn token(self, name: Seq<char>) -> u32 {
        match self.position(name) {
            Some(i) => (FIRST_REGISTERED + i) as u32,
            None => if self.names.len() < self.capacity {
                (FIRST_REGISTERED + self.names.len()) as u32
            } else {
                NO_FORMAT
            },
        }
    }

    /// The registry after `name` was registered.
    pub open spec fn register(self, name: Seq<char>) -> RegistryView {
        if self.position(name).is_none() && self.names.len() < self.capacity {
            RegistryView { names: self.names.push(name), capacity: self.capacity }
        } else {
            self
        }
    }

    /// The name that `token` stands for.
    pub open spec fn name_of(self, token: u32) -> Option<Seq<char>> {
        if FIRST_REGISTERED <= token < FIRST_REGISTERED + self.names.len() {
            Some(self.names[token - FIRST_REGISTERED])
        } else {
            None
        }
    }
}

/// A registry of format identifiers.
#[derive(Clone, Debug)]
pub struct Registry {
    names: Vec<String>,
    capacity: usize,
}

impl View for Registry {
    type V = RegistryView;

    closed spec fn view(&self) -> RegistryView {
        RegistryView {
            names: Seq::new(self.names@.len(), |i: int| self.names@[i]@),
            capacity: self.capacity as nat,
        }
    }
}

impl Registry {
    /// An empty registry with room for `capacity` names, at most `MAX_REGISTERED`.
    pub fn new(capacity: usize) -> (registry: Self)
        ensures
            registry@.wf(),
            registry@.names.len() == 0,
            registry@.capacity == if capacity <= MAX_REGISTERED {
                capacity
            } else {
                MAX_REGISTERED
            },
    {
        let capacity = if capacity <= MAX_REGISTERED {
            capacity
        } else {
            MAX_REGISTERED
        };
        Registry { names: Vec::new(), capacity }
    }

    /// Registers `name` and returns its token; a name that is already known keeps
    /// the token it has. Returns `NO_FORMAT` where the registry is full.
    pub fn register(&mut self, name: &str) -> (token: u32)
        requires
            old(self)@.wf(),
        ensures
            final(self)@.wf(),
            final(self)@ == old(self)@.register(name@),
            token == old(self)@.token(name@),
    {
        let owned = name.to_owned();
        let mut i: usize = 0;
        while i < self.names.len()
            invariant
                i <= self.names.len(),
                *self == *old(self),
                self@.wf(),
                owned@ == name@,
                forall|k: int| 0 <= k < i ==> self@.names[k] != name@,
            decreases self.names.len() - i,
        {
            if self.names[i] == owned {
                proof {
                    let at = self@.position(name@).unwrap();
                    assert(self@.names[i as int] == name@);
                    assert(at == i);
                }
                return FIRST_REGISTERED + i as u32;
            }
            i += 1;
        }
        assert(self@.position(name@).is_none());
        if self.names.len() < self.capacity {
            let token = FIRST_REGISTERED + self.names.len() as u32;
            self.names.push(owned);
            assert(self@.names == old(self)@.names.push(name@));
            token
        } else {
            NO_FORMAT
        }
    }

    /// The name that `token` was given for, if any.
    pub fn name_of(&self, token: u32) -> (name: Option<&String>)
        requires
            self@.wf(),
        ensures
            name.is_some() == self@.name_of(token).is_some(),
            name matches Some(text) ==> text@ == self@.name_of(token).unwrap(),
    {
        if token >= FIRST_REGISTERED && ((token - FIRST_REGISTERED) as usize) < self.names.len() {
            Some(&self.names[(token - FIRST_REGISTERED) as usize])
        } else {
            None
        }
    }
}

/// `later` holds every name of `earlier` in its place, and has the same capacity.
pub open spec fn extends(earlier: RegistryView, later: RegistryView) -> bool {
    &&& later.capacity == earlier.capacity
    &&& earlier.names.len() <= later.names.len()
    &&& forall|i: int| 0 <= i < earlier.names.len() ==> later.names[i] == earlier.names[i]
}

/// A registered name stands where it stands, and nowhere else.
pub(crate) proof fn lemma_position(registry: RegistryView, at: int)
    requires
        registry.wf(),
        0 <= at < registry.names.len(),
    ensures
        registry.position(registry.names[at]) == Some(at),
{
}

/// A name keeps its token in every registry that extends the one it is in; a full
/// registry is extended only by itself.
pub proof fn lemma_extends(earlier: RegistryView, later: RegistryView, name: Seq<char>)
    requires
        earlier.wf(),
        later.wf(),
        extends(earlier, later),
    ensures
        earlier.position(name).is_some() ==> later.position(name) == earlier.position(name)
            && later.token(name) == earlier.token(name),
        earlier.names.len() >= earlier.capacity ==> later == earlier,
{
    if let Some(at) = earlier.position(name) {
        assert(later.names[at] == name);
        lemma_position(later, at);
    }
    if earlier.names.len() >= earlier.capacity {
        assert(later.names =~= earlier.names);
    }
}

/// Registering extends a registry, and the name then has the token it was given,
/// unless the registry was full.
pub proof fn lemma_register(registry: RegistryView, name: Seq<char>)
    requires
        registry.wf(),
    ensures
        registry.register(name).wf(),
        extends(registry, registry.register(name)),
        registry.register(name).token(name) == registry.token(name),
        registry.token(name) != NO_FORMAT ==> registry.register(name).position(name).is_some(),
        registry.token(name) == NO_FORMAT ==> registry.position(name).is_none()
            && registry.names.len() >= registry.capacity,
{
    let after = registry.register(name);
    if registry.position(name).is_none() && registry.names.len() < registry.capacity {
        let at = registry.names.len() as int;
        assert(after.names[at] == name);
        lemma_position(after, at);
    }
}

} // verus!
