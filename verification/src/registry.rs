//! The handle registry: where containers live between the call that creates
//! them and the call that destroys them.
//!
//! A registry owns every container it has created. The host names a container
//! by the handle that the creating call returned, and each operation borrows
//! the container for the length of one call. A handle is never issued twice,
//! so a destroyed handle stays dead for good.
use vstd::prelude::*;
use crate::collections::hash_map;
use crate::collections::hash_map::ValueMap;
use crate::collections::slice::{resolved_end, resolved_start, SliceView, Window};
use crate::collections::vector;
use crate::collections::vector::{element_at, ValueVec};
use crate::handle::{Handle, HandleState, Kind};
use crate::value::{view_of, DynamicValue, Value};

verus! {

/// A container of one of the three kinds.
pub enum Container {
    HashMap(ValueMap),
    Vector(ValueVec),
    Slice(SliceView),
}

/// What a container holds, as a mathematical value.
pub enum Contents {
    HashMap(Map<Value, Value>),
    Vector(Seq<Value>),
    Slice(Window),
}

/// What a registry holds, as a mathematical value: the contents of each live
/// container by its handle, and the handles that were destroyed.
pub struct RegistryView {
    pub live: Map<Handle, Contents>,
    pub dead: Set<Handle>,
}

/// The owner of every container that the host can name.
pub struct Registry {
    slots: Vec<Option<Container>>,
}

impl View for Container {
    type V = Contents;

    open spec fn view(&self) -> Contents {
        match self {
            Container::HashMap(map) => Contents::HashMap(map@),
            Container::Vector(vector) => Contents::Vector(vector@),
            Container::Slice(slice) => Contents::Slice(slice@),
        }
    }
}

impl Container {
    /// The container is consistent in itself.
    pub open spec fn wf(&self) -> bool {
        match self {
            Container::HashMap(map) => map.wf(),
            Container::Vector(_) => true,
            Container::Slice(slice) => slice.wf(),
        }
    }
}

impl Contents {
    /// The kind of container that holds these contents.
    pub open spec fn kind(self) -> Kind {
        match self {
            Contents::HashMap(_) => Kind::HashMap,
            Contents::Vector(_) => Kind::Vector,
            Contents::Slice(_) => Kind::Slice,
        }
    }
}

/// The slot of a window's source allows the window: the source was destroyed,
/// or it is a vector that reaches at least to the window's end.
spec fn admits(slot: Option<Container>, window: Window) -> bool {
    match slot {
        None => true,
        Some(Container::Vector(vector)) => window.end <= vector@.len(),
        Some(_) => false,
    }
}

/// What an operation on a borrowed container may leave in its place: a
/// container of the same kind that is consistent in itself. A vector may not
/// have shrunk, since slices may look at it, and a slice must look where it
/// looked before.
pub open spec fn continues(before: Container, after: Container) -> bool {
    match (before, after) {
        (Container::HashMap(_), Container::HashMap(map)) => map.wf(),
        (Container::Vector(shorter), Container::Vector(longer)) => shorter@.len() <= longer@.len(),
        (Container::Slice(old_slice), Container::Slice(new_slice)) => new_slice.wf() && new_slice@
            == old_slice@,
        _ => false,
    }
}

impl View for Registry {
    type V = RegistryView;

    closed spec fn view(&self) -> RegistryView {
        RegistryView {
            live: Map::new(
                |h: Handle| h.address() < self.slots@.len() && self.slots@[h.address() as int] is Some,
                |h: Handle| self.slots@[h.address() as int]->0@,
            ),
            dead: Set::new(
                |h: Handle| h.address() < self.slots@.len() && self.slots@[h.address() as int] is None,
            ),
        }
    }
}

impl Registry {
    /// The registry's representation is consistent: every live container is
    /// consistent in itself, and every live window points at a handle that
    /// was issued and lies inside its source for as long as the source lives.
    pub closed spec fn wf(&self) -> bool {
        forall|i: int|
            0 <= i < self.slots@.len() ==> match #[trigger] self.slots@[i] {
                None => true,
                Some(container) => {
                    &&& container.wf()
                    &&& container matches Container::Slice(slice) ==> {
                        &&& slice@.source.address() < self.slots@.len()
                        &&& admits(self.slots@[slice@.source.address() as int], slice@)
                    }
                },
            }
    }

    /// Where `handle` stands in its life.
    pub open spec fn state_of(&self, handle: Handle) -> HandleState {
        if self@.live.contains_key(handle) {
            HandleState::Live
        } else if self@.dead.contains(handle) {
            HandleState::Dead
        } else {
            HandleState::Uninitialized
        }
    }

    /// `handle` names a live hash map.
    pub open spec fn is_map(&self, handle: Handle) -> bool {
        self@.live.contains_key(handle) && self@.live[handle] is HashMap
    }

    /// `handle` names a live vector.
    pub open spec fn is_vector(&self, handle: Handle) -> bool {
        self@.live.contains_key(handle) && self@.live[handle] is Vector
    }

    /// `handle` names a live slice.
    pub open spec fn is_slice(&self, handle: Handle) -> bool {
        self@.live.contains_key(handle) && self@.live[handle] is Slice
    }

    /// The mapping held by the hash map that `handle` names.
    pub open spec fn map_at(&self, handle: Handle) -> Map<Value, Value> {
        self@.live[handle]->HashMap_0
    }

    /// The sequence held by the vector that `handle` names.
    pub open spec fn vector_at(&self, handle: Handle) -> Seq<Value> {
        self@.live[handle]->Vector_0
    }

    /// The window recorded by the slice that `handle` names.
    pub open spec fn window_at(&self, handle: Handle) -> Window {
        self@.live[handle]->Slice_0
    }

    /// No handle is live and dead at once.
    pub proof fn lemma_live_or_dead(&self, handle: Handle)
        ensures
            !(self@.live.contains_key(handle) && self@.dead.contains(handle)),
    {
    }

    /// Creates a registry in which every handle is uninitialized.
    pub fn new() -> (registry: Registry)
        ensures
            registry.wf(),
            registry@.live == Map::<Handle, Contents>::empty(),
            registry@.dead == Set::<Handle>::empty(),
    {
        let registry = Registry { slots: Vec::new() };
        assert(registry@.live =~= Map::<Handle, Contents>::empty());
        assert(registry@.dead =~= Set::<Handle>::empty());
        registry
    }

    /// Tells where `handle` stands in its life.
    pub fn state(&self, handle: Handle) -> (state: HandleState)
        ensures
            state == self.state_of(handle),
    {
        let address = handle.into_address();
        if address >= self.slots.len() {
            HandleState::Uninitialized
        } else if self.slots[address].is_some() {
            HandleState::Live
        } else {
            HandleState::Dead
        }
    }

    /// Tells the kind of the container that `handle` names, or nothing where
    /// the handle is not live.
    pub fn kind(&self, handle: Handle) -> (kind: Option<Kind>)
        ensures
            kind == if self@.live.contains_key(handle) {
                Some(self@.live[handle].kind())
            } else {
                None
            },
    {
        let address = handle.into_address();
        if address >= self.slots.len() {
            None
        } else {
            match &self.slots[address] {
                Some(Container::HashMap(_)) => Some(Kind::HashMap),
                Some(Container::Vector(_)) => Some(Kind::Vector),
                Some(Container::Slice(_)) => Some(Kind::Slice),
                None => None,
            }
        }
    }

    /// Takes ownership of `container` and issues the handle that names it
    /// from now on.
    fn adopt(&mut self, container: Container) -> (handle: Handle)
        requires
            old(self).wf(),
            container.wf(),
            container matches Container::Slice(slice) ==> {
                &&& slice@.source.address() < old(self).slots@.len()
                &&& admits(old(self).slots@[slice@.source.address() as int], slice@)
            },
        ensures
            final(self).wf(),
            old(self).state_of(handle) == HandleState::Uninitialized,
            final(self)@.live == old(self)@.live.insert(handle, container@),
            final(self)@.dead == old(self)@.dead,
    {
        let address = self.slots.len();
        let handle = Handle::from_address(address);
        self.slots.push(Some(container));
        proof {
            assert forall|g: Handle| g != handle implies g.address() != address by {
                g.lemma_address_injective(handle);
            }
            assert(self@.live =~= old(self)@.live.insert(handle, container@));
            assert(self@.dead =~= old(self)@.dead);
        }
        handle
    }

    /// Creates an empty hash map and returns its handle.
    pub fn create_map(&mut self) -> (handle: Handle)
        requires
            old(self).wf(),
        ensures
            final(self).wf(),
            old(self).state_of(handle) == HandleState::Uninitialized,
            final(self)@.live == old(self)@.live.insert(handle, Contents::HashMap(Map::empty())),
            final(self)@.dead == old(self)@.dead,
    {
        self.adopt(Container::HashMap(hash_map::new()))
    }

    /// Creates an empty vector and returns its handle.
    pub fn create_vector(&mut self) -> (handle: Handle)
        requires
            old(self).wf(),
        ensures
            final(self).wf(),
            old(self).state_of(handle) == HandleState::Uninitialized,
            final(self)@.live == old(self)@.live.insert(handle, Contents::Vector(Seq::empty())),
            final(self)@.dead == old(self)@.dead,
    {
        self.adopt(Container::Vector(vector::new()))
    }

    /// Destroys the container that `handle` names. The handle is dead from
    /// now on; every other handle is as it was.
    pub fn destroy(&mut self, handle: Handle)
        requires
            old(self).wf(),
            old(self)@.live.contains_key(handle),
        ensures
            final(self).wf(),
            final(self)@.live == old(self)@.live.remove(handle),
            final(self)@.dead == old(self)@.dead.insert(handle),
    {
        let address = handle.into_address();
        self.slots.set(address, None);
        proof {
            assert forall|g: Handle| g != handle implies g.address() != address by {
                g.lemma_address_injective(handle);
            }
            assert(self@.live =~= old(self)@.live.remove(handle));
            assert(self@.dead =~= old(self)@.dead.insert(handle));
        }
    }

    /// The container that `handle` names.
    pub closed spec fn container_at(&self, handle: Handle) -> Container {
        self.slots@[handle.address() as int]->0
    }

    /// The container that a live handle names is consistent in itself, and
    /// its contents are what the registry holds for the handle.
    pub proof fn lemma_container_at(&self, handle: Handle)
        requires
            self.wf(),
            self@.live.contains_key(handle),
        ensures
            self.container_at(handle).wf(),
            self.container_at(handle)@ == self@.live[handle],
    {
    }

    /// Borrows the container that `handle` names for reading.
    pub fn borrow(&self, handle: Handle) -> (container: &Container)
        requires
            self.wf(),
            self@.live.contains_key(handle),
        ensures
            *container == self.container_at(handle),
            container.wf(),
            container@ == self@.live[handle],
    {
        match &self.slots[handle.into_address()] {
            Some(container) => container,
            None => unreached(),
        }
    }

    /// Lends the container that `handle` names to the operation `f` for the
    /// length of this call and returns what `f` returns. The container stays
    /// with the registry under the same handle; every other handle is as it
    /// was.
    ///
    /// `f` must be callable on the container as it stands, and must leave a
    /// container that [`continues`] it.
    pub fn with_mut<R, F: FnOnce(&mut Container) -> R>(&mut self, handle: Handle, f: F) -> (result:
        R)
        requires
            old(self).wf(),
            old(self)@.live.contains_key(handle),
            forall|c: &mut Container|
                *c == old(self).container_at(handle) ==> call_requires(f, (c,)),
            forall|c: &mut Container, r: R|
                *c == old(self).container_at(handle) && call_ensures(f, (c,), r) ==> continues(
                    *c,
                    *final(c),
                ),
        ensures
            final(self).wf(),
            exists|c: &mut Container|
                {
                    &&& *c == old(self).container_at(handle)
                    &&& *final(c) == final(self).container_at(handle)
                    &&& call_ensures(f, (c,), result)
                },
            final(self)@.live == old(self)@.live.insert(
                handle,
                final(self).container_at(handle)@,
            ),
            final(self)@.dead == old(self)@.dead,
    {
        let address = handle.into_address();
        let result = match &mut self.slots[address] {
            Some(container) => f(container),
            None => unreached(),
        };
        proof {
            assert forall|g: Handle| g != handle implies g.address() != address by {
                g.lemma_address_injective(handle);
            }
            assert(self@.live =~= old(self)@.live.insert(handle, self.container_at(handle)@));
            assert(self@.dead =~= old(self)@.dead);
        }
        result
    }

    /// Stores `value` under `key` in the hash map that `handle` names. A
    /// value already stored under that key is overwritten.
    pub fn map_set(&mut self, handle: Handle, key: DynamicValue, value: DynamicValue)
        requires
            old(self).wf(),
            old(self).is_map(handle),
            old(self).map_at(handle).contains_key(key@) || old(self).map_at(handle).len()
                < usize::MAX,
        ensures
            final(self).wf(),
            final(self)@.live == old(self)@.live.insert(
                handle,
                Contents::HashMap(old(self).map_at(handle).insert(key@, value@)),
            ),
            final(self)@.dead == old(self)@.dead,
    {
        let ghost held = self.map_at(handle);
        let ghost k = key@;
        let ghost v = value@;
        let operation = |container: &mut Container|
            requires
                (*old(container)).wf(),
                (*old(container))@ == Contents::HashMap(held),
                held.contains_key(k) || held.len() < usize::MAX,
            ensures
                (*final(container)).wf(),
                (*final(container))@ == Contents::HashMap(held.insert(k, v)),
            {
                match container {
                    Container::HashMap(map) => {
                        map.set(key, value);
                    },
                    _ => {
                        unreached::<()>();
                    },
                }
            };
        self.with_mut(handle, operation);
    }

    /// Reads a copy of the value stored under `key` in the hash map that
    /// `handle` names, or nothing where the map has no such key.
    pub fn map_get(&self, handle: Handle, key: &DynamicValue) -> (value: Option<DynamicValue>)
        requires
            self.wf(),
            self.is_map(handle),
        ensures
            view_of(value) == self.map_at(handle).get(key@),
    {
        match self.borrow(handle) {
            Container::HashMap(map) => map.get(key),
            _ => unreached(),
        }
    }

    /// Takes the value stored under `key` out of the hash map that `handle`
    /// names and returns it, or returns nothing and changes nothing where the
    /// map has no such key.
    pub fn map_remove(&mut self, handle: Handle, key: &DynamicValue) -> (value: Option<
        DynamicValue,
    >)
        requires
            old(self).wf(),
            old(self).is_map(handle),
        ensures
            final(self).wf(),
            view_of(value) == old(self).map_at(handle).get(key@),
            final(self)@.live == old(self)@.live.insert(
                handle,
                Contents::HashMap(old(self).map_at(handle).remove(key@)),
            ),
            final(self)@.dead == old(self)@.dead,
    {
        let ghost held = self.map_at(handle);
        let ghost k = key@;
        let operation = |container: &mut Container| -> (taken: Option<DynamicValue>)
            requires
                (*old(container)).wf(),
                (*old(container))@ == Contents::HashMap(held),
            ensures
                (*final(container)).wf(),
                (*final(container))@ == Contents::HashMap(held.remove(k)),
                view_of(taken) == held.get(k),
            {
                match container {
                    Container::HashMap(map) => map.remove(key),
                    _ => unreached(),
                }
            };
        self.with_mut(handle, operation)
    }

    /// The number of keys in the hash map that `handle` names.
    pub fn map_len(&self, handle: Handle) -> (count: usize)
        requires
            self.wf(),
            self.is_map(handle),
        ensures
            count == self.map_at(handle).len(),
    {
        match self.borrow(handle) {
            Container::HashMap(map) => map.len(),
            _ => unreached(),
        }
    }

    /// Appends `value` to the vector that `handle` names.
    pub fn vec_push(&mut self, handle: Handle, value: DynamicValue)
        requires
            old(self).wf(),
            old(self).is_vector(handle),
        ensures
            final(self).wf(),
            final(self)@.live == old(self)@.live.insert(
                handle,
                Contents::Vector(old(self).vector_at(handle).push(value@)),
            ),
            final(self)@.dead == old(self)@.dead,
    {
        let ghost held = self.vector_at(handle);
        let ghost v = value@;
        let operation = |container: &mut Container|
            requires
                (*old(container))@ == Contents::Vector(held),
            ensures
                (*final(container))@ == Contents::Vector(held.push(v)),
            {
                match container {
                    Container::Vector(vector) => {
                        vector.push(value);
                    },
                    _ => {
                        unreached::<()>();
                    },
                }
            };
        self.with_mut(handle, operation);
    }

    /// Reads a copy of the element at the signed position `index` of the
    /// vector that `handle` names. A negative index, or one at or past the
    /// end, reads nothing.
    pub fn vec_get(&self, handle: Handle, index: isize) -> (element: Option<DynamicValue>)
        requires
            self.wf(),
            self.is_vector(handle),
        ensures
            view_of(element) == element_at(self.vector_at(handle), index as int),
    {
        match self.borrow(handle) {
            Container::Vector(vector) => vector.get(index),
            _ => unreached(),
        }
    }

    /// Overwrites the element at the signed position `index` of the vector
    /// that `handle` names. Where the index names no element, nothing
    /// changes.
    pub fn vec_set(&mut self, handle: Handle, index: isize, value: DynamicValue)
        requires
            old(self).wf(),
            old(self).is_vector(handle),
        ensures
            final(self).wf(),
            final(self)@.live == old(self)@.live.insert(
                handle,
                Contents::Vector(
                    if 0 <= index < old(self).vector_at(handle).len() {
                        old(self).vector_at(handle).update(index as int, value@)
                    } else {
                        old(self).vector_at(handle)
                    },
                ),
            ),
            final(self)@.dead == old(self)@.dead,
    {
        let ghost held = self.vector_at(handle);
        let ghost v = value@;
        let operation = |container: &mut Container|
            requires
                (*old(container))@ == Contents::Vector(held),
            ensures
                (*final(container))@ == Contents::Vector(
                    if 0 <= index < held.len() {
                        held.update(index as int, v)
                    } else {
                        held
                    },
                ),
            {
                match container {
                    Container::Vector(vector) => {
                        vector.set(index, value);
                    },
                    _ => {
                        unreached::<()>();
                    },
                }
            };
        self.with_mut(handle, operation);
    }

    /// The number of elements in the vector that `handle` names.
    pub fn vec_len(&self, handle: Handle) -> (count: usize)
        requires
            self.wf(),
            self.is_vector(handle),
        ensures
            count == self.vector_at(handle).len(),
    {
        match self.borrow(handle) {
            Container::Vector(vector) => vector.len(),
            _ => unreached(),
        }
    }

    /// Creates a slice over the vector that `source` names and returns the
    /// slice's handle.
    ///
    /// The signed bounds are resolved against the vector's length at this
    /// moment: `start` is clamped into the vector, `end` falls back to the
    /// length where it is negative or too large, and is then moved up to
    /// `start` where it would fall before it. The slice copies no element.
    pub fn create_slice(&mut self, source: Handle, start: isize, end: isize) -> (handle: Handle)
        requires
            old(self).wf(),
            old(self).is_vector(source),
        ensures
            final(self).wf(),
            old(self).state_of(handle) == HandleState::Uninitialized,
            final(self)@.live == old(self)@.live.insert(
                handle,
                Contents::Slice(
                    Window {
                        source,
                        start: resolved_start(
                            start as int,
                            old(self).vector_at(source).len() as int,
                        ),
                        end: resolved_end(
                            start as int,
                            end as int,
                            old(self).vector_at(source).len() as int,
                        ),
                    },
                ),
            ),
            final(self)@.dead == old(self)@.dead,
            0 <= final(self).window_at(handle).start <= final(self).window_at(handle).end
                <= old(self).vector_at(source).len(),
    {
        let len = self.vec_len(source);
        let slice = SliceView::resolve(source, len, start, end);
        self.adopt(Container::Slice(slice))
    }

    /// The handle of the vector that the slice named by `handle` looks at.
    pub fn slice_source(&self, handle: Handle) -> (source: Handle)
        requires
            self.wf(),
            self.is_slice(handle),
        ensures
            source == self.window_at(handle).source,
    {
        match self.borrow(handle) {
            Container::Slice(slice) => slice.source(),
            _ => unreached(),
        }
    }

    /// The number of positions in the slice that `handle` names.
    pub fn slice_len(&self, handle: Handle) -> (count: usize)
        requires
            self.wf(),
            self.is_slice(handle),
        ensures
            count == self.window_at(handle).end - self.window_at(handle).start,
    {
        match self.borrow(handle) {
            Container::Slice(slice) => slice.len(),
            _ => unreached(),
        }
    }

    /// Reads, through the slice that `handle` names, a copy of the element
    /// of its source vector at the signed position `index` of the slice. A
    /// negative index, or one at or past the slice's end, reads nothing.
    ///
    /// The source vector must still be live: a slice does not keep it so.
    pub fn slice_get(&self, handle: Handle, index: isize) -> (element: Option<DynamicValue>)
        requires
            self.wf(),
            self.is_slice(handle),
            self.is_vector(self.window_at(handle).source),
        ensures
            view_of(element) == if 0 <= index < self.window_at(handle).end - self.window_at(
                handle,
            ).start {
                Some(
                    self.vector_at(self.window_at(handle).source)[self.window_at(handle).start
                        + index],
                )
            } else {
                None
            },
    {
        proof {
            self.lemma_slice_within_source(handle);
        }
        match self.borrow(handle) {
            Container::Slice(slice) => match slice.offset(index) {
                Some(position) => match self.borrow(slice.source()) {
                    Container::Vector(vector) => vector.at(position),
                    _ => unreached(),
                },
                None => None,
            },
            _ => unreached(),
        }
    }

    /// A live slice lies inside its source for as long as the source lives:
    /// its interval is ordered and ends no later than the source does.
    pub proof fn lemma_slice_within_source(&self, handle: Handle)
        requires
            self.wf(),
            self.is_slice(handle),
            self@.live.contains_key(self.window_at(handle).source),
        ensures
            self.is_vector(self.window_at(handle).source),
            0 <= self.window_at(handle).start <= self.window_at(handle).end
                <= self.vector_at(self.window_at(handle).source).len(),
    {
        let slot = self.slots@[handle.address() as int];
        assert(slot is Some);
        match slot->0 {
            Container::Slice(slice) => {
                slice.lemma_wf_ordered();
            },
            _ => {},
        }
    }

    /// A value stored under a key of a hash map is what the next read of
    /// that key gives, whatever the map held before.
    pub proof fn lemma_map_set_then_get(
        before: &Registry,
        after: &Registry,
        handle: Handle,
        key: Value,
        value: Value,
    )
        requires
            before.is_map(handle),
            after@.live == before@.live.insert(
                handle,
                Contents::HashMap(before.map_at(handle).insert(key, value)),
            ),
        ensures
            after.is_map(handle),
            after.map_at(handle).get(key) == Some(value),
    {
    }

    /// A value written to a position of a vector is what the next read of
    /// that position gives.
    pub proof fn lemma_vec_set_then_get(
        before: &Registry,
        after: &Registry,
        handle: Handle,
        index: int,
        value: Value,
    )
        requires
            before.is_vector(handle),
            0 <= index < before.vector_at(handle).len(),
            after@.live == before@.live.insert(
                handle,
                Contents::Vector(before.vector_at(handle).update(index, value)),
            ),
        ensures
            after.is_vector(handle),
            element_at(after.vector_at(handle), index) == Some(value),
    {
    }

    /// A value appended to a vector is read back at the position that was
    /// the vector's length, and every element before it is as it was.
    pub proof fn lemma_vec_push_then_get(
        before: &Registry,
        after: &Registry,
        handle: Handle,
        value: Value,
    )
        requires
            before.is_vector(handle),
            after@.live == before@.live.insert(
                handle,
                Contents::Vector(before.vector_at(handle).push(value)),
            ),
        ensures
            after.is_vector(handle),
            after.vector_at(handle).len() == before.vector_at(handle).len() + 1,
            element_at(after.vector_at(handle), before.vector_at(handle).len() as int) == Some(
                value,
            ),
            forall|i: int|
                0 <= i < before.vector_at(handle).len() ==> element_at(after.vector_at(handle), i)
                    == element_at(before.vector_at(handle), i),
    {
    }

    /// A key that a hash map does not hold reads as nothing, and removing it
    /// gives nothing and leaves the registry as it was.
    pub proof fn lemma_absent_key(&self, handle: Handle, key: Value)
        requires
            self.is_map(handle),
            !self.map_at(handle).contains_key(key),
        ensures
            self.map_at(handle).get(key) == None::<Value>,
            self.map_at(handle).remove(key) == self.map_at(handle),
            self@.live.insert(handle, Contents::HashMap(self.map_at(handle).remove(key)))
                == self@.live,
    {
        assert(self.map_at(handle).remove(key) =~= self.map_at(handle));
        assert(self@.live.insert(handle, Contents::HashMap(self.map_at(handle)))
            =~= self@.live);
    }

    /// A hash map that was just created holds no key.
    pub proof fn lemma_created_map_is_empty(before: &Registry, after: &Registry, handle: Handle)
        requires
            after@.live == before@.live.insert(handle, Contents::HashMap(Map::empty())),
        ensures
            after.is_map(handle),
            after.map_at(handle).len() == 0,
            forall|key: Value| after.map_at(handle).get(key) == None::<Value>,
    {
    }

    /// A vector that was just created holds no element.
    pub proof fn lemma_created_vector_is_empty(
        before: &Registry,
        after: &Registry,
        handle: Handle,
    )
        requires
            after@.live == before@.live.insert(handle, Contents::Vector(Seq::empty())),
        ensures
            after.is_vector(handle),
            after.vector_at(handle).len() == 0,
            forall|index: int| element_at(after.vector_at(handle), index) == None::<Value>,
    {
    }

    /// A slice created over a vector lies inside it whatever bounds were
    /// asked for, and over an empty vector it is empty.
    pub proof fn lemma_created_slice_is_inside(
        before: &Registry,
        after: &Registry,
        source: Handle,
        handle: Handle,
        start: int,
        end: int,
    )
        requires
            before.is_vector(source),
            after@.live == before@.live.insert(
                handle,
                Contents::Slice(
                    Window {
                        source,
                        start: resolved_start(start, before.vector_at(source).len() as int),
                        end: resolved_end(start, end, before.vector_at(source).len() as int),
                    },
                ),
            ),
        ensures
            after.is_slice(handle),
            after.window_at(handle).source == source,
            0 <= after.window_at(handle).start <= after.window_at(handle).end
                <= before.vector_at(source).len(),
            before.vector_at(source).len() == 0 ==> after.window_at(handle).end
                - after.window_at(handle).start == 0,
    {
    }

    /// Destroying a handle makes it dead and changes the state of no other
    /// handle; a dead handle is not one that a creation call returns.
    pub proof fn lemma_destroyed_is_dead(before: &Registry, after: &Registry, handle: Handle)
        requires
            before@.live.contains_key(handle),
            after@.live == before@.live.remove(handle),
            after@.dead == before@.dead.insert(handle),
        ensures
            before.state_of(handle) == HandleState::Live,
            after.state_of(handle) == HandleState::Dead,
            forall|other: Handle|
                other != handle ==> after.state_of(other) == before.state_of(other),
    {
    }
}

} // verus!
