//! The vector container: an ordered, growable sequence of values.
use vstd::prelude::*;
use crate::cast_or;
use crate::value::{view_of, DynamicValue, Value};

verus! {

/// An ordered, growable sequence of values. It never shrinks.
pub struct ValueVec {
    items: Vec<DynamicValue>,
}

impl View for ValueVec {
    type V = Seq<Value>;

    closed spec fn view(&self) -> Seq<Value> {
        self.items@.map_values(|item: DynamicValue| item@)
    }
}

/// The element that a signed index reads from `items`: the element at that
/// position where the index lies inside the sequence, and nothing otherwise.
pub open spec fn element_at(items: Seq<Value>, index: int) -> Option<Value> {
    if 0 <= index < items.len() {
        Some(items[index])
    } else {
        None
    }
}

/// Creates an empty vector.
pub fn new() -> (vector: ValueVec)
    ensures
        vector@ == Seq::<Value>::empty(),
{
    let vector = ValueVec { items: Vec::new() };
    assert(vector@ =~= Seq::<Value>::empty());
    vector
}

impl ValueVec {
    /// The number of elements.
    pub fn len(&self) -> (count: usize)
        ensures
            count == self@.len(),
    {
        self.items.len()
    }

    /// Appends `value` as the new last element.
    pub fn push(&mut self, value: DynamicValue)
        ensures
            final(self)@ == old(self)@.push(value@),
    {
        self.items.push(value);
        assert(self@ =~= old(self)@.push(value@));
    }

    /// Reads a copy of the element at the unsigned position `offset`, or
    /// nothing where the position lies past the end.
    pub fn at(&self, offset: usize) -> (element: Option<DynamicValue>)
        ensures
            view_of(element) == element_at(self@, offset as int),
    {
        if offset < self.items.len() {
            Some(self.items[offset].clone())
        } else {
            None
        }
    }

    /// Reads a copy of the element at the signed position `index`.
    ///
    /// The index is normalised against the length: a negative index, or one
    /// at or past the end, reads nothing.
    pub fn get(&self, index: isize) -> (element: Option<DynamicValue>)
        ensures
            view_of(element) == element_at(self@, index as int),
    {
        self.at(cast_or(index, self.items.len()))
    }

    /// Overwrites the element at the signed position `index` with `value`.
    ///
    /// The index is normalised as in [`ValueVec::get`]; where it names no
    /// element, the vector is left as it is.
    pub fn set(&mut self, index: isize, value: DynamicValue)
        ensures
            0 <= index < old(self)@.len() ==> final(self)@ == old(self)@.update(
                index as int,
                value@,
            ),
            !(0 <= index < old(self)@.len()) ==> final(self)@ == old(self)@,
    {
        let offset = cast_or(index, self.items.len());
        if offset < self.items.len() {
            self.items.set(offset, value);
            assert(self@ =~= old(self)@.update(index as int, value@));
        }
    }
}

} // verus!
