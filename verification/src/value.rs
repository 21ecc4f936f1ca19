//! The dynamically typed value that crosses the boundary.
use std::collections::hash_map::DefaultHasher;
use std::hash::Hasher;
use vstd::prelude::*;
use vstd::bytes::{spec_u64_to_le_bytes, u64_to_le_bytes};
use vstd::std_specs::cmp::PartialEqSpecImpl;
use vstd::std_specs::hash::DefaultHasherAdditionalSpecFns;
use vstd::utf8::encode_utf8;
use crate::handle::Handle;

verus! {

/// What a [`DynamicValue`] holds, as a mathematical value.
///
/// Two values are equal exactly when they are of the same kind and hold the
/// same payload.
pub enum Value {
    Null,
    Bool(bool),
    Number(u64),
    Text(Seq<char>),
    Handle(Handle),
}

/// A value of one of the kinds that the host can represent.
///
/// A number is held as the bit pattern of its binary64 form, so that equality
/// is equality of payloads and the library needs no floating point.
#[derive(Debug)]
pub enum DynamicValue {
    /// The absent value.
    Null,
    /// A boolean.
    Bool(bool),
    /// A number, as the bits of its binary64 form.
    Number(u64),
    /// A string.
    Text(String),
    /// A reference to a container, by its handle.
    Handle(Handle),
}

impl View for DynamicValue {
    type V = Value;

    open spec fn view(&self) -> Value {
        match self {
            DynamicValue::Null => Value::Null,
            DynamicValue::Bool(b) => Value::Bool(*b),
            DynamicValue::Number(bits) => Value::Number(*bits),
            DynamicValue::Text(s) => Value::Text(s@),
            DynamicValue::Handle(h) => Value::Handle(*h),
        }
    }
}

/// What an optional value holds: the view of the value, or nothing.
pub open spec fn view_of(value: Option<DynamicValue>) -> Option<Value> {
    match value {
        Some(v) => Some(v@),
        None => None,
    }
}

/// The byte that tells the kinds of value apart in a digest.
pub open spec fn kind_tag(value: Value) -> u8 {
    match value {
        Value::Null => 0,
        Value::Bool(_) => 1,
        Value::Number(_) => 2,
        Value::Text(_) => 3,
        Value::Handle(_) => 4,
    }
}

/// The bytes that stand for a value's payload in a digest.
pub open spec fn payload_bytes(value: Value) -> Seq<u8> {
    match value {
        Value::Null => Seq::empty(),
        Value::Bool(b) => seq![if b { 1u8 } else { 0u8 }],
        Value::Number(bits) => spec_u64_to_le_bytes(bits),
        Value::Text(chars) => encode_utf8(chars),
        Value::Handle(h) => spec_u64_to_le_bytes(h.address() as u64),
    }
}

/// The fixed-width digest of a value: what the standard hasher makes of the
/// value's kind tag followed by its payload bytes. It is a function of the
/// value alone, so equal values have equal digests.
pub open spec fn digest_of(value: Value) -> u64 {
    DefaultHasher::spec_finish(seq![seq![kind_tag(value)], payload_bytes(value)])
}

impl DynamicValue {
    /// Computes the digest under which a map files this value.
    pub fn digest(&self) -> (digest: u64)
        ensures
            digest == digest_of(self@),
    {
        let mut hasher = DefaultHasher::new();
        let mut tag: Vec<u8> = Vec::new();
        match self {
            DynamicValue::Null => {
                tag.push(0u8);
                let payload: Vec<u8> = Vec::new();
                hasher.write(tag.as_slice());
                hasher.write(payload.as_slice());
            },
            DynamicValue::Bool(b) => {
                tag.push(1u8);
                let mut payload: Vec<u8> = Vec::new();
                payload.push(if *b { 1u8 } else { 0u8 });
                hasher.write(tag.as_slice());
                hasher.write(payload.as_slice());
            },
            DynamicValue::Number(bits) => {
                tag.push(2u8);
                let payload = u64_to_le_bytes(*bits);
                hasher.write(tag.as_slice());
                hasher.write(payload.as_slice());
            },
            DynamicValue::Text(s) => {
                tag.push(3u8);
                hasher.write(tag.as_slice());
                hasher.write(s.as_str().as_bytes());
            },
            DynamicValue::Handle(h) => {
                tag.push(4u8);
                let payload = u64_to_le_bytes(h.into_address() as u64);
                hasher.write(tag.as_slice());
                hasher.write(payload.as_slice());
            },
        }
        assert(tag@ =~= seq![kind_tag(self@)]);
        assert(hasher@ =~= seq![seq![kind_tag(self@)], payload_bytes(self@)]);
        hasher.finish()
    }
}

impl Clone for DynamicValue {
    /// An independent copy: it holds the same value as `self` and shares
    /// nothing with it.
    fn clone(&self) -> (copy: Self)
        ensures
            copy@ == self@,
    {
        match self {
            DynamicValue::Null => DynamicValue::Null,
            DynamicValue::Bool(b) => DynamicValue::Bool(*b),
            DynamicValue::Number(bits) => DynamicValue::Number(*bits),
            DynamicValue::Text(s) => DynamicValue::Text(s.clone()),
            DynamicValue::Handle(h) => DynamicValue::Handle(*h),
        }
    }
}

impl PartialEq for DynamicValue {
    fn eq(&self, other: &Self) -> (equal: bool) {
        match (self, other) {
            (DynamicValue::Null, DynamicValue::Null) => true,
            (DynamicValue::Bool(a), DynamicValue::Bool(b)) => *a == *b,
            (DynamicValue::Number(a), DynamicValue::Number(b)) => *a == *b,
            (DynamicValue::Text(a), DynamicValue::Text(b)) => *a == *b,
            (DynamicValue::Handle(a), DynamicValue::Handle(b)) => *a == *b,
            _ => false,
        }
    }
}

impl PartialEqSpecImpl for DynamicValue {
    open spec fn obeys_eq_spec() -> bool {
        true
    }

    open spec fn eq_spec(&self, other: &Self) -> bool {
        self@ == other@
    }
}

} // verus!
