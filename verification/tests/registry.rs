use collection_bridge::handle::{Handle, HandleState, Kind};
use collection_bridge::registry::{Container, Registry};
use collection_bridge::value::DynamicValue;

fn text(s: &str) -> DynamicValue {
    DynamicValue::Text(s.to_string())
}

fn number(n: f64) -> DynamicValue {
    DynamicValue::Number(n.to_bits())
}

fn vector_of(registry: &mut Registry, len: u32) -> Handle {
    let h = registry.create_vector();
    for i in 0..len {
        registry.vec_push(h, number(f64::from(i)));
    }
    h
}

#[test]
fn fresh_registry_knows_no_handle() {
    let registry = Registry::new();
    assert_eq!(registry.state(Handle::from_address(0)), HandleState::Uninitialized);
    assert_eq!(registry.state(Handle::from_address(usize::MAX)), HandleState::Uninitialized);
    assert_eq!(registry.kind(Handle::from_address(0)), None);
}

#[test]
fn created_containers_are_live_and_empty() {
    let mut registry = Registry::new();
    let m = registry.create_map();
    let v = registry.create_vector();
    let s = registry.create_slice(v, 0, 0);
    assert_eq!(registry.state(m), HandleState::Live);
    assert_eq!(registry.state(v), HandleState::Live);
    assert_eq!(registry.state(s), HandleState::Live);
    assert_eq!(registry.kind(m), Some(Kind::HashMap));
    assert_eq!(registry.kind(v), Some(Kind::Vector));
    assert_eq!(registry.kind(s), Some(Kind::Slice));
    assert_eq!(registry.map_len(m), 0);
    assert_eq!(registry.vec_len(v), 0);
    assert_eq!(registry.slice_len(s), 0);
}

#[test]
fn handles_are_distinct() {
    let mut registry = Registry::new();
    let a = registry.create_map();
    let b = registry.create_map();
    let c = registry.create_vector();
    assert_ne!(a, b);
    assert_ne!(a, c);
    assert_ne!(b, c);
}

#[test]
fn map_set_then_get_through_the_handle() {
    let mut registry = Registry::new();
    let h = registry.create_map();
    registry.map_set(h, text("k"), number(4.0));
    assert_eq!(registry.map_get(h, &text("k")), Some(number(4.0)));
    assert_eq!(registry.map_len(h), 1);
}

#[test]
fn map_overwrite_keeps_the_last_value() {
    let mut registry = Registry::new();
    let h = registry.create_map();
    registry.map_set(h, text("a"), number(1.0));
    registry.map_set(h, text("a"), number(2.0));
    assert_eq!(registry.map_get(h, &text("a")), Some(number(2.0)));
    assert_eq!(registry.map_len(h), 1);
}

#[test]
fn map_absent_key_reads_and_removes_as_nothing() {
    let mut registry = Registry::new();
    let h = registry.create_map();
    assert_eq!(registry.map_get(h, &text("never set")), None);
    assert_eq!(registry.map_remove(h, &text("never set")), None);
    assert_eq!(registry.map_len(h), 0);
    registry.map_set(h, text("other"), DynamicValue::Null);
    assert_eq!(registry.map_get(h, &text("never set")), None);
    assert_eq!(registry.map_remove(h, &text("never set")), None);
    assert_eq!(registry.map_len(h), 1);
}

#[test]
fn map_remove_through_the_handle() {
    let mut registry = Registry::new();
    let h = registry.create_map();
    registry.map_set(h, number(1.0), text("one"));
    registry.map_set(h, number(2.0), text("two"));
    assert_eq!(registry.map_remove(h, &number(1.0)), Some(text("one")));
    assert_eq!(registry.map_get(h, &number(1.0)), None);
    assert_eq!(registry.map_get(h, &number(2.0)), Some(text("two")));
    assert_eq!(registry.map_len(h), 1);
}

#[test]
fn maps_do_not_share_entries() {
    let mut registry = Registry::new();
    let a = registry.create_map();
    let b = registry.create_map();
    registry.map_set(a, text("k"), number(1.0));
    assert_eq!(registry.map_get(b, &text("k")), None);
    registry.map_set(b, text("k"), number(2.0));
    assert_eq!(registry.map_get(a, &text("k")), Some(number(1.0)));
    assert_eq!(registry.map_get(b, &text("k")), Some(number(2.0)));
}

#[test]
fn vector_negative_index_reads_nothing() {
    let mut registry = Registry::new();
    let h = registry.create_vector();
    registry.vec_push(h, number(10.0));
    registry.vec_push(h, number(20.0));
    assert_eq!(registry.vec_get(h, -1), None);
    assert_eq!(registry.vec_get(h, 0), Some(number(10.0)));
    assert_eq!(registry.vec_get(h, 1), Some(number(20.0)));
    assert_eq!(registry.vec_get(h, 2), None);
    assert_eq!(registry.vec_len(h), 2);
}

#[test]
fn vector_set_through_the_handle() {
    let mut registry = Registry::new();
    let h = vector_of(&mut registry, 3);
    registry.vec_set(h, 1, text("middle"));
    registry.vec_set(h, 3, text("past the end"));
    registry.vec_set(h, -1, text("before the start"));
    assert_eq!(registry.vec_len(h), 3);
    assert_eq!(registry.vec_get(h, 0), Some(number(0.0)));
    assert_eq!(registry.vec_get(h, 1), Some(text("middle")));
    assert_eq!(registry.vec_get(h, 2), Some(number(2.0)));
}

#[test]
fn slice_with_end_before_start_is_empty() {
    let mut registry = Registry::new();
    let v = vector_of(&mut registry, 10);
    let s = registry.create_slice(v, 5, 2);
    assert_eq!(registry.slice_len(s), 0);
    assert_eq!(registry.slice_get(s, 0), None);
    assert_eq!(registry.slice_source(s), v);
}

#[test]
fn slice_reads_through_to_its_source() {
    let mut registry = Registry::new();
    let v = vector_of(&mut registry, 10);
    let s = registry.create_slice(v, 2, 5);
    assert_eq!(registry.slice_len(s), 3);
    assert_eq!(registry.slice_get(s, 0), Some(number(2.0)));
    assert_eq!(registry.slice_get(s, 1), Some(number(3.0)));
    assert_eq!(registry.slice_get(s, 2), Some(number(4.0)));
    assert_eq!(registry.slice_get(s, 3), None);
    assert_eq!(registry.slice_get(s, -1), None);
}

#[test]
fn slice_sees_later_writes_to_its_source() {
    let mut registry = Registry::new();
    let v = vector_of(&mut registry, 4);
    let s = registry.create_slice(v, 1, 3);
    registry.vec_set(v, 1, text("changed"));
    registry.vec_push(v, number(99.0));
    assert_eq!(registry.slice_len(s), 2);
    assert_eq!(registry.slice_get(s, 0), Some(text("changed")));
    assert_eq!(registry.slice_get(s, 1), Some(number(2.0)));
    assert_eq!(registry.slice_get(s, 2), None);
}

#[test]
fn slice_bounds_are_clamped_into_the_source() {
    let mut registry = Registry::new();
    let v = vector_of(&mut registry, 10);
    let whole = registry.create_slice(v, -3, 100);
    assert_eq!(registry.slice_len(whole), 10);
    assert_eq!(registry.slice_get(whole, 9), Some(number(9.0)));
    let tail = registry.create_slice(v, 7, -1);
    assert_eq!(registry.slice_len(tail), 3);
    assert_eq!(registry.slice_get(tail, 0), Some(number(7.0)));
    let past = registry.create_slice(v, 50, 60);
    assert_eq!(registry.slice_len(past), 0);
}

#[test]
fn destroying_a_slice_leaves_its_source() {
    let mut registry = Registry::new();
    let v = vector_of(&mut registry, 3);
    let s = registry.create_slice(v, 0, 3);
    registry.destroy(s);
    assert_eq!(registry.state(s), HandleState::Dead);
    assert_eq!(registry.state(v), HandleState::Live);
    assert_eq!(registry.vec_len(v), 3);
    assert_eq!(registry.vec_get(v, 2), Some(number(2.0)));
}

#[test]
fn destroying_a_source_leaves_its_slice_handle_live() {
    let mut registry = Registry::new();
    let v = vector_of(&mut registry, 3);
    let s = registry.create_slice(v, 0, 3);
    registry.destroy(v);
    assert_eq!(registry.state(v), HandleState::Dead);
    assert_eq!(registry.state(s), HandleState::Live);
    assert_eq!(registry.slice_len(s), 3);
    assert_eq!(registry.state(registry.slice_source(s)), HandleState::Dead);
}

#[test]
fn destroyed_handle_is_dead_and_not_reissued() {
    let mut registry = Registry::new();
    let a = registry.create_map();
    let b = registry.create_vector();
    registry.destroy(a);
    assert_eq!(registry.state(a), HandleState::Dead);
    assert_eq!(registry.kind(a), None);
    assert_eq!(registry.state(b), HandleState::Live);
    let c = registry.create_map();
    let d = registry.create_vector();
    assert_ne!(c, a);
    assert_ne!(d, a);
    assert_eq!(registry.state(a), HandleState::Dead);
    assert_eq!(registry.map_len(c), 0);
}

#[test]
fn a_handle_can_be_stored_as_a_value() {
    let mut registry = Registry::new();
    let inner = registry.create_vector();
    let outer = registry.create_map();
    registry.vec_push(inner, text("nested"));
    registry.map_set(outer, text("child"), DynamicValue::Handle(inner));
    let child = match registry.map_get(outer, &text("child")) {
        Some(DynamicValue::Handle(h)) => h,
        other => panic!("expected a handle, found {:?}", other),
    };
    assert_eq!(child, inner);
    assert_eq!(registry.vec_get(child, 0), Some(text("nested")));
}

#[test]
fn borrow_lends_the_container_for_reading() {
    let mut registry = Registry::new();
    let v = vector_of(&mut registry, 2);
    match registry.borrow(v) {
        Container::Vector(vector) => {
            assert_eq!(vector.len(), 2);
            assert_eq!(vector.get(1), Some(number(1.0)));
        }
        _ => panic!("expected a vector"),
    }
}

#[test]
fn with_mut_applies_the_operation_and_keeps_the_handle() {
    let mut registry = Registry::new();
    let v = vector_of(&mut registry, 2);
    let m = registry.create_map();
    let grown = registry.with_mut(v, |container| match container {
        Container::Vector(vector) => {
            vector.push(text("third"));
            vector.len()
        }
        _ => panic!("expected a vector"),
    });
    assert_eq!(grown, 3);
    assert_eq!(registry.state(v), HandleState::Live);
    assert_eq!(registry.vec_len(v), 3);
    assert_eq!(registry.vec_get(v, 2), Some(text("third")));
    let taken = registry.with_mut(m, |container| match container {
        Container::HashMap(map) => {
            map.set(text("k"), number(1.0));
            map.set(text("l"), number(2.0));
            map.remove(&text("k"))
        }
        _ => panic!("expected a hash map"),
    });
    assert_eq!(taken, Some(number(1.0)));
    assert_eq!(registry.map_len(m), 1);
    assert_eq!(registry.map_get(m, &text("l")), Some(number(2.0)));
    assert_eq!(registry.vec_len(v), 3);
}
