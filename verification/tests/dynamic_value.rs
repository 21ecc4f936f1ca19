use collection_bridge::handle::Handle;
use collection_bridge::value::DynamicValue;

fn text(s: &str) -> DynamicValue {
    DynamicValue::Text(s.to_string())
}

fn number(n: f64) -> DynamicValue {
    DynamicValue::Number(n.to_bits())
}

#[test]
fn values_of_the_same_kind_and_payload_are_equal() {
    assert_eq!(DynamicValue::Null, DynamicValue::Null);
    assert_eq!(DynamicValue::Bool(true), DynamicValue::Bool(true));
    assert_eq!(number(1.5), number(1.5));
    assert_eq!(text("abc"), text("abc"));
    assert_eq!(
        DynamicValue::Handle(Handle::from_address(3)),
        DynamicValue::Handle(Handle::from_address(3))
    );
}

#[test]
fn values_of_different_payload_are_unequal() {
    assert_ne!(DynamicValue::Bool(true), DynamicValue::Bool(false));
    assert_ne!(number(1.0), number(2.0));
    assert_ne!(text("abc"), text("abd"));
    assert_ne!(text(""), text(" "));
    assert_ne!(
        DynamicValue::Handle(Handle::from_address(3)),
        DynamicValue::Handle(Handle::from_address(4))
    );
}

#[test]
fn values_of_different_kind_are_unequal() {
    assert_ne!(DynamicValue::Null, DynamicValue::Bool(false));
    assert_ne!(DynamicValue::Number(0), DynamicValue::Bool(false));
    assert_ne!(DynamicValue::Number(3), DynamicValue::Handle(Handle::from_address(3)));
    assert_ne!(text("1"), number(1.0));
    assert_ne!(text(""), DynamicValue::Null);
}

#[test]
fn a_number_is_its_bit_pattern() {
    assert_eq!(number(10.0), DynamicValue::Number(0x4024_0000_0000_0000));
    assert_ne!(number(0.0), number(-0.0));
    assert_eq!(number(f64::NAN), number(f64::NAN));
}

#[test]
fn clone_gives_an_equal_value() {
    let values = vec![
        DynamicValue::Null,
        DynamicValue::Bool(false),
        number(-2.25),
        text("copy me"),
        DynamicValue::Handle(Handle::from_address(9)),
    ];
    for value in &values {
        assert_eq!(&value.clone(), value);
    }
}

#[test]
fn clone_shares_nothing_with_its_source() {
    let source = text("left");
    let mut copy = source.clone();
    if let DynamicValue::Text(s) = &mut copy {
        s.push_str(" and right");
    }
    assert_eq!(source, text("left"));
    assert_eq!(copy, text("left and right"));
}

#[test]
fn equal_values_have_equal_digests() {
    assert_eq!(DynamicValue::Null.digest(), DynamicValue::Null.digest());
    assert_eq!(text("key").digest(), text("key").digest());
    assert_eq!(number(7.0).digest(), number(7.0).clone().digest());
    assert_eq!(
        DynamicValue::Handle(Handle::from_address(5)).digest(),
        DynamicValue::Handle(Handle::from_address(5)).digest()
    );
}

#[test]
fn handle_round_trips_through_its_address() {
    assert_eq!(Handle::from_address(0).into_address(), 0);
    assert_eq!(Handle::from_address(17).into_address(), 17);
    assert_eq!(Handle::from_address(usize::MAX).into_address(), usize::MAX);
    assert_eq!(Handle::from_address(4), Handle::from_address(4));
    assert_ne!(Handle::from_address(4), Handle::from_address(5));
}
