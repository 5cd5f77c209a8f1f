use mlua::{Lua, Table, Value};
use mlua_serde::ser::Serializer;

fn text(value: &Value) -> String {
    match value {
        Value::String(s) => s.to_str().unwrap().to_owned(),
        other => panic!("not a string: {:?}", other),
    }
}

fn table<'lua>(value: Value<'lua>) -> Table<'lua> {
    match value {
        Value::Table(t) => t,
        other => panic!("not a table: {:?}", other),
    }
}

fn count(table: &Table) -> usize {
    table.clone().pairs::<Value, Value>().count()
}

#[test]
fn bool_is_boolean() {
    let lua = Lua::new();
    assert_eq!(Serializer::new(&lua).serialize_bool(true).unwrap(), Value::Boolean(true));
    assert_eq!(Serializer::new(&lua).serialize_bool(false).unwrap(), Value::Boolean(false));
}

#[test]
fn signed_integers_are_widened() {
    let lua = Lua::new();
    assert_eq!(Serializer::new(&lua).serialize_i8(-128).unwrap(), Value::Integer(-128));
    assert_eq!(Serializer::new(&lua).serialize_i16(-32768).unwrap(), Value::Integer(-32768));
    assert_eq!(Serializer::new(&lua).serialize_i32(i32::MIN).unwrap(), Value::Integer(-2147483648));
    assert_eq!(Serializer::new(&lua).serialize_i64(i64::MIN).unwrap(), Value::Integer(i64::MIN));
    assert_eq!(Serializer::new(&lua).serialize_i64(i64::MAX).unwrap(), Value::Integer(i64::MAX));
}

#[test]
fn unsigned_integers_are_widened() {
    let lua = Lua::new();
    assert_eq!(Serializer::new(&lua).serialize_u8(255).unwrap(), Value::Integer(255));
    assert_eq!(Serializer::new(&lua).serialize_u16(65535).unwrap(), Value::Integer(65535));
    assert_eq!(Serializer::new(&lua).serialize_u32(u32::MAX).unwrap(), Value::Integer(4294967295));
    assert_eq!(Serializer::new(&lua).serialize_u64(7).unwrap(), Value::Integer(7));
}

#[test]
fn u64_at_the_integer_limit_stays_an_integer() {
    let lua = Lua::new();
    let limit = i64::MAX as u64;
    let value = Serializer::new(&lua).serialize_u64(limit).unwrap();
    assert_eq!(value, Value::Integer(i64::MAX));
    assert!(matches!(value, Value::Integer(_)));
}

#[test]
fn u64_beyond_the_integer_limit_becomes_a_float() {
    let lua = Lua::new();
    let value = Serializer::new(&lua).serialize_u64(u64::MAX).unwrap();
    assert!(matches!(value, Value::Number(n) if n == 18446744073709551616.0));
    let value = Serializer::new(&lua).serialize_u64(i64::MAX as u64 + 1).unwrap();
    assert!(matches!(value, Value::Number(n) if n == 9223372036854775808.0));
}

#[test]
fn char_is_a_string_of_one_character() {
    let lua = Lua::new();
    assert_eq!(text(&Serializer::new(&lua).serialize_char('x').unwrap()), "x");
    assert_eq!(text(&Serializer::new(&lua).serialize_char('é').unwrap()), "é");
}

#[test]
fn str_is_a_string() {
    let lua = Lua::new();
    assert_eq!(text(&Serializer::new(&lua).serialize_str("hello").unwrap()), "hello");
    assert_eq!(text(&Serializer::new(&lua).serialize_str("").unwrap()), "");
}

#[test]
fn bytes_are_a_sequence_of_integers() {
    let lua = Lua::new();
    let t = table(Serializer::new(&lua).serialize_bytes(&[1, 2, 255]).unwrap());
    assert_eq!(count(&t), 3);
    assert_eq!(t.get::<_, Value>(1).unwrap(), Value::Integer(1));
    assert_eq!(t.get::<_, Value>(2).unwrap(), Value::Integer(2));
    assert_eq!(t.get::<_, Value>(3).unwrap(), Value::Integer(255));
}

#[test]
fn no_bytes_are_an_empty_table() {
    let lua = Lua::new();
    let t = table(Serializer::new(&lua).serialize_bytes(&[]).unwrap());
    assert_eq!(count(&t), 0);
}

#[test]
fn none_and_unit_are_nil() {
    let lua = Lua::new();
    assert_eq!(Serializer::new(&lua).serialize_none().unwrap(), Value::Nil);
    assert_eq!(Serializer::new(&lua).serialize_unit().unwrap(), Value::Nil);
    assert_eq!(Serializer::new(&lua).serialize_unit_struct("Marker").unwrap(), Value::Nil);
}

#[test]
fn some_is_the_inner_value() {
    let lua = Lua::new();
    let inner = Serializer::new(&lua).serialize_i32(5).unwrap();
    assert_eq!(Serializer::new(&lua).serialize_some(inner).unwrap(), Value::Integer(5));
}

#[test]
fn some_of_none_is_nil_like_none() {
    let lua = Lua::new();
    let inner = Serializer::new(&lua).serialize_none().unwrap();
    let outer = Serializer::new(&lua).serialize_some(inner).unwrap();
    assert_eq!(outer, Value::Nil);
    assert_eq!(outer, Serializer::new(&lua).serialize_none().unwrap());
}

#[test]
fn newtype_struct_is_the_inner_value() {
    let lua = Lua::new();
    let inner = Serializer::new(&lua).serialize_bool(true).unwrap();
    assert_eq!(
        Serializer::new(&lua).serialize_newtype_struct("Wrapper", inner).unwrap(),
        Value::Boolean(true)
    );
}

#[test]
fn unit_variant_is_its_name() {
    let lua = Lua::new();
    let value = Serializer::new(&lua).serialize_unit_variant("State", 0, "Idle").unwrap();
    assert_eq!(text(&value), "Idle");
}

#[test]
fn newtype_variant_is_a_table_with_one_entry() {
    let lua = Lua::new();
    let inner = Serializer::new(&lua).serialize_i32(3).unwrap();
    let t = table(Serializer::new(&lua).serialize_newtype_variant("E", 1, "Count", inner).unwrap());
    assert_eq!(count(&t), 1);
    assert_eq!(t.get::<_, Value>("Count").unwrap(), Value::Integer(3));
}

#[test]
fn newtype_variant_of_nil_is_an_empty_table() {
    let lua = Lua::new();
    let inner = Serializer::new(&lua).serialize_none().unwrap();
    let t = table(Serializer::new(&lua).serialize_newtype_variant("E", 1, "Maybe", inner).unwrap());
    assert_eq!(count(&t), 0);
}

#[test]
fn seq_holds_elements_from_one_in_order() {
    let lua = Lua::new();
    let mut seq = Serializer::new(&lua).serialize_seq(Some(3)).unwrap();
    for v in [10, 20, 30] {
        let element = Serializer::new(&lua).serialize_i32(v).unwrap();
        seq.serialize_element(element).unwrap();
    }
    let t = table(seq.end().unwrap());
    assert_eq!(count(&t), 3);
    assert_eq!(t.get::<_, Value>(1).unwrap(), Value::Integer(10));
    assert_eq!(t.get::<_, Value>(2).unwrap(), Value::Integer(20));
    assert_eq!(t.get::<_, Value>(3).unwrap(), Value::Integer(30));
    assert_eq!(t.get::<_, Value>(0).unwrap(), Value::Nil);
    assert_eq!(t.get::<_, Value>(4).unwrap(), Value::Nil);
}

#[test]
fn empty_seq_is_an_empty_table() {
    let lua = Lua::new();
    let seq = Serializer::new(&lua).serialize_seq(None).unwrap();
    let t = table(seq.end().unwrap());
    assert_eq!(count(&t), 0);
}

#[test]
fn nil_element_leaves_its_index_empty() {
    let lua = Lua::new();
    let mut seq = Serializer::new(&lua).serialize_seq(None).unwrap();
    seq.serialize_element(Serializer::new(&lua).serialize_i32(1).unwrap()).unwrap();
    seq.serialize_element(Serializer::new(&lua).serialize_none().unwrap()).unwrap();
    seq.serialize_element(Serializer::new(&lua).serialize_i32(3).unwrap()).unwrap();
    let t = table(seq.end().unwrap());
    assert_eq!(count(&t), 2);
    assert_eq!(t.get::<_, Value>(1).unwrap(), Value::Integer(1));
    assert_eq!(t.get::<_, Value>(2).unwrap(), Value::Nil);
    assert_eq!(t.get::<_, Value>(3).unwrap(), Value::Integer(3));
}

#[test]
fn tuple_and_tuple_struct_are_sequences() {
    let lua = Lua::new();
    let mut tuple = Serializer::new(&lua).serialize_tuple(2).unwrap();
    tuple.serialize_element(Serializer::new(&lua).serialize_bool(true).unwrap()).unwrap();
    tuple.serialize_element(Serializer::new(&lua).serialize_str("b").unwrap()).unwrap();
    let t = table(tuple.end().unwrap());
    assert_eq!(t.get::<_, Value>(1).unwrap(), Value::Boolean(true));
    assert_eq!(text(&t.get::<_, Value>(2).unwrap()), "b");

    let mut pair = Serializer::new(&lua).serialize_tuple_struct("Pair", 2).unwrap();
    pair.serialize_field(Serializer::new(&lua).serialize_u8(1).unwrap()).unwrap();
    pair.serialize_field(Serializer::new(&lua).serialize_u8(2).unwrap()).unwrap();
    let t = table(pair.end().unwrap());
    assert_eq!(count(&t), 2);
    assert_eq!(t.get::<_, Value>(1).unwrap(), Value::Integer(1));
    assert_eq!(t.get::<_, Value>(2).unwrap(), Value::Integer(2));
}

#[test]
fn tuple_variant_is_a_sequence_under_its_name() {
    let lua = Lua::new();
    let mut fields = Serializer::new(&lua).serialize_tuple_variant("Shape", 0, "Rect", 2).unwrap();
    fields.serialize_field(Serializer::new(&lua).serialize_i32(4).unwrap()).unwrap();
    fields.serialize_field(Serializer::new(&lua).serialize_i32(5).unwrap()).unwrap();
    let outer = table(fields.end().unwrap());
    assert_eq!(count(&outer), 1);
    let inner: Table = outer.get("Rect").unwrap();
    assert_eq!(count(&inner), 2);
    assert_eq!(inner.get::<_, Value>(1).unwrap(), Value::Integer(4));
    assert_eq!(inner.get::<_, Value>(2).unwrap(), Value::Integer(5));
}

#[test]
fn map_holds_each_value_under_its_key() {
    let lua = Lua::new();
    let mut map = Serializer::new(&lua).serialize_map(None).unwrap();
    map.serialize_key(Serializer::new(&lua).serialize_str("a").unwrap()).unwrap();
    map.serialize_value(Serializer::new(&lua).serialize_i32(1).unwrap()).unwrap();
    map.serialize_entry(
        Serializer::new(&lua).serialize_i32(7).unwrap(),
        Serializer::new(&lua).serialize_bool(true).unwrap(),
    )
    .unwrap();
    let t = table(map.end().unwrap());
    assert_eq!(count(&t), 2);
    assert_eq!(t.get::<_, Value>("a").unwrap(), Value::Integer(1));
    assert_eq!(t.get::<_, Value>(7).unwrap(), Value::Boolean(true));
}

#[test]
fn second_value_under_one_key_replaces_the_first() {
    let lua = Lua::new();
    let mut map = Serializer::new(&lua).serialize_map(None).unwrap();
    map.serialize_entry(
        Serializer::new(&lua).serialize_str("k").unwrap(),
        Serializer::new(&lua).serialize_i32(1).unwrap(),
    )
    .unwrap();
    map.serialize_entry(
        Serializer::new(&lua).serialize_str("k").unwrap(),
        Serializer::new(&lua).serialize_i32(2).unwrap(),
    )
    .unwrap();
    let t = table(map.end().unwrap());
    assert_eq!(count(&t), 1);
    assert_eq!(t.get::<_, Value>("k").unwrap(), Value::Integer(2));
}

#[test]
fn struct_holds_each_field_under_its_name() {
    let lua = Lua::new();
    let mut fields = Serializer::new(&lua).serialize_struct("Point", 2).unwrap();
    fields.serialize_field("x", Serializer::new(&lua).serialize_i32(1).unwrap()).unwrap();
    fields.serialize_field("y", Serializer::new(&lua).serialize_i32(2).unwrap()).unwrap();
    let t = table(fields.end().unwrap());
    assert_eq!(count(&t), 2);
    assert_eq!(t.get::<_, Value>("x").unwrap(), Value::Integer(1));
    assert_eq!(t.get::<_, Value>("y").unwrap(), Value::Integer(2));
}

#[test]
fn struct_field_of_nil_is_left_out() {
    let lua = Lua::new();
    let mut fields = Serializer::new(&lua).serialize_struct("Point", 2).unwrap();
    fields.serialize_field("x", Serializer::new(&lua).serialize_none().unwrap()).unwrap();
    fields.serialize_field("y", Serializer::new(&lua).serialize_i32(2).unwrap()).unwrap();
    let t = table(fields.end().unwrap());
    assert_eq!(count(&t), 1);
    assert_eq!(t.get::<_, Value>("y").unwrap(), Value::Integer(2));
}

#[test]
fn struct_variant_is_a_map_under_its_name() {
    let lua = Lua::new();
    let mut fields =
        Serializer::new(&lua).serialize_struct_variant("Shape", 1, "Circle", 1).unwrap();
    fields.serialize_field("radius", Serializer::new(&lua).serialize_i32(9).unwrap()).unwrap();
    let outer = table(fields.end().unwrap());
    assert_eq!(count(&outer), 1);
    let inner: Table = outer.get("Circle").unwrap();
    assert_eq!(count(&inner), 1);
    assert_eq!(inner.get::<_, Value>("radius").unwrap(), Value::Integer(9));
}

#[test]
fn struct_variant_with_empty_inner_sequence() {
    let lua = Lua::new();
    let values = Serializer::new(&lua).serialize_seq(Some(0)).unwrap().end().unwrap();
    let mut params = Serializer::new(&lua).serialize_struct("ComboParams", 1).unwrap();
    params.serialize_field("values", values).unwrap();
    let params = params.end().unwrap();
    let mut combo =
        Serializer::new(&lua).serialize_struct_variant("Variant", 0, "Combo", 1).unwrap();
    combo.serialize_field("params", params).unwrap();
    let outer = table(combo.end().unwrap());

    assert_eq!(count(&outer), 1);
    let combo: Table = outer.get("Combo").unwrap();
    assert_eq!(count(&combo), 1);
    let params: Table = combo.get("params").unwrap();
    assert_eq!(count(&params), 1);
    let values: Table = params.get("values").unwrap();
    assert_eq!(count(&values), 0);
}

#[test]
fn map_takes_boolean_float_and_table_keys() {
    let lua = Lua::new();
    let mut map = Serializer::new(&lua).serialize_map(None).unwrap();
    map.serialize_entry(
        Serializer::new(&lua).serialize_bool(true).unwrap(),
        Serializer::new(&lua).serialize_i32(1).unwrap(),
    )
    .unwrap();
    map.serialize_key(Value::Number(1.5)).unwrap();
    map.serialize_value(Serializer::new(&lua).serialize_i32(2).unwrap()).unwrap();
    let key = Serializer::new(&lua).serialize_seq(None).unwrap().end().unwrap();
    map.serialize_entry(key.clone(), Serializer::new(&lua).serialize_i32(3).unwrap()).unwrap();
    let t = table(map.end().unwrap());
    assert_eq!(count(&t), 3);
    assert_eq!(t.get::<_, Value>(true).unwrap(), Value::Integer(1));
    assert_eq!(t.get::<_, Value>(1.5).unwrap(), Value::Integer(2));
    assert_eq!(t.get::<_, Value>(key).unwrap(), Value::Integer(3));
}

#[test]
fn float_key_that_is_an_integer_is_filed_under_the_integer() {
    let lua = Lua::new();
    let mut map = Serializer::new(&lua).serialize_map(None).unwrap();
    map.serialize_entry(Value::Number(2.0), Serializer::new(&lua).serialize_i32(1).unwrap())
        .unwrap();
    map.serialize_entry(
        Serializer::new(&lua).serialize_i32(2).unwrap(),
        Serializer::new(&lua).serialize_i32(7).unwrap(),
    )
    .unwrap();
    let t = table(map.end().unwrap());
    assert_eq!(count(&t), 1);
    let keys: Vec<Value> = t.clone().pairs::<Value, Value>().map(|pair| pair.unwrap().0).collect();
    assert!(matches!(keys[0], Value::Integer(2)));
    assert_eq!(t.get::<_, Value>(2).unwrap(), Value::Integer(7));
}

#[test]
fn nil_key_is_reported_by_a_table_with_a_metatable() {
    // The runtime reports a nil key as an error where the store is protected,
    // as it is on a table with a metatable.
    let lua = Lua::new();
    let probe = lua.create_table().unwrap();
    probe.set_metatable(Some(lua.create_table().unwrap()));
    let found = probe.set(Value::Nil, true).unwrap_err().to_string();
    assert!(found.contains("index is nil"), "{}", found);
    let found = probe.set(Value::Number(f64::NAN), true).unwrap_err().to_string();
    assert!(found.contains("index is NaN"), "{}", found);
}

#[test]
fn builders_tell_their_next_index_and_waiting_key() {
    let lua = Lua::new();
    let mut seq = Serializer::new(&lua).serialize_seq(None).unwrap();
    assert_eq!(seq.next_index(), 1);
    seq.serialize_element(Serializer::new(&lua).serialize_none().unwrap()).unwrap();
    assert_eq!(seq.next_index(), 2);
    let mut fields = Serializer::new(&lua).serialize_tuple_variant("E", 0, "V", 1).unwrap();
    assert_eq!(fields.next_index(), 1);
    fields.serialize_field(Serializer::new(&lua).serialize_i32(1).unwrap()).unwrap();
    assert_eq!(fields.next_index(), 2);
    let mut map = Serializer::new(&lua).serialize_map(None).unwrap();
    assert!(!map.key_waits());
    map.serialize_key(Serializer::new(&lua).serialize_i32(1).unwrap()).unwrap();
    assert!(map.key_waits());
    map.serialize_value(Serializer::new(&lua).serialize_i32(2).unwrap()).unwrap();
    assert!(!map.key_waits());
}
