use mlua::{Lua, Value};
use mlua_serde::de::{Deserializer, Visit};
use mlua_serde::ser::Serializer;

fn integer(deserializer: Deserializer) -> i64 {
    match deserializer.deserialize_any().unwrap() {
        Visit::I64(v) => v,
        _ => panic!("not an integer"),
    }
}

fn string(deserializer: Deserializer) -> String {
    match deserializer.deserialize_any().unwrap() {
        Visit::Str(v) => v,
        _ => panic!("not a string"),
    }
}

// Reads a sequence of integers to its end.
fn integers(deserializer: Deserializer) -> Vec<i64> {
    let mut seq = deserializer.deserialize_seq().unwrap();
    let mut found = Vec::new();
    while let Some(element) = seq.next_element_seed().unwrap() {
        found.push(integer(element));
    }
    seq.end().unwrap();
    found
}

// Writes `Combo { params: ComboParams { values } }`.
fn encode_combo<'lua>(lua: &'lua Lua, values: &[i64]) -> Value<'lua> {
    let mut seq = Serializer::new(lua).serialize_seq(Some(values.len())).unwrap();
    for v in values {
        seq.serialize_element(Serializer::new(lua).serialize_i64(*v).unwrap()).unwrap();
    }
    let mut params = Serializer::new(lua).serialize_struct("ComboParams", 1).unwrap();
    params.serialize_field("values", seq.end().unwrap()).unwrap();
    let mut combo = Serializer::new(lua).serialize_struct_variant("Variant", 0, "Combo", 1).unwrap();
    combo.serialize_field("params", params.end().unwrap()).unwrap();
    combo.end().unwrap()
}

// Reads `Combo { params: ComboParams { values } }` and gives the values.
fn decode_combo(value: Value) -> Vec<i64> {
    let found = Deserializer::from_value(value).deserialize_enum("Variant", &["Combo"]).unwrap();
    let (variant, payload) = found.variant_seed();
    assert_eq!(variant, "Combo");
    let mut combo = match payload.struct_variant(&["params"]).unwrap() {
        Visit::Pairs(map) => map,
        _ => panic!("not a map"),
    };
    assert_eq!(string(combo.next_key_seed().unwrap().unwrap()), "params");
    let mut params = match combo.next_value_seed().unwrap().deserialize_any().unwrap() {
        Visit::Pairs(map) => map,
        _ => panic!("not a map"),
    };
    assert_eq!(string(params.next_key_seed().unwrap().unwrap()), "values");
    let values = integers(params.next_value_seed().unwrap());
    assert!(params.next_key_seed().unwrap().is_none());
    params.end().unwrap();
    assert!(combo.next_key_seed().unwrap().is_none());
    combo.end().unwrap();
    values
}

#[test]
fn unit_variant_comes_back() {
    let lua = Lua::new();
    let value = Serializer::new(&lua).serialize_unit_variant("State", 0, "Idle").unwrap();
    let found = Deserializer::from_value(value).deserialize_enum("State", &["Idle"]).unwrap();
    let (variant, payload) = found.variant_seed();
    assert_eq!(variant, "Idle");
    payload.unit_variant().unwrap();
}

#[test]
fn struct_variant_with_empty_sequence_comes_back() {
    let lua = Lua::new();
    let value = encode_combo(&lua, &[]);
    assert_eq!(decode_combo(value), Vec::<i64>::new());
}

#[test]
fn struct_variant_with_one_element_comes_back() {
    let lua = Lua::new();
    let value = encode_combo(&lua, &[1]);
    assert_eq!(decode_combo(value), vec![1]);
}

#[test]
fn struct_variant_keeps_the_order_of_its_elements() {
    let lua = Lua::new();
    let value = encode_combo(&lua, &[3, 1, 2]);
    assert_eq!(decode_combo(value), vec![3, 1, 2]);
}

#[test]
fn sequence_comes_back_as_written() {
    let lua = Lua::new();
    let mut seq = Serializer::new(&lua).serialize_seq(None).unwrap();
    for v in [5, 6, 7, 8] {
        seq.serialize_element(Serializer::new(&lua).serialize_i64(v).unwrap()).unwrap();
    }
    assert_eq!(integers(Deserializer::from_value(seq.end().unwrap())), vec![5, 6, 7, 8]);
}

#[test]
fn sequence_comes_back_up_to_its_first_nil() {
    let lua = Lua::new();
    let mut seq = Serializer::new(&lua).serialize_seq(None).unwrap();
    seq.serialize_element(Serializer::new(&lua).serialize_i64(1).unwrap()).unwrap();
    seq.serialize_element(Serializer::new(&lua).serialize_none().unwrap()).unwrap();
    seq.serialize_element(Serializer::new(&lua).serialize_i64(3).unwrap()).unwrap();
    assert_eq!(integers(Deserializer::from_value(seq.end().unwrap())), vec![1]);
}

#[test]
fn bytes_come_back_as_integers() {
    let lua = Lua::new();
    let value = Serializer::new(&lua).serialize_bytes(&[0, 127, 255]).unwrap();
    assert_eq!(integers(Deserializer::from_value(value)), vec![0, 127, 255]);
}

#[test]
fn written_sequence_is_read_as_a_sequence_by_what_it_is() {
    let lua = Lua::new();
    let mut seq = Serializer::new(&lua).serialize_seq(None).unwrap();
    for v in 1..=20 {
        seq.serialize_element(Serializer::new(&lua).serialize_i64(v).unwrap()).unwrap();
    }
    match Deserializer::from_value(seq.end().unwrap()).deserialize_any().unwrap() {
        Visit::Sequence(mut seq) => {
            for v in 1..=20 {
                assert_eq!(integer(seq.next_element_seed().unwrap().unwrap()), v);
            }
            seq.end().unwrap();
        }
        _ => panic!("not a sequence"),
    };
}

#[test]
fn newtype_variant_comes_back() {
    let lua = Lua::new();
    let inner = Serializer::new(&lua).serialize_i64(42).unwrap();
    let value = Serializer::new(&lua).serialize_newtype_variant("E", 0, "Count", inner).unwrap();
    let found = Deserializer::from_value(value).deserialize_enum("E", &["Count"]).unwrap();
    let (variant, payload) = found.variant_seed();
    assert_eq!(variant, "Count");
    assert_eq!(integer(payload.newtype_variant_seed().unwrap()), 42);
}

#[test]
fn newtype_variant_of_nil_does_not_come_back() {
    let lua = Lua::new();
    let inner = Serializer::new(&lua).serialize_none().unwrap();
    let value = Serializer::new(&lua).serialize_newtype_variant("E", 0, "Maybe", inner).unwrap();
    let found = Deserializer::from_value(value).deserialize_enum("E", &["Maybe"]);
    match found {
        Ok(_) => panic!("no error"),
        Err(error) => assert_eq!(
            error.to_string(),
            "invalid value: map, expected map with a single key"
        ),
    };
}

#[test]
fn tuple_variant_comes_back() {
    let lua = Lua::new();
    let mut fields = Serializer::new(&lua).serialize_tuple_variant("Shape", 0, "Rect", 2).unwrap();
    fields.serialize_field(Serializer::new(&lua).serialize_i64(4).unwrap()).unwrap();
    fields.serialize_field(Serializer::new(&lua).serialize_i64(5).unwrap()).unwrap();
    let value = fields.end().unwrap();
    let found = Deserializer::from_value(value).deserialize_enum("Shape", &["Rect"]).unwrap();
    let (variant, payload) = found.variant_seed();
    assert_eq!(variant, "Rect");
    let mut seq = payload.tuple_variant(2).unwrap();
    assert_eq!(integer(seq.next_element_seed().unwrap().unwrap()), 4);
    assert_eq!(integer(seq.next_element_seed().unwrap().unwrap()), 5);
    seq.end().unwrap();
}

#[test]
fn option_of_option_collapses() {
    let lua = Lua::new();
    let none = Serializer::new(&lua).serialize_none().unwrap();
    let inner_none = Serializer::new(&lua).serialize_none().unwrap();
    let some_none = Serializer::new(&lua).serialize_some(inner_none).unwrap();
    assert_eq!(none, Value::Nil);
    assert_eq!(some_none, Value::Nil);
    // Both decode as the outer `None`: the inner option is never asked for.
    assert!(Deserializer::from_value(none).deserialize_option().is_none());
    assert!(Deserializer::from_value(some_none).deserialize_option().is_none());
}

#[test]
fn present_option_comes_back() {
    let lua = Lua::new();
    let inner = Serializer::new(&lua).serialize_i64(9).unwrap();
    let value = Serializer::new(&lua).serialize_some(inner).unwrap();
    let present = Deserializer::from_value(value).deserialize_option().unwrap();
    assert_eq!(integer(present), 9);
}

#[test]
fn struct_comes_back_with_every_field() {
    let lua = Lua::new();
    let mut fields = Serializer::new(&lua).serialize_struct("Point", 3).unwrap();
    fields.serialize_field("x", Serializer::new(&lua).serialize_i64(1).unwrap()).unwrap();
    fields.serialize_field("y", Serializer::new(&lua).serialize_i64(2).unwrap()).unwrap();
    fields.serialize_field("z", Serializer::new(&lua).serialize_i64(3).unwrap()).unwrap();
    let mut map = match Deserializer::from_value(fields.end().unwrap()).deserialize_any().unwrap() {
        Visit::Pairs(map) => map,
        _ => panic!("not a map"),
    };
    let mut found = Vec::new();
    while let Some(key) = map.next_key_seed().unwrap() {
        found.push((string(key), integer(map.next_value_seed().unwrap())));
    }
    map.end().unwrap();
    found.sort();
    assert_eq!(
        found,
        vec![("x".to_owned(), 1), ("y".to_owned(), 2), ("z".to_owned(), 3)]
    );
}

#[test]
fn map_with_integer_keys_comes_back_with_every_entry() {
    let lua = Lua::new();
    let mut map = Serializer::new(&lua).serialize_map(Some(2)).unwrap();
    for (k, v) in [(10, 100), (20, 200)] {
        map.serialize_key(Serializer::new(&lua).serialize_i64(k).unwrap()).unwrap();
        map.serialize_value(Serializer::new(&lua).serialize_i64(v).unwrap()).unwrap();
    }
    let mut map = match Deserializer::from_value(map.end().unwrap()).deserialize_any().unwrap() {
        Visit::Pairs(map) => map,
        _ => panic!("not a map"),
    };
    let mut found = Vec::new();
    while let Some(key) = map.next_key_seed().unwrap() {
        found.push((integer(key), integer(map.next_value_seed().unwrap())));
    }
    map.end().unwrap();
    found.sort();
    assert_eq!(found, vec![(10, 100), (20, 200)]);
}

#[test]
fn struct_field_of_nil_does_not_come_back() {
    let lua = Lua::new();
    let mut fields = Serializer::new(&lua).serialize_struct("Point", 2).unwrap();
    fields.serialize_field("x", Serializer::new(&lua).serialize_none().unwrap()).unwrap();
    fields.serialize_field("y", Serializer::new(&lua).serialize_i64(2).unwrap()).unwrap();
    let mut map = match Deserializer::from_value(fields.end().unwrap()).deserialize_any().unwrap() {
        Visit::Pairs(map) => map,
        _ => panic!("not a map"),
    };
    assert_eq!(string(map.next_key_seed().unwrap().unwrap()), "y");
    assert_eq!(integer(map.next_value_seed().unwrap()), 2);
    assert!(map.next_key_seed().unwrap().is_none());
    map.end().unwrap();
}
