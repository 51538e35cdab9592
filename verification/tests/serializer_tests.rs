use netcore::serializer::{Deserialize, Deserializer, SerializationError, Serialize, Serializer};

#[test]
fn test_serialize_deserialize_i32() {
    let value: i32 = 12345;
    let mut serializer = Serializer::new();
    value.serialize(&mut serializer).expect("Failed to serialize i32");

    let data = serializer.data();
    let mut deserializer = Deserializer::new(data);
    let deserialized_value = i32::deserialize(&mut deserializer).expect("Failed to deserialize i32");

    assert_eq!(value, deserialized_value);
}

#[test]
fn test_serialize_deserialize_f64() {
    // A double travels as its 64-bit pattern, which encodes to the same
    // little-endian bytes the value itself would.
    let value: f64 = 12345.6789;
    let mut serializer = Serializer::new();
    let bits = value.to_bits() as i64;
    bits.serialize(&mut serializer).expect("Failed to serialize f64");

    let data = serializer.data();
    let mut deserializer = Deserializer::new(data);
    let raw = i64::deserialize(&mut deserializer).expect("Failed to deserialize f64");
    let deserialized_value = f64::from_bits(raw as u64);

    assert_eq!(value, deserialized_value);
}

#[test]
fn test_serialize_deserialize_bool() {
    let value: bool = true;
    let mut serializer = Serializer::new();
    value.serialize(&mut serializer).expect("Failed to serialize bool");

    let data = serializer.data();
    let mut deserializer = Deserializer::new(data);
    let deserialized_value =
        bool::deserialize(&mut deserializer).expect("Failed to deserialize bool");

    assert_eq!(value, deserialized_value);
}

#[test]
fn test_serialize_deserialize_string() {
    let value = String::from("Hello, world!");
    let mut serializer = Serializer::new();
    value.serialize(&mut serializer).expect("Failed to serialize String");

    let data = serializer.data();
    let mut deserializer = Deserializer::new(data);
    let deserialized_value =
        String::deserialize(&mut deserializer).expect("Failed to deserialize String");

    assert_eq!(value, deserialized_value);
}

#[test]
fn test_serialize_deserialize_multiple_values() {
    let i32_value: i32 = 42;
    let f64_value: f64 = 3.14159;
    let bool_value: bool = false;
    let string_value = String::from("Test");

    let mut serializer = Serializer::new();
    i32_value.serialize(&mut serializer).expect("Failed to serialize i32");
    let f64_bits = f64_value.to_bits() as i64;
    f64_bits.serialize(&mut serializer).expect("Failed to serialize f64");
    bool_value.serialize(&mut serializer).expect("Failed to serialize bool");
    string_value.serialize(&mut serializer).expect("Failed to serialize String");

    let data = serializer.data();
    let mut deserializer = Deserializer::new(data);

    let deserialized_i32 = i32::deserialize(&mut deserializer).expect("Failed to deserialize i32");
    let raw = i64::deserialize(&mut deserializer).expect("Failed to deserialize f64");
    let deserialized_f64 = f64::from_bits(raw as u64);
    let deserialized_bool =
        bool::deserialize(&mut deserializer).expect("Failed to deserialize bool");
    let deserialized_string =
        String::deserialize(&mut deserializer).expect("Failed to deserialize String");

    assert_eq!(i32_value, deserialized_i32);
    assert_eq!(f64_value, deserialized_f64);
    assert_eq!(bool_value, deserialized_bool);
    assert_eq!(string_value, deserialized_string);
}

#[test]
fn test_serialize_deserialize_empty_string() {
    let value = String::from("");
    let mut serializer = Serializer::new();
    value.serialize(&mut serializer).expect("Failed to serialize empty String");

    let data = serializer.data();
    let mut deserializer = Deserializer::new(data);
    let deserialized_value =
        String::deserialize(&mut deserializer).expect("Failed to deserialize empty String");

    assert_eq!(value, deserialized_value);
}

#[test]
fn test_i32_encoding_is_little_endian() {
    let mut serializer = Serializer::new();
    0x04030201i32.serialize(&mut serializer).unwrap();
    assert_eq!(serializer.data(), &[0x01, 0x02, 0x03, 0x04]);
}

#[test]
fn test_negative_i32_round_trip() {
    let value: i32 = -7;
    let mut serializer = Serializer::new();
    value.serialize(&mut serializer).unwrap();
    assert_eq!(serializer.data(), &[0xf9, 0xff, 0xff, 0xff]);
    let mut deserializer = Deserializer::new(serializer.data());
    assert_eq!(i32::deserialize(&mut deserializer).unwrap(), value);
}

#[test]
fn test_bool_encoding_is_one_byte() {
    let mut serializer = Serializer::new();
    true.serialize(&mut serializer).unwrap();
    false.serialize(&mut serializer).unwrap();
    assert_eq!(serializer.data(), &[1, 0]);
}

#[test]
fn test_string_encoding_has_length_prefix() {
    let mut serializer = Serializer::new();
    String::from("ab").serialize(&mut serializer).unwrap();
    assert_eq!(serializer.data(), &[2, 0, 0, 0, b'a', b'b']);
}

#[test]
fn test_read_from_empty_input_fails() {
    let data: [u8; 0] = [];
    let mut deserializer = Deserializer::new(&data);
    assert!(!deserializer.has_more());
    assert_eq!(i32::deserialize(&mut deserializer), Err(SerializationError::IoError));
    assert_eq!(i64::deserialize(&mut deserializer), Err(SerializationError::IoError));
    assert_eq!(bool::deserialize(&mut deserializer), Err(SerializationError::IoError));
    assert_eq!(String::deserialize(&mut deserializer), Err(SerializationError::IoError));
}

#[test]
fn test_truncated_string_fails_and_consumes_nothing() {
    // Length prefix says five bytes but only two follow.
    let data = [5, 0, 0, 0, b'h', b'i'];
    let mut deserializer = Deserializer::new(&data);
    assert_eq!(String::deserialize(&mut deserializer), Err(SerializationError::IoError));
    // Nothing was consumed: the prefix still reads back as an i32.
    assert_eq!(i32::deserialize(&mut deserializer).unwrap(), 5);
}

#[test]
fn test_invalid_utf8_string_fails() {
    let data = [2, 0, 0, 0, 0xff, 0xfe];
    let mut deserializer = Deserializer::new(&data);
    assert_eq!(String::deserialize(&mut deserializer), Err(SerializationError::IoError));
}

#[test]
fn test_has_more_tracks_consumption() {
    let mut serializer = Serializer::new();
    7i32.serialize(&mut serializer).unwrap();
    let mut deserializer = Deserializer::new(serializer.data());
    assert!(deserializer.has_more());
    let _ = i32::deserialize(&mut deserializer).unwrap();
    assert!(!deserializer.has_more());
}

#[test]
fn test_write_through_serializer_matches_direct_serialize() {
    let mut a = Serializer::new();
    let mut b = Serializer::new();
    a.write(&99i32).unwrap();
    99i32.serialize(&mut b).unwrap();
    assert_eq!(a.data(), b.data());

    let mut deserializer = Deserializer::new(a.data());
    let back: i32 = deserializer.read().unwrap();
    assert_eq!(back, 99);
}
