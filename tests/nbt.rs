use domo_arigato::error::ProtocolError;
use domo_arigato::nbt::{Nbt, Tag, Value};

fn test_bidir(bytes: &[u8], nbt: Nbt) {
    let (dec_output, end) = Nbt::decode(bytes, 0).unwrap();
    assert_eq!(end, bytes.len());
    assert_eq!(nbt, dec_output);

    let enc_output = nbt.encode().unwrap();
    let (rt_output, rt_end) = Nbt::decode(enc_output.as_slice(), 0).unwrap();
    assert_eq!(rt_end, enc_output.len());
    assert_eq!(nbt, rt_output);
}

fn entry(name: &str, value: Value) -> (Vec<u8>, Value) {
    (name.as_bytes().to_vec(), value)
}

fn hello_world_bytes() -> Vec<u8> {
    let mut b = vec![0x0a, 0x00, 0x0b];
    b.extend_from_slice(b"hello world");
    b.extend_from_slice(&[0x08, 0x00, 0x04]);
    b.extend_from_slice(b"name");
    b.extend_from_slice(&[0x00, 0x09]);
    b.extend_from_slice(b"Bananrama");
    b.push(0x00);
    b
}

#[test]
fn test_nbt() {
    test_bidir(
        hello_world_bytes().as_slice(),
        Nbt::new(
            "hello world",
            Value::Compound(vec![entry("name", Value::string("Bananrama"))]),
        ),
    );
}

fn compound_tag(name: &str, value: f32) -> Value {
    Value::Compound(vec![
        entry("name", Value::string(name)),
        entry("value", Value::Float(value.to_bits())),
    ])
}

fn created(name: &str) -> Value {
    Value::Compound(vec![
        entry("created-on", Value::Long(1264099775885)),
        entry("name", Value::string(name)),
    ])
}

#[test]
fn bigtest_nbt() {
    let bytes: Vec<i8> = (0..1000i64).map(|n| ((n * n * 255 + n * 7) % 100) as i8).collect();
    assert_eq!(&bytes[..6], &[0, 62, 34, 16, 8, 10]);
    let nbt = Nbt::new(
        "Level",
        Value::Compound(vec![
            entry(
                "nested compound test",
                Value::Compound(vec![
                    entry("egg", compound_tag("Eggbert", 0.5)),
                    entry("ham", compound_tag("Hampus", 0.75)),
                ]),
            ),
            entry("intTest", Value::Int(2147483647)),
            entry("byteTest", Value::Byte(127)),
            entry(
                "stringTest",
                Value::string("HELLO WORLD THIS IS A TEST STRING ÅÄÖ!"),
            ),
            entry(
                "listTest (long)",
                Value::List(vec![
                    Value::Long(11),
                    Value::Long(12),
                    Value::Long(13),
                    Value::Long(14),
                    Value::Long(15),
                ]),
            ),
            entry("doubleTest", Value::Double(0.49312871321823148f64.to_bits())),
            entry("floatTest", Value::Float(0.49823147058486938f32.to_bits())),
            entry("longTest", Value::Long(9223372036854775807)),
            entry(
                "listTest (compound)",
                Value::List(vec![created("Compound tag #0"), created("Compound tag #1")]),
            ),
            entry(
                "byteArrayTest (the first 1000 values of (n*n*255+n*7)%100, starting with n=0 (0, 62, 34, 16, 8, ...))",
                Value::ByteArray(bytes),
            ),
            entry("shortTest", Value::Short(32767)),
        ]),
    );
    let encoded = nbt.encode().unwrap();
    test_bidir(encoded.as_slice(), nbt);
}

#[test]
fn nbt_strings_use_java_cesu8() {
    let v = Value::string("a\u{1F600}\0");
    match &v {
        Value::String(b) => {
            assert_eq!(b.len(), 1 + 6 + 2);
            assert_eq!(&b[7..], &[0xc0, 0x80]);
        }
        _ => panic!("not a string"),
    }
    assert_eq!(v.as_string().unwrap(), "a\u{1F600}\0");
    assert_eq!(Nbt::new("\u{1F600}", Value::End).name().unwrap(), "\u{1F600}");
}

#[test]
fn nbt_list_of_mixed_tags_is_refused() {
    let nbt = Nbt::new("x", Value::List(vec![Value::Int(1), Value::Long(2)]));
    assert_eq!(nbt.encode(), Err(ProtocolError::ListTypeMismatch));
    let end_in_compound = Nbt::new("x", Value::Compound(vec![entry("e", Value::End)]));
    assert_eq!(end_in_compound.encode(), Err(ProtocolError::ListTypeMismatch));
}

#[test]
fn nbt_empty_list_is_sent_with_end_tag() {
    let nbt = Nbt::new("", Value::List(Vec::new()));
    let out = nbt.encode().unwrap();
    assert_eq!(out, vec![9, 0, 0, 0, 0, 0, 0, 0]);
    let (back, _) = Nbt::decode(out.as_slice(), 0).unwrap();
    assert_eq!(back, nbt);
}

#[test]
fn nbt_arrays_round_trip() {
    let nbt = Nbt::new(
        "arrays",
        Value::Compound(vec![
            entry("ints", Value::IntArray(vec![-1, 0, 1, i32::MAX])),
            entry("longs", Value::LongArray(vec![i64::MIN, 5])),
            entry("nested", Value::List(vec![Value::List(vec![Value::Short(-3)]), Value::List(Vec::new())])),
        ]),
    );
    let out = nbt.encode().unwrap();
    let (back, end) = Nbt::decode(out.as_slice(), 0).unwrap();
    assert_eq!(end, out.len());
    assert_eq!(back, nbt);
    assert_eq!(back.value().tag(), Tag::Compound);
}

#[test]
fn nbt_decode_errors() {
    assert_eq!(Nbt::decode(&[0x0d, 0, 0], 0).unwrap_err(), ProtocolError::UnknownId);
    assert_eq!(Nbt::decode(&[0x0a, 0, 0], 0).unwrap_err(), ProtocolError::UnexpectedEnd);
    let end_list = [0x09, 0, 0, 0, 0, 0, 0, 1];
    assert_eq!(Nbt::decode(&end_list, 0).unwrap_err(), ProtocolError::ListTypeMismatch);
    let neg = [0x07, 0, 0, 0xff, 0xff, 0xff, 0xff];
    assert_eq!(Nbt::decode(&neg, 0).unwrap_err(), ProtocolError::BadLength);
}

#[test]
fn nbt_duplicate_names_are_refused() {
    let nbt = Nbt::new("", Value::Compound(vec![entry("a", Value::Int(1)), entry("a", Value::Int(2))]));
    assert_eq!(nbt.encode(), Err(ProtocolError::ListTypeMismatch));
    let bytes = [0x0a, 0, 0, 3, 0, 1, b'a', 0, 0, 0, 1, 3, 0, 1, b'a', 0, 0, 0, 2, 0];
    assert_eq!(Nbt::decode(&bytes, 0).unwrap_err(), ProtocolError::DuplicateName);
}

#[test]
fn nbt_long_name_is_bad_length() {
    let name = "n".repeat(70000);
    assert_eq!(Nbt::new(&name, Value::Int(1)).encode(), Err(ProtocolError::BadLength));
}

#[test]
fn nbt_invalid_cesu8_is_refused() {
    // a name holding a lone continuation byte
    let bytes = [0x01, 0x00, 0x01, 0x80, 0x05];
    assert_eq!(Nbt::decode(&bytes, 0).unwrap_err(), ProtocolError::InvalidCesu8);
    let string = [0x08, 0x00, 0x00, 0x00, 0x01, 0xff];
    assert_eq!(Nbt::decode(&string, 0).unwrap_err(), ProtocolError::InvalidCesu8);
    let (name, v) = Value::entry("\u{1F600}", Value::Int(1));
    assert_eq!(name.len(), 6);
    assert_eq!(v, Value::Int(1));
}
