use matter_ble::tlv::convert::{ConversionError, FloatBits};
use matter_ble::tlv::value::{ContainerType, Value};

#[test]
fn convert_integer_conversion() {
    assert_eq!(Value::Signed(1).try_into(), Ok(1u8));
    assert_eq!(Value::Signed(10).try_into(), Ok(10u8));
    assert_eq!(Value::Signed(1).try_into(), Ok(1u32));
    assert_eq!(Value::Signed(2).try_into(), Ok(2u64));

    assert_eq!(Value::Signed(-2).try_into(), Ok(-2i8));
    assert_eq!(Value::Signed(-3).try_into(), Ok(-3i16));
    assert_eq!(Value::Signed(-20).try_into(), Ok(-20i32));
    assert_eq!(Value::Signed(-40).try_into(), Ok(-40i64));

    assert_eq!(Value::Unsigned(1).try_into(), Ok(1u8));
    assert_eq!(Value::Unsigned(10).try_into(), Ok(10u8));
    assert_eq!(Value::Unsigned(1).try_into(), Ok(1u32));
    assert_eq!(Value::Unsigned(2).try_into(), Ok(2u64));

    assert_eq!(Value::Unsigned(1).try_into(), Ok(1i8));
    assert_eq!(Value::Unsigned(10).try_into(), Ok(10i8));
    assert_eq!(Value::Unsigned(1).try_into(), Ok(1i32));
    assert_eq!(Value::Unsigned(2).try_into(), Ok(2i64));

    // Validate that ranges are taken into account
    assert!(TryInto::<u8>::try_into(Value::Unsigned(0x1FF)).is_err());
    assert_eq!(TryInto::<u16>::try_into(Value::Unsigned(0x1FF)), Ok(0x1FF));

    assert!(TryInto::<u64>::try_into(Value::Signed(-1)).is_err());
    assert_eq!(TryInto::<i8>::try_into(Value::Signed(-1)), Ok(-1));

    // other types should fail
    assert!(TryInto::<u8>::try_into(Value::Bool(false)).is_err());
    assert!(TryInto::<u8>::try_into(Value::Float(0f32.to_bits())).is_err());
    assert!(TryInto::<u8>::try_into(Value::Null).is_err());
    assert!(TryInto::<u8>::try_into(Value::ContainerEnd).is_err());
    assert!(TryInto::<u8>::try_into(Value::ContainerStart(ContainerType::Structure)).is_err());

    assert_eq!(TryInto::<Option<u8>>::try_into(Value::Null), Ok(None));
    assert_eq!(TryInto::<Option<i32>>::try_into(Value::Null), Ok(None));
}

#[test]
fn bool_conversion() {
    assert_eq!(Value::Bool(true).try_into(), Ok(true));
    assert_eq!(Value::Bool(false).try_into(), Ok(false));

    assert!(TryInto::<bool>::try_into(Value::Null).is_err());
    assert!(TryInto::<bool>::try_into(Value::Float(123f32.to_bits())).is_err());
    assert!(TryInto::<bool>::try_into(Value::Double(321f64.to_bits())).is_err());
}

#[test]
fn float_conversion() {
    assert_eq!(
        Value::Float(1.25f32.to_bits()).float_bits(),
        Ok(FloatBits::Single(1.25f32.to_bits()))
    );
    assert_eq!(
        Value::Double(4.5f64.to_bits()).float_bits(),
        Ok(FloatBits::Double(4.5f64.to_bits()))
    );

    assert_eq!(Value::Null.float_bits(), Err(ConversionError::InvalidType));
    assert_eq!(
        Value::ContainerStart(ContainerType::Array).float_bits(),
        Err(ConversionError::InvalidType)
    );
    assert_eq!(
        Value::Bool(false).float_bits(),
        Err(ConversionError::InvalidType)
    );
}

#[test]
fn convert_bytes_conversion() {
    assert_eq!(
        Value::Bytes(&[97, 98, 99]).try_into(),
        Ok([97, 98, 99].as_slice())
    );

    assert_eq!(
        Value::Utf8(&[97, 98, 99]).try_into(),
        Ok([97, 98, 99].as_slice())
    );

    assert_eq!(
        Value::Utf8(&[0xE2, 0x9D, 0xA4, 0x20, 0xF0, 0x9F, 0xA6, 0x80]).try_into(),
        Ok("\u{2764} \u{1F980}")
    );
}

#[test]
fn optional_support() {
    let value: Result<Option<u8>, ConversionError> = Value::Null.try_into();
    assert_eq!(value, Ok(None));

    let value: Result<Option<String>, ConversionError> = Value::Null.try_into();
    assert_eq!(value, Ok(None));

    let value: Result<Option<&[u8]>, ConversionError> = Value::Null.try_into();
    assert_eq!(value, Ok(None));

    let value: Option<u32> = None;
    let value: Value = value.into();
    assert_eq!(value, Value::Null);

    let value: Option<&str> = None;
    let value: Value = value.into();
    assert_eq!(value, Value::Null);
}

#[test]
fn convert_std_string_conversion() {
    assert_eq!(
        Value::Utf8(&[97, 98, 99]).try_into(),
        Ok(String::from("abc"))
    );

    assert_eq!(
        Value::Utf8(&[0xF0, 0x9F, 0xA6, 0x80]).try_into(),
        Ok(String::from("\u{1F980}"))
    );
}

#[test]
fn convert_vec_conversion() {
    assert_eq!(Value::Utf8(&[97, 98, 99]).try_into(), Ok(vec![97, 98, 99]));

    assert_eq!(
        Value::Utf8(&[0, 0xFF, 0x80, 0xFF, 0xFF]).try_into(),
        Ok(vec![0, 0xFF, 0x80, 0xFF, 0xFF])
    );
}

#[test]
fn integers_convert_exactly_when_they_fit() {
    let numbers: [i128; 19] = [
        i64::MIN as i128,
        i32::MIN as i128 - 1,
        i32::MIN as i128,
        i16::MIN as i128 - 1,
        i16::MIN as i128,
        -129,
        -128,
        -1,
        0,
        127,
        128,
        255,
        256,
        i16::MAX as i128,
        u16::MAX as i128,
        u32::MAX as i128,
        u32::MAX as i128 + 1,
        i64::MAX as i128,
        u64::MAX as i128,
    ];
    for n in numbers {
        let mut values = Vec::new();
        if let Ok(signed) = i64::try_from(n) {
            values.push(Value::Signed(signed));
        }
        if let Ok(unsigned) = u64::try_from(n) {
            values.push(Value::Unsigned(unsigned));
        }
        for value in values {
            assert_eq!(u8::try_from(value).ok(), u8::try_from(n).ok());
            assert_eq!(u16::try_from(value).ok(), u16::try_from(n).ok());
            assert_eq!(u32::try_from(value).ok(), u32::try_from(n).ok());
            assert_eq!(u64::try_from(value).ok(), u64::try_from(n).ok());
            assert_eq!(i8::try_from(value).ok(), i8::try_from(n).ok());
            assert_eq!(i16::try_from(value).ok(), i16::try_from(n).ok());
            assert_eq!(i32::try_from(value).ok(), i32::try_from(n).ok());
            assert_eq!(i64::try_from(value).ok(), i64::try_from(n).ok());
            if u8::try_from(n).is_err() {
                assert_eq!(u8::try_from(value), Err(ConversionError::ConversionFailed));
            }
            assert_eq!(
                <Option<i16>>::try_from(value).ok(),
                i16::try_from(n).ok().map(Some)
            );
        }
    }
}

#[test]
fn conversion_errors() {
    assert_eq!(
        u8::try_from(Value::Unsigned(256)),
        Err(ConversionError::ConversionFailed)
    );
    assert_eq!(
        u8::try_from(Value::Bool(true)),
        Err(ConversionError::InvalidType)
    );
    assert_eq!(
        <&str>::try_from(Value::Utf8(&[0xFF, 0xFE])),
        Err(ConversionError::InvalidUtf8)
    );
    assert_eq!(
        <&str>::try_from(Value::Utf8(&[0xE2, 0x9D])),
        Err(ConversionError::InvalidUtf8)
    );
    assert_eq!(
        <&str>::try_from(Value::Bytes(&[97])),
        Err(ConversionError::InvalidType)
    );
    assert_eq!(
        String::try_from(Value::Bytes(&[97])),
        Err(ConversionError::InvalidType)
    );
    assert_eq!(
        String::try_from(Value::Utf8(&[0xC0, 0x80])),
        Err(ConversionError::InvalidUtf8)
    );
    assert_eq!(
        <Vec<u8>>::try_from(Value::Null),
        Err(ConversionError::InvalidType)
    );
    assert_eq!(
        <&[u8]>::try_from(Value::Signed(1)),
        Err(ConversionError::InvalidType)
    );
    assert_eq!(
        <Option<Vec<u8>>>::try_from(Value::Bytes(&[1, 2])),
        Ok(Some(vec![1, 2]))
    );
    assert_eq!(
        <Option<String>>::try_from(Value::Utf8(&[97])),
        Ok(Some(String::from("a")))
    );
    assert_eq!(
        <Option<u8>>::try_from(Value::Unsigned(300)),
        Err(ConversionError::ConversionFailed)
    );
    assert_eq!(<Option<u8>>::try_from(Value::Unsigned(30)), Ok(Some(30)));
}

#[test]
fn values_from_host_types() {
    assert_eq!(Value::from(-5i8), Value::Signed(-5));
    assert_eq!(Value::from(-5i16), Value::Signed(-5));
    assert_eq!(Value::from(-5i32), Value::Signed(-5));
    assert_eq!(Value::from(i64::MIN), Value::Signed(i64::MIN));
    assert_eq!(Value::from(5u8), Value::Unsigned(5));
    assert_eq!(Value::from(5u16), Value::Unsigned(5));
    assert_eq!(Value::from(5u32), Value::Unsigned(5));
    assert_eq!(Value::from(u64::MAX), Value::Unsigned(u64::MAX));
    assert_eq!(Value::from(true), Value::Bool(true));
    assert_eq!(Value::from(Some(7u16)), Value::Unsigned(7));
    assert_eq!(Value::from(Some(-7i32)), Value::Signed(-7));

    let value: Value = "\u{1F602}".into();
    assert_eq!(value, Value::Utf8(&[240, 159, 152, 130]));

    let value: Value = [1, 2, 3].as_slice().into();
    assert_eq!(value, Value::Bytes(&[1, 2, 3]));

    let data = String::from("ABC");
    let value: Value = (&data).into();
    assert_eq!(value, Value::Utf8(&[65, 66, 67]));

    let data = vec![1u8, 2u8, 3u8];
    let value: Value = (&data).into();
    assert_eq!(value, Value::Bytes(&[1, 2, 3]));

    let value: Value = Some("AB").into();
    assert_eq!(value, Value::Utf8(&[65, 66]));
    let value: Value = Some(&data).into();
    assert_eq!(value, Value::Bytes(&[1, 2, 3]));
    let none: Option<&Vec<u8>> = None;
    assert_eq!(Value::from(none), Value::Null);
    assert!(Value::Null.is_null());
    assert!(!Value::Bool(false).is_null());
}
