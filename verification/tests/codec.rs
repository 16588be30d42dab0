use spacetimedb::sats::bsatn;
use test_server_module::{
    decode, encode, ScheduleAt, StoreError, TestEnum, TestScheduledTable, TestTableDatatypes,
    TestType, ViewType,
};

fn example() -> TestType {
    TestType { test_name: "test_name".to_string(), test_int: 1 }
}

fn busy_row() -> TestTableDatatypes {
    TestTableDatatypes {
        t_u64: 0x0102030405060708,
        t_u8: 200,
        t_u16: 0xABCD,
        t_u32: 0xDEADBEEF,
        t_u128: u128::MAX - 5,
        t_f32: (-1.5f32).to_bits(),
        t_f64: (2.25f64).to_bits(),
        t_i8: -128,
        t_i16: -2,
        t_i32: i32::MIN,
        t_i64: -1,
        t_string: "héllo".to_string(),
        t_vec_string: vec!["a".to_string(), "".to_string(), "ßç".to_string()],
        t_vec_u8: vec![0, 255, 7],
        t_opt_string: None,
        t_opt_u64: Some(u64::MAX),
        t_test_enum: TestEnum::B,
        t_test_enum_vec: vec![TestEnum::B, TestEnum::A, TestEnum::B],
        t_test_enum_option: None,
        t_test_type: TestType { test_name: "n".to_string(), test_int: 9 },
        t_test_type_vec: vec![],
        t_test_type_option: Some(example()),
    }
}

#[test]
fn integers_are_little_endian() {
    assert_eq!(encode(&5u8), Ok(vec![5]));
    assert_eq!(encode(&0x0102u16), Ok(vec![2, 1]));
    assert_eq!(encode(&1u32), Ok(vec![1, 0, 0, 0]));
    assert_eq!(encode(&0x0102030405060708u64), Ok(vec![8, 7, 6, 5, 4, 3, 2, 1]));
    let mut wide = vec![0u8; 16];
    wide[15] = 1;
    assert_eq!(encode(&(1u128 << 120)), Ok(wide));
    assert_eq!(encode(&-1i8), Ok(vec![255]));
    assert_eq!(encode(&-2i16), Ok(vec![0xFE, 0xFF]));
    assert_eq!(encode(&i32::MIN), Ok(vec![0, 0, 0, 0x80]));
    assert_eq!(encode(&-1i64), Ok(vec![255; 8]));
    assert_eq!(decode::<i16>(&[0xFE, 0xFF]), Ok(-2));
    assert_eq!(decode::<u32>(&[1, 0, 0, 0]), Ok(1));
    assert_eq!(decode::<i8>(&[0x80]), Ok(-128));
}

#[test]
fn text_is_length_prefixed_utf8() {
    assert_eq!(encode(&"".to_string()), Ok(vec![0, 0, 0, 0]));
    assert_eq!(encode(&"hé".to_string()), Ok(vec![3, 0, 0, 0, b'h', 0xC3, 0xA9]));
    assert_eq!(decode::<String>(&[3, 0, 0, 0, b'h', 0xC3, 0xA9]), Ok("hé".to_string()));
}

#[test]
fn sequences_and_optional_values_are_framed() {
    assert_eq!(encode(&vec![7u8, 8]), Ok(vec![2, 0, 0, 0, 7, 8]));
    assert_eq!(encode(&Vec::<String>::new()), Ok(vec![0, 0, 0, 0]));
    assert_eq!(
        encode(&vec!["a".to_string(), "".to_string()]),
        Ok(vec![2, 0, 0, 0, 1, 0, 0, 0, b'a', 0, 0, 0, 0])
    );
    assert_eq!(encode(&Some(5u64)), Ok(vec![0, 5, 0, 0, 0, 0, 0, 0, 0]));
    assert_eq!(encode(&None::<u64>), Ok(vec![1]));
    assert_eq!(encode(&Some("x".to_string())), Ok(vec![0, 1, 0, 0, 0, b'x']));
    assert_eq!(decode::<Option<u64>>(&[1]), Ok(None));
    assert_eq!(decode::<Vec<u8>>(&[2, 0, 0, 0, 7, 8]), Ok(vec![7, 8]));
}

#[test]
fn enums_and_structs_are_tag_and_fields() {
    assert_eq!(encode(&TestEnum::A), Ok(vec![0]));
    assert_eq!(encode(&TestEnum::B), Ok(vec![1]));
    assert_eq!(
        encode(&TestType { test_name: "ab".to_string(), test_int: 3 }),
        Ok(vec![2, 0, 0, 0, b'a', b'b', 3, 0, 0, 0, 0, 0, 0, 0])
    );
    assert_eq!(
        encode(&ScheduleAt::Interval { micros: 1_000_000 }),
        Ok(vec![0, 0x40, 0x42, 0x0F, 0, 0, 0, 0, 0])
    );
    assert_eq!(
        encode(&ScheduleAt::Time { micros_since_unix_epoch: -1 }),
        Ok(vec![1, 255, 255, 255, 255, 255, 255, 255, 255])
    );
    assert_eq!(
        encode(&ViewType { row: 1, name: "Hello World".to_string() }),
        Ok([&[1u8, 0, 0, 0, 0, 0, 0, 0, 11, 0, 0, 0][..], b"Hello World"].concat())
    );
}

#[test]
fn field_encodings_are_those_of_the_host_format() {
    let row = busy_row();
    let mut expected: Vec<u8> = Vec::new();
    expected.extend(bsatn::to_vec(&row.t_u64).unwrap());
    expected.extend(bsatn::to_vec(&row.t_u8).unwrap());
    expected.extend(bsatn::to_vec(&row.t_u16).unwrap());
    expected.extend(bsatn::to_vec(&row.t_u32).unwrap());
    expected.extend(bsatn::to_vec(&row.t_u128).unwrap());
    expected.extend(bsatn::to_vec(&f32::from_bits(row.t_f32)).unwrap());
    expected.extend(bsatn::to_vec(&f64::from_bits(row.t_f64)).unwrap());
    expected.extend(bsatn::to_vec(&row.t_i8).unwrap());
    expected.extend(bsatn::to_vec(&row.t_i16).unwrap());
    expected.extend(bsatn::to_vec(&row.t_i32).unwrap());
    expected.extend(bsatn::to_vec(&row.t_i64).unwrap());
    expected.extend(bsatn::to_vec(&row.t_string).unwrap());
    expected.extend(bsatn::to_vec(&row.t_vec_string).unwrap());
    expected.extend(bsatn::to_vec(&row.t_vec_u8).unwrap());
    expected.extend(bsatn::to_vec(&row.t_opt_string).unwrap());
    expected.extend(bsatn::to_vec(&row.t_opt_u64).unwrap());
    expected.extend(vec![1u8]);
    expected.extend(bsatn::to_vec(&vec![1u8, 0, 1]).unwrap());
    expected.extend(bsatn::to_vec(&None::<u8>).unwrap());
    expected.extend(bsatn::to_vec(&("n".to_string(), 9u64)).unwrap());
    expected.extend(bsatn::to_vec(&Vec::<(String, u64)>::new()).unwrap());
    expected.extend(bsatn::to_vec(&Some(("test_name".to_string(), 1u64))).unwrap());
    assert_eq!(encode(&row), Ok(expected));
}

#[test]
fn schedule_encoding_is_that_of_the_host_format() {
    let interval = spacetimedb::ScheduleAt::Interval(spacetimedb::TimeDuration::from_micros(-77));
    assert_eq!(
        encode(&ScheduleAt::Interval { micros: -77 }),
        Ok(bsatn::to_vec(&interval).unwrap())
    );
    let time = spacetimedb::ScheduleAt::Time(
        spacetimedb::Timestamp::from_micros_since_unix_epoch(1_700_000_000_000_000),
    );
    assert_eq!(
        encode(&ScheduleAt::Time { micros_since_unix_epoch: 1_700_000_000_000_000 }),
        Ok(bsatn::to_vec(&time).unwrap())
    );
}

#[test]
fn rows_round_trip_through_bytes() {
    let rows = vec![busy_row(), TestTableDatatypes::default()];
    for row in rows.iter() {
        let bytes = encode(row).unwrap();
        assert_eq!(decode::<TestTableDatatypes>(&bytes), Ok(row.clone()));
    }
    let next = busy_row();
    let next = TestTableDatatypes { t_u8: 1, t_i8: 0, t_i32: 0, ..next }.advanced(1, 2).unwrap();
    assert_eq!(decode::<TestTableDatatypes>(&encode(&next).unwrap()), Ok(next));

    let timer = TestScheduledTable {
        scheduled_id: 3,
        h1: 1,
        scheduled_at: ScheduleAt::Interval { micros: 1_000_000 },
        h2: 2,
        public_count: 4,
        private_count: 5,
    };
    let bytes = encode(&timer).unwrap();
    assert_eq!(bytes.len(), 8 + 2 + 9 + 2 + 8 + 8);
    assert_eq!(decode::<TestScheduledTable>(&bytes), Ok(timer));

    let named = ViewType { row: 1, name: "Hello World".to_string() };
    assert_eq!(decode::<ViewType>(&encode(&named).unwrap()), Ok(named));
}

#[test]
fn values_round_trip_through_bytes() {
    assert_eq!(decode::<TestEnum>(&encode(&TestEnum::B).unwrap()), Ok(TestEnum::B));
    assert_eq!(decode::<TestType>(&encode(&example()).unwrap()), Ok(example()));
    let nested = vec![Some(example()), None, Some(TestType::default())];
    assert_eq!(decode::<Vec<Option<TestType>>>(&encode(&nested).unwrap()), Ok(nested));
    let enums = Some(vec![TestEnum::A, TestEnum::B]);
    assert_eq!(decode::<Option<Vec<TestEnum>>>(&encode(&enums).unwrap()), Ok(enums));
    assert_eq!(decode::<u128>(&encode(&u128::MAX).unwrap()), Ok(u128::MAX));
    assert_eq!(decode::<i64>(&encode(&i64::MIN).unwrap()), Ok(i64::MIN));
}

#[test]
fn decoded_bytes_encode_to_the_same_bytes() {
    let inputs: Vec<Vec<u8>> = vec![
        vec![2, 0, 0, 0, b'o', b'k', 9, 0, 0, 0, 0, 0, 0, 0],
        vec![0, 0, 0, 0, 0, 0, 0, 0, 0, 0, 0, 0],
    ];
    for bytes in inputs.iter() {
        let value = decode::<TestType>(bytes).unwrap();
        assert_eq!(encode(&value), Ok(bytes.clone()));
    }
    let bytes = encode(&busy_row()).unwrap();
    let value = decode::<TestTableDatatypes>(&bytes).unwrap();
    assert_eq!(encode(&value), Ok(bytes));
}

#[test]
fn decode_refuses_bytes_that_hold_no_value() {
    let good = encode(&example()).unwrap();
    let mut longer = good.clone();
    longer.push(0);
    assert_eq!(decode::<TestType>(&longer), Err(StoreError::EncodingError));
    assert_eq!(decode::<TestType>(&good[..good.len() - 1]), Err(StoreError::EncodingError));
    assert_eq!(decode::<TestType>(&[]), Err(StoreError::EncodingError));
    assert_eq!(decode::<u32>(&[1, 2, 3]), Err(StoreError::EncodingError));
    assert_eq!(decode::<TestEnum>(&[2]), Err(StoreError::EncodingError));
    assert_eq!(decode::<TestEnum>(&[]), Err(StoreError::EncodingError));
    assert_eq!(decode::<Option<u8>>(&[2, 0]), Err(StoreError::EncodingError));
    assert_eq!(decode::<Option<u8>>(&[0]), Err(StoreError::EncodingError));
    assert_eq!(decode::<ScheduleAt>(&[2, 0, 0, 0, 0, 0, 0, 0, 0]), Err(StoreError::EncodingError));
    assert_eq!(decode::<String>(&[2, 0, 0, 0, 0xC3, 0x28]), Err(StoreError::EncodingError));
    assert_eq!(decode::<String>(&[5, 0, 0, 0, b'a']), Err(StoreError::EncodingError));
    assert_eq!(decode::<Vec<u8>>(&[3, 0, 0, 0, 1, 2]), Err(StoreError::EncodingError));
    assert_eq!(
        decode::<Vec<u16>>(&[255, 255, 255, 255, 1, 2]),
        Err(StoreError::EncodingError)
    );
    let row = encode(&busy_row()).unwrap();
    assert_eq!(
        decode::<TestTableDatatypes>(&row[..row.len() - 3]),
        Err(StoreError::EncodingError)
    );
}
