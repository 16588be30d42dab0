use test_server_module::text::{signed_to_string, unsigned_to_string};
use test_server_module::{ScheduleAt, TestEnum, TestType};

#[test]
fn decimal_rendering_of_unsigned_values() {
    assert_eq!(unsigned_to_string(0), "0");
    assert_eq!(unsigned_to_string(7), "7");
    assert_eq!(unsigned_to_string(10), "10");
    assert_eq!(unsigned_to_string(255), "255");
    assert_eq!(unsigned_to_string(u64::MAX), "18446744073709551615");
}

#[test]
fn decimal_rendering_of_signed_values() {
    assert_eq!(signed_to_string(0), "0");
    assert_eq!(signed_to_string(-1), "-1");
    assert_eq!(signed_to_string(-32768), "-32768");
    assert_eq!(signed_to_string(32767), "32767");
    assert_eq!(signed_to_string(i64::MIN), "-9223372036854775808");
}

#[test]
fn interval_schedule_keeps_its_microseconds() {
    assert_eq!(ScheduleAt::every_micros(1_000_000), ScheduleAt::Interval { micros: 1_000_000 });
    assert_eq!(ScheduleAt::every_micros(-5), ScheduleAt::Interval { micros: -5 });
}

#[test]
fn enum_default_and_indices() {
    assert_eq!(TestEnum::default(), TestEnum::A);
    assert_eq!(TestEnum::A.variant_index(), 0);
    assert_eq!(TestEnum::B.variant_index(), 1);
    assert_eq!(TestEnum::from_index(1), Some(TestEnum::B));
    assert_eq!(TestEnum::from_index(2), None);
}

#[test]
fn struct_default_and_example() {
    let d = TestType::default();
    assert_eq!(d.test_name, "");
    assert_eq!(d.test_int, 0);
    let e = TestType::example();
    assert_eq!(e.test_name, "test_name");
    assert_eq!(e.test_int, 1);
    assert!(e.same(&e.duplicate()));
    assert!(!e.same(&d));
}
