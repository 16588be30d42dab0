//! The composite value types that columns and parameters are made of.

use vstd::prelude::*;

verus! {

/// A closed tagged union with two ordered variants; `A` is the declared default.
#[derive(Debug, Clone, Copy, PartialEq, Eq, Structural)]
pub enum TestEnum {
    A,
    B,
}

impl TestEnum {
    /// Position of the variant in declaration order.
    pub open spec fn tag(self) -> u8 {
        match self {
            TestEnum::A => 0u8,
            TestEnum::B => 1u8,
        }
    }

    /// Position of the variant in declaration order.
    pub fn variant_index(&self) -> (r: u8)
        ensures
            r == self.tag(),
    {
        match self {
            TestEnum::A => 0u8,
            TestEnum::B => 1u8,
        }
    }

    /// The variant at a position, if there is one.
    pub fn from_index(index: u8) -> (r: Option<TestEnum>)
        ensures
            match r {
                Some(e) => e.tag() == index,
                None => index >= 2,
            },
    {
        if index == 0 {
            Some(TestEnum::A)
        } else if index == 1 {
            Some(TestEnum::B)
        } else {
            None
        }
    }
}

impl Default for TestEnum {
    fn default() -> (r: Self)
        ensures
            r == TestEnum::A,
    {
        TestEnum::A
    }
}

impl View for TestEnum {
    type V = TestEnum;

    open spec fn view(&self) -> TestEnum {
        *self
    }
}

impl DeepView for TestEnum {
    type V = TestEnum;

    open spec fn deep_view(&self) -> TestEnum {
        *self
    }
}

/// A struct value: a name and a number.
#[derive(Debug, Clone, PartialEq, Eq)]
pub struct TestType {
    pub test_name: String,
    pub test_int: u64,
}

/// What a `TestType` holds, as mathematical values.
pub struct TestTypeModel {
    pub test_name: Seq<char>,
    pub test_int: u64,
}

impl View for TestType {
    type V = TestTypeModel;

    open spec fn view(&self) -> TestTypeModel {
        TestTypeModel { test_name: self.test_name@, test_int: self.test_int }
    }
}

impl DeepView for TestType {
    type V = TestTypeModel;

    open spec fn deep_view(&self) -> TestTypeModel {
        self@
    }
}

impl TestType {
    /// The example instance that default rows carry: the name `test_name`
    /// and the number 1.
    pub open spec fn example_model() -> TestTypeModel {
        TestTypeModel { test_name: "test_name"@, test_int: 1 }
    }

    /// Builds the example instance that default rows carry.
    pub fn example() -> (r: TestType)
        ensures
            r@ == Self::example_model(),
    {
        TestType { test_name: "test_name".to_owned(), test_int: 1 }
    }

    /// A copy that holds the same values.
    pub fn duplicate(&self) -> (r: TestType)
        ensures
            r@ == self@,
    {
        TestType { test_name: self.test_name.clone(), test_int: self.test_int }
    }

    /// Structural equality: both fields hold the same values.
    pub fn same(&self, other: &TestType) -> (b: bool)
        ensures
            b == (self@ == other@),
    {
        self.test_name == other.test_name && self.test_int == other.test_int
    }
}

impl Default for TestType {
    fn default() -> (r: Self)
        ensures
            r@ == (TestTypeModel { test_name: Seq::<char>::empty(), test_int: 0 }),
    {
        TestType { test_name: String::new(), test_int: 0 }
    }
}

/// When a scheduled row is due: after a repeating interval, or at a fixed time.
/// Both are counted in microseconds; a time is counted from the Unix epoch.
#[derive(Debug, Clone, Copy, PartialEq, Eq, Structural)]
pub enum ScheduleAt {
    Interval { micros: i64 },
    Time { micros_since_unix_epoch: i64 },
}

impl View for ScheduleAt {
    type V = ScheduleAt;

    open spec fn view(&self) -> ScheduleAt {
        *self
    }
}

impl DeepView for ScheduleAt {
    type V = ScheduleAt;

    open spec fn deep_view(&self) -> ScheduleAt {
        *self
    }
}

/// Calls `spacetimedb::TimeDuration::from_micros` and converts the duration
/// with `spacetimedb::ScheduleAt::from`. The contract claims that the outcome
/// is the repeating-interval variant and that it carries the same number of
/// microseconds that went in.
#[verifier::external_body]
pub(crate) fn interval_from_micros(micros: i64) -> (r: ScheduleAt)
    ensures
        r == (ScheduleAt::Interval { micros }),
{
    match spacetimedb::ScheduleAt::from(spacetimedb::TimeDuration::from_micros(micros)) {
        spacetimedb::ScheduleAt::Interval(d) => ScheduleAt::Interval { micros: d.to_micros() },
        spacetimedb::ScheduleAt::Time(t) => ScheduleAt::Time {
            micros_since_unix_epoch: t.to_micros_since_unix_epoch(),
        },
    }
}

impl ScheduleAt {
    /// A repeating schedule with the given period in microseconds.
    pub fn every_micros(micros: i64) -> (r: ScheduleAt)
        ensures
            r == (ScheduleAt::Interval { micros }),
    {
        interval_from_micros(micros)
    }
}

} // verus!
