//! The row of the table that carries one column of every supported type.

use vstd::prelude::*;
use crate::error::StoreError;
use crate::fields::{
    copy_bytes, copy_enums, copy_opt_string, copy_opt_type, copy_strings, copy_types, same_bytes,
    same_enums, same_opt_enum, same_opt_string, same_opt_type, same_opt_u64, same_strings,
    same_types,
};
use crate::row::Row;
use crate::text::{decimal_digits, decimal_text, signed_to_string, unsigned_to_string};
use crate::value::{TestEnum, TestType, TestTypeModel};

verus! {

/// A row with one column of every supported type. `t_u64` is the
/// auto-increment primary key and `t_u32` carries the secondary index. The
/// two floating-point columns hold the bit patterns of their values.
#[derive(Debug, Clone, PartialEq, Eq)]
pub struct TestTableDatatypes {
    pub t_u64: u64,
    pub t_u8: u8,
    pub t_u16: u16,
    pub t_u32: u32,
    pub t_u128: u128,
    pub t_f32: u32,
    pub t_f64: u64,
    pub t_i8: i8,
    pub t_i16: i16,
    pub t_i32: i32,
    pub t_i64: i64,
    pub t_string: String,
    pub t_vec_string: Vec<String>,
    pub t_vec_u8: Vec<u8>,
    pub t_opt_string: Option<String>,
    pub t_opt_u64: Option<u64>,
    pub t_test_enum: TestEnum,
    pub t_test_enum_vec: Vec<TestEnum>,
    pub t_test_enum_option: Option<TestEnum>,
    pub t_test_type: TestType,
    pub t_test_type_vec: Vec<TestType>,
    pub t_test_type_option: Option<TestType>,
}

/// What a `TestTableDatatypes` row holds, as mathematical values.
pub struct DatatypesModel {
    pub t_u64: u64,
    pub t_u8: u8,
    pub t_u16: u16,
    pub t_u32: u32,
    pub t_u128: u128,
    pub t_f32: u32,
    pub t_f64: u64,
    pub t_i8: i8,
    pub t_i16: i16,
    pub t_i32: i32,
    pub t_i64: i64,
    pub t_string: Seq<char>,
    pub t_vec_string: Seq<Seq<char>>,
    pub t_vec_u8: Seq<u8>,
    pub t_opt_string: Option<Seq<char>>,
    pub t_opt_u64: Option<u64>,
    pub t_test_enum: TestEnum,
    pub t_test_enum_vec: Seq<TestEnum>,
    pub t_test_enum_option: Option<TestEnum>,
    pub t_test_type: TestTypeModel,
    pub t_test_type_vec: Seq<TestTypeModel>,
    pub t_test_type_option: Option<TestTypeModel>,
}

impl View for TestTableDatatypes {
    type V = DatatypesModel;

    open spec fn view(&self) -> DatatypesModel {
        DatatypesModel {
            t_u64: self.t_u64,
            t_u8: self.t_u8,
            t_u16: self.t_u16,
            t_u32: self.t_u32,
            t_u128: self.t_u128,
            t_f32: self.t_f32,
            t_f64: self.t_f64,
            t_i8: self.t_i8,
            t_i16: self.t_i16,
            t_i32: self.t_i32,
            t_i64: self.t_i64,
            t_string: self.t_string@,
            t_vec_string: self.t_vec_string.deep_view(),
            t_vec_u8: self.t_vec_u8.deep_view(),
            t_opt_string: self.t_opt_string.deep_view(),
            t_opt_u64: self.t_opt_u64.deep_view(),
            t_test_enum: self.t_test_enum,
            t_test_enum_vec: self.t_test_enum_vec.deep_view(),
            t_test_enum_option: self.t_test_enum_option.deep_view(),
            t_test_type: self.t_test_type@,
            t_test_type_vec: self.t_test_type_vec.deep_view(),
            t_test_type_option: self.t_test_type_option.deep_view(),
        }
    }
}

impl DeepView for TestTableDatatypes {
    type V = DatatypesModel;

    open spec fn deep_view(&self) -> DatatypesModel {
        self@
    }
}

impl TestTableDatatypes {
    /// The declared default row. It is not all-zero: every sequence holds one
    /// element, every optional value is present, and the struct columns carry
    /// the example instance.
    pub open spec fn default_model() -> DatatypesModel {
        DatatypesModel {
            t_u64: 0,
            t_u8: 0,
            t_u16: 0,
            t_u32: 0,
            t_u128: 0,
            t_f32: 0,
            t_f64: 0,
            t_i8: 0,
            t_i16: 0,
            t_i32: 0,
            t_i64: 0,
            t_string: Seq::empty(),
            t_vec_string: seq![Seq::<char>::empty()],
            t_vec_u8: seq![0u8],
            t_opt_string: Some(Seq::empty()),
            t_opt_u64: Some(0),
            t_test_enum: TestEnum::A,
            t_test_enum_vec: seq![TestEnum::A],
            t_test_enum_option: Some(TestEnum::A),
            t_test_type: TestType::example_model(),
            t_test_type_vec: seq![TestType::example_model()],
            t_test_type_option: Some(TestType::example_model()),
        }
    }

    /// Whether every counting column can take one more step: the unsigned
    /// ones up, the signed ones down.
    pub open spec fn can_advance(v: DatatypesModel) -> bool {
        &&& v.t_u8 < u8::MAX
        &&& v.t_u16 < u16::MAX
        &&& v.t_u32 < u32::MAX
        &&& v.t_u128 < u128::MAX
        &&& v.t_i8 > i8::MIN
        &&& v.t_i16 > i16::MIN
        &&& v.t_i32 > i32::MIN
        &&& v.t_i64 > i64::MIN
    }

    /// The row that one firing of the scheduled routine puts in place of `v`.
    /// The unsigned columns rise by one and the signed ones fall by one, the
    /// floating-point columns take the bit patterns given, the text columns
    /// render the old `t_u8` and `t_i16`, the optional columns flip between
    /// present and absent, and the enum and struct columns are reset.
    pub open spec fn advanced_model(v: DatatypesModel, t_f32: u32, t_f64: u64) -> DatatypesModel {
        DatatypesModel {
            t_u64: v.t_u64,
            t_u8: (v.t_u8 + 1) as u8,
            t_u16: (v.t_u16 + 1) as u16,
            t_u32: (v.t_u32 + 1) as u32,
            t_u128: (v.t_u128 + 1) as u128,
            t_f32,
            t_f64,
            t_i8: (v.t_i8 - 1) as i8,
            t_i16: (v.t_i16 - 1) as i16,
            t_i32: (v.t_i32 - 1) as i32,
            t_i64: (v.t_i64 - 1) as i64,
            t_string: decimal_digits(v.t_u8 as nat),
            t_vec_string: seq![decimal_digits(v.t_u8 as nat), decimal_text(v.t_i16 as int)],
            t_vec_u8: seq![v.t_u8, v.t_u8],
            t_opt_string: if v.t_opt_string is Some {
                None
            } else {
                Some("Some"@)
            },
            t_opt_u64: if v.t_opt_u64 is Some {
                None
            } else {
                Some(v.t_u64)
            },
            t_test_enum: TestEnum::A,
            t_test_enum_vec: seq![TestEnum::A, TestEnum::B],
            t_test_enum_option: Some(TestEnum::A),
            t_test_type: TestType::example_model(),
            t_test_type_vec: seq![TestType::example_model(), TestType::example_model()],
            t_test_type_option: Some(TestType::example_model()),
        }
    }

    /// The row that one firing puts in place of this one, given the new bit
    /// patterns of the two floating-point columns.
    pub fn advanced(&self, t_f32: u32, t_f64: u64) -> (r: Result<TestTableDatatypes, StoreError>)
        ensures
            match r {
                Ok(row) => Self::can_advance(self@) && row@ == Self::advanced_model(
                    self@,
                    t_f32,
                    t_f64,
                ),
                Err(e) => !Self::can_advance(self@) && e == StoreError::Overflow,
            },
    {
        if self.t_u8 == u8::MAX || self.t_u16 == u16::MAX || self.t_u32 == u32::MAX || self.t_u128
            == u128::MAX || self.t_i8 == i8::MIN || self.t_i16 == i16::MIN || self.t_i32
            == i32::MIN || self.t_i64 == i64::MIN {
            return Err(StoreError::Overflow);
        }
        let t_vec_string: Vec<String> = vec![
            unsigned_to_string(self.t_u8 as u64),
            signed_to_string(self.t_i16 as i64),
        ];
        let t_vec_u8: Vec<u8> = vec![self.t_u8, self.t_u8];
        let t_test_enum_vec: Vec<TestEnum> = vec![TestEnum::A, TestEnum::B];
        let t_test_type_vec: Vec<TestType> = vec![TestType::example(), TestType::example()];
        let row = TestTableDatatypes {
            t_u64: self.t_u64,
            t_u8: self.t_u8 + 1,
            t_u16: self.t_u16 + 1,
            t_u32: self.t_u32 + 1,
            t_u128: self.t_u128 + 1,
            t_f32,
            t_f64,
            t_i8: self.t_i8 - 1,
            t_i16: self.t_i16 - 1,
            t_i32: self.t_i32 - 1,
            t_i64: self.t_i64 - 1,
            t_string: unsigned_to_string(self.t_u8 as u64),
            t_vec_string,
            t_vec_u8,
            t_opt_string: if self.t_opt_string.is_some() {
                None
            } else {
                Some("Some".to_owned())
            },
            t_opt_u64: if self.t_opt_u64.is_some() {
                None
            } else {
                Some(self.t_u64)
            },
            t_test_enum: TestEnum::A,
            t_test_enum_vec,
            t_test_enum_option: Some(TestEnum::A),
            t_test_type: TestType::example(),
            t_test_type_vec,
            t_test_type_option: Some(TestType::example()),
        };
        proof {
            let m = Self::advanced_model(self@, t_f32, t_f64);
            assert(row@.t_vec_string =~= m.t_vec_string);
            assert(row@.t_vec_u8 =~= m.t_vec_u8);
            assert(row@.t_test_enum_vec =~= m.t_test_enum_vec);
            assert(row@.t_test_type_vec =~= m.t_test_type_vec);
        }
        Ok(row)
    }
}

impl Default for TestTableDatatypes {
    fn default() -> (r: Self)
        ensures
            r@ == Self::default_model(),
    {
        let t_vec_string: Vec<String> = vec![String::new()];
        let t_vec_u8: Vec<u8> = vec![0u8];
        let t_test_enum_vec: Vec<TestEnum> = vec![TestEnum::A];
        let t_test_type_vec: Vec<TestType> = vec![TestType::example()];
        let row = TestTableDatatypes {
            t_u64: 0,
            t_u8: 0,
            t_u16: 0,
            t_u32: 0,
            t_u128: 0,
            t_f32: 0,
            t_f64: 0,
            t_i8: 0,
            t_i16: 0,
            t_i32: 0,
            t_i64: 0,
            t_string: String::new(),
            t_vec_string,
            t_vec_u8,
            t_opt_string: Some(String::new()),
            t_opt_u64: Some(0),
            t_test_enum: TestEnum::A,
            t_test_enum_vec,
            t_test_enum_option: Some(TestEnum::A),
            t_test_type: TestType::example(),
            t_test_type_vec,
            t_test_type_option: Some(TestType::example()),
        };
        proof {
            let m = Self::default_model();
            assert(row@.t_vec_string =~= m.t_vec_string);
            assert(row@.t_vec_u8 =~= m.t_vec_u8);
            assert(row@.t_test_enum_vec =~= m.t_test_enum_vec);
            assert(row@.t_test_type_vec =~= m.t_test_type_vec);
        }
        row
    }
}

impl Row for TestTableDatatypes {
    open spec fn keyed() -> bool {
        true
    }

    open spec fn key_of(v: DatatypesModel) -> u64 {
        v.t_u64
    }

    open spec fn rekeyed(v: DatatypesModel, key: u64) -> DatatypesModel {
        DatatypesModel { t_u64: key, ..v }
    }

    open spec fn index_of(v: DatatypesModel) -> u64 {
        v.t_u32 as u64
    }

    open spec fn index_max() -> u64 {
        u32::MAX as u64
    }

    open spec fn comparable(column: nat) -> bool {
        column <= 3 || 7 <= column <= 10
    }

    open spec fn column_of(v: DatatypesModel, column: nat) -> int {
        if column == 0 {
            v.t_u64 as int
        } else if column == 1 {
            v.t_u8 as int
        } else if column == 2 {
            v.t_u16 as int
        } else if column == 3 {
            v.t_u32 as int
        } else if column == 7 {
            v.t_i8 as int
        } else if column == 8 {
            v.t_i16 as int
        } else if column == 9 {
            v.t_i32 as int
        } else {
            v.t_i64 as int
        }
    }

    proof fn lemma_rekeyed(v: DatatypesModel, key: u64) {
    }

    proof fn lemma_index_bounded(v: DatatypesModel) {
    }

    fn is_keyed() -> (b: bool) {
        true
    }

    fn key(&self) -> (k: u64) {
        self.t_u64
    }

    fn with_key(self, key: u64) -> (r: Self) {
        let mut row = self;
        row.t_u64 = key;
        row
    }

    fn index_key(&self) -> (k: u64) {
        self.t_u32 as u64
    }

    fn is_comparable(column: usize) -> (b: bool) {
        column <= 3 || (7 <= column && column <= 10)
    }

    fn column(&self, column: usize) -> (r: Option<i128>) {
        if column == 0 {
            Some(self.t_u64 as i128)
        } else if column == 1 {
            Some(self.t_u8 as i128)
        } else if column == 2 {
            Some(self.t_u16 as i128)
        } else if column == 3 {
            Some(self.t_u32 as i128)
        } else if column == 7 {
            Some(self.t_i8 as i128)
        } else if column == 8 {
            Some(self.t_i16 as i128)
        } else if column == 9 {
            Some(self.t_i32 as i128)
        } else if column == 10 {
            Some(self.t_i64 as i128)
        } else {
            None
        }
    }

    fn duplicate(&self) -> (r: Self) {
        TestTableDatatypes {
            t_u64: self.t_u64,
            t_u8: self.t_u8,
            t_u16: self.t_u16,
            t_u32: self.t_u32,
            t_u128: self.t_u128,
            t_f32: self.t_f32,
            t_f64: self.t_f64,
            t_i8: self.t_i8,
            t_i16: self.t_i16,
            t_i32: self.t_i32,
            t_i64: self.t_i64,
            t_string: self.t_string.clone(),
            t_vec_string: copy_strings(&self.t_vec_string),
            t_vec_u8: copy_bytes(&self.t_vec_u8),
            t_opt_string: copy_opt_string(&self.t_opt_string),
            t_opt_u64: self.t_opt_u64,
            t_test_enum: self.t_test_enum,
            t_test_enum_vec: copy_enums(&self.t_test_enum_vec),
            t_test_enum_option: self.t_test_enum_option,
            t_test_type: self.t_test_type.duplicate(),
            t_test_type_vec: copy_types(&self.t_test_type_vec),
            t_test_type_option: copy_opt_type(&self.t_test_type_option),
        }
    }

    fn same(&self, other: &Self) -> (b: bool) {
        self.t_u64 == other.t_u64 && self.t_u8 == other.t_u8 && self.t_u16 == other.t_u16
            && self.t_u32 == other.t_u32 && self.t_u128 == other.t_u128 && self.t_f32
            == other.t_f32 && self.t_f64 == other.t_f64 && self.t_i8 == other.t_i8 && self.t_i16
            == other.t_i16 && self.t_i32 == other.t_i32 && self.t_i64 == other.t_i64
            && self.t_string == other.t_string && same_strings(
            &self.t_vec_string,
            &other.t_vec_string,
        ) && same_bytes(&self.t_vec_u8, &other.t_vec_u8) && same_opt_string(
            &self.t_opt_string,
            &other.t_opt_string,
        ) && same_opt_u64(&self.t_opt_u64, &other.t_opt_u64) && self.t_test_enum
            == other.t_test_enum && same_enums(&self.t_test_enum_vec, &other.t_test_enum_vec)
            && same_opt_enum(&self.t_test_enum_option, &other.t_test_enum_option)
            && self.t_test_type.same(&other.t_test_type) && same_types(
            &self.t_test_type_vec,
            &other.t_test_type_vec,
        ) && same_opt_type(&self.t_test_type_option, &other.t_test_type_option)
    }
}

} // verus!
