//! The byte encodings of this store's own value and row types. A struct or
//! a row is the encodings of its fields in declaration order; an enum is its
//! variant's position as one byte, followed by the variant's content.

use vstd::prelude::*;
use crate::datatypes::{DatatypesModel, TestTableDatatypes};
use crate::row::{TestScheduledTable, ViewType, ViewTypeModel};
use crate::value::{ScheduleAt, TestEnum, TestType, TestTypeModel};
use crate::wire::{lemma_concat_assoc, lemma_parts, lemma_skip_more, Wire};

verus! {

/// The bytes behind a field that was decoded, or none where it was not.
pub open spec fn behind<P>(previous: Option<(P, Seq<u8>)>) -> Seq<u8> {
    match previous {
        Some((_, rest)) => rest,
        None => Seq::empty(),
    }
}

/// The field that follows a decoded field: it is read from the bytes behind
/// that field, and there is none where the field before it failed.
pub open spec fn next<T: Wire, P>(previous: Option<(P, Seq<u8>)>) -> Option<(T::V, Seq<u8>)> {
    if previous is Some {
        T::dec(behind(previous))
    } else {
        None
    }
}

/// Nothing appended changes nothing.
proof fn lemma_nothing_behind(b: Seq<u8>)
    ensures
        b + Seq::<u8>::empty() == b,
{
    assert(b + Seq::<u8>::empty() =~= b);
}

/// Writes one field of a struct. With the bytes of the fields behind it
/// still to come, the output and those bytes together stay what they were.
fn write_field<T: Wire>(field: &T, out: &mut Vec<u8>, Ghost(tail): Ghost<Seq<u8>>) -> (ok: bool)
    ensures
        ok == T::fits(field.deep_view()),
        ok ==> final(out)@ + tail == old(out)@ + (T::enc(field.deep_view()) + tail),
{
    let ok = field.write(out);
    proof {
        lemma_concat_assoc(old(out)@, T::enc(field.deep_view()), tail);
    }
    ok
}

/// The position of the variant, as one byte.
impl Wire for TestEnum {
    open spec fn enc(v: TestEnum) -> Seq<u8> {
        seq![v.tag()]
    }

    open spec fn dec(b: Seq<u8>) -> Option<(TestEnum, Seq<u8>)> {
        if b.len() == 0 {
            None
        } else if b[0] == 0 {
            Some((TestEnum::A, b.skip(1)))
        } else if b[0] == 1 {
            Some((TestEnum::B, b.skip(1)))
        } else {
            None
        }
    }

    open spec fn fits(v: TestEnum) -> bool {
        true
    }

    proof fn lemma_dec_enc(v: TestEnum, rest: Seq<u8>) {
        lemma_parts(seq![v.tag()], rest);
    }

    proof fn lemma_enc_dec(b: Seq<u8>) {
        if b.len() > 0 {
            assert(seq![b[0]] + b.skip(1) =~= b);
        }
    }

    fn write(&self, out: &mut Vec<u8>) -> (ok: bool) {
        out.push(self.variant_index());
        assert(out@ =~= old(out)@ + seq![self.tag()]);
        true
    }

    fn read(bytes: &[u8], start: usize) -> (r: Option<(Self, usize)>) {
        if start >= bytes.len() {
            return None;
        }
        proof {
            lemma_skip_more(bytes@, start as int, 1);
        }
        match TestEnum::from_index(bytes[start]) {
            Some(value) => Some((value, start + 1)),
            None => None,
        }
    }
}

/// One byte that tells the variant, 0 for an interval and 1 for a time, then
/// the microseconds as a signed 64-bit integer.
impl Wire for ScheduleAt {
    open spec fn enc(v: ScheduleAt) -> Seq<u8> {
        match v {
            ScheduleAt::Interval { micros } => seq![0u8] + i64::enc(micros),
            ScheduleAt::Time { micros_since_unix_epoch } => seq![1u8] + i64::enc(
                micros_since_unix_epoch,
            ),
        }
    }

    open spec fn dec(b: Seq<u8>) -> Option<(ScheduleAt, Seq<u8>)> {
        if b.len() == 0 || b[0] > 1 {
            None
        } else {
            match i64::dec(b.skip(1)) {
                Some((micros, rest)) => if b[0] == 0 {
                    Some((ScheduleAt::Interval { micros }, rest))
                } else {
                    Some((ScheduleAt::Time { micros_since_unix_epoch: micros }, rest))
                },
                None => None,
            }
        }
    }

    open spec fn fits(v: ScheduleAt) -> bool {
        true
    }

    proof fn lemma_dec_enc(v: ScheduleAt, rest: Seq<u8>) {
        match v {
            ScheduleAt::Interval { micros } => {
                lemma_concat_assoc(seq![0u8], i64::enc(micros), rest);
                lemma_parts(seq![0u8], i64::enc(micros) + rest);
                i64::lemma_dec_enc(micros, rest);
            },
            ScheduleAt::Time { micros_since_unix_epoch } => {
                lemma_concat_assoc(seq![1u8], i64::enc(micros_since_unix_epoch), rest);
                lemma_parts(seq![1u8], i64::enc(micros_since_unix_epoch) + rest);
                i64::lemma_dec_enc(micros_since_unix_epoch, rest);
            },
        }
    }

    proof fn lemma_enc_dec(b: Seq<u8>) {
        if b.len() > 0 && b[0] <= 1 {
            assert(seq![b[0]] + b.skip(1) =~= b);
            i64::lemma_enc_dec(b.skip(1));
            if let Some((micros, rest)) = i64::dec(b.skip(1)) {
                lemma_concat_assoc(seq![b[0]], i64::enc(micros), rest);
            }
        }
    }

    fn write(&self, out: &mut Vec<u8>) -> (ok: bool) {
        match self {
            ScheduleAt::Interval { micros } => {
                out.push(0u8);
                assert(out@ =~= old(out)@ + seq![0u8]);
                proof {
                    lemma_concat_assoc(old(out)@, seq![0u8], i64::enc(*micros));
                }
                micros.write(out)
            },
            ScheduleAt::Time { micros_since_unix_epoch } => {
                out.push(1u8);
                assert(out@ =~= old(out)@ + seq![1u8]);
                proof {
                    lemma_concat_assoc(
                        old(out)@,
                        seq![1u8],
                        i64::enc(*micros_since_unix_epoch),
                    );
                }
                micros_since_unix_epoch.write(out)
            },
        }
    }

    fn read(bytes: &[u8], start: usize) -> (r: Option<(Self, usize)>) {
        if start >= bytes.len() {
            return None;
        }
        proof {
            lemma_skip_more(bytes@, start as int, 1);
        }
        let tag: u8 = bytes[start];
        if tag > 1 {
            return None;
        }
        match i64::read(bytes, start + 1) {
            Some((micros, end)) => if tag == 0 {
                Some((ScheduleAt::Interval { micros }, end))
            } else {
                Some((ScheduleAt::Time { micros_since_unix_epoch: micros }, end))
            },
            None => None,
        }
    }
}

/// The name, then the number.
impl Wire for TestType {
    open spec fn enc(v: TestTypeModel) -> Seq<u8> {
        let tail = u64::enc(v.test_int);
        String::enc(v.test_name) + tail
    }

    open spec fn dec(b: Seq<u8>) -> Option<(TestTypeModel, Seq<u8>)> {
        let test_name = String::dec(b);
        let test_int = next::<u64, _>(test_name);
        if test_int is Some {
            Some(
                (
                    TestTypeModel { test_name: test_name.unwrap().0, test_int: test_int.unwrap().0 },
                    test_int.unwrap().1,
                ),
            )
        } else {
            None
        }
    }

    open spec fn fits(v: TestTypeModel) -> bool {
        &&& String::fits(v.test_name)
        &&& u64::fits(v.test_int)
    }

    proof fn lemma_dec_enc(v: TestTypeModel, rest: Seq<u8>) {
        let tail = u64::enc(v.test_int);
        u64::lemma_dec_enc(v.test_int, rest);
        lemma_concat_assoc(String::enc(v.test_name), tail, rest);
        String::lemma_dec_enc(v.test_name, tail + rest);
    }

    proof fn lemma_enc_dec(b: Seq<u8>) {
        let test_name = String::dec(b);
        String::lemma_enc_dec(b);
        let test_int = next::<u64, _>(test_name);
        u64::lemma_enc_dec(behind(test_name));
        if test_int is Some {
            let rest = test_int.unwrap().1;
            let tail = u64::enc(test_int.unwrap().0);
            lemma_concat_assoc(String::enc(test_name.unwrap().0), tail, rest);
        }
    }

    fn write(&self, out: &mut Vec<u8>) -> (ok: bool) {
        let ghost v = self.deep_view();
        let ghost behind_test_int = Seq::<u8>::empty();
        let ghost behind_test_name = u64::enc(v.test_int) + behind_test_int;
        proof {
            lemma_nothing_behind(u64::enc(v.test_int));
        }
        if !write_field(&self.test_name, out, Ghost(behind_test_name)) {
            return false;
        }
        if !write_field(&self.test_int, out, Ghost(behind_test_int)) {
            return false;
        }
        proof {
            lemma_nothing_behind(out@);
        }
        true
    }

    fn read(bytes: &[u8], start: usize) -> (r: Option<(Self, usize)>) {
        let (test_name, at) = match String::read(bytes, start) {
            Some(field) => field,
            None => {
                return None;
            },
        };
        let (test_int, at) = match u64::read(bytes, at) {
            Some(field) => field,
            None => {
                return None;
            },
        };
        Some(
            (
                TestType { test_name, test_int },
                at,
            ),
        )
    }
}

/// The number, then the name.
impl Wire for ViewType {
    open spec fn enc(v: ViewTypeModel) -> Seq<u8> {
        let tail = String::enc(v.name);
        u64::enc(v.row) + tail
    }

    open spec fn dec(b: Seq<u8>) -> Option<(ViewTypeModel, Seq<u8>)> {
        let row = u64::dec(b);
        let name = next::<String, _>(row);
        if name is Some {
            Some(
                (
                    ViewTypeModel { row: row.unwrap().0, name: name.unwrap().0 },
                    name.unwrap().1,
                ),
            )
        } else {
            None
        }
    }

    open spec fn fits(v: ViewTypeModel) -> bool {
        &&& u64::fits(v.row)
        &&& String::fits(v.name)
    }

    proof fn lemma_dec_enc(v: ViewTypeModel, rest: Seq<u8>) {
        let tail = String::enc(v.name);
        String::lemma_dec_enc(v.name, rest);
        lemma_concat_assoc(u64::enc(v.row), tail, rest);
        u64::lemma_dec_enc(v.row, tail + rest);
    }

    proof fn lemma_enc_dec(b: Seq<u8>) {
        let row = u64::dec(b);
        u64::lemma_enc_dec(b);
        let name = next::<String, _>(row);
        String::lemma_enc_dec(behind(row));
        if name is Some {
            let rest = name.unwrap().1;
            let tail = String::enc(name.unwrap().0);
            lemma_concat_assoc(u64::enc(row.unwrap().0), tail, rest);
        }
    }

    fn write(&self, out: &mut Vec<u8>) -> (ok: bool) {
        let ghost v = self.deep_view();
        let ghost behind_name = Seq::<u8>::empty();
        let ghost behind_row = String::enc(v.name) + behind_name;
        proof {
            lemma_nothing_behind(String::enc(v.name));
        }
        if !write_field(&self.row, out, Ghost(behind_row)) {
            return false;
        }
        if !write_field(&self.name, out, Ghost(behind_name)) {
            return false;
        }
        proof {
            lemma_nothing_behind(out@);
        }
        true
    }

    fn read(bytes: &[u8], start: usize) -> (r: Option<(Self, usize)>) {
        let (row, at) = match u64::read(bytes, start) {
            Some(field) => field,
            None => {
                return None;
            },
        };
        let (name, at) = match String::read(bytes, at) {
            Some(field) => field,
            None => {
                return None;
            },
        };
        Some(
            (
                ViewType { row, name },
                at,
            ),
        )
    }
}

/// The six columns in declaration order.
impl Wire for TestScheduledTable {
    open spec fn enc(v: TestScheduledTable) -> Seq<u8> {
        let tail = u64::enc(v.private_count);
        let tail = u64::enc(v.public_count) + tail;
        let tail = u16::enc(v.h2) + tail;
        let tail = ScheduleAt::enc(v.scheduled_at) + tail;
        let tail = u16::enc(v.h1) + tail;
        u64::enc(v.scheduled_id) + tail
    }

    open spec fn dec(b: Seq<u8>) -> Option<(TestScheduledTable, Seq<u8>)> {
        let scheduled_id = u64::dec(b);
        let h1 = next::<u16, _>(scheduled_id);
        let scheduled_at = next::<ScheduleAt, _>(h1);
        let h2 = next::<u16, _>(scheduled_at);
        let public_count = next::<u64, _>(h2);
        let private_count = next::<u64, _>(public_count);
        if private_count is Some {
            Some(
                (
                    TestScheduledTable {
                        scheduled_id: scheduled_id.unwrap().0,
                        h1: h1.unwrap().0,
                        scheduled_at: scheduled_at.unwrap().0,
                        h2: h2.unwrap().0,
                        public_count: public_count.unwrap().0,
                        private_count: private_count.unwrap().0,
                    },
                    private_count.unwrap().1,
                ),
            )
        } else {
            None
        }
    }

    open spec fn fits(v: TestScheduledTable) -> bool {
        &&& u64::fits(v.scheduled_id)
        &&& u16::fits(v.h1)
        &&& ScheduleAt::fits(v.scheduled_at)
        &&& u16::fits(v.h2)
        &&& u64::fits(v.public_count)
        &&& u64::fits(v.private_count)
    }

    proof fn lemma_dec_enc(v: TestScheduledTable, rest: Seq<u8>) {
        let tail = u64::enc(v.private_count);
        u64::lemma_dec_enc(v.private_count, rest);
        lemma_concat_assoc(u64::enc(v.public_count), tail, rest);
        u64::lemma_dec_enc(v.public_count, tail + rest);
        let tail = u64::enc(v.public_count) + tail;
        lemma_concat_assoc(u16::enc(v.h2), tail, rest);
        u16::lemma_dec_enc(v.h2, tail + rest);
        let tail = u16::enc(v.h2) + tail;
        lemma_concat_assoc(ScheduleAt::enc(v.scheduled_at), tail, rest);
        ScheduleAt::lemma_dec_enc(v.scheduled_at, tail + rest);
        let tail = ScheduleAt::enc(v.scheduled_at) + tail;
        lemma_concat_assoc(u16::enc(v.h1), tail, rest);
        u16::lemma_dec_enc(v.h1, tail + rest);
        let tail = u16::enc(v.h1) + tail;
        lemma_concat_assoc(u64::enc(v.scheduled_id), tail, rest);
        u64::lemma_dec_enc(v.scheduled_id, tail + rest);
    }

    proof fn lemma_enc_dec(b: Seq<u8>) {
        let scheduled_id = u64::dec(b);
        u64::lemma_enc_dec(b);
        let h1 = next::<u16, _>(scheduled_id);
        u16::lemma_enc_dec(behind(scheduled_id));
        let scheduled_at = next::<ScheduleAt, _>(h1);
        ScheduleAt::lemma_enc_dec(behind(h1));
        let h2 = next::<u16, _>(scheduled_at);
        u16::lemma_enc_dec(behind(scheduled_at));
        let public_count = next::<u64, _>(h2);
        u64::lemma_enc_dec(behind(h2));
        let private_count = next::<u64, _>(public_count);
        u64::lemma_enc_dec(behind(public_count));
        if private_count is Some {
            let rest = private_count.unwrap().1;
            let tail = u64::enc(private_count.unwrap().0);
            lemma_concat_assoc(u64::enc(public_count.unwrap().0), tail, rest);
            let tail = u64::enc(public_count.unwrap().0) + tail;
            lemma_concat_assoc(u16::enc(h2.unwrap().0), tail, rest);
            let tail = u16::enc(h2.unwrap().0) + tail;
            lemma_concat_assoc(ScheduleAt::enc(scheduled_at.unwrap().0), tail, rest);
            let tail = ScheduleAt::enc(scheduled_at.unwrap().0) + tail;
            lemma_concat_assoc(u16::enc(h1.unwrap().0), tail, rest);
            let tail = u16::enc(h1.unwrap().0) + tail;
            lemma_concat_assoc(u64::enc(scheduled_id.unwrap().0), tail, rest);
        }
    }

    fn write(&self, out: &mut Vec<u8>) -> (ok: bool) {
        let ghost v = self.deep_view();
        let ghost behind_private_count = Seq::<u8>::empty();
        let ghost behind_public_count = u64::enc(v.private_count) + behind_private_count;
        let ghost behind_h2 = u64::enc(v.public_count) + behind_public_count;
        let ghost behind_scheduled_at = u16::enc(v.h2) + behind_h2;
        let ghost behind_h1 = ScheduleAt::enc(v.scheduled_at) + behind_scheduled_at;
        let ghost behind_scheduled_id = u16::enc(v.h1) + behind_h1;
        proof {
            lemma_nothing_behind(u64::enc(v.private_count));
        }
        if !write_field(&self.scheduled_id, out, Ghost(behind_scheduled_id)) {
            return false;
        }
        if !write_field(&self.h1, out, Ghost(behind_h1)) {
            return false;
        }
        if !write_field(&self.scheduled_at, out, Ghost(behind_scheduled_at)) {
            return false;
        }
        if !write_field(&self.h2, out, Ghost(behind_h2)) {
            return false;
        }
        if !write_field(&self.public_count, out, Ghost(behind_public_count)) {
            return false;
        }
        if !write_field(&self.private_count, out, Ghost(behind_private_count)) {
            return false;
        }
        proof {
            lemma_nothing_behind(out@);
        }
        true
    }

    fn read(bytes: &[u8], start: usize) -> (r: Option<(Self, usize)>) {
        let (scheduled_id, at) = match u64::read(bytes, start) {
            Some(field) => field,
            None => {
                return None;
            },
        };
        let (h1, at) = match u16::read(bytes, at) {
            Some(field) => field,
            None => {
                return None;
            },
        };
        let (scheduled_at, at) = match ScheduleAt::read(bytes, at) {
            Some(field) => field,
            None => {
                return None;
            },
        };
        let (h2, at) = match u16::read(bytes, at) {
            Some(field) => field,
            None => {
                return None;
            },
        };
        let (public_count, at) = match u64::read(bytes, at) {
            Some(field) => field,
            None => {
                return None;
            },
        };
        let (private_count, at) = match u64::read(bytes, at) {
            Some(field) => field,
            None => {
                return None;
            },
        };
        Some(
            (
                TestScheduledTable {
                    scheduled_id,
                    h1,
                    scheduled_at,
                    h2,
                    public_count,
                    private_count,
                },
                at,
            ),
        )
    }
}

/// The twenty-two columns in declaration order; a floating-point column is
/// the little-endian bytes of its bit pattern.
impl Wire for TestTableDatatypes {
    open spec fn enc(v: DatatypesModel) -> Seq<u8> {
        let tail = Option::<TestType>::enc(v.t_test_type_option);
        let tail = Vec::<TestType>::enc(v.t_test_type_vec) + tail;
        let tail = TestType::enc(v.t_test_type) + tail;
        let tail = Option::<TestEnum>::enc(v.t_test_enum_option) + tail;
        let tail = Vec::<TestEnum>::enc(v.t_test_enum_vec) + tail;
        let tail = TestEnum::enc(v.t_test_enum) + tail;
        let tail = Option::<u64>::enc(v.t_opt_u64) + tail;
        let tail = Option::<String>::enc(v.t_opt_string) + tail;
        let tail = Vec::<u8>::enc(v.t_vec_u8) + tail;
        let tail = Vec::<String>::enc(v.t_vec_string) + tail;
        let tail = String::enc(v.t_string) + tail;
        let tail = i64::enc(v.t_i64) + tail;
        let tail = i32::enc(v.t_i32) + tail;
        let tail = i16::enc(v.t_i16) + tail;
        let tail = i8::enc(v.t_i8) + tail;
        let tail = u64::enc(v.t_f64) + tail;
        let tail = u32::enc(v.t_f32) + tail;
        let tail = u128::enc(v.t_u128) + tail;
        let tail = u32::enc(v.t_u32) + tail;
        let tail = u16::enc(v.t_u16) + tail;
        let tail = u8::enc(v.t_u8) + tail;
        u64::enc(v.t_u64) + tail
    }

    open spec fn dec(b: Seq<u8>) -> Option<(DatatypesModel, Seq<u8>)> {
        let t_u64 = u64::dec(b);
        let t_u8 = next::<u8, _>(t_u64);
        let t_u16 = next::<u16, _>(t_u8);
        let t_u32 = next::<u32, _>(t_u16);
        let t_u128 = next::<u128, _>(t_u32);
        let t_f32 = next::<u32, _>(t_u128);
        let t_f64 = next::<u64, _>(t_f32);
        let t_i8 = next::<i8, _>(t_f64);
        let t_i16 = next::<i16, _>(t_i8);
        let t_i32 = next::<i32, _>(t_i16);
        let t_i64 = next::<i64, _>(t_i32);
        let t_string = next::<String, _>(t_i64);
        let t_vec_string = next::<Vec<String>, _>(t_string);
        let t_vec_u8 = next::<Vec<u8>, _>(t_vec_string);
        let t_opt_string = next::<Option<String>, _>(t_vec_u8);
        let t_opt_u64 = next::<Option<u64>, _>(t_opt_string);
        let t_test_enum = next::<TestEnum, _>(t_opt_u64);
        let t_test_enum_vec = next::<Vec<TestEnum>, _>(t_test_enum);
        let t_test_enum_option = next::<Option<TestEnum>, _>(t_test_enum_vec);
        let t_test_type = next::<TestType, _>(t_test_enum_option);
        let t_test_type_vec = next::<Vec<TestType>, _>(t_test_type);
        let t_test_type_option = next::<Option<TestType>, _>(t_test_type_vec);
        if t_test_type_option is Some {
            Some(
                (
                    DatatypesModel {
                        t_u64: t_u64.unwrap().0,
                        t_u8: t_u8.unwrap().0,
                        t_u16: t_u16.unwrap().0,
                        t_u32: t_u32.unwrap().0,
                        t_u128: t_u128.unwrap().0,
                        t_f32: t_f32.unwrap().0,
                        t_f64: t_f64.unwrap().0,
                        t_i8: t_i8.unwrap().0,
                        t_i16: t_i16.unwrap().0,
                        t_i32: t_i32.unwrap().0,
                        t_i64: t_i64.unwrap().0,
                        t_string: t_string.unwrap().0,
                        t_vec_string: t_vec_string.unwrap().0,
                        t_vec_u8: t_vec_u8.unwrap().0,
                        t_opt_string: t_opt_string.unwrap().0,
                        t_opt_u64: t_opt_u64.unwrap().0,
                        t_test_enum: t_test_enum.unwrap().0,
                        t_test_enum_vec: t_test_enum_vec.unwrap().0,
                        t_test_enum_option: t_test_enum_option.unwrap().0,
                        t_test_type: t_test_type.unwrap().0,
                        t_test_type_vec: t_test_type_vec.unwrap().0,
                        t_test_type_option: t_test_type_option.unwrap().0,
                    },
                    t_test_type_option.unwrap().1,
                ),
            )
        } else {
            None
        }
    }

    open spec fn fits(v: DatatypesModel) -> bool {
        &&& u64::fits(v.t_u64)
        &&& u8::fits(v.t_u8)
        &&& u16::fits(v.t_u16)
        &&& u32::fits(v.t_u32)
        &&& u128::fits(v.t_u128)
        &&& u32::fits(v.t_f32)
        &&& u64::fits(v.t_f64)
        &&& i8::fits(v.t_i8)
        &&& i16::fits(v.t_i16)
        &&& i32::fits(v.t_i32)
        &&& i64::fits(v.t_i64)
        &&& String::fits(v.t_string)
        &&& Vec::<String>::fits(v.t_vec_string)
        &&& Vec::<u8>::fits(v.t_vec_u8)
        &&& Option::<String>::fits(v.t_opt_string)
        &&& Option::<u64>::fits(v.t_opt_u64)
        &&& TestEnum::fits(v.t_test_enum)
        &&& Vec::<TestEnum>::fits(v.t_test_enum_vec)
        &&& Option::<TestEnum>::fits(v.t_test_enum_option)
        &&& TestType::fits(v.t_test_type)
        &&& Vec::<TestType>::fits(v.t_test_type_vec)
        &&& Option::<TestType>::fits(v.t_test_type_option)
    }

    proof fn lemma_dec_enc(v: DatatypesModel, rest: Seq<u8>) {
        let tail = Option::<TestType>::enc(v.t_test_type_option);
        Option::<TestType>::lemma_dec_enc(v.t_test_type_option, rest);
        lemma_concat_assoc(Vec::<TestType>::enc(v.t_test_type_vec), tail, rest);
        Vec::<TestType>::lemma_dec_enc(v.t_test_type_vec, tail + rest);
        let tail = Vec::<TestType>::enc(v.t_test_type_vec) + tail;
        lemma_concat_assoc(TestType::enc(v.t_test_type), tail, rest);
        TestType::lemma_dec_enc(v.t_test_type, tail + rest);
        let tail = TestType::enc(v.t_test_type) + tail;
        lemma_concat_assoc(Option::<TestEnum>::enc(v.t_test_enum_option), tail, rest);
        Option::<TestEnum>::lemma_dec_enc(v.t_test_enum_option, tail + rest);
        let tail = Option::<TestEnum>::enc(v.t_test_enum_option) + tail;
        lemma_concat_assoc(Vec::<TestEnum>::enc(v.t_test_enum_vec), tail, rest);
        Vec::<TestEnum>::lemma_dec_enc(v.t_test_enum_vec, tail + rest);
        let tail = Vec::<TestEnum>::enc(v.t_test_enum_vec) + tail;
        lemma_concat_assoc(TestEnum::enc(v.t_test_enum), tail, rest);
        TestEnum::lemma_dec_enc(v.t_test_enum, tail + rest);
        let tail = TestEnum::enc(v.t_test_enum) + tail;
        lemma_concat_assoc(Option::<u64>::enc(v.t_opt_u64), tail, rest);
        Option::<u64>::lemma_dec_enc(v.t_opt_u64, tail + rest);
        let tail = Option::<u64>::enc(v.t_opt_u64) + tail;
        lemma_concat_assoc(Option::<String>::enc(v.t_opt_string), tail, rest);
        Option::<String>::lemma_dec_enc(v.t_opt_string, tail + rest);
        let tail = Option::<String>::enc(v.t_opt_string) + tail;
        lemma_concat_assoc(Vec::<u8>::enc(v.t_vec_u8), tail, rest);
        Vec::<u8>::lemma_dec_enc(v.t_vec_u8, tail + rest);
        let tail = Vec::<u8>::enc(v.t_vec_u8) + tail;
        lemma_concat_assoc(Vec::<String>::enc(v.t_vec_string), tail, rest);
        Vec::<String>::lemma_dec_enc(v.t_vec_string, tail + rest);
        let tail = Vec::<String>::enc(v.t_vec_string) + tail;
        lemma_concat_assoc(String::enc(v.t_string), tail, rest);
        String::lemma_dec_enc(v.t_string, tail + rest);
        let tail = String::enc(v.t_string) + tail;
        lemma_concat_assoc(i64::enc(v.t_i64), tail, rest);
        i64::lemma_dec_enc(v.t_i64, tail + rest);
        let tail = i64::enc(v.t_i64) + tail;
        lemma_concat_assoc(i32::enc(v.t_i32), tail, rest);
        i32::lemma_dec_enc(v.t_i32, tail + rest);
        let tail = i32::enc(v.t_i32) + tail;
        lemma_concat_assoc(i16::enc(v.t_i16), tail, rest);
        i16::lemma_dec_enc(v.t_i16, tail + rest);
        let tail = i16::enc(v.t_i16) + tail;
        lemma_concat_assoc(i8::enc(v.t_i8), tail, rest);
        i8::lemma_dec_enc(v.t_i8, tail + rest);
        let tail = i8::enc(v.t_i8) + tail;
        lemma_concat_assoc(u64::enc(v.t_f64), tail, rest);
        u64::lemma_dec_enc(v.t_f64, tail + rest);
        let tail = u64::enc(v.t_f64) + tail;
        lemma_concat_assoc(u32::enc(v.t_f32), tail, rest);
        u32::lemma_dec_enc(v.t_f32, tail + rest);
        let tail = u32::enc(v.t_f32) + tail;
        lemma_concat_assoc(u128::enc(v.t_u128), tail, rest);
        u128::lemma_dec_enc(v.t_u128, tail + rest);
        let tail = u128::enc(v.t_u128) + tail;
        lemma_concat_assoc(u32::enc(v.t_u32), tail, rest);
        u32::lemma_dec_enc(v.t_u32, tail + rest);
        let tail = u32::enc(v.t_u32) + tail;
        lemma_concat_assoc(u16::enc(v.t_u16), tail, rest);
        u16::lemma_dec_enc(v.t_u16, tail + rest);
        let tail = u16::enc(v.t_u16) + tail;
        lemma_concat_assoc(u8::enc(v.t_u8), tail, rest);
        u8::lemma_dec_enc(v.t_u8, tail + rest);
        let tail = u8::enc(v.t_u8) + tail;
        lemma_concat_assoc(u64::enc(v.t_u64), tail, rest);
        u64::lemma_dec_enc(v.t_u64, tail + rest);
    }

    proof fn lemma_enc_dec(b: Seq<u8>) {
        let t_u64 = u64::dec(b);
        u64::lemma_enc_dec(b);
        let t_u8 = next::<u8, _>(t_u64);
        u8::lemma_enc_dec(behind(t_u64));
        let t_u16 = next::<u16, _>(t_u8);
        u16::lemma_enc_dec(behind(t_u8));
        let t_u32 = next::<u32, _>(t_u16);
        u32::lemma_enc_dec(behind(t_u16));
        let t_u128 = next::<u128, _>(t_u32);
        u128::lemma_enc_dec(behind(t_u32));
        let t_f32 = next::<u32, _>(t_u128);
        u32::lemma_enc_dec(behind(t_u128));
        let t_f64 = next::<u64, _>(t_f32);
        u64::lemma_enc_dec(behind(t_f32));
        let t_i8 = next::<i8, _>(t_f64);
        i8::lemma_enc_dec(behind(t_f64));
        let t_i16 = next::<i16, _>(t_i8);
        i16::lemma_enc_dec(behind(t_i8));
        let t_i32 = next::<i32, _>(t_i16);
        i32::lemma_enc_dec(behind(t_i16));
        let t_i64 = next::<i64, _>(t_i32);
        i64::lemma_enc_dec(behind(t_i32));
        let t_string = next::<String, _>(t_i64);
        String::lemma_enc_dec(behind(t_i64));
        let t_vec_string = next::<Vec<String>, _>(t_string);
        Vec::<String>::lemma_enc_dec(behind(t_string));
        let t_vec_u8 = next::<Vec<u8>, _>(t_vec_string);
        Vec::<u8>::lemma_enc_dec(behind(t_vec_string));
        let t_opt_string = next::<Option<String>, _>(t_vec_u8);
        Option::<String>::lemma_enc_dec(behind(t_vec_u8));
        let t_opt_u64 = next::<Option<u64>, _>(t_opt_string);
        Option::<u64>::lemma_enc_dec(behind(t_opt_string));
        let t_test_enum = next::<TestEnum, _>(t_opt_u64);
        TestEnum::lemma_enc_dec(behind(t_opt_u64));
        let t_test_enum_vec = next::<Vec<TestEnum>, _>(t_test_enum);
        Vec::<TestEnum>::lemma_enc_dec(behind(t_test_enum));
        let t_test_enum_option = next::<Option<TestEnum>, _>(t_test_enum_vec);
        Option::<TestEnum>::lemma_enc_dec(behind(t_test_enum_vec));
        let t_test_type = next::<TestType, _>(t_test_enum_option);
        TestType::lemma_enc_dec(behind(t_test_enum_option));
        let t_test_type_vec = next::<Vec<TestType>, _>(t_test_type);
        Vec::<TestType>::lemma_enc_dec(behind(t_test_type));
        let t_test_type_option = next::<Option<TestType>, _>(t_test_type_vec);
        Option::<TestType>::lemma_enc_dec(behind(t_test_type_vec));
        if t_test_type_option is Some {
            let rest = t_test_type_option.unwrap().1;
            let tail = Option::<TestType>::enc(t_test_type_option.unwrap().0);
            lemma_concat_assoc(Vec::<TestType>::enc(t_test_type_vec.unwrap().0), tail, rest);
            let tail = Vec::<TestType>::enc(t_test_type_vec.unwrap().0) + tail;
            lemma_concat_assoc(TestType::enc(t_test_type.unwrap().0), tail, rest);
            let tail = TestType::enc(t_test_type.unwrap().0) + tail;
            lemma_concat_assoc(Option::<TestEnum>::enc(t_test_enum_option.unwrap().0), tail, rest);
            let tail = Option::<TestEnum>::enc(t_test_enum_option.unwrap().0) + tail;
            lemma_concat_assoc(Vec::<TestEnum>::enc(t_test_enum_vec.unwrap().0), tail, rest);
            let tail = Vec::<TestEnum>::enc(t_test_enum_vec.unwrap().0) + tail;
            lemma_concat_assoc(TestEnum::enc(t_test_enum.unwrap().0), tail, rest);
            let tail = TestEnum::enc(t_test_enum.unwrap().0) + tail;
            lemma_concat_assoc(Option::<u64>::enc(t_opt_u64.unwrap().0), tail, rest);
            let tail = Option::<u64>::enc(t_opt_u64.unwrap().0) + tail;
            lemma_concat_assoc(Option::<String>::enc(t_opt_string.unwrap().0), tail, rest);
            let tail = Option::<String>::enc(t_opt_string.unwrap().0) + tail;
            lemma_concat_assoc(Vec::<u8>::enc(t_vec_u8.unwrap().0), tail, rest);
            let tail = Vec::<u8>::enc(t_vec_u8.unwrap().0) + tail;
            lemma_concat_assoc(Vec::<String>::enc(t_vec_string.unwrap().0), tail, rest);
            let tail = Vec::<String>::enc(t_vec_string.unwrap().0) + tail;
            lemma_concat_assoc(String::enc(t_string.unwrap().0), tail, rest);
            let tail = String::enc(t_string.unwrap().0) + tail;
            lemma_concat_assoc(i64::enc(t_i64.unwrap().0), tail, rest);
            let tail = i64::enc(t_i64.unwrap().0) + tail;
            lemma_concat_assoc(i32::enc(t_i32.unwrap().0), tail, rest);
            let tail = i32::enc(t_i32.unwrap().0) + tail;
            lemma_concat_assoc(i16::enc(t_i16.unwrap().0), tail, rest);
            let tail = i16::enc(t_i16.unwrap().0) + tail;
            lemma_concat_assoc(i8::enc(t_i8.unwrap().0), tail, rest);
            let tail = i8::enc(t_i8.unwrap().0) + tail;
            lemma_concat_assoc(u64::enc(t_f64.unwrap().0), tail, rest);
            let tail = u64::enc(t_f64.unwrap().0) + tail;
            lemma_concat_assoc(u32::enc(t_f32.unwrap().0), tail, rest);
            let tail = u32::enc(t_f32.unwrap().0) + tail;
            lemma_concat_assoc(u128::enc(t_u128.unwrap().0), tail, rest);
            let tail = u128::enc(t_u128.unwrap().0) + tail;
            lemma_concat_assoc(u32::enc(t_u32.unwrap().0), tail, rest);
            let tail = u32::enc(t_u32.unwrap().0) + tail;
            lemma_concat_assoc(u16::enc(t_u16.unwrap().0), tail, rest);
            let tail = u16::enc(t_u16.unwrap().0) + tail;
            lemma_concat_assoc(u8::enc(t_u8.unwrap().0), tail, rest);
            let tail = u8::enc(t_u8.unwrap().0) + tail;
            lemma_concat_assoc(u64::enc(t_u64.unwrap().0), tail, rest);
        }
    }

    fn write(&self, out: &mut Vec<u8>) -> (ok: bool) {
        let ghost v = self.deep_view();
        let ghost behind_t_test_type_option = Seq::<u8>::empty();
        let ghost behind_t_test_type_vec = Option::<TestType>::enc(v.t_test_type_option) + behind_t_test_type_option;
        let ghost behind_t_test_type = Vec::<TestType>::enc(v.t_test_type_vec) + behind_t_test_type_vec;
        let ghost behind_t_test_enum_option = TestType::enc(v.t_test_type) + behind_t_test_type;
        let ghost behind_t_test_enum_vec = Option::<TestEnum>::enc(v.t_test_enum_option) + behind_t_test_enum_option;
        let ghost behind_t_test_enum = Vec::<TestEnum>::enc(v.t_test_enum_vec) + behind_t_test_enum_vec;
        let ghost behind_t_opt_u64 = TestEnum::enc(v.t_test_enum) + behind_t_test_enum;
        let ghost behind_t_opt_string = Option::<u64>::enc(v.t_opt_u64) + behind_t_opt_u64;
        let ghost behind_t_vec_u8 = Option::<String>::enc(v.t_opt_string) + behind_t_opt_string;
        let ghost behind_t_vec_string = Vec::<u8>::enc(v.t_vec_u8) + behind_t_vec_u8;
        let ghost behind_t_string = Vec::<String>::enc(v.t_vec_string) + behind_t_vec_string;
        let ghost behind_t_i64 = String::enc(v.t_string) + behind_t_string;
        let ghost behind_t_i32 = i64::enc(v.t_i64) + behind_t_i64;
        let ghost behind_t_i16 = i32::enc(v.t_i32) + behind_t_i32;
        let ghost behind_t_i8 = i16::enc(v.t_i16) + behind_t_i16;
        let ghost behind_t_f64 = i8::enc(v.t_i8) + behind_t_i8;
        let ghost behind_t_f32 = u64::enc(v.t_f64) + behind_t_f64;
        let ghost behind_t_u128 = u32::enc(v.t_f32) + behind_t_f32;
        let ghost behind_t_u32 = u128::enc(v.t_u128) + behind_t_u128;
        let ghost behind_t_u16 = u32::enc(v.t_u32) + behind_t_u32;
        let ghost behind_t_u8 = u16::enc(v.t_u16) + behind_t_u16;
        let ghost behind_t_u64 = u8::enc(v.t_u8) + behind_t_u8;
        proof {
            lemma_nothing_behind(Option::<TestType>::enc(v.t_test_type_option));
        }
        if !write_field(&self.t_u64, out, Ghost(behind_t_u64)) {
            return false;
        }
        if !write_field(&self.t_u8, out, Ghost(behind_t_u8)) {
            return false;
        }
        if !write_field(&self.t_u16, out, Ghost(behind_t_u16)) {
            return false;
        }
        if !write_field(&self.t_u32, out, Ghost(behind_t_u32)) {
            return false;
        }
        if !write_field(&self.t_u128, out, Ghost(behind_t_u128)) {
            return false;
        }
        if !write_field(&self.t_f32, out, Ghost(behind_t_f32)) {
            return false;
        }
        if !write_field(&self.t_f64, out, Ghost(behind_t_f64)) {
            return false;
        }
        if !write_field(&self.t_i8, out, Ghost(behind_t_i8)) {
            return false;
        }
        if !write_field(&self.t_i16, out, Ghost(behind_t_i16)) {
            return false;
        }
        if !write_field(&self.t_i32, out, Ghost(behind_t_i32)) {
            return false;
        }
        if !write_field(&self.t_i64, out, Ghost(behind_t_i64)) {
            return false;
        }
        if !write_field(&self.t_string, out, Ghost(behind_t_string)) {
            return false;
        }
        if !write_field(&self.t_vec_string, out, Ghost(behind_t_vec_string)) {
            return false;
        }
        if !write_field(&self.t_vec_u8, out, Ghost(behind_t_vec_u8)) {
            return false;
        }
        if !write_field(&self.t_opt_string, out, Ghost(behind_t_opt_string)) {
            return false;
        }
        if !write_field(&self.t_opt_u64, out, Ghost(behind_t_opt_u64)) {
            return false;
        }
        if !write_field(&self.t_test_enum, out, Ghost(behind_t_test_enum)) {
            return false;
        }
        if !write_field(&self.t_test_enum_vec, out, Ghost(behind_t_test_enum_vec)) {
            return false;
        }
        if !write_field(&self.t_test_enum_option, out, Ghost(behind_t_test_enum_option)) {
            return false;
        }
        if !write_field(&self.t_test_type, out, Ghost(behind_t_test_type)) {
            return false;
        }
        if !write_field(&self.t_test_type_vec, out, Ghost(behind_t_test_type_vec)) {
            return false;
        }
        if !write_field(&self.t_test_type_option, out, Ghost(behind_t_test_type_option)) {
            return false;
        }
        proof {
            lemma_nothing_behind(out@);
        }
        true
    }

    fn read(bytes: &[u8], start: usize) -> (r: Option<(Self, usize)>) {
        let (t_u64, at) = match u64::read(bytes, start) {
            Some(field) => field,
            None => {
                return None;
            },
        };
        let (t_u8, at) = match u8::read(bytes, at) {
            Some(field) => field,
            None => {
                return None;
            },
        };
        let (t_u16, at) = match u16::read(bytes, at) {
            Some(field) => field,
            None => {
                return None;
            },
        };
        let (t_u32, at) = match u32::read(bytes, at) {
            Some(field) => field,
            None => {
                return None;
            },
        };
        let (t_u128, at) = match u128::read(bytes, at) {
            Some(field) => field,
            None => {
                return None;
            },
        };
        let (t_f32, at) = match u32::read(bytes, at) {
            Some(field) => field,
            None => {
                return None;
            },
        };
        let (t_f64, at) = match u64::read(bytes, at) {
            Some(field) => field,
            None => {
                return None;
            },
        };
        let (t_i8, at) = match i8::read(bytes, at) {
            Some(field) => field,
            None => {
                return None;
            },
        };
        let (t_i16, at) = match i16::read(bytes, at) {
            Some(field) => field,
            None => {
                return None;
            },
        };
        let (t_i32, at) = match i32::read(bytes, at) {
            Some(field) => field,
            None => {
                return None;
            },
        };
        let (t_i64, at) = match i64::read(bytes, at) {
            Some(field) => field,
            None => {
                return None;
            },
        };
        let (t_string, at) = match String::read(bytes, at) {
            Some(field) => field,
            None => {
                return None;
            },
        };
        let (t_vec_string, at) = match Vec::<String>::read(bytes, at) {
            Some(field) => field,
            None => {
                return None;
            },
        };
        let (t_vec_u8, at) = match Vec::<u8>::read(bytes, at) {
            Some(field) => field,
            None => {
                return None;
            },
        };
        let (t_opt_string, at) = match Option::<String>::read(bytes, at) {
            Some(field) => field,
            None => {
                return None;
            },
        };
        let (t_opt_u64, at) = match Option::<u64>::read(bytes, at) {
            Some(field) => field,
            None => {
                return None;
            },
        };
        let (t_test_enum, at) = match TestEnum::read(bytes, at) {
            Some(field) => field,
            None => {
                return None;
            },
        };
        let (t_test_enum_vec, at) = match Vec::<TestEnum>::read(bytes, at) {
            Some(field) => field,
            None => {
                return None;
            },
        };
        let (t_test_enum_option, at) = match Option::<TestEnum>::read(bytes, at) {
            Some(field) => field,
            None => {
                return None;
            },
        };
        let (t_test_type, at) = match TestType::read(bytes, at) {
            Some(field) => field,
            None => {
                return None;
            },
        };
        let (t_test_type_vec, at) = match Vec::<TestType>::read(bytes, at) {
            Some(field) => field,
            None => {
                return None;
            },
        };
        let (t_test_type_option, at) = match Option::<TestType>::read(bytes, at) {
            Some(field) => field,
            None => {
                return None;
            },
        };
        Some(
            (
                TestTableDatatypes {
                    t_u64,
                    t_u8,
                    t_u16,
                    t_u32,
                    t_u128,
                    t_f32,
                    t_f64,
                    t_i8,
                    t_i16,
                    t_i32,
                    t_i64,
                    t_string,
                    t_vec_string,
                    t_vec_u8,
                    t_opt_string,
                    t_opt_u64,
                    t_test_enum,
                    t_test_enum_vec,
                    t_test_enum_option,
                    t_test_type,
                    t_test_type_vec,
                    t_test_type_option,
                },
                at,
            ),
        )
    }
}

} // verus!
