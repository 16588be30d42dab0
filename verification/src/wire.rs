//! The byte encoding of values: little-endian integers, length-prefixed
//! text and sequences, tagged optional values, and the laws that make
//! encoding and decoding inverse to each other.

use vstd::prelude::*;
use vstd::bytes::*;
use vstd::slice::{slice_subrange, slice_to_vec};
use vstd::utf8::{
    decode_utf8, decode_utf8_encode_utf8, encode_utf8, encode_utf8_decode_utf8,
    encode_utf8_valid_utf8, valid_utf8,
};
use crate::error::StoreError;

verus! {

/// A type with a byte encoding. `dec` reads one value from the front of a
/// byte sequence and hands back what follows it.
pub trait Wire: DeepView + Sized {
    /// The bytes of a value.
    spec fn enc(v: Self::V) -> Seq<u8>;

    /// The value at the front of a byte sequence, and the bytes behind it.
    spec fn dec(b: Seq<u8>) -> Option<(Self::V, Seq<u8>)>;

    /// Whether the value can be encoded: every length in it fits its prefix.
    spec fn fits(v: Self::V) -> bool;

    /// Decoding reads back what was encoded, and leaves what follows.
    proof fn lemma_dec_enc(v: Self::V, rest: Seq<u8>)
        requires
            Self::fits(v),
        ensures
            Self::dec(Self::enc(v) + rest) == Some((v, rest)),
    ;

    /// What decodes is the encoding of the decoded value, byte for byte.
    proof fn lemma_enc_dec(b: Seq<u8>)
        ensures
            Self::dec(b) matches Some((v, rest)) ==> Self::fits(v) && b == Self::enc(v) + rest,
    ;

    /// Appends the bytes of the value; `false` where the value does not fit.
    fn write(&self, out: &mut Vec<u8>) -> (ok: bool)
        ensures
            ok == Self::fits(self.deep_view()),
            ok ==> final(out)@ == old(out)@ + Self::enc(self.deep_view()),
    ;

    /// Reads one value that starts at `start`, and says where it ends.
    fn read(bytes: &[u8], start: usize) -> (r: Option<(Self, usize)>)
        requires
            start <= bytes@.len(),
        ensures
            match r {
                Some((value, end)) => start <= end <= bytes@.len() && Self::dec(
                    bytes@.skip(start as int),
                ) == Some((value.deep_view(), bytes@.skip(end as int))),
                None => Self::dec(bytes@.skip(start as int)) is None,
            },
    ;
}

/// Concatenation is associative.
pub proof fn lemma_concat_assoc(a: Seq<u8>, b: Seq<u8>, c: Seq<u8>)
    ensures
        (a + b) + c == a + (b + c),
{
    assert((a + b) + c =~= a + (b + c));
}

/// A sequence is its front followed by its back.
pub proof fn lemma_front_back(b: Seq<u8>, n: int)
    requires
        0 <= n <= b.len(),
    ensures
        b.take(n) + b.skip(n) == b,
{
    assert(b.take(n) + b.skip(n) =~= b);
}

/// The front and the back of a concatenation are its two parts.
pub proof fn lemma_parts(a: Seq<u8>, rest: Seq<u8>)
    ensures
        (a + rest).take(a.len() as int) == a,
        (a + rest).skip(a.len() as int) == rest,
{
    assert((a + rest).take(a.len() as int) =~= a);
    assert((a + rest).skip(a.len() as int) =~= rest);
}

/// Skipping twice is skipping once, and a slice of the back is a slice of
/// the whole.
pub proof fn lemma_skip_more(b: Seq<u8>, start: int, n: int)
    requires
        0 <= start,
        0 <= n,
        start + n <= b.len(),
    ensures
        b.skip(start).skip(n) == b.skip(start + n),
        b.skip(start).take(n) == b.subrange(start, start + n),
{
    assert(b.skip(start).skip(n) =~= b.skip(start + n));
    assert(b.skip(start).take(n) =~= b.subrange(start, start + n));
}

/// One byte.
impl Wire for u8 {
    open spec fn enc(v: u8) -> Seq<u8> {
        seq![v]
    }

    open spec fn dec(b: Seq<u8>) -> Option<(u8, Seq<u8>)> {
        if b.len() >= 1 {
            Some((b[0], b.skip(1)))
        } else {
            None
        }
    }

    open spec fn fits(v: u8) -> bool {
        true
    }

    proof fn lemma_dec_enc(v: u8, rest: Seq<u8>) {
        lemma_parts(seq![v], rest);
    }

    proof fn lemma_enc_dec(b: Seq<u8>) {
        if b.len() >= 1 {
            assert(seq![b[0]] + b.skip(1) =~= b);
        }
    }

    fn write(&self, out: &mut Vec<u8>) -> (ok: bool) {
        out.push(*self);
        assert(out@ =~= old(out)@ + seq![*self]);
        true
    }

    fn read(bytes: &[u8], start: usize) -> (r: Option<(Self, usize)>) {
        if start < bytes.len() {
            proof {
                lemma_skip_more(bytes@, start as int, 1);
            }
            Some((bytes[start], start + 1))
        } else {
            None
        }
    }
}

/// One byte, in two's complement.
impl Wire for i8 {
    open spec fn enc(v: i8) -> Seq<u8> {
        seq![v as u8]
    }

    open spec fn dec(b: Seq<u8>) -> Option<(i8, Seq<u8>)> {
        if b.len() >= 1 {
            Some((b[0] as i8, b.skip(1)))
        } else {
            None
        }
    }

    open spec fn fits(v: i8) -> bool {
        true
    }

    proof fn lemma_dec_enc(v: i8, rest: Seq<u8>) {
        lemma_parts(seq![v as u8], rest);
        assert((v as u8) as i8 == v) by (bit_vector);
    }

    proof fn lemma_enc_dec(b: Seq<u8>) {
        if b.len() >= 1 {
            let x = b[0];
            assert((x as i8) as u8 == x) by (bit_vector);
            assert(seq![b[0]] + b.skip(1) =~= b);
        }
    }

    fn write(&self, out: &mut Vec<u8>) -> (ok: bool) {
        let byte: u8 = #[verifier::truncate] (*self as u8);
        out.push(byte);
        assert(out@ =~= old(out)@ + seq![*self as u8]);
        true
    }

    fn read(bytes: &[u8], start: usize) -> (r: Option<(Self, usize)>) {
        if start < bytes.len() {
            proof {
                lemma_skip_more(bytes@, start as int, 1);
            }
            let value: i8 = #[verifier::truncate] (bytes[start] as i8);
            Some((value, start + 1))
        } else {
            None
        }
    }
}

/// 2 bytes, least significant first.
impl Wire for u16 {
    open spec fn enc(v: u16) -> Seq<u8> {
        spec_u16_to_le_bytes(v)
    }

    open spec fn dec(b: Seq<u8>) -> Option<(u16, Seq<u8>)> {
        if b.len() >= 2 {
            Some((spec_u16_from_le_bytes(b.take(2)), b.skip(2)))
        } else {
            None
        }
    }

    open spec fn fits(v: u16) -> bool {
        true
    }

    proof fn lemma_dec_enc(v: u16, rest: Seq<u8>) {
        lemma_auto_spec_u16_to_from_le_bytes();
        lemma_parts(spec_u16_to_le_bytes(v), rest);
    }

    proof fn lemma_enc_dec(b: Seq<u8>) {
        if b.len() >= 2 {
            lemma_auto_spec_u16_to_from_le_bytes();
            lemma_front_back(b, 2);
        }
    }

    fn write(&self, out: &mut Vec<u8>) -> (ok: bool) {
        let mut bytes = u16_to_le_bytes(*self);
        out.append(&mut bytes);
        true
    }

    fn read(bytes: &[u8], start: usize) -> (r: Option<(Self, usize)>) {
        if bytes.len() - start < 2 {
            return None;
        }
        proof {
            lemma_skip_more(bytes@, start as int, 2);
        }
        let value = u16_from_le_bytes(slice_subrange(bytes, start, start + 2));
        Some((value, start + 2))
    }
}

/// 4 bytes, least significant first.
impl Wire for u32 {
    open spec fn enc(v: u32) -> Seq<u8> {
        spec_u32_to_le_bytes(v)
    }

    open spec fn dec(b: Seq<u8>) -> Option<(u32, Seq<u8>)> {
        if b.len() >= 4 {
            Some((spec_u32_from_le_bytes(b.take(4)), b.skip(4)))
        } else {
            None
        }
    }

    open spec fn fits(v: u32) -> bool {
        true
    }

    proof fn lemma_dec_enc(v: u32, rest: Seq<u8>) {
        lemma_auto_spec_u32_to_from_le_bytes();
        lemma_parts(spec_u32_to_le_bytes(v), rest);
    }

    proof fn lemma_enc_dec(b: Seq<u8>) {
        if b.len() >= 4 {
            lemma_auto_spec_u32_to_from_le_bytes();
            lemma_front_back(b, 4);
        }
    }

    fn write(&self, out: &mut Vec<u8>) -> (ok: bool) {
        let mut bytes = u32_to_le_bytes(*self);
        out.append(&mut bytes);
        true
    }

    fn read(bytes: &[u8], start: usize) -> (r: Option<(Self, usize)>) {
        if bytes.len() - start < 4 {
            return None;
        }
        proof {
            lemma_skip_more(bytes@, start as int, 4);
        }
        let value = u32_from_le_bytes(slice_subrange(bytes, start, start + 4));
        Some((value, start + 4))
    }
}

/// 8 bytes, least significant first.
impl Wire for u64 {
    open spec fn enc(v: u64) -> Seq<u8> {
        spec_u64_to_le_bytes(v)
    }

    open spec fn dec(b: Seq<u8>) -> Option<(u64, Seq<u8>)> {
        if b.len() >= 8 {
            Some((spec_u64_from_le_bytes(b.take(8)), b.skip(8)))
        } else {
            None
        }
    }

    open spec fn fits(v: u64) -> bool {
        true
    }

    proof fn lemma_dec_enc(v: u64, rest: Seq<u8>) {
        lemma_auto_spec_u64_to_from_le_bytes();
        lemma_parts(spec_u64_to_le_bytes(v), rest);
    }

    proof fn lemma_enc_dec(b: Seq<u8>) {
        if b.len() >= 8 {
            lemma_auto_spec_u64_to_from_le_bytes();
            lemma_front_back(b, 8);
        }
    }

    fn write(&self, out: &mut Vec<u8>) -> (ok: bool) {
        let mut bytes = u64_to_le_bytes(*self);
        out.append(&mut bytes);
        true
    }

    fn read(bytes: &[u8], start: usize) -> (r: Option<(Self, usize)>) {
        if bytes.len() - start < 8 {
            return None;
        }
        proof {
            lemma_skip_more(bytes@, start as int, 8);
        }
        let value = u64_from_le_bytes(slice_subrange(bytes, start, start + 8));
        Some((value, start + 8))
    }
}

/// 16 bytes, least significant first.
impl Wire for u128 {
    open spec fn enc(v: u128) -> Seq<u8> {
        spec_u128_to_le_bytes(v)
    }

    open spec fn dec(b: Seq<u8>) -> Option<(u128, Seq<u8>)> {
        if b.len() >= 16 {
            Some((spec_u128_from_le_bytes(b.take(16)), b.skip(16)))
        } else {
            None
        }
    }

    open spec fn fits(v: u128) -> bool {
        true
    }

    proof fn lemma_dec_enc(v: u128, rest: Seq<u8>) {
        lemma_auto_spec_u128_to_from_le_bytes();
        lemma_parts(spec_u128_to_le_bytes(v), rest);
    }

    proof fn lemma_enc_dec(b: Seq<u8>) {
        if b.len() >= 16 {
            lemma_auto_spec_u128_to_from_le_bytes();
            lemma_front_back(b, 16);
        }
    }

    fn write(&self, out: &mut Vec<u8>) -> (ok: bool) {
        let mut bytes = u128_to_le_bytes(*self);
        out.append(&mut bytes);
        true
    }

    fn read(bytes: &[u8], start: usize) -> (r: Option<(Self, usize)>) {
        if bytes.len() - start < 16 {
            return None;
        }
        proof {
            lemma_skip_more(bytes@, start as int, 16);
        }
        let value = u128_from_le_bytes(slice_subrange(bytes, start, start + 16));
        Some((value, start + 16))
    }
}

/// 2 bytes in two's complement, least significant first.
impl Wire for i16 {
    open spec fn enc(v: i16) -> Seq<u8> {
        u16::enc(v as u16)
    }

    open spec fn dec(b: Seq<u8>) -> Option<(i16, Seq<u8>)> {
        match u16::dec(b) {
            Some((bits, rest)) => Some((bits as i16, rest)),
            None => None,
        }
    }

    open spec fn fits(v: i16) -> bool {
        true
    }

    proof fn lemma_dec_enc(v: i16, rest: Seq<u8>) {
        u16::lemma_dec_enc(v as u16, rest);
        assert((v as u16) as i16 == v) by (bit_vector);
    }

    proof fn lemma_enc_dec(b: Seq<u8>) {
        u16::lemma_enc_dec(b);
        if let Some((bits, rest)) = u16::dec(b) {
            assert((bits as i16) as u16 == bits) by (bit_vector);
        }
    }

    fn write(&self, out: &mut Vec<u8>) -> (ok: bool) {
        let bits: u16 = #[verifier::truncate] (*self as u16);
        bits.write(out)
    }

    fn read(bytes: &[u8], start: usize) -> (r: Option<(Self, usize)>) {
        match u16::read(bytes, start) {
            Some((bits, end)) => {
                let value: i16 = #[verifier::truncate] (bits as i16);
                Some((value, end))
            },
            None => None,
        }
    }
}

/// 4 bytes in two's complement, least significant first.
impl Wire for i32 {
    open spec fn enc(v: i32) -> Seq<u8> {
        u32::enc(v as u32)
    }

    open spec fn dec(b: Seq<u8>) -> Option<(i32, Seq<u8>)> {
        match u32::dec(b) {
            Some((bits, rest)) => Some((bits as i32, rest)),
            None => None,
        }
    }

    open spec fn fits(v: i32) -> bool {
        true
    }

    proof fn lemma_dec_enc(v: i32, rest: Seq<u8>) {
        u32::lemma_dec_enc(v as u32, rest);
        assert((v as u32) as i32 == v) by (bit_vector);
    }

    proof fn lemma_enc_dec(b: Seq<u8>) {
        u32::lemma_enc_dec(b);
        if let Some((bits, rest)) = u32::dec(b) {
            assert((bits as i32) as u32 == bits) by (bit_vector);
        }
    }

    fn write(&self, out: &mut Vec<u8>) -> (ok: bool) {
        let bits: u32 = #[verifier::truncate] (*self as u32);
        bits.write(out)
    }

    fn read(bytes: &[u8], start: usize) -> (r: Option<(Self, usize)>) {
        match u32::read(bytes, start) {
            Some((bits, end)) => {
                let value: i32 = #[verifier::truncate] (bits as i32);
                Some((value, end))
            },
            None => None,
        }
    }
}

/// 8 bytes in two's complement, least significant first.
impl Wire for i64 {
    open spec fn enc(v: i64) -> Seq<u8> {
        u64::enc(v as u64)
    }

    open spec fn dec(b: Seq<u8>) -> Option<(i64, Seq<u8>)> {
        match u64::dec(b) {
            Some((bits, rest)) => Some((bits as i64, rest)),
            None => None,
        }
    }

    open spec fn fits(v: i64) -> bool {
        true
    }

    proof fn lemma_dec_enc(v: i64, rest: Seq<u8>) {
        u64::lemma_dec_enc(v as u64, rest);
        assert((v as u64) as i64 == v) by (bit_vector);
    }

    proof fn lemma_enc_dec(b: Seq<u8>) {
        u64::lemma_enc_dec(b);
        if let Some((bits, rest)) = u64::dec(b) {
            assert((bits as i64) as u64 == bits) by (bit_vector);
        }
    }

    fn write(&self, out: &mut Vec<u8>) -> (ok: bool) {
        let bits: u64 = #[verifier::truncate] (*self as u64);
        bits.write(out)
    }

    fn read(bytes: &[u8], start: usize) -> (r: Option<(Self, usize)>) {
        match u64::read(bytes, start) {
            Some((bits, end)) => {
                let value: i64 = #[verifier::truncate] (bits as i64);
                Some((value, end))
            },
            None => None,
        }
    }
}

/// `String::from_utf8` of the standard library. The contract claims that it
/// accepts exactly the byte sequences that are well-formed UTF-8, and that
/// the text it returns has the given bytes as its UTF-8 encoding.
#[verifier::external_body]
fn text_from_utf8(bytes: Vec<u8>) -> (r: Option<String>)
    ensures
        match r {
            Some(s) => valid_utf8(bytes@) && encode_utf8(s@) == bytes@,
            None => !valid_utf8(bytes@),
        },
{
    match String::from_utf8(bytes) {
        Ok(s) => Some(s),
        Err(_) => None,
    }
}

/// The length of the UTF-8 text in bytes as a `u32`, then the text.
impl Wire for String {
    open spec fn enc(v: Seq<char>) -> Seq<u8> {
        u32::enc(encode_utf8(v).len() as u32) + encode_utf8(v)
    }

    open spec fn dec(b: Seq<u8>) -> Option<(Seq<char>, Seq<u8>)> {
        match u32::dec(b) {
            Some((n, rest)) => if n <= rest.len() && valid_utf8(rest.take(n as int)) {
                Some((decode_utf8(rest.take(n as int)), rest.skip(n as int)))
            } else {
                None
            },
            None => None,
        }
    }

    open spec fn fits(v: Seq<char>) -> bool {
        encode_utf8(v).len() <= u32::MAX
    }

    proof fn lemma_dec_enc(v: Seq<char>, rest: Seq<u8>) {
        let text = encode_utf8(v);
        lemma_concat_assoc(u32::enc(text.len() as u32), text, rest);
        u32::lemma_dec_enc(text.len() as u32, text + rest);
        lemma_parts(text, rest);
        encode_utf8_valid_utf8(v);
        encode_utf8_decode_utf8(v);
    }

    proof fn lemma_enc_dec(b: Seq<u8>) {
        u32::lemma_enc_dec(b);
        if let Some((n, rest)) = u32::dec(b) {
            if n <= rest.len() && valid_utf8(rest.take(n as int)) {
                let text = rest.take(n as int);
                decode_utf8_encode_utf8(text);
                lemma_front_back(rest, n as int);
                lemma_concat_assoc(u32::enc(n), text, rest.skip(n as int));
            }
        }
    }

    fn write(&self, out: &mut Vec<u8>) -> (ok: bool) {
        let text = self.as_str().as_bytes();
        if text.len() > u32::MAX as usize {
            return false;
        }
        let length: u32 = text.len() as u32;
        let _ = length.write(out);
        let ghost before = out@;
        out.extend_from_slice(text);
        assert(out@ =~= before + text@);
        proof {
            lemma_concat_assoc(old(out)@, u32::enc(length), text@);
        }
        true
    }

    fn read(bytes: &[u8], start: usize) -> (r: Option<(Self, usize)>) {
        let (length, at) = match u32::read(bytes, start) {
            Some(found) => found,
            None => {
                return None;
            },
        };
        if bytes.len() - at < length as usize {
            return None;
        }
        let end: usize = at + length as usize;
        proof {
            lemma_skip_more(bytes@, at as int, length as int);
        }
        let text = slice_to_vec(slice_subrange(bytes, at, end));
        match text_from_utf8(text) {
            Some(s) => {
                proof {
                    encode_utf8_decode_utf8(s@);
                }
                Some((s, end))
            },
            None => None,
        }
    }
}

/// The bytes of the items of a sequence, one after the other.
pub open spec fn enc_items<T: Wire>(s: Seq<T::V>) -> Seq<u8>
    decreases s.len(),
{
    if s.len() == 0 {
        Seq::empty()
    } else {
        T::enc(s[0]) + enc_items::<T>(s.skip(1))
    }
}

/// The `n` items at the front of a byte sequence, and the bytes behind them.
pub open spec fn dec_items<T: Wire>(b: Seq<u8>, n: nat) -> Option<(Seq<T::V>, Seq<u8>)>
    decreases n,
{
    if n == 0 {
        Some((Seq::empty(), b))
    } else {
        match T::dec(b) {
            Some((first, rest)) => match dec_items::<T>(rest, (n - 1) as nat) {
                Some((others, behind)) => Some((seq![first] + others, behind)),
                None => None,
            },
            None => None,
        }
    }
}

/// Whether every item of a sequence can be encoded.
pub open spec fn items_fit<T: Wire>(s: Seq<T::V>) -> bool {
    forall|i: int| 0 <= i < s.len() ==> T::fits(#[trigger] s[i])
}

/// Decoding reads back the items that were encoded, and leaves what follows.
pub proof fn lemma_dec_enc_items<T: Wire>(s: Seq<T::V>, rest: Seq<u8>)
    requires
        items_fit::<T>(s),
    ensures
        dec_items::<T>(enc_items::<T>(s) + rest, s.len()) == Some((s, rest)),
    decreases s.len(),
{
    if s.len() > 0 {
        let others = s.skip(1);
        assert(T::fits(s[0]));
        assert forall|i: int| 0 <= i < others.len() implies T::fits(#[trigger] others[i]) by {
            assert(others[i] == s[i + 1]);
        }
        lemma_concat_assoc(T::enc(s[0]), enc_items::<T>(others), rest);
        T::lemma_dec_enc(s[0], enc_items::<T>(others) + rest);
        lemma_dec_enc_items::<T>(others, rest);
        assert(seq![s[0]] + others =~= s);
    }
}

/// Items that decode are encoded by the bytes they were read from.
pub proof fn lemma_enc_dec_items<T: Wire>(b: Seq<u8>, n: nat)
    ensures
        dec_items::<T>(b, n) matches Some((s, rest)) ==> s.len() == n && items_fit::<T>(s) && b
            == enc_items::<T>(s) + rest,
    decreases n,
{
    if n == 0 {
        assert(Seq::<u8>::empty() + b =~= b);
    } else {
        T::lemma_enc_dec(b);
        if let Some((first, after)) = T::dec(b) {
            lemma_enc_dec_items::<T>(after, (n - 1) as nat);
            if let Some((others, rest)) = dec_items::<T>(after, (n - 1) as nat) {
                let s = seq![first] + others;
                assert(s.skip(1) =~= others);
                assert(s[0] == first);
                assert forall|i: int| 0 <= i < s.len() implies T::fits(#[trigger] s[i]) by {
                    if i > 0 {
                        assert(s[i] == others[i - 1]);
                    }
                }
                lemma_concat_assoc(T::enc(first), enc_items::<T>(others), rest);
            }
        }
    }
}

/// Reading `n` items is reading one and then the other `n - 1`.
proof fn lemma_dec_items_step<T: Wire>(b: Seq<u8>, n: nat)
    requires
        n > 0,
    ensures
        dec_items::<T>(b, n) == match T::dec(b) {
            Some((first, rest)) => match dec_items::<T>(rest, (n - 1) as nat) {
                Some((others, behind)) => Some((seq![first] + others, behind)),
                None => None,
            },
            None => None,
        },
{
}

/// The number of items as a `u32`, then the items in order.
impl<T: Wire> Wire for Vec<T> {
    open spec fn enc(v: Seq<T::V>) -> Seq<u8> {
        u32::enc(v.len() as u32) + enc_items::<T>(v)
    }

    open spec fn dec(b: Seq<u8>) -> Option<(Seq<T::V>, Seq<u8>)> {
        match u32::dec(b) {
            Some((n, rest)) => dec_items::<T>(rest, n as nat),
            None => None,
        }
    }

    open spec fn fits(v: Seq<T::V>) -> bool {
        v.len() <= u32::MAX && items_fit::<T>(v)
    }

    proof fn lemma_dec_enc(v: Seq<T::V>, rest: Seq<u8>) {
        lemma_concat_assoc(u32::enc(v.len() as u32), enc_items::<T>(v), rest);
        u32::lemma_dec_enc(v.len() as u32, enc_items::<T>(v) + rest);
        lemma_dec_enc_items::<T>(v, rest);
    }

    proof fn lemma_enc_dec(b: Seq<u8>) {
        u32::lemma_enc_dec(b);
        if let Some((n, after)) = u32::dec(b) {
            lemma_enc_dec_items::<T>(after, n as nat);
            if let Some((s, rest)) = dec_items::<T>(after, n as nat) {
                lemma_concat_assoc(u32::enc(n), enc_items::<T>(s), rest);
            }
        }
    }

    fn write(&self, out: &mut Vec<u8>) -> (ok: bool) {
        if self.len() > u32::MAX as usize {
            return false;
        }
        let count: u32 = self.len() as u32;
        let _ = count.write(out);
        let ghost items = self.deep_view();
        let ghost target = old(out)@ + Self::enc(items);
        proof {
            lemma_concat_assoc(old(out)@, u32::enc(count), enc_items::<T>(items));
            assert(items.skip(0) =~= items);
        }
        let mut i: usize = 0;
        while i < self.len()
            invariant
                i <= self.len(),
                items == self.deep_view(),
                items.len() == self.len(),
                out@ + enc_items::<T>(items.skip(i as int)) == target,
                forall|j: int| 0 <= j < i ==> T::fits(#[trigger] items[j]),
            decreases self.len() - i,
        {
            let ghost before = out@;
            let ghost remaining = items.skip(i as int);
            assert(remaining[0] == self[i as int].deep_view());
            assert(remaining.skip(1) =~= items.skip(i + 1));
            let ok = self[i].write(out);
            if !ok {
                assert(!T::fits(items[i as int]));
                return false;
            }
            proof {
                lemma_concat_assoc(
                    before,
                    T::enc(remaining[0]),
                    enc_items::<T>(items.skip(i + 1)),
                );
            }
            i += 1;
        }
        assert(enc_items::<T>(items.skip(i as int)) =~= Seq::<u8>::empty());
        assert(out@ + Seq::<u8>::empty() =~= out@);
        true
    }

    fn read(bytes: &[u8], start: usize) -> (r: Option<(Self, usize)>) {
        let (count, first) = match u32::read(bytes, start) {
            Some(found) => found,
            None => {
                return None;
            },
        };
        let ghost whole = dec_items::<T>(bytes@.skip(first as int), count as nat);
        let mut out: Vec<T> = Vec::new();
        let mut at: usize = first;
        let mut i: u32 = 0;
        assert(Seq::<T::V>::empty() + Seq::<T::V>::empty() =~= Seq::<T::V>::empty());
        assert(out.deep_view() =~= Seq::<T::V>::empty());
        while i < count
            invariant
                i <= count,
                first <= at <= bytes@.len(),
                Self::dec(bytes@.skip(start as int)) == whole,
                whole == dec_items::<T>(bytes@.skip(first as int), count as nat),
                whole == match dec_items::<T>(bytes@.skip(at as int), (count - i) as nat) {
                    Some((others, behind)) => Some((out.deep_view() + others, behind)),
                    None => None,
                },
            decreases count - i,
        {
            proof {
                lemma_dec_items_step::<T>(bytes@.skip(at as int), (count - i) as nat);
            }
            match T::read(bytes, at) {
                Some((item, end)) => {
                    let ghost before = out.deep_view();
                    let ghost model = item.deep_view();
                    out.push(item);
                    proof {
                        assert(out.deep_view() =~= before + seq![model]);
                        match dec_items::<T>(bytes@.skip(end as int), (count - i - 1) as nat) {
                            Some((others, behind)) => {
                                assert(before + (seq![model] + others) =~= (before + seq![
                                    model,
                                ]) + others);
                            },
                            None => {},
                        }
                    }
                    at = end;
                },
                None => {
                    return None;
                },
            }
            i += 1;
        }
        assert(out.deep_view() + Seq::<T::V>::empty() =~= out.deep_view());
        Some((out, at))
    }
}

/// One byte that tells the variant, 0 for a present value and 1 for an
/// absent one, then the value where it is present.
impl<T: Wire> Wire for Option<T> {
    open spec fn enc(v: Option<T::V>) -> Seq<u8> {
        match v {
            Some(x) => seq![0u8] + T::enc(x),
            None => seq![1u8],
        }
    }

    open spec fn dec(b: Seq<u8>) -> Option<(Option<T::V>, Seq<u8>)> {
        if b.len() == 0 {
            None
        } else if b[0] == 0 {
            match T::dec(b.skip(1)) {
                Some((x, rest)) => Some((Some(x), rest)),
                None => None,
            }
        } else if b[0] == 1 {
            Some((None, b.skip(1)))
        } else {
            None
        }
    }

    open spec fn fits(v: Option<T::V>) -> bool {
        match v {
            Some(x) => T::fits(x),
            None => true,
        }
    }

    proof fn lemma_dec_enc(v: Option<T::V>, rest: Seq<u8>) {
        match v {
            Some(x) => {
                lemma_concat_assoc(seq![0u8], T::enc(x), rest);
                lemma_parts(seq![0u8], T::enc(x) + rest);
                T::lemma_dec_enc(x, rest);
            },
            None => {
                lemma_parts(seq![1u8], rest);
            },
        }
    }

    proof fn lemma_enc_dec(b: Seq<u8>) {
        if b.len() > 0 {
            assert(seq![b[0]] + b.skip(1) =~= b);
            if b[0] == 0 {
                T::lemma_enc_dec(b.skip(1));
                if let Some((x, rest)) = T::dec(b.skip(1)) {
                    lemma_concat_assoc(seq![0u8], T::enc(x), rest);
                }
            }
        }
    }

    fn write(&self, out: &mut Vec<u8>) -> (ok: bool) {
        match self {
            Some(x) => {
                out.push(0u8);
                assert(out@ =~= old(out)@ + seq![0u8]);
                proof {
                    lemma_concat_assoc(old(out)@, seq![0u8], T::enc(x.deep_view()));
                }
                x.write(out)
            },
            None => {
                out.push(1u8);
                assert(out@ =~= old(out)@ + seq![1u8]);
                true
            },
        }
    }

    fn read(bytes: &[u8], start: usize) -> (r: Option<(Self, usize)>) {
        if start >= bytes.len() {
            return None;
        }
        proof {
            lemma_skip_more(bytes@, start as int, 1);
        }
        let tag: u8 = bytes[start];
        if tag == 0 {
            match T::read(bytes, start + 1) {
                Some((x, end)) => Some((Some(x), end)),
                None => None,
            }
        } else if tag == 1 {
            Some((None, start + 1))
        } else {
            None
        }
    }
}

/// The encoding of a whole value, where it has one.
pub open spec fn encoded<T: Wire>(v: T::V) -> Option<Seq<u8>> {
    if T::fits(v) {
        Some(T::enc(v))
    } else {
        None
    }
}

/// The value that a byte sequence holds, where it holds exactly one.
pub open spec fn decoded<T: Wire>(b: Seq<u8>) -> Option<T::V> {
    match T::dec(b) {
        Some((v, rest)) => if rest.len() == 0 {
            Some(v)
        } else {
            None
        },
        None => None,
    }
}

/// Encodes a value. A value with a length that does not fit its prefix has
/// no encoding.
pub fn encode<T: Wire>(value: &T) -> (r: Result<Vec<u8>, StoreError>)
    ensures
        match r {
            Ok(bytes) => encoded::<T>(value.deep_view()) == Some(bytes@),
            Err(e) => e == StoreError::EncodingError && encoded::<T>(value.deep_view()) is None,
        },
{
    let mut out: Vec<u8> = Vec::new();
    if value.write(&mut out) {
        assert(Seq::<u8>::empty() + T::enc(value.deep_view()) =~= T::enc(value.deep_view()));
        Ok(out)
    } else {
        Err(StoreError::EncodingError)
    }
}

/// Decodes a value from bytes that hold it and nothing else.
pub fn decode<T: Wire>(bytes: &[u8]) -> (r: Result<T, StoreError>)
    ensures
        match r {
            Ok(value) => decoded::<T>(bytes@) == Some(value.deep_view()),
            Err(e) => e == StoreError::EncodingError && decoded::<T>(bytes@) is None,
        },
{
    assert(bytes@.skip(0) =~= bytes@);
    match T::read(bytes, 0) {
        Some((value, end)) => {
            if end == bytes.len() {
                Ok(value)
            } else {
                Err(StoreError::EncodingError)
            }
        },
        None => Err(StoreError::EncodingError),
    }
}

/// Round trip from values: what was encoded decodes to the same value.
pub proof fn lemma_decode_encode<T: Wire>(v: T::V)
    requires
        T::fits(v),
    ensures
        encoded::<T>(v) matches Some(bytes) && decoded::<T>(bytes) == Some(v),
{
    T::lemma_dec_enc(v, Seq::empty());
    assert(T::enc(v) + Seq::<u8>::empty() =~= T::enc(v));
}

/// Round trip from bytes: what decodes encodes to the same bytes.
pub proof fn lemma_encode_decode<T: Wire>(b: Seq<u8>)
    ensures
        decoded::<T>(b) matches Some(v) ==> encoded::<T>(v) == Some(b),
{
    T::lemma_enc_dec(b);
    if let Some((v, rest)) = T::dec(b) {
        if rest.len() == 0 {
            assert(T::enc(v) + rest =~= T::enc(v));
        }
    }
}

} // verus!
