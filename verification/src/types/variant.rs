//! The values of columns: what each operation on them yields.
//!
//! Sums, products and quotients of doubles, their conversions and their
//! decimal text are what the host computes. The spec functions take them
//! from a `FloatModel`, their parameter `floats`; the executable functions
//! take the host and state their results for its model.

use vstd::prelude::*;
use vstd::std_specs::cmp::PartialEqSpecImpl;
use vstd::utf8::{decode_utf8, encode_utf8, valid_utf8};
use crate::byteutils::{
    be_bytes, be_value, dbfloat_key, dbfloat_unkey, half_range, lex_less, pow256, read_dbfloat,
    read_sdbinteger, read_udbinteger, sdb_biased, write_dbfloat, write_sdbinteger,
    write_udbinteger,
};
use crate::floatops::{
    float_of_signed, float_of_unsigned, float_parsed, float_product, float_quotient, float_sum,
    float_text, float_to_signed, float_to_unsigned, FloatModel, FloatOps,
};
use crate::text::{
    chars_of, decimal_chars, parse_signed, parse_unsigned, push_decimal, push_signed, signed_chars,
    signed_of, string_of, unsigned_of,
};
use crate::types::f64nonan::{is_nan, is_zero, negated, numeric_order, F64NoNaN};
use crate::types::DbType;

verus! {

/// A value as mathematics sees it.
pub enum Value {
    Null,
    Bytes(Seq<u8>),
    StringLiteral(Seq<char>),
    SignedInteger(i64),
    UnsignedInteger(u64),
    /// A double, by its bit pattern.
    Float(u64),
}

/// The text that `String::from_utf8_lossy` makes of `bytes`.
pub uninterp spec fn utf8_lossy_text(bytes: Seq<u8>) -> Seq<char>;

/// The text that is read from `bytes`: what they spell where they are
/// UTF-8, and else what lossy decoding makes of them.
pub open spec fn lossy_text(bytes: Seq<u8>) -> Seq<char> {
    if valid_utf8(bytes) {
        decode_utf8(bytes)
    } else {
        utf8_lossy_text(bytes)
    }
}

/// Calls `String::from_utf8_lossy`, which decodes UTF-8 and puts U+FFFD in
/// the place of what is no UTF-8. The contract says, as the documentation
/// of std does, that valid UTF-8 is decoded as it stands; what comes of
/// other bytes it only names.
#[verifier::external_body]
fn utf8_lossy(bytes: &[u8]) -> (r: String)
    ensures
        r@ == (if valid_utf8(bytes@) {
            decode_utf8(bytes@)
        } else {
            utf8_lossy_text(bytes@)
        }),
{
    String::from_utf8_lossy(bytes).into_owned()
}

/// The signed number with the same 64 bits as `u`.
pub open spec fn as_signed(u: u64) -> i64 {
    if u < 0x8000_0000_0000_0000 {
        u as i64
    } else {
        (u - 0x1_0000_0000_0000_0000) as i64
    }
}

/// The unsigned number with the same 64 bits as `i`.
pub open spec fn as_unsigned(i: i64) -> u64 {
    if i >= 0 {
        i as u64
    } else {
        (i + 0x1_0000_0000_0000_0000) as u64
    }
}

/// `x` reduced to 64 bits, unsigned.
pub open spec fn wrap_unsigned(x: int) -> u64 {
    (x % 0x1_0000_0000_0000_0000) as u64
}

/// `x` reduced to 64 bits, signed.
pub open spec fn wrap_signed(x: int) -> i64 {
    as_signed(wrap_unsigned(x))
}

/// The quotient of two integers, rounded towards zero.
pub open spec fn quotient_toward_zero(a: int, b: int) -> int
    recommends
        b != 0,
{
    if a >= 0 && b > 0 {
        a / b
    } else if a >= 0 {
        -(a / (-b))
    } else if b > 0 {
        -((-a) / b)
    } else {
        (-a) / (-b)
    }
}

/// The text of a byte array: its numbers between brackets, with `, `
/// between them.
pub open spec fn bytes_text(bytes: Seq<u8>) -> Seq<char> {
    seq!['['] + bytes_list_text(bytes) + seq![']']
}

/// The numbers of a byte array with `, ` between them.
pub open spec fn bytes_list_text(bytes: Seq<u8>) -> Seq<char>
    decreases bytes.len(),
{
    if bytes.len() == 0 {
        Seq::empty()
    } else if bytes.len() == 1 {
        decimal_chars(bytes[0] as nat)
    } else {
        bytes_list_text(bytes.drop_last()) + seq![',', ' '] + decimal_chars(bytes.last() as nat)
    }
}

/// Order of two byte strings: `-1`, `0` or `1`.
pub open spec fn lex_order(a: Seq<u8>, b: Seq<u8>) -> int {
    if a == b {
        0
    } else if lex_less(a, b) {
        -1
    } else {
        1
    }
}

/// Order of two numbers: `-1`, `0` or `1`.
pub open spec fn int_order(a: int, b: int) -> int {
    if a < b {
        -1
    } else if a > b {
        1
    } else {
        0
    }
}

/// The value that stands for a truth value: `1` is true, `-1` is false and
/// `0` is unknown.
pub open spec fn value_from_3vl(code: int) -> Value {
    if code == 0 {
        Value::Null
    } else if code > 0 {
        Value::UnsignedInteger(1)
    } else {
        Value::UnsignedInteger(0)
    }
}

/// The value of a double that an operation gave: NULL in the place of NaN.
pub open spec fn float_result(bits: u64) -> Value {
    if is_nan(bits) {
        Value::Null
    } else {
        Value::Float(bits)
    }
}

impl Value {
    /// A double is never NaN, and the length of a byte array is a 64-bit
    /// number.
    pub open spec fn wf(self) -> bool {
        match self {
            Value::Float(bits) => !is_nan(bits),
            Value::Bytes(bytes) => bytes.len() <= u64::MAX,
            _ => true,
        }
    }

    /// Whether the type holds the value as it is: the value has the type
    /// without a cast, and an integer is within the range of its width.
    pub open spec fn fits(self, dbtype: DbType) -> bool {
        match (self, dbtype) {
            (Value::Bytes(_), DbType::ByteDynamic) => true,
            (Value::Bytes(bytes), DbType::ByteFixed(n)) => bytes.len() == n,
            (Value::StringLiteral(_), DbType::String) => true,
            (Value::SignedInteger(v), DbType::Integer { signed: true, bytes }) => {
                &&& 1 <= bytes <= 8
                &&& -half_range(bytes as nat) <= v < half_range(bytes as nat)
            },
            (Value::UnsignedInteger(v), DbType::Integer { signed: false, bytes }) => {
                &&& 1 <= bytes <= 8
                &&& v < pow256(bytes as nat)
            },
            (Value::Float(_), DbType::F64) => true,
            _ => false,
        }
    }

    /// The type that the value has by itself.
    pub open spec fn dbtype(self) -> DbType {
        match self {
            Value::Null => DbType::Null,
            Value::Bytes(bytes) => DbType::ByteFixed(bytes.len() as u64),
            Value::StringLiteral(_) => DbType::String,
            Value::SignedInteger(_) => DbType::Integer { signed: true, bytes: 8 },
            Value::UnsignedInteger(_) => DbType::Integer { signed: false, bytes: 8 },
            Value::Float(_) => DbType::F64,
        }
    }

    /// The truth value: `0` for NULL, `1` for what is not empty and not
    /// zero, `-1` for the rest.
    pub open spec fn to_3vl(self) -> int {
        match self {
            Value::Null => 0,
            Value::Bytes(bytes) => if bytes.len() > 0 {
                1
            } else {
                -1
            },
            Value::StringLiteral(s) => if s.len() > 0 {
                1
            } else {
                -1
            },
            Value::SignedInteger(n) => if n != 0 {
                1
            } else {
                -1
            },
            Value::UnsignedInteger(n) => if n != 0 {
                1
            } else {
                -1
            },
            Value::Float(bits) => if !is_zero(bits) {
                1
            } else {
                -1
            },
        }
    }

    /// The text of the value.
    pub open spec fn text(self, floats: FloatModel) -> Seq<char> {
        match self {
            Value::Null => "NULL"@,
            Value::Bytes(bytes) => bytes_text(bytes),
            Value::StringLiteral(s) => s,
            Value::SignedInteger(n) => signed_chars(n as int),
            Value::UnsignedInteger(n) => decimal_chars(n as nat),
            Value::Float(bits) => float_text(floats, bits),
        }
    }

    /// The stored form of a value that already has the type: byte arrays
    /// as they are; integers most significant byte first, signed ones
    /// moved up by half their range; doubles by their sort key; strings as
    /// UTF-8 with a zero byte behind. NULL has no stored form.
    pub open spec fn encoded(self, dbtype: DbType) -> Option<Seq<u8>> {
        match (self, dbtype) {
            (Value::Bytes(bytes), DbType::ByteDynamic) => Some(bytes),
            (Value::Bytes(bytes), DbType::ByteFixed(n)) => if bytes.len() == n {
                Some(bytes)
            } else {
                None
            },
            (Value::StringLiteral(s), DbType::String) => Some(encode_utf8(s).push(0u8)),
            (Value::SignedInteger(v), DbType::Integer { signed: true, bytes }) => if 1 <= bytes
                <= 8 {
                Some(be_bytes(sdb_biased(v as int, bytes as nat), bytes as nat))
            } else {
                None
            },
            (Value::UnsignedInteger(v), DbType::Integer { signed: false, bytes }) => if 1 <= bytes
                <= 8 {
                Some(be_bytes(v as nat, bytes as nat))
            } else {
                None
            },
            (Value::Float(bits), DbType::F64) => Some(be_bytes(dbfloat_key(bits) as nat, 8)),
            _ => None,
        }
    }

    /// The value that `bytes` store under the type; `None` where the
    /// length does not fit a type of fixed length, where a string lacks its
    /// final zero byte, or where the bytes of a double spell a NaN.
    pub open spec fn decoded(dbtype: DbType, bytes: Seq<u8>) -> Option<Value> {
        match dbtype {
            DbType::Null => if bytes.len() == 0 {
                Some(Value::Null)
            } else {
                None
            },
            DbType::ByteDynamic => Some(Value::Bytes(bytes)),
            DbType::ByteFixed(n) => if bytes.len() == n {
                Some(Value::Bytes(bytes))
            } else {
                None
            },
            DbType::Integer { signed, bytes: n } => if bytes.len() == n && 1 <= n <= 8 {
                if signed {
                    Some(Value::SignedInteger((be_value(bytes) - half_range(n as nat)) as i64))
                } else {
                    Some(Value::UnsignedInteger(be_value(bytes) as u64))
                }
            } else {
                None
            },
            DbType::F64 => if bytes.len() == 8 && !is_nan(dbfloat_unkey(be_value(bytes) as u64)) {
                Some(Value::Float(dbfloat_unkey(be_value(bytes) as u64)))
            } else {
                None
            },
            DbType::String => if bytes.len() > 0 && bytes.last() == 0 {
                Some(Value::StringLiteral(lossy_text(bytes.drop_last())))
            } else {
                None
            },
        }
    }

    /// The value taken as one of the given type: itself where it has the
    /// type; its text as a string; its stored form as a byte array; what a
    /// byte array stores under the type; a double cut to an integer and an
    /// integer as the nearest double; an integer with its bits kept under
    /// the other sign. `None` for every other pair.
    pub open spec fn cast(self, floats: FloatModel, dbtype: DbType) -> Option<Value> {
        match (self, dbtype) {
            (Value::Null, DbType::Null) => Some(self),
            (Value::Bytes(_), DbType::ByteDynamic) => Some(self),
            (Value::StringLiteral(_), DbType::String) => Some(self),
            (Value::SignedInteger(_), DbType::Integer { signed: true, .. }) => Some(self),
            (Value::UnsignedInteger(_), DbType::Integer { signed: false, .. }) => Some(self),
            (Value::Float(_), DbType::F64) => Some(self),
            (_, DbType::String) => Some(Value::StringLiteral(self.text(floats))),
            (_, DbType::ByteDynamic) => match self.encoded(self.dbtype()) {
                Some(bytes) => Some(Value::Bytes(bytes)),
                None => None,
            },
            (Value::Bytes(bytes), _) => Value::decoded(dbtype, bytes),
            (Value::Float(bits), DbType::Integer { signed, .. }) => if signed {
                Some(Value::SignedInteger(float_to_signed(floats, bits)))
            } else {
                Some(Value::UnsignedInteger(float_to_unsigned(floats, bits)))
            },
            (Value::UnsignedInteger(n), DbType::F64) => if is_nan(float_of_unsigned(floats, n)) {
                None
            } else {
                Some(Value::Float(float_of_unsigned(floats, n)))
            },
            (Value::SignedInteger(n), DbType::F64) => if is_nan(float_of_signed(floats, n)) {
                None
            } else {
                Some(Value::Float(float_of_signed(floats, n)))
            },
            (Value::UnsignedInteger(n), DbType::Integer { signed: true, .. }) => Some(
                Value::SignedInteger(as_signed(n)),
            ),
            (Value::SignedInteger(n), DbType::Integer { signed: false, .. }) => Some(
                Value::UnsignedInteger(as_unsigned(n)),
            ),
            _ => None,
        }
    }

    /// The stored form of the value under the type: the value is cast to
    /// the type and then encoded.
    pub open spec fn to_bytes(self, floats: FloatModel, dbtype: DbType) -> Option<Seq<u8>> {
        match self.cast(floats, dbtype) {
            Some(v) => v.encoded(dbtype),
            None => None,
        }
    }

    /// Order of two values of one kind: `-1`, `0` or `1`. Strings go by
    /// their UTF-8 bytes, doubles by their numeric order.
    pub open spec fn order(self, other: Value) -> Option<int> {
        match (self, other) {
            (Value::UnsignedInteger(l), Value::UnsignedInteger(r)) => Some(
                int_order(l as int, r as int),
            ),
            (Value::SignedInteger(l), Value::SignedInteger(r)) => Some(
                int_order(l as int, r as int),
            ),
            (Value::Float(l), Value::Float(r)) => Some(numeric_order(l, r)),
            (Value::Bytes(l), Value::Bytes(r)) => Some(lex_order(l, r)),
            (Value::StringLiteral(l), Value::StringLiteral(r)) => Some(
                lex_order(encode_utf8(l), encode_utf8(r)),
            ),
            _ => None,
        }
    }

    /// Comparison: `None` where either value is NULL or `rhs` cannot be
    /// cast to the type of `self`; else the order of `self` and the cast
    /// `rhs`.
    pub open spec fn compare(self, floats: FloatModel, rhs: Value) -> Option<int> {
        if self is Null || rhs is Null {
            None
        } else {
            match rhs.cast(floats, self.dbtype()) {
                Some(r) => self.order(r),
                None => None,
            }
        }
    }

    /// The sum; `self` where `rhs` cannot be cast to its type or it is no
    /// number. Integers wrap around.
    pub open spec fn add(self, floats: FloatModel, rhs: Value) -> Value {
        match (self, rhs.cast(floats, self.dbtype())) {
            (Value::UnsignedInteger(l), Some(Value::UnsignedInteger(r))) => Value::UnsignedInteger(
                wrap_unsigned(l + r),
            ),
            (Value::SignedInteger(l), Some(Value::SignedInteger(r))) => Value::SignedInteger(
                wrap_signed(l + r),
            ),
            (Value::Float(l), Some(Value::Float(r))) => float_result(float_sum(floats, l, r)),
            _ => self,
        }
    }

    /// The difference; `self` where `rhs` cannot be cast to its type or it
    /// is no number. Integers wrap around.
    pub open spec fn sub(self, floats: FloatModel, rhs: Value) -> Value {
        match (self, rhs.cast(floats, self.dbtype())) {
            (Value::UnsignedInteger(l), Some(Value::UnsignedInteger(r))) => Value::UnsignedInteger(
                wrap_unsigned(l - r),
            ),
            (Value::SignedInteger(l), Some(Value::SignedInteger(r))) => Value::SignedInteger(
                wrap_signed(l - r),
            ),
            (Value::Float(l), Some(Value::Float(r))) => float_result(float_sum(
                floats,
                l,
                negated(r),
            )),
            _ => self,
        }
    }

    /// The product; `self` where `rhs` cannot be cast to its type or it is
    /// no number. Integers wrap around.
    pub open spec fn mul(self, floats: FloatModel, rhs: Value) -> Value {
        match (self, rhs.cast(floats, self.dbtype())) {
            (Value::UnsignedInteger(l), Some(Value::UnsignedInteger(r))) => Value::UnsignedInteger(
                wrap_unsigned(l * r),
            ),
            (Value::SignedInteger(l), Some(Value::SignedInteger(r))) => Value::SignedInteger(
                wrap_signed(l * r),
            ),
            (Value::Float(l), Some(Value::Float(r))) => float_result(float_product(floats, l, r)),
            _ => self,
        }
    }

    /// The quotient, NULL where the divisor is zero; `self` where `rhs`
    /// cannot be cast to its type or it is no number. Integers round
    /// towards zero and wrap around.
    pub open spec fn div(self, floats: FloatModel, rhs: Value) -> Value {
        match (self, rhs.cast(floats, self.dbtype())) {
            (Value::UnsignedInteger(l), Some(Value::UnsignedInteger(r))) => if r == 0 {
                Value::Null
            } else {
                Value::UnsignedInteger((l / r) as u64)
            },
            (Value::SignedInteger(l), Some(Value::SignedInteger(r))) => if r == 0 {
                Value::Null
            } else {
                Value::SignedInteger(wrap_signed(quotient_toward_zero(l as int, r as int)))
            },
            (Value::Float(l), Some(Value::Float(r))) => if is_zero(r) {
                Value::Null
            } else {
                float_result(float_quotient(floats, l, r))
            },
            _ => self,
        }
    }

    /// The negated number, as a signed integer or a double; anything else
    /// is returned as it is.
    pub open spec fn negate(self) -> Value {
        match self {
            Value::SignedInteger(n) => Value::SignedInteger(wrap_signed(-(n as int))),
            Value::UnsignedInteger(n) => Value::SignedInteger(wrap_signed(-(n as int))),
            Value::Float(bits) => Value::Float(negated(bits)),
            _ => self,
        }
    }

    /// A string with the text of `rhs` behind it; anything but a string is
    /// returned as it is.
    pub open spec fn concat(self, floats: FloatModel, rhs: Value) -> Value {
        match self {
            Value::StringLiteral(l) => Value::StringLiteral(l + rhs.text(floats)),
            _ => self,
        }
    }

    /// The value that a number literal spells: an unsigned integer where
    /// it is one, else a signed integer, else a double.
    pub open spec fn from_number_literal(floats: FloatModel, s: Seq<char>) -> Option<Value> {
        match unsigned_of(s) {
            Some(n) => Some(Value::UnsignedInteger(n)),
            None => match signed_of(s) {
                Some(n) => Some(Value::SignedInteger(n)),
                None => match float_parsed(floats, s) {
                    Some(bits) => if is_nan(bits) {
                        None
                    } else {
                        Some(Value::Float(bits))
                    },
                    None => None,
                },
            },
        }
    }
}

/// A value of a column.
#[derive(Debug)]
pub enum Variant {
    Null,
    Bytes(Vec<u8>),
    StringLiteral(String),
    SignedInteger(i64),
    UnsignedInteger(u64),
    Float(F64NoNaN),
}

impl View for Variant {
    type V = Value;

    open spec fn view(&self) -> Value {
        match self {
            Variant::Null => Value::Null,
            Variant::Bytes(bytes) => Value::Bytes(bytes@),
            Variant::StringLiteral(s) => Value::StringLiteral(s@),
            Variant::SignedInteger(n) => Value::SignedInteger(*n),
            Variant::UnsignedInteger(n) => Value::UnsignedInteger(*n),
            Variant::Float(f) => Value::Float(f@),
        }
    }
}

/// The values that a row of variants stands for.
pub open spec fn row_view(row: Seq<Variant>) -> Seq<Value> {
    Seq::new(row.len(), |i: int| row[i]@)
}

/// The value behind an optional variant.
pub open spec fn option_view(v: Option<Variant>) -> Option<Value> {
    match v {
        Some(v) => Some(v@),
        None => None,
    }
}

/// Whether two byte strings are the same.
pub fn bytes_eq(a: &[u8], b: &[u8]) -> (r: bool)
    ensures
        r == (a@ == b@),
{
    if a.len() != b.len() {
        return false;
    }
    let mut i: usize = 0;
    while i < a.len()
        invariant
            a@.len() == b@.len(),
            i <= a@.len(),
            a@.take(i as int) == b@.take(i as int),
        decreases a@.len() - i,
    {
        if a[i] != b[i] {
            return false;
        }
        proof {
            assert(a@.take(i as int + 1) =~= a@.take(i as int).push(a@[i as int]));
            assert(b@.take(i as int + 1) =~= b@.take(i as int).push(b@[i as int]));
        }
        i = i + 1;
    }
    proof {
        assert(a@.take(a@.len() as int) =~= a@);
        assert(b@.take(b@.len() as int) =~= b@);
    }
    true
}

/// Dropping a common first byte leaves the order as it is.
proof fn lemma_lex_order_step(a: Seq<u8>, b: Seq<u8>)
    requires
        a.len() > 0,
        b.len() > 0,
        a[0] == b[0],
    ensures
        lex_order(a, b) == lex_order(a.drop_first(), b.drop_first()),
{
    if a.drop_first() == b.drop_first() {
        assert(a =~= seq![a[0]] + a.drop_first());
        assert(b =~= seq![b[0]] + b.drop_first());
    }
}

/// Order of two byte strings: `-1`, `0` or `1`.
pub fn lex_compare(a: &[u8], b: &[u8]) -> (r: i8)
    ensures
        r as int == lex_order(a@, b@),
{
    let mut i: usize = 0;
    proof {
        assert(a@.skip(0) =~= a@);
        assert(b@.skip(0) =~= b@);
    }
    while i < a.len() && i < b.len()
        invariant
            i <= a@.len(),
            i <= b@.len(),
            lex_order(a@, b@) == lex_order(a@.skip(i as int), b@.skip(i as int)),
        decreases a@.len() - i,
    {
        let ghost sa = a@.skip(i as int);
        let ghost sb = b@.skip(i as int);
        if a[i] < b[i] {
            proof {
                assert(sa[0] < sb[0]);
            }
            return -1;
        }
        if a[i] > b[i] {
            proof {
                assert(sa[0] > sb[0]);
            }
            return 1;
        }
        proof {
            lemma_lex_order_step(sa, sb);
            assert(sa.drop_first() =~= a@.skip(i as int + 1));
            assert(sb.drop_first() =~= b@.skip(i as int + 1));
        }
        i = i + 1;
    }
    let ghost sa = a@.skip(i as int);
    let ghost sb = b@.skip(i as int);
    if i < b.len() {
        proof {
            assert(sa.len() == 0);
        }
        -1
    } else if i < a.len() {
        proof {
            assert(sb.len() == 0);
        }
        1
    } else {
        proof {
            assert(sa =~= sb);
        }
        0
    }
}

fn signed_from_bits(u: u64) -> (r: i64)
    ensures
        r == as_signed(u),
{
    if u < 0x8000_0000_0000_0000 {
        u as i64
    } else {
        ((u - 0x8000_0000_0000_0000) as i64) + i64::MIN
    }
}

fn unsigned_from_bits(i: i64) -> (r: u64)
    ensures
        r == as_unsigned(i),
{
    if i >= 0 {
        i as u64
    } else {
        ((i - i64::MIN) as u64) + 0x8000_0000_0000_0000
    }
}

fn wrapping_sum(l: u64, r: u64) -> (s: u64)
    ensures
        s == wrap_unsigned(l + r),
{
    if l <= u64::MAX - r {
        l + r
    } else {
        l - (u64::MAX - r) - 1
    }
}

fn wrapping_difference(l: u64, r: u64) -> (s: u64)
    ensures
        s == wrap_unsigned(l - r),
{
    if l >= r {
        l - r
    } else {
        u64::MAX - (r - l) + 1
    }
}

fn wrapping_product(l: u64, r: u64) -> (s: u64)
    ensures
        s == wrap_unsigned(l * r),
{
    proof {
        assert(l * r <= 0xFFFF_FFFF_FFFF_FFFF * 0xFFFF_FFFF_FFFF_FFFF) by (nonlinear_arith)
            requires
                l <= 0xFFFF_FFFF_FFFF_FFFF,
                r <= 0xFFFF_FFFF_FFFF_FFFF,
        ;
    }
    let wide: u128 = (l as u128) * (r as u128);
    (wide % 0x1_0000_0000_0000_0000) as u64
}

/// Reducing to 64 bits commutes with a sum of signed numbers taken by
/// their bits.
proof fn lemma_wrap_signed_sum(l: i64, r: i64)
    ensures
        wrap_unsigned(as_unsigned(l) + as_unsigned(r)) == wrap_unsigned(l + r),
        wrap_unsigned(as_unsigned(l) - as_unsigned(r)) == wrap_unsigned(l - r),
{
}

proof fn lemma_wrap_signed_product(l: i64, r: i64)
    ensures
        wrap_unsigned(as_unsigned(l) * as_unsigned(r)) == wrap_unsigned(l * r),
{
    let m = 0x1_0000_0000_0000_0000int;
    let a = as_unsigned(l) as int;
    let b = as_unsigned(r) as int;
    let ka: int = if l < 0 { 1 } else { 0 };
    let kb: int = if r < 0 { 1 } else { 0 };
    assert(a == l + ka * m);
    assert(b == r + kb * m);
    let k = ka * r + kb * l + ka * kb * m;
    if l >= 0 && r >= 0 {
    } else if l < 0 && r >= 0 {
        assert((l + m) * r == l * r + r * m) by (nonlinear_arith);
    } else if l >= 0 && r < 0 {
        assert(l * (r + m) == l * r + l * m) by (nonlinear_arith);
    } else {
        assert((l + m) * (r + m) == l * r + (r + l + m) * m) by (nonlinear_arith);
    }
    assert(a * b == l * r + k * m);
    vstd::arithmetic::div_mod::lemma_mod_multiples_vanish(k, l * r, m);
}

impl Clone for Variant {
    fn clone(&self) -> (r: Variant)
        ensures
            r@ == self@,
    {
        match self {
            Variant::Null => Variant::Null,
            Variant::Bytes(bytes) => Variant::Bytes(vstd::slice::slice_to_vec(bytes.as_slice())),
            Variant::StringLiteral(s) => Variant::StringLiteral(s.clone()),
            Variant::SignedInteger(n) => Variant::SignedInteger(*n),
            Variant::UnsignedInteger(n) => Variant::UnsignedInteger(*n),
            Variant::Float(f) => Variant::Float(*f),
        }
    }
}

impl PartialEq for Variant {
    fn eq(&self, other: &Variant) -> (r: bool) {
        match (self, other) {
            (Variant::Null, Variant::Null) => true,
            (Variant::Bytes(l), Variant::Bytes(r)) => bytes_eq(l.as_slice(), r.as_slice()),
            (Variant::StringLiteral(l), Variant::StringLiteral(r)) => *l == *r,
            (Variant::SignedInteger(l), Variant::SignedInteger(r)) => *l == *r,
            (Variant::UnsignedInteger(l), Variant::UnsignedInteger(r)) => *l == *r,
            (Variant::Float(l), Variant::Float(r)) => l.to_bits() == r.to_bits(),
            _ => false,
        }
    }
}

impl PartialEqSpecImpl for Variant {
    open spec fn obeys_eq_spec() -> bool {
        true
    }

    open spec fn eq_spec(&self, other: &Variant) -> bool {
        self@ == other@
    }
}

impl Eq for Variant {

}

fn zero_buffer(n: usize) -> (r: Vec<u8>)
    ensures
        r@.len() == n,
{
    let mut v: Vec<u8> = Vec::new();
    let mut i: usize = 0;
    while i < n
        invariant
            i <= n,
            v@.len() == i,
        decreases n - i,
    {
        v.push(0);
        i = i + 1;
    }
    v
}

fn push_bytes_text(out: &mut Vec<char>, bytes: &[u8])
    ensures
        final(out)@ == old(out)@ + bytes_text(bytes@),
{
    out.push('[');
    let ghost start = out@;
    let mut i: usize = 0;
    while i < bytes.len()
        invariant
            i <= bytes@.len(),
            start == old(out)@.push('['),
            out@ == start + bytes_list_text(bytes@.take(i as int)),
        decreases bytes@.len() - i,
    {
        let ghost before = out@;
        let ghost head = bytes@.take(i as int);
        let ghost next = bytes@.take(i as int + 1);
        if i > 0 {
            out.push(',');
            out.push(' ');
        }
        push_decimal(out, bytes[i] as u64);
        proof {
            assert(next.drop_last() =~= head);
            assert(next.last() == bytes@[i as int]);
            if i == 0 {
                assert(out@ =~= start + bytes_list_text(next));
            } else {
                assert(out@ =~= before + seq![',', ' '] + decimal_chars(bytes@[i as int] as nat));
                assert(out@ =~= start + bytes_list_text(next));
            }
        }
        i = i + 1;
    }
    out.push(']');
    proof {
        assert(bytes@.take(bytes@.len() as int) =~= bytes@);
        assert(out@ =~= old(out)@ + bytes_text(bytes@));
    }
}

impl Variant {
    /// The value of a string literal.
    pub fn from_string_literal(s: &str) -> (r: Result<Variant, String>)
        ensures
            r matches Ok(v) && v@ == Value::StringLiteral(s@),
    {
        Ok(Variant::StringLiteral(String::from_str(s)))
    }

    /// The value that a number literal spells: an unsigned integer where
    /// it is one, else a signed integer, else a double. The literal comes
    /// back where it spells none of them.
    pub fn from_number_literal<F: FloatOps>(s: &str, host: &F) -> (r: Result<Variant, String>)
        ensures
            match r {
                Ok(v) => Value::from_number_literal(host.model(), s@) == Some(v@) && v@.wf(),
                Err(e) => Value::from_number_literal(host.model(), s@).is_none() && e@ == s@,
            },
    {
        let chars = chars_of(s);
        if let Some(n) = parse_unsigned(chars.as_slice()) {
            return Ok(Variant::UnsignedInteger(n));
        }
        if let Some(n) = parse_signed(chars.as_slice()) {
            return Ok(Variant::SignedInteger(n));
        }
        if let Some(bits) = host.parse(s) {
            if let Some(f) = F64NoNaN::new(bits) {
                return Ok(Variant::Float(f));
            }
        }
        Err(String::from_str(s))
    }

    /// The value of a double.
    pub fn from_f64(value: F64NoNaN) -> (r: Variant)
        ensures
            r@ == Value::Float(value@),
    {
        Variant::Float(value)
    }

    /// The value as a double, where it can be cast to one.
    pub fn to_f64<F: FloatOps>(self, host: &F) -> (r: Result<F64NoNaN, ()>)
        ensures
            match r {
                Ok(f) => self@.cast(host.model(), DbType::F64) == Some(Value::Float(f@)),
                Err(_) => !(self@.cast(host.model(), DbType::F64) matches Some(Value::Float(_))),
            },
    {
        match self.cast(DbType::F64, host) {
            Some(Variant::Float(f)) => Ok(f),
            _ => Err(()),
        }
    }

    /// The value of an unsigned integer.
    pub fn from_u64(value: u64) -> (r: Variant)
        ensures
            r@ == Value::UnsignedInteger(value),
    {
        Variant::UnsignedInteger(value)
    }

    /// The value as an unsigned integer, where it can be cast to one.
    pub fn to_u64<F: FloatOps>(self, host: &F) -> (r: Result<u64, ()>)
        ensures
            match r {
                Ok(n) => self@.cast(
                    host.model(),
                    DbType::Integer { signed: false, bytes: 8 },
                ) == Some(
                    Value::UnsignedInteger(n),
                ),
                Err(_) => !(self@.cast(
                    host.model(),
                    DbType::Integer { signed: false, bytes: 8 },
                ) matches Some(
                    Value::UnsignedInteger(_),
                )),
            },
    {
        match self.cast(DbType::Integer { signed: false, bytes: 8 }, host) {
            Some(Variant::UnsignedInteger(n)) => Ok(n),
            _ => Err(()),
        }
    }

    /// The value that `bytes` store under the type.
    pub fn from_bytes(dbtype: DbType, bytes: &[u8]) -> (r: Result<Variant, ()>)
        ensures
            match r {
                Ok(v) => Value::decoded(dbtype, bytes@) == Some(v@) && v@.wf(),
                Err(_) => Value::decoded(dbtype, bytes@).is_none(),
            },
    {
        match dbtype {
            DbType::Null => {
                if bytes.len() != 0 {
                    Err(())
                } else {
                    Ok(Variant::Null)
                }
            },
            DbType::ByteDynamic => Ok(Variant::Bytes(vstd::slice::slice_to_vec(bytes))),
            DbType::ByteFixed(n) => {
                if bytes.len() as u64 != n {
                    Err(())
                } else {
                    Ok(Variant::Bytes(vstd::slice::slice_to_vec(bytes)))
                }
            },
            DbType::Integer { signed, bytes: n } => {
                if bytes.len() != n as usize || n < 1 || n > 8 {
                    Err(())
                } else if signed {
                    Ok(Variant::SignedInteger(read_sdbinteger(bytes)))
                } else {
                    Ok(Variant::UnsignedInteger(read_udbinteger(bytes)))
                }
            },
            DbType::F64 => {
                if bytes.len() != 8 {
                    Err(())
                } else {
                    match F64NoNaN::new(read_dbfloat(bytes)) {
                        Some(f) => Ok(Variant::Float(f)),
                        None => Err(()),
                    }
                }
            },
            DbType::String => {
                let len: usize = bytes.len();
                if len > 0 && bytes[len - 1] == 0 {
                    let body = vstd::slice::slice_subrange(bytes, 0, len - 1);
                    proof {
                        assert(body@ =~= bytes@.drop_last());
                    }
                    Ok(Variant::StringLiteral(utf8_lossy(body)))
                } else {
                    Err(())
                }
            },
        }
    }

    /// The stored form of a value that already has the type.
    fn encode(&self, dbtype: DbType) -> (r: Option<Vec<u8>>)
        ensures
            match r {
                Some(bytes) => self@.encoded(dbtype) == Some(bytes@),
                None => self@.encoded(dbtype).is_none(),
            },
    {
        match (self, dbtype) {
            (Variant::Bytes(v), DbType::ByteDynamic) => Some(
                vstd::slice::slice_to_vec(v.as_slice()),
            ),
            (Variant::Bytes(v), DbType::ByteFixed(n)) => {
                if v.len() as u64 == n {
                    Some(vstd::slice::slice_to_vec(v.as_slice()))
                } else {
                    None
                }
            },
            (Variant::StringLiteral(s), DbType::String) => {
                let mut out = vstd::slice::slice_to_vec(s.as_str().as_bytes());
                out.push(0);
                Some(out)
            },
            (Variant::SignedInteger(v), DbType::Integer { signed: true, bytes }) => {
                if bytes < 1 || bytes > 8 {
                    None
                } else {
                    let mut buf = zero_buffer(bytes as usize);
                    write_sdbinteger(*v, buf.as_mut_slice());
                    Some(buf)
                }
            },
            (Variant::UnsignedInteger(v), DbType::Integer { signed: false, bytes }) => {
                if bytes < 1 || bytes > 8 {
                    None
                } else {
                    let mut buf = zero_buffer(bytes as usize);
                    write_udbinteger(*v, buf.as_mut_slice());
                    Some(buf)
                }
            },
            (Variant::Float(f), DbType::F64) => {
                let mut buf = zero_buffer(8);
                write_dbfloat(f.to_bits(), buf.as_mut_slice());
                Some(buf)
            },
            _ => None,
        }
    }

    /// The stored form of the value under the type: the value is cast to
    /// the type and then encoded.
    pub fn to_bytes<F: FloatOps>(self, dbtype: DbType, host: &F) -> (r: Result<Vec<u8>, ()>)
        ensures
            match r {
                Ok(bytes) => self@.to_bytes(host.model(), dbtype) == Some(bytes@),
                Err(_) => self@.to_bytes(host.model(), dbtype).is_none(),
            },
    {
        match self.cast(dbtype, host) {
            Some(v) => match v.encode(dbtype) {
                Some(bytes) => Ok(bytes),
                None => Err(()),
            },
            None => Err(()),
        }
    }

    /// The type that the value has by itself.
    pub fn get_dbtype(&self) -> (r: DbType)
        ensures
            r == self@.dbtype(),
    {
        match self {
            Variant::Null => DbType::Null,
            Variant::Bytes(bytes) => DbType::ByteFixed(bytes.len() as u64),
            Variant::StringLiteral(_) => DbType::String,
            Variant::SignedInteger(_) => DbType::Integer { signed: true, bytes: 8 },
            Variant::UnsignedInteger(_) => DbType::Integer { signed: false, bytes: 8 },
            Variant::Float(_) => DbType::F64,
        }
    }

    /// The truth value: `-1` for false, `0` for NULL, `1` for true.
    pub fn to_3vl(&self) -> (r: i8)
        ensures
            r as int == self@.to_3vl(),
    {
        match self {
            Variant::Null => 0,
            Variant::Bytes(bytes) => if bytes.len() > 0 {
                1
            } else {
                -1
            },
            Variant::StringLiteral(s) => if s.as_str().unicode_len() > 0 {
                1
            } else {
                -1
            },
            Variant::SignedInteger(n) => if *n != 0 {
                1
            } else {
                -1
            },
            Variant::UnsignedInteger(n) => if *n != 0 {
                1
            } else {
                -1
            },
            Variant::Float(f) => if !f.is_zero() {
                1
            } else {
                -1
            },
        }
    }

    /// The value that stands for a truth value.
    pub fn from_3vl(value: i8) -> (r: Variant)
        requires
            -1 <= value <= 1,
        ensures
            r@ == value_from_3vl(value as int),
    {
        if value == 0 {
            Variant::Null
        } else if value > 0 {
            Variant::UnsignedInteger(1)
        } else {
            Variant::UnsignedInteger(0)
        }
    }

    /// The text of the value.
    pub fn to_string<F: FloatOps>(&self, host: &F) -> (r: String)
        ensures
            r@ == self@.text(host.model()),
    {
        match self {
            Variant::Null => String::from_str("NULL"),
            Variant::Bytes(bytes) => {
                let mut out: Vec<char> = Vec::new();
                push_bytes_text(&mut out, bytes.as_slice());
                string_of(out.as_slice())
            },
            Variant::StringLiteral(s) => s.clone(),
            Variant::SignedInteger(n) => {
                let mut out: Vec<char> = Vec::new();
                push_signed(&mut out, *n);
                string_of(out.as_slice())
            },
            Variant::UnsignedInteger(n) => {
                let mut out: Vec<char> = Vec::new();
                push_decimal(&mut out, *n);
                string_of(out.as_slice())
            },
            Variant::Float(f) => host.format(f.to_bits()),
        }
    }

    /// The value taken as one of the given type; `None` where the two do
    /// not go together.
    pub fn cast<F: FloatOps>(self, dbtype: DbType, host: &F) -> (r: Option<Variant>)
        ensures
            option_view(r) == self@.cast(host.model(), dbtype),
    {
        match (self, dbtype) {
            (Variant::Null, DbType::Null) => Some(Variant::Null),
            (Variant::Bytes(b), DbType::ByteDynamic) => Some(Variant::Bytes(b)),
            (Variant::StringLiteral(s), DbType::String) => Some(Variant::StringLiteral(s)),
            (Variant::SignedInteger(n), DbType::Integer { signed: true, .. }) => Some(
                Variant::SignedInteger(n),
            ),
            (Variant::UnsignedInteger(n), DbType::Integer { signed: false, .. }) => Some(
                Variant::UnsignedInteger(n),
            ),
            (Variant::Float(f), DbType::F64) => Some(Variant::Float(f)),
            (e, DbType::String) => Some(Variant::StringLiteral(e.to_string(host))),
            (e, DbType::ByteDynamic) => {
                let own = e.get_dbtype();
                match e.encode(own) {
                    Some(bytes) => Some(Variant::Bytes(bytes)),
                    None => None,
                }
            },
            (Variant::Bytes(bytes), v) => match Variant::from_bytes(v, bytes.as_slice()) {
                Ok(s) => Some(s),
                Err(_) => None,
            },
            (Variant::Float(f), DbType::Integer { signed, .. }) => {
                if signed {
                    Some(Variant::SignedInteger(host.to_signed(f.to_bits())))
                } else {
                    Some(Variant::UnsignedInteger(host.to_unsigned(f.to_bits())))
                }
            },
            (Variant::UnsignedInteger(n), DbType::F64) => {
                match F64NoNaN::new(host.from_unsigned(n)) {
                    Some(f) => Some(Variant::Float(f)),
                    None => None,
                }
            },
            (Variant::SignedInteger(n), DbType::F64) => {
                match F64NoNaN::new(host.from_signed(n)) {
                    Some(f) => Some(Variant::Float(f)),
                    None => None,
                }
            },
            (Variant::UnsignedInteger(n), DbType::Integer { signed: true, .. }) => Some(
                Variant::SignedInteger(signed_from_bits(n)),
            ),
            (Variant::SignedInteger(n), DbType::Integer { signed: false, .. }) => Some(
                Variant::UnsignedInteger(unsigned_from_bits(n)),
            ),
            _ => None,
        }
    }

    /// Order of two values of one kind.
    fn order(&self, other: &Variant) -> (r: Option<i8>)
        ensures
            match r {
                Some(c) => self@.order(other@) == Some(c as int),
                None => self@.order(other@).is_none(),
            },
    {
        match (self, other) {
            (Variant::UnsignedInteger(l), Variant::UnsignedInteger(r)) => Some(
                if *l < *r {
                    -1
                } else if *l > *r {
                    1
                } else {
                    0
                },
            ),
            (Variant::SignedInteger(l), Variant::SignedInteger(r)) => Some(
                if *l < *r {
                    -1
                } else if *l > *r {
                    1
                } else {
                    0
                },
            ),
            (Variant::Float(l), Variant::Float(r)) => Some(l.compare(r)),
            (Variant::Bytes(l), Variant::Bytes(r)) => Some(lex_compare(l.as_slice(), r.as_slice())),
            (Variant::StringLiteral(l), Variant::StringLiteral(r)) => Some(
                lex_compare(l.as_str().as_bytes(), r.as_str().as_bytes()),
            ),
            _ => None,
        }
    }

    /// Comparison.
    ///
    /// * `None`: `self` or `rhs` is NULL, or `rhs` cannot be cast to the
    ///   type of `self`
    /// * `-1`: `self < rhs`
    /// * `0`: `self == rhs`
    /// * `1`: `self > rhs`
    pub fn compare<F: FloatOps>(&self, rhs: &Variant, host: &F) -> (r: Option<i8>)
        ensures
            match r {
                Some(c) => self@.compare(host.model(), rhs@) == Some(c as int),
                None => self@.compare(host.model(), rhs@).is_none(),
            },
    {
        match (self, rhs) {
            (Variant::Null, _) => None,
            (_, Variant::Null) => None,
            _ => {
                let dbtype = self.get_dbtype();
                match rhs.clone().cast(dbtype, host) {
                    Some(r) => self.order(&r),
                    None => None,
                }
            },
        }
    }

    /// A string with the text of `rhs` behind it; anything but a string is
    /// returned as it is.
    pub fn concat<F: FloatOps>(&self, rhs: &Variant, host: &F) -> (r: Variant)
        ensures
            r@ == self@.concat(host.model(), rhs@),
    {
        match self {
            Variant::StringLiteral(l) => {
                let tail = rhs.to_string(host);
                let mut out = l.clone();
                out.append(tail.as_str());
                Variant::StringLiteral(out)
            },
            _ => self.clone(),
        }
    }

    /// The sum.
    pub fn add<F: FloatOps>(&self, rhs: &Variant, host: &F) -> (r: Variant)
        ensures
            r@ == self@.add(host.model(), rhs@),
    {
        let dbtype = self.get_dbtype();
        match (self, rhs.clone().cast(dbtype, host)) {
            (Variant::UnsignedInteger(l), Some(Variant::UnsignedInteger(r))) => {
                Variant::UnsignedInteger(wrapping_sum(*l, r))
            },
            (Variant::SignedInteger(l), Some(Variant::SignedInteger(r))) => {
                proof {
                    lemma_wrap_signed_sum(*l, r);
                }
                Variant::SignedInteger(
                    signed_from_bits(wrapping_sum(unsigned_from_bits(*l), unsigned_from_bits(r))),
                )
            },
            (Variant::Float(l), Some(Variant::Float(r))) => {
                Variant::float_or_null(host.add(l.to_bits(), r.to_bits()))
            },
            _ => self.clone(),
        }
    }

    /// The difference.
    pub fn sub<F: FloatOps>(&self, rhs: &Variant, host: &F) -> (r: Variant)
        ensures
            r@ == self@.sub(host.model(), rhs@),
    {
        let dbtype = self.get_dbtype();
        match (self, rhs.clone().cast(dbtype, host)) {
            (Variant::UnsignedInteger(l), Some(Variant::UnsignedInteger(r))) => {
                Variant::UnsignedInteger(wrapping_difference(*l, r))
            },
            (Variant::SignedInteger(l), Some(Variant::SignedInteger(r))) => {
                proof {
                    lemma_wrap_signed_sum(*l, r);
                }
                Variant::SignedInteger(
                    signed_from_bits(
                        wrapping_difference(unsigned_from_bits(*l), unsigned_from_bits(r)),
                    ),
                )
            },
            (Variant::Float(l), Some(Variant::Float(r))) => {
                Variant::float_or_null(host.add(l.to_bits(), r.negate().to_bits()))
            },
            _ => self.clone(),
        }
    }

    /// The product.
    pub fn mul<F: FloatOps>(&self, rhs: &Variant, host: &F) -> (r: Variant)
        ensures
            r@ == self@.mul(host.model(), rhs@),
    {
        let dbtype = self.get_dbtype();
        match (self, rhs.clone().cast(dbtype, host)) {
            (Variant::UnsignedInteger(l), Some(Variant::UnsignedInteger(r))) => {
                Variant::UnsignedInteger(wrapping_product(*l, r))
            },
            (Variant::SignedInteger(l), Some(Variant::SignedInteger(r))) => {
                proof {
                    lemma_wrap_signed_product(*l, r);
                }
                Variant::SignedInteger(
                    signed_from_bits(
                        wrapping_product(unsigned_from_bits(*l), unsigned_from_bits(r)),
                    ),
                )
            },
            (Variant::Float(l), Some(Variant::Float(r))) => {
                Variant::float_or_null(host.mul(l.to_bits(), r.to_bits()))
            },
            _ => self.clone(),
        }
    }

    /// The quotient; NULL where the divisor is zero.
    pub fn div<F: FloatOps>(&self, rhs: &Variant, host: &F) -> (r: Variant)
        ensures
            r@ == self@.div(host.model(), rhs@),
    {
        let dbtype = self.get_dbtype();
        match (self, rhs.clone().cast(dbtype, host)) {
            (Variant::UnsignedInteger(l), Some(Variant::UnsignedInteger(r))) => {
                if r == 0 {
                    Variant::Null
                } else {
                    Variant::UnsignedInteger(*l / r)
                }
            },
            (Variant::SignedInteger(l), Some(Variant::SignedInteger(r))) => {
                if r == 0 {
                    Variant::Null
                } else {
                    Variant::SignedInteger(signed_quotient(*l, r))
                }
            },
            (Variant::Float(l), Some(Variant::Float(r))) => {
                if r.is_zero() {
                    Variant::Null
                } else {
                    Variant::float_or_null(host.div(l.to_bits(), r.to_bits()))
                }
            },
            _ => self.clone(),
        }
    }

    /// The negated number.
    pub fn negate(&self) -> (r: Variant)
        ensures
            r@ == self@.negate(),
    {
        match self {
            Variant::SignedInteger(n) => Variant::SignedInteger(
                signed_from_bits(wrapping_difference(0, unsigned_from_bits(*n))),
            ),
            Variant::UnsignedInteger(n) => Variant::SignedInteger(
                signed_from_bits(wrapping_difference(0, *n)),
            ),
            Variant::Float(f) => Variant::Float(f.negate()),
            _ => self.clone(),
        }
    }

    /// The value of a double that an operation gave: NULL for NaN.
    pub fn float_or_null(bits: u64) -> (r: Variant)
        ensures
            r@ == float_result(bits),
            r@.wf(),
    {
        match F64NoNaN::new(bits) {
            Some(f) => Variant::Float(f),
            None => Variant::Null,
        }
    }
}

fn magnitude_of(n: i64) -> (r: u64)
    ensures
        n >= 0 ==> r == n,
        n < 0 ==> r == -n,
{
    if n >= 0 {
        n as u64
    } else if n == i64::MIN {
        0x8000_0000_0000_0000
    } else {
        (-n) as u64
    }
}

fn signed_quotient(l: i64, r: i64) -> (q: i64)
    requires
        r != 0,
    ensures
        q == wrap_signed(quotient_toward_zero(l as int, r as int)),
{
    let lm: u64 = magnitude_of(l);
    let rm: u64 = magnitude_of(r);
    let qm: u64 = lm / rm;
    if (l < 0) == (r < 0) {
        signed_from_bits(qm)
    } else {
        signed_from_bits(wrapping_difference(0, qm))
    }
}

} // verus!
