//! What holds of every value: stored forms can be read back, they sort as
//! the values do, and comparison is an order.

use vstd::prelude::*;
use vstd::utf8::{encode_utf8, encode_utf8_decode_utf8, encode_utf8_valid_utf8};
use crate::byteutils::{
    dbfloat_key, half_range, lemma_be_bytes_len, lemma_be_bytes_order, lemma_be_roundtrip,
    lemma_pow256_values, lex_less, pow256, sdb_biased,
};
use crate::floatops::FloatModel;
use crate::types::f64nonan::order_key;
use crate::types::variant::{lex_order, Value};
use crate::types::DbType;

verus! {

/// No byte string comes before itself.
pub proof fn lemma_lex_irreflexive(a: Seq<u8>)
    ensures
        !lex_less(a, a),
    decreases a.len(),
{
    if a.len() > 0 {
        lemma_lex_irreflexive(a.drop_first());
    }
}

/// Of two different byte strings exactly one comes before the other.
pub proof fn lemma_lex_trichotomy(a: Seq<u8>, b: Seq<u8>)
    ensures
        a != b ==> (lex_less(a, b) != lex_less(b, a)),
        a == b ==> !lex_less(a, b) && !lex_less(b, a),
    decreases a.len(),
{
    if a == b {
        lemma_lex_irreflexive(a);
    } else if a.len() > 0 && b.len() > 0 && a[0] == b[0] {
        lemma_lex_trichotomy(a.drop_first(), b.drop_first());
        if a.drop_first() == b.drop_first() {
            assert(a =~= seq![a[0]] + a.drop_first());
            assert(b =~= seq![b[0]] + b.drop_first());
        }
    } else if a.len() == 0 && b.len() == 0 {
        assert(a =~= b);
    }
}

/// The order of byte strings is transitive.
pub proof fn lemma_lex_transitive(a: Seq<u8>, b: Seq<u8>, c: Seq<u8>)
    requires
        lex_less(a, b),
        lex_less(b, c),
    ensures
        lex_less(a, c),
    decreases a.len(),
{
    if a.len() > 0 && b.len() > 0 && c.len() > 0 && a[0] == b[0] && b[0] == c[0] {
        lemma_lex_transitive(a.drop_first(), b.drop_first(), c.drop_first());
    }
}

/// The three-way order of byte strings is antisymmetric and transitive.
pub proof fn lemma_lex_order(a: Seq<u8>, b: Seq<u8>, c: Seq<u8>)
    ensures
        lex_order(a, a) == 0,
        lex_order(a, b) == -lex_order(b, a),
        lex_order(a, b) <= 0 && lex_order(b, c) <= 0 ==> lex_order(a, c) <= 0,
{
    lemma_lex_trichotomy(a, b);
    lemma_lex_trichotomy(b, c);
    lemma_lex_trichotomy(a, c);
    if lex_less(a, b) && lex_less(b, c) {
        lemma_lex_transitive(a, b, c);
    }
}

/// A stored value can be read back: where a value that fits the type is
/// stored under it, reading the bytes under the same type gives the value
/// again.
pub proof fn lemma_stored_value_reads_back(floats: FloatModel, v: Value, dbtype: DbType)
    requires
        v.wf(),
        v.fits(dbtype),
    ensures
        v.to_bytes(floats, dbtype) matches Some(bytes) && Value::decoded(dbtype, bytes) == Some(v),
{
    lemma_pow256_values();
    match (v, dbtype) {
        (Value::StringLiteral(s), DbType::String) => {
            let bytes = encode_utf8(s).push(0u8);
            assert(bytes.drop_last() =~= encode_utf8(s));
            encode_utf8_valid_utf8(s);
            encode_utf8_decode_utf8(s);
        },
        (Value::SignedInteger(x), DbType::Integer { signed: true, bytes }) => {
            let n = bytes as nat;
            lemma_pow256_monotonic_to_8(n);
            let biased = sdb_biased(x as int, n);
            assert(biased == x + half_range(n));
            lemma_be_bytes_len(biased, n);
            lemma_be_roundtrip(biased, n);
            vstd::arithmetic::div_mod::lemma_small_mod(biased, pow256(n));
        },
        (Value::UnsignedInteger(x), DbType::Integer { signed: false, bytes }) => {
            let n = bytes as nat;
            lemma_be_bytes_len(x as nat, n);
            lemma_be_roundtrip(x as nat, n);
            vstd::arithmetic::div_mod::lemma_small_mod(x as nat, pow256(n));
        },
        (Value::Float(bits), DbType::F64) => {
            let key = dbfloat_key(bits) as nat;
            lemma_be_bytes_len(key, 8);
            lemma_be_roundtrip(key, 8);
            vstd::arithmetic::div_mod::lemma_small_mod(key, pow256(8));
        },
        _ => {},
    }
}

/// The ranges of the widths from one to eight bytes.
proof fn lemma_pow256_monotonic_to_8(n: nat)
    requires
        1 <= n <= 8,
    ensures
        2 <= pow256(n) <= 0x1_0000_0000_0000_0000,
        pow256(n) == 2 * half_range(n),
{
    lemma_pow256_values();
    reveal_with_fuel(pow256, 9);
}

/// Stored forms sort as the values do: of two integers or two doubles
/// that fit one type, the lesser has the stored form that comes first
/// byte by byte.
pub proof fn lemma_stored_forms_sort(a: Value, b: Value, dbtype: DbType)
    requires
        a.wf(),
        b.wf(),
        a.fits(dbtype),
        b.fits(dbtype),
        dbtype is Integer || dbtype is F64,
        a.order(b) == Some(-1int),
    ensures
        a.encoded(dbtype) is Some,
        b.encoded(dbtype) is Some,
        lex_less(a.encoded(dbtype).unwrap(), b.encoded(dbtype).unwrap()),
{
    lemma_pow256_values();
    match (a, b, dbtype) {
        (
            Value::SignedInteger(x),
            Value::SignedInteger(y),
            DbType::Integer { signed: true, bytes },
        ) => {
            let n = bytes as nat;
            lemma_pow256_monotonic_to_8(n);
            lemma_be_bytes_order(sdb_biased(x as int, n), sdb_biased(y as int, n), n);
        },
        (
            Value::UnsignedInteger(x),
            Value::UnsignedInteger(y),
            DbType::Integer { signed: false, bytes },
        ) => {
            lemma_be_bytes_order(x as nat, y as nat, bytes as nat);
        },
        (Value::Float(x), Value::Float(y), DbType::F64) => {
            assert(dbfloat_key(x) == order_key(x) + 0x8000_0000_0000_0000);
            assert(dbfloat_key(y) == order_key(y) + 0x8000_0000_0000_0000);
            lemma_be_bytes_order(dbfloat_key(x) as nat, dbfloat_key(y) as nat, 8);
        },
        _ => {},
    }
}

/// Comparison is a total order on the values of one type that are not
/// NULL: any two can be compared, a value equals itself, swapping the
/// sides swaps the answer, and the order is transitive.
pub proof fn lemma_compare_is_total_order(floats: FloatModel, a: Value, b: Value, c: Value)
    requires
        a.wf(),
        b.wf(),
        c.wf(),
        !(a is Null),
        a.dbtype() == b.dbtype(),
        b.dbtype() == c.dbtype(),
    ensures
        a.compare(floats, b) matches Some(x) && -1 <= x <= 1,
        a.compare(floats, a) == Some(0int),
        b.compare(floats, a) == Some(-a.compare(floats, b).unwrap()),
        b.compare(floats, c) is Some,
        a.compare(floats, c) is Some,
        a.compare(
            floats,
            b,
        ).unwrap() <= 0 && b.compare(floats, c).unwrap() <= 0 ==> a.compare(floats, c).unwrap() <= 0,
{
    match (a, b, c) {
        (Value::Bytes(x), Value::Bytes(y), Value::Bytes(z)) => {
            lemma_lex_order(x, y, z);
        },
        (Value::StringLiteral(x), Value::StringLiteral(y), Value::StringLiteral(z)) => {
            lemma_lex_order(encode_utf8(x), encode_utf8(y), encode_utf8(z));
        },
        _ => {},
    }
}

} // verus!
