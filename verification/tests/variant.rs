use llamadb::floatops::{FloatModel, FloatOps};
use llamadb::identifier::Identifier;
use llamadb::types::{DbType, F64NoNaN, Variant};

struct Host;

impl FloatOps for Host {
    // Stands for this host in the contracts of the library; nothing calls it.
    fn model(&self) -> FloatModel {
        unreachable!()
    }

    fn add(&self, a: u64, b: u64) -> u64 {
        (f64::from_bits(a) + f64::from_bits(b)).to_bits()
    }

    fn mul(&self, a: u64, b: u64) -> u64 {
        (f64::from_bits(a) * f64::from_bits(b)).to_bits()
    }

    fn div(&self, a: u64, b: u64) -> u64 {
        (f64::from_bits(a) / f64::from_bits(b)).to_bits()
    }

    fn from_unsigned(&self, value: u64) -> u64 {
        (value as f64).to_bits()
    }

    fn from_signed(&self, value: i64) -> u64 {
        (value as f64).to_bits()
    }

    fn to_unsigned(&self, bits: u64) -> u64 {
        f64::from_bits(bits) as u64
    }

    fn to_signed(&self, bits: u64) -> i64 {
        f64::from_bits(bits) as i64
    }

    fn parse(&self, text: &str) -> Option<u64> {
        match text.parse::<f64>() {
            Ok(v) => Some(v.to_bits()),
            Err(_) => None,
        }
    }

    fn format(&self, bits: u64) -> String {
        format!("{}", f64::from_bits(bits))
    }
}

fn float(v: f64) -> Variant {
    Variant::Float(F64NoNaN::new(v.to_bits()).unwrap())
}

fn sint(v: i64) -> Variant {
    Variant::SignedInteger(v)
}

fn uint(v: u64) -> Variant {
    Variant::UnsignedInteger(v)
}

fn text(v: &str) -> Variant {
    Variant::StringLiteral(v.to_string())
}

fn bytes(v: &[u8]) -> Variant {
    Variant::Bytes(v.to_vec())
}

const I8: DbType = DbType::Integer { signed: true, bytes: 8 };
const U8: DbType = DbType::Integer { signed: false, bytes: 8 };

#[test]
fn test_nan_is_no_value() {
    assert!(F64NoNaN::new(f64::NAN.to_bits()).is_none());
    assert!(F64NoNaN::new(0x7FF0_0000_0000_0001).is_none());
    assert!(F64NoNaN::new(0xFFF8_0000_0000_0000).is_none());
    assert!(F64NoNaN::new(f64::INFINITY.to_bits()).is_some());
    assert!(F64NoNaN::new(f64::NEG_INFINITY.to_bits()).is_some());
    assert_eq!(F64NoNaN::new(1.5f64.to_bits()).unwrap().to_bits(), 1.5f64.to_bits());
}

#[test]
fn test_float_order() {
    let values = [f64::NEG_INFINITY, -2.5, -0.0, 0.0, 1.0e-310, 1.0, f64::INFINITY];
    for a in values {
        for b in values {
            let expected = if a < b {
                -1
            } else if a > b {
                1
            } else {
                0
            };
            let fa = F64NoNaN::new(a.to_bits()).unwrap();
            let fb = F64NoNaN::new(b.to_bits()).unwrap();
            assert_eq!(fa.compare(&fb), expected);
        }
    }
    assert_eq!(F64NoNaN::new(1.5f64.to_bits()).unwrap().negate().to_bits(), (-1.5f64).to_bits());
}

#[test]
fn test_number_literals() {
    assert_eq!(Variant::from_number_literal("12", &Host), Ok(uint(12)));
    assert_eq!(
        Variant::from_number_literal("18446744073709551615", &Host),
        Ok(uint(18446744073709551615))
    );
    assert_eq!(
        Variant::from_number_literal("18446744073709551616", &Host),
        Ok(float(18446744073709551616.0))
    );
    assert_eq!(Variant::from_number_literal("-12", &Host), Ok(sint(-12)));
    assert_eq!(
        Variant::from_number_literal("-9223372036854775808", &Host),
        Ok(sint(-9223372036854775808))
    );
    assert_eq!(Variant::from_number_literal("+7", &Host), Ok(uint(7)));
    assert_eq!(Variant::from_number_literal("0.25", &Host), Ok(float(0.25)));
    assert_eq!(Variant::from_number_literal("abc", &Host), Err("abc".to_string()));
    assert_eq!(Variant::from_number_literal("", &Host), Err("".to_string()));
    assert_eq!(Variant::from_number_literal("NaN", &Host), Err("NaN".to_string()));
    assert_eq!(Variant::from_string_literal("abc"), Ok(text("abc")));
}

#[test]
fn test_to_bytes() {
    assert_eq!(uint(258).to_bytes(DbType::Integer { signed: false, bytes: 2 }, &Host), Ok(vec![1, 2]));
    assert_eq!(uint(258).to_bytes(DbType::Integer { signed: true, bytes: 2 }, &Host), Ok(vec![0x81, 2]));
    assert_eq!(sint(-1).to_bytes(DbType::Integer { signed: true, bytes: 1 }, &Host), Ok(vec![0x7F]));
    assert_eq!(text("hi").to_bytes(DbType::String, &Host), Ok(vec![b'h', b'i', 0]));
    assert_eq!(uint(12).to_bytes(DbType::String, &Host), Ok(vec![b'1', b'2', 0]));
    assert_eq!(bytes(&[1, 2, 3]).to_bytes(DbType::ByteDynamic, &Host), Ok(vec![1, 2, 3]));
    assert_eq!(float(1.0).to_bytes(DbType::F64, &Host), Ok(vec![0xBF, 0xF0, 0, 0, 0, 0, 0, 0]));
    assert_eq!(uint(1).to_bytes(DbType::F64, &Host), Ok(vec![0xBF, 0xF0, 0, 0, 0, 0, 0, 0]));
    // NULL has no stored form
    assert_eq!(Variant::Null.to_bytes(DbType::Null, &Host), Err(()));
    assert_eq!(Variant::Null.to_bytes(DbType::F64, &Host), Err(()));
    assert_eq!(text("hi").to_bytes(DbType::F64, &Host), Err(()));
    assert_eq!(bytes(&[1, 2]).to_bytes(DbType::ByteFixed(2), &Host), Ok(vec![1, 2]));
    assert_eq!(bytes(&[1, 2]).to_bytes(DbType::ByteFixed(3), &Host), Err(()));
    assert_eq!(uint(1).to_bytes(DbType::Integer { signed: false, bytes: 9 }, &Host), Err(()));
}

#[test]
fn test_from_bytes() {
    assert_eq!(Variant::from_bytes(DbType::Null, &[]), Ok(Variant::Null));
    assert_eq!(Variant::from_bytes(DbType::Null, &[1, 2]), Err(()));
    assert_eq!(Variant::from_bytes(DbType::ByteDynamic, &[1, 2]), Ok(bytes(&[1, 2])));
    assert_eq!(Variant::from_bytes(DbType::ByteFixed(2), &[1, 2]), Ok(bytes(&[1, 2])));
    assert_eq!(Variant::from_bytes(DbType::ByteFixed(3), &[1, 2]), Err(()));
    assert_eq!(Variant::from_bytes(DbType::Integer { signed: false, bytes: 2 }, &[1, 2]), Ok(uint(258)));
    assert_eq!(Variant::from_bytes(DbType::Integer { signed: true, bytes: 2 }, &[1, 2]), Ok(sint(258 - 32768)));
    assert_eq!(Variant::from_bytes(DbType::Integer { signed: true, bytes: 4 }, &[1, 2]), Err(()));
    assert_eq!(Variant::from_bytes(DbType::F64, &[0xBF, 0xF0, 0, 0, 0, 0, 0, 0]), Ok(float(1.0)));
    assert_eq!(Variant::from_bytes(DbType::F64, &[0xBF, 0xF0, 0, 0]), Err(()));
    // the bytes of a NaN
    assert_eq!(Variant::from_bytes(DbType::F64, &[0, 0, 0, 0, 0, 0, 0, 0]), Err(()));
    assert_eq!(Variant::from_bytes(DbType::F64, &[0xFF, 0xF8, 0, 0, 0, 0, 0, 0]), Err(()));
    assert_eq!(Variant::from_bytes(DbType::String, &[b'h', b'i', 0]), Ok(text("hi")));
    assert_eq!(Variant::from_bytes(DbType::String, &[b'h', b'i']), Err(()));
    assert_eq!(Variant::from_bytes(DbType::String, &[]), Err(()));
    // what is no UTF-8 is replaced
    assert_eq!(Variant::from_bytes(DbType::String, &[b'h', 0xFF, 0]), Ok(text("h\u{FFFD}")));
}

#[test]
fn test_stored_values_read_back() {
    let cases = vec![
        (bytes(&[]), DbType::ByteDynamic),
        (bytes(&[0, 255, 7]), DbType::ByteDynamic),
        (bytes(&[0, 255, 7]), DbType::ByteFixed(3)),
        (text(""), DbType::String),
        (text("gr\u{fc}\u{df}e \u{1F600}"), DbType::String),
        (text("with\0zero"), DbType::String),
        (sint(0), I8),
        (sint(i64::MIN), I8),
        (sint(i64::MAX), I8),
        (sint(-129), DbType::Integer { signed: true, bytes: 2 }),
        (sint(127), DbType::Integer { signed: true, bytes: 1 }),
        (sint(-128), DbType::Integer { signed: true, bytes: 1 }),
        (uint(0), U8),
        (uint(u64::MAX), U8),
        (uint(65535), DbType::Integer { signed: false, bytes: 2 }),
        (float(0.0), DbType::F64),
        (float(-0.0), DbType::F64),
        (float(-1.5e300), DbType::F64),
        (float(f64::INFINITY), DbType::F64),
        (float(f64::NEG_INFINITY), DbType::F64),
        (float(5e-324), DbType::F64),
    ];
    for (value, dbtype) in cases {
        let stored = value.clone().to_bytes(dbtype, &Host).unwrap();
        assert_eq!(Variant::from_bytes(dbtype, &stored), Ok(value));
    }
}

#[test]
fn test_stored_forms_sort() {
    let signed = [i64::MIN, -70000, -1, 0, 1, 70000, i64::MAX];
    for a in signed {
        for b in signed {
            let sa = sint(a).to_bytes(I8, &Host).unwrap();
            let sb = sint(b).to_bytes(I8, &Host).unwrap();
            assert_eq!(a < b, sa < sb);
        }
    }
    let unsigned = [0u64, 1, 255, 256, 1 << 40, u64::MAX];
    for a in unsigned {
        for b in unsigned {
            let sa = uint(a).to_bytes(U8, &Host).unwrap();
            let sb = uint(b).to_bytes(U8, &Host).unwrap();
            assert_eq!(a < b, sa < sb);
        }
    }
    let floats = [f64::NEG_INFINITY, -3.0, -1.0e-300, 0.0, 2.0e-300, 3.0, f64::INFINITY];
    for a in floats {
        for b in floats {
            let sa = float(a).to_bytes(DbType::F64, &Host).unwrap();
            let sb = float(b).to_bytes(DbType::F64, &Host).unwrap();
            assert_eq!(a < b, sa < sb);
        }
    }
}

#[test]
fn test_cast() {
    assert_eq!(Variant::Null.cast(DbType::Null, &Host), Some(Variant::Null));
    assert_eq!(uint(5).cast(U8, &Host), Some(uint(5)));
    assert_eq!(uint(5).cast(DbType::Integer { signed: false, bytes: 1 }, &Host), Some(uint(5)));
    assert_eq!(uint(u64::MAX).cast(I8, &Host), Some(sint(-1)));
    assert_eq!(sint(-1).cast(U8, &Host), Some(uint(u64::MAX)));
    assert_eq!(sint(-3).cast(DbType::F64, &Host), Some(float(-3.0)));
    assert_eq!(uint(3).cast(DbType::F64, &Host), Some(float(3.0)));
    assert_eq!(float(-3.9).cast(I8, &Host), Some(sint(-3)));
    assert_eq!(float(3.9).cast(U8, &Host), Some(uint(3)));
    assert_eq!(float(-3.9).cast(U8, &Host), Some(uint(0)));
    assert_eq!(float(2.5).cast(DbType::String, &Host), Some(text("2.5")));
    assert_eq!(sint(-25).cast(DbType::String, &Host), Some(text("-25")));
    assert_eq!(uint(0).cast(DbType::String, &Host), Some(text("0")));
    assert_eq!(Variant::Null.cast(DbType::String, &Host), Some(text("NULL")));
    assert_eq!(bytes(&[1, 22, 255]).cast(DbType::String, &Host), Some(text("[1, 22, 255]")));
    assert_eq!(bytes(&[]).cast(DbType::String, &Host), Some(text("[]")));
    assert_eq!(uint(258).cast(DbType::ByteDynamic, &Host), Some(bytes(&[0, 0, 0, 0, 0, 0, 1, 2])));
    assert_eq!(text("a").cast(DbType::ByteDynamic, &Host), Some(bytes(&[b'a', 0])));
    assert_eq!(Variant::Null.cast(DbType::ByteDynamic, &Host), None);
    assert_eq!(bytes(&[1, 2]).cast(DbType::Integer { signed: false, bytes: 2 }, &Host), Some(uint(258)));
    assert_eq!(bytes(&[1, 2]).cast(DbType::Integer { signed: false, bytes: 4 }, &Host), None);
    assert_eq!(bytes(&[]).cast(DbType::Null, &Host), Some(Variant::Null));
    assert_eq!(bytes(&[1, 2]).cast(DbType::Null, &Host), None);
    assert_eq!(text("1").cast(U8, &Host), None);
    assert_eq!(text("1").cast(DbType::F64, &Host), None);
    assert_eq!(uint(1).cast(DbType::Null, &Host), None);
    assert_eq!(uint(1).cast(DbType::ByteFixed(8), &Host), None);
    assert_eq!(uint(7).to_u64(&Host), Ok(7));
    assert_eq!(float(7.5).to_u64(&Host), Ok(7));
    assert_eq!(text("7").to_u64(&Host), Err(()));
    assert_eq!(uint(7).to_f64(&Host).unwrap().to_bits(), 7.0f64.to_bits());
    assert!(text("7").to_f64(&Host).is_err());
}

#[test]
fn test_compare() {
    assert_eq!(uint(1).compare(&uint(2), &Host), Some(-1));
    assert_eq!(uint(2).compare(&uint(2), &Host), Some(0));
    assert_eq!(sint(3).compare(&sint(-2), &Host), Some(1));
    assert_eq!(sint(-1).compare(&uint(u64::MAX), &Host), Some(0));
    assert_eq!(float(1.5).compare(&uint(2), &Host), Some(-1));
    assert_eq!(uint(1).compare(&float(1.5), &Host), Some(0));
    assert_eq!(float(0.0).compare(&float(-0.0), &Host), Some(0));
    assert_eq!(text("abc").compare(&text("abd"), &Host), Some(-1));
    assert_eq!(text("b").compare(&text("abc"), &Host), Some(1));
    assert_eq!(text("ab").compare(&text("abc"), &Host), Some(-1));
    assert_eq!(text("10").compare(&uint(10), &Host), Some(0));
    assert_eq!(uint(10).compare(&text("10"), &Host), None);
    assert_eq!(bytes(&[1, 2]).compare(&bytes(&[1, 3]), &Host), Some(-1));
    assert_eq!(bytes(&[1, 2]).compare(&bytes(&[1, 2, 3]), &Host), None);
    assert_eq!(Variant::Null.compare(&uint(1), &Host), None);
    assert_eq!(uint(1).compare(&Variant::Null, &Host), None);
    assert_eq!(Variant::Null.compare(&Variant::Null, &Host), None);
    // a string is not compared with the text of NULL
    assert_eq!(text("NULL").compare(&Variant::Null, &Host), None);
}

#[test]
fn test_compare_is_an_order() {
    let values = vec![sint(-5), sint(0), sint(3), sint(3), sint(i64::MAX)];
    for a in &values {
        assert_eq!(a.compare(a, &Host), Some(0));
        for b in &values {
            let ab = a.compare(b, &Host).unwrap();
            assert_eq!(b.compare(a, &Host), Some(-ab));
            for c in &values {
                if ab <= 0 && b.compare(c, &Host).unwrap() <= 0 {
                    assert!(a.compare(c, &Host).unwrap() <= 0);
                }
            }
        }
    }
}

#[test]
fn test_three_valued_logic() {
    let values = vec![Variant::Null, uint(0), uint(1), text(""), text("x"), float(0.0), float(-0.0), float(0.5), bytes(&[]), bytes(&[0]), sint(0), sint(-1)];
    let codes = vec![0, -1, 1, -1, 1, -1, -1, 1, -1, 1, -1, 1];
    for (a, ca) in values.iter().zip(codes.iter()) {
        assert_eq!(a.to_3vl(), *ca);
        assert_eq!(a.is_null(), *ca == 0);
        assert_eq!(a.tests_true(), *ca == 1);
        assert_eq!(a.not().to_3vl(), -*ca);
        for (b, cb) in values.iter().zip(codes.iter()) {
            assert_eq!(a.and(b).to_3vl(), std::cmp::min(*ca, *cb));
            assert_eq!(a.or(b).to_3vl(), std::cmp::max(*ca, *cb));
        }
        assert_eq!(Variant::Null.equals(a, &Host), Variant::Null);
        assert_eq!(Variant::Null.not_equals(a, &Host), Variant::Null);
        assert_eq!(Variant::Null.less_than(a, &Host), Variant::Null);
        assert_eq!(Variant::Null.greater_than(a, &Host), Variant::Null);
        assert_eq!(Variant::Null.less_than_or_equal(a, &Host), Variant::Null);
        assert_eq!(Variant::Null.greater_than_or_equal(a, &Host), Variant::Null);
        assert_eq!(a.equals(&Variant::Null, &Host), Variant::Null);
        assert_eq!(a.greater_than_or_equal(&Variant::Null, &Host), Variant::Null);
    }
    assert_eq!(Variant::from_3vl(1), uint(1));
    assert_eq!(Variant::from_3vl(-1), uint(0));
    assert_eq!(Variant::from_3vl(0), Variant::Null);
    assert_eq!(Variant::null(), Variant::Null);
    assert_eq!(uint(1).less_than(&uint(2), &Host), uint(1));
    assert_eq!(uint(1).greater_than(&uint(2), &Host), uint(0));
    assert_eq!(uint(2).less_than_or_equal(&uint(2), &Host), uint(1));
    assert_eq!(uint(2).not_equals(&uint(2), &Host), uint(0));
    assert_eq!(uint(2).equals(&uint(2), &Host), uint(1));
    assert_eq!(uint(3).greater_than_or_equal(&uint(2), &Host), uint(1));
}

#[test]
fn test_arithmetic() {
    assert_eq!(uint(2).add(&uint(3), &Host), uint(5));
    assert_eq!(uint(u64::MAX).add(&uint(2), &Host), uint(1));
    assert_eq!(uint(2).sub(&uint(3), &Host), uint(u64::MAX));
    assert_eq!(uint(1 << 63).mul(&uint(2), &Host), uint(0));
    assert_eq!(uint(7).div(&uint(2), &Host), uint(3));
    assert_eq!(uint(7).div(&uint(0), &Host), Variant::Null);
    assert_eq!(sint(i64::MAX).add(&sint(1), &Host), sint(i64::MIN));
    assert_eq!(sint(i64::MIN).sub(&sint(1), &Host), sint(i64::MAX));
    assert_eq!(sint(-3).mul(&sint(4), &Host), sint(-12));
    assert_eq!(sint(i64::MIN).mul(&sint(-1), &Host), sint(i64::MIN));
    assert_eq!(sint(-7).div(&sint(2), &Host), sint(-3));
    assert_eq!(sint(7).div(&sint(-2), &Host), sint(-3));
    assert_eq!(sint(-7).div(&sint(-2), &Host), sint(3));
    assert_eq!(sint(i64::MIN).div(&sint(-1), &Host), sint(i64::MIN));
    assert_eq!(sint(7).div(&sint(0), &Host), Variant::Null);
    assert_eq!(float(1.5).add(&float(2.25), &Host), float(3.75));
    assert_eq!(float(1.5).sub(&float(2.25), &Host), float(-0.75));
    assert_eq!(float(1.5).mul(&float(-2.0), &Host), float(-3.0));
    assert_eq!(float(1.0).div(&float(4.0), &Host), float(0.25));
    assert_eq!(float(1.0).div(&float(-0.0), &Host), Variant::Null);
    assert_eq!(float(1.5).add(&uint(2), &Host), float(3.5));
    assert_eq!(uint(2).add(&float(1.5), &Host), uint(3));
    // what would be NaN is NULL
    assert_eq!(float(f64::INFINITY).sub(&float(f64::INFINITY), &Host), Variant::Null);
    assert_eq!(float(f64::INFINITY).mul(&float(0.0), &Host), Variant::Null);
    // the left side stays where the right side cannot be cast
    assert_eq!(uint(2).add(&text("x"), &Host), uint(2));
    assert_eq!(text("x").add(&uint(2), &Host), text("x"));
    assert_eq!(uint(2).add(&Variant::Null, &Host), uint(2));
    assert_eq!(sint(5).negate(), sint(-5));
    assert_eq!(sint(i64::MIN).negate(), sint(i64::MIN));
    assert_eq!(uint(5).negate(), sint(-5));
    assert_eq!(float(5.5).negate(), float(-5.5));
    assert_eq!(text("x").negate(), text("x"));
    assert_eq!(Variant::Null.negate(), Variant::Null);
}

#[test]
fn test_concat() {
    assert_eq!(text("foo").concat(&text("bar"), &Host), text("foobar"));
    assert_eq!(text("foo").concat(&uint(12), &Host), text("foo12"));
    assert_eq!(text("foo").concat(&float(1.5), &Host), text("foo1.5"));
    assert_eq!(text("foo").concat(&Variant::Null, &Host), text("fooNULL"));
    assert_eq!(uint(12).concat(&text("foo"), &Host), uint(12));
}

#[test]
fn test_dbtype() {
    let name = |s: &str| Identifier::new(s).unwrap();
    assert_eq!(DbType::from_identifier(&name("byte"), None), Some(DbType::Integer { signed: false, bytes: 1 }));
    assert_eq!(DbType::from_identifier(&name("BYTE"), Some(None)), Some(DbType::ByteDynamic));
    assert_eq!(DbType::from_identifier(&name("byte"), Some(Some(32))), Some(DbType::ByteFixed(32)));
    assert_eq!(DbType::from_identifier(&name("f64"), None), Some(DbType::F64));
    assert_eq!(DbType::from_identifier(&name("double"), None), Some(DbType::F64));
    assert_eq!(DbType::from_identifier(&name("string"), None), Some(DbType::String));
    assert_eq!(DbType::from_identifier(&name("varchar"), None), Some(DbType::String));
    assert_eq!(DbType::from_identifier(&name("int"), None), Some(DbType::Integer { signed: true, bytes: 4 }));
    assert_eq!(DbType::from_identifier(&name("integer"), None), Some(DbType::Integer { signed: true, bytes: 4 }));
    assert_eq!(DbType::from_identifier(&name("u8"), None), Some(DbType::Integer { signed: false, bytes: 1 }));
    assert_eq!(DbType::from_identifier(&name("i16"), None), Some(DbType::Integer { signed: true, bytes: 2 }));
    assert_eq!(DbType::from_identifier(&name("u64"), None), Some(DbType::Integer { signed: false, bytes: 8 }));
    assert_eq!(DbType::from_identifier(&name("u064"), None), Some(DbType::Integer { signed: false, bytes: 8 }));
    assert_eq!(DbType::from_identifier(&name("u0"), None), None);
    assert_eq!(DbType::from_identifier(&name("u12"), None), None);
    assert_eq!(DbType::from_identifier(&name("u72"), None), None);
    assert_eq!(DbType::from_identifier(&name("u999"), None), None);
    assert_eq!(DbType::from_identifier(&name("x8"), None), None);
    assert_eq!(DbType::from_identifier(&name("u"), None), None);
    assert_eq!(DbType::from_identifier(&name("int"), Some(None)), None);
    assert_eq!(DbType::from_identifier(&name("string"), Some(Some(3))), None);

    assert_eq!(DbType::Null.get_default(), Vec::<u8>::new());
    assert_eq!(DbType::ByteDynamic.get_default(), Vec::<u8>::new());
    assert_eq!(DbType::ByteFixed(3).get_default(), vec![0, 0, 0]);
    assert_eq!(DbType::Integer { signed: false, bytes: 2 }.get_default(), vec![0, 0]);
    assert_eq!(DbType::Integer { signed: true, bytes: 2 }.get_default(), vec![0x80, 0]);
    assert_eq!(DbType::F64.get_default(), vec![0x80, 0, 0, 0, 0, 0, 0, 0]);
    assert_eq!(DbType::String.get_default(), vec![0]);
    // the defaults are the stored forms of zero and of the empty string
    assert_eq!(Variant::from_bytes(DbType::F64, &DbType::F64.get_default()), Ok(float(0.0)));
    assert_eq!(Variant::from_bytes(DbType::String, &DbType::String.get_default()), Ok(text("")));
    assert_eq!(
        Variant::from_bytes(DbType::Integer { signed: true, bytes: 2 }, &[0x80, 0]),
        Ok(sint(0))
    );

    assert!(DbType::Null.is_valid_length(0));
    assert!(!DbType::Null.is_valid_length(1));
    assert!(DbType::ByteDynamic.is_valid_length(12345));
    assert!(DbType::ByteFixed(4).is_valid_length(4));
    assert!(!DbType::ByteFixed(4).is_valid_length(5));
    assert!(DbType::F64.is_valid_length(8));
    assert!(!DbType::F64.is_valid_length(4));
    assert_eq!(DbType::Integer { signed: true, bytes: 4 }.get_fixed_length(), Some(4));
    assert_eq!(DbType::String.get_fixed_length(), None);
    assert!(DbType::String.is_variable_length());
    assert!(!DbType::F64.is_variable_length());
    assert_eq!(uint(1).get_dbtype(), U8);
    assert_eq!(bytes(&[1, 2]).get_dbtype(), DbType::ByteFixed(2));
}

/// A host that answers every question with the same double.
struct One;

impl FloatOps for One {
    // Stands for this host in the contracts of the library; nothing calls it.
    fn model(&self) -> FloatModel {
        unreachable!()
    }

    fn add(&self, _a: u64, _b: u64) -> u64 {
        1.0f64.to_bits()
    }

    fn mul(&self, _a: u64, _b: u64) -> u64 {
        1.0f64.to_bits()
    }

    fn div(&self, _a: u64, _b: u64) -> u64 {
        f64::NAN.to_bits()
    }

    fn from_unsigned(&self, _value: u64) -> u64 {
        1.0f64.to_bits()
    }

    fn from_signed(&self, _value: i64) -> u64 {
        1.0f64.to_bits()
    }

    fn to_unsigned(&self, _bits: u64) -> u64 {
        1
    }

    fn to_signed(&self, _bits: u64) -> i64 {
        1
    }

    fn parse(&self, _text: &str) -> Option<u64> {
        None
    }

    fn format(&self, _bits: u64) -> String {
        String::from("one")
    }
}

#[test]
fn test_results_are_those_of_the_host() {
    assert_eq!(float(1.5).add(&float(2.25), &One), float(1.0));
    assert_eq!(float(1.5).mul(&float(4.0), &One), float(1.0));
    // a quotient that is no number is NULL
    assert_eq!(float(1.5).div(&float(4.0), &One), Variant::Null);
    assert_eq!(uint(7).cast(DbType::F64, &One), Some(float(1.0)));
    assert_eq!(float(7.5).cast(DbType::Integer { signed: true, bytes: 8 }, &One), Some(sint(1)));
    assert_eq!(float(7.5).cast(DbType::String, &One), Some(text("one")));
    assert_eq!(text("v=").concat(&float(7.5), &One), text("v=one"));
    // integers need no host
    assert_eq!(uint(2).add(&uint(3), &One), uint(5));
    assert_eq!(Variant::from_number_literal("12", &One), Ok(uint(12)));
    assert_eq!(Variant::from_number_literal("-12", &One), Ok(sint(-12)));
    // what only a double could spell is not read by a host that reads none
    assert!(Variant::from_number_literal("1.5", &One).is_err());
}
