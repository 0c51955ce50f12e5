//! The types of columns and the values that they hold.

use vstd::prelude::*;
use crate::identifier::Identifier;
use crate::text::{chars_eq_str, chars_of, parse_unsigned_below, unsigned_below};

pub mod f64nonan;
pub mod laws;
pub mod variant;

pub use self::f64nonan::F64NoNaN;
pub use self::variant::Variant;

verus! {

/// The type of a column.
#[derive(Debug, Clone, Copy, PartialEq, Eq, Structural)]
pub enum DbType {
    /// A type that only contains the NULL value.
    Null,
    /// byte[]: dynamic length byte array
    ByteDynamic,
    /// byte[N]: fixed length byte array
    ByteFixed(u64),
    /// integer of the given number of bytes, one to eight
    Integer { signed: bool, bytes: u8 },
    /// double precision floating point number
    F64,
    /// utf-8 string
    String,
}

/// The integer type that a name such as `u16` or `i64` stands for: `u` or
/// `i`, then a number of bits that is a multiple of 8 from 8 to 64.
pub open spec fn sized_integer_type(name: Seq<char>) -> Option<DbType> {
    if name.len() >= 2 {
        match unsigned_below(name.drop_first(), 255) {
            Some(bits) => if 8 <= bits <= 64 && bits % 8 == 0 {
                if name[0] == 'u' {
                    Some(DbType::Integer { signed: false, bytes: (bits / 8) as u8 })
                } else if name[0] == 'i' {
                    Some(DbType::Integer { signed: true, bytes: (bits / 8) as u8 })
                } else {
                    None
                }
            } else {
                None
            },
            None => None,
        }
    } else {
        None
    }
}

/// The type that a type name stands for, alone (`None`), with empty
/// brackets (`Some(None)`) or with a size in brackets.
pub open spec fn type_of_name(name: Seq<char>, array_size: Option<Option<u64>>) -> Option<DbType> {
    match array_size {
        Some(Some(size)) => if name == "byte"@ {
            Some(DbType::ByteFixed(size))
        } else {
            None
        },
        Some(None) => if name == "byte"@ {
            Some(DbType::ByteDynamic)
        } else {
            None
        },
        None => if name == "byte"@ {
            Some(DbType::Integer { signed: false, bytes: 1 })
        } else if name == "f64"@ || name == "double"@ {
            Some(DbType::F64)
        } else if name == "string"@ || name == "varchar"@ {
            Some(DbType::String)
        } else if name == "int"@ || name == "integer"@ {
            Some(DbType::Integer { signed: true, bytes: 4 })
        } else {
            sized_integer_type(name)
        },
    }
}

/// `n` zero bytes.
pub open spec fn zeros(n: nat) -> Seq<u8> {
    Seq::new(n, |i: int| 0u8)
}

impl DbType {
    /// Whether the type can be stored: an integer has one to eight bytes.
    pub open spec fn wf(&self) -> bool {
        match *self {
            DbType::Integer { bytes, .. } => 1 <= bytes <= 8,
            _ => true,
        }
    }

    /// The number of bytes of every value of the type; `None` where values
    /// differ in length.
    pub open spec fn fixed_length(&self) -> Option<u64> {
        match *self {
            DbType::Null => Some(0),
            DbType::ByteDynamic => None,
            DbType::ByteFixed(n) => Some(n),
            DbType::Integer { bytes, .. } => Some(bytes as u64),
            DbType::F64 => Some(8),
            DbType::String => None,
        }
    }

    /// The stored form of the type's default value: zero, the empty array,
    /// the empty string.
    pub open spec fn default_bytes(&self) -> Seq<u8> {
        match *self {
            DbType::Null => Seq::empty(),
            DbType::ByteDynamic => Seq::empty(),
            DbType::ByteFixed(n) => zeros(n as nat),
            DbType::Integer { signed: false, bytes } => zeros(bytes as nat),
            DbType::Integer { signed: true, bytes } => seq![0x80u8] + zeros((bytes - 1) as nat),
            DbType::F64 => seq![0x80u8] + zeros(7),
            DbType::String => seq![0u8],
        }
    }

    /// The type that a type name stands for.
    pub fn from_identifier(ident: &Identifier, array_size: Option<Option<u64>>) -> (r: Option<
        DbType,
    >)
        ensures
            r == type_of_name(ident@, array_size),
            r matches Some(t) ==> t.wf(),
    {
        let name = chars_of(ident.as_slice());
        let is_byte: bool = chars_eq_str(name.as_slice(), "byte");
        match array_size {
            Some(Some(size)) => if is_byte {
                Some(DbType::ByteFixed(size))
            } else {
                None
            },
            Some(None) => if is_byte {
                Some(DbType::ByteDynamic)
            } else {
                None
            },
            None => {
                if is_byte {
                    Some(DbType::Integer { signed: false, bytes: 1 })
                } else if chars_eq_str(name.as_slice(), "f64") || chars_eq_str(
                    name.as_slice(),
                    "double",
                ) {
                    Some(DbType::F64)
                } else if chars_eq_str(name.as_slice(), "string") || chars_eq_str(
                    name.as_slice(),
                    "varchar",
                ) {
                    Some(DbType::String)
                } else if chars_eq_str(name.as_slice(), "int") || chars_eq_str(
                    name.as_slice(),
                    "integer",
                ) {
                    Some(DbType::Integer { signed: true, bytes: 4 })
                } else if name.len() >= 2 {
                    let tail = vstd::slice::slice_subrange(name.as_slice(), 1, name.len());
                    proof {
                        assert(tail@ =~= name@.drop_first());
                    }
                    match parse_unsigned_below(tail, 255) {
                        Some(bits) => {
                            if bits < 8 || bits > 64 || bits % 8 != 0 {
                                None
                            } else if name[0] == 'u' {
                                Some(DbType::Integer { signed: false, bytes: (bits / 8) as u8 })
                            } else if name[0] == 'i' {
                                Some(DbType::Integer { signed: true, bytes: (bits / 8) as u8 })
                            } else {
                                None
                            }
                        },
                        None => None,
                    }
                } else {
                    None
                }
            },
        }
    }

    /// Whether the default value of the type can be made: the type can be
    /// stored and the length of its values is one that this machine can
    /// count.
    pub fn is_storable(&self) -> (r: bool)
        ensures
            r == (self.wf() && (self.fixed_length() matches Some(n) ==> n <= usize::MAX)),
    {
        match *self {
            DbType::Integer { bytes, .. } => 1 <= bytes && bytes <= 8,
            DbType::ByteFixed(n) => n <= usize::MAX as u64,
            _ => true,
        }
    }

    /// The stored form of the type's default value.
    pub fn get_default(&self) -> (r: Vec<u8>)
        requires
            self.wf(),
            self.fixed_length() matches Some(n) ==> n <= usize::MAX,
        ensures
            r@ == self.default_bytes(),
    {
        let mut v: Vec<u8> = Vec::new();
        let count: usize = match *self {
            DbType::Null => 0,
            DbType::ByteDynamic => 0,
            DbType::ByteFixed(n) => n as usize,
            DbType::Integer { signed: false, bytes } => bytes as usize,
            DbType::Integer { signed: true, bytes } => {
                v.push(0x80);
                (bytes - 1) as usize
            },
            DbType::F64 => {
                v.push(0x80);
                7
            },
            DbType::String => 1,
        };
        let ghost head = v@;
        let mut i: usize = 0;
        while i < count
            invariant
                i <= count,
                v@ == head + zeros(i as nat),
            decreases count - i,
        {
            v.push(0);
            proof {
                assert(v@ =~= head + zeros((i + 1) as nat));
            }
            i = i + 1;
        }
        proof {
            assert(v@ =~= self.default_bytes());
        }
        v
    }

    /// Whether a stored value of the type can have this many bytes.
    pub fn is_valid_length(&self, length: u64) -> (r: bool)
        ensures
            r == match self.fixed_length() {
                Some(n) => length == n,
                None => true,
            },
    {
        match *self {
            DbType::Null => length == 0,
            DbType::ByteDynamic => true,
            DbType::ByteFixed(bytes) => length == bytes,
            DbType::Integer { bytes, .. } => length == bytes as u64,
            DbType::F64 => length == 8,
            DbType::String => true,
        }
    }

    /// The number of bytes of every value of the type, if there is one.
    pub fn get_fixed_length(&self) -> (r: Option<u64>)
        ensures
            r == self.fixed_length(),
    {
        match *self {
            DbType::Null => Some(0),
            DbType::ByteDynamic => None,
            DbType::ByteFixed(n) => Some(n),
            DbType::Integer { bytes, .. } => Some(bytes as u64),
            DbType::F64 => Some(8),
            DbType::String => None,
        }
    }

    /// Whether values of the type differ in length.
    pub fn is_variable_length(&self) -> (r: bool)
        ensures
            r == self.fixed_length().is_none(),
    {
        match self.get_fixed_length() {
            Some(_) => false,
            None => true,
        }
    }
}

} // verus!
