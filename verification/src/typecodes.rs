//! Serial types: the code that stands in a record's header for each column,
//! and the value that a column's bytes spell under it.

use crate::bytes::{
    be_signed, be_unsigned, lemma_be_unsigned_bounds, lemma_pow256_values, read_be,
    read_be_signed,
};
use crate::error::{prepend, Error};
use crate::utils::{decode_varint, spec_decode_varint};
use vstd::prelude::*;
use vstd::slice::slice_subrange;
use vstd::utf8::{decode_utf8, valid_utf8};

verus! {

/// How one column of a record is stored.
#[derive(Debug, Clone, Copy, PartialEq, Eq, Structural)]
pub enum TypeCode {
    Null,
    I8,
    I16,
    I24,
    I32,
    I48,
    I64,
    F64,
    Zero,
    One,
    /// A blob of so many bytes.
    Blob(usize),
    /// A text of so many bytes of UTF-8.
    Text(usize),
}

/// One column value. A float is kept as the 64 bits of its IEEE 754 form.
#[derive(Debug, Clone, PartialEq, Eq)]
pub enum SqlValue {
    Null,
    I8(i8),
    I16(i16),
    I24(i32),
    I32(i32),
    I48(i64),
    I64(i64),
    F64(u64),
    Zero,
    One,
    Blob(Vec<u8>),
    Text(String),
}

/// What a [`SqlValue`] stands for.
pub enum Datum {
    Null,
    I8(i8),
    I16(i16),
    I24(i32),
    I32(i32),
    I48(i64),
    I64(i64),
    F64(u64),
    Zero,
    One,
    Blob(Seq<u8>),
    Text(Seq<char>),
}

impl Datum {
    /// The number that an integer value holds; the literals count as 0 and 1.
    pub open spec fn integer(self) -> Option<i64> {
        match self {
            Datum::I8(v) => Some(v as i64),
            Datum::I16(v) => Some(v as i64),
            Datum::I24(v) => Some(v as i64),
            Datum::I32(v) => Some(v as i64),
            Datum::I48(v) => Some(v),
            Datum::I64(v) => Some(v),
            Datum::Zero => Some(0i64),
            Datum::One => Some(1i64),
            _ => None,
        }
    }

    /// The characters of a text value.
    pub open spec fn text(self) -> Option<Seq<char>> {
        match self {
            Datum::Text(s) => Some(s),
            _ => None,
        }
    }
}

impl View for SqlValue {
    type V = Datum;

    open spec fn view(&self) -> Datum {
        match self {
            SqlValue::Null => Datum::Null,
            SqlValue::I8(v) => Datum::I8(*v),
            SqlValue::I16(v) => Datum::I16(*v),
            SqlValue::I24(v) => Datum::I24(*v),
            SqlValue::I32(v) => Datum::I32(*v),
            SqlValue::I48(v) => Datum::I48(*v),
            SqlValue::I64(v) => Datum::I64(*v),
            SqlValue::F64(v) => Datum::F64(*v),
            SqlValue::Zero => Datum::Zero,
            SqlValue::One => Datum::One,
            SqlValue::Blob(b) => Datum::Blob(b@),
            SqlValue::Text(s) => Datum::Text(s@),
        }
    }
}

impl SqlValue {
    /// The number that an integer value holds; the literals count as 0 and 1.
    pub fn as_integer(&self) -> (r: Option<i64>)
        ensures
            r == self@.integer(),
    {
        match self {
            SqlValue::I8(v) => Some(*v as i64),
            SqlValue::I16(v) => Some(*v as i64),
            SqlValue::I24(v) => Some(*v as i64),
            SqlValue::I32(v) => Some(*v as i64),
            SqlValue::I48(v) => Some(*v),
            SqlValue::I64(v) => Some(*v),
            SqlValue::Zero => Some(0),
            SqlValue::One => Some(1),
            _ => None,
        }
    }

    /// A copy of this value.
    pub fn duplicate(&self) -> (r: SqlValue)
        ensures
            r@ == self@,
    {
        match self {
            SqlValue::Null => SqlValue::Null,
            SqlValue::I8(v) => SqlValue::I8(*v),
            SqlValue::I16(v) => SqlValue::I16(*v),
            SqlValue::I24(v) => SqlValue::I24(*v),
            SqlValue::I32(v) => SqlValue::I32(*v),
            SqlValue::I48(v) => SqlValue::I48(*v),
            SqlValue::I64(v) => SqlValue::I64(*v),
            SqlValue::F64(v) => SqlValue::F64(*v),
            SqlValue::Zero => SqlValue::Zero,
            SqlValue::One => SqlValue::One,
            SqlValue::Blob(b) => SqlValue::Blob(b.clone()),
            SqlValue::Text(s) => SqlValue::Text(s.clone()),
        }
    }
}

/// The serial type that the code `n` names, if it names one: 10 and 11 name
/// none, nor does a code whose width does not fit the machine.
pub open spec fn type_of_code(n: nat) -> Option<TypeCode> {
    if n == 0 {
        Some(TypeCode::Null)
    } else if n == 1 {
        Some(TypeCode::I8)
    } else if n == 2 {
        Some(TypeCode::I16)
    } else if n == 3 {
        Some(TypeCode::I24)
    } else if n == 4 {
        Some(TypeCode::I32)
    } else if n == 5 {
        Some(TypeCode::I48)
    } else if n == 6 {
        Some(TypeCode::I64)
    } else if n == 7 {
        Some(TypeCode::F64)
    } else if n == 8 {
        Some(TypeCode::Zero)
    } else if n == 9 {
        Some(TypeCode::One)
    } else if n < 12 {
        None
    } else if n % 2 == 0 {
        if (n - 12) / 2 <= usize::MAX {
            Some(TypeCode::Blob(((n - 12) / 2) as usize))
        } else {
            None
        }
    } else {
        if (n - 13) / 2 <= usize::MAX {
            Some(TypeCode::Text(((n - 13) / 2) as usize))
        } else {
            None
        }
    }
}

/// The serial types that the bytes of a record header spell, one varint each.
pub open spec fn spec_serial_types(data: Seq<u8>) -> Result<Seq<TypeCode>, Error>
    decreases data.len(),
{
    if data.len() == 0 {
        Ok(Seq::empty())
    } else {
        match spec_decode_varint(data) {
            Some((code, n)) if 1 <= n <= data.len() => match type_of_code(code) {
                Some(t) => prepend(seq![t], spec_serial_types(data.skip(n as int))),
                None => Err(Error::Decode),
            },
            _ => Err(Error::Decode),
        }
    }
}

impl TypeCode {
    /// The number of bytes that a column of this type takes in a record's body.
    pub open spec fn spec_size(&self) -> usize {
        match self {
            TypeCode::Null => 0,
            TypeCode::I8 => 1,
            TypeCode::I16 => 2,
            TypeCode::I24 => 3,
            TypeCode::I32 => 4,
            TypeCode::I48 => 6,
            TypeCode::I64 => 8,
            TypeCode::F64 => 8,
            TypeCode::Zero => 0,
            TypeCode::One => 0,
            TypeCode::Blob(size) => *size,
            TypeCode::Text(size) => *size,
        }
    }

    /// The value that the first `spec_size()` bytes of `data` spell under this
    /// type: an error where `data` is shorter than that, or where a text is
    /// not UTF-8.
    pub open spec fn spec_decode(&self, data: Seq<u8>) -> Result<Datum, Error> {
        if data.len() < self.spec_size() {
            Err(Error::Decode)
        } else {
            let body = data.take(self.spec_size() as int);
            match self {
                TypeCode::Null => Ok(Datum::Null),
                TypeCode::I8 => Ok(Datum::I8(be_signed(body) as i8)),
                TypeCode::I16 => Ok(Datum::I16(be_signed(body) as i16)),
                TypeCode::I24 => Ok(Datum::I24(be_signed(body) as i32)),
                TypeCode::I32 => Ok(Datum::I32(be_signed(body) as i32)),
                TypeCode::I48 => Ok(Datum::I48(be_signed(body) as i64)),
                TypeCode::I64 => Ok(Datum::I64(be_signed(body) as i64)),
                TypeCode::F64 => Ok(Datum::F64(be_unsigned(body) as u64)),
                TypeCode::Zero => Ok(Datum::Zero),
                TypeCode::One => Ok(Datum::One),
                TypeCode::Blob(_) => Ok(Datum::Blob(body)),
                TypeCode::Text(_) => if valid_utf8(body) {
                    Ok(Datum::Text(decode_utf8(body)))
                } else {
                    Err(Error::Decode)
                },
            }
        }
    }

    /// The serial type that the code `n` names.
    pub fn from_code(n: u64) -> (r: Result<TypeCode, Error>)
        ensures
            match type_of_code(n as nat) {
                Some(t) => r == Ok::<TypeCode, Error>(t),
                None => r == Err::<TypeCode, Error>(Error::Decode),
            },
    {
        if n == 0 {
            Ok(TypeCode::Null)
        } else if n == 1 {
            Ok(TypeCode::I8)
        } else if n == 2 {
            Ok(TypeCode::I16)
        } else if n == 3 {
            Ok(TypeCode::I24)
        } else if n == 4 {
            Ok(TypeCode::I32)
        } else if n == 5 {
            Ok(TypeCode::I48)
        } else if n == 6 {
            Ok(TypeCode::I64)
        } else if n == 7 {
            Ok(TypeCode::F64)
        } else if n == 8 {
            Ok(TypeCode::Zero)
        } else if n == 9 {
            Ok(TypeCode::One)
        } else if n < 12 {
            Err(Error::Decode)
        } else if n % 2 == 0 {
            let size = (n - 12) / 2;
            if size <= usize::MAX as u64 {
                Ok(TypeCode::Blob(size as usize))
            } else {
                Err(Error::Decode)
            }
        } else {
            let size = (n - 13) / 2;
            if size <= usize::MAX as u64 {
                Ok(TypeCode::Text(size as usize))
            } else {
                Err(Error::Decode)
            }
        }
    }

    /// The number of bytes that a column of this type takes in a record's body.
    #[verifier::when_used_as_spec(spec_size)]
    pub fn size(&self) -> (n: usize)
        ensures
            n == self.spec_size(),
    {
        match self {
            TypeCode::Null => 0,
            TypeCode::I8 => 1,
            TypeCode::I16 => 2,
            TypeCode::I24 => 3,
            TypeCode::I32 => 4,
            TypeCode::I48 => 6,
            TypeCode::I64 => 8,
            TypeCode::F64 => 8,
            TypeCode::Zero => 0,
            TypeCode::One => 0,
            TypeCode::Blob(size) => *size,
            TypeCode::Text(size) => *size,
        }
    }

    /// Reads a column of this type from the start of `data`.
    pub fn decode(&self, data: &[u8]) -> (r: Result<SqlValue, Error>)
        ensures
            match self.spec_decode(data@) {
                Ok(d) => r matches Ok(v) && v@ == d,
                Err(e) => r matches Err(f) && f == e,
            },
    {
        let size = self.size();
        if data.len() < size {
            return Err(Error::Decode);
        }
        proof {
            lemma_pow256_values();
            assert(data@.subrange(0, size as int) =~= data@.take(size as int));
            lemma_be_unsigned_bounds(data@.take(size as int));
        }
        match self {
            TypeCode::Null => Ok(SqlValue::Null),
            TypeCode::I8 => Ok(SqlValue::I8(read_be_signed(data, 0, 1) as i8)),
            TypeCode::I16 => Ok(SqlValue::I16(read_be_signed(data, 0, 2) as i16)),
            TypeCode::I24 => Ok(SqlValue::I24(read_be_signed(data, 0, 3) as i32)),
            TypeCode::I32 => Ok(SqlValue::I32(read_be_signed(data, 0, 4) as i32)),
            TypeCode::I48 => Ok(SqlValue::I48(read_be_signed(data, 0, 6))),
            TypeCode::I64 => Ok(SqlValue::I64(read_be_signed(data, 0, 8))),
            TypeCode::F64 => Ok(SqlValue::F64(read_be(data, 0, 8))),
            TypeCode::Zero => Ok(SqlValue::Zero),
            TypeCode::One => Ok(SqlValue::One),
            TypeCode::Blob(_) => {
                let body = slice_subrange(data, 0, size);
                Ok(SqlValue::Blob(vstd::slice::slice_to_vec(body)))
            },
            TypeCode::Text(_) => {
                let body = slice_subrange(data, 0, size);
                match string_from_utf8(vstd::slice::slice_to_vec(body)) {
                    Some(text) => Ok(SqlValue::Text(text)),
                    None => Err(Error::Decode),
                }
            },
        }
    }
}

/// Taken on trust of `String::from_utf8` of std: it succeeds exactly where
/// `bytes` are valid UTF-8, and the string that it gives then has the
/// characters that `bytes` encode.
#[verifier::external_body]
fn string_from_utf8(bytes: Vec<u8>) -> (r: Option<String>)
    ensures
        r is Some <==> valid_utf8(bytes@),
        r matches Some(s) ==> s@ == decode_utf8(bytes@),
{
    String::from_utf8(bytes).ok()
}

/// Of the codes from 12 on, the odd ones are texts and the even ones blobs,
/// and the width is half of what the code has above 13 or 12.
pub proof fn lemma_serial_type_width(n: u64)
    requires
        n >= 12,
        (n - 12) / 2 <= usize::MAX,
    ensures
        n % 2 == 1 <==> type_of_code(n as nat) matches Some(TypeCode::Text(_)),
        n % 2 == 0 <==> type_of_code(n as nat) matches Some(TypeCode::Blob(_)),
        n % 2 == 1 ==> (type_of_code(n as nat) matches Some(t) && t.spec_size() == (n - 13) / 2),
        n % 2 == 0 ==> (type_of_code(n as nat) matches Some(t) && t.spec_size() == (n - 12) / 2),
{
}

/// Reads the serial types of a record header, one varint each, to the end of
/// `data`.
pub fn decode_serial_types(data: &[u8]) -> (r: Result<Vec<TypeCode>, Error>)
    ensures
        match spec_serial_types(data@) {
            Ok(s) => r matches Ok(v) && v@ == s,
            Err(e) => r matches Err(f) && f == e,
        },
{
    let mut i: usize = 0;
    let mut serial_types: Vec<TypeCode> = Vec::new();
    assert(data@.skip(0) =~= data@);
    while i < data.len()
        invariant
            i <= data.len(),
            spec_serial_types(data@) == prepend(
                serial_types@,
                spec_serial_types(data@.skip(i as int)),
            ),
        decreases data.len() - i,
    {
        let rest = slice_subrange(data, i, data.len());
        assert(rest@ =~= data@.skip(i as int));
        let (code, n) = match decode_varint(rest) {
            Ok(found) => found,
            Err(e) => {
                return Err(Error::Decode);
            },
        };
        let t = match TypeCode::from_code(code) {
            Ok(t) => t,
            Err(e) => {
                return Err(Error::Decode);
            },
        };
        proof {
            assert(data@.skip(i as int).skip(n as int) =~= data@.skip(i + n));
            let tail = spec_serial_types(data@.skip(i + n));
            match tail {
                Ok(s) => {
                    assert(serial_types@ + (seq![t] + s) =~= serial_types@.push(t) + s);
                },
                Err(_) => {},
            }
        }
        serial_types.push(t);
        i += n;
    }
    assert(serial_types@ + Seq::<TypeCode>::empty() =~= serial_types@);
    Ok(serial_types)
}

} // verus!
