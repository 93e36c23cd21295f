//! The runtime value model: a closed tagged union over the legacy data kinds,
//! with the coercion, rendering and arithmetic rules the interpreter uses.
//!
//! The legacy behaviour for mixed-kind operands is a fixed-but-quirky rule
//! set; this module picks and documents one deterministic table:
//!
//! - An integer-coercible kind is one of Integer, Boolean (1 or 0), Byte,
//!   Word, SByte, SWord, Unsigned (wrapped to 32-bit signed), Date and Time.
//! - Arithmetic first renders string operands: `+` with a string operand
//!   concatenates the rendered operands; every other arithmetic operator
//!   demands integer-coercible operands and yields a 32-bit Integer, with
//!   two's-complement wrap-around on overflow (documented choice: wrap, not
//!   saturate).
//! - Money carries whole cents and Real carries a plain integer stand-in
//!   (floating point stays outside the verified core); both render as that
//!   integer and convert to Integer by 32-bit wrap-around, but they are not
//!   integer-coercible inside arithmetic, where their use is a type error.
//! - Comparisons: equality is defined between two strings (by characters)
//!   and between two integer-coercible values; order comparisons demand
//!   integer-coercible operands; anything else is a type error.
//! - Logical operators coerce through the truth rule: a Boolean is itself,
//!   an integer-coercible value is true exactly when it equals the legacy
//!   true sentinel 1; anything else is a type error.

use vstd::prelude::*;
use vstd::string::StringExecFns;
use crate::errors::Error;
use crate::text::clamp_i32;
use crate::text::int_chars;
use crate::text::parse_int;
use crate::text::parsed_int;
use crate::text::i32_to_string;
use crate::text::i64_to_string;
use crate::text::u64_to_string;

verus! {

/// Integer conditions are true exactly when they equal this sentinel.
pub const PPL_TRUE: i32 = 1;

/// The declared type of a variable or procedure parameter.
#[derive(Debug, Clone, Copy, PartialEq, Eq, Structural)]
pub enum VariableType {
    Boolean,
    Unsigned,
    Date,
    EDate,
    Integer,
    Money,
    Real,
    Str,
    Time,
    Byte,
    Word,
    SByte,
    SWord,
    BigStr,
    Double,
    DDate,
    Function,
    Procedure,
    Unknown,
}

/// A runtime value. Arrays carry their fixed element type and their storage;
/// storage index 0 holds the value of legacy index 1 (the single conversion
/// point from 1-based legacy indexing to 0-based storage sits at the
/// storage boundary).
#[derive(Debug)]
pub enum VariableValue {
    Boolean(bool),
    Integer(i32),
    Unsigned(u32),
    Byte(u8),
    Word(u16),
    SByte(i8),
    SWord(i16),
    /// Whole cents.
    Money(i64),
    /// Integer stand-in for the legacy floating-point kind.
    Real(i64),
    Date(u16),
    Time(i32),
    Str(String),
    Dim1(VariableType, Vec<VariableValue>),
    Dim2(VariableType, Vec<VariableValue>),
    Dim3(VariableType, Vec<VariableValue>),
}

/// The mathematical content of one scalar value; every array maps to the
/// same marker, so this view looks one level deep only.
pub ghost enum ScalarView {
    Bool(bool),
    Int(int),
    Uns(int),
    ByteV(int),
    WordV(int),
    SByteV(int),
    SWordV(int),
    MoneyV(int),
    RealV(int),
    DateV(int),
    TimeV(int),
    StrV(Seq<char>),
    ArrMark,
}

/// The mathematical content of a value: a scalar, or an array of scalars
/// together with its dimension count and element type.
pub ghost enum ValView {
    Scalar(ScalarView),
    Arr(int, VariableType, Seq<ScalarView>),
}

/// The scalar content of a value (arrays map to the marker).
pub open spec fn scalar_view(v: VariableValue) -> ScalarView {
    match v {
        VariableValue::Boolean(b) => ScalarView::Bool(b),
        VariableValue::Integer(i) => ScalarView::Int(i as int),
        VariableValue::Unsigned(u) => ScalarView::Uns(u as int),
        VariableValue::Byte(b) => ScalarView::ByteV(b as int),
        VariableValue::Word(w) => ScalarView::WordV(w as int),
        VariableValue::SByte(b) => ScalarView::SByteV(b as int),
        VariableValue::SWord(w) => ScalarView::SWordV(w as int),
        VariableValue::Money(m) => ScalarView::MoneyV(m as int),
        VariableValue::Real(r) => ScalarView::RealV(r as int),
        VariableValue::Date(d) => ScalarView::DateV(d as int),
        VariableValue::Time(t) => ScalarView::TimeV(t as int),
        VariableValue::Str(s) => ScalarView::StrV(s@),
        VariableValue::Dim1(_, _) => ScalarView::ArrMark,
        VariableValue::Dim2(_, _) => ScalarView::ArrMark,
        VariableValue::Dim3(_, _) => ScalarView::ArrMark,
    }
}

/// The full content of a value.
pub open spec fn vv_view(v: VariableValue) -> ValView {
    match v {
        VariableValue::Dim1(t, data) => ValView::Arr(
            1,
            t,
            Seq::new(data@.len(), |i: int| scalar_view(data@[i])),
        ),
        VariableValue::Dim2(t, data) => ValView::Arr(
            2,
            t,
            Seq::new(data@.len(), |i: int| scalar_view(data@[i])),
        ),
        VariableValue::Dim3(t, data) => ValView::Arr(
            3,
            t,
            Seq::new(data@.len(), |i: int| scalar_view(data@[i])),
        ),
        _ => ValView::Scalar(scalar_view(v)),
    }
}

/// The integer a value coerces to inside arithmetic, comparisons and
/// conditions; `None` for the kinds that are not integer-coercible there.
pub open spec fn int_of(sv: ScalarView) -> Option<int> {
    match sv {
        ScalarView::Bool(b) => Some(
            if b {
                1int
            } else {
                0int
            },
        ),
        ScalarView::Int(i) => Some(i),
        ScalarView::Uns(u) => Some(
            if u > i32::MAX as int {
                u - 0x1_0000_0000
            } else {
                u
            },
        ),
        ScalarView::ByteV(b) => Some(b),
        ScalarView::WordV(w) => Some(w),
        ScalarView::SByteV(b) => Some(b),
        ScalarView::SWordV(w) => Some(w),
        ScalarView::DateV(d) => Some(d),
        ScalarView::TimeV(t) => Some(t),
        ScalarView::MoneyV(_) => None,
        ScalarView::RealV(_) => None,
        ScalarView::StrV(_) => None,
        ScalarView::ArrMark => None,
    }
}

/// How a scalar renders as text: strings render as themselves, Booleans as
/// "1" or "0", every numeric kind as its decimal integer (Money renders its
/// cents), and an array renders as the empty string.
pub open spec fn render_of(sv: ScalarView) -> Seq<char> {
    match sv {
        ScalarView::Bool(b) => if b {
            seq!['1']
        } else {
            seq!['0']
        },
        ScalarView::Int(i) => int_chars(i),
        ScalarView::Uns(u) => int_chars(u),
        ScalarView::ByteV(b) => int_chars(b),
        ScalarView::WordV(w) => int_chars(w),
        ScalarView::SByteV(b) => int_chars(b),
        ScalarView::SWordV(w) => int_chars(w),
        ScalarView::MoneyV(m) => int_chars(m),
        ScalarView::RealV(r) => int_chars(r),
        ScalarView::DateV(d) => int_chars(d),
        ScalarView::TimeV(t) => int_chars(t),
        ScalarView::StrV(s) => s,
        ScalarView::ArrMark => Seq::empty(),
    }
}

/// Two's-complement wrap-around of an unbounded integer into 32 bits.
pub open spec fn wrap_i32(v: int) -> int {
    let m = v % 0x1_0000_0000;
    if m > i32::MAX as int {
        m - 0x1_0000_0000
    } else {
        m
    }
}

/// The truth a value carries in a logical operator or condition.
pub open spec fn truthy_of(sv: ScalarView) -> Option<bool> {
    match sv {
        ScalarView::Bool(b) => Some(b),
        _ => match int_of(sv) {
            Some(i) => Some(i == PPL_TRUE as int),
            None => None,
        },
    }
}

impl VariableValue {
    /// A short name of the value's kind, used in diagnostics.
    pub fn kind_name(&self) -> (r: &'static str) {
        match self {
            VariableValue::Boolean(_) => "Boolean",
            VariableValue::Integer(_) => "Integer",
            VariableValue::Unsigned(_) => "Unsigned",
            VariableValue::Byte(_) => "Byte",
            VariableValue::Word(_) => "Word",
            VariableValue::SByte(_) => "SByte",
            VariableValue::SWord(_) => "SWord",
            VariableValue::Money(_) => "Money",
            VariableValue::Real(_) => "Real",
            VariableValue::Date(_) => "Date",
            VariableValue::Time(_) => "Time",
            VariableValue::Str(_) => "String",
            VariableValue::Dim1(_, _) => "Array",
            VariableValue::Dim2(_, _) => "Array",
            VariableValue::Dim3(_, _) => "Array",
        }
    }

    /// Copies a scalar exactly; an array (which never appears where this is
    /// used: array elements and converted values are always scalars) is
    /// replaced by an empty array, preserving the one-level view.
    pub fn duplicate_scalar(&self) -> (r: VariableValue)
        ensures
            scalar_view(r) == scalar_view(*self),
            !(scalar_view(*self) is ArrMark) ==> vv_view(r) == vv_view(*self),
    {
        match self {
            VariableValue::Boolean(b) => VariableValue::Boolean(*b),
            VariableValue::Integer(i) => VariableValue::Integer(*i),
            VariableValue::Unsigned(u) => VariableValue::Unsigned(*u),
            VariableValue::Byte(b) => VariableValue::Byte(*b),
            VariableValue::Word(w) => VariableValue::Word(*w),
            VariableValue::SByte(b) => VariableValue::SByte(*b),
            VariableValue::SWord(w) => VariableValue::SWord(*w),
            VariableValue::Money(m) => VariableValue::Money(*m),
            VariableValue::Real(r) => VariableValue::Real(*r),
            VariableValue::Date(d) => VariableValue::Date(*d),
            VariableValue::Time(t) => VariableValue::Time(*t),
            VariableValue::Str(s) => VariableValue::Str(s.clone()),
            VariableValue::Dim1(_, _) => VariableValue::Dim1(VariableType::Integer, Vec::new()),
            VariableValue::Dim2(_, _) => VariableValue::Dim1(VariableType::Integer, Vec::new()),
            VariableValue::Dim3(_, _) => VariableValue::Dim1(VariableType::Integer, Vec::new()),
        }
    }

    /// Copies a value, preserving its full one-level view; elements of an
    /// array are scalars and are copied exactly (a nested array, which the
    /// interpreter never stores, degrades to an empty array marker).
    pub fn duplicate(&self) -> (r: VariableValue)
        ensures
            vv_view(r) == vv_view(*self),
    {
        match self {
            VariableValue::Dim1(t, data) => VariableValue::Dim1(*t, dup_elements(data)),
            VariableValue::Dim2(t, data) => VariableValue::Dim2(*t, dup_elements(data)),
            VariableValue::Dim3(t, data) => VariableValue::Dim3(*t, dup_elements(data)),
            _ => {
                let r = self.duplicate_scalar();
                proof {
                    assert(vv_view(r) == vv_view(*self));
                }
                r
            },
        }
    }
}

/// Copies every element of an array's storage, preserving each element's
/// scalar view.
fn dup_elements(data: &Vec<VariableValue>) -> (r: Vec<VariableValue>)
    ensures
        r@.len() == data@.len(),
        forall|i: int|
            0 <= i < data@.len() ==> scalar_view(r@[i]) == scalar_view(#[trigger] data@[i]),
        Seq::new(r@.len(), |i: int| scalar_view(r@[i])) == Seq::new(
            data@.len(),
            |i: int| scalar_view(data@[i]),
        ),
{
    let mut r: Vec<VariableValue> = Vec::new();
    let mut i: usize = 0;
    while i < data.len()
        invariant
            i <= data@.len(),
            r@.len() == i,
            forall|k: int|
                0 <= k < i ==> scalar_view(r@[k]) == scalar_view(#[trigger] data@[k]),
        decreases data@.len() - i,
    {
        r.push(data[i].duplicate_scalar());
        i = i + 1;
    }
    proof {
        assert(Seq::new(r@.len(), |i: int| scalar_view(r@[i])) =~= Seq::new(
            data@.len(),
            |i: int| scalar_view(data@[i]),
        ));
    }
    r
}

/// Coerces a value to the integer the arithmetic rules give it.
pub fn get_int(v: &VariableValue) -> (r: Result<i32, Error>)
    ensures
        match int_of(scalar_view(*v)) {
            Some(i) => r matches Ok(x) && x as int == i,
            None => r matches Err(e) && e matches Error::IntegerExpected(_),
        },
{
    match v {
        VariableValue::Boolean(b) => Ok(
            if *b {
                1
            } else {
                0
            },
        ),
        VariableValue::Integer(i) => Ok(*i),
        VariableValue::Unsigned(u) => {
            if *u > 0x7FFF_FFFFu32 {
                Ok((((*u as i64) - 0x1_0000_0000i64) as i32))
            } else {
                Ok(*u as i32)
            }
        },
        VariableValue::Byte(b) => Ok(*b as i32),
        VariableValue::Word(w) => Ok(*w as i32),
        VariableValue::SByte(b) => Ok(*b as i32),
        VariableValue::SWord(w) => Ok(*w as i32),
        VariableValue::Date(d) => Ok(*d as i32),
        VariableValue::Time(t) => Ok(*t),
        _ => Err(Error::IntegerExpected(v.kind_name().to_owned())),
    }
}

/// Renders a value as text, following the documented rendering rule.
pub fn get_string(v: &VariableValue) -> (r: String)
    ensures
        r@ == render_of(scalar_view(*v)),
{
    match v {
        VariableValue::Boolean(b) => {
            proof {
                reveal_strlit("1");
                reveal_strlit("0");
            }
            let r = if *b {
                "1".to_owned()
            } else {
                "0".to_owned()
            };
            proof {
                assert(r@ =~= render_of(scalar_view(*v)));
            }
            r
        },
        VariableValue::Integer(i) => i32_to_string(*i),
        VariableValue::Unsigned(u) => u64_to_string(*u as u64),
        VariableValue::Byte(b) => u64_to_string(*b as u64),
        VariableValue::Word(w) => u64_to_string(*w as u64),
        VariableValue::SByte(b) => i64_to_string(*b as i64),
        VariableValue::SWord(w) => i64_to_string(*w as i64),
        VariableValue::Money(m) => i64_to_string(*m),
        VariableValue::Real(r) => i64_to_string(*r),
        VariableValue::Date(d) => u64_to_string(*d as u64),
        VariableValue::Time(t) => i32_to_string(*t),
        VariableValue::Str(s) => s.clone(),
        VariableValue::Dim1(_, _) => String::new(),
        VariableValue::Dim2(_, _) => String::new(),
        VariableValue::Dim3(_, _) => String::new(),
    }
}

/// The default value a declaration of the given type starts with.
pub fn default_value(t: VariableType) -> (r: VariableValue)
    ensures
        scalar_view(r) == default_view(t),
        vv_view(r) == ValView::Scalar(default_view(t)),
{
    match t {
        VariableType::Boolean => VariableValue::Boolean(false),
        VariableType::Unsigned => VariableValue::Unsigned(0),
        VariableType::Date => VariableValue::Date(0),
        VariableType::EDate => VariableValue::Date(0),
        VariableType::Integer => VariableValue::Integer(0),
        VariableType::Money => VariableValue::Money(0),
        VariableType::Real => VariableValue::Real(0),
        VariableType::Str => VariableValue::Str(String::new()),
        VariableType::Time => VariableValue::Time(0),
        VariableType::Byte => VariableValue::Byte(0),
        VariableType::Word => VariableValue::Word(0),
        VariableType::SByte => VariableValue::SByte(0),
        VariableType::SWord => VariableValue::SWord(0),
        VariableType::BigStr => VariableValue::Str(String::new()),
        VariableType::Double => VariableValue::Real(0),
        VariableType::DDate => VariableValue::Date(0),
        VariableType::Function => VariableValue::Integer(0),
        VariableType::Procedure => VariableValue::Integer(0),
        VariableType::Unknown => VariableValue::Integer(0),
    }
}

/// The view of the default value of each declared type.
pub open spec fn default_view(t: VariableType) -> ScalarView {
    match t {
        VariableType::Boolean => ScalarView::Bool(false),
        VariableType::Unsigned => ScalarView::Uns(0),
        VariableType::Date => ScalarView::DateV(0),
        VariableType::EDate => ScalarView::DateV(0),
        VariableType::Integer => ScalarView::Int(0),
        VariableType::Money => ScalarView::MoneyV(0),
        VariableType::Real => ScalarView::RealV(0),
        VariableType::Str => ScalarView::StrV(Seq::empty()),
        VariableType::Time => ScalarView::TimeV(0),
        VariableType::Byte => ScalarView::ByteV(0),
        VariableType::Word => ScalarView::WordV(0),
        VariableType::SByte => ScalarView::SByteV(0),
        VariableType::SWord => ScalarView::SWordV(0),
        VariableType::BigStr => ScalarView::StrV(Seq::empty()),
        VariableType::Double => ScalarView::RealV(0),
        VariableType::DDate => ScalarView::DateV(0),
        VariableType::Function => ScalarView::Int(0),
        VariableType::Procedure => ScalarView::Int(0),
        VariableType::Unknown => ScalarView::Int(0),
    }
}

/// The integer a scalar contributes when converting to a numeric declared
/// type: integer-coercible kinds give their integer, a string parses with
/// 32-bit saturation, Money and Real wrap their carried integer, and an
/// array gives zero.
pub open spec fn coerce_int(sv: ScalarView) -> int {
    match int_of(sv) {
        Some(i) => i,
        None => match sv {
            ScalarView::StrV(s) => clamp_i32(parsed_int(s)),
            ScalarView::MoneyV(m) => wrap_i32(m),
            ScalarView::RealV(r) => wrap_i32(r),
            _ => 0,
        },
    }
}

/// The scalar a value converts to when stored into a variable of declared
/// type `t` (the documented deterministic coercion table).
pub open spec fn convert_view(t: VariableType, sv: ScalarView) -> ScalarView {
    match t {
        VariableType::Integer => ScalarView::Int(coerce_int(sv)),
        VariableType::Byte => ScalarView::ByteV(coerce_int(sv) % 256),
        VariableType::Word => ScalarView::WordV(coerce_int(sv) % 0x1_0000),
        VariableType::SByte => ScalarView::SByteV(
            if coerce_int(sv) % 256 > 127 {
                coerce_int(sv) % 256 - 256
            } else {
                coerce_int(sv) % 256
            },
        ),
        VariableType::SWord => ScalarView::SWordV(
            if coerce_int(sv) % 0x1_0000 > 0x7FFF {
                coerce_int(sv) % 0x1_0000 - 0x1_0000
            } else {
                coerce_int(sv) % 0x1_0000
            },
        ),
        VariableType::Unsigned => ScalarView::Uns(coerce_int(sv) % 0x1_0000_0000),
        VariableType::Date => ScalarView::DateV(coerce_int(sv) % 0x1_0000),
        VariableType::EDate => ScalarView::DateV(coerce_int(sv) % 0x1_0000),
        VariableType::DDate => ScalarView::DateV(coerce_int(sv) % 0x1_0000),
        VariableType::Time => ScalarView::TimeV(coerce_int(sv)),
        VariableType::Boolean => match sv {
            ScalarView::Bool(b) => ScalarView::Bool(b),
            _ => ScalarView::Bool(coerce_int(sv) != 0),
        },
        VariableType::Money => match sv {
            ScalarView::MoneyV(m) => ScalarView::MoneyV(m),
            _ => ScalarView::MoneyV(coerce_int(sv)),
        },
        VariableType::Real => match sv {
            ScalarView::RealV(r) => ScalarView::RealV(r),
            _ => ScalarView::RealV(coerce_int(sv)),
        },
        VariableType::Double => match sv {
            ScalarView::RealV(r) => ScalarView::RealV(r),
            _ => ScalarView::RealV(coerce_int(sv)),
        },
        VariableType::Str => ScalarView::StrV(render_of(sv)),
        VariableType::BigStr => ScalarView::StrV(render_of(sv)),
        VariableType::Function => sv,
        VariableType::Procedure => sv,
        VariableType::Unknown => sv,
    }
}

/// Computes the integer that `coerce_int` specifies.
fn coerce_int_exec(v: &VariableValue) -> (r: i32)
    ensures
        r as int == coerce_int(scalar_view(*v)),
{
    match v {
        VariableValue::Str(s) => parse_int(s.as_str()),
        VariableValue::Money(m) => wrap32_exec(*m),
        VariableValue::Real(r) => wrap32_exec(*r),
        VariableValue::Dim1(_, _) => 0,
        VariableValue::Dim2(_, _) => 0,
        VariableValue::Dim3(_, _) => 0,
        _ => match get_int(v) {
            Ok(i) => i,
            Err(_) => {
                proof {
                    assert(false);
                }
                0
            },
        },
    }
}

/// Wraps an integer into the signed 32-bit range by two's complement.
pub fn wrap32_exec(v: i64) -> (r: i32)
    ensures
        r as int == wrap_i32(v as int),
{
    let m: u64 = if v >= 0 {
        (v as u64) % 0x1_0000_0000u64
    } else {
        let w: u64 = (-(v + 1)) as u64;
        proof {
            lemma_neg_mod(v as int, w as int);
        }
        0xFFFF_FFFFu64 - (w % 0x1_0000_0000u64)
    };
    if m > 0x7FFF_FFFFu64 {
        ((m as i64) - 0x1_0000_0000i64) as i32
    } else {
        m as i32
    }
}

proof fn lemma_neg_mod(v: int, w: int)
    requires
        v < 0,
        w == -v - 1,
    ensures
        v % 0x1_0000_0000 == 0xFFFF_FFFF - (w % 0x1_0000_0000),
{
    let b = 0x1_0000_0000int;
    let q = w / b;
    let r = w % b;
    vstd::arithmetic::div_mod::lemma_fundamental_div_mod(w, b);
    assert(w == q * b + r);
    assert(v == -w - 1);
    assert(v == (-(q + 1)) * b + (b - r - 1)) by (nonlinear_arith)
        requires
            w == q * b + r,
            v == -w - 1,
            b == 0x1_0000_0000,
    ;
    vstd::arithmetic::div_mod::lemma_fundamental_div_mod_converse(
        v,
        b,
        -(q + 1),
        b - r - 1,
    );
}

/// Converts a value to the declared type of its destination, following the
/// documented coercion table.
pub fn convert_to(t: VariableType, v: &VariableValue) -> (r: VariableValue)
    ensures
        scalar_view(r) == convert_view(t, scalar_view(*v)),
        !(convert_view(t, scalar_view(*v)) is ArrMark) ==> vv_view(r) == ValView::Scalar(
            convert_view(t, scalar_view(*v)),
        ),
{
    match t {
        VariableType::Integer => VariableValue::Integer(coerce_int_exec(v)),
        VariableType::Byte => {
            let i = coerce_int_exec(v);
            let m: i64 = euclid_mod_256(i);
            VariableValue::Byte(m as u8)
        },
        VariableType::Word => {
            let i = coerce_int_exec(v);
            let m: i64 = euclid_mod_65536(i);
            VariableValue::Word(m as u16)
        },
        VariableType::SByte => {
            let i = coerce_int_exec(v);
            let m: i64 = euclid_mod_256(i);
            if m > 127 {
                VariableValue::SByte((m - 256) as i8)
            } else {
                VariableValue::SByte(m as i8)
            }
        },
        VariableType::SWord => {
            let i = coerce_int_exec(v);
            let m: i64 = euclid_mod_65536(i);
            if m > 0x7FFF {
                VariableValue::SWord((m - 0x1_0000) as i16)
            } else {
                VariableValue::SWord(m as i16)
            }
        },
        VariableType::Unsigned => {
            let i = coerce_int_exec(v);
            if i < 0 {
                VariableValue::Unsigned(((i as i64) + 0x1_0000_0000i64) as u32)
            } else {
                VariableValue::Unsigned(i as u32)
            }
        },
        VariableType::Date => {
            let i = coerce_int_exec(v);
            VariableValue::Date(euclid_mod_65536(i) as u16)
        },
        VariableType::EDate => {
            let i = coerce_int_exec(v);
            VariableValue::Date(euclid_mod_65536(i) as u16)
        },
        VariableType::DDate => {
            let i = coerce_int_exec(v);
            VariableValue::Date(euclid_mod_65536(i) as u16)
        },
        VariableType::Time => VariableValue::Time(coerce_int_exec(v)),
        VariableType::Boolean => match v {
            VariableValue::Boolean(b) => VariableValue::Boolean(*b),
            _ => VariableValue::Boolean(coerce_int_exec(v) != 0),
        },
        VariableType::Money => match v {
            VariableValue::Money(m) => VariableValue::Money(*m),
            _ => VariableValue::Money(coerce_int_exec(v) as i64),
        },
        VariableType::Real => match v {
            VariableValue::Real(r) => VariableValue::Real(*r),
            _ => VariableValue::Real(coerce_int_exec(v) as i64),
        },
        VariableType::Double => match v {
            VariableValue::Real(r) => VariableValue::Real(*r),
            _ => VariableValue::Real(coerce_int_exec(v) as i64),
        },
        VariableType::Str => VariableValue::Str(get_string(v)),
        VariableType::BigStr => VariableValue::Str(get_string(v)),
        VariableType::Function => v.duplicate_scalar(),
        VariableType::Procedure => v.duplicate_scalar(),
        VariableType::Unknown => v.duplicate_scalar(),
    }
}

/// The nonnegative remainder of a 32-bit value modulo 256.
fn euclid_mod_256(i: i32) -> (r: i64)
    ensures
        r as int == (i as int) % 256,
{
    let v: i64 = i as i64;
    if v >= 0 {
        v % 256
    } else {
        let m = (-v) % 256;
        if m == 0 {
            0
        } else {
            256 - m
        }
    }
}

/// The nonnegative remainder of a 32-bit value modulo 65536.
fn euclid_mod_65536(i: i32) -> (r: i64)
    ensures
        r as int == (i as int) % 0x1_0000,
{
    let v: i64 = i as i64;
    if v >= 0 {
        v % 0x1_0000
    } else {
        let m = (-v) % 0x1_0000;
        if m == 0 {
            0
        } else {
            0x1_0000 - m
        }
    }
}

} // verus!
