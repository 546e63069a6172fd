use vstd::prelude::*;

use crate::value::{Value, ValueModel};

verus! {

/// The integer inside a generic value, if it holds one.
pub open spec fn numeric_of(v: ValueModel) -> Option<int> {
    match v {
        ValueModel::Int(x) => Some(x),
        ValueModel::UInt(x) => Some(x),
        _ => None,
    }
}

/// A fixed-width integer stored in a primitive column.
pub trait Primitive: Copy + Sized {
    spec fn spec_int(&self) -> int;

    spec fn spec_signed() -> bool;

    spec fn spec_min() -> int;

    spec fn spec_max() -> int;

    /// Store a generic integer, when it lies in the range of the type.
    fn from_value(v: &Value) -> (r: Option<Self>)
        ensures
            r is Some <==> numeric_of(v@) is Some && Self::spec_min() <= numeric_of(v@)->0
                <= Self::spec_max(),
            r matches Some(t) ==> t.spec_int() == numeric_of(v@)->0,
    ;

    fn to_value(self) -> (r: Value)
        ensures
            r@ == (if Self::spec_signed() {
                ValueModel::Int(self.spec_int())
            } else {
                ValueModel::UInt(self.spec_int())
            }),
    ;

    fn zero() -> (r: Self)
        ensures
            r.spec_int() == 0,
    ;
}

/// Whether a generic value is an integer in the range of `T`.
pub open spec fn fits<T: Primitive>(v: ValueModel) -> bool {
    match numeric_of(v) {
        Some(x) => T::spec_min() <= x <= T::spec_max(),
        None => false,
    }
}

/// The generic value that a stored integer reads back as: `Int` for signed
/// types, `UInt` for unsigned ones.
pub open spec fn primitive_model<T: Primitive>(t: T) -> ValueModel {
    if T::spec_signed() {
        ValueModel::Int(t.spec_int())
    } else {
        ValueModel::UInt(t.spec_int())
    }
}

impl Primitive for i8 {
    open spec fn spec_int(&self) -> int {
        *self as int
    }

    open spec fn spec_signed() -> bool {
        true
    }

    open spec fn spec_min() -> int {
        i8::MIN as int
    }

    open spec fn spec_max() -> int {
        i8::MAX as int
    }

    fn from_value(v: &Value) -> (r: Option<Self>) {
        match v {
            Value::Int(x) => {
                if *x >= i8::MIN as i64 && *x <= i8::MAX as i64 {
                    Some(*x as i8)
                } else {
                    None
                }
            },
            Value::UInt(x) => {
                if *x <= i8::MAX as u64 {
                    Some(*x as i8)
                } else {
                    None
                }
            },
            _ => None,
        }
    }

    fn to_value(self) -> (r: Value) {
        Value::Int(self as i64)
    }

    fn zero() -> (r: Self) {
        0i8
    }
}

impl Primitive for i16 {
    open spec fn spec_int(&self) -> int {
        *self as int
    }

    open spec fn spec_signed() -> bool {
        true
    }

    open spec fn spec_min() -> int {
        i16::MIN as int
    }

    open spec fn spec_max() -> int {
        i16::MAX as int
    }

    fn from_value(v: &Value) -> (r: Option<Self>) {
        match v {
            Value::Int(x) => {
                if *x >= i16::MIN as i64 && *x <= i16::MAX as i64 {
                    Some(*x as i16)
                } else {
                    None
                }
            },
            Value::UInt(x) => {
                if *x <= i16::MAX as u64 {
                    Some(*x as i16)
                } else {
                    None
                }
            },
            _ => None,
        }
    }

    fn to_value(self) -> (r: Value) {
        Value::Int(self as i64)
    }

    fn zero() -> (r: Self) {
        0i16
    }
}

impl Primitive for i32 {
    open spec fn spec_int(&self) -> int {
        *self as int
    }

    open spec fn spec_signed() -> bool {
        true
    }

    open spec fn spec_min() -> int {
        i32::MIN as int
    }

    open spec fn spec_max() -> int {
        i32::MAX as int
    }

    fn from_value(v: &Value) -> (r: Option<Self>) {
        match v {
            Value::Int(x) => {
                if *x >= i32::MIN as i64 && *x <= i32::MAX as i64 {
                    Some(*x as i32)
                } else {
                    None
                }
            },
            Value::UInt(x) => {
                if *x <= i32::MAX as u64 {
                    Some(*x as i32)
                } else {
                    None
                }
            },
            _ => None,
        }
    }

    fn to_value(self) -> (r: Value) {
        Value::Int(self as i64)
    }

    fn zero() -> (r: Self) {
        0i32
    }
}

impl Primitive for i64 {
    open spec fn spec_int(&self) -> int {
        *self as int
    }

    open spec fn spec_signed() -> bool {
        true
    }

    open spec fn spec_min() -> int {
        i64::MIN as int
    }

    open spec fn spec_max() -> int {
        i64::MAX as int
    }

    fn from_value(v: &Value) -> (r: Option<Self>) {
        match v {
            Value::Int(x) => {
                Some(*x)
            },
            Value::UInt(x) => {
                if *x <= i64::MAX as u64 {
                    Some(*x as i64)
                } else {
                    None
                }
            },
            _ => None,
        }
    }

    fn to_value(self) -> (r: Value) {
        Value::Int(self as i64)
    }

    fn zero() -> (r: Self) {
        0i64
    }
}

impl Primitive for u8 {
    open spec fn spec_int(&self) -> int {
        *self as int
    }

    open spec fn spec_signed() -> bool {
        false
    }

    open spec fn spec_min() -> int {
        u8::MIN as int
    }

    open spec fn spec_max() -> int {
        u8::MAX as int
    }

    fn from_value(v: &Value) -> (r: Option<Self>) {
        match v {
            Value::Int(x) => {
                if *x >= 0 && *x <= u8::MAX as i64 {
                    Some(*x as u8)
                } else {
                    None
                }
            },
            Value::UInt(x) => {
                if *x <= u8::MAX as u64 {
                    Some(*x as u8)
                } else {
                    None
                }
            },
            _ => None,
        }
    }

    fn to_value(self) -> (r: Value) {
        Value::UInt(self as u64)
    }

    fn zero() -> (r: Self) {
        0u8
    }
}

impl Primitive for u16 {
    open spec fn spec_int(&self) -> int {
        *self as int
    }

    open spec fn spec_signed() -> bool {
        false
    }

    open spec fn spec_min() -> int {
        u16::MIN as int
    }

    open spec fn spec_max() -> int {
        u16::MAX as int
    }

    fn from_value(v: &Value) -> (r: Option<Self>) {
        match v {
            Value::Int(x) => {
                if *x >= 0 && *x <= u16::MAX as i64 {
                    Some(*x as u16)
                } else {
                    None
                }
            },
            Value::UInt(x) => {
                if *x <= u16::MAX as u64 {
                    Some(*x as u16)
                } else {
                    None
                }
            },
            _ => None,
        }
    }

    fn to_value(self) -> (r: Value) {
        Value::UInt(self as u64)
    }

    fn zero() -> (r: Self) {
        0u16
    }
}

impl Primitive for u32 {
    open spec fn spec_int(&self) -> int {
        *self as int
    }

    open spec fn spec_signed() -> bool {
        false
    }

    open spec fn spec_min() -> int {
        u32::MIN as int
    }

    open spec fn spec_max() -> int {
        u32::MAX as int
    }

    fn from_value(v: &Value) -> (r: Option<Self>) {
        match v {
            Value::Int(x) => {
                if *x >= 0 && *x <= u32::MAX as i64 {
                    Some(*x as u32)
                } else {
                    None
                }
            },
            Value::UInt(x) => {
                if *x <= u32::MAX as u64 {
                    Some(*x as u32)
                } else {
                    None
                }
            },
            _ => None,
        }
    }

    fn to_value(self) -> (r: Value) {
        Value::UInt(self as u64)
    }

    fn zero() -> (r: Self) {
        0u32
    }
}

impl Primitive for u64 {
    open spec fn spec_int(&self) -> int {
        *self as int
    }

    open spec fn spec_signed() -> bool {
        false
    }

    open spec fn spec_min() -> int {
        u64::MIN as int
    }

    open spec fn spec_max() -> int {
        u64::MAX as int
    }

    fn from_value(v: &Value) -> (r: Option<Self>) {
        match v {
            Value::Int(x) => {
                if *x >= 0 {
                    Some(*x as u64)
                } else {
                    None
                }
            },
            Value::UInt(x) => {
                Some(*x)
            },
            _ => None,
        }
    }

    fn to_value(self) -> (r: Value) {
        Value::UInt(self as u64)
    }

    fn zero() -> (r: Self) {
        0u64
    }
}

} // verus!
