use crate::datatypes::{AnyType, DataType};
use vstd::prelude::*;

verus! {

/// A type that names the kind of scalar it stands for.
pub trait DType {
    spec fn kind_of() -> DataType;

    fn dtype() -> (r: DataType) where Self: Sized
        ensures
            r == Self::kind_of(),
    ;
}

/// Marker for the `Boolean` kind.
#[derive(Clone, Copy, Debug)]
pub struct Boolean {}

impl DType for Boolean {
    open spec fn kind_of() -> DataType {
        DataType::Boolean
    }

    fn dtype() -> (r: DataType) {
        DataType::Boolean
    }
}

impl From<bool> for AnyType {
    fn from(value: bool) -> (r: AnyType) {
        AnyType::Boolean(value)
    }
}

impl vstd::std_specs::convert::FromSpecImpl<bool> for AnyType {
    open spec fn obeys_from_spec() -> bool {
        true
    }

    open spec fn from_spec(value: bool) -> AnyType {
        AnyType::Boolean(value)
    }
}

impl From<Option<bool>> for AnyType {
    fn from(value: Option<bool>) -> (r: AnyType) {
        match value {
            Some(v) => AnyType::Boolean(v),
            None => AnyType::Null,
        }
    }
}

impl vstd::std_specs::convert::FromSpecImpl<Option<bool>> for AnyType {
    open spec fn obeys_from_spec() -> bool {
        true
    }

    open spec fn from_spec(value: Option<bool>) -> AnyType {
        match value {
            Some(v) => AnyType::Boolean(v),
            None => AnyType::Null,
        }
    }
}

/// Marker for the `Utf8` kind.
#[derive(Clone, Copy, Debug)]
pub struct Utf8 {}

impl DType for Utf8 {
    open spec fn kind_of() -> DataType {
        DataType::Utf8
    }

    fn dtype() -> (r: DataType) {
        DataType::Utf8
    }
}

impl From<&'static str> for AnyType {
    fn from(value: &'static str) -> (r: AnyType) {
        AnyType::Utf8(value)
    }
}

impl vstd::std_specs::convert::FromSpecImpl<&'static str> for AnyType {
    open spec fn obeys_from_spec() -> bool {
        true
    }

    open spec fn from_spec(value: &'static str) -> AnyType {
        AnyType::Utf8(value)
    }
}

impl From<Option<&'static str>> for AnyType {
    fn from(value: Option<&'static str>) -> (r: AnyType) {
        match value {
            Some(v) => AnyType::Utf8(v),
            None => AnyType::Null,
        }
    }
}

impl vstd::std_specs::convert::FromSpecImpl<Option<&'static str>> for AnyType {
    open spec fn obeys_from_spec() -> bool {
        true
    }

    open spec fn from_spec(value: Option<&'static str>) -> AnyType {
        match value {
            Some(v) => AnyType::Utf8(v),
            None => AnyType::Null,
        }
    }
}

impl From<AnyType> for Option<&'static str> {
    fn from(value: AnyType) -> (r: Option<&'static str>) {
        match value {
            AnyType::Utf8(v) => Some(v),
            _ => None,
        }
    }
}

impl vstd::std_specs::convert::FromSpecImpl<AnyType> for Option<&'static str> {
    open spec fn obeys_from_spec() -> bool {
        true
    }

    open spec fn from_spec(value: AnyType) -> Option<&'static str> {
        match value {
            AnyType::Utf8(v) => Some(v),
            _ => None,
        }
    }
}

/// Marker for the `UInt8` kind.
#[derive(Clone, Copy, Debug)]
pub struct UInt8 {}

impl DType for UInt8 {
    open spec fn kind_of() -> DataType {
        DataType::UInt8
    }

    fn dtype() -> (r: DataType) {
        DataType::UInt8
    }
}

impl From<u8> for AnyType {
    fn from(value: u8) -> (r: AnyType) {
        AnyType::UInt8(value)
    }
}

impl vstd::std_specs::convert::FromSpecImpl<u8> for AnyType {
    open spec fn obeys_from_spec() -> bool {
        true
    }

    open spec fn from_spec(value: u8) -> AnyType {
        AnyType::UInt8(value)
    }
}

impl From<Option<u8>> for AnyType {
    fn from(value: Option<u8>) -> (r: AnyType) {
        match value {
            Some(v) => AnyType::UInt8(v),
            None => AnyType::Null,
        }
    }
}

impl vstd::std_specs::convert::FromSpecImpl<Option<u8>> for AnyType {
    open spec fn obeys_from_spec() -> bool {
        true
    }

    open spec fn from_spec(value: Option<u8>) -> AnyType {
        match value {
            Some(v) => AnyType::UInt8(v),
            None => AnyType::Null,
        }
    }
}

impl From<AnyType> for Option<u8> {
    fn from(value: AnyType) -> (r: Option<u8>) {
        match value {
            AnyType::UInt8(v) => Some(v),
            _ => None,
        }
    }
}

impl vstd::std_specs::convert::FromSpecImpl<AnyType> for Option<u8> {
    open spec fn obeys_from_spec() -> bool {
        true
    }

    open spec fn from_spec(value: AnyType) -> Option<u8> {
        match value {
            AnyType::UInt8(v) => Some(v),
            _ => None,
        }
    }
}

/// Marker for the `UInt16` kind.
#[derive(Clone, Copy, Debug)]
pub struct UInt16 {}

impl DType for UInt16 {
    open spec fn kind_of() -> DataType {
        DataType::UInt16
    }

    fn dtype() -> (r: DataType) {
        DataType::UInt16
    }
}

impl From<u16> for AnyType {
    fn from(value: u16) -> (r: AnyType) {
        AnyType::UInt16(value)
    }
}

impl vstd::std_specs::convert::FromSpecImpl<u16> for AnyType {
    open spec fn obeys_from_spec() -> bool {
        true
    }

    open spec fn from_spec(value: u16) -> AnyType {
        AnyType::UInt16(value)
    }
}

impl From<Option<u16>> for AnyType {
    fn from(value: Option<u16>) -> (r: AnyType) {
        match value {
            Some(v) => AnyType::UInt16(v),
            None => AnyType::Null,
        }
    }
}

impl vstd::std_specs::convert::FromSpecImpl<Option<u16>> for AnyType {
    open spec fn obeys_from_spec() -> bool {
        true
    }

    open spec fn from_spec(value: Option<u16>) -> AnyType {
        match value {
            Some(v) => AnyType::UInt16(v),
            None => AnyType::Null,
        }
    }
}

impl From<AnyType> for Option<u16> {
    fn from(value: AnyType) -> (r: Option<u16>) {
        match value {
            AnyType::UInt16(v) => Some(v),
            _ => None,
        }
    }
}

impl vstd::std_specs::convert::FromSpecImpl<AnyType> for Option<u16> {
    open spec fn obeys_from_spec() -> bool {
        true
    }

    open spec fn from_spec(value: AnyType) -> Option<u16> {
        match value {
            AnyType::UInt16(v) => Some(v),
            _ => None,
        }
    }
}

/// Marker for the `UInt32` kind.
#[derive(Clone, Copy, Debug)]
pub struct UInt32 {}

impl DType for UInt32 {
    open spec fn kind_of() -> DataType {
        DataType::UInt32
    }

    fn dtype() -> (r: DataType) {
        DataType::UInt32
    }
}

impl From<u32> for AnyType {
    fn from(value: u32) -> (r: AnyType) {
        AnyType::UInt32(value)
    }
}

impl vstd::std_specs::convert::FromSpecImpl<u32> for AnyType {
    open spec fn obeys_from_spec() -> bool {
        true
    }

    open spec fn from_spec(value: u32) -> AnyType {
        AnyType::UInt32(value)
    }
}

impl From<Option<u32>> for AnyType {
    fn from(value: Option<u32>) -> (r: AnyType) {
        match value {
            Some(v) => AnyType::UInt32(v),
            None => AnyType::Null,
        }
    }
}

impl vstd::std_specs::convert::FromSpecImpl<Option<u32>> for AnyType {
    open spec fn obeys_from_spec() -> bool {
        true
    }

    open spec fn from_spec(value: Option<u32>) -> AnyType {
        match value {
            Some(v) => AnyType::UInt32(v),
            None => AnyType::Null,
        }
    }
}

impl From<AnyType> for Option<u32> {
    fn from(value: AnyType) -> (r: Option<u32>) {
        match value {
            AnyType::UInt32(v) => Some(v),
            _ => None,
        }
    }
}

impl vstd::std_specs::convert::FromSpecImpl<AnyType> for Option<u32> {
    open spec fn obeys_from_spec() -> bool {
        true
    }

    open spec fn from_spec(value: AnyType) -> Option<u32> {
        match value {
            AnyType::UInt32(v) => Some(v),
            _ => None,
        }
    }
}

/// Marker for the `UInt64` kind.
#[derive(Clone, Copy, Debug)]
pub struct UInt64 {}

impl DType for UInt64 {
    open spec fn kind_of() -> DataType {
        DataType::UInt64
    }

    fn dtype() -> (r: DataType) {
        DataType::UInt64
    }
}

impl From<u64> for AnyType {
    fn from(value: u64) -> (r: AnyType) {
        AnyType::UInt64(value)
    }
}

impl vstd::std_specs::convert::FromSpecImpl<u64> for AnyType {
    open spec fn obeys_from_spec() -> bool {
        true
    }

    open spec fn from_spec(value: u64) -> AnyType {
        AnyType::UInt64(value)
    }
}

impl From<Option<u64>> for AnyType {
    fn from(value: Option<u64>) -> (r: AnyType) {
        match value {
            Some(v) => AnyType::UInt64(v),
            None => AnyType::Null,
        }
    }
}

impl vstd::std_specs::convert::FromSpecImpl<Option<u64>> for AnyType {
    open spec fn obeys_from_spec() -> bool {
        true
    }

    open spec fn from_spec(value: Option<u64>) -> AnyType {
        match value {
            Some(v) => AnyType::UInt64(v),
            None => AnyType::Null,
        }
    }
}

impl From<AnyType> for Option<u64> {
    fn from(value: AnyType) -> (r: Option<u64>) {
        match value {
            AnyType::UInt64(v) => Some(v),
            _ => None,
        }
    }
}

impl vstd::std_specs::convert::FromSpecImpl<AnyType> for Option<u64> {
    open spec fn obeys_from_spec() -> bool {
        true
    }

    open spec fn from_spec(value: AnyType) -> Option<u64> {
        match value {
            AnyType::UInt64(v) => Some(v),
            _ => None,
        }
    }
}

/// Marker for the `USize` kind.
#[derive(Clone, Copy, Debug)]
pub struct USize {}

impl DType for USize {
    open spec fn kind_of() -> DataType {
        DataType::USize
    }

    fn dtype() -> (r: DataType) {
        DataType::USize
    }
}

impl From<usize> for AnyType {
    fn from(value: usize) -> (r: AnyType) {
        AnyType::USize(value)
    }
}

impl vstd::std_specs::convert::FromSpecImpl<usize> for AnyType {
    open spec fn obeys_from_spec() -> bool {
        true
    }

    open spec fn from_spec(value: usize) -> AnyType {
        AnyType::USize(value)
    }
}

impl From<Option<usize>> for AnyType {
    fn from(value: Option<usize>) -> (r: AnyType) {
        match value {
            Some(v) => AnyType::USize(v),
            None => AnyType::Null,
        }
    }
}

impl vstd::std_specs::convert::FromSpecImpl<Option<usize>> for AnyType {
    open spec fn obeys_from_spec() -> bool {
        true
    }

    open spec fn from_spec(value: Option<usize>) -> AnyType {
        match value {
            Some(v) => AnyType::USize(v),
            None => AnyType::Null,
        }
    }
}

impl From<AnyType> for Option<usize> {
    fn from(value: AnyType) -> (r: Option<usize>) {
        match value {
            AnyType::USize(v) => Some(v),
            _ => None,
        }
    }
}

impl vstd::std_specs::convert::FromSpecImpl<AnyType> for Option<usize> {
    open spec fn obeys_from_spec() -> bool {
        true
    }

    open spec fn from_spec(value: AnyType) -> Option<usize> {
        match value {
            AnyType::USize(v) => Some(v),
            _ => None,
        }
    }
}

/// Marker for the `Int8` kind.
#[derive(Clone, Copy, Debug)]
pub struct Int8 {}

impl DType for Int8 {
    open spec fn kind_of() -> DataType {
        DataType::Int8
    }

    fn dtype() -> (r: DataType) {
        DataType::Int8
    }
}

impl From<i8> for AnyType {
    fn from(value: i8) -> (r: AnyType) {
        AnyType::Int8(value)
    }
}

impl vstd::std_specs::convert::FromSpecImpl<i8> for AnyType {
    open spec fn obeys_from_spec() -> bool {
        true
    }

    open spec fn from_spec(value: i8) -> AnyType {
        AnyType::Int8(value)
    }
}

impl From<Option<i8>> for AnyType {
    fn from(value: Option<i8>) -> (r: AnyType) {
        match value {
            Some(v) => AnyType::Int8(v),
            None => AnyType::Null,
        }
    }
}

impl vstd::std_specs::convert::FromSpecImpl<Option<i8>> for AnyType {
    open spec fn obeys_from_spec() -> bool {
        true
    }

    open spec fn from_spec(value: Option<i8>) -> AnyType {
        match value {
            Some(v) => AnyType::Int8(v),
            None => AnyType::Null,
        }
    }
}

impl From<AnyType> for Option<i8> {
    fn from(value: AnyType) -> (r: Option<i8>) {
        match value {
            AnyType::Int8(v) => Some(v),
            _ => None,
        }
    }
}

impl vstd::std_specs::convert::FromSpecImpl<AnyType> for Option<i8> {
    open spec fn obeys_from_spec() -> bool {
        true
    }

    open spec fn from_spec(value: AnyType) -> Option<i8> {
        match value {
            AnyType::Int8(v) => Some(v),
            _ => None,
        }
    }
}

/// Marker for the `Int16` kind.
#[derive(Clone, Copy, Debug)]
pub struct Int16 {}

impl DType for Int16 {
    open spec fn kind_of() -> DataType {
        DataType::Int16
    }

    fn dtype() -> (r: DataType) {
        DataType::Int16
    }
}

impl From<i16> for AnyType {
    fn from(value: i16) -> (r: AnyType) {
        AnyType::Int16(value)
    }
}

impl vstd::std_specs::convert::FromSpecImpl<i16> for AnyType {
    open spec fn obeys_from_spec() -> bool {
        true
    }

    open spec fn from_spec(value: i16) -> AnyType {
        AnyType::Int16(value)
    }
}

impl From<Option<i16>> for AnyType {
    fn from(value: Option<i16>) -> (r: AnyType) {
        match value {
            Some(v) => AnyType::Int16(v),
            None => AnyType::Null,
        }
    }
}

impl vstd::std_specs::convert::FromSpecImpl<Option<i16>> for AnyType {
    open spec fn obeys_from_spec() -> bool {
        true
    }

    open spec fn from_spec(value: Option<i16>) -> AnyType {
        match value {
            Some(v) => AnyType::Int16(v),
            None => AnyType::Null,
        }
    }
}

impl From<AnyType> for Option<i16> {
    fn from(value: AnyType) -> (r: Option<i16>) {
        match value {
            AnyType::Int16(v) => Some(v),
            _ => None,
        }
    }
}

impl vstd::std_specs::convert::FromSpecImpl<AnyType> for Option<i16> {
    open spec fn obeys_from_spec() -> bool {
        true
    }

    open spec fn from_spec(value: AnyType) -> Option<i16> {
        match value {
            AnyType::Int16(v) => Some(v),
            _ => None,
        }
    }
}

/// Marker for the `Int32` kind.
#[derive(Clone, Copy, Debug)]
pub struct Int32 {}

impl DType for Int32 {
    open spec fn kind_of() -> DataType {
        DataType::Int32
    }

    fn dtype() -> (r: DataType) {
        DataType::Int32
    }
}

impl From<i32> for AnyType {
    fn from(value: i32) -> (r: AnyType) {
        AnyType::Int32(value)
    }
}

impl vstd::std_specs::convert::FromSpecImpl<i32> for AnyType {
    open spec fn obeys_from_spec() -> bool {
        true
    }

    open spec fn from_spec(value: i32) -> AnyType {
        AnyType::Int32(value)
    }
}

impl From<Option<i32>> for AnyType {
    fn from(value: Option<i32>) -> (r: AnyType) {
        match value {
            Some(v) => AnyType::Int32(v),
            None => AnyType::Null,
        }
    }
}

impl vstd::std_specs::convert::FromSpecImpl<Option<i32>> for AnyType {
    open spec fn obeys_from_spec() -> bool {
        true
    }

    open spec fn from_spec(value: Option<i32>) -> AnyType {
        match value {
            Some(v) => AnyType::Int32(v),
            None => AnyType::Null,
        }
    }
}

impl From<AnyType> for Option<i32> {
    fn from(value: AnyType) -> (r: Option<i32>) {
        match value {
            AnyType::Int32(v) => Some(v),
            _ => None,
        }
    }
}

impl vstd::std_specs::convert::FromSpecImpl<AnyType> for Option<i32> {
    open spec fn obeys_from_spec() -> bool {
        true
    }

    open spec fn from_spec(value: AnyType) -> Option<i32> {
        match value {
            AnyType::Int32(v) => Some(v),
            _ => None,
        }
    }
}

/// Marker for the `Int64` kind.
#[derive(Clone, Copy, Debug)]
pub struct Int64 {}

impl DType for Int64 {
    open spec fn kind_of() -> DataType {
        DataType::Int64
    }

    fn dtype() -> (r: DataType) {
        DataType::Int64
    }
}

impl From<i64> for AnyType {
    fn from(value: i64) -> (r: AnyType) {
        AnyType::Int64(value)
    }
}

impl vstd::std_specs::convert::FromSpecImpl<i64> for AnyType {
    open spec fn obeys_from_spec() -> bool {
        true
    }

    open spec fn from_spec(value: i64) -> AnyType {
        AnyType::Int64(value)
    }
}

impl From<Option<i64>> for AnyType {
    fn from(value: Option<i64>) -> (r: AnyType) {
        match value {
            Some(v) => AnyType::Int64(v),
            None => AnyType::Null,
        }
    }
}

impl vstd::std_specs::convert::FromSpecImpl<Option<i64>> for AnyType {
    open spec fn obeys_from_spec() -> bool {
        true
    }

    open spec fn from_spec(value: Option<i64>) -> AnyType {
        match value {
            Some(v) => AnyType::Int64(v),
            None => AnyType::Null,
        }
    }
}

impl From<AnyType> for Option<i64> {
    fn from(value: AnyType) -> (r: Option<i64>) {
        match value {
            AnyType::Int64(v) => Some(v),
            _ => None,
        }
    }
}

impl vstd::std_specs::convert::FromSpecImpl<AnyType> for Option<i64> {
    open spec fn obeys_from_spec() -> bool {
        true
    }

    open spec fn from_spec(value: AnyType) -> Option<i64> {
        match value {
            AnyType::Int64(v) => Some(v),
            _ => None,
        }
    }
}

/// Marker for the `ISize` kind.
#[derive(Clone, Copy, Debug)]
pub struct ISize {}

impl DType for ISize {
    open spec fn kind_of() -> DataType {
        DataType::ISize
    }

    fn dtype() -> (r: DataType) {
        DataType::ISize
    }
}

impl From<isize> for AnyType {
    fn from(value: isize) -> (r: AnyType) {
        AnyType::ISize(value)
    }
}

impl vstd::std_specs::convert::FromSpecImpl<isize> for AnyType {
    open spec fn obeys_from_spec() -> bool {
        true
    }

    open spec fn from_spec(value: isize) -> AnyType {
        AnyType::ISize(value)
    }
}

impl From<Option<isize>> for AnyType {
    fn from(value: Option<isize>) -> (r: AnyType) {
        match value {
            Some(v) => AnyType::ISize(v),
            None => AnyType::Null,
        }
    }
}

impl vstd::std_specs::convert::FromSpecImpl<Option<isize>> for AnyType {
    open spec fn obeys_from_spec() -> bool {
        true
    }

    open spec fn from_spec(value: Option<isize>) -> AnyType {
        match value {
            Some(v) => AnyType::ISize(v),
            None => AnyType::Null,
        }
    }
}

impl From<AnyType> for Option<isize> {
    fn from(value: AnyType) -> (r: Option<isize>) {
        match value {
            AnyType::ISize(v) => Some(v),
            _ => None,
        }
    }
}

impl vstd::std_specs::convert::FromSpecImpl<AnyType> for Option<isize> {
    open spec fn obeys_from_spec() -> bool {
        true
    }

    open spec fn from_spec(value: AnyType) -> Option<isize> {
        match value {
            AnyType::ISize(v) => Some(v),
            _ => None,
        }
    }
}

/// Marker for the `Float32` kind.
#[derive(Clone, Copy, Debug)]
pub struct Float32 {}

impl DType for Float32 {
    open spec fn kind_of() -> DataType {
        DataType::Float32
    }

    fn dtype() -> (r: DataType) {
        DataType::Float32
    }
}

/// Marker for the `Float64` kind.
#[derive(Clone, Copy, Debug)]
pub struct Float64 {}

impl DType for Float64 {
    open spec fn kind_of() -> DataType {
        DataType::Float64
    }

    fn dtype() -> (r: DataType) {
        DataType::Float64
    }
}

} // verus!
