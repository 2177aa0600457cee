use vstd::prelude::*;
use vstd::string::StringExecFns;

verus! {

/// The kind of a scalar value.
#[derive(Clone, Copy, Debug, PartialEq, Eq, Structural)]
pub enum DataType {
    Null,
    Boolean,
    Utf8,
    UInt8,
    UInt16,
    UInt32,
    UInt64,
    USize,
    Int8,
    Int16,
    Int32,
    Int64,
    ISize,
    Float32,
    Float64,
}

/// A scalar held by one cell: null, a boolean, a text or an integer of some width.
///
/// Arithmetic between scalars never fails: kinds that do not combine, a result that the
/// result's kind cannot hold, and division by zero all give `Null`.
#[derive(Clone, Copy, Debug, Hash)]
pub enum AnyType {
    Null,
    Boolean(bool),
    Utf8(&'static str),
    UInt8(u8),
    UInt16(u16),
    UInt32(u32),
    UInt64(u64),
    USize(usize),
    Int8(i8),
    Int16(i16),
    Int32(i32),
    Int64(i64),
    ISize(isize),
}

pub open spec fn is_unsigned_kind(k: DataType) -> bool {
    k == DataType::UInt8 || k == DataType::UInt16 || k == DataType::UInt32 || k == DataType::UInt64
        || k == DataType::USize
}

pub open spec fn is_signed_kind(k: DataType) -> bool {
    k == DataType::Int8 || k == DataType::Int16 || k == DataType::Int32 || k == DataType::Int64
        || k == DataType::ISize
}

pub open spec fn is_integer_kind(k: DataType) -> bool {
    is_unsigned_kind(k) || is_signed_kind(k)
}

/// Whether `x` can be held by an integer of kind `k`.
pub open spec fn fits_kind(k: DataType, x: int) -> bool {
    match k {
        DataType::UInt8 => 0 <= x <= u8::MAX,
        DataType::UInt16 => 0 <= x <= u16::MAX,
        DataType::UInt32 => 0 <= x <= u32::MAX,
        DataType::UInt64 => 0 <= x <= u64::MAX,
        DataType::USize => 0 <= x <= usize::MAX,
        DataType::Int8 => i8::MIN <= x <= i8::MAX,
        DataType::Int16 => i16::MIN <= x <= i16::MAX,
        DataType::Int32 => i32::MIN <= x <= i32::MAX,
        DataType::Int64 => i64::MIN <= x <= i64::MAX,
        DataType::ISize => isize::MIN <= x <= isize::MAX,
        _ => false,
    }
}

/// The scalar of integer kind `k` whose value is `x` (meaningful where `fits_kind(k, x)`).
pub open spec fn scalar_of_kind(k: DataType, x: int) -> AnyType {
    match k {
        DataType::UInt8 => AnyType::UInt8(x as u8),
        DataType::UInt16 => AnyType::UInt16(x as u16),
        DataType::UInt32 => AnyType::UInt32(x as u32),
        DataType::UInt64 => AnyType::UInt64(x as u64),
        DataType::USize => AnyType::USize(x as usize),
        DataType::Int8 => AnyType::Int8(x as i8),
        DataType::Int16 => AnyType::Int16(x as i16),
        DataType::Int32 => AnyType::Int32(x as i32),
        DataType::Int64 => AnyType::Int64(x as i64),
        DataType::ISize => AnyType::ISize(x as isize),
        _ => AnyType::Null,
    }
}

/// The checked result of integer arithmetic: the value where kind `k` holds it, else null.
pub open spec fn checked_scalar(k: DataType, x: int) -> AnyType {
    if fits_kind(k, x) {
        scalar_of_kind(k, x)
    } else {
        AnyType::Null
    }
}

/// Division that rounds toward zero, as Rust's integer `/` does.
pub open spec fn trunc_div(a: int, b: int) -> int {
    if a >= 0 {
        a / b
    } else {
        -((-a) / b)
    }
}

impl AnyType {
    pub open spec fn kind(self) -> DataType {
        match self {
            AnyType::Null => DataType::Null,
            AnyType::Boolean(_) => DataType::Boolean,
            AnyType::Utf8(_) => DataType::Utf8,
            AnyType::UInt8(_) => DataType::UInt8,
            AnyType::UInt16(_) => DataType::UInt16,
            AnyType::UInt32(_) => DataType::UInt32,
            AnyType::UInt64(_) => DataType::UInt64,
            AnyType::USize(_) => DataType::USize,
            AnyType::Int8(_) => DataType::Int8,
            AnyType::Int16(_) => DataType::Int16,
            AnyType::Int32(_) => DataType::Int32,
            AnyType::Int64(_) => DataType::Int64,
            AnyType::ISize(_) => DataType::ISize,
        }
    }

    pub open spec fn is_integer(self) -> bool {
        is_integer_kind(self.kind())
    }

    /// The mathematical value of an integer scalar (0 for the other kinds).
    pub open spec fn int_value(self) -> int {
        match self {
            AnyType::UInt8(v) => v as int,
            AnyType::UInt16(v) => v as int,
            AnyType::UInt32(v) => v as int,
            AnyType::UInt64(v) => v as int,
            AnyType::USize(v) => v as int,
            AnyType::Int8(v) => v as int,
            AnyType::Int16(v) => v as int,
            AnyType::Int32(v) => v as int,
            AnyType::Int64(v) => v as int,
            AnyType::ISize(v) => v as int,
            _ => 0,
        }
    }

    /// Equality of scalars: same kind and same content.
    pub open spec fn same_as(self, other: AnyType) -> bool {
        match (self, other) {
            (AnyType::Null, AnyType::Null) => true,
            (AnyType::Boolean(a), AnyType::Boolean(b)) => a == b,
            (AnyType::Utf8(a), AnyType::Utf8(b)) => a@ == b@,
            _ => self.is_integer() && self.kind() == other.kind() && self.int_value()
                == other.int_value(),
        }
    }

    /// `self + rhs`: same integer kinds add, a null left side gives way to an integer right
    /// side, and anything else (or a sum out of range) is null.
    pub open spec fn plus(self, rhs: AnyType) -> AnyType {
        if self.is_integer() && self.kind() == rhs.kind() {
            checked_scalar(self.kind(), self.int_value() + rhs.int_value())
        } else if self is Null && rhs.is_integer() {
            rhs
        } else {
            AnyType::Null
        }
    }

    /// `self - rhs`: the difference of two integers of one kind, as an `isize`; else null.
    pub open spec fn minus(self, rhs: AnyType) -> AnyType {
        if self.is_integer() && self.kind() == rhs.kind() {
            checked_scalar(DataType::ISize, self.int_value() - rhs.int_value())
        } else {
            AnyType::Null
        }
    }

    /// `self * rhs`: unsigned products are `usize`, signed ones `isize`; a fixed-width
    /// left side may meet a `usize` right side, and a signed one an `isize`.
    pub open spec fn times(self, rhs: AnyType) -> AnyType {
        let p = self.int_value() * rhs.int_value();
        if self.is_integer() && self.kind() == rhs.kind() {
            if is_unsigned_kind(self.kind()) {
                checked_scalar(DataType::USize, p)
            } else {
                checked_scalar(DataType::ISize, p)
            }
        } else if is_unsigned_kind(self.kind()) && rhs is USize {
            checked_scalar(DataType::USize, p)
        } else if is_signed_kind(self.kind()) && ((rhs is USize && self.kind() != DataType::ISize)
            || rhs is ISize) {
            checked_scalar(DataType::ISize, p)
        } else {
            AnyType::Null
        }
    }

    /// Whether `self / rhs` is defined for the kinds alone: one kind, or a fixed-width
    /// left side over a `usize` count (or, when signed, an `isize`).
    pub open spec fn div_kinds(self, rhs: AnyType) -> bool {
        (self.is_integer() && self.kind() == rhs.kind()) || (is_integer_kind(self.kind())
            && self.kind() != DataType::USize && self.kind() != DataType::ISize && (rhs is USize
            || (is_signed_kind(self.kind()) && rhs is ISize)))
    }

    /// `self / rhs`: division toward zero, in the left side's kind; null by zero, on
    /// overflow, or for other kinds.
    pub open spec fn over(self, rhs: AnyType) -> AnyType {
        if self.div_kinds(rhs) && rhs.int_value() != 0 {
            checked_scalar(self.kind(), trunc_div(self.int_value(), rhs.int_value()))
        } else {
            AnyType::Null
        }
    }
}


/// Scalar equality is an equivalence.
pub proof fn lemma_same_as_equivalence(a: AnyType, b: AnyType, c: AnyType)
    ensures
        a.same_as(a),
        a.same_as(b) ==> b.same_as(a),
        a.same_as(b) && b.same_as(c) ==> a.same_as(c),
{
}

/// The integer of kind `k` that holds `x`, or null where it does not fit.
pub fn checked_scalar_exec(k: DataType, x: i128) -> (r: AnyType)
    requires
        is_integer_kind(k),
    ensures
        r == checked_scalar(k, x as int),
{
    match k {
        DataType::UInt8 => if 0 <= x && x <= u8::MAX as i128 { AnyType::UInt8(x as u8) } else { AnyType::Null },
        DataType::UInt16 => if 0 <= x && x <= u16::MAX as i128 { AnyType::UInt16(x as u16) } else { AnyType::Null },
        DataType::UInt32 => if 0 <= x && x <= u32::MAX as i128 { AnyType::UInt32(x as u32) } else { AnyType::Null },
        DataType::UInt64 => if 0 <= x && x <= u64::MAX as i128 { AnyType::UInt64(x as u64) } else { AnyType::Null },
        DataType::USize => if 0 <= x && x <= usize::MAX as i128 { AnyType::USize(x as usize) } else { AnyType::Null },
        DataType::Int8 => if i8::MIN as i128 <= x && x <= i8::MAX as i128 { AnyType::Int8(x as i8) } else { AnyType::Null },
        DataType::Int16 => if i16::MIN as i128 <= x && x <= i16::MAX as i128 { AnyType::Int16(x as i16) } else { AnyType::Null },
        DataType::Int32 => if i32::MIN as i128 <= x && x <= i32::MAX as i128 { AnyType::Int32(x as i32) } else { AnyType::Null },
        DataType::Int64 => if i64::MIN as i128 <= x && x <= i64::MAX as i128 { AnyType::Int64(x as i64) } else { AnyType::Null },
        _ => if isize::MIN as i128 <= x && x <= isize::MAX as i128 { AnyType::ISize(x as isize) } else { AnyType::Null },
    }
}

impl AnyType {
    /// The kind of this scalar.
    pub fn dtype(&self) -> (r: DataType)
        ensures
            r == self.kind(),
    {
        match self {
            AnyType::Null => DataType::Null,
            AnyType::Boolean(_) => DataType::Boolean,
            AnyType::Utf8(_) => DataType::Utf8,
            AnyType::UInt8(_) => DataType::UInt8,
            AnyType::UInt16(_) => DataType::UInt16,
            AnyType::UInt32(_) => DataType::UInt32,
            AnyType::UInt64(_) => DataType::UInt64,
            AnyType::USize(_) => DataType::USize,
            AnyType::Int8(_) => DataType::Int8,
            AnyType::Int16(_) => DataType::Int16,
            AnyType::Int32(_) => DataType::Int32,
            AnyType::Int64(_) => DataType::Int64,
            AnyType::ISize(_) => DataType::ISize,
        }
    }

    /// The value of an integer scalar, widened; `None` for the other kinds.
    pub fn as_wide(&self) -> (r: Option<i128>)
        ensures
            r is Some <==> self.is_integer(),
            r is Some ==> r->0 as int == self.int_value(),
    {
        match self {
            AnyType::UInt8(v) => Some(*v as i128),
            AnyType::UInt16(v) => Some(*v as i128),
            AnyType::UInt32(v) => Some(*v as i128),
            AnyType::UInt64(v) => Some(*v as i128),
            AnyType::USize(v) => Some(*v as i128),
            AnyType::Int8(v) => Some(*v as i128),
            AnyType::Int16(v) => Some(*v as i128),
            AnyType::Int32(v) => Some(*v as i128),
            AnyType::Int64(v) => Some(*v as i128),
            AnyType::ISize(v) => Some(*v as i128),
            _ => None,
        }
    }

    /// Whether this scalar is null.
    pub fn is_null(&self) -> (r: bool)
        ensures
            r == (*self is Null),
    {
        match self {
            AnyType::Null => true,
            _ => false,
        }
    }
}

/// Equality of two texts, character by character.
pub fn same_text(a: &str, b: &str) -> (r: bool)
    ensures
        r == (a@ == b@),
{
    let n = a.unicode_len();
    if n != b.unicode_len() {
        return false;
    }
    let mut i: usize = 0;
    while i < n
        invariant
            n == a@.len(),
            n == b@.len(),
            i <= n,
            forall|j: int| 0 <= j < i ==> a@[j] == b@[j],
        decreases n - i,
    {
        if a.get_char(i) != b.get_char(i) {
            return false;
        }
        i = i + 1;
    }
    proof {
        assert(a@ =~= b@);
    }
    true
}

impl PartialEq for AnyType {
    fn eq(&self, other: &AnyType) -> (r: bool) {
        match (self, other) {
            (AnyType::Null, AnyType::Null) => true,
            (AnyType::Boolean(a), AnyType::Boolean(b)) => *a == *b,
            (AnyType::Utf8(a), AnyType::Utf8(b)) => same_text(a, b),
            _ => {
                let k = self.dtype();
                if k != other.dtype() {
                    false
                } else {
                    match (self.as_wide(), other.as_wide()) {
                        (Some(x), Some(y)) => x == y,
                        _ => false,
                    }
                }
            },
        }
    }
}

impl vstd::std_specs::cmp::PartialEqSpecImpl for AnyType {
    open spec fn obeys_eq_spec() -> bool {
        true
    }

    open spec fn eq_spec(&self, other: &AnyType) -> bool {
        self.same_as(*other)
    }
}

impl Eq for AnyType {

}

impl core::ops::Add for AnyType {
    type Output = AnyType;

    fn add(self, rhs: AnyType) -> (r: AnyType) {
        let k = self.dtype();
        match (self.as_wide(), rhs.as_wide()) {
            (Some(x), Some(y)) => if k == rhs.dtype() {
                checked_scalar_exec(k, x + y)
            } else {
                AnyType::Null
            },
            (None, Some(_)) => if self.is_null() {
                rhs
            } else {
                AnyType::Null
            },
            _ => AnyType::Null,
        }
    }
}

impl vstd::std_specs::ops::AddSpecImpl for AnyType {
    open spec fn obeys_add_spec() -> bool {
        true
    }

    open spec fn add_req(self, rhs: AnyType) -> bool {
        true
    }

    open spec fn add_spec(self, rhs: AnyType) -> AnyType {
        self.plus(rhs)
    }
}


impl core::ops::Sub for AnyType {
    type Output = AnyType;

    fn sub(self, rhs: AnyType) -> (r: AnyType) {
        let k = self.dtype();
        match (self.as_wide(), rhs.as_wide()) {
            (Some(x), Some(y)) => if k == rhs.dtype() {
                checked_scalar_exec(DataType::ISize, x - y)
            } else {
                AnyType::Null
            },
            _ => AnyType::Null,
        }
    }
}

impl vstd::std_specs::ops::SubSpecImpl for AnyType {
    open spec fn obeys_sub_spec() -> bool {
        true
    }

    open spec fn sub_req(self, rhs: AnyType) -> bool {
        true
    }

    open spec fn sub_spec(self, rhs: AnyType) -> AnyType {
        self.minus(rhs)
    }
}

/// The product of two unsigned values as a `usize`, or null where it does not fit.
fn unsigned_product(x: i128, y: i128) -> (r: AnyType)
    requires
        0 <= x <= u64::MAX,
        0 <= y <= u64::MAX,
    ensures
        r == checked_scalar(DataType::USize, x * y),
{
    let a = x as u128;
    let b = y as u128;
    proof {
        assert(a * b <= u64::MAX * u64::MAX) by (nonlinear_arith)
            requires
                a <= u64::MAX,
                b <= u64::MAX,
        ;
    }
    let p = a * b;
    if p <= usize::MAX as u128 {
        AnyType::USize(p as usize)
    } else {
        AnyType::Null
    }
}

/// The product of a signed value and a value of at most 64 bits as an `isize`, or null
/// where it does not fit.
fn signed_product(x: i128, y: i128) -> (r: AnyType)
    requires
        i64::MIN <= x <= i64::MAX,
        i64::MIN <= y <= u64::MAX,
    ensures
        r == checked_scalar(DataType::ISize, x * y),
{
    proof {
        assert(-0x8000_0000_0000_0000_0000_0000_0000_0000 <= x * y <= 0x7fff_ffff_ffff_ffff_ffff_ffff_ffff_ffff) by (nonlinear_arith)
            requires
                -0x8000_0000_0000_0000 <= x <= 0x7fff_ffff_ffff_ffff,
                -0x8000_0000_0000_0000 <= y <= 0xffff_ffff_ffff_ffff,
        ;
    }
    checked_scalar_exec(DataType::ISize, x * y)
}

impl core::ops::Mul for AnyType {
    type Output = AnyType;

    fn mul(self, rhs: AnyType) -> (r: AnyType) {
        let k = self.dtype();
        let rk = rhs.dtype();
        match (self.as_wide(), rhs.as_wide()) {
            (Some(x), Some(y)) => {
                let unsigned_left = k == DataType::UInt8 || k == DataType::UInt16 || k
                    == DataType::UInt32 || k == DataType::UInt64 || k == DataType::USize;
                if k == rk {
                    if unsigned_left {
                        unsigned_product(x, y)
                    } else {
                        signed_product(x, y)
                    }
                } else if unsigned_left && rk == DataType::USize {
                    unsigned_product(x, y)
                } else if !unsigned_left && ((rk == DataType::USize && k != DataType::ISize) || rk
                    == DataType::ISize) {
                    signed_product(x, y)
                } else {
                    AnyType::Null
                }
            },
            _ => AnyType::Null,
        }
    }
}

impl vstd::std_specs::ops::MulSpecImpl for AnyType {
    open spec fn obeys_mul_spec() -> bool {
        true
    }

    open spec fn mul_req(self, rhs: AnyType) -> bool {
        true
    }

    open spec fn mul_spec(self, rhs: AnyType) -> AnyType {
        self.times(rhs)
    }
}

/// Division toward zero of values of at most 64 bits, with a divisor other than zero.
fn trunc_div_exec(x: i128, y: i128) -> (r: i128)
    requires
        i64::MIN <= x <= u64::MAX,
        i64::MIN <= y <= u64::MAX,
        y != 0,
    ensures
        r as int == trunc_div(x as int, y as int),
{
    if x >= 0 {
        proof {
            lemma_div_magnitude(x as int, y as int);
        }
        x / y
    } else {
        proof {
            lemma_div_magnitude(-x, y as int);
        }
        -((-x) / y)
    }
}

proof fn lemma_div_magnitude(a: int, b: int)
    requires
        0 <= a,
        b != 0,
    ensures
        -a <= a / b <= a,
{
    vstd::arithmetic::div_mod::lemma_fundamental_div_mod(a, b);
    let q = a / b;
    let r = a % b;
    assert(0 <= r < if b > 0 { b } else { -b });
    assert(-a <= q <= a) by (nonlinear_arith)
        requires
            a == b * q + r,
            0 <= r,
            r < if b > 0 { b } else { -b },
            0 <= a,
            b != 0,
    ;
}

impl core::ops::Div for AnyType {
    type Output = AnyType;

    fn div(self, rhs: AnyType) -> (r: AnyType) {
        let k = self.dtype();
        let rk = rhs.dtype();
        match (self.as_wide(), rhs.as_wide()) {
            (Some(x), Some(y)) => {
                let signed_left = k == DataType::Int8 || k == DataType::Int16 || k
                    == DataType::Int32 || k == DataType::Int64 || k == DataType::ISize;
                let fixed_left = k != DataType::USize && k != DataType::ISize;
                let kinds = k == rk || (fixed_left && (rk == DataType::USize || (signed_left && rk
                    == DataType::ISize)));
                if kinds && y != 0 {
                    checked_scalar_exec(k, trunc_div_exec(x, y))
                } else {
                    AnyType::Null
                }
            },
            _ => AnyType::Null,
        }
    }
}

impl vstd::std_specs::ops::DivSpecImpl for AnyType {
    open spec fn obeys_div_spec() -> bool {
        true
    }

    open spec fn div_req(self, rhs: AnyType) -> bool {
        true
    }

    open spec fn div_spec(self, rhs: AnyType) -> AnyType {
        self.over(rhs)
    }
}


/// The decimal digit `d`.
pub open spec fn digit_char(d: nat) -> char {
    if d == 0 {
        '0'
    } else if d == 1 {
        '1'
    } else if d == 2 {
        '2'
    } else if d == 3 {
        '3'
    } else if d == 4 {
        '4'
    } else if d == 5 {
        '5'
    } else if d == 6 {
        '6'
    } else if d == 7 {
        '7'
    } else if d == 8 {
        '8'
    } else {
        '9'
    }
}

/// The decimal digits of `n`, most significant first, without leading zeros.
pub open spec fn digits_of(n: nat) -> Seq<char>
    decreases n,
{
    if n < 10 {
        seq![digit_char(n)]
    } else {
        digits_of(n / 10).push(digit_char(n % 10))
    }
}

/// How Rust writes an integer: its decimal digits, after a minus sign when negative.
pub open spec fn decimal_text(v: int) -> Seq<char> {
    if v < 0 {
        seq!['-'] + digits_of((-v) as nat)
    } else {
        digits_of(v as nat)
    }
}

/// Relies on std's `Display` for `i128`, through `ToString::to_string`: the decimal
/// digits, after a minus sign for a negative value.
#[verifier::external_body]
fn decimal_string(v: i128) -> (r: String)
    ensures
        r@ == decimal_text(v as int),
{
    v.to_string()
}

impl DataType {
    /// The name of the kind, as written in Rust.
    pub open spec fn name_spec(self) -> Seq<char> {
        match self {
            DataType::Null => "null"@,
            DataType::Boolean => "bool"@,
            DataType::UInt8 => "u8"@,
            DataType::UInt16 => "u16"@,
            DataType::UInt32 => "u32"@,
            DataType::UInt64 => "u64"@,
            DataType::USize => "usize"@,
            DataType::Int8 => "i8"@,
            DataType::Int16 => "i16"@,
            DataType::Int32 => "i32"@,
            DataType::Int64 => "i64"@,
            DataType::ISize => "isize"@,
            DataType::Float32 => "f32"@,
            DataType::Float64 => "f64"@,
            DataType::Utf8 => "&'static str"@,
        }
    }

    /// The name of the kind, as written in Rust.
    pub fn name(&self) -> (r: &'static str)
        ensures
            r@ == self.name_spec(),
    {
        match self {
            DataType::Null => "null",
            DataType::Boolean => "bool",
            DataType::UInt8 => "u8",
            DataType::UInt16 => "u16",
            DataType::UInt32 => "u32",
            DataType::UInt64 => "u64",
            DataType::USize => "usize",
            DataType::Int8 => "i8",
            DataType::Int16 => "i16",
            DataType::Int32 => "i32",
            DataType::Int64 => "i64",
            DataType::ISize => "isize",
            DataType::Float32 => "f32",
            DataType::Float64 => "f64",
            DataType::Utf8 => "&'static str",
        }
    }
}

impl AnyType {
    /// How the scalar is written: `null`, `true` or `false`, the text itself, or the
    /// integer in decimal.
    pub open spec fn text_spec(self) -> Seq<char> {
        match self {
            AnyType::Null => "null"@,
            AnyType::Boolean(b) => if b {
                "true"@
            } else {
                "false"@
            },
            AnyType::Utf8(s) => s@,
            _ => decimal_text(self.int_value()),
        }
    }

    /// How the scalar is written: `null`, `true` or `false`, the text itself, or the
    /// integer in decimal.
    pub fn to_text(&self) -> (r: String)
        ensures
            r@ == self.text_spec(),
    {
        match self {
            AnyType::Null => String::from_str("null"),
            AnyType::Boolean(b) => if *b {
                String::from_str("true")
            } else {
                String::from_str("false")
            },
            AnyType::Utf8(s) => String::from_str(s),
            _ => match self.as_wide() {
                Some(v) => decimal_string(v),
                None => String::from_str("null"),
            },
        }
    }
}

} // verus!
