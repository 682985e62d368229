//! Tensor elements and the arithmetic of the in-place kernels.

use vstd::prelude::*;

verus! {

/// The arithmetic operation of an in-place kernel.
#[derive(Clone, Copy, Debug, PartialEq, Eq, Structural)]
pub enum BinaryOp {
    Add,
    Sub,
    Mul,
}

impl BinaryOp {
    /// The operation on mathematical integers.
    pub open spec fn exact(self, a: int, b: int) -> int {
        match self {
            BinaryOp::Add => a + b,
            BinaryOp::Sub => a - b,
            BinaryOp::Mul => a * b,
        }
    }

    /// The kernel's name.
    pub open spec fn spec_name(self) -> &'static str {
        match self {
            BinaryOp::Add => "add",
            BinaryOp::Sub => "sub",
            BinaryOp::Mul => "mul",
        }
    }

    /// The kernel's name.
    pub fn name(self) -> (r: &'static str)
        ensures
            r == self.spec_name(),
    {
        match self {
            BinaryOp::Add => "add",
            BinaryOp::Sub => "sub",
            BinaryOp::Mul => "mul",
        }
    }
}

/// An element type that the in-place kernels work on.
///
/// Integers implement it here, and so do brain floating-point numbers. A program
/// supplies the other floating-point types of its machine.
pub trait Element: Copy {
    /// Applies `op` to two elements.
    fn combine(op: BinaryOp, a: Self, b: Self) -> (r: Self);
}

/// `r` is what `op` gives on `a` and `b`.
pub open spec fn combines<T: Element>(op: BinaryOp, a: T, b: T, r: T) -> bool {
    call_ensures(T::combine, (op, a, b), r)
}

/// A floating-point element type.
pub trait Real: Element {
    /// Zero.
    fn zero() -> (r: Self);

    /// Whether this element is greater than zero; "not a number" is not.
    fn is_positive(self) -> (r: bool);
}

/// `r` is zero.
pub open spec fn is_zero<T: Real>(r: T) -> bool {
    call_ensures(T::zero, (), r)
}

/// `p` is whether `x` is greater than zero.
pub open spec fn positivity<T: Real>(x: T, p: bool) -> bool {
    call_ensures(T::is_positive, (x,), p)
}

/// `r` is `x` where `x` is greater than zero, and zero otherwise.
pub open spec fn rectified<T: Real>(x: T, r: T) -> bool {
    exists|p: bool|
        {
            &&& #[trigger] positivity(x, p)
            &&& if p {
                r == x
            } else {
                is_zero(r)
            }
        }
}

/// `r` is the rectified sum of `a` and `b`: their sum where it is greater than
/// zero, and zero otherwise.
pub open spec fn rectified_sum<T: Real>(a: T, b: T, r: T) -> bool {
    exists|s: T| #[trigger] combines(BinaryOp::Add, a, b, s) && rectified(s, r)
}

/// Replaces an element that is not greater than zero by zero.
pub fn rectify<T: Real>(x: T) -> (r: T)
    ensures
        rectified(x, r),
{
    let p: bool = x.is_positive();
    assert(positivity(x, p));
    if p {
        x
    } else {
        let r = T::zero();
        assert(is_zero(r));
        r
    }
}

/// Adds two elements and replaces a sum that is not greater than zero by zero.
pub fn add_rectified<T: Real>(a: T, b: T) -> (r: T)
    ensures
        rectified_sum(a, b, r),
{
    let s = T::combine(BinaryOp::Add, a, b);
    assert(combines(BinaryOp::Add, a, b, s));
    rectify(s)
}

/// `op` gives one result only on `a` and `b`. This is so of numbers; where a result is
/// "not a number", its bit pattern may be one of several.
pub open spec fn one_result<T: Element>(op: BinaryOp, a: T, b: T) -> bool {
    forall|r1: T, r2: T|
        #[trigger] combines(op, a, b, r1) && #[trigger] combines(op, a, b, r2) ==> r1 == r2
}

/// The rectified sum of `a` and `b` is one only.
pub open spec fn one_rectified_sum<T: Real>(a: T, b: T) -> bool {
    forall|r1: T, r2: T|
        #[trigger] rectified_sum(a, b, r1) && #[trigger] rectified_sum(a, b, r2) ==> r1 == r2
}

/// Operations give one result only on all operands.
pub open spec fn functional<T: Element>() -> bool {
    forall|op: BinaryOp, a: T, b: T, r1: T, r2: T|
        #[trigger] combines(op, a, b, r1) && #[trigger] combines(op, a, b, r2) ==> r1 == r2
}

/// Operations give one result only, and zero is one only.
pub open spec fn functional_sum<T: Real>() -> bool {
    &&& functional::<T>()
    &&& forall|x: T, y: T| #[trigger] is_zero(x) && #[trigger] is_zero(y) ==> x == y
}

/// `n` moved to the nearest integer between `low` and `high`.
pub open spec fn clamped(n: int, low: int, high: int) -> int {
    if n < low {
        low
    } else if n > high {
        high
    } else {
        n
    }
}

/// Bytes are combined exactly; a result beyond their range is moved to its end.
impl Element for u8 {
    fn combine(op: BinaryOp, a: u8, b: u8) -> (r: u8)
        ensures
            r == clamped(op.exact(a as int, b as int), 0, u8::MAX as int),
    {
        let x: i32 = a as i32;
        let y: i32 = b as i32;
        proof {
            assert(0 <= x * y <= 255 * 255) by (nonlinear_arith)
                requires
                    0 <= x <= 255,
                    0 <= y <= 255,
            ;
        }
        let n: i32 = match op {
            BinaryOp::Add => x + y,
            BinaryOp::Sub => x - y,
            BinaryOp::Mul => x * y,
        };
        if n < 0 {
            0
        } else if n > 255 {
            255
        } else {
            n as u8
        }
    }
}

/// 32-bit words are combined exactly; a result beyond their range is moved to its end.
impl Element for u32 {
    fn combine(op: BinaryOp, a: u32, b: u32) -> (r: u32)
        ensures
            r == clamped(op.exact(a as int, b as int), 0, u32::MAX as int),
    {
        let x: i128 = a as i128;
        let y: i128 = b as i128;
        proof {
            assert(0 <= x * y <= 0xffff_ffff * 0xffff_ffff) by (nonlinear_arith)
                requires
                    0 <= x <= 0xffff_ffff,
                    0 <= y <= 0xffff_ffff,
            ;
        }
        let n: i128 = match op {
            BinaryOp::Add => x + y,
            BinaryOp::Sub => x - y,
            BinaryOp::Mul => x * y,
        };
        if n < 0 {
            0
        } else if n > u32::MAX as i128 {
            u32::MAX
        } else {
            n as u32
        }
    }
}

/// Signed 64-bit integers are combined exactly; a result beyond their range is moved
/// to its nearer end.
impl Element for i64 {
    fn combine(op: BinaryOp, a: i64, b: i64) -> (r: i64)
        ensures
            r == clamped(op.exact(a as int, b as int), i64::MIN as int, i64::MAX as int),
    {
        let x: i128 = a as i128;
        let y: i128 = b as i128;
        proof {
            assert(-0x8000_0000_0000_0000 * 0x8000_0000_0000_0000 <= x * y
                <= 0x8000_0000_0000_0000 * 0x8000_0000_0000_0000) by (nonlinear_arith)
                requires
                    -0x8000_0000_0000_0000 <= x <= 0x8000_0000_0000_0000,
                    -0x8000_0000_0000_0000 <= y <= 0x8000_0000_0000_0000,
            ;
        }
        let n: i128 = match op {
            BinaryOp::Add => x + y,
            BinaryOp::Sub => x - y,
            BinaryOp::Mul => x * y,
        };
        if n < i64::MIN as i128 {
            i64::MIN
        } else if n > i64::MAX as i128 {
            i64::MAX
        } else {
            n as i64
        }
    }
}

/// A rectified sum is zero or greater than zero, whatever was added: never below
/// zero and never "not a number".
pub proof fn law_rectified_sum_is_zero_or_positive<T: Real>(a: T, b: T, r: T)
    requires
        rectified_sum(a, b, r),
    ensures
        is_zero(r) || positivity(r, true),
{
}

/// Bytes are combined exactly and saturate.
pub proof fn law_bytes_saturate(op: BinaryOp, a: u8, b: u8, r: u8)
    requires
        combines(op, a, b, r),
    ensures
        r == clamped(op.exact(a as int, b as int), 0, u8::MAX as int),
{
}

/// 32-bit words are combined exactly and saturate.
pub proof fn law_words_saturate(op: BinaryOp, a: u32, b: u32, r: u32)
    requires
        combines(op, a, b, r),
    ensures
        r == clamped(op.exact(a as int, b as int), 0, u32::MAX as int),
{
}

/// Signed 64-bit integers are combined exactly and saturate.
pub proof fn law_long_integers_saturate(op: BinaryOp, a: i64, b: i64, r: i64)
    requires
        combines(op, a, b, r),
    ensures
        r == clamped(op.exact(a as int, b as int), i64::MIN as int, i64::MAX as int),
{
}

/// Bytes: subtracting what was added restores the element, unless the sum saturated.
pub proof fn law_sub_undoes_add_on_bytes(a: u8, b: u8, sum: u8, r: u8)
    requires
        a + b <= u8::MAX,
        combines(BinaryOp::Add, a, b, sum),
        combines(BinaryOp::Sub, sum, b, r),
    ensures
        r == a,
{
}

/// 32-bit words: subtracting what was added restores the element, unless the sum saturated.
pub proof fn law_sub_undoes_add_on_words(a: u32, b: u32, sum: u32, r: u32)
    requires
        a + b <= u32::MAX,
        combines(BinaryOp::Add, a, b, sum),
        combines(BinaryOp::Sub, sum, b, r),
    ensures
        r == a,
{
}

/// Signed 64-bit integers: subtracting what was added restores the element, unless
/// the sum saturated.
pub proof fn law_sub_undoes_add_on_long_integers(a: i64, b: i64, sum: i64, r: i64)
    requires
        i64::MIN <= a + b <= i64::MAX,
        combines(BinaryOp::Add, a, b, sum),
        combines(BinaryOp::Sub, sum, b, r),
    ensures
        r == a,
{
}

/// Operations on integers give one result only.
pub proof fn law_integers_are_functional()
    ensures
        functional::<u8>(),
        functional::<u32>(),
        functional::<i64>(),
{
}

/// What the operations give on bytes, in plain arithmetic.
pub proof fn law_byte_arithmetic(op: BinaryOp, a: u8, b: u8, r: u8)
    requires
        call_ensures(u8::combine, (op, a, b), r),
    ensures
        match op {
            BinaryOp::Add => r == if a + b > u8::MAX {
                u8::MAX as int
            } else {
                a + b
            },
            BinaryOp::Sub => r == if a < b {
                0
            } else {
                a - b
            },
            BinaryOp::Mul => r == if a * b > u8::MAX {
                u8::MAX as int
            } else {
                a * b
            },
        },
{
    assert(a * b >= 0) by (nonlinear_arith);
}

/// What the operations give on 32-bit words, in plain arithmetic.
pub proof fn law_word_arithmetic(op: BinaryOp, a: u32, b: u32, r: u32)
    requires
        call_ensures(u32::combine, (op, a, b), r),
    ensures
        match op {
            BinaryOp::Add => r == if a + b > u32::MAX {
                u32::MAX as int
            } else {
                a + b
            },
            BinaryOp::Sub => r == if a < b {
                0
            } else {
                a - b
            },
            BinaryOp::Mul => r == if a * b > u32::MAX {
                u32::MAX as int
            } else {
                a * b
            },
        },
{
    assert(a * b >= 0) by (nonlinear_arith);
}

/// What the operations give on signed 64-bit integers, in plain arithmetic: the exact
/// result, or the end of the range that it lies beyond.
pub proof fn law_long_integer_arithmetic(op: BinaryOp, a: i64, b: i64, r: i64)
    requires
        call_ensures(i64::combine, (op, a, b), r),
    ensures
        ({
            let exact = match op {
                BinaryOp::Add => a + b,
                BinaryOp::Sub => a - b,
                BinaryOp::Mul => a * b,
            };
            &&& i64::MIN <= exact <= i64::MAX ==> r == exact
            &&& exact > i64::MAX ==> r == i64::MAX
            &&& exact < i64::MIN ==> r == i64::MIN
        }),
{
}

/// A rectified element is the element itself where it was found greater than zero, and
/// zero where it was not; a rectified sum is a rectified result of adding.
pub proof fn law_rectification<T: Real>(a: T, b: T, x: T, r: T)
    ensures
        rectified(x, r) <==> (call_ensures(T::is_positive, (x,), true) && r == x) || (call_ensures(
            T::is_positive,
            (x,),
            false,
        ) && call_ensures(T::zero, (), r)),
        rectified_sum(a, b, r) <==> exists|s: T| #[trigger]
            call_ensures(T::combine, (BinaryOp::Add, a, b), s) && rectified(s, r),
        combines(BinaryOp::Add, a, b, r) <==> call_ensures(T::combine, (BinaryOp::Add, a, b), r),
{
    assert(positivity(x, true) == call_ensures(T::is_positive, (x,), true));
    assert(positivity(x, false) == call_ensures(T::is_positive, (x,), false));
    assert(is_zero(r) == call_ensures(T::zero, (), r));
    if rectified_sum(a, b, r) {
        let s = choose|s: T| #[trigger] combines(BinaryOp::Add, a, b, s) && rectified(s, r);
        assert(call_ensures(T::combine, (BinaryOp::Add, a, b), s));
    }
    if exists|s: T| #[trigger]
        call_ensures(T::combine, (BinaryOp::Add, a, b), s) && rectified(s, r) {
        let s = choose|s: T| #[trigger]
            call_ensures(T::combine, (BinaryOp::Add, a, b), s) && rectified(s, r);
        assert(combines(BinaryOp::Add, a, b, s));
    }
}

/// [`rectify`] gives the element itself where it is found greater than zero, and zero
/// otherwise; [`add_rectified`] does so with a result of adding.
pub proof fn law_rectify<T: Real>(x: T, a: T, b: T, of_x: T, of_sum: T)
    requires
        call_ensures(rectify::<T>, (x,), of_x),
        call_ensures(add_rectified::<T>, (a, b), of_sum),
    ensures
        (call_ensures(T::is_positive, (x,), true) && of_x == x) || (call_ensures(
            T::is_positive,
            (x,),
            false,
        ) && call_ensures(T::zero, (), of_x)),
        exists|s: T|
            {
                &&& #[trigger] call_ensures(T::combine, (BinaryOp::Add, a, b), s)
                &&& (call_ensures(T::is_positive, (s,), true) && of_sum == s) || (call_ensures(
                    T::is_positive,
                    (s,),
                    false,
                ) && call_ensures(T::zero, (), of_sum))
            },
{
    law_rectification(a, b, x, of_x);
    let s = choose|s: T| #[trigger] combines(BinaryOp::Add, a, b, s) && rectified(s, of_sum);
    law_rectification(a, b, s, of_sum);
    assert(call_ensures(T::combine, (BinaryOp::Add, a, b), s));
}

/// Every kernel is named after its operation.
pub proof fn law_kernel_names(op: BinaryOp, name: &'static str)
    requires
        call_ensures(BinaryOp::name, (op,), name),
    ensures
        name@ == match op {
            BinaryOp::Add => "add"@,
            BinaryOp::Sub => "sub"@,
            BinaryOp::Mul => "mul"@,
        },
{
}

} // verus!
