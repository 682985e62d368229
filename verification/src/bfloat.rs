//! Brain floating-point elements.
//!
//! An element is the bit pattern of its value. Arithmetic and comparison are
//! those of the `half` crate.

use vstd::prelude::*;

use crate::element::{combines, rectified_sum, BinaryOp, Element, Real};

verus! {

/// A bit pattern without its sign.
pub open spec fn magnitude(bits: u16) -> int {
    if bits < 0x8000 {
        bits as int
    } else {
        bits - 0x8000
    }
}

/// A number that orders bit patterns as their values are ordered. The two zeros share one.
pub open spec fn rank(bits: u16) -> int {
    if bits < 0x8000 {
        bits as int
    } else {
        0x8000 - bits
    }
}

/// A brain floating-point number: one sign, eight exponent and seven significand bits.
#[derive(Clone, Copy, Debug, PartialEq, Eq, Structural)]
pub struct Bf16 {
    pub bits: u16,
}

impl Bf16 {
    /// Whether this is no number: the magnitude lies above that of infinity.
    pub open spec fn is_nan(self) -> bool {
        magnitude(self.bits) > 0x7f80
    }
}

/// The bit pattern, with all patterns that are no number taken for one.
impl View for Bf16 {
    type V = int;

    open spec fn view(&self) -> int {
        if self.is_nan() {
            0x7f81int
        } else {
            self.bits as int
        }
    }
}

/// What `+` of `half::bf16` gives.
pub uninterp spec fn bf16_sum(a: int, b: int) -> int;

/// What `-` of `half::bf16` gives.
pub uninterp spec fn bf16_difference(a: int, b: int) -> int;

/// What `*` of `half::bf16` gives.
pub uninterp spec fn bf16_product(a: int, b: int) -> int;

/// `+` of `half::bf16`. The sum depends on the two operands alone; which of the
/// patterns that are no number stands for such an operand makes no difference,
/// and which of them comes back is left open.
#[verifier::external_body]
fn bf16_add(a: Bf16, b: Bf16) -> (r: Bf16)
    ensures
        r@ == bf16_sum(a@, b@),
{
    Bf16 { bits: (half::bf16::from_bits(a.bits) + half::bf16::from_bits(b.bits)).to_bits() }
}

/// `-` of `half::bf16`. The difference depends on the two operands alone, up to
/// the choice among the patterns that are no number.
#[verifier::external_body]
fn bf16_sub(a: Bf16, b: Bf16) -> (r: Bf16)
    ensures
        r@ == bf16_difference(a@, b@),
{
    Bf16 { bits: (half::bf16::from_bits(a.bits) - half::bf16::from_bits(b.bits)).to_bits() }
}

/// `*` of `half::bf16`. The product depends on the two operands alone, up to the
/// choice among the patterns that are no number.
#[verifier::external_body]
fn bf16_mul(a: Bf16, b: Bf16) -> (r: Bf16)
    ensures
        r@ == bf16_product(a@, b@),
{
    Bf16 { bits: (half::bf16::from_bits(a.bits) * half::bf16::from_bits(b.bits)).to_bits() }
}

/// `>` of `half::bf16`: a pattern that is no number is not greater than anything
/// and nothing is greater than it; other patterns compare by their rank.
#[verifier::external_body]
fn bf16_gt(a: Bf16, b: Bf16) -> (r: bool)
    ensures
        r == (!a.is_nan() && !b.is_nan() && rank(a.bits) > rank(b.bits)),
{
    half::bf16::from_bits(a.bits) > half::bf16::from_bits(b.bits)
}

/// What an operation gives, over the views of its operands.
pub open spec fn bf16_combined(op: BinaryOp, a: int, b: int) -> int {
    match op {
        BinaryOp::Add => bf16_sum(a, b),
        BinaryOp::Sub => bf16_difference(a, b),
        BinaryOp::Mul => bf16_product(a, b),
    }
}

impl Element for Bf16 {
    fn combine(op: BinaryOp, a: Bf16, b: Bf16) -> (r: Bf16)
        ensures
            r@ == bf16_combined(op, a@, b@),
    {
        match op {
            BinaryOp::Add => bf16_add(a, b),
            BinaryOp::Sub => bf16_sub(a, b),
            BinaryOp::Mul => bf16_mul(a, b),
        }
    }
}

impl Real for Bf16 {
    fn zero() -> (r: Bf16)
        ensures
            r.bits == 0,
    {
        Bf16 { bits: 0 }
    }

    fn is_positive(self) -> (r: bool)
        ensures
            r == (0 < self.bits <= 0x7f80),
    {
        bf16_gt(self, Bf16 { bits: 0 })
    }
}

/// Brain floating-point numbers are combined as by the `half` crate.
pub proof fn law_brain_numbers_combine(op: BinaryOp, a: Bf16, b: Bf16, r: Bf16)
    requires
        combines(op, a, b, r),
    ensures
        r@ == bf16_combined(op, a@, b@),
{
}

/// A rectified sum of brain floating-point numbers is the sum, where that is above
/// zero, and zero otherwise; it is a number, and its sign bit is clear.
pub proof fn law_rectified_brain_sum(a: Bf16, b: Bf16, r: Bf16)
    requires
        rectified_sum(a, b, r),
    ensures
        r@ == if 0 < bf16_sum(a@, b@) <= 0x7f80 {
            bf16_sum(a@, b@)
        } else {
            0
        },
        !r.is_nan(),
        r.bits < 0x8000,
{
}

/// Two numbers with one view have one bit pattern, and all patterns that are no number
/// share a view that no number has. A pattern is no number exactly if its exponent bits
/// are all set and its significand is not zero.
pub proof fn law_view_tells_numbers_apart(a: Bf16, b: Bf16)
    ensures
        a.is_nan() <==> (a.bits & 0x7f80 == 0x7f80 && a.bits & 0x7f != 0),
        !a.is_nan() ==> (a@ == b@ <==> a.bits == b.bits),
        a.is_nan() ==> (a@ == b@ <==> b.is_nan()),
{
    let x = a.bits;
    assert((x < 0x8000 && x > 0x7f80 || x >= 0x8000 && x - 0x8000 > 0x7f80) <==> (x & 0x7f80
        == 0x7f80 && x & 0x7f != 0)) by (bit_vector);
}

/// A brain floating-point number is greater than zero exactly if its sign bit is clear and
/// it is neither zero nor beyond infinity; the zero has no bit set.
pub proof fn law_brain_sign(x: Bf16, p: bool, z: Bf16)
    requires
        call_ensures(<Bf16 as Real>::is_positive, (x,), p),
        call_ensures(<Bf16 as Real>::zero, (), z),
    ensures
        p == (0 < x.bits && x.bits <= 0x7f80),
        z.bits == 0,
{
}

/// Adding, subtracting and multiplying are what the `half` crate gives for `+`, `-` and `*`.
pub proof fn law_brain_operations(a: Bf16, b: Bf16, sum: Bf16, difference: Bf16, product: Bf16)
    requires
        call_ensures(<Bf16 as Element>::combine, (BinaryOp::Add, a, b), sum),
        call_ensures(<Bf16 as Element>::combine, (BinaryOp::Sub, a, b), difference),
        call_ensures(<Bf16 as Element>::combine, (BinaryOp::Mul, a, b), product),
    ensures
        sum@ == bf16_sum(a@, b@),
        difference@ == bf16_difference(a@, b@),
        product@ == bf16_product(a@, b@),
{
}

} // verus!
