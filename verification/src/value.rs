//! The wrapper value type and its operators.
//!
//! Every operator does to the magnitude what the operator of `u32` does to a
//! `u32`. Addition, subtraction and multiplication wrap around at `2^32`;
//! division and remainder need a divisor that is not zero.

use core::ops::{
    Add, AddAssign, BitAnd, BitAndAssign, BitOr, BitOrAssign, Div, DivAssign, Mul, MulAssign,
    Not, Rem, RemAssign, Sub, SubAssign,
};
use vstd::prelude::*;
use vstd::std_specs::cmp::{PartialEqSpec, PartialEqSpecImpl};
use vstd::std_specs::convert::FromSpecImpl;
use vstd::std_specs::ops::{
    AddSpec, AddSpecImpl, BitAndSpec, BitAndSpecImpl, BitOrSpec, BitOrSpecImpl, DivSpec,
    DivSpecImpl, MulSpec, MulSpecImpl, NotSpec, NotSpecImpl, RemSpec, RemSpecImpl, SubSpec,
    SubSpecImpl,
};

verus! {

/// An unsigned 32-bit magnitude that is written and read in the 7-bit
/// variable-length encoding.
#[allow(non_camel_case_types)]
#[derive(Clone, Copy, Debug)]
pub struct u7(u32);

impl View for u7 {
    type V = u32;

    /// The magnitude that the value wraps.
    closed spec fn view(&self) -> u32 {
        self.0
    }
}

impl u7 {
    /// The value whose magnitude is `value`.
    pub closed spec fn spec_new(value: u32) -> u7 {
        u7(value)
    }

    /// Wraps a `u32`. Every `u32` is a legal magnitude.
    #[verifier::when_used_as_spec(spec_new)]
    pub fn new(value: u32) -> (r: u7)
        ensures
            r == u7::spec_new(value),
            r@ == value,
    {
        u7(value)
    }

    /// A value is its magnitude and nothing else: two values are the same
    /// exactly when their magnitudes are, and wrapping the magnitude of a
    /// value gives the value back.
    pub proof fn lemma_value_is_its_magnitude(self, other: u7)
        ensures
            self == other <==> self@ == other@,
            u7::new(self@) == self,
    {
    }
}

impl From<u7> for u32 {
    /// The magnitude of the value.
    fn from(value: u7) -> (r: u32)
        ensures
            r == value@,
    {
        value.0
    }
}

impl FromSpecImpl<u7> for u32 {
    open spec fn obeys_from_spec() -> bool {
        true
    }

    open spec fn from_spec(value: u7) -> u32 {
        value@
    }
}

impl From<u32> for u7 {
    /// The value whose magnitude is `value`.
    fn from(value: u32) -> (r: u7)
        ensures
            r@ == value,
    {
        u7(value)
    }
}

impl FromSpecImpl<u32> for u7 {
    open spec fn obeys_from_spec() -> bool {
        true
    }

    open spec fn from_spec(value: u32) -> u7 {
        u7::new(value)
    }
}

impl PartialEq for u7 {
    /// Whether the two magnitudes are equal.
    fn eq(&self, other: &u7) -> (r: bool)
        ensures
            r == (self@ == other@),
    {
        self.0 == other.0
    }
}

impl PartialEqSpecImpl for u7 {
    open spec fn obeys_eq_spec() -> bool {
        true
    }

    open spec fn eq_spec(&self, other: &u7) -> bool {
        self@ == other@
    }
}

impl AddSpecImpl for u7 {
    open spec fn obeys_add_spec() -> bool {
        true
    }

    open spec fn add_req(self, rhs: u7) -> bool {
        true
    }

    closed spec fn add_spec(self, rhs: u7) -> u7 {
        u7(self.0.wrapping_add(rhs.0))
    }
}

impl Add for u7 {
    type Output = u7;

    /// The sum, wrapped around at `2^32`.
    fn add(self, rhs: u7) -> (ret: u7)
        ensures
            ret@ == (self@ + rhs@) % 0x1_0000_0000,
    {
        u7(self.0.wrapping_add(rhs.0))
    }
}

impl AddAssign for u7 {
    /// Adds in place, wrapping around at `2^32`.
    fn add_assign(&mut self, rhs: u7)
        ensures
            *final(self) == AddSpec::add_spec(*old(self), rhs),
            final(self)@ == (old(self)@ + rhs@) % 0x1_0000_0000,
    {
        self.0 = self.0.wrapping_add(rhs.0);
    }
}

impl SubSpecImpl for u7 {
    open spec fn obeys_sub_spec() -> bool {
        true
    }

    open spec fn sub_req(self, rhs: u7) -> bool {
        true
    }

    closed spec fn sub_spec(self, rhs: u7) -> u7 {
        u7(self.0.wrapping_sub(rhs.0))
    }
}

impl Sub for u7 {
    type Output = u7;

    /// The difference, wrapped around at `2^32`.
    fn sub(self, rhs: u7) -> (ret: u7)
        ensures
            ret@ == (self@ - rhs@) % 0x1_0000_0000,
    {
        u7(self.0.wrapping_sub(rhs.0))
    }
}

impl SubAssign for u7 {
    /// Subtracts in place, wrapping around at `2^32`.
    fn sub_assign(&mut self, rhs: u7)
        ensures
            *final(self) == SubSpec::sub_spec(*old(self), rhs),
            final(self)@ == (old(self)@ - rhs@) % 0x1_0000_0000,
    {
        self.0 = self.0.wrapping_sub(rhs.0);
    }
}

impl MulSpecImpl for u7 {
    open spec fn obeys_mul_spec() -> bool {
        true
    }

    open spec fn mul_req(self, rhs: u7) -> bool {
        true
    }

    closed spec fn mul_spec(self, rhs: u7) -> u7 {
        u7(self.0.wrapping_mul(rhs.0))
    }
}

impl Mul for u7 {
    type Output = u7;

    /// The product, wrapped around at `2^32`.
    fn mul(self, rhs: u7) -> (ret: u7)
        ensures
            ret@ == (self@ * rhs@) % 0x1_0000_0000,
    {
        u7(self.0.wrapping_mul(rhs.0))
    }
}

impl MulAssign for u7 {
    /// Multiplies in place, wrapping around at `2^32`.
    fn mul_assign(&mut self, rhs: u7)
        ensures
            *final(self) == MulSpec::mul_spec(*old(self), rhs),
            final(self)@ == (old(self)@ * rhs@) % 0x1_0000_0000,
    {
        self.0 = self.0.wrapping_mul(rhs.0);
    }
}

impl DivSpecImpl for u7 {
    open spec fn obeys_div_spec() -> bool {
        true
    }

    open spec fn div_req(self, rhs: u7) -> bool {
        rhs@ != 0
    }

    closed spec fn div_spec(self, rhs: u7) -> u7 {
        u7(self.0 / rhs.0)
    }
}

impl Div for u7 {
    type Output = u7;

    /// The quotient, rounded down. The divisor is not zero.
    fn div(self, rhs: u7) -> (ret: u7)
        ensures
            ret@ == self@ / rhs@,
    {
        u7(self.0 / rhs.0)
    }
}

impl DivAssign for u7 {
    /// Divides in place. The divisor is not zero.
    fn div_assign(&mut self, rhs: u7)
        requires
            rhs@ != 0,
        ensures
            *final(self) == DivSpec::div_spec(*old(self), rhs),
            final(self)@ == old(self)@ / rhs@,
    {
        self.0 = self.0 / rhs.0;
    }
}

impl RemSpecImpl for u7 {
    open spec fn obeys_rem_spec() -> bool {
        true
    }

    open spec fn rem_req(self, rhs: u7) -> bool {
        rhs@ != 0
    }

    closed spec fn rem_spec(self, rhs: u7) -> u7 {
        u7(self.0 % rhs.0)
    }
}

impl Rem for u7 {
    type Output = u7;

    /// The remainder of the division. The divisor is not zero.
    fn rem(self, rhs: u7) -> (ret: u7)
        ensures
            ret@ == self@ % rhs@,
    {
        u7(self.0 % rhs.0)
    }
}

impl RemAssign for u7 {
    /// Takes the remainder in place. The divisor is not zero.
    fn rem_assign(&mut self, rhs: u7)
        requires
            rhs@ != 0,
        ensures
            *final(self) == RemSpec::rem_spec(*old(self), rhs),
            final(self)@ == old(self)@ % rhs@,
    {
        self.0 = self.0 % rhs.0;
    }
}

impl NotSpecImpl for u7 {
    open spec fn obeys_not_spec() -> bool {
        true
    }

    open spec fn not_req(self) -> bool {
        true
    }

    closed spec fn not_spec(self) -> u7 {
        u7(!self.0)
    }
}

impl Not for u7 {
    type Output = u7;

    /// The magnitude with each of its 32 bits flipped.
    fn not(self) -> (ret: u7)
        ensures
            ret@ == !self@,
            ret@ == u32::MAX - self@,
    {
        let magnitude: u32 = self.0;
        assert(!magnitude == 0xFFFF_FFFFu32 - magnitude) by (bit_vector);
        u7(!magnitude)
    }
}

impl BitAndSpecImpl for u7 {
    open spec fn obeys_bitand_spec() -> bool {
        true
    }

    open spec fn bitand_req(self, rhs: u7) -> bool {
        true
    }

    closed spec fn bitand_spec(self, rhs: u7) -> u7 {
        u7(self.0 & rhs.0)
    }
}

impl BitAnd for u7 {
    type Output = u7;

    /// The bits that both magnitudes have.
    fn bitand(self, rhs: u7) -> (ret: u7)
        ensures
            ret@ == self@ & rhs@,
    {
        u7(self.0 & rhs.0)
    }
}

impl BitAndAssign for u7 {
    /// Keeps the bits that `rhs` has too.
    fn bitand_assign(&mut self, rhs: u7)
        ensures
            *final(self) == BitAndSpec::bitand_spec(*old(self), rhs),
            final(self)@ == old(self)@ & rhs@,
    {
        self.0 = self.0 & rhs.0;
    }
}

impl BitOrSpecImpl for u7 {
    open spec fn obeys_bitor_spec() -> bool {
        true
    }

    open spec fn bitor_req(self, rhs: u7) -> bool {
        true
    }

    closed spec fn bitor_spec(self, rhs: u7) -> u7 {
        u7(self.0 | rhs.0)
    }
}

impl BitOr for u7 {
    type Output = u7;

    /// The bits that either magnitude has.
    fn bitor(self, rhs: u7) -> (ret: u7)
        ensures
            ret@ == self@ | rhs@,
    {
        u7(self.0 | rhs.0)
    }
}

impl BitOrAssign for u7 {
    /// Takes over the bits that `rhs` has.
    fn bitor_assign(&mut self, rhs: u7)
        ensures
            *final(self) == BitOrSpec::bitor_spec(*old(self), rhs),
            final(self)@ == old(self)@ | rhs@,
    {
        self.0 = self.0 | rhs.0;
    }
}

/// The character of the decimal digit `d`.
pub open spec fn digit(d: nat) -> char {
    if d == 0 {
        '0'
    } else if d == 1 {
        '1'
    } else if d == 2 {
        '2'
    } else if d == 3 {
        '3'
    } else if d == 4 {
        '4'
    } else if d == 5 {
        '5'
    } else if d == 6 {
        '6'
    } else if d == 7 {
        '7'
    } else if d == 8 {
        '8'
    } else {
        '9'
    }
}

/// The decimal numeral of `n`, without leading zeros.
pub open spec fn decimal(n: nat) -> Seq<char>
    decreases n,
{
    if n < 10 {
        seq![digit(n)]
    } else {
        decimal(n / 10).push(digit(n % 10))
    }
}

/// The one-character text of a digit.
fn digit_str(d: u32) -> (s: &'static str)
    requires
        d < 10,
    ensures
        s@ == seq![digit(d as nat)],
{
    proof {
        reveal_strlit("0");
        reveal_strlit("1");
        reveal_strlit("2");
        reveal_strlit("3");
        reveal_strlit("4");
        reveal_strlit("5");
        reveal_strlit("6");
        reveal_strlit("7");
        reveal_strlit("8");
        reveal_strlit("9");
    }
    let s = if d == 0 {
        "0"
    } else if d == 1 {
        "1"
    } else if d == 2 {
        "2"
    } else if d == 3 {
        "3"
    } else if d == 4 {
        "4"
    } else if d == 5 {
        "5"
    } else if d == 6 {
        "6"
    } else if d == 7 {
        "7"
    } else if d == 8 {
        "8"
    } else {
        "9"
    };
    assert(s@ =~= seq![digit(d as nat)]);
    s
}

/// Appends the decimal numeral of `n` to `out`.
fn write_decimal(n: u32, out: &mut String)
    ensures
        final(out)@ == old(out)@ + decimal(n as nat),
    decreases n,
{
    if n >= 10 {
        write_decimal(n / 10, out);
    }
    out.append(digit_str(n % 10));
    proof {
        let head = old(out)@;
        if n >= 10 {
            assert((head + decimal((n / 10) as nat)) + seq![digit((n % 10) as nat)] =~= head
                + decimal(n as nat));
        }
    }
}

impl u7 {
    /// The magnitude in decimal, as it is shown to a reader.
    pub fn to_string(&self) -> (text: String)
        ensures
            text@ == decimal(self@ as nat),
    {
        let mut text = String::new();
        write_decimal(self.0, &mut text);
        text
    }

    /// On magnitudes, every operator is the operator of `u32`: sums,
    /// differences and products wrap around at `2^32`, quotients round down,
    /// and the bitwise operators work bit by bit.
    pub proof fn lemma_operators_follow_u32(self, rhs: u7)
        ensures
            AddSpec::add_spec(self, rhs)@ == (self@ + rhs@) % 0x1_0000_0000,
            SubSpec::sub_spec(self, rhs)@ == (self@ - rhs@) % 0x1_0000_0000,
            MulSpec::mul_spec(self, rhs)@ == (self@ * rhs@) % 0x1_0000_0000,
            rhs@ != 0 ==> DivSpec::div_spec(self, rhs)@ == self@ / rhs@,
            rhs@ != 0 ==> RemSpec::rem_spec(self, rhs)@ == self@ % rhs@,
            BitAndSpec::bitand_spec(self, rhs)@ == self@ & rhs@,
            BitOrSpec::bitor_spec(self, rhs)@ == self@ | rhs@,
            NotSpec::not_spec(self)@ == !self@,
    {
    }

    /// A value AND-ed with itself is that value.
    pub proof fn lemma_bitand_idempotent(self)
        ensures
            BitAndSpec::bitand_spec(self, self) == self,
    {
        let magnitude = self.0;
        assert(magnitude & magnitude == magnitude) by (bit_vector);
    }

    /// Wrapping keeps the magnitude, so two wrapped magnitudes compare equal
    /// exactly when the magnitudes are equal, and then they are the same
    /// value.
    pub proof fn lemma_eq_iff_same_magnitude(a: u32, b: u32)
        ensures
            u7::new(a)@ == a,
            PartialEqSpec::eq_spec(&u7::new(a), &u7::new(b)) <==> a == b,
            u7::new(a) == u7::new(b) <==> a == b,
    {
    }
}

} // verus!