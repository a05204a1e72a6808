use vstd::prelude::*;
use crate::math::next_multiple_of;
use crate::text::decimal_text;

verus! {

/// The ratio of physical to logical pixels, as a numerator and a denominator.
#[derive(Debug, Clone, Copy, PartialEq, Eq, Structural)]
pub struct PixelScale(pub u32, pub u32);

/// A pixel scale as a client sends it: both parts are unchecked.
#[derive(Debug, Clone, Copy, PartialEq, Eq, Structural)]
pub struct ProtocolPixelScale {
    pub numerator: u32,
    pub denominator: u32,
}

/// Returned where a whole number is needed and the scale is not one.
#[derive(Debug, Clone, Copy, PartialEq, Eq, Structural)]
pub struct FractionalScaleError;

/// A protocol scale that stands for no ratio; holds the two parts.
#[derive(Debug, Clone, Copy, PartialEq, Eq, Structural)]
pub struct InvalidScaleError {
    pub numerator: u32,
    pub denominator: u32,
}

/// The ratio that a client's scale stands for: without a denominator it is
/// one, and without a numerator there is none.
pub open spec fn read_scale(scale: ProtocolPixelScale) -> Result<PixelScale, InvalidScaleError> {
    if scale.numerator == 0 {
        Err(InvalidScaleError { numerator: 0, denominator: scale.denominator })
    } else if scale.denominator == 0 {
        Ok(PixelScale(1, 1))
    } else {
        Ok(PixelScale(scale.numerator, scale.denominator))
    }
}

impl FractionalScaleError {
    /// The text shown for this error.
    pub fn message(&self) -> (text: String)
        ensures
            text@ == "scale is fractional"@,
    {
        "scale is fractional".to_owned()
    }
}

impl InvalidScaleError {
    /// The text shown for this error.
    pub fn message(&self) -> (text: String)
        ensures
            text@ == "invalid pixel scale: "@ + crate::text::decimal(self.numerator as nat) + "/"@
                + crate::text::decimal(self.denominator as nat),
    {
        let mut text = "invalid pixel scale: ".to_owned();
        text.append(decimal_text(self.numerator as u64).as_str());
        text.append("/");
        text.append(decimal_text(self.denominator as u64).as_str());
        text
    }
}

impl PixelScale {
    /// One physical pixel for each logical pixel.
    pub fn one() -> (scale: PixelScale)
        ensures
            scale == PixelScale(1, 1),
    {
        PixelScale(1, 1)
    }

    /// A scale is a ratio when its denominator is not zero.
    pub open spec fn valid(self) -> bool {
        self.1 != 0
    }

    /// The scale is not a whole number.
    pub open spec fn spec_is_fractional(self) -> bool {
        self.0 as int % self.1 as int != 0
    }

    pub fn is_fractional(&self) -> (fractional: bool)
        requires
            self.valid(),
        ensures
            fractional == self.spec_is_fractional(),
    {
        self.0 % self.1 != 0
    }

    /// Rounds up to the nearest whole scale, and keeps the denominator.
    pub fn ceil(self) -> (rounded: PixelScale)
        requires
            self.valid(),
            crate::math::next_multiple(self.0 as int, self.1 as int) <= u32::MAX,
        ensures
            rounded.1 == self.1,
            rounded.0 as int == crate::math::next_multiple(self.0 as int, self.1 as int),
    {
        PixelScale(next_multiple_of(self.0, self.1), self.1)
    }

    /// Reads a client's scale.
    pub fn try_from_protocol(scale: ProtocolPixelScale) -> (result: Result<
        PixelScale,
        InvalidScaleError,
    >)
        ensures
            result == read_scale(scale),
    {
        if scale.denominator == 0 && scale.numerator != 0 {
            Ok(PixelScale(1, 1))
        } else if scale.denominator == 0 || scale.numerator == 0 {
            Err(
                InvalidScaleError {
                    numerator: scale.numerator,
                    denominator: scale.denominator,
                },
            )
        } else {
            Ok(PixelScale(scale.numerator, scale.denominator))
        }
    }

    /// The scale as a whole number, where it is one.
    pub fn try_into_u32(self) -> (result: Result<u32, FractionalScaleError>)
        requires
            self.valid(),
        ensures
            self.spec_is_fractional() <==> result is Err,
            !self.spec_is_fractional() ==> (result matches Ok(n) && n as int == self.0 as int
                / self.1 as int),
    {
        if self.is_fractional() {
            Err(FractionalScaleError)
        } else {
            Ok(self.0 / self.1)
        }
    }

    pub fn to_protocol(self) -> (scale: ProtocolPixelScale)
        ensures
            scale.numerator == self.0,
            scale.denominator == self.1,
    {
        ProtocolPixelScale { numerator: self.0, denominator: self.1 }
    }
}

impl Default for PixelScale {
    fn default() -> (scale: PixelScale)
        ensures
            scale == PixelScale(1, 1),
    {
        PixelScale(1, 1)
    }
}

/// Rounding up gives a whole scale that is at least the scale itself and
/// exceeds it by less than one.
pub proof fn ceil_is_least_whole(scale: PixelScale, rounded: PixelScale)
    requires
        scale.valid(),
        rounded.1 == scale.1,
        rounded.0 as int == crate::math::next_multiple(scale.0 as int, scale.1 as int),
    ensures
        !rounded.spec_is_fractional(),
        scale.0 <= rounded.0 < scale.0 + scale.1,
{
    crate::math::lemma_next_multiple(scale.0 as int, scale.1 as int);
}

/// A scale that a client sends back as it got it is read as the same scale.
pub proof fn protocol_round_trip(scale: PixelScale, sent: ProtocolPixelScale)
    requires
        scale.valid(),
        scale.0 != 0,
        sent.numerator == scale.0,
        sent.denominator == scale.1,
    ensures
        read_scale(sent) == Ok::<PixelScale, InvalidScaleError>(scale),
{
}

/// A client's scale is read as it is: a numerator over a denominator. Without a
/// denominator it is one, and without a numerator there is none.
pub proof fn scale_is_read_as_a_ratio(scale: ProtocolPixelScale)
    ensures
        scale.numerator != 0 && scale.denominator != 0 ==> (read_scale(scale) matches Ok(read)
            && read.0 == scale.numerator && read.1 == scale.denominator),
        scale.numerator != 0 && scale.denominator == 0 ==> (read_scale(scale) matches Ok(read)
            && read.0 == read.1 && read.0 == 1),
        scale.numerator == 0 ==> (read_scale(scale) matches Err(err) && err.numerator == 0
            && err.denominator == scale.denominator),
        read_scale(scale) matches Ok(read) ==> read.valid() && read.0 != 0,
{
}

/// A whole scale is as many times its denominator as its numerator says.
pub proof fn whole_scale_is_a_quotient(scale: PixelScale, result: Result<u32, FractionalScaleError>)
    requires
        scale.valid(),
        call_ensures(PixelScale::try_into_u32, (scale,), result),
    ensures
        result matches Ok(n) ==> n * scale.1 == scale.0,
        result is Err ==> forall|n: int| #[trigger] (n * scale.1) != scale.0,
{
    let n = scale.0 as int;
    let d = scale.1 as int;
    vstd::arithmetic::div_mod::lemma_fundamental_div_mod(n, d);
    if let Ok(q) = result {
        assert(q * d == n) by (nonlinear_arith)
            requires
                q == n / d,
                n == d * (n / d) + n % d,
                n % d == 0,
        ;
    } else {
        assert forall|k: int| #[trigger] (k * scale.1) != scale.0 by {
            vstd::arithmetic::div_mod::lemma_mod_multiples_basic(k, d);
        }
    }
}

} // verus!
