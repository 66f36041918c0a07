//! Colors of text on a terminal screen, and the checks tests make of them.

use vstd::prelude::*;

verus! {

/// A kind of color that a cell's color can be checked against.
#[derive(Debug, Clone, Copy, PartialEq, Eq)]
pub enum ColorMatcher {
    /// Equal or nearly equal red, green and blue.
    Grayscale,
    /// Red clearly above green and blue.
    RedIsh,
    /// Green clearly above red and blue.
    GreenIsh,
    /// Blue clearly above red and green.
    BlueIsh,
    /// Red and green clearly above blue, and close to each other.
    YellowIsh,
    /// Green and blue clearly above red, and close to each other.
    CyanIsh,
    /// Red and blue clearly above green, and close to each other.
    MagentaIsh,
}

/// `x + y`, held at 255 (`u8::saturating_add`).
pub open spec fn sat_add(x: u8, y: u8) -> int {
    if x + y > 255 {
        255
    } else {
        x + y
    }
}

pub open spec fn max3(r: u8, g: u8, b: u8) -> int {
    if r >= g && r >= b {
        r as int
    } else if g >= b {
        g as int
    } else {
        b as int
    }
}

pub open spec fn min3(r: u8, g: u8, b: u8) -> int {
    if r <= g && r <= b {
        r as int
    } else if g <= b {
        g as int
    } else {
        b as int
    }
}

/// The grayscale test: the largest and smallest components differ by at most 20.
pub open spec fn is_grayscale_spec(r: u8, g: u8, b: u8) -> bool {
    max3(r, g, b) - min3(r, g, b) <= 20
}

/// `x` clearly above `y`: by more than 30 (with the sum held at 255).
pub open spec fn clearly_above(x: u8, y: u8) -> bool {
    x > sat_add(y, 30)
}

/// `x` and `y` within 60 of each other.
pub open spec fn close(x: u8, y: u8) -> bool {
    -60 < x - y < 60
}

/// Whether the color (r, g, b) matches `m`.
pub open spec fn matches_spec(m: ColorMatcher, r: u8, g: u8, b: u8) -> bool {
    match m {
        ColorMatcher::Grayscale => is_grayscale_spec(r, g, b),
        ColorMatcher::RedIsh => clearly_above(r, g) && clearly_above(r, b),
        ColorMatcher::GreenIsh => clearly_above(g, r) && clearly_above(g, b),
        ColorMatcher::BlueIsh => clearly_above(b, r) && clearly_above(b, g),
        ColorMatcher::YellowIsh => clearly_above(r, b) && clearly_above(g, b) && close(r, g),
        ColorMatcher::CyanIsh => clearly_above(g, r) && clearly_above(b, r) && close(g, b),
        ColorMatcher::MagentaIsh => clearly_above(r, g) && clearly_above(b, g) && close(r, b),
    }
}

/// The largest of three components.
pub fn max_of(r: u8, g: u8, b: u8) -> (m: u8)
    ensures
        m == max3(r, g, b),
{
    if r >= g && r >= b {
        r
    } else if g >= b {
        g
    } else {
        b
    }
}

/// The smallest of three components.
pub fn min_of(r: u8, g: u8, b: u8) -> (m: u8)
    ensures
        m == min3(r, g, b),
{
    if r <= g && r <= b {
        r
    } else if g <= b {
        g
    } else {
        b
    }
}

/// Whether `x` is clearly above `y`.
fn above(x: u8, y: u8) -> (b: bool)
    ensures
        b == clearly_above(x, y),
{
    x > y.saturating_add(30)
}

/// Whether `x` and `y` are within 60 of each other.
fn near(x: u8, y: u8) -> (b: bool)
    ensures
        b == close(x, y),
{
    let d: i16 = x as i16 - y as i16;
    -60 < d && d < 60
}

/// The grayscale test on (r, g, b).
pub fn is_grayscale(r: u8, g: u8, b: u8) -> (res: bool)
    ensures
        res == is_grayscale_spec(r, g, b),
{
    max_of(r, g, b) - min_of(r, g, b) <= 20
}

impl ColorMatcher {
    /// Whether the color (r, g, b) matches.
    pub fn matches(&self, r: u8, g: u8, b: u8) -> (res: bool)
        ensures
            res == matches_spec(*self, r, g, b),
    {
        match self {
            ColorMatcher::Grayscale => is_grayscale(r, g, b),
            ColorMatcher::RedIsh => above(r, g) && above(r, b),
            ColorMatcher::GreenIsh => above(g, r) && above(g, b),
            ColorMatcher::BlueIsh => above(b, r) && above(b, g),
            ColorMatcher::YellowIsh => above(r, b) && above(g, b) && near(r, g),
            ColorMatcher::CyanIsh => above(g, r) && above(b, r) && near(g, b),
            ColorMatcher::MagentaIsh => above(r, g) && above(b, g) && near(r, b),
        }
    }

    /// The matcher's name, as `{:?}` shows it.
    pub fn name(&self) -> (s: &'static str)
        ensures
            s@ == matcher_name(*self),
    {
        match self {
            ColorMatcher::Grayscale => "Grayscale",
            ColorMatcher::RedIsh => "RedIsh",
            ColorMatcher::GreenIsh => "GreenIsh",
            ColorMatcher::BlueIsh => "BlueIsh",
            ColorMatcher::YellowIsh => "YellowIsh",
            ColorMatcher::CyanIsh => "CyanIsh",
            ColorMatcher::MagentaIsh => "MagentaIsh",
        }
    }
}

/// The name of a matcher.
pub open spec fn matcher_name(m: ColorMatcher) -> Seq<char> {
    match m {
        ColorMatcher::Grayscale => "Grayscale"@,
        ColorMatcher::RedIsh => "RedIsh"@,
        ColorMatcher::GreenIsh => "GreenIsh"@,
        ColorMatcher::BlueIsh => "BlueIsh"@,
        ColorMatcher::YellowIsh => "YellowIsh"@,
        ColorMatcher::CyanIsh => "CyanIsh"@,
        ColorMatcher::MagentaIsh => "MagentaIsh"@,
    }
}

/// Why a color check failed.
#[derive(Debug, Clone, Copy, PartialEq, Eq)]
pub enum ColorCheckError {
    /// The text whose color is checked is not on the screen.
    NotFound,
    /// The text was found but its color is not known.
    ValuesMissing,
    /// The color does not match the matcher.
    NoMatch { r: u8, g: u8, b: u8, matcher: ColorMatcher },
    /// The color is not the expected one.
    Mismatch { expected: (u8, u8, u8), actual: (u8, u8, u8) },
    /// The color was expected to be grayscale; `difference` is its spread.
    NotGrayscale { r: u8, g: u8, b: u8, difference: u8 },
    /// The color was expected not to be grayscale.
    UnexpectedGrayscale { r: u8, g: u8, b: u8 },
}

/// The color of some text on the screen, if the text was found.
#[derive(Debug, Clone, Copy)]
pub struct ColorAssertion {
    r: Option<u8>,
    g: Option<u8>,
    b: Option<u8>,
    found: bool,
}

impl ColorAssertion {
    pub closed spec fn spec_found(&self) -> bool {
        self.found
    }

    /// The color, when all three components are known.
    pub closed spec fn spec_rgb(&self) -> Option<(u8, u8, u8)> {
        match (self.r, self.g, self.b) {
            (Some(r), Some(g), Some(b)) => Some((r, g, b)),
            _ => None,
        }
    }

    /// The outcome of a check: text not found, color unknown, or the color.
    pub open spec fn checked_color(&self) -> Result<(u8, u8, u8), ColorCheckError> {
        if !self.spec_found() {
            Err(ColorCheckError::NotFound)
        } else {
            match self.spec_rgb() {
                Some(c) => Ok(c),
                None => Err(ColorCheckError::ValuesMissing),
            }
        }
    }

    pub fn new(r: Option<u8>, g: Option<u8>, b: Option<u8>, found: bool) -> (c: Self)
        ensures
            c.spec_found() == found,
            c.spec_rgb() == match (r, g, b) {
                (Some(r), Some(g), Some(b)) => Some((r, g, b)),
                _ => None,
            },
    {
        ColorAssertion { r, g, b, found }
    }

    /// A found color.
    pub fn from_rgb(r: u8, g: u8, b: u8) -> (c: Self)
        ensures
            c.spec_found(),
            c.spec_rgb() == Some((r, g, b)),
    {
        ColorAssertion { r: Some(r), g: Some(g), b: Some(b), found: true }
    }

    /// The color of text that is not on the screen.
    pub fn not_found() -> (c: Self)
        ensures
            !c.spec_found(),
            c.spec_rgb() is None,
    {
        ColorAssertion { r: None, g: None, b: None, found: false }
    }

    /// The color, or why it cannot be checked.
    fn color(&self) -> (c: Result<(u8, u8, u8), ColorCheckError>)
        ensures
            c == self.checked_color(),
    {
        if !self.found {
            return Err(ColorCheckError::NotFound);
        }
        match (self.r, self.g, self.b) {
            (Some(r), Some(g), Some(b)) => Ok((r, g, b)),
            _ => Err(ColorCheckError::ValuesMissing),
        }
    }

    /// Checks that the color matches `matcher`.
    pub fn assert_color(&self, matcher: ColorMatcher) -> (res: Result<(), ColorCheckError>)
        ensures
            match self.checked_color() {
                Err(e) => res == Err::<(), ColorCheckError>(e),
                Ok((r, g, b)) => if matches_spec(matcher, r, g, b) {
                    res is Ok
                } else {
                    res == Err::<(), ColorCheckError>(
                        ColorCheckError::NoMatch { r, g, b, matcher },
                    )
                },
            },
    {
        let (r, g, b) = self.color()?;
        if matcher.matches(r, g, b) {
            Ok(())
        } else {
            Err(ColorCheckError::NoMatch { r, g, b, matcher })
        }
    }

    /// Checks that the color matches `matcher` (the same as [`Self::assert_color`]).
    pub fn assert_matches(&self, matcher: ColorMatcher) -> (res: Result<(), ColorCheckError>)
        ensures
            match self.checked_color() {
                Err(e) => res == Err::<(), ColorCheckError>(e),
                Ok((r, g, b)) => if matches_spec(matcher, r, g, b) {
                    res is Ok
                } else {
                    res == Err::<(), ColorCheckError>(
                        ColorCheckError::NoMatch { r, g, b, matcher },
                    )
                },
            },
    {
        self.assert_color(matcher)
    }

    /// Checks that the color is exactly (expected_r, expected_g, expected_b).
    pub fn exact(&self, expected_r: u8, expected_g: u8, expected_b: u8) -> (res: Result<
        (),
        ColorCheckError,
    >)
        ensures
            match self.checked_color() {
                Err(e) => res == Err::<(), ColorCheckError>(e),
                Ok(actual) => if actual == (expected_r, expected_g, expected_b) {
                    res is Ok
                } else {
                    res == Err::<(), ColorCheckError>(
                        ColorCheckError::Mismatch {
                            expected: (expected_r, expected_g, expected_b),
                            actual,
                        },
                    )
                },
            },
    {
        let (r, g, b) = self.color()?;
        if r != expected_r || g != expected_g || b != expected_b {
            Err(
                ColorCheckError::Mismatch {
                    expected: (expected_r, expected_g, expected_b),
                    actual: (r, g, b),
                },
            )
        } else {
            Ok(())
        }
    }

    /// Checks that the color is exactly (r, g, b) (the same as [`Self::exact`]).
    pub fn assert_rgb(&self, r: u8, g: u8, b: u8) -> (res: Result<(), ColorCheckError>)
        ensures
            match self.checked_color() {
                Err(e) => res == Err::<(), ColorCheckError>(e),
                Ok(actual) => if actual == (r, g, b) {
                    res is Ok
                } else {
                    res == Err::<(), ColorCheckError>(
                        ColorCheckError::Mismatch { expected: (r, g, b), actual },
                    )
                },
            },
    {
        self.exact(r, g, b)
    }

    /// The color, when all three components are known.
    pub fn rgb(&self) -> (c: Option<(u8, u8, u8)>)
        ensures
            c == self.spec_rgb(),
    {
        match (self.r, self.g, self.b) {
            (Some(r), Some(g), Some(b)) => Some((r, g, b)),
            _ => None,
        }
    }

    /// Checks that the color is grayscale (components within 20 of each other).
    pub fn assert_grayscale(&self) -> (res: Result<(), ColorCheckError>)
        ensures
            res == grayscale_check(*self),
    {
        let (r, g, b) = self.color()?;
        let difference = max_of(r, g, b) - min_of(r, g, b);
        if difference <= 20 {
            Ok(())
        } else {
            Err(ColorCheckError::NotGrayscale { r, g, b, difference })
        }
    }

    /// Checks that the color is not grayscale.
    pub fn assert_not_grayscale(&self) -> (res: Result<(), ColorCheckError>)
        ensures
            res == not_grayscale_check(*self),
    {
        let (r, g, b) = self.color()?;
        if is_grayscale(r, g, b) {
            Err(ColorCheckError::UnexpectedGrayscale { r, g, b })
        } else {
            Ok(())
        }
    }
}

/// A grayscale color matches none of the color matchers that pick a
/// dominant component.
pub proof fn law_grayscale_matches_no_hue(r: u8, g: u8, b: u8, m: ColorMatcher)
    requires
        is_grayscale_spec(r, g, b),
        m != ColorMatcher::Grayscale,
    ensures
        !matches_spec(m, r, g, b),
{
}

/// No color is dominated by two different primary components: at most one of
/// red-ish, green-ish and blue-ish matches.
pub proof fn law_primary_matchers_exclusive(r: u8, g: u8, b: u8)
    ensures
        !(matches_spec(ColorMatcher::RedIsh, r, g, b) && matches_spec(ColorMatcher::GreenIsh, r, g, b)),
        !(matches_spec(ColorMatcher::RedIsh, r, g, b) && matches_spec(ColorMatcher::BlueIsh, r, g, b)),
        !(matches_spec(ColorMatcher::GreenIsh, r, g, b) && matches_spec(ColorMatcher::BlueIsh, r, g, b)),
{
}

/// What the grayscale check answers for a color assertion: the error of an
/// uncheckable color, else success exactly for a grayscale color.
pub open spec fn grayscale_check(c: ColorAssertion) -> Result<(), ColorCheckError> {
    match c.checked_color() {
        Err(e) => Err(e),
        Ok((r, g, b)) => if is_grayscale_spec(r, g, b) {
            Ok(())
        } else {
            Err(
                ColorCheckError::NotGrayscale {
                    r,
                    g,
                    b,
                    difference: (max3(r, g, b) - min3(r, g, b)) as u8,
                },
            )
        },
    }
}

/// What the not-grayscale check answers for a color assertion: the error of
/// an uncheckable color, else success exactly for a color that is not
/// grayscale.
pub open spec fn not_grayscale_check(c: ColorAssertion) -> Result<(), ColorCheckError> {
    match c.checked_color() {
        Err(e) => Err(e),
        Ok((r, g, b)) => if !is_grayscale_spec(r, g, b) {
            Ok(())
        } else {
            Err(ColorCheckError::UnexpectedGrayscale { r, g, b })
        },
    }
}

/// Of any color that can be checked, exactly one of the grayscale check and
/// the not-grayscale check passes, and the grayscale check passes exactly
/// when the `Grayscale` matcher matches.
pub proof fn law_grayscale_checks_complementary(c: ColorAssertion)
    requires
        c.checked_color() is Ok,
    ensures
        grayscale_check(c) is Ok <==> !(not_grayscale_check(c) is Ok),
        grayscale_check(c) is Ok <==> ({
            let (r, g, b) = c.checked_color()->Ok_0;
            matches_spec(ColorMatcher::Grayscale, r, g, b)
        }),
{
}

/// A color that cannot be checked (not on the screen, or its components not
/// known) fails every check with the same error.
pub proof fn law_unchecked_color_fails_alike(c: ColorAssertion)
    requires
        c.checked_color() is Err,
    ensures
        grayscale_check(c) == not_grayscale_check(c),
        grayscale_check(c) is Err,
{
}

/// What each color kind means, in plain arithmetic on the components (a sum
/// over 255 counts as 255): a dominant component is more than 30 above each
/// other one, and the two components of a mixed kind are both dominant over
/// the third and less than 60 apart. Gray is a spread of at most 20.
pub proof fn law_color_kinds_meaning(r: u8, g: u8, b: u8)
    ensures
        matches_spec(ColorMatcher::Grayscale, r, g, b) <==> (r - g <= 20 && g - r <= 20 && r - b
            <= 20 && b - r <= 20 && g - b <= 20 && b - g <= 20),
        matches_spec(ColorMatcher::RedIsh, r, g, b) <==> (r > g + 30 && r > b + 30),
        matches_spec(ColorMatcher::GreenIsh, r, g, b) <==> (g > r + 30 && g > b + 30),
        matches_spec(ColorMatcher::BlueIsh, r, g, b) <==> (b > r + 30 && b > g + 30),
        matches_spec(ColorMatcher::YellowIsh, r, g, b) <==> (r > b + 30 && g > b + 30 && r - g
            < 60 && g - r < 60),
        matches_spec(ColorMatcher::CyanIsh, r, g, b) <==> (g > r + 30 && b > r + 30 && g - b
            < 60 && b - g < 60),
        matches_spec(ColorMatcher::MagentaIsh, r, g, b) <==> (r > g + 30 && b > g + 30 && r - b
            < 60 && b - r < 60),
{
}

} // verus!
