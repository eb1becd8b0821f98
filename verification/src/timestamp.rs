//! Calendar timestamps and their canonical second-precision rendering.

use vstd::prelude::*;
use vstd::string::StringExecFns;

use crate::digits::digit_char;
use crate::digits::digit_to_str;

verus! {

/// A timestamp could not be rendered in the canonical pattern because
/// one of its components is out of range.
#[derive(Clone, Copy, Debug, PartialEq, Eq, Structural)]
pub struct FormatError;

/// A wall-clock instant, already normalized to the reference timezone
/// by whoever produced it. The canonical rendering carries no offset
/// marker, so the components here are taken at face value.
#[derive(Clone, Copy, Debug, PartialEq, Eq, Structural)]
pub struct Timestamp {
    pub year: u16,
    /// January is 1.
    pub month: u8,
    /// First day of the month is 1.
    pub day: u8,
    pub hour: u8,
    pub minute: u8,
    pub second: u8,
}

/// Two decimal digits, zero padded.
pub open spec fn pad2(n: int) -> Seq<char>
    recommends
        0 <= n < 100,
{
    seq![digit_char(n / 10), digit_char(n % 10)]
}

/// Four decimal digits, zero padded.
pub open spec fn pad4(n: int) -> Seq<char>
    recommends
        0 <= n < 10000,
{
    seq![digit_char(n / 1000), digit_char((n / 100) % 10), digit_char((n / 10) % 10), digit_char(
        n % 10,
    )]
}

impl Timestamp {
    /// Every component fits the canonical `YYYY-MM-DDTHH:MM:SS`
    /// pattern and names a nominal calendar position.
    pub open spec fn wf(self) -> bool {
        &&& self.year <= 9999
        &&& 1 <= self.month <= 12
        &&& 1 <= self.day <= 31
        &&& self.hour <= 23
        &&& self.minute <= 59
        &&& self.second <= 59
    }

    /// The canonical `YYYY-MM-DDTHH:MM:SS` rendering: second
    /// precision, no sub-second part and no timezone suffix.
    pub open spec fn spec_render(self) -> Seq<char> {
        pad4(self.year as int) + seq!['-'] + pad2(self.month as int) + seq!['-'] + pad2(
            self.day as int,
        ) + seq!['T'] + pad2(self.hour as int) + seq![':'] + pad2(self.minute as int) + seq![':']
            + pad2(self.second as int)
    }

    /// Decide whether the timestamp can be rendered canonically.
    pub fn is_wf(&self) -> (r: bool)
        ensures
            r == self.wf(),
    {
        self.year <= 9999 && 1 <= self.month && self.month <= 12 && 1 <= self.day && self.day <= 31
            && self.hour <= 23 && self.minute <= 59 && self.second <= 59
    }

    /// Render the timestamp in the canonical pattern.
    pub fn render(&self) -> (r: String)
        requires
            self.wf(),
        ensures
            r@ == self.spec_render(),
    {
        let r = pad4_exec(self.year as u64).concat(dash()).concat(
            pad2_exec(self.month as u64).as_str(),
        ).concat(dash()).concat(pad2_exec(self.day as u64).as_str()).concat(t_sep()).concat(
            pad2_exec(self.hour as u64).as_str(),
        ).concat(colon()).concat(pad2_exec(self.minute as u64).as_str()).concat(colon()).concat(
            pad2_exec(self.second as u64).as_str(),
        );
        proof {
            assert(r@ =~= self.spec_render());
        }
        r
    }
}

/// The `-` separator of the date part.
fn dash() -> (r: &'static str)
    ensures
        r@ =~= seq!['-'],
{
    proof {
        reveal_strlit("-");
    }
    "-"
}

/// The `T` separator between date and time.
fn t_sep() -> (r: &'static str)
    ensures
        r@ =~= seq!['T'],
{
    proof {
        reveal_strlit("T");
    }
    "T"
}

/// The `:` separator of the time part.
fn colon() -> (r: &'static str)
    ensures
        r@ =~= seq![':'],
{
    proof {
        reveal_strlit(":");
    }
    ":"
}

/// Render `n` as two zero-padded decimal digits.
fn pad2_exec(n: u64) -> (r: String)
    requires
        n < 100,
    ensures
        r@ == pad2(n as int),
{
    let r = digit_to_str(n / 10).to_owned().concat(digit_to_str(n % 10));
    proof {
        assert(r@ =~= pad2(n as int));
    }
    r
}

/// Render `n` as four zero-padded decimal digits.
fn pad4_exec(n: u64) -> (r: String)
    requires
        n < 10000,
    ensures
        r@ == pad4(n as int),
{
    let r = digit_to_str(n / 1000).to_owned().concat(
        digit_to_str((n / 100) % 10),
    ).concat(digit_to_str((n / 10) % 10)).concat(digit_to_str(n % 10));
    proof {
        assert(r@ =~= pad4(n as int));
    }
    r
}

} // verus!
