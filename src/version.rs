use vstd::prelude::*;

verus! {

/// The character of a decimal digit.
pub open spec fn digit_char(d: nat) -> char {
    if d == 0 { '0' }
    else if d == 1 { '1' }
    else if d == 2 { '2' }
    else if d == 3 { '3' }
    else if d == 4 { '4' }
    else if d == 5 { '5' }
    else if d == 6 { '6' }
    else if d == 7 { '7' }
    else if d == 8 { '8' }
    else { '9' }
}

/// The decimal text of `n`, without leading zeros.
pub open spec fn decimal(n: nat) -> Seq<char>
    decreases n,
{
    if n < 10 {
        seq![digit_char(n)]
    } else {
        decimal(n / 10).push(digit_char(n % 10))
    }
}

/// The decimal text of `n`, padded with a leading zero to at least two digits.
pub open spec fn two_digits(n: nat) -> Seq<char> {
    if n < 10 {
        seq!['0'] + decimal(n)
    } else {
        decimal(n)
    }
}

/// How a version is shown: the major number, a dot, and the patch number in
/// two digits at least.
pub open spec fn version_text(major: nat, patch: nat) -> Seq<char> {
    decimal(major) + seq!['.'] + two_digits(patch)
}

/// The application's version. It is shown as `major.patch`; the patch
/// number runs from 0 to 99 and then rolls over into the major number.
#[derive(Debug, Clone, Copy, PartialEq, Eq, Structural)]
pub struct Version {
    pub major: u32,
    pub minor: u32,
    pub patch: u32,
}

fn digit_str(d: u32) -> (r: &'static str)
    requires
        d < 10,
    ensures
        r@ == seq![digit_char(d as nat)],
{
    proof {
        reveal_strlit("0");
        reveal_strlit("1");
        reveal_strlit("2");
        reveal_strlit("3");
        reveal_strlit("4");
        reveal_strlit("5");
        reveal_strlit("6");
        reveal_strlit("7");
        reveal_strlit("8");
        reveal_strlit("9");
    }
    if d == 0 { "0" }
    else if d == 1 { "1" }
    else if d == 2 { "2" }
    else if d == 3 { "3" }
    else if d == 4 { "4" }
    else if d == 5 { "5" }
    else if d == 6 { "6" }
    else if d == 7 { "7" }
    else if d == 8 { "8" }
    else { "9" }
}

/// Appends the decimal text of `n` to `out`.
fn push_decimal(out: &mut String, n: u32)
    ensures
        final(out)@ == old(out)@ + decimal(n as nat),
    decreases n,
{
    if n >= 10 {
        push_decimal(out, n / 10);
    }
    out.append(digit_str(n % 10));
    assert(out@ =~= old(out)@ + decimal(n as nat));
}

impl Version {
    pub fn new(major: u32, minor: u32, patch: u32) -> (r: Self)
        ensures
            r.major == major,
            r.minor == minor,
            r.patch == patch,
    {
        Version { major, minor, patch }
    }

    /// The text `major.patch`, with the patch number in two digits at least.
    pub fn to_string(&self) -> (r: String)
        ensures
            r@ == version_text(self.major as nat, self.patch as nat),
    {
        let mut out = String::new();
        push_decimal(&mut out, self.major);
        proof {
            reveal_strlit(".");
            reveal_strlit("0");
        }
        out.append(".");
        if self.patch < 10 {
            out.append("0");
        }
        push_decimal(&mut out, self.patch);
        assert(out@ =~= version_text(self.major as nat, self.patch as nat));
        out
    }

    /// Moves to the next patch number; after 99 the major number goes up by
    /// one and the patch number starts again at 0.
    pub fn increment_minor(&mut self)
        requires
            old(self).patch < u32::MAX,
            old(self).patch + 1 >= 100 ==> old(self).major < u32::MAX,
        ensures
            final(self).minor == old(self).minor,
            old(self).patch + 1 >= 100 ==> final(self).major == old(self).major + 1
                && final(self).patch == 0,
            old(self).patch + 1 < 100 ==> final(self).major == old(self).major
                && final(self).patch == old(self).patch + 1,
    {
        self.patch = self.patch + 1;
        if self.patch >= 100 {
            self.major = self.major + 1;
            self.patch = 0;
        }
    }
}

} // verus!
